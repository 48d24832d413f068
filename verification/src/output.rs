//! What a finished child leaves behind, and whether that counts as a failure.

use crate::group::ChildInfo;
use vstd::prelude::*;

verus! {

/// How a child process ended.
#[derive(Clone, Copy, PartialEq, Eq, Structural, Hash, Debug)]
pub struct ExitStatus {
    /// The exit code, if the process exited by itself; `None` if a signal ended
    /// it.
    pub code: Option<i32>,
}

impl ExitStatus {
    /// Success is a zero exit code. An end by a signal is no success.
    pub open spec fn is_success(&self) -> bool {
        self.code == Some(0i32)
    }

    /// Was termination successful?
    #[verifier::when_used_as_spec(is_success)]
    pub fn success(&self) -> (ok: bool)
        ensures
            ok == self.is_success(),
    {
        match self.code {
            Some(code) => code == 0,
            None => false,
        }
    }
}

/// The output of a finished process.
#[derive(PartialEq, Eq, Hash, Debug)]
pub struct ProcessOutput {
    /// How the process ended.
    pub status: ExitStatus,
    /// The data that the process wrote to stdout.
    pub stdout: Vec<u8>,
    /// The data that the process wrote to stderr.
    pub stderr: Vec<u8>,
}

impl Clone for ProcessOutput {
    fn clone(&self) -> (copy: Self)
        ensures
            copy.status == self.status,
            copy.stdout@ == self.stdout@,
            copy.stderr@ == self.stderr@,
    {
        ProcessOutput {
            status: self.status,
            stdout: self.stdout.clone(),
            stderr: self.stderr.clone(),
        }
    }
}

impl ProcessOutput {
    /// A task is judged failed if its exit status is no success or if it wrote
    /// anything to stderr: a warning there counts as a failure even with a zero
    /// exit code.
    pub open spec fn failed(&self) -> bool {
        !self.status.is_success() || self.stderr@.len() > 0
    }

    /// Whether the task that left this output is judged failed.
    #[verifier::when_used_as_spec(failed)]
    pub fn is_failed(&self) -> (failed: bool)
        ensures
            failed == self.failed(),
    {
        !self.status.success() || self.stderr.len() > 0
    }
}

/// The output of a finished child, with the description and the metadata of its
/// task. The output itself is absent if collecting it failed.
pub type ChildOutput<M> = (Option<ProcessOutput>, ChildInfo, M);

/// What a child left, if a child has finished.
pub type ChildOutputOption<M> = Option<ChildOutput<M>>;

/// Collected output and/or error.
pub type OutputAndOrError<M, E> = (ChildOutputOption<M>, Option<E>);

/// What a scan brought, if it brought anything.
pub type OptOutput<M, E> = Option<OutputAndOrError<M, E>>;

/// Whether the given output and/or error indicate a failure: an error is one,
/// and so is an output that is judged failed. A child whose output could not be
/// collected fails by the error that says so.
pub open spec fn indicates_error<M, E>(
    output_option: ChildOutputOption<M>,
    error_option: Option<E>,
) -> bool {
    error_option is Some || match output_option {
        Some((Some(out), _, _)) => out.failed(),
        _ => false,
    }
}

/// Whether the given output and/or error [Option]s indicate an error.
pub fn has_error<M, E>(output_option: &ChildOutputOption<M>, error_option: &Option<E>) -> (failed:
    bool)
    ensures
        failed == indicates_error(*output_option, *error_option),
{
    if error_option.is_some() {
        return true;
    }
    match output_option {
        Some((Some(out), _, _)) => out.is_failed(),
        _ => false,
    }
}

} // verus!
