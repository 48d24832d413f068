//! The policies that a caller chooses from, and the mode that a group is in.

use crate::output::{self, indicates_error, ChildOutputOption};
use vstd::prelude::*;

verus! {

/// Indicate when to end an execution of parallel tasks in the same group, or a
/// sequence of groups.
#[derive(Clone, Copy, PartialEq, Eq, Structural, Hash, Debug)]
pub enum GroupEnd {
    /// Stop any and all active tasks on first failure. Stop them without
    /// reporting any output from them (except for the failed task). Don't start
    /// any subsequent task(s).
    OnFailureStopAll,
    /// On failure of any tasks that have already started, wait until all other
    /// parallel tasks finish, too. Report output from all of them. Don't start
    /// any subsequent tasks.
    OnFailureFinishActive,
    /// Run all group(s) and all task(s) in each group. Wait for all of them,
    /// even if any of them fail.
    ProcessAll,
}

/// Mode of handling task life cycle.
#[derive(Clone, Copy, PartialEq, Eq, Structural, Hash, Debug)]
pub enum SpawningMode {
    /// Default (until there is any error, or until we finish all tasks).
    ProcessAll,
    /// Finish active tasks, collect their output. Don't start any new ones.
    FinishActive,
    /// Stop any and all active tasks. Ignore their output (except for the task
    /// that has failed and that triggered this mode).
    StopAll,
}

impl GroupEnd {
    /// The mode that a group under this policy is in once one of its tasks has
    /// failed.
    pub open spec fn failure_mode(&self) -> SpawningMode {
        match *self {
            GroupEnd::OnFailureStopAll => SpawningMode::StopAll,
            GroupEnd::OnFailureFinishActive => SpawningMode::FinishActive,
            GroupEnd::ProcessAll => SpawningMode::ProcessAll,
        }
    }

    /// The mode that a group under this policy goes on in, once one of its
    /// tasks has failed.
    #[verifier::when_used_as_spec(failure_mode)]
    pub fn mode_after_error_in_same_group(&self) -> (mode: SpawningMode)
        ensures
            mode == self.failure_mode(),
    {
        match self {
            Self::OnFailureStopAll => SpawningMode::StopAll,
            Self::OnFailureFinishActive => SpawningMode::FinishActive,
            Self::ProcessAll => SpawningMode::ProcessAll,
        }
    }
}

/// Which binary of a package a task builds and runs.
#[derive(Clone, Copy, Debug)]
pub enum BinaryCrateName<'b> {
    /// The binary (executable) name is the same as `[package]` name in
    /// `Cargo.toml`. (That's the default binary crate, whose source code is by
    /// default in `src/main.rs`.)
    Main,
    /// Non-default binary name, whose source code is (by default) under
    /// `src/bin/`. The binary (executable) name is by default the same as its
    /// source file name (excluding `.rs`).
    Other(&'b str),
}

impl<'b> BinaryCrateName<'b> {
    /// The characters of the name that the build tool knows the binary by.
    pub open spec fn name(&self) -> Seq<char> {
        match *self {
            BinaryCrateName::Main => "main"@,
            BinaryCrateName::Other(o) => o@,
        }
    }

    /// The name that the build tool knows the binary by: `main` for the
    /// default binary.
    pub fn borrow(&self) -> (name: &str)
        ensures
            name@ == self.name(),
    {
        match self {
            Self::Main => "main",
            Self::Other(o) => o,
        }
    }
}

/// Indicate whether a sequence of groups goes on when another sequence, which
/// runs in parallel to it, has failed.
#[derive(Clone, Copy, PartialEq, Eq, Structural, Hash, Debug)]
pub enum SequenceEnd {
    /// On success of this group continue the sequence (any successive groups in
    /// this sequence), even if any other parallel sequence(s) have failed.
    ContinueRegardlessOfOthers,
    /// If any other sequence fails, stop this one, too. (Then follow this
    /// sequence's [GroupEnd].)
    StopOnOthersFailure,
}

impl SpawningMode {
    /// Whether a failure has been seen: every mode but
    /// [SpawningMode::ProcessAll] is entered on a failure only.
    pub open spec fn is_failure(&self) -> bool {
        *self != SpawningMode::ProcessAll
    }

    /// Whether the group has seen a failure.
    #[verifier::when_used_as_spec(is_failure)]
    pub fn has_error(&self) -> (failed: bool)
        ensures
            failed == self.is_failure(),
    {
        match self {
            Self::ProcessAll => false,
            _ => true,
        }
    }

    /// The mode after one more task has ended.
    ///
    /// A mode of failure stays: once a group has left
    /// [SpawningMode::ProcessAll], it never comes back to it. From
    /// [SpawningMode::ProcessAll] a failed task leads to the mode of a failure
    /// under `until`, and a task that succeeded changes nothing.
    pub open spec fn after(self, failed: bool, until: GroupEnd) -> SpawningMode {
        if self.is_failure() {
            self
        } else if failed {
            until.failure_mode()
        } else {
            SpawningMode::ProcessAll
        }
    }

    /// Whether a group under `until` can be in this mode: a mode of failure is
    /// the one that `until` asks for.
    pub open spec fn fits(self, until: GroupEnd) -> bool {
        self.is_failure() ==> self == until.failure_mode()
    }

    /// The mode after a child has ended with the given output and/or error.
    pub fn after_output_and_or_error<M, E>(
        self,
        output: &ChildOutputOption<M>,
        error: &Option<E>,
        group_until: &GroupEnd,
    ) -> (next: Self)
        requires
            self.fits(*group_until),
        ensures
            next == self.after(indicates_error(*output, *error), *group_until),
            next.fits(*group_until),
    {
        if self.has_error() {
            self
        } else {
            if output::has_error(output, error) {
                group_until.mode_after_error_in_same_group()
            } else {
                self
            }
        }
    }
}

impl Default for SpawningMode {
    fn default() -> (mode: Self)
        ensures
            mode == SpawningMode::ProcessAll,
    {
        Self::ProcessAll
    }
}

} // verus!
