//! Copying of the bytes that a child has written.

use vstd::prelude::*;

verus! {

/// The number of bytes that are copied in one piece.
pub const BUFFER_SIZE: usize = 8192;

/// Copies the bytes of `inp` to the end of `out`, in pieces of at most
/// `piece_len` bytes. A piece of no bytes ends the copying, as a read of no
/// bytes does: with `piece_len` zero nothing is copied.
fn copy_all_bytes_classic(out: &mut Vec<u8>, inp: &[u8], piece_len: usize) -> (total_len: usize)
    ensures
        total_len == if piece_len == 0 {
            0
        } else {
            inp@.len()
        },
        final(out)@ == old(out)@ + inp@.take(total_len as int),
{
    let mut total_len: usize = 0;
    loop
        invariant
            total_len <= inp@.len(),
            piece_len == 0 ==> total_len == 0,
            out@ == old(out)@ + inp@.take(total_len as int),
        ensures
            total_len == if piece_len == 0 {
                0
            } else {
                inp@.len()
            },
            out@ == old(out)@ + inp@.take(total_len as int),
        decreases inp@.len() - total_len,
    {
        let left: usize = inp.len() - total_len;
        let len_read: usize = if left < piece_len {
            left
        } else {
            piece_len
        };
        if len_read == 0 {
            break ;
        }
        let mut at: usize = 0;
        while at < len_read
            invariant
                at <= len_read,
                total_len + len_read <= inp@.len() <= usize::MAX,
                out@ == old(out)@ + inp@.take(total_len + at),
            decreases len_read - at,
        {
            out.push(inp[total_len + at]);
            at += 1;
            proof {
                assert(inp@.take(total_len + at) == inp@.take(total_len + at - 1).push(
                    inp@[total_len + at - 1],
                ));
            }
        }
        total_len += len_read;
    }
    total_len
}

/// Copy, in pieces of [BUFFER_SIZE] bytes: all bytes of `inp` go to the end of
/// `out`, in their order. Return the total length copied.
pub fn copy_all_bytes(out: &mut Vec<u8>, inp: &[u8]) -> (total_len: usize)
    ensures
        total_len == inp@.len(),
        final(out)@ == old(out)@ + inp@,
{
    copy_all_bytes_classic(out, inp, BUFFER_SIZE)
}

} // verus!
