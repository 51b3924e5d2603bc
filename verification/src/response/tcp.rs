//! The connection reader's accumulation policy. The surrounding program
//! reads fixed-size chunks from the socket; each chunk is folded into the
//! accumulation buffer here: zero padding bytes are skipped, other bytes
//! are kept while the buffer is below the configured limit, and bytes
//! beyond it are only counted — the request is still parsed from the
//! truncated buffer.
use vstd::prelude::*;

verus! {

/// One chunk folded into the buffer and the overflow tally, byte by byte.
pub open spec fn absorb(buf: Seq<u8>, overflow: nat, chunk: Seq<u8>, limit: nat) -> (
    Seq<u8>,
    nat,
)
    decreases chunk.len(),
{
    if chunk.len() == 0 {
        (buf, overflow)
    } else if chunk[0] == 0 {
        absorb(buf, overflow, chunk.drop_first(), limit)
    } else if buf.len() < limit {
        absorb(buf.push(chunk[0]), overflow, chunk.drop_first(), limit)
    } else {
        absorb(buf, overflow + 1, chunk.drop_first(), limit)
    }
}

/// Dispatches one accepted connection: the surrounding program reads the
/// socket chunk by chunk and absorbs each here, then hands the buffer to
/// the responders.
pub struct Dispatcher {}

impl Dispatcher {
    /// Folds one read chunk into the accumulation buffer and the
    /// overflow tally.
    pub fn absorb_chunk(
        buffer: &mut Vec<u8>,
        overflow_bytes: &mut u64,
        chunk: &[u8],
        limit: usize,
    )
        requires
            *old(overflow_bytes) + chunk@.len() <= u64::MAX,
        ensures
            (final(buffer)@, *final(overflow_bytes) as nat) == absorb(
                old(buffer)@,
                *old(overflow_bytes) as nat,
                chunk@,
                limit as nat,
            ),
    {
        let mut k: usize = 0;
        assert(chunk@.skip(0) =~= chunk@);
        while k < chunk.len()
            invariant
                0 <= k <= chunk@.len(),
                *overflow_bytes + (chunk@.len() - k) <= u64::MAX,
                absorb(buffer@, *overflow_bytes as nat, chunk@.skip(k as int), limit as nat)
                    == absorb(
                    old(buffer)@,
                    *old(overflow_bytes) as nat,
                    chunk@,
                    limit as nat,
                ),
            decreases chunk@.len() - k,
        {
            let ghost rest = chunk@.skip(k as int);
            assert(rest[0] == chunk@[k as int]);
            assert(rest.drop_first() =~= chunk@.skip(k + 1));
            let value = chunk[k];
            if value != 0 {
                if buffer.len() < limit {
                    buffer.push(value);
                } else {
                    *overflow_bytes = *overflow_bytes + 1;
                }
            }
            k = k + 1;
        }
        assert(chunk@.skip(chunk@.len() as int) =~= Seq::<u8>::empty());
    }
}

} // verus!
