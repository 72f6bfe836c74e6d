//! The bounded body reader: a fold over the response's byte chunks with
//! a hard ceiling.
//!
//! Chunks are taken one at a time as they arrive; the moment the bytes
//! read so far plus the next chunk would pass `max_bytes`, the transfer
//! is aborted with `BodyTooLarge` — the oversized payload is never
//! buffered first.

use vstd::prelude::*;

use crate::errors::FetchError;

verus! {

/// Accumulates body chunks under a byte ceiling.
pub struct BodyReader {
    buf: Vec<u8>,
    max_bytes: usize,
}

impl BodyReader {
    /// The bytes accepted so far.
    pub closed spec fn bytes(self) -> Seq<u8> {
        self.buf@
    }

    /// The ceiling the reader was created with.
    pub closed spec fn cap(self) -> usize {
        self.max_bytes
    }

    /// Never holds more than `max_bytes` bytes.
    pub closed spec fn well_formed(self) -> bool {
        self.buf@.len() <= self.max_bytes
    }

    pub fn new(max_bytes: usize) -> (r: BodyReader)
        ensures
            r.bytes() == Seq::<u8>::empty(),
            r.cap() == max_bytes,
            r.well_formed(),
    {
        let r = BodyReader { buf: Vec::new(), max_bytes };
        proof {
            assert(r.bytes() =~= Seq::<u8>::empty());
        }
        r
    }

    /// Accept one chunk, or abort: a chunk that would push the total
    /// past the ceiling is refused whole, and the reader is unchanged.
    pub fn push_chunk(&mut self, chunk: &Vec<u8>) -> (r: Result<(), FetchError>)
        requires
            old(self).well_formed(),
        ensures
            final(self).cap() == old(self).cap(),
            final(self).well_formed(),
            old(self).bytes().len() + chunk@.len() > old(self).cap() ==> r == Err::<
                (),
                FetchError,
            >(FetchError::BodyTooLarge { limit: old(self).cap() }) && final(self).bytes() == old(
                self,
            ).bytes(),
            old(self).bytes().len() + chunk@.len() <= old(self).cap() ==> r == Ok::<
                (),
                FetchError,
            >(()) && final(self).bytes() == old(self).bytes() + chunk@,
    {
        if chunk.len() > self.max_bytes - self.buf.len() {
            return Err(FetchError::BodyTooLarge { limit: self.max_bytes });
        }
        let ghost buf0 = self.buf@;
        let mut i: usize = 0;
        while i < chunk.len()
            invariant
                i <= chunk@.len(),
                self.buf@ =~= buf0 + chunk@.subrange(0, i as int),
                buf0.len() + chunk@.len() <= self.max_bytes,
                self.max_bytes == old(self).max_bytes,
            decreases chunk@.len() - i,
        {
            let b = chunk[i];
            self.buf.push(b);
            proof {
                assert(buf0 + chunk@.subrange(0, i + 1) =~= (buf0 + chunk@.subrange(
                    0,
                    i as int,
                )).push(chunk@[i as int]));
            }
            i = i + 1;
        }
        proof {
            assert(chunk@.subrange(0, chunk@.len() as int) =~= chunk@);
        }
        Ok(())
    }

    /// The accumulated bytes, consuming the reader.
    pub fn into_bytes(self) -> (r: Vec<u8>)
        ensures
            r@ == self.bytes(),
    {
        self.buf
    }
}

/// Fold a complete chunk sequence under the ceiling: the concatenation
/// of all chunks where the total fits, `BodyTooLarge` where it does
/// not — the reader aborts at the first chunk that would pass the
/// ceiling, so no prefix beyond it is ever held.
pub fn read_bounded(chunks: &Vec<Vec<u8>>, max_bytes: usize) -> (r: Result<Vec<u8>, FetchError>)
    ensures
        chunks@.map_values(|c: Vec<u8>| c@).flatten().len() <= max_bytes ==> (r matches Ok(b)
            && b@ == chunks@.map_values(|c: Vec<u8>| c@).flatten()),
        chunks@.map_values(|c: Vec<u8>| c@).flatten().len() > max_bytes ==> r == Err::<
            Vec<u8>,
            FetchError,
        >(FetchError::BodyTooLarge { limit: max_bytes }),
{
    let ghost all = chunks@.map_values(|c: Vec<u8>| c@);
    let mut reader = BodyReader::new(max_bytes);
    let mut i: usize = 0;
    proof {
        assert(all.subrange(0, 0) =~= Seq::<Seq<u8>>::empty());
        assert(Seq::<Seq<u8>>::empty().flatten() =~= Seq::<u8>::empty()) by {
            reveal_with_fuel(Seq::<Seq<u8>>::flatten, 1);
        }
    }
    while i < chunks.len()
        invariant
            i <= chunks@.len(),
            all == chunks@.map_values(|c: Vec<u8>| c@),
            reader.cap() == max_bytes,
            reader.well_formed(),
            reader.bytes() == all.subrange(0, i as int).flatten(),
        decreases chunks@.len() - i,
    {
        let chunk = &chunks[i];
        proof {
            Seq::lemma_flatten_push(all.subrange(0, i as int), chunk@);
            assert(all.subrange(0, i as int).push(all[i as int]) =~= all.subrange(0, i + 1));
        }
        match reader.push_chunk(chunk) {
            Ok(()) => {},
            Err(e) => {
                proof {
                    lemma_flatten_prefix_len(all, i + 1);
                }
                return Err(e);
            },
        }
        i = i + 1;
    }
    proof {
        assert(all.subrange(0, chunks@.len() as int) =~= all);
    }
    Ok(reader.into_bytes())
}

/// The flattened whole is at least as long as any flattened prefix.
proof fn lemma_flatten_prefix_len(s: Seq<Seq<u8>>, i: int)
    requires
        0 <= i <= s.len(),
    ensures
        s.flatten().len() >= s.subrange(0, i).flatten().len(),
    decreases s.len() - i,
{
    if i < s.len() {
        lemma_flatten_prefix_len(s, i + 1);
        Seq::lemma_flatten_push(s.subrange(0, i), s[i]);
        assert(s.subrange(0, i).push(s[i]) =~= s.subrange(0, i + 1));
    } else {
        assert(s.subrange(0, i) =~= s);
    }
}

} // verus!
