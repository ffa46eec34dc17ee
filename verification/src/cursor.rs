//! Chunk-reversing byte cursor.
//!
//! A dialog buffer is stored as consecutive four-byte groups (the final group
//! may be short); within each group the bytes must be read back to front,
//! while the groups themselves keep their order.  Every decoder in this crate
//! consumes its input through this cursor.

use vstd::prelude::*;

verus! {

/// Index into the source buffer of the byte that the chunk-reversing pass
/// yields at position `i`, for a buffer of length `n`.
pub open spec fn chunk_rev_index(n: int, i: int) -> int {
    let g = 4 * (i / 4);
    let e = if g + 4 <= n {
        g + 4
    } else {
        n
    };
    e - 1 - (i - g)
}

/// The byte sequence that the chunk-reversing cursor yields over `s`: each
/// four-byte group reversed in place, group order unchanged, same length.
pub open spec fn chunk_rev(s: Seq<u8>) -> Seq<u8> {
    Seq::new(s.len(), |i: int| s[chunk_rev_index(s.len() as int, i)])
}

/// Forward-only cursor over the chunk-reversed view of a byte buffer.
pub struct Cursor<'a> {
    data: &'a [u8],
    pos: usize,
}

impl<'a> Cursor<'a> {
    /// The underlying buffer, in storage order.
    pub closed spec fn source(self) -> Seq<u8> {
        self.data@
    }

    /// How many bytes have been yielded so far.
    pub closed spec fn position(self) -> int {
        self.pos as int
    }

    /// The whole reordered stream this cursor walks.
    pub open spec fn stream(self) -> Seq<u8> {
        chunk_rev(self.source())
    }

    /// The bytes not yet yielded.
    pub open spec fn rem(self) -> Seq<u8> {
        self.stream().skip(self.position())
    }

    pub open spec fn wf(self) -> bool {
        0 <= self.position() <= self.stream().len()
    }

    pub fn new(data: &'a [u8]) -> (c: Cursor<'a>)
        ensures
            c.wf(),
            c.source() == data@,
            c.position() == 0,
            c.rem() == c.stream(),
    {
        let c = Cursor { data, pos: 0 };
        proof {
            assert(c.rem() =~= c.stream());
        }
        c
    }

    /// Yields the next byte of the reordered stream, or `None` at its end.
    pub fn next(&mut self) -> (r: Option<u8>)
        requires
            old(self).wf(),
        ensures
            final(self).wf(),
            final(self).source() == old(self).source(),
            old(self).rem().len() > 0 ==> r == Some(old(self).rem()[0]) && final(self).position()
                == old(self).position() + 1,
            old(self).rem().len() == 0 ==> r is None && *final(self) == *old(self),
    {
        if self.pos < self.data.len() {
            proof {
                vstd::arithmetic::div_mod::lemma_fundamental_div_mod(self.pos as int, 4);
            }
            let g: usize = (self.pos / 4) * 4;
            let e: usize = if self.data.len() - g >= 4 {
                g + 4
            } else {
                self.data.len()
            };
            let idx: usize = e - 1 - (self.pos - g);
            let b: u8 = self.data[idx];
            proof {
                assert(idx as int == chunk_rev_index(self.source().len() as int, self.pos as int));
                assert(old(self).rem()[0] == self.stream()[self.pos as int]);
            }
            self.pos = self.pos + 1;
            Some(b)
        } else {
            proof {
                assert(old(self).rem().len() == 0);
            }
            None
        }
    }

    /// True when the stream is exhausted.
    pub fn done(&self) -> (r: bool)
        requires
            self.wf(),
        ensures
            r == (self.rem().len() == 0),
    {
        self.pos >= self.data.len()
    }
}

/// A buffer of one full group and one trailing byte is yielded with the full
/// group reversed and the partial group as it stands.
pub proof fn lemma_chunk_rev_one_full_one_partial(a: u8, b: u8, c: u8, d: u8, e: u8)
    ensures
        chunk_rev(seq![a, b, c, d, e]) == seq![d, c, b, a, e],
{
    assert(chunk_rev(seq![a, b, c, d, e]) =~= seq![d, c, b, a, e]);
}

} // verus!
