use vstd::prelude::*;

use crate::pipe_wrapper::{is_slice_of, DataChunk};

verus! {

/// Frames the decoder's output into positioned blocks.
pub struct DecodeProgress {
    unpacked_size: usize,
    emitted: Ghost<Seq<u8>>,
}

impl DecodeProgress {
    /// Bytes framed so far.
    pub closed spec fn unpacked(&self) -> nat {
        self.unpacked_size as nat
    }

    /// The decoded stream framed so far.
    pub closed spec fn emitted(&self) -> Seq<u8> {
        self.emitted@
    }

    /// The framer's internal consistency.
    pub closed spec fn wf(&self) -> bool {
        self.emitted@.len() == self.unpacked_size
    }

    /// Nothing framed yet.
    pub fn new() -> (r: DecodeProgress)
        ensures
            r.wf(),
            r.unpacked() == 0,
            r.emitted() == Seq::<u8>::empty(),
    {
        DecodeProgress { unpacked_size: 0, emitted: Ghost(Seq::empty()) }
    }

    /// Bytes framed so far.
    pub fn unpacked_size(&self) -> (r: usize)
        ensures
            r == self.unpacked(),
    {
        self.unpacked_size
    }

    /// Whether a block of `n` more bytes can be framed.
    pub fn can_frame(&self, n: usize) -> (r: bool)
        ensures
            r == (self.unpacked() + n <= usize::MAX),
    {
        n <= usize::MAX - self.unpacked_size
    }

    /// Frames one block read from the decoder: it covers the bytes right after
    /// those framed before.
    pub fn frame_block(&mut self, data: Vec<u8>) -> (r: DataChunk)
        requires
            old(self).wf(),
            old(self).unpacked() + data@.len() <= usize::MAX,
        ensures
            final(self).wf(),
            r.chunk_no == 0,
            r.data@ == data@,
            r.range.start == old(self).unpacked(),
            r.range.end == final(self).unpacked(),
            final(self).unpacked() == old(self).unpacked() + data@.len(),
            final(self).emitted() == old(self).emitted() + data@,
            is_slice_of(&r, final(self).emitted()),
    {
        let start = self.unpacked_size;
        let end = start + data.len();
        let ghost bytes = data@;
        self.unpacked_size = end;
        self.emitted = Ghost(self.emitted@ + bytes);
        let r = DataChunk { chunk_no: 0, data, range: start..end };
        assert(self.emitted@.subrange(start as int, end as int) =~= bytes);
        r
    }
}

/// A block that is a slice of the stream framed so far stays a slice of
/// every stream that continues it: the blocks that reach the sink are the
/// decoded stream, cut at the block boundaries.
pub proof fn lemma_block_in_whole_stream(c: &DataChunk, framed: Seq<u8>, whole: Seq<u8>)
    requires
        is_slice_of(c, framed),
        framed.len() <= whole.len(),
        whole.subrange(0, framed.len() as int) == framed,
    ensures
        is_slice_of(c, whole),
{
    let s = c.range.start as int;
    let e = s + c.data@.len();
    assert(whole.subrange(s, e) =~= framed.subrange(s, e)) by {
        assert forall|i: int| 0 <= i < e - s implies whole.subrange(s, e)[i] == framed.subrange(
            s,
            e,
        )[i] by {
            assert(whole.subrange(0, framed.len() as int)[s + i] == whole[s + i]);
        }
    }
}

} // verus!
