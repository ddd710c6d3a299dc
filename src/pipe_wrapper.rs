use vstd::prelude::*;

use crate::error::PipeError;

verus! {

/// Declares `std::sync::mpsc::Receiver`, held opaque by the reader.
#[verifier::external_type_specification]
#[verifier::external_body]
#[verifier::reject_recursive_types(T)]
pub struct ExReceiver<T>(std::sync::mpsc::Receiver<T>);

/// A run of bytes of a stream together with its position in it.
pub struct DataChunk {
    /// Index of the chunk in the download plan (0 for decoded blocks).
    pub chunk_no: usize,
    /// The bytes.
    pub data: Vec<u8>,
    /// Where the bytes sit in the stream.
    pub range: std::ops::Range<usize>,
}

/// `c` holds exactly the bytes of `source` at its range.
pub open spec fn is_slice_of(c: &DataChunk, source: Seq<u8>) -> bool {
    &&& c.range.start + c.data@.len() <= source.len()
    &&& c.data@ == source.subrange(c.range.start as int, c.range.start + c.data@.len())
}

/// `c` starts at `pos` and its bytes end within the range of `usize`.
pub open spec fn fits_at(c: &DataChunk, pos: nat) -> bool {
    c.range.start == pos && pos + c.data@.len() <= usize::MAX
}

/// Relies on `std::sync::mpsc::Receiver::recv`: blocks until a chunk arrives;
/// `None` once every sender is gone. Nothing is known of the chunk.
#[verifier::external_body]
fn receive_chunk(receiver: &std::sync::mpsc::Receiver<DataChunk>) -> (r: Option<DataChunk>) {
    receiver.recv().ok()
}

/// A byte reader over a channel of chunks that hands out the bytes in stream
/// order, keeping chunks that arrive early until their predecessors came.
pub struct MpscReaderFromReceiver {
    pos: usize,
    receiver: std::sync::mpsc::Receiver<DataChunk>,
    current_buf: Vec<u8>,
    current_buf_pos: usize,
    current_start: usize,
    chunk_waiting_list: Vec<DataChunk>,
    debug: bool,
    produced: Ghost<Seq<u8>>,
}

impl MpscReaderFromReceiver {
    /// Bytes handed out so far.
    pub closed spec fn pos(&self) -> nat {
        self.pos as nat
    }

    /// Every byte handed out so far, in order.
    pub closed spec fn produced(&self) -> Seq<u8> {
        self.produced@
    }

    /// The bytes of the installed chunk not yet handed out.
    pub closed spec fn available(&self) -> Seq<u8> {
        self.current_buf@.subrange(self.current_buf_pos as int, self.current_buf@.len() as int)
    }

    /// The start offsets of the chunks that arrived early.
    pub closed spec fn waiting_starts(&self) -> Seq<usize> {
        self.chunk_waiting_list@.map_values(|c: DataChunk| c.range.start)
    }

    /// Number of chunks that arrived early.
    pub closed spec fn waiting_len(&self) -> int {
        self.chunk_waiting_list@.len() as int
    }

    /// The `i`-th chunk that arrived early.
    pub closed spec fn waiting_at(&self, i: int) -> &DataChunk {
        &self.chunk_waiting_list@[i]
    }

    /// The channel the reader receives from.
    pub closed spec fn receiver(&self) -> std::sync::mpsc::Receiver<DataChunk> {
        self.receiver
    }

    /// Whether reorder tracing was asked for.
    pub closed spec fn is_debug(&self) -> bool {
        self.debug
    }

    /// The reader's internal consistency.
    pub closed spec fn wf(&self) -> bool {
        &&& self.current_buf_pos <= self.current_buf@.len()
        &&& self.current_start + self.current_buf_pos == self.pos
        &&& self.produced@.len() == self.pos
        &&& self.current_start + self.current_buf@.len() <= usize::MAX
    }

    /// Every byte handed out and every chunk held agrees with `source`.
    pub closed spec fn faithful(&self, source: Seq<u8>) -> bool {
        &&& self.wf()
        &&& self.pos <= source.len()
        &&& self.produced@ == source.subrange(0, self.pos as int)
        &&& self.current_start + self.current_buf@.len() <= source.len()
        &&& self.current_buf@ == source.subrange(
            self.current_start as int,
            self.current_start + self.current_buf@.len(),
        )
        &&& forall|i: int|
            0 <= i < self.chunk_waiting_list@.len() ==> #[trigger] is_slice_of(
                &self.chunk_waiting_list@[i],
                source,
            )
    }

    /// A reader at position 0 that holds nothing yet.
    pub fn new(receiver: std::sync::mpsc::Receiver<DataChunk>, debug: bool) -> (r: Self)
        ensures
            r.wf(),
            r.pos() == 0,
            r.available().len() == 0,
            r.waiting_starts().len() == 0,
            r.is_debug() == debug,
            r.receiver() == receiver,
            forall|source: Seq<u8>| #[trigger] r.faithful(source),
    {
        let r = MpscReaderFromReceiver {
            pos: 0,
            receiver,
            current_buf: Vec::new(),
            current_buf_pos: 0,
            current_start: 0,
            chunk_waiting_list: Vec::new(),
            debug,
            produced: Ghost(Seq::empty()),
        };
        assert forall|source: Seq<u8>| #[trigger] r.faithful(source) by {
            assert(source.subrange(0, 0) =~= Seq::<u8>::empty());
            assert(r.current_buf@ =~= source.subrange(0, 0));
        }
        r
    }

    /// Whether installed bytes remain to be handed out.
    pub fn has_data(&self) -> (r: bool)
        requires
            self.wf(),
        ensures
            r == (self.available().len() > 0),
    {
        self.current_buf_pos < self.current_buf.len()
    }

    /// Takes in a chunk: it is installed if the installed bytes are used up and
    /// it starts at the current position, and kept for later otherwise.
    /// Returns whether it was installed.
    pub fn accept(&mut self, chunk: DataChunk) -> (r: bool)
        requires
            old(self).wf(),
        ensures
            final(self).wf(),
            final(self).pos() == old(self).pos(),
            final(self).produced() == old(self).produced(),
            r == (old(self).available().len() == 0 && fits_at(&chunk, old(self).pos())),
            r ==> final(self).available() == chunk.data@,
            r ==> final(self).waiting_starts() == old(self).waiting_starts(),
            !r ==> final(self).available() == old(self).available(),
            !r ==> final(self).waiting_starts() == old(self).waiting_starts().push(
                chunk.range.start,
            ),
            forall|source: Seq<u8>|
                old(self).faithful(source) && is_slice_of(&chunk, source)
                    ==> #[trigger] final(self).faithful(source),
    {
        if self.current_buf_pos >= self.current_buf.len() && chunk.range.start == self.pos
            && chunk.data.len() <= usize::MAX - self.pos {
            let ghost data = chunk.data@;
            self.current_buf = chunk.data;
            self.current_buf_pos = 0;
            self.current_start = self.pos;
            assert(self.available() =~= data);
            true
        } else {
            let ghost start = chunk.range.start;
            self.chunk_waiting_list.push(chunk);
            assert(self.waiting_starts() =~= old(self).waiting_starts().push(start));
            false
        }
    }

    /// Where the installed bytes are used up, installs the early chunk that
    /// starts at the current position, if one is waiting. Returns whether one was.
    pub fn install_waiting(&mut self) -> (r: bool)
        requires
            old(self).wf(),
        ensures
            final(self).wf(),
            final(self).pos() == old(self).pos(),
            final(self).produced() == old(self).produced(),
            r == (old(self).available().len() == 0 && exists|i: int|
                0 <= i < old(self).waiting_len() && fits_at(
                    #[trigger] old(self).waiting_at(i),
                    old(self).pos(),
                )),
            !r ==> final(self).available() == old(self).available(),
            !r ==> final(self).waiting_starts() == old(self).waiting_starts(),
            r ==> final(self).waiting_starts().len() + 1 == old(self).waiting_starts().len(),
            forall|source: Seq<u8>| #[trigger]
                old(self).faithful(source) ==> final(self).faithful(source),
    {
        if self.current_buf_pos < self.current_buf.len() {
            return false;
        }
        let n = self.chunk_waiting_list.len();
        let mut i: usize = 0;
        while i < n
            invariant
                n == self.chunk_waiting_list@.len(),
                *self == *old(self),
                self.wf(),
                self.current_buf_pos >= self.current_buf@.len(),
                forall|j: int| 0 <= j < i ==> !fits_at(&self.chunk_waiting_list@[j], self.pos as nat),
            decreases n - i,
        {
            if self.chunk_waiting_list[i].range.start == self.pos
                && self.chunk_waiting_list[i].data.len() <= usize::MAX - self.pos {
                let ghost before = self.chunk_waiting_list@;
                let ghost idx = i as int;
                let chunk = self.chunk_waiting_list.swap_remove(i);
                proof {
                    assert(fits_at(old(self).waiting_at(idx), old(self).pos()));
                }
                let ghost data = chunk.data@;
                self.current_buf = chunk.data;
                self.current_buf_pos = 0;
                self.current_start = self.pos;
                assert(self.available() =~= data);
                assert forall|source: Seq<u8>| #[trigger]
                    old(self).faithful(source) implies self.faithful(source) by {
                    assert(is_slice_of(&before[idx], source));
                    assert forall|j: int| 0 <= j < self.chunk_waiting_list@.len() implies #[trigger]
                        is_slice_of(&self.chunk_waiting_list@[j], source) by {
                        if j == idx {
                            assert(self.chunk_waiting_list@[j] == before[before.len() - 1]);
                        } else {
                            assert(self.chunk_waiting_list@[j] == before[j]);
                        }
                    }
                }
                return true;
            }
            i = i + 1;
        }
        false
    }

    /// Takes in what one receive gave: nothing means that every sender is
    /// gone, which fails with `UpstreamClosed`; a chunk goes to `accept`.
    /// `Ok(b)` tells whether installed bytes are now available.
    pub fn take_received(&mut self, got: Option<DataChunk>) -> (r: Result<bool, PipeError>)
        requires
            old(self).wf(),
        ensures
            final(self).wf(),
            final(self).pos() == old(self).pos(),
            final(self).produced() == old(self).produced(),
            got is None ==> r == Err::<bool, PipeError>(PipeError::UpstreamClosed),
            got is None ==> *final(self) == *old(self),
            got is Some ==> r == Ok::<bool, PipeError>(final(self).available().len() > 0),
            got is Some && old(self).available().len() == 0 && fits_at(&got->0, old(self).pos())
                ==> final(self).available() == got->0.data@ && final(self).waiting_starts()
                == old(self).waiting_starts(),
            got is Some && !(old(self).available().len() == 0 && fits_at(&got->0, old(self).pos()))
                ==> final(self).available() == old(self).available() && final(self).waiting_starts()
                == old(self).waiting_starts().push(got->0.range.start),
            got is Some ==> forall|source: Seq<u8>|
                old(self).faithful(source) && is_slice_of(&got->0, source)
                    ==> #[trigger] final(self).faithful(source),
    {
        match got {
            None => {
                Err(PipeError::UpstreamClosed)
            },
            Some(chunk) => {
                self.accept(chunk);
                Ok(self.has_data())
            },
        }
    }

    /// Makes installed bytes available where possible: from the early chunks,
    /// else by receiving one chunk, which is installed or kept. `Ok(false)`
    /// means the chunk received was an early one and the caller asks again.
    pub fn fill(&mut self) -> (r: Result<bool, PipeError>)
        requires
            old(self).wf(),
        ensures
            final(self).wf(),
            final(self).pos() == old(self).pos(),
            final(self).produced() == old(self).produced(),
            old(self).available().len() > 0 ==> r == Ok::<bool, PipeError>(true)
                && final(self).available() == old(self).available() && final(self).waiting_starts()
                == old(self).waiting_starts() && forall|source: Seq<u8>|
                old(self).faithful(source) ==> #[trigger] final(self).faithful(source),
            old(self).available().len() == 0 && (exists|i: int|
                0 <= i < old(self).waiting_len() && fits_at(
                    #[trigger] old(self).waiting_at(i),
                    old(self).pos(),
                )) ==> r is Ok && final(self).waiting_starts().len() + 1 == old(
                self,
            ).waiting_starts().len() && forall|source: Seq<u8>|
                old(self).faithful(source) ==> #[trigger] final(self).faithful(source),
            r matches Ok(b) ==> b == (final(self).available().len() > 0),
            r matches Err(e) ==> e == PipeError::UpstreamClosed,
    {
        if self.has_data() {
            return Ok(true);
        }
        if self.install_waiting() {
            return Ok(self.has_data());
        }
        let got = receive_chunk(&self.receiver);
        self.take_received(got)
    }

    /// Hands out up to `max` installed bytes, in stream order.
    pub fn take(&mut self, max: usize) -> (r: Vec<u8>)
        requires
            old(self).wf(),
        ensures
            final(self).wf(),
            r@.len() == if old(self).available().len() < max {
                old(self).available().len() as int
            } else {
                max as int
            },
            r@ == old(self).available().subrange(0, r@.len() as int),
            final(self).available() == old(self).available().subrange(
                r@.len() as int,
                old(self).available().len() as int,
            ),
            final(self).pos() == old(self).pos() + r@.len(),
            final(self).produced() == old(self).produced() + r@,
            final(self).waiting_starts() == old(self).waiting_starts(),
            forall|source: Seq<u8>| #[trigger]
                old(self).faithful(source) ==> final(self).faithful(source),
    {
        let remaining = self.current_buf.len() - self.current_buf_pos;
        let n = if remaining < max {
            remaining
        } else {
            max
        };
        let mut out: Vec<u8> = Vec::with_capacity(n);
        let start = self.current_buf_pos;
        let len = self.current_buf.len();
        let mut i: usize = 0;
        while i < n
            invariant
                *self == *old(self),
                len == self.current_buf@.len(),
                start == self.current_buf_pos,
                n <= self.current_buf@.len() - start,
                i <= n,
                out@ == self.current_buf@.subrange(start as int, start + i),
            decreases n - i,
        {
            out.push(self.current_buf[start + i]);
            i = i + 1;
            assert(out@ =~= self.current_buf@.subrange(start as int, start + i));
        }
        let ghost old_produced = self.produced@;
        self.current_buf_pos = start + n;
        self.pos = self.pos + n;
        self.produced = Ghost(old_produced + out@);
        assert(out@ =~= old(self).available().subrange(0, n as int));
        assert(self.available() =~= old(self).available().subrange(
            n as int,
            old(self).available().len() as int,
        ));
        assert forall|source: Seq<u8>| #[trigger]
            old(self).faithful(source) implies self.faithful(source) by {
            let s0 = self.current_start as int;
            assert(self.produced@ =~= source.subrange(0, self.pos as int)) by {
                assert(old_produced == source.subrange(0, old(self).pos as int));
                assert(out@ =~= source.subrange(old(self).pos as int, self.pos as int)) by {
                    assert forall|j: int| 0 <= j < n implies out@[j] == source[old(self).pos
                        + j] by {
                        assert(out@[j] == self.current_buf@[start + j]);
                        assert(self.current_buf@[start + j] == source[s0 + start + j]);
                    }
                }
            }
        }
        out
    }
}

/// A reader that was only ever given chunks that are slices of `source` has
/// handed out exactly the first `pos()` bytes of `source`, whatever the order
/// in which the chunks arrived.
pub proof fn lemma_reader_yields_source_prefix(r: &MpscReaderFromReceiver, source: Seq<u8>)
    requires
        r.faithful(source),
    ensures
        r.produced() == source.subrange(0, r.pos() as int),
        r.pos() + r.available().len() <= source.len(),
        r.available() == source.subrange(r.pos() as int, r.pos() + r.available().len() as int),
{
    let a = r.available();
    assert(a =~= source.subrange(r.pos() as int, r.pos() + a.len() as int));
}

} // verus!
