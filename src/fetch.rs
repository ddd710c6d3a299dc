use vstd::prelude::*;

use crate::error::PipeError;
use crate::plan::READ_STEP_BYTES;

verus! {

/// The body of one chunk being read, a step at a time.
pub struct ChunkDownload {
    expected: Option<usize>,
    data: Vec<u8>,
    ended: bool,
}

impl ChunkDownload {
    /// The length the body must have, where known.
    pub closed spec fn expected(&self) -> Option<usize> {
        self.expected
    }

    /// The bytes read so far.
    pub closed spec fn data(&self) -> Seq<u8> {
        self.data@
    }

    /// Whether the body is complete.
    pub closed spec fn complete(&self) -> bool {
        match self.expected {
            Some(e) => self.data@.len() == e,
            None => self.ended,
        }
    }

    /// The accumulator's internal consistency.
    pub closed spec fn wf(&self) -> bool {
        self.expected matches Some(e) ==> self.data@.len() <= e
    }

    /// Bytes still owed, where the length is known.
    pub open spec fn left(&self) -> int {
        self.expected()->0 - self.data().len()
    }

    /// The size of the next read: at most one step, and no more than is owed.
    pub open spec fn next_len_spec(&self) -> int {
        match self.expected() {
            Some(e) => if self.left() < READ_STEP_BYTES {
                self.left()
            } else {
                READ_STEP_BYTES as int
            },
            None => READ_STEP_BYTES as int,
        }
    }

    /// An empty body of `expected` bytes, or of unknown length, read until
    /// the end of the response.
    pub fn new(expected: Option<usize>) -> (r: ChunkDownload)
        ensures
            r.wf(),
            r.expected() == expected,
            r.data().len() == 0,
            r.complete() == (expected == Some(0usize)),
    {
        ChunkDownload { expected, data: Vec::new(), ended: false }
    }

    /// Whether the body is complete.
    pub fn is_complete(&self) -> (r: bool)
        ensures
            r == self.complete(),
            self.expected() is Some ==> r == (self.data().len() == self.expected()->0),
    {
        match self.expected {
            Some(e) => self.data.len() == e,
            None => self.ended,
        }
    }

    /// How many bytes the next read may ask for.
    pub fn next_read_len(&self) -> (r: usize)
        requires
            self.wf(),
        ensures
            r == self.next_len_spec(),
    {
        match self.expected {
            Some(e) => {
                let left = e - self.data.len();
                if left < READ_STEP_BYTES {
                    left
                } else {
                    READ_STEP_BYTES
                }
            },
            None => READ_STEP_BYTES,
        }
    }

    /// Takes in what one read returned. An empty read ends a body of unknown
    /// length, and fails one of known length with `TransientRead`.
    /// Returns whether the body is complete.
    pub fn accept(&mut self, bytes: Vec<u8>) -> (r: Result<bool, PipeError>)
        requires
            old(self).wf(),
            !old(self).complete(),
            bytes@.len() <= old(self).next_len_spec(),
        ensures
            final(self).wf(),
            final(self).expected() == old(self).expected(),
            final(self).data() == old(self).data() + bytes@,
            bytes@.len() == 0 && old(self).expected() is Some ==> r == Err::<bool, PipeError>(
                PipeError::TransientRead,
            ),
            bytes@.len() == 0 && old(self).expected() is None ==> r == Ok::<bool, PipeError>(true)
                && final(self).complete(),
            bytes@.len() > 0 ==> r == Ok::<bool, PipeError>(final(self).complete()),
            r == Ok::<bool, PipeError>(true) && old(self).expected() is Some ==> final(self).data().len()
                == old(self).expected()->0,
            r == Ok::<bool, PipeError>(false) && old(self).expected() is Some
                ==> final(self).data().len() < old(self).expected()->0,
    {
        if bytes.len() == 0 {
            assert(bytes@ =~= Seq::<u8>::empty());
            assert(self.data@ =~= old(self).data@ + bytes@);
            return match self.expected {
                Some(_) => Err(PipeError::TransientRead),
                None => {
                    self.ended = true;
                    Ok(true)
                },
            };
        }
        let mut b = bytes;
        self.data.append(&mut b);
        Ok(self.is_complete())
    }

    /// The bytes read; a complete body of known length has exactly that length.
    pub fn into_data(self) -> (r: Vec<u8>)
        ensures
            r@ == self.data(),
            self.complete() && self.expected() is Some ==> r@.len() == self.expected()->0,
    {
        self.data
    }
}

} // verus!
