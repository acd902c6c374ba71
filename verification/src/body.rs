//! Streaming response bodies: a finite sequence of byte chunks handed to the
//! consumer one at a time, consumed exactly once, with a clean end-of-stream
//! signal once every chunk has been read.

use vstd::prelude::*;

use crate::protocol::copy_bytes;

verus! {

/// A lazy, finite, single-consumption sequence of payload chunks. Reading
/// past the end yields `None` again and again, never an error; dropping the
/// body before exhaustion is an ordinary cancellation.
#[derive(Debug)]
pub struct Body {
    chunks: Vec<Vec<u8>>,
    consumed: usize,
}

impl Body {
    #[verifier::type_invariant]
    spec fn inv(self) -> bool {
        self.consumed <= self.chunks@.len()
    }

    /// The chunks not yet handed to the consumer, in the order the handler
    /// produced them.
    pub closed spec fn remaining(self) -> Seq<Seq<u8>> {
        Seq::new(
            (self.chunks@.len() - self.consumed) as nat,
            |i: int| self.chunks@[self.consumed + i]@,
        )
    }

    /// A body that will stream exactly the given chunks, in order.
    pub fn from_chunks(chunks: Vec<Vec<u8>>) -> (r: Body)
        ensures
            r.remaining().len() == chunks@.len(),
            forall|i: int| 0 <= i < chunks@.len() ==> r.remaining()[i] == #[trigger] chunks@[i]@,
    {
        Body { chunks, consumed: 0 }
    }

    /// A body carrying one payload, the common single-message response.
    pub fn from_message(msg: Vec<u8>) -> (r: Body)
        ensures
            r.remaining().len() == 1,
            r.remaining()[0] == msg@,
    {
        let mut chunks: Vec<Vec<u8>> = Vec::new();
        chunks.push(msg);
        let ghost gc = chunks@;
        let r = Body::from_chunks(chunks);
        proof {
            assert(r.remaining()[0] == gc[0]@);
        }
        r
    }

    /// An empty body: end-of-stream from the first read.
    pub fn empty() -> (r: Body)
        ensures
            r.remaining().len() == 0,
    {
        Body::from_chunks(Vec::new())
    }

    /// How many chunks are still unread.
    pub fn remaining_len(&self) -> (n: usize)
        ensures
            n == self.remaining().len(),
    {
        proof {
            use_type_invariant(&*self);
        }
        self.chunks.len() - self.consumed
    }

    /// The next chunk, or `None` exactly when the body is exhausted. After
    /// the end of the stream every further read returns `None` and leaves
    /// the body unchanged: the end is a clean, stable signal, not an error.
    pub fn next(&mut self) -> (r: Option<Vec<u8>>)
        ensures
            match r {
                Some(c) => {
                    &&& old(self).remaining().len() > 0
                    &&& c@ == old(self).remaining()[0]
                    &&& final(self).remaining() == old(self).remaining().skip(1)
                },
                None => {
                    &&& old(self).remaining().len() == 0
                    &&& final(self).remaining() == old(self).remaining()
                },
            },
    {
        proof {
            use_type_invariant(&*self);
        }
        if self.consumed < self.chunks.len() {
            let chunk = copy_bytes(&self.chunks[self.consumed]);
            self.consumed = self.consumed + 1;
            proof {
                assert(self.remaining() =~= old(self).remaining().skip(1));
            }
            Some(chunk)
        } else {
            proof {
                assert(self.remaining() =~= old(self).remaining());
            }
            None
        }
    }
}

} // verus!
