//! A fixed-capacity byte array: up to 63 bytes stored inline with a one-byte
//! length, so the whole value occupies exactly 64 bytes. Its consensus
//! encoding is the length byte followed by that many data bytes.

use vstd::prelude::*;

use crate::consensus::ConsensusDecoding;
use crate::consensus::ConsensusEncoding;
use crate::consensus::ConsensusEncodingSized;
use crate::varint::DecodeError;

verus! {

/// The capacity of a `FixedByteArray`.
pub const MAX_ARR_SIZE: usize = 63;

/// Errors raised when constructing a byte-array value from raw bytes.
#[derive(Debug)]
pub enum ByteArrayError {
    /// The input holds more bytes than the array can carry.
    IncorrectLength,
}

/// Up to 63 bytes stored inline behind a one-byte length.
#[derive(Debug, PartialEq, Eq)]
pub struct FixedByteArray {
    elems: [u8; MAX_ARR_SIZE],
    len: u8,
}

impl View for FixedByteArray {
    type V = Seq<u8>;

    closed spec fn view(&self) -> Seq<u8> {
        self.elems@.take(self.len as int)
    }
}

impl FixedByteArray {
    #[verifier::type_invariant]
    spec fn inv(self) -> bool {
        self.len as int <= MAX_ARR_SIZE as int
    }

    /// An empty array.
    pub fn new() -> (r: FixedByteArray)
        ensures
            r@ == Seq::<u8>::empty(),
    {
        Self::default()
    }

    /// The stored bytes.
    pub fn as_slice(&self) -> (r: &[u8])
        ensures
            r@ == self@,
    {
        proof {
            use_type_invariant(&*self);
        }
        let whole: &[u8] = self.elems.as_slice();
        let r = vstd::slice::slice_subrange(whole, 0, self.len as usize);
        proof {
            assert(r@ =~= self@);
        }
        r
    }

    /// The stored bytes, as raw-byte conversions name them.
    pub fn as_bytes(&self) -> (r: &[u8])
        ensures
            r@ == self@,
    {
        self.as_slice()
    }

    /// Appends one byte; the caller must leave room for it.
    pub fn push(&mut self, elem: u8)
        requires
            old(self)@.len() < MAX_ARR_SIZE,
        ensures
            final(self)@ == old(self)@.push(elem),
    {
        proof {
            use_type_invariant(&*self);
        }
        self.elems[self.len as usize] = elem;
        self.len = self.len + 1;
        proof {
            assert(self@ =~= old(self)@.push(elem));
        }
    }

    /// Whether no more bytes fit.
    pub fn is_full(&self) -> (r: bool)
        ensures
            r == (self@.len() == MAX_ARR_SIZE),
    {
        proof {
            use_type_invariant(&*self);
        }
        self.len() == MAX_ARR_SIZE
    }

    /// The number of stored bytes.
    pub fn len(&self) -> (n: usize)
        ensures
            n == self@.len(),
    {
        proof {
            use_type_invariant(&*self);
        }
        self.len as usize
    }

    /// Whether the array holds no bytes.
    pub fn is_empty(&self) -> (r: bool)
        ensures
            r == (self@.len() == 0),
    {
        proof {
            use_type_invariant(&*self);
        }
        self.len == 0
    }

    /// Copies at most 63 bytes into a fresh array; longer inputs are
    /// rejected with `IncorrectLength`.
    pub fn from_bytes(bytes: &[u8]) -> (r: Result<FixedByteArray, ByteArrayError>)
        ensures
            match r {
                Ok(a) => bytes@.len() <= MAX_ARR_SIZE && a@ == bytes@,
                Err(e) => bytes@.len() > MAX_ARR_SIZE && e matches ByteArrayError::IncorrectLength,
            },
    {
        if bytes.len() > MAX_ARR_SIZE {
            return Err(ByteArrayError::IncorrectLength);
        }
        let n: usize = bytes.len();
        let mut elems: [u8; MAX_ARR_SIZE] = [0u8; MAX_ARR_SIZE];
        let mut i: usize = 0;
        while i < n
            invariant
            i <= n,
            n == bytes@.len() <= MAX_ARR_SIZE,
            forall|j: int| 0 <= j < i ==> elems@[j] == bytes@[j],
            decreases n - i,
        {
            elems[i] = *vstd::slice::slice_index_get(bytes, i);
            i = i + 1;
        }
        let r = FixedByteArray { elems, len: n as u8 };
        proof {
            assert(r@ =~= bytes@);
        }
        Ok(r)
    }
}

impl Clone for FixedByteArray {
    /// An identical copy.
    fn clone(&self) -> (r: Self)
        ensures
            r@ == self@,
    {
        proof {
            use_type_invariant(&*self);
        }
        let r = FixedByteArray { elems: self.elems, len: self.len };
        proof {
            assert(r@ =~= self@);
        }
        r
    }
}

impl Default for FixedByteArray {
    /// An empty array backed by zeroed storage.
    fn default() -> (r: FixedByteArray)
        ensures
            r@ == Seq::<u8>::empty(),
    {
        let r = FixedByteArray { elems: [0u8; MAX_ARR_SIZE], len: 0 };
        proof {
            assert(r@ =~= Seq::<u8>::empty());
        }
        r
    }
}

impl ConsensusEncoding for FixedByteArray {
    open spec fn encoded(&self) -> Seq<u8> {
        seq![self@.len() as u8] + self@
    }

    fn consensus_encode(&self, writer: &mut Vec<u8>) {
        proof {
            use_type_invariant(&*self);
        }
        writer.push(self.len);
        let ghost mid = writer@;
        let n: usize = self.len as usize;
        let mut i: usize = 0;
        while i < n
            invariant
            i <= n,
            n <= MAX_ARR_SIZE,
            n == self@.len(),
            self.len as int == n,
            writer@ == mid + self@.take(i as int),
            decreases n - i,
        {
            let b = self.elems[i];
            proof {
                assert(self@[i as int] == self.elems@[i as int]);
                assert(mid + self@.take(i as int) + seq![self@[i as int]] =~= mid + self@.take(
                    i + 1,
                ));
            }
            writer.push(b);
            i = i + 1;
        }
        proof {
            assert(self@.take(n as int) =~= self@);
            assert(writer@ =~= old(writer)@ + self.encoded());
        }
    }
}

impl ConsensusEncodingSized for FixedByteArray {
    fn consensus_encode_exact_size(&self) -> (n: usize) {
        proof {
            use_type_invariant(&*self);
        }
        self.len as usize + 1
    }
}

impl ConsensusDecoding for FixedByteArray {
    open spec fn decode_spec(s: Seq<u8>) -> Result<(Seq<u8>, nat), DecodeError> {
        if s.len() == 0 {
            Err(DecodeError::UnexpectedEof)
        } else if s[0] > MAX_ARR_SIZE as u8 {
            Err(DecodeError::SizeExceeded)
        } else if s.len() < 1 + s[0] {
            Err(DecodeError::UnexpectedEof)
        } else {
            Ok((s.subrange(1, 1 + s[0] as int), 1 + s[0] as nat))
        }
    }

    open spec fn decoded_view(&self) -> Seq<u8> {
        self@
    }

    fn consensus_decode(data: &Vec<u8>, pos: usize) -> (r: Result<
        (FixedByteArray, usize),
        DecodeError,
    >) {
        let ghost s = data@.skip(pos as int);
        if pos == data.len() {
            proof {
                assert(s.len() == 0);
            }
            return Err(DecodeError::UnexpectedEof);
        }
        let len_byte: u8 = data[pos];
        proof {
            assert(s[0] == data@[pos as int]);
        }
        if len_byte > MAX_ARR_SIZE as u8 {
            return Err(DecodeError::SizeExceeded);
        }
        let n: usize = len_byte as usize;
        if data.len() - (pos + 1) < n {
            return Err(DecodeError::UnexpectedEof);
        }
        let mut ret = FixedByteArray::new();
        let mut i: usize = 0;
        while i < n
            invariant
            i <= n,
            n <= MAX_ARR_SIZE,
            pos + 1 + n <= data@.len(),
            data@.len() <= usize::MAX,
            ret@ == data@.subrange(pos + 1, pos + 1 + i),
            decreases n - i,
        {
            ret.push(data[pos + 1 + i]);
            proof {
                assert(data@.subrange(pos + 1, pos + 1 + i).push(data@[pos + 1 + i]) =~= data@
                    .subrange(pos + 1, pos + 1 + i + 1));
            }
            i = i + 1;
        }
        proof {
            assert(ret@ =~= s.subrange(1, 1 + s[0] as int));
        }
        Ok((ret, pos + 1 + n))
    }
}

} // verus!
