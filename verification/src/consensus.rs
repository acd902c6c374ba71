//! Consensus byte encoding: canonical, length-prefixed serialization of
//! byte strings, with decoding bounded by an explicit maximum size so that a
//! hostile length prefix cannot force an unbounded allocation.

use vstd::prelude::*;

use crate::varint::varint_decode;
use crate::varint::varint_encode;
use crate::varint::lemma_varint_decode_consumed;
use crate::varint::read_varint;
use crate::varint::varint_required_space;
use crate::varint::write_varint;
use crate::varint::DecodeError;

verus! {

/// Types with a canonical consensus byte encoding.
pub trait ConsensusEncoding {
    /// The canonical encoded bytes of this value.
    spec fn encoded(&self) -> Seq<u8>;

    /// Appends the canonical encoding of `self` to `writer`.
    fn consensus_encode(&self, writer: &mut Vec<u8>)
        ensures
            final(writer)@ == old(writer)@ + self.encoded(),
    ;
}

/// Encodable types whose exact encoded size is known without encoding.
pub trait ConsensusEncodingSized: ConsensusEncoding {
    /// The number of bytes `consensus_encode` appends.
    fn consensus_encode_exact_size(&self) -> (n: usize)
        requires
            self.encoded().len() <= usize::MAX,
        ensures
            n == self.encoded().len(),
    ;
}

/// Types decodable from their canonical consensus encoding.
pub trait ConsensusDecoding: Sized {
    /// The abstract value (as its byte view) and the consumed length that a
    /// byte sequence decodes to, or the exact error it is rejected with.
    spec fn decode_spec(s: Seq<u8>) -> Result<(Seq<u8>, nat), DecodeError>;

    /// The abstract byte view of a decoded value.
    spec fn decoded_view(&self) -> Seq<u8>;

    /// Decodes one value from `data` starting at `pos`; on success returns
    /// the value and the position just past its encoding.
    fn consensus_decode(data: &Vec<u8>, pos: usize) -> (r: Result<(Self, usize), DecodeError>)
        requires
            pos <= data@.len(),
        ensures
            match Self::decode_spec(data@.skip(pos as int)) {
                Ok(p) => r matches Ok(q) && q.0.decoded_view() == p.0 && q.1 == pos + p.1,
                Err(e) => r matches Err(e2) && e2 == e,
            },
    ;
}

/// The canonical encoding of a raw byte string: its length as a base-128
/// variable-length integer, then its bytes.
pub open spec fn length_prefixed(s: Seq<u8>) -> Seq<u8> {
    varint_encode(s.len()) + s
}

/// What a length-prefixed byte string of at most `max` bytes decodes to.
pub open spec fn length_prefixed_decode(s: Seq<u8>, max: nat) -> Result<
    (Seq<u8>, nat),
    DecodeError,
> {
    match varint_decode(s) {
        None => Err(DecodeError::UnexpectedEof),
        Some(p) => if p.0 > u64::MAX {
            Err(DecodeError::Overflow)
        } else if p.0 > max {
            Err(DecodeError::SizeExceeded)
        } else if s.len() < p.1 + p.0 {
            Err(DecodeError::UnexpectedEof)
        } else {
            Ok((s.subrange(p.1 as int, (p.1 + p.0) as int), p.1 + p.0))
        },
    }
}

impl ConsensusEncoding for Vec<u8> {
    open spec fn encoded(&self) -> Seq<u8> {
        length_prefixed(self@)
    }

    fn consensus_encode(&self, writer: &mut Vec<u8>) {
        write_varint(self.len() as u64, writer);
        let ghost mid = writer@;
        let n: usize = self.len();
        let mut i: usize = 0;
        while i < n
            invariant
                n == self@.len(),
                i <= n,
                writer@ == mid + self@.take(i as int),
            decreases n - i,
        {
            writer.push(self[i]);
            proof {
                assert(mid + self@.take(i as int) + seq![self@[i as int]] =~= mid + self@.take(
                    i + 1,
                ));
            }
            i = i + 1;
        }
        proof {
            assert(self@.take(n as int) =~= self@);
            assert(writer@ =~= old(writer)@ + self.encoded());
        }
    }
}

impl ConsensusEncodingSized for Vec<u8> {
    fn consensus_encode_exact_size(&self) -> (n: usize) {
        let prefix = varint_required_space(self.len() as u64);
        prefix + self.len()
    }
}

/// A byte string whose length is statically bounded by `MAX`; the bound is
/// enforced on construction and on decode, so a hostile length prefix cannot
/// force an unbounded allocation.
#[derive(Debug)]
pub struct MaxSizeBytes<const MAX: usize> {
    inner: Vec<u8>,
}

impl<const MAX: usize> View for MaxSizeBytes<MAX> {
    type V = Seq<u8>;

    closed spec fn view(&self) -> Seq<u8> {
        self.inner@
    }
}

impl<const MAX: usize> MaxSizeBytes<MAX> {
    #[verifier::type_invariant]
    spec fn inv(self) -> bool {
        self.inner@.len() <= MAX
    }

    /// Wraps a byte vector, or returns it unchanged when it is longer than
    /// `MAX`.
    pub fn try_from(value: Vec<u8>) -> (r: Result<MaxSizeBytes<MAX>, Vec<u8>>)
        ensures
            match r {
                Ok(m) => value@.len() <= MAX && m@ == value@,
                Err(v) => value@.len() > MAX && v@ == value@,
            },
    {
        if value.len() > MAX {
            return Err(value);
        }
        Ok(MaxSizeBytes { inner: value })
    }

    /// The wrapped bytes, by reference.
    pub fn as_ref(&self) -> (r: &Vec<u8>)
        ensures
            r@ == self@,
    {
        &self.inner
    }

    /// The wrapped bytes, by value.
    pub fn into_vec(self) -> (r: Vec<u8>)
        ensures
            r@ == self@,
    {
        self.inner
    }

    /// The number of wrapped bytes: never more than `MAX`, since the bound
    /// is a type invariant of every value.
    pub fn len(&self) -> (n: usize)
        ensures
            n == self@.len(),
            n <= MAX,
    {
        proof {
            use_type_invariant(&*self);
        }
        self.inner.len()
    }
}

impl<const MAX: usize> ConsensusEncoding for MaxSizeBytes<MAX> {
    open spec fn encoded(&self) -> Seq<u8> {
        length_prefixed(self@)
    }

    fn consensus_encode(&self, writer: &mut Vec<u8>) {
        self.inner.consensus_encode(writer);
    }
}

impl<const MAX: usize> ConsensusEncodingSized for MaxSizeBytes<MAX> {
    fn consensus_encode_exact_size(&self) -> (n: usize) {
        let prefix = varint_required_space(self.inner.len() as u64);
        prefix + self.inner.len()
    }
}

impl<const MAX: usize> ConsensusDecoding for MaxSizeBytes<MAX> {
    open spec fn decode_spec(s: Seq<u8>) -> Result<(Seq<u8>, nat), DecodeError> {
        length_prefixed_decode(s, MAX as nat)
    }

    open spec fn decoded_view(&self) -> Seq<u8> {
        self@
    }

    fn consensus_decode(data: &Vec<u8>, pos: usize) -> (r: Result<
        (MaxSizeBytes<MAX>, usize),
        DecodeError,
    >) {
        let ghost s = data@.skip(pos as int);
        proof {
            lemma_varint_decode_consumed(s);
        }
        let (len, after_len) = match read_varint(data, pos) {
            Ok(p) => p,
            Err(e) => {
                return Err(e);
            },
        };
        if len > MAX as u64 {
            return Err(DecodeError::SizeExceeded);
        }
        let len_us: usize = len as usize;
        if data.len() - after_len < len_us {
            return Err(DecodeError::UnexpectedEof);
        }
        let mut inner: Vec<u8> = Vec::new();
        let mut i: usize = 0;
        while i < len_us
            invariant
                i <= len_us,
                after_len + len_us <= data@.len(),
                data@.len() <= usize::MAX,
                inner@ == data@.subrange(after_len as int, after_len + i),
            decreases len_us - i,
        {
            inner.push(data[after_len + i]);
            proof {
                assert(data@.subrange(after_len as int, after_len + i) + seq![
                    data@[after_len + i],
                ] =~= data@.subrange(after_len as int, after_len + i + 1));
            }
            i = i + 1;
        }
        proof {
            let p = varint_decode(s).unwrap();
            assert(data@.subrange(after_len as int, after_len + len_us) =~= s.subrange(
                p.1 as int,
                (p.1 + p.0) as int,
            ));
        }
        Ok((MaxSizeBytes { inner }, after_len + len_us))
    }
}

impl<const N: usize> ConsensusEncoding for [u8; N] {
    open spec fn encoded(&self) -> Seq<u8> {
        self@
    }

    fn consensus_encode(&self, writer: &mut Vec<u8>) {
        let mut i: usize = 0;
        while i < N
            invariant
                i <= N,
                writer@ == old(writer)@ + self@.take(i as int),
            decreases N - i,
        {
            writer.push(self[i]);
            proof {
                assert(old(writer)@ + self@.take(i as int) + seq![self@[i as int]] =~= old(
                    writer,
                )@ + self@.take(i + 1));
            }
            i = i + 1;
        }
        proof {
            assert(self@.take(N as int) =~= self@);
        }
    }
}

impl<const N: usize> ConsensusEncodingSized for [u8; N] {
    fn consensus_encode_exact_size(&self) -> (n: usize) {
        N
    }
}

impl<const N: usize> ConsensusDecoding for [u8; N] {
    open spec fn decode_spec(s: Seq<u8>) -> Result<(Seq<u8>, nat), DecodeError> {
        if s.len() < N {
            Err(DecodeError::UnexpectedEof)
        } else {
            Ok((s.subrange(0, N as int), N as nat))
        }
    }

    open spec fn decoded_view(&self) -> Seq<u8> {
        self@
    }

    fn consensus_decode(data: &Vec<u8>, pos: usize) -> (r: Result<([u8; N], usize), DecodeError>) {
        if data.len() - pos < N {
            return Err(DecodeError::UnexpectedEof);
        }
        let mut out: [u8; N] = [0u8; N];
        let mut i: usize = 0;
        while i < N
            invariant
                i <= N,
                pos + N <= data@.len(),
                data@.len() <= usize::MAX,
                forall|j: int| 0 <= j < i ==> out@[j] == data@[pos + j],
            decreases N - i,
        {
            out[i] = data[pos + i];
            i = i + 1;
        }
        proof {
            assert(out@ =~= data@.skip(pos as int).subrange(0, N as int));
        }
        Ok((out, pos + N))
    }
}

/// Encoding then decoding a bounded byte string round-trips: the decode
/// returns exactly the original bytes and consumes exactly the encoding,
/// whatever bytes follow it.
pub proof fn lemma_length_prefixed_roundtrip(s: Seq<u8>, max: nat, rest: Seq<u8>)
    requires
        s.len() <= max,
        s.len() <= u64::MAX,
    ensures
        length_prefixed_decode(length_prefixed(s) + rest, max) == Ok::<(Seq<u8>, nat), DecodeError>(
            (s, length_prefixed(s).len() as nat),
        ),
{
    let e = varint_encode(s.len());
    crate::varint::lemma_varint_roundtrip(s.len(), s + rest);
    assert(length_prefixed(s) + rest =~= e + (s + rest));
    let whole = e + (s + rest);
    assert(varint_decode(whole) == Some((s.len(), e.len() as nat)));
    assert(whole.subrange(e.len() as int, (e.len() + s.len()) as int) =~= s);
}

} // verus!
