//! Protocol identifiers: opaque, immutable byte strings used as the matching
//! key for a negotiated application protocol.

use vstd::prelude::*;

verus! {

/// An opaque byte-string token identifying an application-level protocol,
/// negotiated by the transport layer before a substream is handed to the
/// routing layer. Treated as an exact-match key; typically a short ASCII
/// path-like token such as `b"/tari/base-node/1.0"`.
#[derive(Debug)]
pub struct ProtocolId {
    bytes: Vec<u8>,
}

impl View for ProtocolId {
    type V = Seq<u8>;

    closed spec fn view(&self) -> Seq<u8> {
        self.bytes@
    }
}

impl ProtocolId {
    /// Wraps a byte string as a protocol identifier.
    pub fn from_bytes(bytes: Vec<u8>) -> (id: ProtocolId)
        ensures
            id@ == bytes@,
    {
        ProtocolId { bytes }
    }

    /// The identifier's bytes, for diagnostics and for the wire.
    pub fn as_bytes(&self) -> (r: &Vec<u8>)
        ensures
            r@ == self@,
    {
        &self.bytes
    }

    /// The number of bytes in the identifier.
    pub fn len(&self) -> (n: usize)
        ensures
            n == self@.len(),
    {
        self.bytes.len()
    }

    /// A copy of this identifier.
    pub fn duplicate(&self) -> (r: ProtocolId)
        ensures
            r@ == self@,
    {
        ProtocolId { bytes: copy_bytes(&self.bytes) }
    }

    /// Exact byte-for-byte comparison with another identifier.
    pub fn matches(&self, other: &ProtocolId) -> (r: bool)
        ensures
            r == (self@ == other@),
    {
        bytes_eq(&self.bytes, &other.bytes)
    }
}

/// Byte-for-byte equality of two byte vectors.
pub fn bytes_eq(a: &Vec<u8>, b: &Vec<u8>) -> (r: bool)
    ensures
        r == (a@ == b@),
{
    if a.len() != b.len() {
        assert(a@ != b@) by {
            assert(a@.len() != b@.len());
        }
        return false;
    }
    let n: usize = a.len();
    let mut i: usize = 0;
    while i < n
        invariant
            n == a@.len() == b@.len(),
            i <= n,
            forall|j: int| 0 <= j < i ==> a@[j] == b@[j],
        decreases n - i,
    {
        if a[i] != b[i] {
            return false;
        }
        i = i + 1;
    }
    assert(a@ =~= b@);
    true
}

/// A fresh vector holding the same bytes.
pub fn copy_bytes(a: &Vec<u8>) -> (r: Vec<u8>)
    ensures
        r@ == a@,
{
    let mut out: Vec<u8> = Vec::new();
    let n: usize = a.len();
    let mut i: usize = 0;
    while i < n
        invariant
            n == a@.len(),
            i <= n,
            out@ == a@.take(i as int),
        decreases n - i,
    {
        out.push(a[i]);
        assert(out@ =~= a@.take(i + 1 as int));
        i = i + 1;
    }
    assert(a@.take(n as int) =~= a@);
    out
}

} // verus!
