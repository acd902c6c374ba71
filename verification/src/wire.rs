//! The byte-level framing of requests and responses on a substream.
//!
//! Every frame is prefixed by its length as a base-128 variable-length
//! integer, and decoding bounds each frame by an explicit maximum so a
//! hostile length prefix cannot force an unbounded allocation. A request is
//! the caller's id followed by one payload frame. A response is the status —
//! code, then detail bytes — followed by the body: each chunk behind a
//! continuation marker byte, then an explicit end-of-body marker that is
//! distinguishable from an empty chunk.

use vstd::prelude::*;

use crate::body::Body;
use crate::consensus::length_prefixed;
use crate::consensus::length_prefixed_decode;
use crate::consensus::ConsensusDecoding;
use crate::consensus::ConsensusEncoding;
use crate::consensus::MaxSizeBytes;
use crate::message::Request;
use crate::message::Response;
use crate::message::RpcStatus;
use crate::varint::read_varint;
use crate::varint::varint_decode;
use crate::varint::varint_encode;
use crate::varint::write_varint;
use crate::varint::DecodeError;

verus! {

/// The most bytes one frame may carry.
pub const MAX_FRAME_SIZE: usize = 4 * 1024 * 1024;

/// The marker byte standing before each body chunk.
pub const CHUNK_MARKER: u8 = 1;

/// The marker byte ending a body.
pub const END_OF_BODY_MARKER: u8 = 0;

/// The wire form of a request: the caller's id, then the payload behind a
/// length prefix.
pub open spec fn request_encoding(call_id: nat, payload: Seq<u8>) -> Seq<u8> {
    varint_encode(call_id) + length_prefixed(payload)
}

/// What bytes decode to as a request, each frame bounded by `max`.
pub open spec fn request_decode(s: Seq<u8>, max: nat) -> Result<((nat, Seq<u8>), nat), DecodeError> {
    match varint_decode(s) {
        None => Err(DecodeError::UnexpectedEof),
        Some(p) => if p.0 > u64::MAX {
            Err(DecodeError::Overflow)
        } else {
            match length_prefixed_decode(s.skip(p.1 as int), max) {
                Err(e) => Err(e),
                Ok(q) => Ok(((p.0, q.0), p.1 + q.1)),
            }
        },
    }
}

/// The wire form of a body: each chunk behind the chunk marker and a length
/// prefix, then the end-of-body marker.
pub open spec fn body_encoding(chunks: Seq<Seq<u8>>) -> Seq<u8>
    decreases chunks.len(),
{
    if chunks.len() == 0 {
        seq![END_OF_BODY_MARKER]
    } else {
        seq![CHUNK_MARKER] + length_prefixed(chunks[0]) + body_encoding(chunks.skip(1))
    }
}

/// What bytes decode to as a body: the chunks up to the end-of-body marker,
/// each bounded by `max`.
pub open spec fn body_decode(s: Seq<u8>, max: nat) -> Result<(Seq<Seq<u8>>, nat), DecodeError>
    decreases s.len(),
    via body_decode_decreases
{
    if s.len() == 0 {
        Err(DecodeError::UnexpectedEof)
    } else if s[0] == END_OF_BODY_MARKER {
        Ok((Seq::empty(), 1))
    } else if s[0] != CHUNK_MARKER {
        Err(DecodeError::InvalidMarker)
    } else {
        match length_prefixed_decode(s.skip(1), max) {
            Err(e) => Err(e),
            Ok(p) => match body_decode(s.skip(1 + p.1 as int), max) {
                Err(e) => Err(e),
                Ok(q) => Ok((seq![p.0] + q.0, 1 + p.1 + q.1)),
            },
        }
    }
}

#[via_fn]
proof fn body_decode_decreases(s: Seq<u8>, max: nat) {
    if s.len() > 0 && s[0] == CHUNK_MARKER {
        match length_prefixed_decode(s.skip(1), max) {
            Ok(p) => {
                crate::varint::lemma_varint_decode_consumed(s.skip(1));
                assert(p.1 <= s.skip(1).len());
            },
            Err(_) => {},
        }
    }
}

/// The wire form of a response: the status code, the status details behind a
/// length prefix, then the body frames.
pub open spec fn response_encoding(code: nat, details: Seq<u8>, chunks: Seq<Seq<u8>>) -> Seq<u8> {
    varint_encode(code) + length_prefixed(details) + body_encoding(chunks)
}

/// What bytes decode to as a response: status code, status details and body
/// chunks, each frame bounded by `max`.
pub open spec fn response_decode(s: Seq<u8>, max: nat) -> Result<
    ((nat, Seq<u8>, Seq<Seq<u8>>), nat),
    DecodeError,
> {
    match varint_decode(s) {
        None => Err(DecodeError::UnexpectedEof),
        Some(p) => if p.0 > u64::MAX {
            Err(DecodeError::Overflow)
        } else {
            match length_prefixed_decode(s.skip(p.1 as int), max) {
                Err(e) => Err(e),
                Ok(q) => match body_decode(s.skip((p.1 + q.1) as int), max) {
                    Err(e) => Err(e),
                    Ok(c) => Ok(((p.0, q.0, c.0), p.1 + q.1 + c.1)),
                },
            }
        },
    }
}

/// Round trip for requests: decoding an encoded request, whatever bytes
/// follow it, yields the call id and payload back and consumes exactly the
/// encoding.
pub proof fn lemma_request_roundtrip(call_id: nat, payload: Seq<u8>, rest: Seq<u8>, max: nat)
    requires
        call_id <= u64::MAX,
        payload.len() <= max,
        payload.len() <= u64::MAX,
    ensures
        request_decode(request_encoding(call_id, payload) + rest, max) == Ok::<
            ((nat, Seq<u8>), nat),
            DecodeError,
        >(((call_id, payload), request_encoding(call_id, payload).len() as nat)),
{
    let e = varint_encode(call_id);
    let lp = length_prefixed(payload);
    let whole = request_encoding(call_id, payload) + rest;
    crate::varint::lemma_varint_roundtrip(call_id, lp + rest);
    assert(whole =~= e + (lp + rest));
    assert(varint_decode(whole) == Some((call_id, e.len() as nat)));
    assert(whole.skip(e.len() as int) =~= lp + rest);
    crate::consensus::lemma_length_prefixed_roundtrip(payload, max, rest);
}

/// Round trip for bodies: decoding encoded chunk frames, whatever bytes
/// follow them, yields the chunks back in order and consumes exactly the
/// frames.
pub proof fn lemma_body_roundtrip(chunks: Seq<Seq<u8>>, rest: Seq<u8>, max: nat)
    requires
        forall|i: int| 0 <= i < chunks.len() ==> (#[trigger] chunks[i]).len() <= max,
        forall|i: int| 0 <= i < chunks.len() ==> (#[trigger] chunks[i]).len() <= u64::MAX,
    ensures
        body_decode(body_encoding(chunks) + rest, max) == Ok::<(Seq<Seq<u8>>, nat), DecodeError>(
            (chunks, body_encoding(chunks).len() as nat),
        ),
    decreases chunks.len(),
{
    let whole = body_encoding(chunks) + rest;
    if chunks.len() == 0 {
        assert(whole[0] == END_OF_BODY_MARKER);
        assert(chunks =~= Seq::<Seq<u8>>::empty());
    } else {
        let c0 = chunks[0];
        let lp = length_prefixed(c0);
        let tail_enc = body_encoding(chunks.skip(1));
        assert(body_encoding(chunks) == seq![CHUNK_MARKER] + lp + tail_enc);
        assert(whole[0] == CHUNK_MARKER);
        assert(whole.skip(1) =~= lp + (tail_enc + rest));
        crate::consensus::lemma_length_prefixed_roundtrip(c0, max, tail_enc + rest);
        assert(length_prefixed_decode(whole.skip(1), max) == Ok::<(Seq<u8>, nat), DecodeError>(
            (c0, lp.len() as nat),
        ));
        assert(whole.skip(1 + lp.len() as int) =~= tail_enc + rest);
        lemma_body_roundtrip(chunks.skip(1), rest, max);
        assert(seq![c0] + chunks.skip(1) =~= chunks);
    }
}

/// Round trip for responses: decoding an encoded response, whatever bytes
/// follow it, yields the status code, the details and the chunks back and
/// consumes exactly the encoding.
pub proof fn lemma_response_roundtrip(
    code: nat,
    details: Seq<u8>,
    chunks: Seq<Seq<u8>>,
    rest: Seq<u8>,
    max: nat,
)
    requires
        code <= u64::MAX,
        details.len() <= max,
        details.len() <= u64::MAX,
        forall|i: int| 0 <= i < chunks.len() ==> (#[trigger] chunks[i]).len() <= max,
        forall|i: int| 0 <= i < chunks.len() ==> (#[trigger] chunks[i]).len() <= u64::MAX,
    ensures
        response_decode(response_encoding(code, details, chunks) + rest, max) == Ok::<
            ((nat, Seq<u8>, Seq<Seq<u8>>), nat),
            DecodeError,
        >(((code, details, chunks), response_encoding(code, details, chunks).len() as nat)),
{
    let e = varint_encode(code);
    let lp = length_prefixed(details);
    let be = body_encoding(chunks);
    let whole = response_encoding(code, details, chunks) + rest;
    crate::varint::lemma_varint_roundtrip(code, lp + (be + rest));
    assert(whole =~= e + (lp + (be + rest)));
    assert(varint_decode(whole) == Some((code, e.len() as nat)));
    assert(whole.skip(e.len() as int) =~= lp + (be + rest));
    crate::consensus::lemma_length_prefixed_roundtrip(details, max, be + rest);
    assert(length_prefixed_decode(whole.skip(e.len() as int), max) == Ok::<
        (Seq<u8>, nat),
        DecodeError,
    >((details, lp.len() as nat)));
    assert(whole.skip(e.len() + lp.len() as int) =~= be + rest);
    lemma_body_roundtrip(chunks, rest, max);
}

/// Appends the wire form of `req` to `out`.
pub fn encode_request(req: &Request, out: &mut Vec<u8>)
    ensures
        final(out)@ == old(out)@ + request_encoding(req.call_id as nat, req.payload@),
{
    write_varint(req.call_id, out);
    req.payload.consensus_encode(out);
    proof {
        assert(out@ =~= old(out)@ + request_encoding(req.call_id as nat, req.payload@));
    }
}

/// Reads one request from `data` starting at `pos`; on success returns the
/// request and the position just past its payload frame. The payload is
/// bounded by `MAX_FRAME_SIZE`.
pub fn decode_request(data: &Vec<u8>, pos: usize) -> (r: Result<(Request, usize), DecodeError>)
    requires
        pos <= data@.len(),
    ensures
        match request_decode(data@.skip(pos as int), MAX_FRAME_SIZE as nat) {
            Ok(p) => r matches Ok(q) && q.0.call_id == p.0.0 && q.0.payload@ == p.0.1 && q.1 == pos
                + p.1,
            Err(e) => r matches Err(e2) && e2 == e,
        },
{
    let ghost s = data@.skip(pos as int);
    proof {
        crate::varint::lemma_varint_decode_consumed(s);
    }
    let (call_id, after_id) = match read_varint(data, pos) {
        Ok(p) => p,
        Err(e) => {
            return Err(e);
        },
    };
    proof {
        assert(data@.skip(after_id as int) =~= s.skip((after_id - pos) as int));
    }
    let (payload, end) = match MaxSizeBytes::<MAX_FRAME_SIZE>::consensus_decode(data, after_id) {
        Ok(p) => p,
        Err(e) => {
            return Err(e);
        },
    };
    Ok((Request { call_id, payload: payload.into_vec() }, end))
}

/// Appends the wire form of `resp` to `out`, consuming its body: the status,
/// then each chunk in the order the handler produced them, then the
/// end-of-body marker. The first chunk is on the wire before later chunks
/// are even drawn from the body: nothing is buffered beyond one chunk.
pub fn encode_response(resp: Response, out: &mut Vec<u8>)
    ensures
        final(out)@ == old(out)@ + response_encoding(
            resp.status.code as nat,
            resp.status.details@,
            resp.body.remaining(),
        ),
{
    let Response { status, body } = resp;
    let ghost orig_code = status.code;
    let ghost orig_details = status.details@;
    let ghost orig_rem = body.remaining();
    write_varint(status.code, out);
    status.details.consensus_encode(out);
    let ghost header = old(out)@ + varint_encode(orig_code as nat) + length_prefixed(orig_details);
    proof {
        assert(out@ =~= header);
    }
    let mut body = body;
    loop
        invariant
            orig_code == resp.status.code,
            orig_details == resp.status.details@,
            orig_rem == resp.body.remaining(),
            header == old(out)@ + varint_encode(orig_code as nat) + length_prefixed(orig_details),
            header + body_encoding(orig_rem) == out@ + body_encoding(body.remaining()),
        decreases body.remaining().len(),
    {
        let ghost before = body.remaining();
        match body.next() {
            Some(chunk) => {
                out.push(CHUNK_MARKER);
                chunk.consensus_encode(out);
                proof {
                    assert(body_encoding(before) == seq![CHUNK_MARKER] + length_prefixed(before[0])
                        + body_encoding(before.skip(1)));
                    assert(header + body_encoding(orig_rem) =~= out@ + body_encoding(
                        body.remaining(),
                    ));
                }
            },
            None => {
                let ghost out_pre = out@;
                out.push(END_OF_BODY_MARKER);
                proof {
                    assert(body_encoding(before) =~= seq![END_OF_BODY_MARKER]);
                    assert(out@ =~= out_pre + body_encoding(before));
                    assert(out@ == header + body_encoding(orig_rem));
                    assert(old(out)@ + response_encoding(orig_code as nat, orig_details, orig_rem)
                        =~= (old(out)@ + varint_encode(orig_code as nat) + length_prefixed(
                        orig_details,
                    )) + body_encoding(orig_rem));
                    assert(out@ == old(out)@ + response_encoding(
                        orig_code as nat,
                        orig_details,
                        orig_rem,
                    ));
                }
                return ;
            },
        }
    }
}

/// Reads one response from `data` starting at `pos`; on success returns the
/// response — its body holding exactly the decoded chunks, in order — and
/// the position just past the end-of-body marker. Each frame is bounded by
/// `MAX_FRAME_SIZE`.
pub fn decode_response(data: &Vec<u8>, pos: usize) -> (r: Result<(Response, usize), DecodeError>)
    requires
        pos <= data@.len(),
    ensures
        match response_decode(data@.skip(pos as int), MAX_FRAME_SIZE as nat) {
            Ok(p) => r matches Ok(q) && q.0.status.code == p.0.0 && q.0.status.details@ == p.0.1
                && q.0.body.remaining() == p.0.2 && q.1 == pos + p.1,
            Err(e) => r matches Err(e2) && e2 == e,
        },
{
    let ghost s = data@.skip(pos as int);
    proof {
        crate::varint::lemma_varint_decode_consumed(s);
    }
    let (code, after_code) = match read_varint(data, pos) {
        Ok(p) => p,
        Err(e) => {
            return Err(e);
        },
    };
    proof {
        assert(data@.skip(after_code as int) =~= s.skip((after_code - pos) as int));
    }
    let (details, after_details) = match MaxSizeBytes::<MAX_FRAME_SIZE>::consensus_decode(
        data,
        after_code,
    ) {
        Ok(p) => p,
        Err(e) => {
            return Err(e);
        },
    };
    let ghost body_start = after_details as int;
    proof {
        assert(data@.skip(body_start) =~= s.skip((after_details - pos) as int));
    }
    let mut chunks: Vec<Vec<u8>> = Vec::new();
    let mut at: usize = after_details;
    let dlen: usize = data.len();
    proof {
        assert(chunks.deep_view() =~= Seq::<Seq<u8>>::empty());
        assert forall|x: Seq<Seq<u8>>| #[trigger] (Seq::<Seq<u8>>::empty() + x) == x by {
            assert(Seq::<Seq<u8>>::empty() + x =~= x);
        }
    }
    loop
        invariant
            pos <= data@.len(),
            body_start <= at <= data@.len(),
            dlen == data@.len(),
            s == data@.skip(pos as int),
            match body_decode(data@.skip(at as int), MAX_FRAME_SIZE as nat) {
                Err(e) => body_decode(data@.skip(body_start), MAX_FRAME_SIZE as nat) matches Err(
                    e2,
                ) && e2 == e,
                Ok(q) => body_decode(data@.skip(body_start), MAX_FRAME_SIZE as nat) matches Ok(w)
                    && w.0 == chunks.deep_view() + q.0 && w.1 == q.1 + (at - body_start),
            },
            match body_decode(data@.skip(body_start), MAX_FRAME_SIZE as nat) {
                Err(e) => response_decode(s, MAX_FRAME_SIZE as nat) matches Err(e2) && e2 == e,
                Ok(w) => response_decode(s, MAX_FRAME_SIZE as nat) matches Ok(v) && v.0.0
                    == code as nat && v.0.1 == details@ && v.0.2 == w.0 && pos + v.1 == w.1
                    + body_start,
            },
        decreases data@.len() - at,
    {
        let ghost suffix = data@.skip(at as int);
        if at == dlen {
            proof {
                assert(suffix =~= Seq::<u8>::empty());
            }
            return Err(DecodeError::UnexpectedEof);
        }
        let marker = data[at];
        proof {
            assert(suffix[0] == data@[at as int]);
        }
        if marker == END_OF_BODY_MARKER {
            proof {
                assert(body_decode(suffix, MAX_FRAME_SIZE as nat) == Ok::<
                    (Seq<Seq<u8>>, nat),
                    DecodeError,
                >((Seq::empty(), 1nat)));
            }
            let ghost gchunks = chunks@;
            let ghost gdv = chunks.deep_view();
            let body = Body::from_chunks(chunks);
            let resp = Response { status: RpcStatus { code, details: details.into_vec() }, body };
            proof {
                assert(resp.body.remaining() =~~= gdv);
                assert(gdv + Seq::<Seq<u8>>::empty() =~= gdv);
            }
            return Ok((resp, at + 1));
        }
        if marker != CHUNK_MARKER {
            return Err(DecodeError::InvalidMarker);
        }
        proof {
            assert(data@.skip(at + 1 as int) =~= suffix.skip(1));
            crate::varint::lemma_varint_decode_consumed(suffix.skip(1));
        }
        let (chunk, after_chunk) = match MaxSizeBytes::<MAX_FRAME_SIZE>::consensus_decode(
            data,
            at + 1,
        ) {
            Ok(p) => p,
            Err(e) => {
                return Err(e);
            },
        };
        let ghost p = length_prefixed_decode(suffix.skip(1), MAX_FRAME_SIZE as nat).unwrap();
        proof {
            assert(data@.skip((at + 1 + p.1) as int) =~= suffix.skip(1 + p.1 as int));
        }
        let ghost dv0 = chunks.deep_view();
        chunks.push(chunk.into_vec());
        proof {
            assert(chunks.deep_view() =~~= dv0 + seq![p.0]);
            match body_decode(data@.skip((at + 1 + p.1) as int), MAX_FRAME_SIZE as nat) {
                Err(_) => {},
                Ok(q2) => {
                    assert(dv0 + (seq![p.0] + q2.0) =~= (dv0 + seq![p.0]) + q2.0);
                },
            }
        }
        at = after_chunk;
    }
}

} // verus!
