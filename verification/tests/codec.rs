use rpc_router::ConsensusDecoding;
use rpc_router::ConsensusEncoding;
use rpc_router::ConsensusEncodingSized;
use rpc_router::DecodeError;
use rpc_router::MaxSizeBytes;

use rpc_router::read_varint;
use rpc_router::varint_required_space;
use rpc_router::write_varint;

#[test]
fn it_encodes_and_decodes_correctly() {
    let mut subject = [0u8; 1024];
    let mut state: u32 = 0x2545_f491;
    for b in subject.iter_mut() {
        // a small xorshift keeps the bytes varied and the test deterministic
        state ^= state << 13;
        state ^= state >> 17;
        state ^= state << 5;
        *b = (state & 0xff) as u8;
    }
    let mut encoded: Vec<u8> = Vec::new();
    subject.consensus_encode(&mut encoded);
    assert_eq!(encoded.len(), subject.consensus_encode_exact_size());
    let (decoded, used) = <[u8; 1024]>::consensus_decode(&encoded, 0).unwrap();
    assert_eq!(used, encoded.len());
    assert_eq!(decoded, subject);

    // Get vec encoding with length byte
    let mut encoded: Vec<u8> = Vec::new();
    subject.to_vec().consensus_encode(&mut encoded);
    let (decoded, used) = MaxSizeBytes::<1024>::consensus_decode(&encoded, 0).unwrap();
    assert_eq!(used, encoded.len());
    assert_eq!(*decoded.as_ref(), subject.to_vec());
}

#[test]
fn varint_small_values_encode_as_one_byte() {
    for v in [0u64, 1, 27, 127] {
        let mut out = Vec::new();
        write_varint(v, &mut out);
        assert_eq!(out, vec![v as u8]);
        assert_eq!(varint_required_space(v), 1);
        assert_eq!(read_varint(&out, 0).unwrap(), (v, 1));
    }
}

#[test]
fn varint_known_encodings() {
    let mut out = Vec::new();
    write_varint(128, &mut out);
    assert_eq!(out, vec![0x80, 0x01]);

    let mut out = Vec::new();
    write_varint(300, &mut out);
    assert_eq!(out, vec![0xac, 0x02]);

    let mut out = Vec::new();
    write_varint(u64::MAX, &mut out);
    assert_eq!(out, vec![0xff, 0xff, 0xff, 0xff, 0xff, 0xff, 0xff, 0xff, 0xff, 0x01]);
    assert_eq!(varint_required_space(u64::MAX), 10);
}

#[test]
fn varint_roundtrips_at_an_offset() {
    let mut out = vec![0xaa, 0xbb];
    for v in [0u64, 5, 127, 128, 16383, 16384, 1 << 40, u64::MAX] {
        write_varint(v, &mut out);
    }
    let mut pos = 2;
    for v in [0u64, 5, 127, 128, 16383, 16384, 1 << 40, u64::MAX] {
        let (got, next) = read_varint(&out, pos).unwrap();
        assert_eq!(got, v);
        pos = next;
    }
    assert_eq!(pos, out.len());
}

#[test]
fn varint_unterminated_input_is_eof() {
    let err = read_varint(&vec![0x80], 0).unwrap_err();
    assert!(matches!(err, DecodeError::UnexpectedEof));
    let err = read_varint(&Vec::new(), 0).unwrap_err();
    assert!(matches!(err, DecodeError::UnexpectedEof));
}

#[test]
fn varint_too_large_is_overflow() {
    // ten continuation digits of 0x7f stand for 2^70 - 1
    let data = vec![0xff, 0xff, 0xff, 0xff, 0xff, 0xff, 0xff, 0xff, 0xff, 0x7f];
    let err = read_varint(&data, 0).unwrap_err();
    assert!(matches!(err, DecodeError::Overflow));
}

#[test]
fn varint_non_canonical_zero_still_reads() {
    // continuation bytes carrying zero payload change nothing
    let data = vec![0x80, 0x80, 0x00];
    assert_eq!(read_varint(&data, 0).unwrap(), (0, 3));
}

#[test]
fn max_size_bytes_rejects_oversize() {
    let v = vec![1u8, 2, 3, 4, 5];
    let back = MaxSizeBytes::<4>::try_from(v.clone()).unwrap_err();
    assert_eq!(back, v);
    let ok = MaxSizeBytes::<5>::try_from(v.clone()).unwrap();
    assert_eq!(ok.into_vec(), v);
}

#[test]
fn max_size_bytes_decode_errors() {
    // declared length five, bound four
    let data = vec![5u8, 1, 2, 3, 4, 5];
    let err = MaxSizeBytes::<4>::consensus_decode(&data, 0).unwrap_err();
    assert!(matches!(err, DecodeError::SizeExceeded));

    // declared length five, only three bytes follow
    let data = vec![5u8, 1, 2, 3];
    let err = MaxSizeBytes::<8>::consensus_decode(&data, 0).unwrap_err();
    assert!(matches!(err, DecodeError::UnexpectedEof));

    // a length prefix that does not fit in 64 bits
    let mut data = vec![0xffu8; 10];
    data.push(0x7f);
    let err = MaxSizeBytes::<8>::consensus_decode(&data, 0).unwrap_err();
    assert!(matches!(err, DecodeError::Overflow));
}

#[test]
fn vec_encoding_is_length_prefixed() {
    let v: Vec<u8> = b"abcde".to_vec();
    let mut out = Vec::new();
    v.consensus_encode(&mut out);
    assert_eq!(out, vec![5, b'a', b'b', b'c', b'd', b'e']);
    assert_eq!(v.consensus_encode_exact_size(), 6);

    let long = vec![7u8; 300];
    let mut out = Vec::new();
    long.consensus_encode(&mut out);
    assert_eq!(out.len(), 302);
    assert_eq!(&out[..2], &[0xac, 0x02]);
    assert_eq!(long.consensus_encode_exact_size(), 302);
}
