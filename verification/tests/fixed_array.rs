use rpc_router::ConsensusDecoding;
use rpc_router::ConsensusEncoding;
use rpc_router::ConsensusEncodingSized;
use rpc_router::DecodeError;
use rpc_router::FixedByteArray;
use rpc_router::MAX_ARR_SIZE;

fn from_hex(s: &str) -> Vec<u8> {
    fn digit(c: u8) -> u8 {
        match c {
            b'0'..=b'9' => c - b'0',
            b'a'..=b'f' => c - b'a' + 10,
            b'A'..=b'F' => c - b'A' + 10,
            _ => panic!("not a hex digit"),
        }
    }
    let b = s.as_bytes();
    assert!(b.len() % 2 == 0);
    let mut out = Vec::new();
    let mut i = 0;
    while i < b.len() {
        out.push(digit(b[i]) * 16 + digit(b[i + 1]));
        i += 2;
    }
    out
}

fn roundtrips_exactly(arr: &FixedByteArray) {
    let mut encoded: Vec<u8> = Vec::new();
    arr.consensus_encode(&mut encoded);
    assert_eq!(encoded.len(), arr.consensus_encode_exact_size());
    let (decoded, used) = FixedByteArray::consensus_decode(&encoded, 0).unwrap();
    assert_eq!(used, encoded.len());
    assert_eq!(decoded.as_slice(), arr.as_slice());
}

#[test]
fn assert_size() {
    assert_eq!(std::mem::size_of::<FixedByteArray>(), MAX_ARR_SIZE + 1);
}

#[test]
fn from_bytes() {
    let arr = FixedByteArray::from_bytes(&[1u8][..]).unwrap();
    assert_eq!(arr.len(), 1);
    assert!(arr.as_slice().iter().all(|b| *b == 1));
    // Iterates only up to len
    let mut used = false;
    for _ in arr.as_slice().iter() {
        assert!(!used);
        used = true;
    }
    assert!(used);

    let arr = FixedByteArray::from_bytes(&[1u8; 63][..]).unwrap();
    assert_eq!(arr.len(), 63);
    assert!(arr.as_slice().iter().all(|b| *b == 1));

    FixedByteArray::from_bytes(&[1u8; 64][..]).unwrap_err();
}

#[test]
fn length_check() {
    let mut buf = vec![0u8; MAX_ARR_SIZE + 1];
    buf[0] = 63;
    let (arr, _) = FixedByteArray::consensus_decode(&buf, 0).unwrap();
    assert_eq!(arr.len(), MAX_ARR_SIZE);

    buf[0] = 64;
    let _err = FixedByteArray::consensus_decode(&buf, 0).unwrap_err();

    // A length byte that would be a varint continuation still exceeds the cap
    buf[0] = 0b1000000;
    buf[1] = 0b1000000;
    let _err = FixedByteArray::consensus_decode(&buf, 0).unwrap_err();
}

#[test]
fn capacity_overflow_does_not_panic() {
    let data = vec![0xff, 0xff, 0xff, 0xff, 0xff, 0xff, 0xff, 0xff, 0x7f];
    let _result = FixedByteArray::consensus_decode(&data, 0).unwrap_err();
}

#[test]
fn consensus_encoding() {
    let arr = FixedByteArray::from_bytes(&from_hex("ffffffffffffffffffffffffff")).unwrap();
    roundtrips_exactly(&arr);

    let arr = FixedByteArray::from_bytes(&from_hex("0ff1ceb4d455")).unwrap();
    assert_eq!(arr.len(), 6);
    roundtrips_exactly(&arr);
}

#[test]
fn fixed_array_push_and_queries() {
    let mut arr = FixedByteArray::new();
    assert!(arr.is_empty());
    assert!(!arr.is_full());
    assert_eq!(arr.len(), 0);
    for i in 0..63u8 {
        arr.push(i);
    }
    assert!(arr.is_full());
    assert!(!arr.is_empty());
    assert_eq!(arr.len(), 63);
    assert_eq!(arr.as_slice()[62], 62);
    let copy = arr.clone();
    assert_eq!(copy.as_slice(), arr.as_slice());
}

#[test]
fn fixed_array_decode_eof_mid_data() {
    // length byte says five bytes follow, but only three do
    let data = vec![5u8, 1, 2, 3];
    let err = FixedByteArray::consensus_decode(&data, 0).unwrap_err();
    assert!(matches!(err, DecodeError::UnexpectedEof));

    let err = FixedByteArray::consensus_decode(&Vec::new(), 0).unwrap_err();
    assert!(matches!(err, DecodeError::UnexpectedEof));
}
