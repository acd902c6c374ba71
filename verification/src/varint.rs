//! Variable-length integer encoding: base-128 digits, least significant
//! first, with the high bit of every byte but the last set as a continuation
//! marker. This is the length-prefix convention used by the consensus
//! encoding and by the frame format on the wire.

use vstd::prelude::*;

use vstd::arithmetic::div_mod::lemma_fundamental_div_mod;

verus! {

/// Errors raised while decoding bytes read from the wire.
#[derive(Debug)]
pub enum DecodeError {
    /// The input ended before the value did.
    UnexpectedEof,
    /// An encoded integer does not fit in 64 bits.
    Overflow,
    /// A length field exceeds the bound the caller imposed.
    SizeExceeded,
    /// A frame marker byte is neither a chunk marker nor an end marker.
    InvalidMarker,
}

/// The base-128 encoding of `v`: seven value bits per byte, least significant
/// digit first, the high bit set on every byte but the last.
pub open spec fn varint_encode(v: nat) -> Seq<u8>
    decreases v,
{
    if v < 128 {
        seq![v as u8]
    } else {
        seq![(128 + v % 128) as u8] + varint_encode(v / 128)
    }
}

/// What a byte sequence decodes to: the encoded value and the number of bytes
/// it occupies, or `None` when the sequence ends before a terminating byte.
pub open spec fn varint_decode(s: Seq<u8>) -> Option<(nat, nat)>
    decreases s.len(),
{
    if s.len() == 0 {
        None
    } else if s[0] < 128 {
        Some((s[0] as nat, 1nat))
    } else {
        match varint_decode(s.skip(1)) {
            None => None,
            Some(p) => Some(((s[0] - 128) as nat + 128 * p.0, p.1 + 1)),
        }
    }
}

/// 128 raised to the power `i`: the weight of the `i`-th encoded digit.
pub open spec fn pow128(i: nat) -> nat
    decreases i,
{
    if i == 0 {
        1
    } else {
        128 * pow128((i - 1) as nat)
    }
}

/// Digit weights are positive.
pub proof fn lemma_pow128_pos(i: nat)
    ensures
        pow128(i) >= 1,
    decreases i,
{
    if i > 0 {
        lemma_pow128_pos((i - 1) as nat);
    }
}

/// Digit weights grow with the position.
pub proof fn lemma_pow128_increases(i: nat, j: nat)
    requires
        i <= j,
    ensures
        pow128(i) <= pow128(j),
    decreases j,
{
    if i < j {
        lemma_pow128_increases(i, (j - 1) as nat);
        lemma_pow128_pos((j - 1) as nat);
    }
}

/// A successful decode consumes at least one byte and no more than there are.
pub proof fn lemma_varint_decode_consumed(s: Seq<u8>)
    ensures
        varint_decode(s) matches Some(p) ==> 1 <= p.1 <= s.len(),
    decreases s.len(),
{
    if s.len() > 0 && s[0] >= 128 {
        lemma_varint_decode_consumed(s.skip(1));
    }
}

/// Round trip: decoding an encoding, whatever follows it, yields the encoded
/// value and consumes exactly the encoding.
pub proof fn lemma_varint_roundtrip(v: nat, rest: Seq<u8>)
    ensures
        varint_decode(varint_encode(v) + rest) == Some((v, varint_encode(v).len() as nat)),
    decreases v,
{
    let e = varint_encode(v);
    if v < 128 {
        assert((e + rest)[0] == v as u8);
    } else {
        let e2 = varint_encode(v / 128);
        lemma_varint_roundtrip(v / 128, rest);
        assert((e + rest)[0] == (128 + v % 128) as u8);
        assert((e + rest).skip(1) =~= e2 + rest);
        assert(((128 + v % 128) as u8 - 128) as nat + 128 * (v / 128) == v);
    }
}

/// Values below `pow128(k)` encode in at most `k` bytes.
pub proof fn lemma_varint_encode_len_bound(v: nat, k: nat)
    requires
        1 <= k,
        v < pow128(k),
    ensures
        varint_encode(v).len() <= k,
    decreases k,
{
    if v >= 128 {
        assert(pow128(k) == 128 * pow128((k - 1) as nat));
        if k == 1 {
            assert(pow128(1nat) == 128);
        }
        assert(v / 128 < pow128((k - 1) as nat));
        lemma_varint_encode_len_bound(v / 128, (k - 1) as nat);
    }
}

/// A 64-bit value encodes in one to ten bytes.
pub proof fn lemma_varint_encode_len_max(v: nat)
    requires
        v <= u64::MAX,
    ensures
        1 <= varint_encode(v).len() <= 10,
{
    assert(pow128(10nat) > u64::MAX as nat) by {
        reveal_with_fuel(pow128, 11);
    }
    lemma_varint_encode_len_bound(v, 10nat);
}

/// Appends the base-128 encoding of `value` to `out`.
pub fn write_varint(value: u64, out: &mut Vec<u8>)
    ensures
        final(out)@ == old(out)@ + varint_encode(value as nat),
{
    let mut v: u64 = value;
    while v >= 128
        invariant
            old(out)@ + varint_encode(value as nat) == out@ + varint_encode(v as nat),
        decreases v,
    {
        let byte: u8 = (v % 128) as u8 + 128;
        proof {
            assert(varint_encode(v as nat) == seq![(128 + (v as nat) % 128) as u8]
                + varint_encode((v as nat) / 128));
            assert((old(out)@ + varint_encode(value as nat)) =~= (out@ + seq![byte])
                + varint_encode((v / 128) as nat));
        }
        out.push(byte);
        v = v / 128;
    }
    proof {
        assert(varint_encode(v as nat) =~= seq![v as u8]);
    }
    out.push(v as u8);
    proof {
        assert(out@ =~= old(out)@ + varint_encode(value as nat));
    }
}

/// The number of bytes `write_varint` appends for `value`.
pub fn varint_required_space(value: u64) -> (n: usize)
    ensures
        n == varint_encode(value as nat).len(),
{
    proof {
        lemma_varint_encode_len_max(value as nat);
    }
    let mut v: u64 = value;
    let mut n: usize = 1;
    while v >= 128
        invariant
            varint_encode(value as nat).len() == n - 1 + varint_encode(v as nat).len(),
            varint_encode(value as nat).len() <= 10,
            1 <= n <= 10,
        decreases v,
    {
        proof {
            assert(varint_encode(v as nat) == seq![(128 + (v as nat) % 128) as u8]
                + varint_encode((v as nat) / 128));
            lemma_varint_encode_len_max((v / 128) as nat);
        }
        n = n + 1;
        v = v / 128;
    }
    proof {
        assert(varint_encode(v as nat) =~= seq![v as u8]);
    }
    n
}

/// Reads one base-128 encoded integer from `data` starting at `pos`; on
/// success returns the value and the position just past its last byte. Fails
/// with `UnexpectedEof` exactly when the bytes end before a terminating byte,
/// and with `Overflow` exactly when the encoded value exceeds `u64::MAX`.
pub fn read_varint(data: &Vec<u8>, pos: usize) -> (r: Result<(u64, usize), DecodeError>)
    requires
        pos <= data@.len(),
    ensures
        match varint_decode(data@.skip(pos as int)) {
            None => r matches Err(e) && e == DecodeError::UnexpectedEof,
            Some(p) => if p.0 > u64::MAX {
                r matches Err(e) && e == DecodeError::Overflow
            } else {
                r matches Ok(q) && q.0 == p.0 && q.1 == pos + p.1
            },
        },
{
    let ghost full = data@.skip(pos as int);
    let mut i: usize = pos;
    let mut value: u64 = 0;
    let mut mult: u64 = 1;
    let mut overflowed: bool = false;
    let ghost mut acc: nat = 0;
    loop
        invariant
            pos <= i <= data@.len(),
            full == data@.skip(pos as int),
            acc < pow128((i - pos) as nat),
            !overflowed ==> value as nat == acc,
            overflowed ==> acc > u64::MAX,
            i - pos <= 9 ==> mult == pow128((i - pos) as nat),
            match varint_decode(data@.skip(i as int)) {
                None => varint_decode(full) is None,
                Some(p) => varint_decode(full) == Some(
                    (acc + p.0 * pow128((i - pos) as nat), (p.1 + i - pos) as nat),
                ),
            },
        decreases data@.len() - i,
    {
        let ghost j = (i - pos) as nat;
        let ghost wj = pow128(j);
        let ghost acc0 = acc;
        if i == data.len() {
            proof {
                assert(data@.skip(i as int) =~= Seq::<u8>::empty());
            }
            return Err(DecodeError::UnexpectedEof);
        }
        let b: u8 = data[i];
        let low: u8 = b % 128;
        let ghost suffix = data@.skip(i as int);
        proof {
            assert(suffix.len() == data@.len() - i >= 1);
            assert(suffix[0] == data@[i as int]);
            lemma_pow128_pos(j);
        }
        if !overflowed {
            if i - pos >= 10 {
                if low > 0 {
                    overflowed = true;
                    proof {
                        lemma_pow128_increases(10nat, j);
                        assert(pow128(10nat) > u64::MAX as nat) by {
                            reveal_with_fuel(pow128, 11);
                        }
                        assert(low as nat * wj >= wj) by (nonlinear_arith)
                            requires
                                low >= 1,
                                wj >= 1,
                        ;
                    }
                }
            } else {
                let limit: u64 = (u64::MAX - value) / mult;
                if low as u64 > limit {
                    overflowed = true;
                    proof {
                        let sub = (u64::MAX - value) as int;
                        lemma_fundamental_div_mod(sub, mult as int);
                        assert(low as int * mult as int > sub) by (nonlinear_arith)
                            requires
                                low as int >= sub / (mult as int) + 1,
                                mult as int >= 1,
                                sub == (mult as int) * (sub / (mult as int)) + sub % (
                                mult as int),
                                0 <= sub % (mult as int) < mult as int,
                        ;
                    }
                } else {
                    proof {
                        let sub = (u64::MAX - value) as int;
                        lemma_fundamental_div_mod(sub, mult as int);
                        assert(low as int * mult as int <= sub) by (nonlinear_arith)
                            requires
                                low as int <= sub / (mult as int),
                                mult as int >= 1,
                                sub == (mult as int) * (sub / (mult as int)) + sub % (
                                mult as int),
                                0 <= sub % (mult as int) < mult as int,
                        ;
                    }
                    value = value + (low as u64) * mult;
                }
            }
        }
        proof {
            acc = acc0 + (low as nat) * wj;
            assert(low as nat * wj >= 0);
            if low == 0 {
                assert(low as nat * wj == 0) by (nonlinear_arith)
                    requires
                        low == 0,
                ;
            }
            // the accumulator stays below the next digit's weight
            assert(acc < 128 * wj) by (nonlinear_arith)
                requires
                    acc == acc0 + (low as nat) * wj,
                    acc0 < wj,
                    low < 128,
                    wj >= 1,
            ;
            assert(pow128(j + 1) == 128 * wj);
        }
        if b < 128 {
            proof {
                assert(varint_decode(suffix) == Some((b as nat, 1nat)));
                assert(low == b);
                assert(varint_decode(full) == Some((acc0 + b as nat * wj, (1 + i - pos) as nat)));
            }
            if overflowed {
                return Err(DecodeError::Overflow);
            }
            return Ok((value, i + 1));
        }
        proof {
            // one continuation byte folds into the accumulator
            assert(suffix.skip(1) =~= data@.skip(i + 1 as int));
            assert(b >= 128);
            match varint_decode(suffix.skip(1)) {
                None => {
                    assert(varint_decode(suffix) is None);
                },
                Some(p2) => {
                    assert(varint_decode(suffix) == Some(
                        ((b - 128) as nat + 128 * p2.0, p2.1 + 1),
                    ));
                    assert((low as nat + 128 * p2.0) * wj == low as nat * wj + p2.0 * (128 * wj))
                        by (nonlinear_arith);
                    assert(acc0 + ((b - 128) as nat + 128 * p2.0) * wj == acc + p2.0 * pow128(
                        j + 1,
                    ));
                },
            }
        }
        if i - pos <= 8 {
            proof {
                lemma_pow128_increases(j, 8nat);
                assert(pow128(8nat) * 128 <= u64::MAX) by {
                    reveal_with_fuel(pow128, 9);
                }
            }
            mult = mult * 128;
        }
        i = i + 1;
    }
}

} // verus!
