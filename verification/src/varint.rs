//! The variable-length integer codec of the file format: 1 to 9 bytes,
//! big-endian, seven payload bits per byte with the high bit as the
//! continuation flag, except that a ninth byte carries all eight bits.
//! The decoded value is the accumulated bit pattern read as a signed
//! 64-bit integer.

use vstd::prelude::*;

verus! {

/// A decoded variable-length integer.
#[derive(PartialEq, Eq, Structural, Debug, Clone, Copy)]
pub struct Varint(pub i64);

/// Decoding failed because the input ended in the middle of a sequence.
#[derive(PartialEq, Eq, Structural, Debug, Clone, Copy)]
pub struct VarintError;

/// The signed 64-bit value whose bit pattern is `u`.
pub open spec fn i64_of_u64(u: u64) -> i64 {
    if u <= i64::MAX {
        u as i64
    } else {
        (u - 0x10000000000000000) as i64
    }
}

/// The unsigned bit pattern of a signed 64-bit value.
pub open spec fn u64_of_i64(v: i64) -> u64 {
    if v >= 0 {
        v as u64
    } else {
        (v + 0x10000000000000000) as u64
    }
}

/// One accumulation step for a continuation byte: seven low bits.
pub open spec fn acc7(acc: u64, b: u8) -> u64 {
    (acc << 7) | ((b & 0x7f) as u64)
}

/// The accumulation step for a ninth byte: all eight bits.
pub open spec fn acc8(acc: u64, b: u8) -> u64 {
    (acc << 8) | (b as u64)
}

/// Decoding from `pos` after `count` bytes have accumulated `acc`:
/// yields the bit pattern and the total number of bytes consumed,
/// or `None` when the input ends mid-sequence.
pub open spec fn spec_varint_rec(bytes: Seq<u8>, pos: int, count: int, acc: u64) -> Option<
    (u64, int),
>
    decreases 9 - count,
{
    if count < 0 || count >= 9 || pos < 0 || pos >= bytes.len() {
        None
    } else {
        let b = bytes[pos];
        if count == 8 {
            Some((acc8(acc, b), count + 1))
        } else if b & 0x80 == 0 {
            Some((acc7(acc, b), count + 1))
        } else {
            spec_varint_rec(bytes, pos + 1, count + 1, acc7(acc, b))
        }
    }
}

/// The value encoded at `pos` and the number of bytes it occupies.
pub open spec fn spec_varint(bytes: Seq<u8>, pos: int) -> Option<(i64, int)> {
    match spec_varint_rec(bytes, pos, 0, 0) {
        Some((u, n)) => Some((i64_of_u64(u), n)),
        None => None,
    }
}

impl Varint {
    /// Decodes the varint starting at `data[pos]`, returning the value and
    /// the number of bytes consumed.
    pub fn read_sized(data: &[u8], pos: usize) -> (r: Result<(Varint, usize), VarintError>)
        ensures
            match r {
                Ok((v, n)) => {
                    &&& spec_varint(data@, pos as int) == Some((v.0, n as int))
                    &&& 1 <= n <= 9
                    &&& pos + n <= data@.len()
                },
                Err(_) => spec_varint(data@, pos as int) is None,
            },
    {
        let mut acc: u64 = 0;
        let mut count: usize = 0;
        let mut cur: usize = pos;
        while count < 9
            invariant
                0 <= count < 9,
                cur == pos + count,
                spec_varint_rec(data@, pos as int, 0, 0) == spec_varint_rec(
                    data@,
                    cur as int,
                    count as int,
                    acc,
                ),
            decreases 9 - count,
        {
            if cur >= data.len() {
                return Err(VarintError);
            }
            let b = data[cur];
            if count == 8 {
                let out = (acc << 8) | (b as u64);
                proof {
                    assert(i64_of_u64(out) == i64_of_u64(out));
                }
                let v = reinterpret_signed(out);
                return Ok((Varint(v), 9));
            }
            acc = (acc << 7) | ((b & 0x7f) as u64);
            count += 1;
            cur += 1;
            if b & 0x80 == 0 {
                let v = reinterpret_signed(acc);
                return Ok((Varint(v), count));
            }
        }
        proof {
            assert(false);
        }
        Err(VarintError)
    }

    /// Decodes the varint starting at `data[pos]`, returning only the value.
    pub fn read(data: &[u8], pos: usize) -> (r: Result<Varint, VarintError>)
        ensures
            match r {
                Ok(v) => spec_varint(data@, pos as int) matches Some(p) && p.0 == v.0,
                Err(_) => spec_varint(data@, pos as int) is None,
            },
    {
        match Self::read_sized(data, pos) {
            Ok((v, _)) => Ok(v),
            Err(e) => Err(e),
        }
    }
}

/// The number of bytes the canonical encoding of `u` occupies.
pub open spec fn spec_encoded_len(u: u64) -> int {
    if u < 0x80 {
        1
    } else if u < 0x4000 {
        2
    } else if u < 0x200000 {
        3
    } else if u < 0x10000000 {
        4
    } else if u < 0x800000000 {
        5
    } else if u < 0x40000000000 {
        6
    } else if u < 0x2000000000000 {
        7
    } else if u < 0x100000000000000 {
        8
    } else {
        9
    }
}

/// The canonical (shortest) encoding of the bit pattern `u`.
pub open spec fn spec_varint_encode(u: u64) -> Seq<u8> {
    let n = spec_encoded_len(u);
    if n <= 8 {
        Seq::new(
            n as nat,
            |i: int|
                {
                    let low = ((u >> ((7 * (n - 1 - i)) as u64)) & 0x7f) as u8;
                    if i < n - 1 {
                        low | 0x80
                    } else {
                        low
                    }
                },
        )
    } else {
        Seq::new(
            9,
            |i: int|
                if i < 8 {
                    0x80 | (((u >> ((8 + 7 * (7 - i)) as u64)) & 0x7f) as u8)
                } else {
                    (u & 0xff) as u8
                },
        )
    }
}

/// The accumulator the decoder holds after reading `i` bytes of the
/// canonical encoding of `u`.
spec fn acc_at(u: u64, i: int) -> u64 {
    let n = spec_encoded_len(u);
    if n <= 8 {
        u >> ((7 * (n - i)) as u64)
    } else if i == 0 {
        0
    } else {
        u >> ((8 + 7 * (8 - i)) as u64)
    }
}

/// From position `i` onward, decoding the canonical encoding of `u`
/// completes with value `u` and length `spec_encoded_len(u)`.
proof fn lemma_decode_from(u: u64, i: int)
    requires
        0 <= i < spec_encoded_len(u),
    ensures
        spec_varint_rec(spec_varint_encode(u), i, i, acc_at(u, i)) == Some(
            (u, spec_encoded_len(u)),
        ),
        i == 0 ==> acc_at(u, 0) == 0,
    decreases spec_encoded_len(u) - i,
{
    let n = spec_encoded_len(u);
    let enc = spec_varint_encode(u);
    let b = enc[i];
    if i == 0 {
        // nothing has accumulated yet: the bits above the encoding are zero
        assert(u < 0x80 ==> u >> 7u64 == 0) by (bit_vector);
        assert(u < 0x4000 ==> u >> 14u64 == 0) by (bit_vector);
        assert(u < 0x200000 ==> u >> 21u64 == 0) by (bit_vector);
        assert(u < 0x10000000 ==> u >> 28u64 == 0) by (bit_vector);
        assert(u < 0x800000000 ==> u >> 35u64 == 0) by (bit_vector);
        assert(u < 0x40000000000 ==> u >> 42u64 == 0) by (bit_vector);
        assert(u < 0x2000000000000 ==> u >> 49u64 == 0) by (bit_vector);
        assert(u < 0x100000000000000 ==> u >> 56u64 == 0) by (bit_vector);
        assert(acc_at(u, 0) == 0);
    }
    if n <= 8 {
        let s = (7 * (n - 1 - i)) as u64;
        assert(acc_at(u, i) == u >> ((s + 7) as u64));
        if i < n - 1 {
            assert(b == (((u >> s) & 0x7f) as u8) | 0x80);
            assert(b & 0x80 != 0 && acc7(u >> ((s + 7) as u64), b) == u >> s) by (bit_vector)
                requires
                    s <= 49 && b == (((u >> s) & 0x7f) as u8) | 0x80,
            ;
            assert(acc_at(u, i + 1) == u >> s);
            lemma_decode_from(u, i + 1);
        } else {
            assert(s == 0);
            assert(b == ((u >> 0u64) & 0x7f) as u8);
            assert(b & 0x80 == 0 && acc7(u >> 7u64, b) == u) by (bit_vector)
                requires
                    b == ((u >> 0u64) & 0x7f) as u8,
            ;
        }
    } else {
        if i == 8 {
            assert(b == (u & 0xff) as u8);
            assert(acc_at(u, 8) == u >> 8u64);
            assert(acc8(u >> 8u64, b) == u) by (bit_vector)
                requires
                    b == (u & 0xff) as u8,
            ;
        } else {
            let s = (8 + 7 * (7 - i)) as u64;
            assert(b == 0x80 | (((u >> s) & 0x7f) as u8));
            assert(b & 0x80 != 0) by (bit_vector)
                requires
                    b == 0x80 | (((u >> s) & 0x7f) as u8),
            ;
            if i == 0 {
                assert(s == 57);
                assert(acc7(0, b) == u >> 57u64) by (bit_vector)
                    requires
                        b == 0x80 | (((u >> 57u64) & 0x7f) as u8),
                ;
            } else {
                assert(acc_at(u, i) == u >> ((s + 7) as u64));
                assert(acc7(u >> ((s + 7) as u64), b) == u >> s) by (bit_vector)
                    requires
                        s <= 50 && b == 0x80 | (((u >> s) & 0x7f) as u8),
                ;
            }
            assert(acc_at(u, i + 1) == acc7(acc_at(u, i), b));
            lemma_decode_from(u, i + 1);
        }
    }
}

/// Round trip: decoding the canonical encoding of any signed 64-bit value
/// yields that value back together with the encoding's length, and the
/// length lies between one and nine bytes.
pub proof fn lemma_varint_round_trip(v: i64)
    ensures
        1 <= spec_varint_encode(u64_of_i64(v)).len() <= 9,
        spec_varint(spec_varint_encode(u64_of_i64(v)), 0) == Some(
            (v, spec_varint_encode(u64_of_i64(v)).len() as int),
        ),
{
    let u = u64_of_i64(v);
    assert(i64_of_u64(u) == v);
    lemma_decode_from(u, 0);
}

impl Varint {
    /// Builds the canonical encoding of `v`.
    pub fn encode(v: i64) -> (r: Vec<u8>)
        ensures
            r@ == spec_varint_encode(u64_of_i64(v)),
    {
        let u = to_unsigned(v);
        let ghost enc = spec_varint_encode(u);
        let n = encoded_len_of(u);
        let mut out: Vec<u8> = Vec::new();
        if n <= 8 {
            let mut i: usize = 0;
            while i < n
                invariant
                    n == spec_encoded_len(u),
                    n <= 8,
                    i <= n,
                    enc == spec_varint_encode(u),
                    out@.len() == i,
                    forall|j: int| 0 <= j < i ==> out@[j] == enc[j],
                decreases n - i,
            {
                let sh = (7 * (n - 1 - i)) as u64;
                let low = ((u >> sh) & 0x7f) as u8;
                if i < n - 1 {
                    out.push(low | 0x80);
                } else {
                    out.push(low);
                }
                i += 1;
            }
            proof {
                assert(out@ =~= enc);
            }
        } else {
            let mut i: usize = 0;
            while i < 8
                invariant
                    n == spec_encoded_len(u),
                    n == 9,
                    i <= 8,
                    enc == spec_varint_encode(u),
                    out@.len() == i,
                    forall|j: int| 0 <= j < i ==> out@[j] == enc[j],
                decreases 8 - i,
            {
                let sh = (8 + 7 * (7 - i)) as u64;
                out.push(0x80 | (((u >> sh) & 0x7f) as u8));
                i += 1;
            }
            out.push((u & 0xff) as u8);
            proof {
                assert(out@ =~= enc);
            }
        }
        out
    }
}

/// The length the canonical encoding of `u` will take.
fn encoded_len_of(u: u64) -> (r: usize)
    ensures
        r == spec_encoded_len(u),
{
    if u < 0x80 {
        1
    } else if u < 0x4000 {
        2
    } else if u < 0x200000 {
        3
    } else if u < 0x10000000 {
        4
    } else if u < 0x800000000 {
        5
    } else if u < 0x40000000000 {
        6
    } else if u < 0x2000000000000 {
        7
    } else if u < 0x100000000000000 {
        8
    } else {
        9
    }
}

/// Reinterprets a signed value as its 64-bit pattern.
fn to_unsigned(v: i64) -> (r: u64)
    ensures
        r == u64_of_i64(v),
{
    let r = #[verifier::truncate] (v as u64);
    proof {
        assert(v < 0 ==> v as u64 == v + 0x10000000000000000) by (bit_vector);
    }
    r
}

/// Reinterprets a 64-bit pattern as a signed value.
pub fn reinterpret_signed(u: u64) -> (r: i64)
    ensures
        r == i64_of_u64(u),
{
    let r = #[verifier::truncate] (u as i64);
    proof {
        assert(u > i64::MAX ==> u as i64 == u - 0x10000000000000000) by (bit_vector);
    }
    r
}

} // verus!
