//! Helpers over byte slices: big-endian integer fields and byte equality.

use vstd::prelude::*;

verus! {

/// The big-endian unsigned value of a byte sequence.
pub open spec fn be_uint(s: Seq<u8>) -> nat
    decreases s.len(),
{
    if s.len() == 0 {
        0
    } else {
        (be_uint(s.drop_last()) * 256 + s.last()) as nat
    }
}

/// The two-byte big-endian field at `pos`.
pub open spec fn spec_be16(s: Seq<u8>, pos: int) -> nat {
    be_uint(s.subrange(pos, pos + 2))
}

/// The four-byte big-endian field at `pos`.
pub open spec fn spec_be32(s: Seq<u8>, pos: int) -> nat {
    be_uint(s.subrange(pos, pos + 4))
}

/// A two-byte big-endian field at `pos`.
pub fn read_be16(data: &[u8], pos: usize) -> (r: u16)
    requires
        pos + 2 <= data@.len(),
    ensures
        r == spec_be16(data@, pos as int),
{
    let hi = data[pos];
    let lo = data[pos + 1];
    proof {
        reveal_with_fuel(be_uint, 3);
        let s = data@.subrange(pos as int, pos + 2);
        assert(s.drop_last() =~= seq![hi]);
        assert(seq![hi].drop_last() =~= Seq::<u8>::empty());
        assert(be_uint(s) == (hi * 256 + lo) as nat);
    }
    (hi as u16) * 256 + (lo as u16)
}

/// A four-byte big-endian field at `pos`.
pub fn read_be32(data: &[u8], pos: usize) -> (r: u32)
    requires
        pos + 4 <= data@.len(),
    ensures
        r == spec_be32(data@, pos as int),
{
    let b0 = data[pos];
    let b1 = data[pos + 1];
    let b2 = data[pos + 2];
    let b3 = data[pos + 3];
    proof {
        reveal_with_fuel(be_uint, 5);
        let s = data@.subrange(pos as int, pos + 4);
        assert(s.drop_last() =~= seq![b0, b1, b2]);
        assert(seq![b0, b1, b2].drop_last() =~= seq![b0, b1]);
        assert(seq![b0, b1].drop_last() =~= seq![b0]);
        assert(seq![b0].drop_last() =~= Seq::<u8>::empty());
        assert(be_uint(s) == ((b0 * 256 + b1) * 256 + b2) * 256 + b3);
    }
    ((b0 as u32) * 0x1000000) + ((b1 as u32) * 0x10000) + ((b2 as u32) * 0x100) + (b3 as u32)
}

/// The power of 256 with exponent `w`, for widths up to eight bytes.
pub open spec fn pow256(w: int) -> nat {
    if w <= 0 {
        1
    } else if w == 1 {
        0x100
    } else if w == 2 {
        0x10000
    } else if w == 3 {
        0x1000000
    } else if w == 4 {
        0x100000000
    } else if w == 5 {
        0x10000000000
    } else if w == 6 {
        0x1000000000000
    } else if w == 7 {
        0x100000000000000
    } else {
        0x10000000000000000
    }
}

/// A big-endian value stays below 256 to the number of its bytes.
pub proof fn lemma_be_uint_bound(s: Seq<u8>)
    requires
        s.len() <= 8,
    ensures
        be_uint(s) < pow256(s.len() as int),
    decreases s.len(),
{
    if s.len() > 0 {
        lemma_be_uint_bound(s.drop_last());
    }
}

/// A big-endian field of `w` bytes at `pos`, for any width up to eight.
pub fn read_be_uint(data: &[u8], pos: usize, w: usize) -> (r: u64)
    requires
        w <= 8,
        pos + w <= data@.len(),
    ensures
        r == be_uint(data@.subrange(pos as int, pos + w)),
{
    let n = data.len();
    let mut acc: u64 = 0;
    let mut i: usize = 0;
    while i < w
        invariant
            i <= w <= 8,
            n == data@.len(),
            pos + w <= data@.len(),
            acc == be_uint(data@.subrange(pos as int, pos + i)),
            acc < pow256(i as int),
        decreases w - i,
    {
        proof {
            assert(pos + i < data@.len());
            assert(pow256(i as int) <= 0x100000000000000);
            assert(data@.subrange(pos as int, pos + i + 1).drop_last() =~= data@.subrange(
                pos as int,
                pos + i,
            ));
            assert(data@.subrange(pos as int, pos + i + 1).last() == data@[pos + i]);
        }
        acc = acc * 256 + (data[pos + i] as u64);
        i += 1;
    }
    acc
}

/// The signed big-endian value of up to eight bytes: the unsigned value,
/// brought into the signed range of the same width.
pub open spec fn spec_signed_be(s: Seq<u8>) -> i64 {
    let u = be_uint(s);
    let w = s.len() as int;
    if w == 8 {
        crate::varint::i64_of_u64(u as u64)
    } else if u >= pow256(w) / 2 {
        (u - pow256(w)) as i64
    } else {
        u as i64
    }
}

/// Reads the signed big-endian field of `w` bytes at `pos`.
pub fn read_signed_be(data: &[u8], pos: usize, w: usize) -> (r: i64)
    requires
        1 <= w <= 8,
        pos + w <= data@.len(),
    ensures
        r == spec_signed_be(data@.subrange(pos as int, pos + w)),
{
    let u = read_be_uint(data, pos, w);
    proof {
        lemma_be_uint_bound(data@.subrange(pos as int, pos + w));
    }
    if w == 8 {
        crate::varint::reinterpret_signed(u)
    } else {
        let half: u64 = match w {
            1 => 0x80,
            2 => 0x8000,
            3 => 0x800000,
            4 => 0x80000000,
            5 => 0x8000000000,
            6 => 0x800000000000,
            _ => 0x80000000000000,
        };
        if u >= half {
            (u as i64) - ((half as i64) + (half as i64))
        } else {
            u as i64
        }
    }
}

/// An owned copy of a byte vector.
pub fn clone_bytes(v: &Vec<u8>) -> (r: Vec<u8>)
    ensures
        r@ == v@,
{
    proof {
        assert(v@.subrange(0, v@.len() as int) =~= v@);
    }
    copy_range(v.as_slice(), 0, v.len())
}

/// Whether two byte slices hold the same bytes.
pub fn bytes_eq(a: &[u8], b: &[u8]) -> (r: bool)
    ensures
        r == (a@ == b@),
{
    if a.len() != b.len() {
        proof {
            assert(a@ != b@);
        }
        return false;
    }
    let n = a.len();
    let mut i: usize = 0;
    while i < n
        invariant
            n == a@.len() == b@.len(),
            i <= n,
            forall|j: int| 0 <= j < i ==> a@[j] == b@[j],
        decreases n - i,
    {
        if a[i] != b[i] {
            proof {
                assert(a@[i as int] != b@[i as int]);
            }
            return false;
        }
        i += 1;
    }
    proof {
        assert(a@ =~= b@);
    }
    true
}

/// Copies `data[lo..hi]` into an owned vector.
pub fn copy_range(data: &[u8], lo: usize, hi: usize) -> (r: Vec<u8>)
    requires
        lo <= hi <= data@.len(),
    ensures
        r@ == data@.subrange(lo as int, hi as int),
{
    vstd::slice::slice_to_vec(&data[lo..hi])
}

} // verus!
