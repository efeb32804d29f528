//! Little-endian byte strings for fixed-width integers, and the two's
//! complement correspondence between signed and unsigned integers of the
//! same width.
//!
//! Every fixed-width payload of the container is a little-endian byte
//! string; signed values are carried as the unsigned integer with the same
//! bit pattern.

use vstd::prelude::*;

verus! {

/// `256^n`: the number of byte strings of length `n`, and the bound on the
/// value a little-endian byte string of length `n` can denote.
pub open spec fn pow256(n: nat) -> nat
    decreases n,
{
    if n == 0 {
        1
    } else {
        256 * pow256((n - 1) as nat)
    }
}

/// The value denoted by a little-endian byte string: the first byte is the
/// least significant.
pub open spec fn le_val(s: Seq<u8>) -> nat
    decreases s.len(),
{
    if s.len() == 0 {
        0
    } else {
        s[0] as nat + 256 * le_val(s.subrange(1, s.len() as int))
    }
}

/// The little-endian byte string of length `n` denoting `x % 256^n`.
pub open spec fn le_bytes(x: nat, n: nat) -> Seq<u8>
    decreases n,
{
    if n == 0 {
        Seq::empty()
    } else {
        seq![(x % 256) as u8] + le_bytes(x / 256, (n - 1) as nat)
    }
}

pub proof fn lemma_pow256_values()
    ensures
        pow256(0) == 1,
        pow256(1) == 0x100,
        pow256(2) == 0x10000,
        pow256(3) == 0x1000000,
        pow256(4) == 0x100000000,
        pow256(5) == 0x10000000000,
        pow256(6) == 0x1000000000000,
        pow256(7) == 0x100000000000000,
        pow256(8) == 0x10000000000000000,
{
    assert(pow256(0) == 1);
    assert(pow256(1) == 256 * pow256(0));
    assert(pow256(2) == 256 * pow256(1));
    assert(pow256(3) == 256 * pow256(2));
    assert(pow256(4) == 256 * pow256(3));
    assert(pow256(5) == 256 * pow256(4));
    assert(pow256(6) == 256 * pow256(5));
    assert(pow256(7) == 256 * pow256(6));
    assert(pow256(8) == 256 * pow256(7));
}

pub proof fn lemma_pow256_mono(a: nat, b: nat)
    requires
        a <= b,
    ensures
        pow256(a) <= pow256(b),
    decreases b,
{
    if a < b {
        lemma_pow256_mono(a, (b - 1) as nat);
        assert(pow256(b) == 256 * pow256((b - 1) as nat));
    }
}

pub proof fn lemma_le_bytes_len(x: nat, n: nat)
    ensures
        le_bytes(x, n).len() == n,
    decreases n,
{
    if n > 0 {
        lemma_le_bytes_len(x / 256, (n - 1) as nat);
    }
}

pub proof fn lemma_le_val_bound(s: Seq<u8>)
    ensures
        le_val(s) < pow256(s.len()),
    decreases s.len(),
{
    if s.len() > 0 {
        lemma_le_val_bound(s.subrange(1, s.len() as int));
    }
}

/// Round trip: a value below `256^n` is denoted by its own byte string.
pub proof fn lemma_le_bytes_val(x: nat, n: nat)
    requires
        x < pow256(n),
    ensures
        le_val(le_bytes(x, n)) == x,
    decreases n,
{
    if n > 0 {
        assert(x == 256 * (x / 256) + x % 256) by (nonlinear_arith);
        assert(x / 256 < pow256((n - 1) as nat)) by {
            assert(pow256(n) == 256 * pow256((n - 1) as nat));
            assert(x < 256 * pow256((n - 1) as nat));
        };
        lemma_le_bytes_val(x / 256, (n - 1) as nat);
        let s = le_bytes(x, n);
        let rest = le_bytes(x / 256, (n - 1) as nat);
        lemma_le_bytes_len(x / 256, (n - 1) as nat);
        assert(s == seq![(x % 256) as u8] + rest);
        assert(s.subrange(1, s.len() as int) =~= rest);
        assert(le_val(s) == (x % 256) + 256 * le_val(rest));
    }
}

/// Encodes `x` as `n` little-endian bytes.
pub fn le_encode(x: u64, n: usize) -> (r: Vec<u8>)
    requires
        n <= 8,
        (x as nat) < pow256(n as nat),
    ensures
        r@ == le_bytes(x as nat, n as nat),
{
    let mut r: Vec<u8> = Vec::new();
    let mut cur: u64 = x;
    let mut i: usize = 0;
    proof {
        assert(r@ + le_bytes(cur as nat, n as nat) =~= le_bytes(x as nat, n as nat));
    }
    while i < n
        invariant
            i <= n,
            n <= 8,
            r@.len() == i,
            (cur as nat) < pow256((n - i) as nat),
            le_bytes(x as nat, n as nat) == r@ + le_bytes(cur as nat, (n - i) as nat),
        decreases n - i,
    {
        let ghost prev: nat = cur as nat;
        let ghost m: nat = (n - i) as nat;
        let b: u8 = (cur % 256) as u8;
        r.push(b);
        cur = cur / 256;
        i = i + 1;
        proof {
            assert(le_bytes(prev, m) == seq![b] + le_bytes(cur as nat, (m - 1) as nat));
            assert(r@ + le_bytes(cur as nat, (n - i) as nat) =~= le_bytes(x as nat, n as nat));
            assert((cur as nat) < pow256((n - i) as nat)) by {
                assert(prev < 256 * pow256((n - i) as nat));
                assert(cur as nat == prev / 256);
            };
        }
    }
    proof {
        assert(le_bytes(cur as nat, 0) =~= Seq::<u8>::empty());
        assert(r@ =~= le_bytes(x as nat, n as nat));
    }
    r
}

/// Reads the value denoted by at most eight little-endian bytes.
pub fn le_decode(s: &[u8]) -> (r: u64)
    requires
        s@.len() <= 8,
    ensures
        r as nat == le_val(s@),
{
    let n: usize = s.len();
    let mut acc: u64 = 0;
    let mut i: usize = n;
    proof {
        assert(s@.subrange(n as int, n as int) =~= Seq::<u8>::empty());
    }
    while i > 0
        invariant
            i <= n,
            n == s@.len(),
            n <= 8,
            acc as nat == le_val(s@.subrange(i as int, n as int)),
        decreases i,
    {
        i = i - 1;
        proof {
            let tail = s@.subrange(i + 1, n as int);
            lemma_le_val_bound(tail);
            lemma_pow256_mono(tail.len(), 7);
            lemma_pow256_values();
            assert(acc as nat * 256 + 255 < pow256(8)) by {
                assert(acc as nat <= pow256(7) - 1);
            };
        }
        acc = acc * 256 + (s[i] as u64);
        proof {
            let sub = s@.subrange(i as int, n as int);
            assert(sub.len() > 0);
            assert(sub[0] == s@[i as int]);
            assert(sub.subrange(1, sub.len() as int) =~= s@.subrange(i + 1, n as int));
            assert(le_val(sub) == sub[0] as nat + 256 * le_val(s@.subrange(i + 1, n as int)));
        }
    }
    proof {
        assert(s@.subrange(0, n as int) =~= s@);
    }
    acc
}

/// The unsigned integer with the same eight-bit pattern as `x`.
pub open spec fn u8_of_i8(x: i8) -> u8 {
    if x >= 0 {
        x as u8
    } else {
        (x + 0x100) as u8
    }
}

/// Inverse of [`u8_of_i8`].
pub open spec fn i8_of_u8(u: u8) -> i8 {
    if u < 0x80 {
        u as i8
    } else {
        (u - 0x100) as i8
    }
}

pub open spec fn u16_of_i16(x: i16) -> u16 {
    if x >= 0 {
        x as u16
    } else {
        (x + 0x10000) as u16
    }
}

pub open spec fn i16_of_u16(u: u16) -> i16 {
    if u < 0x8000 {
        u as i16
    } else {
        (u - 0x10000) as i16
    }
}

pub open spec fn u32_of_i32(x: i32) -> u32 {
    if x >= 0 {
        x as u32
    } else {
        (x + 0x100000000) as u32
    }
}

pub open spec fn i32_of_u32(u: u32) -> i32 {
    if u < 0x80000000 {
        u as i32
    } else {
        (u - 0x100000000) as i32
    }
}

pub open spec fn u64_of_i64(x: i64) -> u64 {
    if x >= 0 {
        x as u64
    } else {
        (x + 0x10000000000000000) as u64
    }
}

pub open spec fn i64_of_u64(u: u64) -> i64 {
    if u < 0x8000000000000000 {
        u as i64
    } else {
        (u - 0x10000000000000000) as i64
    }
}

pub proof fn lemma_i8_bits(x: i8)
    ensures
        i8_of_u8(u8_of_i8(x)) == x,
{
}

pub proof fn lemma_i16_bits(x: i16)
    ensures
        i16_of_u16(u16_of_i16(x)) == x,
{
}

pub proof fn lemma_i32_bits(x: i32)
    ensures
        i32_of_u32(u32_of_i32(x)) == x,
{
}

pub proof fn lemma_i64_bits(x: i64)
    ensures
        i64_of_u64(u64_of_i64(x)) == x,
{
}

pub fn u8_from_i8(x: i8) -> (r: u8)
    ensures
        r == u8_of_i8(x),
{
    if x >= 0 {
        x as u8
    } else {
        ((x as i16) + 0x100) as u8
    }
}

pub fn i8_from_u8(u: u8) -> (r: i8)
    ensures
        r == i8_of_u8(u),
{
    if u < 0x80 {
        u as i8
    } else {
        ((u as i16) - 0x100) as i8
    }
}

pub fn u16_from_i16(x: i16) -> (r: u16)
    ensures
        r == u16_of_i16(x),
{
    if x >= 0 {
        x as u16
    } else {
        ((x as i32) + 0x10000) as u16
    }
}

pub fn i16_from_u16(u: u16) -> (r: i16)
    ensures
        r == i16_of_u16(u),
{
    if u < 0x8000 {
        u as i16
    } else {
        ((u as i32) - 0x10000) as i16
    }
}

pub fn u32_from_i32(x: i32) -> (r: u32)
    ensures
        r == u32_of_i32(x),
{
    if x >= 0 {
        x as u32
    } else {
        ((x as i64) + 0x100000000) as u32
    }
}

pub fn i32_from_u32(u: u32) -> (r: i32)
    ensures
        r == i32_of_u32(u),
{
    if u < 0x80000000 {
        u as i32
    } else {
        ((u as i64) - 0x100000000) as i32
    }
}

pub fn u64_from_i64(x: i64) -> (r: u64)
    ensures
        r == u64_of_i64(x),
{
    if x >= 0 {
        x as u64
    } else {
        ((x as i128) + 0x10000000000000000) as u64
    }
}

pub fn i64_from_u64(u: u64) -> (r: i64)
    ensures
        r == i64_of_u64(u),
{
    if u < 0x8000000000000000 {
        u as i64
    } else {
        ((u as i128) - 0x10000000000000000) as i64
    }
}

} // verus!
