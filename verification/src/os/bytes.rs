//! Little-endian field decoding shared by the backends that read binary
//! kernel records.

use vstd::prelude::*;

verus! {

/// The value of `count` bytes starting at `start`, least significant byte
/// first.
pub open spec fn spec_le_value(bytes: Seq<u8>, start: int, count: int) -> nat
    decreases count,
{
    if count <= 0 {
        0
    } else {
        (bytes[start] as nat) + 256 * spec_le_value(bytes, start + 1, count - 1)
    }
}

/// The `n`-th power of 256.
pub open spec fn spec_pow256(n: int) -> nat
    decreases n,
{
    if n <= 0 {
        1nat
    } else {
        256 * spec_pow256(n - 1)
    }
}

/// A little-endian value of `count` bytes lies below the `count`-th power
/// of 256.
pub proof fn lemma_le_value_bound(bytes: Seq<u8>, start: int, count: int)
    requires
        0 <= start,
        start + count <= bytes.len(),
    ensures
        spec_le_value(bytes, start, count) < spec_pow256(count),
    decreases count,
{
    if count > 0 {
        lemma_le_value_bound(bytes, start + 1, count - 1);
        let tail = spec_le_value(bytes, start + 1, count - 1);
        let p = spec_pow256(count - 1);
        assert(256 * tail <= 256 * (p - 1)) by (nonlinear_arith)
            requires
                tail <= p - 1,
        ;
    }
}

/// The powers of 256 relevant to the record fields.
pub proof fn lemma_pow256_values()
    ensures
        spec_pow256(4) == 0x1_0000_0000,
        spec_pow256(8) == 0x1_0000_0000_0000_0000,
{
    assert(spec_pow256(0) == 1);
    assert(spec_pow256(1) == 256);
    assert(spec_pow256(2) == 0x1_0000);
    assert(spec_pow256(3) == 0x100_0000);
    assert(spec_pow256(4) == 0x1_0000_0000);
    assert(spec_pow256(5) == 0x100_0000_0000);
    assert(spec_pow256(6) == 0x1_0000_0000_0000);
    assert(spec_pow256(7) == 0x100_0000_0000_0000);
    assert(spec_pow256(8) == 0x1_0000_0000_0000_0000);
}

/// The powers of 256 grow with the exponent.
proof fn lemma_pow256_increases(m: int, n: int)
    requires
        0 <= m <= n,
    ensures
        spec_pow256(m) <= spec_pow256(n),
    decreases n - m,
{
    if m < n {
        lemma_pow256_increases(m, n - 1);
        let p = spec_pow256(n - 1);
        assert(p <= 256 * p) by (nonlinear_arith)
            requires
                0 <= p,
        ;
    }
}

/// Reads an eight-byte little-endian value.
pub fn read_le_u64(bytes: &Vec<u8>, start: usize) -> (r: u64)
    requires
        start + 8 <= bytes@.len(),
    ensures
        r as nat == spec_le_value(bytes@, start as int, 8),
{
    proof {
        lemma_pow256_values();
    }
    let n = bytes.len();
    let mut r: u64 = 0;
    let mut i: usize = 8;
    while i > 0
        invariant
            i <= 8,
            n == bytes@.len(),
            start + 8 <= n,
            r as nat == spec_le_value(bytes@, start as int + i, 8 - i),
            spec_pow256(8) == 0x1_0000_0000_0000_0000,
        decreases i,
    {
        i = i - 1;
        proof {
            lemma_le_value_bound(bytes@, start as int + i + 1, 8 - i - 1);
            let tail = spec_le_value(bytes@, start as int + i + 1, 8 - i - 1);
            let p = spec_pow256(8 - i - 1);
            assert(256 * tail <= 256 * (p - 1)) by (nonlinear_arith)
                requires
                    tail <= p - 1,
            ;
            assert(256 * p <= spec_pow256(8)) by {
                assert(spec_pow256(8 - i) == 256 * p);
                lemma_pow256_increases(8 - i, 8);
            }
        }
        r = r * 256 + (bytes[start + i] as u64);
    }
    r
}

/// Reads a four-byte little-endian value.
pub fn read_le_u32(bytes: &Vec<u8>, start: usize) -> (r: u32)
    requires
        start + 4 <= bytes@.len(),
    ensures
        r as nat == spec_le_value(bytes@, start as int, 4),
{
    proof {
        lemma_pow256_values();
    }
    let n = bytes.len();
    let mut r: u32 = 0;
    let mut i: usize = 4;
    while i > 0
        invariant
            i <= 4,
            n == bytes@.len(),
            start + 4 <= n,
            r as nat == spec_le_value(bytes@, start as int + i, 4 - i),
            spec_pow256(4) == 0x1_0000_0000,
        decreases i,
    {
        i = i - 1;
        proof {
            lemma_le_value_bound(bytes@, start as int + i + 1, 4 - i - 1);
            let tail = spec_le_value(bytes@, start as int + i + 1, 4 - i - 1);
            let p = spec_pow256(4 - i - 1);
            assert(256 * tail <= 256 * (p - 1)) by (nonlinear_arith)
                requires
                    tail <= p - 1,
            ;
            assert(256 * p <= spec_pow256(4)) by {
                assert(spec_pow256(4 - i) == 256 * p);
                lemma_pow256_increases(4 - i, 4);
            }
        }
        r = r * 256 + (bytes[start + i] as u32);
    }
    r
}

} // verus!
