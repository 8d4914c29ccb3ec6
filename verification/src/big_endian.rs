//! Big-endian integer fields of the log format.
//!
//! Every integer in the container format is stored big-endian and signed, in
//! two's complement. The spec functions here give the mathematical value of a
//! byte sequence, and the executable readers are proved to return exactly that
//! value.

use vstd::prelude::*;

verus! {

/// The unsigned value of a byte sequence read big-endian.
pub open spec fn be_uint(s: Seq<u8>) -> nat
    decreases s.len(),
{
    if s.len() == 0 {
        0
    } else {
        be_uint(s.drop_last()) * 256 + s.last() as nat
    }
}

/// 256 to the power `n`: the number of distinct values of `n` bytes.
pub open spec fn pow256(n: nat) -> nat
    decreases n,
{
    if n == 0 {
        1
    } else {
        256 * pow256((n - 1) as nat)
    }
}

/// The signed value of an 8-byte big-endian field, in two's complement.
pub open spec fn be_i64(s: Seq<u8>) -> int
    recommends
        s.len() == 8,
{
    if be_uint(s) < 0x8000_0000_0000_0000 {
        be_uint(s) as int
    } else {
        be_uint(s) - 0x1_0000_0000_0000_0000
    }
}

/// The signed value of a 4-byte big-endian field, in two's complement.
pub open spec fn be_i32(s: Seq<u8>) -> int
    recommends
        s.len() == 4,
{
    if be_uint(s) < 0x8000_0000 {
        be_uint(s) as int
    } else {
        be_uint(s) - 0x1_0000_0000
    }
}

/// A sequence of `n` bytes can hold values up to `pow256(n) - 1`.
pub proof fn lemma_be_uint_bound(s: Seq<u8>)
    ensures
        be_uint(s) < pow256(s.len()),
    decreases s.len(),
{
    if s.len() > 0 {
        lemma_be_uint_bound(s.drop_last());
    }
}

/// `pow256` grows with its argument.
pub proof fn lemma_pow256_le(m: nat, n: nat)
    requires
        m <= n,
    ensures
        pow256(m) <= pow256(n),
    decreases n,
{
    if m < n {
        lemma_pow256_le(m, (n - 1) as nat);
    }
}

/// The `n`-byte big-endian encoding of the unsigned value `x`.
pub open spec fn be_bytes_of_uint(x: nat, n: nat) -> Seq<u8>
    decreases n,
{
    if n == 0 {
        Seq::empty()
    } else {
        be_bytes_of_uint(x / 256, (n - 1) as nat).push((x % 256) as u8)
    }
}

/// The encoding always has exactly the asked-for length.
pub proof fn lemma_be_bytes_of_uint_len(x: nat, n: nat)
    ensures
        be_bytes_of_uint(x, n).len() == n,
    decreases n,
{
    if n > 0 {
        lemma_be_bytes_of_uint_len(x / 256, (n - 1) as nat);
    }
}

/// Decoding the encoding of a value that fits in `n` bytes gives it back.
pub proof fn lemma_be_bytes_of_uint(x: nat, n: nat)
    requires
        x < pow256(n),
    ensures
        be_bytes_of_uint(x, n).len() == n,
        be_uint(be_bytes_of_uint(x, n)) == x,
    decreases n,
{
    lemma_be_bytes_of_uint_len(x, n);
    if n > 0 {
        assert(pow256(n) == 256 * pow256((n - 1) as nat));
        assert(x / 256 < pow256((n - 1) as nat)) by (nonlinear_arith)
            requires
                0 <= x < 256 * pow256((n - 1) as nat),
        ;
        lemma_be_bytes_of_uint(x / 256, (n - 1) as nat);
        let s = be_bytes_of_uint(x, n);
        assert(s.drop_last() =~= be_bytes_of_uint(x / 256, (n - 1) as nat));
        assert(s.last() == (x % 256) as u8);
    }
}

/// The 8-byte big-endian two's complement encoding of the signed value `x`.
pub open spec fn be_bytes_of_i64(x: int) -> Seq<u8> {
    if x >= 0 {
        be_bytes_of_uint(x as nat, 8)
    } else {
        be_bytes_of_uint((x + 0x1_0000_0000_0000_0000) as nat, 8)
    }
}

/// Decoding the encoding of a value in the range of `i64` gives it back.
pub proof fn lemma_be_bytes_of_i64(x: int)
    requires
        -0x8000_0000_0000_0000 <= x < 0x8000_0000_0000_0000,
    ensures
        be_bytes_of_i64(x).len() == 8,
        be_i64(be_bytes_of_i64(x)) == x,
{
    reveal_with_fuel(pow256, 9);
    if x >= 0 {
        lemma_be_bytes_of_uint(x as nat, 8);
    } else {
        lemma_be_bytes_of_uint((x + 0x1_0000_0000_0000_0000) as nat, 8);
    }
}

/// The 4-byte big-endian two's complement encoding of the signed value `x`.
pub open spec fn be_bytes_of_i32(x: int) -> Seq<u8> {
    if x >= 0 {
        be_bytes_of_uint(x as nat, 4)
    } else {
        be_bytes_of_uint((x + 0x1_0000_0000) as nat, 4)
    }
}

/// Decoding the encoding of a value in the range of `i32` gives it back.
pub proof fn lemma_be_bytes_of_i32(x: int)
    requires
        -0x8000_0000 <= x < 0x8000_0000,
    ensures
        be_bytes_of_i32(x).len() == 4,
        be_i32(be_bytes_of_i32(x)) == x,
{
    reveal_with_fuel(pow256, 9);
    if x >= 0 {
        lemma_be_bytes_of_uint(x as nat, 4);
    } else {
        lemma_be_bytes_of_uint((x + 0x1_0000_0000) as nat, 4);
    }
}

/// An 8-byte signed field always lies in the range of `i64`.
pub proof fn lemma_be_i64_range(s: Seq<u8>)
    requires
        s.len() == 8,
    ensures
        -0x8000_0000_0000_0000 <= be_i64(s) < 0x8000_0000_0000_0000,
{
    lemma_be_uint_bound(s);
    reveal_with_fuel(pow256, 9);
}

/// A 4-byte signed field always lies in the range of `i32`.
pub proof fn lemma_be_i32_range(s: Seq<u8>)
    requires
        s.len() == 4,
    ensures
        -0x8000_0000 <= be_i32(s) < 0x8000_0000,
{
    lemma_be_uint_bound(s);
    reveal_with_fuel(pow256, 9);
}

/// Reads the 8-byte big-endian unsigned field at `pos`.
pub fn read_be_u64(data: &[u8], pos: usize) -> (r: u64)
    requires
        pos + 8 <= data@.len(),
    ensures
        r == be_uint(data@.subrange(pos as int, pos as int + 8)),
{
    proof {
        reveal_with_fuel(pow256, 9);
    }
    let n: usize = data.len();
    let mut acc: u64 = 0;
    let mut i: usize = 0;
    while i < 8
        invariant
            pos + 8 <= data@.len(),
            data@.len() == n,
            i <= 8,
            acc == be_uint(data@.subrange(pos as int, pos as int + i as int)),
            acc < pow256(i as nat),
        decreases 8 - i,
    {
        proof {
            reveal_with_fuel(pow256, 9);
            lemma_pow256_le(i as nat, 7);
            let prefix = data@.subrange(pos as int, pos as int + i as int);
            let extended = data@.subrange(pos as int, pos as int + i as int + 1);
            assert(extended.drop_last() =~= prefix);
            assert(extended.last() == data@[pos as int + i as int]);
        }
        acc = acc * 256 + (data[pos + i] as u64);
        i = i + 1;
    }
    acc
}

/// Reads the 4-byte big-endian unsigned field at `pos`.
pub fn read_be_u32(data: &[u8], pos: usize) -> (r: u32)
    requires
        pos + 4 <= data@.len(),
    ensures
        r == be_uint(data@.subrange(pos as int, pos as int + 4)),
{
    proof {
        reveal_with_fuel(pow256, 9);
    }
    let n: usize = data.len();
    let mut acc: u32 = 0;
    let mut i: usize = 0;
    while i < 4
        invariant
            pos + 4 <= data@.len(),
            data@.len() == n,
            i <= 4,
            acc == be_uint(data@.subrange(pos as int, pos as int + i as int)),
            acc < pow256(i as nat),
        decreases 4 - i,
    {
        proof {
            reveal_with_fuel(pow256, 9);
            lemma_pow256_le(i as nat, 3);
            let prefix = data@.subrange(pos as int, pos as int + i as int);
            let extended = data@.subrange(pos as int, pos as int + i as int + 1);
            assert(extended.drop_last() =~= prefix);
            assert(extended.last() == data@[pos as int + i as int]);
        }
        acc = acc * 256 + (data[pos + i] as u32);
        i = i + 1;
    }
    acc
}

/// Reads the 8-byte big-endian signed field at `pos`.
pub fn read_be_i64(data: &[u8], pos: usize) -> (r: i64)
    requires
        pos + 8 <= data@.len(),
    ensures
        r == be_i64(data@.subrange(pos as int, pos as int + 8)),
{
    let u = read_be_u64(data, pos);
    if u < 0x8000_0000_0000_0000 {
        u as i64
    } else {
        -((0xFFFF_FFFF_FFFF_FFFFu64 - u) as i64) - 1
    }
}

/// Reads the 4-byte big-endian signed field at `pos`.
pub fn read_be_i32(data: &[u8], pos: usize) -> (r: i32)
    requires
        pos + 4 <= data@.len(),
    ensures
        r == be_i32(data@.subrange(pos as int, pos as int + 4)),
{
    let u = read_be_u32(data, pos);
    if u < 0x8000_0000 {
        u as i32
    } else {
        -((0xFFFF_FFFFu32 - u) as i32) - 1
    }
}

} // verus!
