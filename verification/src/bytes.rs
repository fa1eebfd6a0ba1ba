//! Big-endian integer values read from a byte stream.

use vstd::prelude::*;

verus! {

/// The unsigned value of a byte sequence read as one big-endian integer:
/// the first byte is the most significant.
pub open spec fn be_val(s: Seq<u8>) -> int
    decreases s.len(),
{
    if s.len() == 0 {
        0
    } else {
        256 * be_val(s.drop_last()) + s.last()
    }
}

/// 256 raised to `n`: the number of values a big-endian field of `n` bytes
/// can take.
pub open spec fn pow256(n: nat) -> int
    decreases n,
{
    if n == 0 {
        1
    } else {
        256 * pow256((n - 1) as nat)
    }
}

/// A big-endian field of `n` bytes holds a value in `[0, pow256(n))`.
pub proof fn lemma_be_val_bound(s: Seq<u8>)
    ensures
        0 <= be_val(s) < pow256(s.len()),
    decreases s.len(),
{
    if s.len() > 0 {
        lemma_be_val_bound(s.drop_last());
    }
}

/// Read `len` bytes starting at `pos` as one big-endian unsigned integer.
pub fn read_be(bytes: &[u8], pos: usize, len: usize) -> (r: u64)
    requires
        pos + len <= bytes@.len(),
        len <= 8,
    ensures
        r as int == be_val(bytes@.subrange(pos as int, pos as int + len as int)),
{
    let n = bytes.len();
    let mut acc: u64 = 0;
    let mut j: usize = 0;
    proof {
        assert(bytes@.subrange(pos as int, pos as int) =~= Seq::<u8>::empty());
    }
    while j < len
        invariant
            j <= len,
            len <= 8,
            n == bytes@.len(),
            pos + len <= n,
            acc as int == be_val(bytes@.subrange(pos as int, pos as int + j as int)),
            (acc as int) < pow256(j as nat),
        decreases len - j,
    {
        let b = bytes[pos + j];
        proof {
            let prefix = bytes@.subrange(pos as int, pos as int + j as int);
            let next = bytes@.subrange(pos as int, pos as int + j as int + 1);
            assert(next.drop_last() =~= prefix);
            assert(next.last() == bytes@[pos as int + j as int]);
            assert(pow256(8) == 0x1_0000_0000_0000_0000) by {
                reveal_with_fuel(pow256, 9);
            }
            assert(pow256(j as nat) <= pow256(7)) by {
                reveal_with_fuel(pow256, 9);
            }
        }
        acc = acc * 256 + (b as u64);
        j = j + 1;
    }
    acc
}

/// The signed reading of an unsigned big-endian value `v` drawn from a field
/// of `m` values: two's complement, so values with the top bit set stand for
/// `v - m`.
pub open spec fn signed_of(v: int, m: int) -> int {
    if 2 * v < m {
        v
    } else {
        v - m
    }
}

} // verus!
