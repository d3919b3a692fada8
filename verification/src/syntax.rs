//! How syntax elements are written into a bitstream, and that they are read back.

use crate::bits::{
    bit_at, bit_len, bits_value, read_bit_at, read_bits_at, read_se_at, read_ue_at, se_value,
    zero_run,
};
use vstd::arithmetic::power2::{lemma2_to64, lemma_pow2_adds, lemma_pow2_pos, pow2};
use vstd::prelude::*;

verus! {

// ---------------------------------------------------------------------------
// Writing
// ---------------------------------------------------------------------------

/// A number in `n` binary digits, the highest first.
pub open spec fn fixed_bits(v: nat, n: nat) -> Seq<bool>
    decreases n,
{
    if n == 0 {
        Seq::empty()
    } else {
        fixed_bits(v / 2, (n - 1) as nat).push(v % 2 == 1)
    }
}

/// The number of binary digits of a number, at least one.
pub open spec fn digits(v: nat) -> nat
    decreases v,
{
    if v < 2 {
        1
    } else {
        1 + digits(v / 2)
    }
}

/// The unsigned Exp-Golomb code of a number: its successor in binary digits, behind one
/// zero for each digit but the first.
pub open spec fn ue_bits(v: nat) -> Seq<bool> {
    let n = digits(v + 1);
    Seq::new((n - 1) as nat, |i: int| false) + fixed_bits(v + 1, n)
}

/// The signed Exp-Golomb code of a number: positive numbers have the odd codes, and the
/// others the even ones.
pub open spec fn se_bits(v: int) -> Seq<bool> {
    if v > 0 {
        ue_bits((2 * v - 1) as nat)
    } else {
        ue_bits((-2 * v) as nat)
    }
}

/// The data hold the given bits from position `p` on.
pub open spec fn holds(data: Seq<u8>, p: int, bits: Seq<bool>) -> bool {
    &&& 0 <= p
    &&& p + bits.len() <= bit_len(data)
    &&& forall|i: int|
        0 <= i < bits.len() ==> (bit_at(data, p + i) == 1) == #[trigger] bits[i]
}

// ---------------------------------------------------------------------------
// Reading back
// ---------------------------------------------------------------------------

/// The bits of a byte are its binary digits, the highest first.
pub proof fn law_bits_are_digits(data: Seq<u8>, p: int)
    requires
        0 <= p < bit_len(data),
    ensures
        bit_at(data, p) == (data[p / 8] as nat / pow2((7 - p % 8) as nat)) % 2,
{
    lemma2_to64();
    let b: u8 = data[p / 8];
    let k: usize = (7 - p % 8) as usize;
    assert(k == 0 || k == 1 || k == 2 || k == 3 || k == 4 || k == 5 || k == 6 || k == 7);
    assert((b >> 0usize) & 1 == (b / 1) % 2 && (b >> 1usize) & 1 == (b / 2) % 2 && (b >> 2usize) & 1
        == (b / 4) % 2 && (b >> 3usize) & 1 == (b / 8) % 2 && (b >> 4usize) & 1 == (b / 16) % 2 && (b
        >> 5usize) & 1 == (b / 32) % 2 && (b >> 6usize) & 1 == (b / 64) % 2 && (b >> 7usize) & 1 == (b
        / 128) % 2) by (bit_vector);
}

/// What is written in two parts is held in two parts.
pub proof fn lemma_holds_splits(data: Seq<u8>, p: int, a: Seq<bool>, b: Seq<bool>)
    ensures
        holds(data, p, a + b) ==> holds(data, p, a) && holds(data, p + a.len(), b),
{
    if holds(data, p, a + b) {
        let all = a + b;
        assert forall|i: int| 0 <= i < a.len() implies (bit_at(data, p + i) == 1)
            == #[trigger] a[i] by {
            assert(all[i] == a[i]);
        }
        assert forall|i: int| 0 <= i < b.len() implies (bit_at(data, p + a.len() + i) == 1)
            == #[trigger] b[i] by {
            assert(all[a.len() + i] == b[i]);
        }
    }
}

/// A bit that was written is read back.
pub proof fn law_bit_reads_back(data: Seq<u8>, p: int, b: bool)
    requires
        holds(data, p, seq![b]),
    ensures
        read_bit_at(data, p) == (
            Some(
                if b {
                    1u32
                } else {
                    0u32
                },
            ),
            p + 1,
        ),
{
    assert(seq![b][0] == b);
    crate::bits::lemma_bit_at_range(data, p);
}

proof fn lemma_fixed_bits_len(v: nat, n: nat)
    ensures
        fixed_bits(v, n).len() == n,
    decreases n,
{
    if n > 0 {
        lemma_fixed_bits_len(v / 2, (n - 1) as nat);
    }
}

proof fn lemma_fixed_value(data: Seq<u8>, p: int, v: nat, n: nat)
    requires
        holds(data, p, fixed_bits(v, n)),
        v < pow2(n),
    ensures
        bits_value(data, p, n) == v,
    decreases n,
{
    lemma2_to64();
    if n > 0 {
        let k = (n - 1) as nat;
        lemma_pow2_adds(k, 1);
        lemma_fixed_bits_len(v / 2, k);
        let high = fixed_bits(v / 2, k);
        assert(fixed_bits(v, n) =~= high + seq![v % 2 == 1]);
        lemma_holds_splits(data, p, high, seq![v % 2 == 1]);
        lemma_fixed_value(data, p, v / 2, k);
        law_bit_reads_back(data, p + k, v % 2 == 1);
    }
}

/// A number that was written in a fixed number of digits is read back.
pub proof fn law_fixed_reads_back(data: Seq<u8>, p: int, v: nat, n: nat)
    requires
        n <= 32,
        v < pow2(n),
        holds(data, p, fixed_bits(v, n)),
    ensures
        read_bits_at(data, p, n) == (Some(v as u32), p + n),
        fixed_bits(v, n).len() == n,
{
    lemma_fixed_bits_len(v, n);
    lemma_fixed_value(data, p, v, n);
    lemma2_to64();
    if n < 32 {
        vstd::arithmetic::power2::lemma_pow2_strictly_increases(n, 32);
    }
}

proof fn lemma_digits(v: nat)
    ensures
        v < pow2(digits(v)),
        v >= 1 ==> pow2((digits(v) - 1) as nat) <= v,
        digits(v) >= 1,
    decreases v,
{
    lemma2_to64();
    if v >= 2 {
        lemma_digits(v / 2);
        lemma_pow2_adds(digits(v / 2), 1);
        lemma_pow2_adds((digits(v / 2) - 1) as nat, 1);
    }
}

proof fn lemma_digits_at_most(v: nat, n: nat)
    requires
        v < pow2(n),
        n >= 1,
    ensures
        digits(v) <= n,
    decreases v,
{
    lemma_digits(v);
    if digits(v) > n {
        if v >= 1 {
            if digits(v) - 1 > n {
                vstd::arithmetic::power2::lemma_pow2_strictly_increases(
                    n,
                    (digits(v) - 1) as nat,
                );
            }
        }
    }
}

proof fn lemma_zeros_run(data: Seq<u8>, p: int, z: nat)
    requires
        0 <= p,
        p + z < bit_len(data),
        forall|i: int| 0 <= i < z ==> #[trigger] bit_at(data, p + i) != 1,
        bit_at(data, p + z) == 1,
    ensures
        zero_run(data, p) == z,
    decreases z,
{
    if z > 0 {
        assert(bit_at(data, p + 0) != 1);
        assert forall|i: int| 0 <= i < z - 1 implies #[trigger] bit_at(data, p + 1 + i) != 1 by {
            assert(bit_at(data, p + (i + 1)) != 1);
        }
        lemma_zeros_run(data, p + 1, (z - 1) as nat);
    }
}

proof fn lemma_top_digit(v: nat, n: nat)
    requires
        n >= 1,
        pow2((n - 1) as nat) <= v < pow2(n),
    ensures
        fixed_bits(v, n) == seq![true] + fixed_bits((v - pow2((n - 1) as nat)) as nat, (n - 1) as nat),
    decreases n,
{
    lemma2_to64();
    let k = (n - 1) as nat;
    let low = (v - pow2(k)) as nat;
    if n == 1 {
        assert(v == 1);
        assert(fixed_bits(1, 1) =~= seq![true]);
        assert(seq![true] + fixed_bits(low, 0) =~= seq![true]);
    } else {
        let j = (k - 1) as nat;
        lemma_pow2_adds(j, 1);
        lemma_pow2_adds(k, 1);
        lemma_pow2_pos(j);
        assert(v % 2 == low % 2);
        assert(v / 2 - pow2(j) == low / 2);
        lemma_top_digit(v / 2, k);
        assert(fixed_bits(v, n) =~= seq![true] + fixed_bits(low, k));
    }
}

/// An unsigned Exp-Golomb code that was written is read back.
pub proof fn law_ue_reads_back(data: Seq<u8>, p: int, v: nat)
    requires
        v < u32::MAX,
        holds(data, p, ue_bits(v)),
    ensures
        read_ue_at(data, p) == (Some(v as u32), p + ue_bits(v).len()),
{
    lemma2_to64();
    let w = v + 1;
    let n = digits(w);
    let z = (n - 1) as nat;
    lemma_digits(w);
    lemma_digits_at_most(w, 32);
    lemma_fixed_bits_len(w, n);
    let zeros = Seq::new(z, |i: int| false);
    lemma_holds_splits(data, p, zeros, fixed_bits(w, n));
    lemma_top_digit(w, n);
    let low = (w - pow2(z)) as nat;
    lemma_fixed_bits_len(low, z);
    lemma_holds_splits(data, p + z, seq![true], fixed_bits(low, z));
    law_bit_reads_back(data, p + z, true);
    assert forall|i: int| 0 <= i < z implies #[trigger] bit_at(data, p + i) != 1 by {
        assert(zeros[i] == false);
    }
    lemma_zeros_run(data, p, z);
    lemma_pow2_adds(z, 1);
    lemma_fixed_value(data, p + z + 1, low, z);
}

/// A signed Exp-Golomb code that was written is read back, as far as its code number
/// fits in 31 bits.
pub proof fn law_se_reads_back(data: Seq<u8>, p: int, v: int)
    requires
        -0x4000_0000 < v < 0x4000_0000,
        holds(data, p, se_bits(v)),
    ensures
        read_se_at(data, p) == (Some(v as i32), p + se_bits(v).len()),
{
    let k: nat = if v > 0 {
        (2 * v - 1) as nat
    } else {
        (-2 * v) as nat
    };
    law_ue_reads_back(data, p, k);
    assert(se_value(k as u32) == v);
}

} // verus!
