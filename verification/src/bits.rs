//! Most-significant-bit-first reading of a byte slice.

use vstd::arithmetic::power2::{lemma_pow2_adds, lemma_pow2_strictly_increases, lemma2_to64, pow2};
use vstd::prelude::*;

verus! {

/// The bit at position `p` of `data`, the most significant bit of the first
/// byte standing at position 0.
pub open spec fn bit_at(data: Seq<u8>, p: int) -> u32 {
    ((data[p / 8] >> ((7 - p % 8) as usize)) & 1) as u32
}

/// The number of bits in `data`.
pub open spec fn bit_len(data: Seq<u8>) -> int {
    8 * (data.len() as int)
}

/// The `n` bits from position `p` on, read as an unsigned number.
pub open spec fn bits_value(data: Seq<u8>, p: int, n: nat) -> nat
    decreases n,
{
    if n == 0 {
        0
    } else {
        2 * bits_value(data, p, (n - 1) as nat) + bit_at(data, p + n - 1) as nat
    }
}

/// How many zero bits stand at position `p` before the next one bit or the end.
pub open spec fn zero_run(data: Seq<u8>, p: int) -> nat
    decreases bit_len(data) - p,
{
    if p < 0 || p >= bit_len(data) || bit_at(data, p) == 1 {
        0
    } else {
        1 + zero_run(data, p + 1)
    }
}

/// What reading one bit at `p` gives, and the position afterwards.
pub open spec fn read_bit_at(data: Seq<u8>, p: int) -> (Option<u32>, int) {
    if p < bit_len(data) {
        (Some(bit_at(data, p)), p + 1)
    } else {
        (None, p)
    }
}

/// What reading `n` bits at `p` gives, and the position afterwards. A value of
/// more than 32 bits keeps its low 32; a read past the end uses up the rest.
pub open spec fn read_bits_at(data: Seq<u8>, p: int, n: nat) -> (Option<u32>, int) {
    if p + n <= bit_len(data) {
        (Some((bits_value(data, p, n) % 0x1_0000_0000) as u32), p + n)
    } else {
        (None, bit_len(data))
    }
}

/// What reading an unsigned Exp-Golomb code at `p` gives, and the position
/// afterwards. A code of 32 leading zeros is refused once they are read; a code
/// that the data ends within uses up the rest.
pub open spec fn read_ue_at(data: Seq<u8>, p: int) -> (Option<u32>, int) {
    let z = zero_run(data, p);
    if z >= 32 {
        (None, p + 32)
    } else if p + 2 * z + 1 <= bit_len(data) {
        (Some((pow2(z) - 1 + bits_value(data, p + z + 1, z)) as u32), p + 2 * z + 1)
    } else {
        (None, bit_len(data))
    }
}

/// The number that wraps to `k` when it is stored in 32 signed bits.
pub open spec fn wrap_i32(k: int) -> int {
    if k < 0x8000_0000 {
        k
    } else {
        k - 0x1_0000_0000
    }
}

/// The signed value of the Exp-Golomb code number `k`: 0, 1, -1, 2, -2, and so
/// on. Code numbers beyond 31 bits wrap.
pub open spec fn se_value(k: u32) -> int {
    if k % 2 == 1 {
        wrap_i32(k + 1) / 2
    } else {
        -(wrap_i32(k as int) / 2)
    }
}

/// What reading a signed Exp-Golomb code at `p` gives, and the position afterwards.
pub open spec fn read_se_at(data: Seq<u8>, p: int) -> (Option<i32>, int) {
    let (ue, q) = read_ue_at(data, p);
    match ue {
        Some(k) => (Some(se_value(k) as i32), q),
        None => (None, q),
    }
}

/// A single bit is 0 or 1.
pub proof fn lemma_bit_at_range(data: Seq<u8>, p: int)
    ensures
        bit_at(data, p) <= 1,
{
    let b: u8 = data[p / 8];
    let k: usize = (7 - p % 8) as usize;
    assert((b >> k) & 1 <= 1) by (bit_vector);
}

/// A number of `n` bits is less than two to the power of `n`.
pub proof fn lemma_bits_value_bound(data: Seq<u8>, p: int, n: nat)
    ensures
        bits_value(data, p, n) < pow2(n),
    decreases n,
{
    if n == 0 {
        lemma2_to64();
    } else {
        lemma_bits_value_bound(data, p, (n - 1) as nat);
        lemma_bit_at_range(data, p + n - 1);
        lemma_pow2_adds((n - 1) as nat, 1);
        lemma2_to64();
    }
}

/// The bits of a run are a number in their own right: splitting a read in two
/// gives the high part and the low part.
pub proof fn law_bits_value_splits(data: Seq<u8>, p: int, m: nat, n: nat)
    ensures
        bits_value(data, p, m + n) == bits_value(data, p, m) * pow2(n) + bits_value(data, p + m, n),
    decreases n,
{
    if n == 0 {
        lemma2_to64();
        assert(bits_value(data, p, m) * 1 == bits_value(data, p, m));
    } else {
        let k = (n - 1) as nat;
        law_bits_value_splits(data, p, m, k);
        lemma_pow2_adds(k, 1);
        lemma2_to64();
        assert((m + n - 1) as nat == m + k);
        let h = bits_value(data, p, m);
        assert(h * (2 * pow2(k)) == 2 * (h * pow2(k))) by (nonlinear_arith);
    }
}

/// A read never moves the position backwards nor beyond the end of the data.
pub proof fn law_reads_stay_in_bounds(data: Seq<u8>, p: int, n: nat)
    requires
        0 <= p <= bit_len(data),
    ensures
        p <= read_bit_at(data, p).1 <= bit_len(data),
        p <= read_bits_at(data, p, n).1 <= bit_len(data),
        p <= read_ue_at(data, p).1 <= bit_len(data),
        p <= read_se_at(data, p).1 <= bit_len(data),
{
    lemma_zero_run_in_bounds(data, p);
}

proof fn lemma_zero_run_in_bounds(data: Seq<u8>, p: int)
    requires
        0 <= p <= bit_len(data),
    ensures
        p + zero_run(data, p) <= bit_len(data),
        p + zero_run(data, p) < bit_len(data) ==> bit_at(data, p + zero_run(data, p)) == 1,
    decreases bit_len(data) - p,
{
    if p < bit_len(data) && bit_at(data, p) != 1 {
        lemma_zero_run_in_bounds(data, p + 1);
    }
}

/// Splits a run of zeros at a position inside it.
proof fn lemma_zero_run_prefix(data: Seq<u8>, p: int, k: nat)
    requires
        0 <= p,
        p + k <= bit_len(data),
        forall|i: int| p <= i < p + k ==> bit_at(data, i) == 0,
    ensures
        zero_run(data, p) == k + zero_run(data, p + k),
    decreases k,
{
    if k > 0 {
        assert(bit_at(data, p) == 0);
        lemma_zero_run_prefix(data, p + 1, (k - 1) as nat);
    }
}

/// A reader over a byte slice, one bit at a time.
pub struct SliceBitReader<'a> {
    pub data: &'a [u8],
    pub pos: usize,
}

impl<'a> SliceBitReader<'a> {
    /// The position lies within the data, and every position can be counted.
    pub open spec fn wf(&self) -> bool {
        &&& bit_len(self.data@) <= usize::MAX
        &&& self.pos <= bit_len(self.data@)
    }

    /// Starts reading at the first bit.
    pub fn new(data: &'a [u8]) -> (r: SliceBitReader<'a>)
        requires
            bit_len(data@) <= usize::MAX,
        ensures
            r.wf(),
            r.data@ == data@,
            r.pos == 0,
    {
        SliceBitReader { data, pos: 0 }
    }

    /// Reads one bit, or nothing at the end of the data.
    pub fn read_bit(&mut self) -> (r: Option<u32>)
        requires
            old(self).wf(),
        ensures
            final(self).wf(),
            final(self).data@ == old(self).data@,
            (r, final(self).pos as int) == read_bit_at(old(self).data@, old(self).pos as int),
            r matches Some(b) ==> b <= 1,
    {
        let byte_idx: usize = self.pos / 8;
        if byte_idx >= self.data.len() {
            return None;
        }
        let bit_idx: usize = 7 - (self.pos % 8);
        let bit: u32 = ((self.data[byte_idx] >> bit_idx) & 1) as u32;
        proof {
            lemma_bit_at_range(self.data@, self.pos as int);
        }
        self.pos = self.pos + 1;
        Some(bit)
    }

    /// Reads `n` bits as one number.
    pub fn read_bits(&mut self, n: u32) -> (r: Option<u32>)
        requires
            old(self).wf(),
        ensures
            final(self).wf(),
            final(self).data@ == old(self).data@,
            (r, final(self).pos as int) == read_bits_at(
                old(self).data@,
                old(self).pos as int,
                n as nat,
            ),
    {
        let ghost data = self.data@;
        let ghost p = self.pos as int;
        let mut val: u32 = 0;
        let mut i: u32 = 0;
        while i < n
            invariant
                i <= n,
                self.wf(),
                self.data@ == data,
                data == old(self).data@,
                p == old(self).pos,
                self.pos == p + i,
                val as int == bits_value(data, p, i as nat) as int % 0x1_0000_0000,
            decreases n - i,
        {
            match self.read_bit() {
                Some(bit) => {
                    proof {
                        let v: u32 = val;
                        assert(((v << 1) | bit) == (2 * v + bit) % 0x1_0000_0000) by (bit_vector)
                            requires
                                bit <= 1,
                        ;
                    }
                    val = (val << 1) | bit;
                    i = i + 1;
                },
                None => {
                    return None;
                },
            }
        }
        Some(val)
    }

    /// Reads an unsigned Exp-Golomb code.
    pub fn read_ue(&mut self) -> (r: Option<u32>)
        requires
            old(self).wf(),
        ensures
            final(self).wf(),
            final(self).data@ == old(self).data@,
            (r, final(self).pos as int) == read_ue_at(old(self).data@, old(self).pos as int),
            r matches Some(k) ==> k < u32::MAX,
    {
        let ghost data = self.data@;
        let ghost p = self.pos as int;
        let mut leading_zeros: u32 = 0;
        proof {
            lemma_zero_run_in_bounds(data, p);
        }
        loop
            invariant_except_break
                leading_zeros < 32,
                self.wf(),
                self.data@ == data,
                data == old(self).data@,
                p == old(self).pos,
                self.pos == p + leading_zeros,
                forall|i: int| p <= i < p + leading_zeros ==> bit_at(data, i) == 0,
            ensures
                leading_zeros < 32,
                self.wf(),
                self.data@ == data,
                self.pos == p + leading_zeros + 1,
                zero_run(data, p) == leading_zeros,
            decreases 32 - leading_zeros,
        {
            match self.read_bit() {
                Some(bit) => {
                    if bit == 1 {
                        proof {
                            lemma_zero_run_prefix(data, p, leading_zeros as nat);
                        }
                        break;
                    }
                    leading_zeros = leading_zeros + 1;
                    if leading_zeros >= 32 {
                        proof {
                            lemma_zero_run_prefix(data, p, 32);
                        }
                        return None;
                    }
                },
                None => {
                    proof {
                        lemma_zero_run_prefix(data, p, leading_zeros as nat);
                    }
                    return None;
                },
            }
        }
        let ghost q = self.pos as int;
        match self.read_bits(leading_zeros) {
            Some(value) => {
                let z: u32 = leading_zeros;
                proof {
                    lemma_bits_value_bound(data, q, z as nat);
                    lemma_pow2_shift(z);
                    lemma2_to64();
                    if z < 31 {
                        lemma_pow2_strictly_increases(z as nat, 31);
                    }
                    assert(bits_value(data, q, z as nat) as int % 0x1_0000_0000 == bits_value(
                        data,
                        q,
                        z as nat,
                    ));
                }
                Some((1u32 << z) - 1 + value)
            },
            None => None,
        }
    }

    /// Reads a signed Exp-Golomb code.
    pub fn read_se(&mut self) -> (r: Option<i32>)
        requires
            old(self).wf(),
        ensures
            final(self).wf(),
            final(self).data@ == old(self).data@,
            (r, final(self).pos as int) == read_se_at(old(self).data@, old(self).pos as int),
    {
        match self.read_ue() {
            Some(ue) => Some(se_from_code(ue)),
            None => None,
        }
    }

    /// The position of the next bit to read.
    pub fn pos(&self) -> (r: usize)
        ensures
            r == self.pos,
    {
        self.pos
    }
}

proof fn lemma_pow2_shift(z: u32)
    requires
        z < 32,
    ensures
        (1u32 << z) == pow2(z as nat),
{
    lemma2_to64();
    if z < 31 {
        lemma_pow2_strictly_increases(z as nat, 31);
    }
    vstd::bits::lemma_u32_shl_is_mul(1, z);
}

/// The signed value of an Exp-Golomb code number.
fn se_from_code(ue: u32) -> (r: i32)
    requires
        ue < u32::MAX,
    ensures
        r == se_value(ue),
{
    if ue % 2 == 1 {
        let w: u32 = ue + 1;
        let h: i32 = half_signed(w);
        h
    } else {
        let h: i32 = half_signed(ue);
        -h
    }
}

/// Half of the even number that wraps to `w`.
fn half_signed(w: u32) -> (r: i32)
    requires
        w % 2 == 0,
    ensures
        r == wrap_i32(w as int) / 2,
        r > i32::MIN,
{
    if w < 0x8000_0000 {
        (w / 2) as i32
    } else {
        let d: u32 = (u32::MAX - w) / 2;
        -(d as i32) - 1
    }
}

} // verus!
