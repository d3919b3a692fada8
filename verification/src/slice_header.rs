//! H.265 slice headers: picture boundaries, picture order counts and the
//! reference pictures that a slice names.

use crate::bits::{
    bit_len, law_reads_stay_in_bounds, read_bit_at, read_bits_at, read_ue_at, SliceBitReader,
};
use crate::parameter_sets::{H265Pps, H265ShortTermRefPicSet, H265Sps};
use vstd::arithmetic::power2::{lemma2_to64, lemma_pow2_strictly_increases, pow2};
use vstd::prelude::*;

verus! {

/// What access unit extraction reads of an H.265 slice header.
#[derive(Debug)]
pub struct H265SliceHeader {
    pub first_slice_segment_in_pic_flag: bool,
    pub pic_order_cnt_lsb: i32,
    pub pic_order_cnt_msb: i32,
    pub pic_order_cnt: [i32; 2],
    pub is_idr: bool,
    pub is_reference: bool,
    pub slice_type: u32,
    pub num_bits_for_st_ref_pic_set_in_slice: i32,
    pub num_delta_pocs_of_ref_rps_idx: i32,
    pub short_term_ref_pic_set_sps_flag: bool,
    pub ref_pocs: Vec<i32>,
    /// Those of the order counts that are of long-term reference pictures.
    pub long_term_pocs: Vec<i32>,
    pub no_output_of_prior_pics_flag: bool,
}

/// A slice header as a mathematical value.
pub struct H265SliceHeaderView {
    pub first_slice_segment_in_pic_flag: bool,
    pub pic_order_cnt_lsb: i32,
    pub pic_order_cnt_msb: i32,
    pub pic_order_cnt: Seq<i32>,
    pub is_idr: bool,
    pub is_reference: bool,
    pub slice_type: u32,
    pub num_bits_for_st_ref_pic_set_in_slice: i32,
    pub num_delta_pocs_of_ref_rps_idx: i32,
    pub short_term_ref_pic_set_sps_flag: bool,
    pub ref_pocs: Seq<i32>,
    pub long_term_pocs: Seq<i32>,
    pub no_output_of_prior_pics_flag: bool,
}

impl View for H265SliceHeader {
    type V = H265SliceHeaderView;

    open spec fn view(&self) -> H265SliceHeaderView {
        H265SliceHeaderView {
            first_slice_segment_in_pic_flag: self.first_slice_segment_in_pic_flag,
            pic_order_cnt_lsb: self.pic_order_cnt_lsb,
            pic_order_cnt_msb: self.pic_order_cnt_msb,
            pic_order_cnt: self.pic_order_cnt@,
            is_idr: self.is_idr,
            is_reference: self.is_reference,
            slice_type: self.slice_type,
            num_bits_for_st_ref_pic_set_in_slice: self.num_bits_for_st_ref_pic_set_in_slice,
            num_delta_pocs_of_ref_rps_idx: self.num_delta_pocs_of_ref_rps_idx,
            short_term_ref_pic_set_sps_flag: self.short_term_ref_pic_set_sps_flag,
            ref_pocs: self.ref_pocs@,
            long_term_pocs: self.long_term_pocs@,
            no_output_of_prior_pics_flag: self.no_output_of_prior_pics_flag,
        }
    }
}

// ---------------------------------------------------------------------------
// Reads that take a missing value for zero
// ---------------------------------------------------------------------------

/// One bit at `p`, zero where there is none.
pub open spec fn bit_or_zero(data: Seq<u8>, p: int) -> (u32, int) {
    let (v, q) = read_bit_at(data, p);
    (v.unwrap_or(0), q)
}

/// `n` bits at `p`, zero where they are not all there.
pub open spec fn bits_or_zero(data: Seq<u8>, p: int, n: nat) -> (u32, int) {
    let (v, q) = read_bits_at(data, p, n);
    (v.unwrap_or(0), q)
}

/// An unsigned Exp-Golomb code at `p`, zero where there is none.
pub open spec fn ue_or_zero(data: Seq<u8>, p: int) -> (u32, int) {
    let (v, q) = read_ue_at(data, p);
    (v.unwrap_or(0), q)
}

fn next_bit(r: &mut SliceBitReader) -> (v: u32)
    requires
        old(r).wf(),
    ensures
        final(r).wf(),
        final(r).data@ == old(r).data@,
        (v, final(r).pos as int) == bit_or_zero(old(r).data@, old(r).pos as int),
{
    r.read_bit().unwrap_or(0)
}

fn next_bits(r: &mut SliceBitReader, n: u32) -> (v: u32)
    requires
        old(r).wf(),
    ensures
        final(r).wf(),
        final(r).data@ == old(r).data@,
        (v, final(r).pos as int) == bits_or_zero(old(r).data@, old(r).pos as int, n as nat),
{
    r.read_bits(n).unwrap_or(0)
}

fn next_ue(r: &mut SliceBitReader) -> (v: u32)
    requires
        old(r).wf(),
    ensures
        final(r).wf(),
        final(r).data@ == old(r).data@,
        (v, final(r).pos as int) == ue_or_zero(old(r).data@, old(r).pos as int),
{
    r.read_ue().unwrap_or(0)
}

// ---------------------------------------------------------------------------
// Numbers
// ---------------------------------------------------------------------------

/// The number of bits that tell `n` things apart.
pub open spec fn ceil_log2(n: nat) -> nat
    decreases n,
{
    if n <= 1 {
        0
    } else {
        1 + ceil_log2((n + 1) / 2)
    }
}

/// `ceil_log2(n)` is the least exponent whose power of two reaches `n`.
pub proof fn law_ceil_log2_is_least(n: nat, k: nat)
    ensures
        n <= pow2(k) <==> ceil_log2(n) <= k,
    decreases n,
{
    lemma2_to64();
    if n <= 1 {
        if k > 0 {
            lemma_pow2_strictly_increases(0, k);
        }
    } else if k == 0 {
    } else {
        let h = (n + 1) / 2;
        law_ceil_log2_is_least(h, (k - 1) as nat);
        vstd::arithmetic::power2::lemma_pow2_adds((k - 1) as nat, 1);
        assert(n <= 2 * pow2((k - 1) as nat) <==> h <= pow2((k - 1) as nat));
    }
}

/// The number of bits that tell `n` things apart.
pub fn ceil_log2_u8(n: u8) -> (k: u32)
    ensures
        k == ceil_log2(n as nat),
        k <= 8,
{
    let mut left: u8 = n;
    let mut k: u32 = 0;
    proof {
        lemma2_to64();
        law_ceil_log2_is_least(n as nat, 8);
    }
    while left > 1
        invariant
            ceil_log2(n as nat) == k + ceil_log2(left as nat),
            k + ceil_log2(left as nat) <= 8,
            k <= 8,
        decreases left,
    {
        let half: u8 = left / 2 + left % 2;
        assert(half as nat == (left as nat + 1) / 2);
        left = half;
        k = k + 1;
    }
    k
}

/// The length of the picture order count's low cycle: two to the power of
/// `bits`, as 32 signed bits hold it.
pub open spec fn poc_cycle(bits: nat) -> int {
    if bits == 31 {
        -0x8000_0000
    } else {
        pow2(bits) as int
    }
}

/// The high part of a picture order count, from its low part and the high and
/// low part of the picture before it.
pub open spec fn poc_msb(bits: nat, lsb: i32, prev_lsb: i32, prev_msb: i32) -> i32 {
    let cycle = poc_cycle(bits);
    if lsb < prev_lsb && prev_lsb.wrapping_sub(lsb) >= cycle / 2 {
        prev_msb.wrapping_add(cycle as i32)
    } else if lsb > prev_lsb && lsb.wrapping_sub(prev_lsb) > cycle / 2 {
        prev_msb.wrapping_sub(cycle as i32)
    } else {
        prev_msb
    }
}

/// A picture order count lies less than half a cycle below that of the picture
/// before it, and at most half a cycle above, for every width whose cycle fits in 32
/// signed bits and as long as the high part does.
pub proof fn law_poc_stays_close(bits: nat, lsb: i32, prev_lsb: i32, prev_msb: i32)
    requires
        1 <= bits <= 30,
        0 <= lsb < pow2(bits),
        0 <= prev_lsb < pow2(bits),
        prev_lsb - lsb >= pow2(bits) / 2 ==> prev_msb + pow2(bits) <= i32::MAX,
        lsb - prev_lsb > pow2(bits) / 2 ==> prev_msb - pow2(bits) >= i32::MIN,
    ensures
        -(pow2(bits) / 2) < (poc_msb(bits, lsb, prev_lsb, prev_msb) + lsb) - (prev_msb + prev_lsb)
            <= pow2(bits) / 2,
{
    lemma2_to64();
    if bits < 30 {
        lemma_pow2_strictly_increases(bits, 30);
    }
    vstd::arithmetic::power2::lemma_pow2_adds((bits - 1) as nat, 1);
}

fn compute_poc_msb(bits: u32, lsb: i32, prev_lsb: i32, prev_msb: i32) -> (r: i32)
    requires
        1 <= bits <= 31,
    ensures
        r == poc_msb(bits as nat, lsb, prev_lsb, prev_msb),
{
    proof {
        lemma2_to64();
        if bits < 31 {
            lemma_pow2_strictly_increases(bits as nat, 31);
            if bits < 30 {
                lemma_pow2_strictly_increases(bits as nat, 30);
            }
            vstd::bits::lemma_u32_shl_is_mul(1, bits);
        }
    }
    let cycle: i32 = if bits == 31 {
        i32::MIN
    } else {
        (1u32 << bits) as i32
    };
    let half: i32 = if bits == 31 {
        -0x4000_0000
    } else {
        cycle / 2
    };
    if lsb < prev_lsb && prev_lsb.wrapping_sub(lsb) >= half {
        prev_msb.wrapping_add(cycle)
    } else if lsb > prev_lsb && lsb.wrapping_sub(prev_lsb) > half {
        prev_msb.wrapping_sub(cycle)
    } else {
        prev_msb
    }
}

// ---------------------------------------------------------------------------
// Short-term reference pictures of a set in the sequence parameter set
// ---------------------------------------------------------------------------

/// A stored 16-bit distance as a signed number.
pub open spec fn signed_distance(stored: u16) -> int {
    if stored > 32767 {
        stored - 65536
    } else {
        stored as int
    }
}

/// The order count of the `i`-th picture before the current one in a set.
pub open spec fn negative_poc(set: H265ShortTermRefPicSet, curr_poc: i32, i: int) -> i32 {
    curr_poc.wrapping_add(signed_distance(set.delta_poc_s0_minus1@[i]) as i32)
}

/// The order count of the `i`-th picture after the current one in a set.
pub open spec fn positive_poc(set: H265ShortTermRefPicSet, curr_poc: i32, i: int) -> i32 {
    curr_poc.wrapping_add(set.delta_poc_s1_minus1@[i] as i32)
}

/// Whether bit `i` of a mask of 16 is set.
pub open spec fn mask_bit(mask: u16, i: int) -> bool {
    (mask & (1u16 << (i as u16))) != 0
}

/// The order counts that the first `n` entries of a set's negative part name.
pub open spec fn stored_negative(set: H265ShortTermRefPicSet, curr_poc: i32, n: nat) -> Seq<i32>
    decreases n,
{
    if n == 0 {
        Seq::empty()
    } else {
        let rest = stored_negative(set, curr_poc, (n - 1) as nat);
        if mask_bit(set.used_by_curr_pic_s0_flag, n - 1) {
            rest.push(negative_poc(set, curr_poc, n - 1))
        } else {
            rest
        }
    }
}

/// The order counts that the first `n` entries of a set's positive part name.
pub open spec fn stored_positive(set: H265ShortTermRefPicSet, curr_poc: i32, n: nat) -> Seq<i32>
    decreases n,
{
    if n == 0 {
        Seq::empty()
    } else {
        let rest = stored_positive(set, curr_poc, (n - 1) as nat);
        if mask_bit(set.used_by_curr_pic_s1_flag, n - 1) {
            rest.push(positive_poc(set, curr_poc, n - 1))
        } else {
            rest
        }
    }
}

/// The order counts that a stored set names: the negative part, then the
/// positive part.
pub open spec fn stored_pocs(set: H265ShortTermRefPicSet, curr_poc: i32) -> Seq<i32> {
    stored_negative(set, curr_poc, set.num_negative_pics as nat) + stored_positive(
        set,
        curr_poc,
        set.num_positive_pics as nat,
    )
}

fn distance_of(stored: u16) -> (r: i32)
    ensures
        r == signed_distance(stored),
{
    if stored > 32767 {
        stored as i32 - 65536
    } else {
        stored as i32
    }
}

fn collect_stored(set: &H265ShortTermRefPicSet, curr_poc: i32) -> (pocs: Vec<i32>)
    requires
        set.wf(),
    ensures
        pocs@ == stored_pocs(*set, curr_poc),
{
    let mut pocs: Vec<i32> = Vec::new();
    let mut i: usize = 0;
    while i < set.num_negative_pics as usize
        invariant
            set.wf(),
            i <= set.num_negative_pics,
            pocs@ == stored_negative(*set, curr_poc, i as nat),
        decreases set.num_negative_pics - i,
    {
        if (set.used_by_curr_pic_s0_flag & (1u16 << (i as u16))) != 0 {
            pocs.push(curr_poc.wrapping_add(distance_of(set.delta_poc_s0_minus1[i])));
        }
        i = i + 1;
    }
    let ghost first = pocs@;
    let mut j: usize = 0;
    while j < set.num_positive_pics as usize
        invariant
            set.wf(),
            j <= set.num_positive_pics,
            pocs@ == first + stored_positive(*set, curr_poc, j as nat),
        decreases set.num_positive_pics - j,
    {
        if (set.used_by_curr_pic_s1_flag & (1u16 << (j as u16))) != 0 {
            pocs.push(curr_poc.wrapping_add(set.delta_poc_s1_minus1[j] as i32));
        }
        j = j + 1;
    }
    pocs
}

// ---------------------------------------------------------------------------
// Short-term reference pictures predicted from another set
// ---------------------------------------------------------------------------

/// The `count` use flags at `p`: a one bit marks an entry that the current
/// picture uses; a zero bit is followed by one more bit, which does not matter.
pub open spec fn use_flags(data: Seq<u8>, p: int, count: nat) -> (Seq<bool>, int)
    decreases count,
{
    if count == 0 {
        (Seq::empty(), p)
    } else {
        let (before, q) = use_flags(data, p, (count - 1) as nat);
        let (used, q1) = bit_or_zero(data, q);
        let q2 = if used == 1 {
            q1
        } else {
            bit_or_zero(data, q1).1
        };
        (before.push(used == 1), q2)
    }
}

/// The prediction of one entry: its order count shifted by `delta`, where the
/// entry is used and lies on the wanted side of the current picture.
pub open spec fn predicted_entry(
    poc: i32,
    used: bool,
    curr_poc: i32,
    delta: i32,
    before: bool,
) -> Seq<i32> {
    let new_poc = poc.wrapping_add(delta);
    if used && (if before {
        new_poc < curr_poc
    } else {
        new_poc > curr_poc
    }) {
        seq![new_poc]
    } else {
        Seq::empty()
    }
}

/// The predictions of the entries `0..n`, in that order; the use flag of entry
/// `i` is `used[base + i]`.
pub open spec fn predicted_up(
    pocs: Seq<i32>,
    used: Seq<bool>,
    base: int,
    curr_poc: i32,
    delta: i32,
    before: bool,
    n: nat,
) -> Seq<i32>
    decreases n,
{
    if n == 0 {
        Seq::empty()
    } else {
        predicted_up(pocs, used, base, curr_poc, delta, before, (n - 1) as nat) + predicted_entry(
            pocs[n - 1],
            used[base + n - 1],
            curr_poc,
            delta,
            before,
        )
    }
}

/// The predictions of the last `n` entries, the last one first.
pub open spec fn predicted_down(
    pocs: Seq<i32>,
    used: Seq<bool>,
    base: int,
    curr_poc: i32,
    delta: i32,
    before: bool,
    n: nat,
) -> Seq<i32>
    decreases n,
{
    if n == 0 {
        Seq::empty()
    } else {
        predicted_down(pocs, used, base, curr_poc, delta, before, (n - 1) as nat) + predicted_entry(
            pocs[pocs.len() - n],
            used[base + pocs.len() - n],
            curr_poc,
            delta,
            before,
        )
    }
}

/// The order counts of a set predicted from `set`: the pictures before the
/// current one, nearest first, then those after it.
pub open spec fn predicted_pocs(
    set: H265ShortTermRefPicSet,
    used: Seq<bool>,
    curr_poc: i32,
    delta: i32,
) -> Seq<i32> {
    let neg = Seq::new(set.num_negative_pics as nat, |i: int| negative_poc(set, curr_poc, i));
    let pos = Seq::new(set.num_positive_pics as nat, |i: int| positive_poc(set, curr_poc, i));
    let last = used[(neg.len() + pos.len()) as int];
    let own = if last {
        seq![curr_poc.wrapping_add(delta)]
    } else {
        Seq::empty()
    };
    predicted_down(pos, used, neg.len() as int, curr_poc, delta, true, pos.len()) + (if delta < 0 {
        own
    } else {
        Seq::empty()
    }) + predicted_up(neg, used, 0, curr_poc, delta, true, neg.len()) + predicted_down(
        neg,
        used,
        0,
        curr_poc,
        delta,
        false,
        neg.len(),
    ) + (if delta > 0 {
        own
    } else {
        Seq::empty()
    }) + predicted_up(pos, used, neg.len() as int, curr_poc, delta, false, pos.len())
}

fn collect_use_flags(r: &mut SliceBitReader, count: usize) -> (used: Vec<bool>)
    requires
        old(r).wf(),
    ensures
        final(r).wf(),
        final(r).data@ == old(r).data@,
        (used@, final(r).pos as int) == use_flags(old(r).data@, old(r).pos as int, count as nat),
        used@.len() == count,
{
    let mut used: Vec<bool> = Vec::new();
    let mut j: usize = 0;
    while j < count
        invariant
            j <= count,
            r.wf(),
            r.data@ == old(r).data@,
            used@.len() == j,
            (used@, r.pos as int) == use_flags(old(r).data@, old(r).pos as int, j as nat),
        decreases count - j,
    {
        let flag: bool = next_bit(r) == 1;
        if !flag {
            let _use_delta: u32 = next_bit(r);
        }
        used.push(flag);
        j = j + 1;
    }
    used
}

fn push_predicted(
    out: &mut Vec<i32>,
    poc: i32,
    used: bool,
    curr_poc: i32,
    delta: i32,
    before: bool,
)
    ensures
        final(out)@ == old(out)@ + predicted_entry(poc, used, curr_poc, delta, before),
{
    let new_poc: i32 = poc.wrapping_add(delta);
    if used && ((before && new_poc < curr_poc) || (!before && new_poc > curr_poc)) {
        out.push(new_poc);
    }
}

fn push_up(
    out: &mut Vec<i32>,
    pocs: &Vec<i32>,
    used: &Vec<bool>,
    base: usize,
    curr_poc: i32,
    delta: i32,
    before: bool,
)
    requires
        base + pocs@.len() <= used@.len(),
    ensures
        final(out)@ == old(out)@ + predicted_up(
            pocs@,
            used@,
            base as int,
            curr_poc,
            delta,
            before,
            pocs@.len(),
        ),
{
    let limit: usize = used.len();
    let mut j: usize = 0;
    while j < pocs.len()
        invariant
            base + pocs@.len() <= limit == used@.len(),
            j <= pocs@.len(),
            out@ == old(out)@ + predicted_up(
                pocs@,
                used@,
                base as int,
                curr_poc,
                delta,
                before,
                j as nat,
            ),
        decreases pocs@.len() - j,
    {
        push_predicted(out, pocs[j], used[base + j], curr_poc, delta, before);
        j = j + 1;
    }
}

fn push_down(
    out: &mut Vec<i32>,
    pocs: &Vec<i32>,
    used: &Vec<bool>,
    base: usize,
    curr_poc: i32,
    delta: i32,
    before: bool,
)
    requires
        base + pocs@.len() <= used@.len(),
    ensures
        final(out)@ == old(out)@ + predicted_down(
            pocs@,
            used@,
            base as int,
            curr_poc,
            delta,
            before,
            pocs@.len(),
        ),
{
    let limit: usize = used.len();
    let mut j: usize = pocs.len();
    while j > 0
        invariant
            base + pocs@.len() <= limit == used@.len(),
            j <= pocs@.len(),
            out@ == old(out)@ + predicted_down(
                pocs@,
                used@,
                base as int,
                curr_poc,
                delta,
                before,
                (pocs@.len() - j) as nat,
            ),
        decreases j,
    {
        j = j - 1;
        push_predicted(out, pocs[j], used[base + j], curr_poc, delta, before);
    }
}

fn collect_predicted(
    set: &H265ShortTermRefPicSet,
    used: &Vec<bool>,
    curr_poc: i32,
    delta: i32,
) -> (out: Vec<i32>)
    requires
        set.wf(),
        used@.len() == set.num_negative_pics + set.num_positive_pics + 1,
    ensures
        out@ == predicted_pocs(*set, used@, curr_poc, delta),
{
    let neg_count: usize = set.num_negative_pics as usize;
    let pos_count: usize = set.num_positive_pics as usize;
    let mut neg: Vec<i32> = Vec::new();
    let mut i: usize = 0;
    while i < neg_count
        invariant
            set.wf(),
            neg_count == set.num_negative_pics,
            i <= neg_count,
            neg@ == Seq::new(i as nat, |k: int| negative_poc(*set, curr_poc, k)),
        decreases neg_count - i,
    {
        neg.push(curr_poc.wrapping_add(distance_of(set.delta_poc_s0_minus1[i])));
        i = i + 1;
    }
    let mut pos: Vec<i32> = Vec::new();
    let mut j: usize = 0;
    while j < pos_count
        invariant
            set.wf(),
            pos_count == set.num_positive_pics,
            j <= pos_count,
            pos@ == Seq::new(j as nat, |k: int| positive_poc(*set, curr_poc, k)),
        decreases pos_count - j,
    {
        pos.push(curr_poc.wrapping_add(set.delta_poc_s1_minus1[j] as i32));
        j = j + 1;
    }
    let mut out: Vec<i32> = Vec::new();
    let last: bool = used[neg_count + pos_count];
    push_down(&mut out, &pos, used, neg_count, curr_poc, delta, true);
    if delta < 0 && last {
        out.push(curr_poc.wrapping_add(delta));
    }
    push_up(&mut out, &neg, used, 0, curr_poc, delta, true);
    push_down(&mut out, &neg, used, 0, curr_poc, delta, false);
    if delta > 0 && last {
        out.push(curr_poc.wrapping_add(delta));
    }
    push_up(&mut out, &pos, used, neg_count, curr_poc, delta, false);
    out
}

// ---------------------------------------------------------------------------
// Short-term reference pictures written out in the slice
// ---------------------------------------------------------------------------

/// The order counts that `count` entries at `p` name, each a distance from the
/// one before it and a bit that says whether the current picture uses it.
pub open spec fn explicit_pocs(
    data: Seq<u8>,
    p: int,
    count: nat,
    distance: i32,
    curr_poc: i32,
    before: bool,
) -> (Seq<i32>, int)
    decreases count,
{
    if count == 0 {
        (Seq::empty(), p)
    } else {
        let (step, p1) = ue_or_zero(data, p);
        let d = distance.wrapping_add((step as i32).wrapping_add(1));
        let (used, p2) = bit_or_zero(data, p1);
        let (rest, q) = explicit_pocs(data, p2, (count - 1) as nat, d, curr_poc, before);
        let poc = if before {
            curr_poc.wrapping_sub(d)
        } else {
            curr_poc.wrapping_add(d)
        };
        (if used == 1 {
            seq![poc] + rest
        } else {
            rest
        }, q)
    }
}

/// The count that a code number stands for in 32 signed bits, nothing where it
/// is negative.
pub open spec fn signed_count(v: u32) -> nat {
    if (v as i32) > 0 {
        (v as i32) as nat
    } else {
        0
    }
}

fn collect_explicit(
    r: &mut SliceBitReader,
    count: u32,
    curr_poc: i32,
    before: bool,
    out: &mut Vec<i32>,
)
    requires
        old(r).wf(),
    ensures
        final(r).wf(),
        final(r).data@ == old(r).data@,
        final(r).pos == explicit_pocs(
            old(r).data@,
            old(r).pos as int,
            signed_count(count),
            0,
            curr_poc,
            before,
        ).1,
        final(out)@ == old(out)@ + explicit_pocs(
            old(r).data@,
            old(r).pos as int,
            signed_count(count),
            0,
            curr_poc,
            before,
        ).0,
{
    let total: i32 = count as i32;
    let mut distance: i32 = 0;
    let mut i: i32 = 0;
    let ghost all = explicit_pocs(
        r.data@,
        r.pos as int,
        signed_count(count),
        0,
        curr_poc,
        before,
    );
    let ghost n = signed_count(count);
    while i < total
        invariant
            total == count as i32,
            n == signed_count(count),
            0 <= i <= n,
            r.wf(),
            r.data@ == old(r).data@,
            all.1 == explicit_pocs(
                r.data@,
                r.pos as int,
                (n - i) as nat,
                distance,
                curr_poc,
                before,
            ).1,
            old(out)@ + all.0 == out@ + explicit_pocs(
                r.data@,
                r.pos as int,
                (n - i) as nat,
                distance,
                curr_poc,
                before,
            ).0,
        decreases n - i,
    {
        let ghost rest = explicit_pocs(
            r.data@,
            r.pos as int,
            (n - i) as nat,
            distance,
            curr_poc,
            before,
        );
        let ghost sofar = out@;
        let step: u32 = next_ue(r);
        distance = distance.wrapping_add((step as i32).wrapping_add(1));
        let used: u32 = next_bit(r);
        let poc: i32 = if before {
            curr_poc.wrapping_sub(distance)
        } else {
            curr_poc.wrapping_add(distance)
        };
        if used == 1 {
            out.push(poc);
        }
        i = i + 1;
        proof {
            let tail = explicit_pocs(
                r.data@,
                r.pos as int,
                (n - i) as nat,
                distance,
                curr_poc,
                before,
            );
            assert(rest.1 == tail.1);
            assert(sofar + rest.0 =~= out@ + tail.0);
        }
    }
    assert(out@ + Seq::<i32>::empty() =~= out@);
}

// ---------------------------------------------------------------------------
// Long-term reference pictures
// ---------------------------------------------------------------------------

/// The low order counts of the long-term entries `i..count` at `p`, the first
/// `num_sps` of which name an entry of the sequence parameter set.
pub open spec fn long_term_pocs(
    data: Seq<u8>,
    p: int,
    i: nat,
    count: nat,
    num_sps: u32,
    sps: H265Sps,
) -> (Seq<i32>, int)
    decreases count - i,
{
    if i >= count {
        (Seq::empty(), p)
    } else {
        let idx_bits = ceil_log2(sps.num_long_term_ref_pics_sps as nat);
        let (poc, p1) = if i < num_sps {
            let (idx, q) = if idx_bits > 0 {
                bits_or_zero(data, p, idx_bits)
            } else {
                (0u32, p)
            };
            (sps.lt_ref_pic_poc_lsb_sps@[idx as int] as i32, q)
        } else {
            let (lsb, q) = bits_or_zero(data, p, sps.poc_lsb_bits());
            (lsb as i32, bit_or_zero(data, q).1)
        };
        let (msb_present, p2) = bit_or_zero(data, p1);
        let p3 = if msb_present == 1 {
            ue_or_zero(data, p2).1
        } else {
            p2
        };
        let (rest, q) = long_term_pocs(data, p3, i + 1, count, num_sps, sps);
        (seq![poc] + rest, q)
    }
}

fn collect_long_term(r: &mut SliceBitReader, sps: &H265Sps, out: &mut Vec<i32>)
    requires
        old(r).wf(),
        sps.wf(),
    ensures
        final(r).wf(),
        final(r).data@ == old(r).data@,
        ({
            let (num_sps, p1) = ue_or_zero(old(r).data@, old(r).pos as int);
            let (num_pics, p2) = ue_or_zero(old(r).data@, p1);
            final(out)@ == old(out)@ + long_term_pocs(
                old(r).data@,
                p2,
                0,
                num_sps.wrapping_add(num_pics) as nat,
                num_sps,
                *sps,
            ).0
        }),
{
    let num_sps: u32 = next_ue(r);
    let num_pics: u32 = next_ue(r);
    let idx_bits: u32 = ceil_log2_u8(sps.num_long_term_ref_pics_sps);
    let lsb_bits: u32 = sps.log2_max_pic_order_cnt_lsb_minus4 as u32 + 4;
    let count: u32 = num_sps.wrapping_add(num_pics);
    let mut i: u32 = 0;
    let ghost data = r.data@;
    let ghost all = long_term_pocs(data, r.pos as int, 0, count as nat, num_sps, *sps);
    proof {
        lemma2_to64();
        law_ceil_log2_is_least(sps.num_long_term_ref_pics_sps as nat, 5);
        assert(idx_bits <= 5);
        if idx_bits < 5 {
            lemma_pow2_strictly_increases(idx_bits as nat, 5);
        }
    }
    while i < count
        invariant
            sps.wf(),
            i <= count,
            idx_bits == ceil_log2(sps.num_long_term_ref_pics_sps as nat),
            pow2(idx_bits as nat) <= 32,
            lsb_bits == sps.poc_lsb_bits(),
            data == old(r).data@,
            r.wf(),
            r.data@ == data,
            old(out)@ + all.0 == out@ + long_term_pocs(
                data,
                r.pos as int,
                i as nat,
                count as nat,
                num_sps,
                *sps,
            ).0,
        decreases count - i,
    {
        let ghost rest = long_term_pocs(
            data,
            r.pos as int,
            i as nat,
            count as nat,
            num_sps,
            *sps,
        );
        let ghost sofar = out@;
        let poc: i32;
        if i < num_sps {
            if idx_bits > 0 {
                let ghost p = r.pos as int;
                let idx: u32 = next_bits(r, idx_bits);
                proof {
                    crate::bits::lemma_bits_value_bound(data, p, idx_bits as nat);
                    assert(idx < 32);
                }
                poc = sps.lt_ref_pic_poc_lsb_sps[idx as usize] as i32;
            } else {
                poc = sps.lt_ref_pic_poc_lsb_sps[0] as i32;
            }
        } else {
            poc = next_bits(r, lsb_bits) as i32;
            let _used_by_curr_pic_lt_flag: u32 = next_bit(r);
        }
        out.push(poc);
        let msb_present: u32 = next_bit(r);
        if msb_present == 1 {
            let _delta_poc_msb_cycle_lt: u32 = next_ue(r);
        }
        i = i + 1;
        proof {
            let tail = long_term_pocs(
                data,
                r.pos as int,
                i as nat,
                count as nat,
                num_sps,
                *sps,
            );
            assert(sofar + rest.0 =~= out@ + tail.0);
        }
    }
    assert(out@ + Seq::<i32>::empty() =~= out@);
}

// ---------------------------------------------------------------------------
// The short-term part of a slice header
// ---------------------------------------------------------------------------

/// What the short-term part of a slice header says.
pub struct ShortTermView {
    pub sps_flag: bool,
    pub num_bits: i32,
    pub num_delta_pocs: i32,
    pub pocs: Seq<i32>,
    pub end: int,
}

/// The short-term part whose set is predicted from one of the sequence
/// parameter set, at `p` behind the prediction flag. A set that does not exist
/// names nothing.
pub open spec fn predicted_part(data: Seq<u8>, p: int, sps: H265Sps, curr_poc: i32) -> (
    Seq<i32>,
    i32,
    int,
) {
    let (delta_idx_minus1, p1) = ue_or_zero(data, p);
    let (sign, p2) = bit_or_zero(data, p1);
    let (abs_minus1, p3) = ue_or_zero(data, p2);
    let magnitude = (abs_minus1 as i32).wrapping_add(1);
    let delta = if sign == 1 {
        0i32.wrapping_sub(magnitude)
    } else {
        magnitude
    };
    let idx = sps.num_short_term_ref_pic_sets - (delta_idx_minus1 + 1);
    if 0 <= idx < sps.short_term_ref_pic_sets@.len() {
        let set = sps.short_term_ref_pic_sets@[idx];
        let n = set.num_negative_pics + set.num_positive_pics;
        let (used, q) = use_flags(data, p3, (n + 1) as nat);
        (predicted_pocs(set, used, curr_poc, delta), n as i32, q)
    } else {
        (Seq::empty(), 0, p3)
    }
}

/// The short-term part whose set is written out, at `p`.
pub open spec fn explicit_part(data: Seq<u8>, p: int, curr_poc: i32) -> (Seq<i32>, int) {
    let (num_neg, p1) = ue_or_zero(data, p);
    let (num_pos, p2) = ue_or_zero(data, p1);
    let (neg, p3) = explicit_pocs(data, p2, signed_count(num_neg), 0, curr_poc, true);
    let (pos, p4) = explicit_pocs(data, p3, signed_count(num_pos), 0, curr_poc, false);
    (neg + pos, p4)
}

/// The short-term part of a slice header at `p`.
pub open spec fn short_term_part(
    data: Seq<u8>,
    p: int,
    sps: H265Sps,
    curr_poc: i32,
) -> ShortTermView {
    let (sps_flag, p1) = bit_or_zero(data, p);
    if sps_flag == 1 {
        let (idx, p2) = if sps.num_short_term_ref_pic_sets > 1 {
            bits_or_zero(data, p1, ceil_log2(sps.num_short_term_ref_pic_sets as nat))
        } else {
            (0u32, p1)
        };
        let pocs = if idx < sps.short_term_ref_pic_sets@.len() {
            stored_pocs(sps.short_term_ref_pic_sets@[idx as int], curr_poc)
        } else {
            Seq::empty()
        };
        ShortTermView { sps_flag: true, num_bits: 0, num_delta_pocs: 0, pocs, end: p2 }
    } else {
        let (predicted, p2) = if sps.num_short_term_ref_pic_sets > 0 {
            bit_or_zero(data, p1)
        } else {
            (0u32, p1)
        };
        if predicted == 1 {
            let (pocs, num_delta_pocs, end) = predicted_part(data, p2, sps, curr_poc);
            ShortTermView {
                sps_flag: false,
                num_bits: (end - p1) as i32,
                num_delta_pocs,
                pocs,
                end,
            }
        } else {
            let (pocs, end) = explicit_part(data, p2, curr_poc);
            ShortTermView {
                sps_flag: false,
                num_bits: (end - p1) as i32,
                num_delta_pocs: 0,
                pocs,
                end,
            }
        }
    }
}

struct ShortTerm {
    sps_flag: bool,
    num_bits: i32,
    num_delta_pocs: i32,
    pocs: Vec<i32>,
}

fn parse_predicted(r: &mut SliceBitReader, sps: &H265Sps, curr_poc: i32) -> (res: (Vec<i32>, i32))
    requires
        old(r).wf(),
        sps.wf(),
    ensures
        final(r).wf(),
        final(r).data@ == old(r).data@,
        (res.0@, res.1, final(r).pos as int) == predicted_part(
            old(r).data@,
            old(r).pos as int,
            *sps,
            curr_poc,
        ),
{
    let delta_idx_minus1: u32 = next_ue(r);
    let sign: u32 = next_bit(r);
    let abs_minus1: u32 = next_ue(r);
    let magnitude: i32 = (abs_minus1 as i32).wrapping_add(1);
    let delta: i32 = if sign == 1 {
        0i32.wrapping_sub(magnitude)
    } else {
        magnitude
    };
    let total: u32 = sps.num_short_term_ref_pic_sets as u32;
    if delta_idx_minus1 >= total {
        return (Vec::new(), 0);
    }
    let idx: usize = (total - delta_idx_minus1 - 1) as usize;
    if idx >= sps.short_term_ref_pic_sets.len() {
        return (Vec::new(), 0);
    }
    let set: &H265ShortTermRefPicSet = &sps.short_term_ref_pic_sets[idx];
    assert(set.wf());
    let n: usize = set.num_negative_pics as usize + set.num_positive_pics as usize;
    let used: Vec<bool> = collect_use_flags(r, n + 1);
    let pocs: Vec<i32> = collect_predicted(set, &used, curr_poc, delta);
    (pocs, n as i32)
}

fn parse_short_term(r: &mut SliceBitReader, sps: &H265Sps, curr_poc: i32) -> (st: ShortTerm)
    requires
        old(r).wf(),
        sps.wf(),
    ensures
        final(r).wf(),
        final(r).data@ == old(r).data@,
        ({
            let v = short_term_part(old(r).data@, old(r).pos as int, *sps, curr_poc);
            &&& st.sps_flag == v.sps_flag
            &&& st.num_bits == v.num_bits
            &&& st.num_delta_pocs == v.num_delta_pocs
            &&& st.pocs@ == v.pocs
            &&& final(r).pos == v.end
        }),
{
    let ghost data = r.data@;
    let sps_flag: bool = next_bit(r) == 1;
    let before: usize = r.pos();
    if sps_flag {
        let idx: usize = if sps.num_short_term_ref_pic_sets > 1 {
            next_bits(r, ceil_log2_u8(sps.num_short_term_ref_pic_sets)) as usize
        } else {
            0
        };
        let pocs: Vec<i32> = if idx < sps.short_term_ref_pic_sets.len() {
            assert(sps.short_term_ref_pic_sets@[idx as int].wf());
            collect_stored(&sps.short_term_ref_pic_sets[idx], curr_poc)
        } else {
            Vec::new()
        };
        ShortTerm { sps_flag: true, num_bits: 0, num_delta_pocs: 0, pocs }
    } else {
        let predicted: bool = if sps.num_short_term_ref_pic_sets > 0 {
            next_bit(r) == 1
        } else {
            false
        };
        if predicted {
            let ghost p2 = r.pos as int;
            let (pocs, num_delta_pocs): (Vec<i32>, i32) = parse_predicted(r, sps, curr_poc);
            proof {
                lemma_predicted_part_grows(data, p2, *sps, curr_poc);
            }
            let num_bits: i32 = (r.pos() - before) as i32;
            ShortTerm { sps_flag: false, num_bits, num_delta_pocs, pocs }
        } else {
            let ghost p2 = r.pos as int;
            let mut pocs: Vec<i32> = Vec::new();
            let num_neg: u32 = next_ue(r);
            let num_pos: u32 = next_ue(r);
            collect_explicit(r, num_neg, curr_poc, true, &mut pocs);
            collect_explicit(r, num_pos, curr_poc, false, &mut pocs);
            proof {
                lemma_explicit_part_grows(data, p2, curr_poc);
            }
            let num_bits: i32 = (r.pos() - before) as i32;
            ShortTerm { sps_flag: false, num_bits, num_delta_pocs: 0, pocs }
        }
    }
}

proof fn lemma_use_flags_grow(data: Seq<u8>, p: int, count: nat)
    requires
        0 <= p <= bit_len(data),
    ensures
        p <= use_flags(data, p, count).1 <= bit_len(data),
    decreases count,
{
    if count > 0 {
        lemma_use_flags_grow(data, p, (count - 1) as nat);
        let q = use_flags(data, p, (count - 1) as nat).1;
        law_reads_stay_in_bounds(data, q, 0);
        law_reads_stay_in_bounds(data, bit_or_zero(data, q).1, 0);
    }
}

proof fn lemma_explicit_pocs_grow(
    data: Seq<u8>,
    p: int,
    count: nat,
    distance: i32,
    curr_poc: i32,
    before: bool,
)
    requires
        0 <= p <= bit_len(data),
    ensures
        p <= explicit_pocs(data, p, count, distance, curr_poc, before).1 <= bit_len(data),
    decreases count,
{
    if count > 0 {
        let (step, p1) = ue_or_zero(data, p);
        let d = distance.wrapping_add((step as i32).wrapping_add(1));
        law_reads_stay_in_bounds(data, p, 0);
        law_reads_stay_in_bounds(data, p1, 0);
        let p2 = bit_or_zero(data, p1).1;
        lemma_explicit_pocs_grow(data, p2, (count - 1) as nat, d, curr_poc, before);
    }
}

proof fn lemma_predicted_part_grows(data: Seq<u8>, p: int, sps: H265Sps, curr_poc: i32)
    requires
        0 <= p <= bit_len(data),
    ensures
        p <= predicted_part(data, p, sps, curr_poc).2 <= bit_len(data),
{
    law_reads_stay_in_bounds(data, p, 0);
    let (delta_idx_minus1, p1) = ue_or_zero(data, p);
    law_reads_stay_in_bounds(data, p1, 0);
    let p2 = bit_or_zero(data, p1).1;
    law_reads_stay_in_bounds(data, p2, 0);
    let p3 = ue_or_zero(data, p2).1;
    let idx = sps.num_short_term_ref_pic_sets - (delta_idx_minus1 + 1);
    if 0 <= idx < sps.short_term_ref_pic_sets@.len() {
        let set = sps.short_term_ref_pic_sets@[idx];
        let n = set.num_negative_pics + set.num_positive_pics;
        lemma_use_flags_grow(data, p3, (n + 1) as nat);
    }
}

proof fn lemma_explicit_part_grows(data: Seq<u8>, p: int, curr_poc: i32)
    requires
        0 <= p <= bit_len(data),
    ensures
        p <= explicit_part(data, p, curr_poc).1 <= bit_len(data),
{
    law_reads_stay_in_bounds(data, p, 0);
    let (num_neg, p1) = ue_or_zero(data, p);
    law_reads_stay_in_bounds(data, p1, 0);
    let (num_pos, p2) = ue_or_zero(data, p1);
    lemma_explicit_pocs_grow(data, p2, signed_count(num_neg), 0, curr_poc, true);
    let p3 = explicit_pocs(data, p2, signed_count(num_neg), 0, curr_poc, true).1;
    lemma_explicit_pocs_grow(data, p3, signed_count(num_pos), 0, curr_poc, false);
}

// ---------------------------------------------------------------------------
// The slice header
// ---------------------------------------------------------------------------

/// Whether a NAL unit type is one of a random access point.
pub open spec fn is_irap(nal_unit_type: u8) -> bool {
    16 <= nal_unit_type <= 23
}

/// Whether a NAL unit type is one of an IDR picture.
pub open spec fn is_idr_type(nal_unit_type: u8) -> bool {
    nal_unit_type == 19 || nal_unit_type == 20
}

/// The slice header in `payload`, a NAL unit's data behind its two header bytes
/// without emulation prevention; `nal_len` is the length of the whole unit.
/// There is none in a unit of fewer than three bytes or without payload, in a
/// segment that does not begin a picture, and where the data ends within the
/// picture order count.
pub open spec fn slice_header(
    nal_len: nat,
    payload: Seq<u8>,
    sps: H265Sps,
    pps: H265Pps,
    nal_unit_type: u8,
    prev_lsb: i32,
    prev_msb: i32,
) -> Option<H265SliceHeaderView> {
    let (first, p0) = bit_or_zero(payload, 0);
    let (no_output, p1) = if is_irap(nal_unit_type) {
        bit_or_zero(payload, p0)
    } else {
        (0u32, p0)
    };
    let p2 = ue_or_zero(payload, p1).1;
    let p3 = if pps.num_extra_slice_header_bits > 0 {
        bits_or_zero(payload, p2, pps.num_extra_slice_header_bits as nat).1
    } else {
        p2
    };
    let (slice_type, p4) = ue_or_zero(payload, p3);
    let p5 = if pps.output_flag_present_flag {
        bit_or_zero(payload, p4).1
    } else {
        p4
    };
    let p6 = if sps.separate_colour_plane_flag {
        bits_or_zero(payload, p5, 2).1
    } else {
        p5
    };
    let idr = is_idr_type(nal_unit_type);
    let (lsb_read, p7) = if idr {
        (Some(0u32), p6)
    } else {
        read_bits_at(payload, p6, sps.poc_lsb_bits())
    };
    if nal_len < 3 || payload.len() == 0 || first != 1 || lsb_read is None {
        None
    } else {
        let lsb = lsb_read.unwrap() as i32;
        let msb = if 16 <= nal_unit_type <= 20 {
            0
        } else {
            poc_msb(sps.poc_lsb_bits(), lsb, prev_lsb, prev_msb)
        };
        let poc = msb.wrapping_add(lsb);
        let st = short_term_part(payload, p7, sps, poc);
        let (num_sps, q1) = ue_or_zero(payload, st.end);
        let (num_pics, q2) = ue_or_zero(payload, q1);
        let long_term = if sps.long_term_ref_pics_present_flag && sps.num_long_term_ref_pics_sps > 0 {
            long_term_pocs(
                payload,
                q2,
                0,
                num_sps.wrapping_add(num_pics) as nat,
                num_sps,
                sps,
            ).0
        } else {
            Seq::empty()
        };
        Some(
            H265SliceHeaderView {
                first_slice_segment_in_pic_flag: true,
                pic_order_cnt_lsb: lsb,
                pic_order_cnt_msb: msb,
                pic_order_cnt: seq![poc, poc],
                is_idr: idr,
                is_reference: is_irap(nal_unit_type) || nal_unit_type % 2 == 1,
                slice_type,
                num_bits_for_st_ref_pic_set_in_slice: if idr {
                    0
                } else {
                    st.num_bits
                },
                num_delta_pocs_of_ref_rps_idx: if idr {
                    0
                } else {
                    st.num_delta_pocs
                },
                short_term_ref_pic_set_sps_flag: !idr && st.sps_flag,
                ref_pocs: if idr {
                    Seq::empty()
                } else {
                    st.pocs + long_term
                },
                long_term_pocs: if idr {
                    Seq::empty()
                } else {
                    long_term
                },
                no_output_of_prior_pics_flag: no_output == 1,
            },
        )
    }
}

/// A slice segment says that it goes on with a picture that another one began: its
/// first bit is zero. A unit of fewer than three bytes or without payload says
/// nothing.
pub open spec fn goes_on_with_picture(nal_len: nat, payload: Seq<u8>) -> bool {
    nal_len >= 3 && payload.len() > 0 && bit_or_zero(payload, 0).0 != 1
}

/// Whether a slice segment says that it goes on with a picture.
pub fn continues_picture(nal_len: usize, payload: &[u8]) -> (r: bool)
    requires
        bit_len(payload@) <= usize::MAX,
    ensures
        r == goes_on_with_picture(nal_len as nat, payload@),
{
    if nal_len < 3 {
        return false;
    }
    let mut reader: SliceBitReader = SliceBitReader::new(payload);
    match reader.read_bit() {
        Some(b) => b != 1,
        None => false,
    }
}

/// Parses an H.265 slice header for picture boundaries and references.
///
/// `nal_len` is the length of the NAL unit and `payload` what stands behind its
/// two header bytes, without emulation prevention.
#[verifier::rlimit(60)]
pub fn parse_h265_slice_header(
    nal_len: usize,
    payload: &[u8],
    sps: &H265Sps,
    pps: &H265Pps,
    nal_unit_type: u8,
    prev_pic_order_cnt_lsb: i32,
    prev_pic_order_cnt_msb: i32,
) -> (header: Option<H265SliceHeader>)
    requires
        sps.wf(),
        bit_len(payload@) <= usize::MAX,
    ensures
        match header {
            Some(h) => slice_header(
                nal_len as nat,
                payload@,
                *sps,
                *pps,
                nal_unit_type,
                prev_pic_order_cnt_lsb,
                prev_pic_order_cnt_msb,
            ) == Some(h@),
            None => slice_header(
                nal_len as nat,
                payload@,
                *sps,
                *pps,
                nal_unit_type,
                prev_pic_order_cnt_lsb,
                prev_pic_order_cnt_msb,
            ) is None,
        },
{
    if nal_len < 3 {
        return None;
    }
    let mut reader: SliceBitReader = SliceBitReader::new(payload);
    let first: bool = match reader.read_bit() {
        Some(b) => b == 1,
        None => {
            return None;
        },
    };
    let irap: bool = 16 <= nal_unit_type && nal_unit_type <= 23;
    let no_output: bool = if irap {
        next_bit(&mut reader) == 1
    } else {
        false
    };
    let _pps_id: u32 = next_ue(&mut reader);
    if !first {
        return None;
    }
    if pps.num_extra_slice_header_bits > 0 {
        let _extra_bits: u32 = next_bits(&mut reader, pps.num_extra_slice_header_bits as u32);
    }
    let slice_type: u32 = next_ue(&mut reader);
    if pps.output_flag_present_flag {
        let _pic_output_flag: u32 = next_bit(&mut reader);
    }
    if sps.separate_colour_plane_flag {
        let _colour_plane_id: u32 = next_bits(&mut reader, 2);
    }
    let idr: bool = nal_unit_type == 19 || nal_unit_type == 20;
    let lsb_bits: u32 = sps.log2_max_pic_order_cnt_lsb_minus4 as u32 + 4;
    let lsb: i32 = if idr {
        0
    } else {
        match reader.read_bits(lsb_bits) {
            Some(v) => v as i32,
            None => {
                return None;
            },
        }
    };
    let msb: i32 = if 16 <= nal_unit_type && nal_unit_type <= 20 {
        0
    } else {
        compute_poc_msb(lsb_bits, lsb, prev_pic_order_cnt_lsb, prev_pic_order_cnt_msb)
    };
    let poc: i32 = msb.wrapping_add(lsb);
    let is_reference: bool = irap || nal_unit_type % 2 == 1;
    if idr {
        return Some(
            H265SliceHeader {
                first_slice_segment_in_pic_flag: first,
                pic_order_cnt_lsb: lsb,
                pic_order_cnt_msb: msb,
                pic_order_cnt: [poc, poc],
                is_idr: idr,
                is_reference,
                slice_type,
                num_bits_for_st_ref_pic_set_in_slice: 0,
                num_delta_pocs_of_ref_rps_idx: 0,
                short_term_ref_pic_set_sps_flag: false,
                ref_pocs: Vec::new(),
                long_term_pocs: Vec::new(),
                no_output_of_prior_pics_flag: no_output,
            },
        );
    }
    let st: ShortTerm = parse_short_term(&mut reader, sps, poc);
    let mut ref_pocs: Vec<i32> = st.pocs;
    let mut long_term_pocs: Vec<i32> = Vec::new();
    if sps.long_term_ref_pics_present_flag && sps.num_long_term_ref_pics_sps > 0 {
        collect_long_term(&mut reader, sps, &mut long_term_pocs);
    }
    let ghost short_term = ref_pocs@;
    ref_pocs.extend_from_slice(long_term_pocs.as_slice());
    assert(ref_pocs@ =~= short_term + long_term_pocs@);
    if sps.sps_temporal_mvp_enabled_flag {
        let _slice_temporal_mvp_enabled_flag: u32 = next_bit(&mut reader);
    }
    Some(
        H265SliceHeader {
            first_slice_segment_in_pic_flag: first,
            pic_order_cnt_lsb: lsb,
            pic_order_cnt_msb: msb,
            pic_order_cnt: [poc, poc],
            is_idr: idr,
            is_reference,
            slice_type,
            num_bits_for_st_ref_pic_set_in_slice: st.num_bits,
            num_delta_pocs_of_ref_rps_idx: st.num_delta_pocs,
            short_term_ref_pic_set_sps_flag: st.sps_flag,
            ref_pocs,
            long_term_pocs,
            no_output_of_prior_pics_flag: no_output,
        },
    )
}

} // verus!
