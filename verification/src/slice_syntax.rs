//! How H.265 slice headers are written, and that what is written is read back.

use crate::bits::bit_len;
use crate::parameter_sets::{H265Pps, H265ShortTermRefPicSet, H265Sps};
use crate::slice_header::{
    bit_or_zero, bits_or_zero, ceil_log2, explicit_part, explicit_pocs, long_term_pocs,
    mask_bit, negative_poc, poc_msb, positive_poc, predicted_down, predicted_entry,
    predicted_part, predicted_pocs, predicted_up, short_term_part,
    signed_distance, slice_header, stored_negative, stored_pocs, stored_positive, ue_or_zero,
    use_flags, H265SliceHeaderView,
};
use crate::syntax::{
    fixed_bits, holds, law_bit_reads_back, law_fixed_reads_back, law_ue_reads_back,
    lemma_holds_splits, ue_bits,
};
use vstd::arithmetic::power2::{lemma2_to64, lemma_pow2_strictly_increases, pow2};
use vstd::prelude::*;

verus! {

// ---------------------------------------------------------------------------
// Reference picture sets that are written out
// ---------------------------------------------------------------------------

/// A picture that a written set names: how far it lies from the current one, and whether
/// the current one refers to it.
pub struct WrittenRef {
    pub distance: int,
    pub used: bool,
}

/// The distances rise, from more than `from` on, and the order counts of the pictures fit
/// in 32 signed bits.
pub open spec fn are_rising(refs: Seq<WrittenRef>, from: int, curr_poc: i32) -> bool
    decreases refs.len(),
{
    refs.len() > 0 ==> {
        &&& from < refs[0].distance < 0x7FFF_FFFF
        &&& i32::MIN <= curr_poc - refs[0].distance
        &&& curr_poc + refs[0].distance <= i32::MAX
        &&& are_rising(refs.skip(1), refs[0].distance, curr_poc)
    }
}

/// The entries as they are written: each by what its distance exceeds the least that it
/// can be.
pub open spec fn refs_bits(refs: Seq<WrittenRef>, from: int) -> Seq<bool>
    decreases refs.len(),
{
    if refs.len() == 0 {
        Seq::empty()
    } else {
        ue_bits((refs[0].distance - from - 1) as nat) + (seq![refs[0].used] + refs_bits(
            refs.skip(1),
            refs[0].distance,
        ))
    }
}

/// The order counts of the pictures that the current one refers to, in order: it less or
/// plus their distances.
pub open spec fn named_pocs(refs: Seq<WrittenRef>, curr_poc: i32, before: bool) -> Seq<i32>
    decreases refs.len(),
{
    if refs.len() == 0 {
        Seq::empty()
    } else {
        let rest = named_pocs(refs.skip(1), curr_poc, before);
        if !refs[0].used {
            rest
        } else if before {
            seq![(curr_poc - refs[0].distance) as i32] + rest
        } else {
            seq![(curr_poc + refs[0].distance) as i32] + rest
        }
    }
}

/// Pictures that are written by their distances are read back by their order counts:
/// each distance counts from the current picture, whether or not the entries before it
/// are in use.
pub proof fn law_written_refs_read_back(
    data: Seq<u8>,
    p: int,
    refs: Seq<WrittenRef>,
    from: int,
    curr_poc: i32,
    before: bool,
)
    requires
        0 <= from,
        are_rising(refs, from, curr_poc),
        holds(data, p, refs_bits(refs, from)),
        from < 0x7FFF_FFFF,
    ensures
        explicit_pocs(data, p, refs.len(), from as i32, curr_poc, before) == (
            named_pocs(refs, curr_poc, before),
            p + refs_bits(refs, from).len(),
        ),
    decreases refs.len(),
{
    if refs.len() > 0 {
        let d = refs[0].distance;
        let step = (d - from - 1) as nat;
        let rest = refs_bits(refs.skip(1), d);
        lemma_holds_splits(data, p, ue_bits(step), seq![refs[0].used] + rest);
        law_ue_reads_back(data, p, step);
        let p1 = p + ue_bits(step).len();
        lemma_holds_splits(data, p1, seq![refs[0].used], rest);
        law_bit_reads_back(data, p1, refs[0].used);
        law_written_refs_read_back(data, p1 + 1, refs.skip(1), d, curr_poc, before);
    }
}

/// Order counts that were written by rising distances fall, or rise, strictly.
pub proof fn law_named_pocs_are_monotone(
    refs: Seq<WrittenRef>,
    from: int,
    curr_poc: i32,
    before: bool,
    i: int,
    j: int,
)
    requires
        are_rising(refs, from, curr_poc),
        0 <= from,
        0 <= i < j < named_pocs(refs, curr_poc, before).len(),
    ensures
        if before {
            named_pocs(refs, curr_poc, before)[j] < named_pocs(refs, curr_poc, before)[i]
                < curr_poc - from
        } else {
            named_pocs(refs, curr_poc, before)[j] > named_pocs(refs, curr_poc, before)[i]
                > curr_poc + from
        },
    decreases refs.len(),
{
    let d = refs[0].distance;
    let rest = refs.skip(1);
    let all = named_pocs(refs, curr_poc, before);
    let others = named_pocs(rest, curr_poc, before);
    lemma_named_pocs_are_beyond(rest, d, curr_poc, before);
    lemma_named_pocs_are_beyond(refs, from, curr_poc, before);
    assert(if before {
        all[i] < curr_poc - from
    } else {
        all[i] > curr_poc + from
    });
    if refs[0].used {
        assert(all[j] == others[j - 1]);
        if i > 0 {
            assert(all[i] == others[i - 1]);
            law_named_pocs_are_monotone(rest, d, curr_poc, before, i - 1, j - 1);
        }
    } else {
        assert(all == others);
        law_named_pocs_are_monotone(rest, d, curr_poc, before, i, j);
    }
}

proof fn lemma_named_pocs_are_beyond(
    refs: Seq<WrittenRef>,
    from: int,
    curr_poc: i32,
    before: bool,
)
    requires
        are_rising(refs, from, curr_poc),
    ensures
        forall|k: int|
            0 <= k < named_pocs(refs, curr_poc, before).len() ==> if before {
                #[trigger] named_pocs(refs, curr_poc, before)[k] < curr_poc - from
            } else {
                named_pocs(refs, curr_poc, before)[k] > curr_poc + from
            },
    decreases refs.len(),
{
    if refs.len() > 0 {
        let rest = named_pocs(refs.skip(1), curr_poc, before);
        let all = named_pocs(refs, curr_poc, before);
        lemma_named_pocs_are_beyond(refs.skip(1), refs[0].distance, curr_poc, before);
        assert forall|k: int| 0 <= k < all.len() implies if before {
            #[trigger] all[k] < curr_poc - from
        } else {
            all[k] > curr_poc + from
        } by {
            if !refs[0].used {
                assert(all[k] == rest[k]);
            } else if k > 0 {
                assert(all[k] == rest[k - 1]);
            }
        }
    }
}

// ---------------------------------------------------------------------------
// Order counts
// ---------------------------------------------------------------------------

/// The order count that is told from its low part is the true one, as long as it differs
/// from that of the picture before by at most half a cycle. `prev` and `count` are the
/// true order counts.
pub proof fn law_order_counts_are_true(bits: nat, prev: int, count: int)
    requires
        1 <= bits <= 30,
        -(pow2(bits) / 2) < count - prev <= pow2(bits) / 2,
        -0x4000_0000 <= prev < 0x4000_0000,
        -0x4000_0000 <= count < 0x4000_0000,
    ensures
        ({
            let cycle = pow2(bits) as int;
            let lsb = (count % cycle) as i32;
            let prev_lsb = (prev % cycle) as i32;
            let prev_msb = (prev - prev % cycle) as i32;
            &&& poc_msb(bits, lsb, prev_lsb, prev_msb) + lsb == count
            &&& poc_msb(bits, lsb, prev_lsb, prev_msb) == count - count % cycle
        }),
{
    lemma2_to64();
    if bits < 30 {
        lemma_pow2_strictly_increases(bits, 30);
    }
    vstd::arithmetic::power2::lemma_pow2_adds((bits - 1) as nat, 1);
    vstd::arithmetic::power2::lemma_pow2_pos(bits);
    let c = pow2(bits) as int;
    let a = count / c;
    let b = prev / c;
    vstd::arithmetic::div_mod::lemma_fundamental_div_mod(count, c);
    vstd::arithmetic::div_mod::lemma_fundamental_div_mod(prev, c);
    vstd::arithmetic::div_mod::lemma_mod_bound(count, c);
    vstd::arithmetic::div_mod::lemma_mod_bound(prev, c);
    let diff = c * a - c * b;
    assert(diff == c * (a - b)) by (nonlinear_arith)
        requires
            diff == c * a - c * b,
    ;
    assert(-2 * c < diff < 2 * c);
    assert(a - b == -1 || a - b == 0 || a - b == 1) by (nonlinear_arith)
        requires
            -2 * c < c * (a - b) < 2 * c,
            c > 0,
    ;
    if a - b == 1 {
        assert(diff == c) by (nonlinear_arith)
            requires
                diff == c * (a - b),
                a - b == 1,
        ;
    } else if a - b == -1 {
        assert(diff == -c) by (nonlinear_arith)
            requires
                diff == c * (a - b),
                a - b == -1,
        ;
    } else {
        assert(diff == 0) by (nonlinear_arith)
            requires
                diff == c * (a - b),
                a - b == 0,
        ;
    }
}

// ---------------------------------------------------------------------------
// Sets of the sequence parameter set
// ---------------------------------------------------------------------------

/// A stored distance is a number in two's complement of 16 bits.
pub proof fn law_stored_distances_are_signed(stored: u16)
    ensures
        -32768 <= signed_distance(stored) <= 32767,
        (signed_distance(stored) - stored) % 65536 == 0,
{
}

/// An entry is in use where its binary digit in the mask is one.
pub proof fn law_mask_bits_are_digits(mask: u16, i: nat)
    requires
        i < 16,
    ensures
        mask_bit(mask, i as int) <==> (mask as nat / pow2(i)) % 2 == 1,
{
    lemma2_to64();
    let k: u16 = i as u16;
    assert(k < 16);
    assert((mask & (1u16 << 0u16) != 0) == ((mask / 1) % 2 == 1) && (mask & (1u16 << 1u16) != 0) == ((
    mask / 2) % 2 == 1) && (mask & (1u16 << 2u16) != 0) == ((mask / 4) % 2 == 1) && (mask & (1u16
        << 3u16) != 0) == ((mask / 8) % 2 == 1) && (mask & (1u16 << 4u16) != 0) == ((mask / 16) % 2
        == 1) && (mask & (1u16 << 5u16) != 0) == ((mask / 32) % 2 == 1) && (mask & (1u16 << 6u16)
        != 0) == ((mask / 64) % 2 == 1) && (mask & (1u16 << 7u16) != 0) == ((mask / 128) % 2 == 1)
        && (mask & (1u16 << 8u16) != 0) == ((mask / 256) % 2 == 1) && (mask & (1u16 << 9u16) != 0)
        == ((mask / 512) % 2 == 1) && (mask & (1u16 << 10u16) != 0) == ((mask / 1024) % 2 == 1) && (
    mask & (1u16 << 11u16) != 0) == ((mask / 2048) % 2 == 1) && (mask & (1u16 << 12u16) != 0) == ((
    mask / 4096) % 2 == 1) && (mask & (1u16 << 13u16) != 0) == ((mask / 8192) % 2 == 1) && (mask & (
    1u16 << 14u16) != 0) == ((mask / 16384) % 2 == 1) && (mask & (1u16 << 15u16) != 0) == ((mask
        / 32768) % 2 == 1)) by (bit_vector);
}

/// The number that 16 bits stand for in two's complement.
pub open spec fn twos_complement(v: u16) -> int {
    (v + 32768) % 65536 - 32768
}

/// An entry of a stored set that the current picture refers to, in the first or the
/// second part.
pub open spec fn is_stored_ref(
    set: H265ShortTermRefPicSet,
    curr_poc: i32,
    poc: i32,
    i: int,
    before: bool,
) -> bool {
    if before {
        &&& 0 <= i < set.num_negative_pics
        &&& (set.used_by_curr_pic_s0_flag as nat / pow2(i as nat)) % 2 == 1
        &&& poc == curr_poc + twos_complement(set.delta_poc_s0_minus1@[i])
    } else {
        &&& 0 <= i < set.num_positive_pics
        &&& (set.used_by_curr_pic_s1_flag as nat / pow2(i as nat)) % 2 == 1
        &&& poc == curr_poc + set.delta_poc_s1_minus1@[i]
    }
}

/// A stored set names exactly the order counts of its entries that are in use.
pub proof fn law_stored_sets_name_used_entries(
    set: H265ShortTermRefPicSet,
    curr_poc: i32,
    poc: i32,
)
    requires
        set.wf(),
        -0x4000_0000 <= curr_poc <= 0x4000_0000,
    ensures
        stored_pocs(set, curr_poc).contains(poc) <==> exists|i: int, before: bool| #[trigger]
            is_stored_ref(set, curr_poc, poc, i, before),
{
    let n = set.num_negative_pics as nat;
    let m = set.num_positive_pics as nat;
    let a = stored_negative(set, curr_poc, n);
    let b = stored_positive(set, curr_poc, m);
    let all = stored_pocs(set, curr_poc);
    assert(all =~= a + b);
    lemma_stored_negative(set, curr_poc, poc, n);
    lemma_stored_positive(set, curr_poc, poc, m);
    if all.contains(poc) {
        let k = choose|k: int| 0 <= k < all.len() && all[k] == poc;
        if k < a.len() {
            assert(a[k] == poc);
        } else {
            assert(b[k - a.len()] == poc);
        }
    }
    if exists|i: int, before: bool| #[trigger] is_stored_ref(set, curr_poc, poc, i, before) {
        let (i, before) = choose|i: int, before: bool| #[trigger]
            is_stored_ref(set, curr_poc, poc, i, before);
        if before {
            let k = choose|k: int| 0 <= k < a.len() && a[k] == poc;
            assert(all[k] == poc);
        } else {
            let k = choose|k: int| 0 <= k < b.len() && b[k] == poc;
            assert(all[a.len() + k] == poc);
        }
    }
}

proof fn lemma_stored_negative(set: H265ShortTermRefPicSet, curr_poc: i32, poc: i32, n: nat)
    requires
        set.wf(),
        n <= set.num_negative_pics,
        -0x4000_0000 <= curr_poc <= 0x4000_0000,
    ensures
        stored_negative(set, curr_poc, n).contains(poc) <==> exists|i: int|
            i < n && #[trigger] is_stored_ref(set, curr_poc, poc, i, true),
    decreases n,
{
    let all = stored_negative(set, curr_poc, n);
    if n > 0 {
        let k = (n - 1) as nat;
        lemma_stored_negative(set, curr_poc, poc, k);
        law_mask_bits_are_digits(set.used_by_curr_pic_s0_flag, k);
        let rest = stored_negative(set, curr_poc, k);
        let stored = set.delta_poc_s0_minus1@[k as int];
        assert(signed_distance(stored) == twos_complement(stored));
        assert(is_stored_ref(set, curr_poc, poc, k as int, true) <==> mask_bit(
            set.used_by_curr_pic_s0_flag,
            k as int,
        ) && poc == negative_poc(set, curr_poc, k as int));
        if all.contains(poc) {
            let j = choose|j: int| 0 <= j < all.len() && all[j] == poc;
            if j < rest.len() {
                assert(rest[j] == poc);
                assert(rest.contains(poc));
                let i = choose|i: int|
                    i < k && #[trigger] is_stored_ref(set, curr_poc, poc, i, true);
                assert(i < n && is_stored_ref(set, curr_poc, poc, i, true));
            } else {
                assert(is_stored_ref(set, curr_poc, poc, k as int, true));
            }
        }
        if exists|i: int| i < n && #[trigger] is_stored_ref(set, curr_poc, poc, i, true) {
            let i = choose|i: int| i < n && #[trigger] is_stored_ref(set, curr_poc, poc, i, true);
            if i < k {
                let j = choose|j: int| 0 <= j < rest.len() && rest[j] == poc;
                assert(all[j] == poc);
            } else {
                assert(all[all.len() - 1] == poc);
            }
        }
    }
}

proof fn lemma_stored_positive(set: H265ShortTermRefPicSet, curr_poc: i32, poc: i32, n: nat)
    requires
        set.wf(),
        n <= set.num_positive_pics,
        -0x4000_0000 <= curr_poc <= 0x4000_0000,
    ensures
        stored_positive(set, curr_poc, n).contains(poc) <==> exists|i: int|
            i < n && #[trigger] is_stored_ref(set, curr_poc, poc, i, false),
    decreases n,
{
    let all = stored_positive(set, curr_poc, n);
    if n > 0 {
        let k = (n - 1) as nat;
        lemma_stored_positive(set, curr_poc, poc, k);
        law_mask_bits_are_digits(set.used_by_curr_pic_s1_flag, k);
        let rest = stored_positive(set, curr_poc, k);
        assert(is_stored_ref(set, curr_poc, poc, k as int, false) <==> mask_bit(
            set.used_by_curr_pic_s1_flag,
            k as int,
        ) && poc == positive_poc(set, curr_poc, k as int));
        if all.contains(poc) {
            let j = choose|j: int| 0 <= j < all.len() && all[j] == poc;
            if j < rest.len() {
                assert(rest[j] == poc);
                assert(rest.contains(poc));
                let i = choose|i: int|
                    i < k && #[trigger] is_stored_ref(set, curr_poc, poc, i, false);
                assert(i < n && is_stored_ref(set, curr_poc, poc, i, false));
            } else {
                assert(is_stored_ref(set, curr_poc, poc, k as int, false));
            }
        }
        if exists|i: int| i < n && #[trigger] is_stored_ref(set, curr_poc, poc, i, false) {
            let i = choose|i: int| i < n && #[trigger] is_stored_ref(set, curr_poc, poc, i, false);
            if i < k {
                let j = choose|j: int| 0 <= j < rest.len() && rest[j] == poc;
                assert(all[j] == poc);
            } else {
                assert(all[all.len() - 1] == poc);
            }
        }
    }
}

/// Where all entries of a stored set are in use, it names their order counts in order:
/// those of the first part, then those of the second.
pub proof fn law_stored_sets_keep_their_order(set: H265ShortTermRefPicSet, curr_poc: i32)
    requires
        set.wf(),
        -0x4000_0000 <= curr_poc <= 0x4000_0000,
        forall|i: nat|
            i < set.num_negative_pics ==> #[trigger] ((set.used_by_curr_pic_s0_flag as nat / pow2(i))
                % 2) == 1,
        forall|i: nat|
            i < set.num_positive_pics ==> #[trigger] ((set.used_by_curr_pic_s1_flag as nat / pow2(i))
                % 2) == 1,
    ensures
        stored_pocs(set, curr_poc).len() == set.num_negative_pics + set.num_positive_pics,
        forall|i: int|
            0 <= i < set.num_negative_pics ==> #[trigger] stored_pocs(set, curr_poc)[i] == curr_poc
                + twos_complement(set.delta_poc_s0_minus1@[i]),
        forall|i: int|
            0 <= i < set.num_positive_pics ==> stored_pocs(set, curr_poc)[set.num_negative_pics + i]
                == curr_poc + #[trigger] set.delta_poc_s1_minus1@[i],
{
    lemma_stored_order(set, curr_poc, set.num_negative_pics as nat, set.num_positive_pics as nat);
}

proof fn lemma_stored_order(set: H265ShortTermRefPicSet, curr_poc: i32, n: nat, m: nat)
    requires
        set.wf(),
        n <= set.num_negative_pics,
        m <= set.num_positive_pics,
        -0x4000_0000 <= curr_poc <= 0x4000_0000,
        forall|i: nat|
            i < set.num_negative_pics ==> #[trigger] ((set.used_by_curr_pic_s0_flag as nat / pow2(i))
                % 2) == 1,
        forall|i: nat|
            i < set.num_positive_pics ==> #[trigger] ((set.used_by_curr_pic_s1_flag as nat / pow2(i))
                % 2) == 1,
    ensures
        stored_negative(set, curr_poc, n).len() == n,
        stored_positive(set, curr_poc, m).len() == m,
        forall|i: int|
            0 <= i < n ==> #[trigger] stored_negative(set, curr_poc, n)[i] == curr_poc
                + twos_complement(set.delta_poc_s0_minus1@[i]),
        forall|i: int|
            0 <= i < m ==> #[trigger] stored_positive(set, curr_poc, m)[i] == curr_poc
                + set.delta_poc_s1_minus1@[i],
    decreases n + m,
{
    if n > 0 {
        let k = (n - 1) as nat;
        lemma_stored_order(set, curr_poc, k, m);
        law_mask_bits_are_digits(set.used_by_curr_pic_s0_flag, k);
        assert((set.used_by_curr_pic_s0_flag as nat / pow2(k)) % 2 == 1);
    } else if m > 0 {
        let k = (m - 1) as nat;
        lemma_stored_order(set, curr_poc, n, k);
        law_mask_bits_are_digits(set.used_by_curr_pic_s1_flag, k);
        assert((set.used_by_curr_pic_s1_flag as nat / pow2(k)) % 2 == 1);
    }
}

// ---------------------------------------------------------------------------
// Sets that are predicted
// ---------------------------------------------------------------------------

/// The order count that entry `j` of a set is predicted to, where `delta` is added to all
/// of them: the entries are those of the first part, then those of the second, then the
/// current picture itself.
pub open spec fn predicted_to(
    set: H265ShortTermRefPicSet,
    curr_poc: i32,
    delta: i32,
    j: int,
) -> int {
    let n = set.num_negative_pics as int;
    let m = set.num_positive_pics as int;
    if j < n {
        curr_poc + twos_complement(set.delta_poc_s0_minus1@[j]) + delta
    } else if j < n + m {
        curr_poc + set.delta_poc_s1_minus1@[j - n] + delta
    } else {
        curr_poc + delta
    }
}

/// An entry is in use and predicted to an order count other than the current one.
pub open spec fn is_predicted(
    set: H265ShortTermRefPicSet,
    used: Seq<bool>,
    curr_poc: i32,
    delta: i32,
    poc: i32,
    j: int,
) -> bool {
    &&& 0 <= j <= set.num_negative_pics + set.num_positive_pics
    &&& used[j]
    &&& poc == predicted_to(set, curr_poc, delta, j)
    &&& poc != curr_poc
}

proof fn lemma_predicted_up(
    pocs: Seq<i32>,
    used: Seq<bool>,
    base: int,
    curr_poc: i32,
    delta: i32,
    before: bool,
    n: nat,
    poc: i32,
)
    requires
        n <= pocs.len(),
    ensures
        predicted_up(pocs, used, base, curr_poc, delta, before, n).contains(poc) <==> exists|i: int|
            0 <= i < n && #[trigger] predicted_entry(
                pocs[i],
                used[base + i],
                curr_poc,
                delta,
                before,
            ) == seq![poc],
    decreases n,
{
    if n > 0 {
        let k = (n - 1) as nat;
        lemma_predicted_up(pocs, used, base, curr_poc, delta, before, k, poc);
        let rest = predicted_up(pocs, used, base, curr_poc, delta, before, k);
        let e = predicted_entry(pocs[k as int], used[base + k], curr_poc, delta, before);
        let all = predicted_up(pocs, used, base, curr_poc, delta, before, n);
        assert(all =~= rest + e);
        lemma_contains_sum(rest, e, poc);
        assert(e.contains(poc) <==> e == seq![poc]) by {
            if e.contains(poc) {
                assert(e =~= seq![poc]);
            }
            if e == seq![poc] {
                assert(e[0] == poc);
            }
        }
        if rest.contains(poc) {
            let i = choose|i: int|
                0 <= i < k && #[trigger] predicted_entry(
                    pocs[i],
                    used[base + i],
                    curr_poc,
                    delta,
                    before,
                ) == seq![poc];
            assert(0 <= i < n);
        }
    }
}

proof fn lemma_predicted_down(
    pocs: Seq<i32>,
    used: Seq<bool>,
    base: int,
    curr_poc: i32,
    delta: i32,
    before: bool,
    n: nat,
    poc: i32,
)
    requires
        n <= pocs.len(),
    ensures
        predicted_down(pocs, used, base, curr_poc, delta, before, n).contains(poc) <==> exists|i: int|
            pocs.len() - n <= i < pocs.len() && #[trigger] predicted_entry(
                pocs[i],
                used[base + i],
                curr_poc,
                delta,
                before,
            ) == seq![poc],
    decreases n,
{
    if n > 0 {
        let k = (n - 1) as nat;
        let l = pocs.len() - n;
        lemma_predicted_down(pocs, used, base, curr_poc, delta, before, k, poc);
        let rest = predicted_down(pocs, used, base, curr_poc, delta, before, k);
        let e = predicted_entry(pocs[l], used[base + l], curr_poc, delta, before);
        let all = predicted_down(pocs, used, base, curr_poc, delta, before, n);
        assert(base + pocs.len() - n == base + l);
        assert(all =~= rest + e);
        lemma_contains_sum(rest, e, poc);
        assert(e.contains(poc) <==> e == seq![poc]) by {
            if e.contains(poc) {
                assert(e =~= seq![poc]);
            }
            if e == seq![poc] {
                assert(e[0] == poc);
            }
        }
        if rest.contains(poc) {
            let i = choose|i: int|
                pocs.len() - k <= i < pocs.len() && #[trigger] predicted_entry(
                    pocs[i],
                    used[base + i],
                    curr_poc,
                    delta,
                    before,
                ) == seq![poc];
            assert(pocs.len() - n <= i < pocs.len());
        }
    }
}

proof fn lemma_contains_sum(a: Seq<i32>, b: Seq<i32>, x: i32)
    ensures
        (a + b).contains(x) <==> a.contains(x) || b.contains(x),
{
    let all = a + b;
    if all.contains(x) {
        let k = choose|k: int| 0 <= k < all.len() && all[k] == x;
        if k < a.len() {
            assert(a[k] == x);
        } else {
            assert(b[k - a.len()] == x);
        }
    }
    if a.contains(x) {
        let k = choose|k: int| 0 <= k < a.len() && a[k] == x;
        assert(all[k] == x);
    }
    if b.contains(x) {
        let k = choose|k: int| 0 <= k < b.len() && b[k] == x;
        assert(all[a.len() + k] == x);
    }
}

proof fn lemma_entry(poc: i32, used: bool, curr_poc: i32, delta: i32, before: bool, x: i32)
    requires
        i32::MIN <= poc + delta <= i32::MAX,
    ensures
        predicted_entry(poc, used, curr_poc, delta, before) == seq![x] <==> {
            &&& used
            &&& x == poc + delta
            &&& if before {
                x < curr_poc
            } else {
                x > curr_poc
            }
        },
{
    let e = predicted_entry(poc, used, curr_poc, delta, before);
    if e == seq![x] {
        assert(e.len() == 1);
        assert(e[0] == x);
    }
}

/// A predicted set names exactly the order counts that its entries in use are predicted
/// to, but for that of the current picture.
#[verifier::rlimit(50)]
pub proof fn law_predicted_sets_name_used_entries(
    set: H265ShortTermRefPicSet,
    used: Seq<bool>,
    curr_poc: i32,
    delta: i32,
    poc: i32,
)
    requires
        set.wf(),
        used.len() == set.num_negative_pics + set.num_positive_pics + 1,
        -0x2000_0000 <= curr_poc <= 0x2000_0000,
        -0x2000_0000 <= delta <= 0x2000_0000,
    ensures
        predicted_pocs(set, used, curr_poc, delta).contains(poc) <==> exists|j: int| #[trigger]
            is_predicted(set, used, curr_poc, delta, poc, j),
{
    let n = set.num_negative_pics as nat;
    let m = set.num_positive_pics as nat;
    let neg = Seq::new(n, |i: int| negative_poc(set, curr_poc, i));
    let pos = Seq::new(m, |i: int| positive_poc(set, curr_poc, i));
    let own = if used[(n + m) as int] {
        seq![curr_poc.wrapping_add(delta)]
    } else {
        Seq::empty()
    };
    let a = predicted_down(pos, used, n as int, curr_poc, delta, true, m);
    let b = if delta < 0 {
        own
    } else {
        Seq::empty()
    };
    let c = predicted_up(neg, used, 0, curr_poc, delta, true, n);
    let d = predicted_down(neg, used, 0, curr_poc, delta, false, n);
    let e = if delta > 0 {
        own
    } else {
        Seq::empty()
    };
    let f = predicted_up(pos, used, n as int, curr_poc, delta, false, m);
    let all = predicted_pocs(set, used, curr_poc, delta);
    assert(all =~= a + b + c + d + e + f);
    lemma_contains_sum(a, b, poc);
    lemma_contains_sum(a + b, c, poc);
    lemma_contains_sum(a + b + c, d, poc);
    lemma_contains_sum(a + b + c + d, e, poc);
    lemma_contains_sum(a + b + c + d + e, f, poc);
    lemma_predicted_down(pos, used, n as int, curr_poc, delta, true, m, poc);
    lemma_predicted_up(neg, used, 0, curr_poc, delta, true, n, poc);
    lemma_predicted_down(neg, used, 0, curr_poc, delta, false, n, poc);
    lemma_predicted_up(pos, used, n as int, curr_poc, delta, false, m, poc);
    assert forall|i: int, before: bool| 0 <= i < n implies (#[trigger] predicted_entry(
        neg[i],
        used[0 + i],
        curr_poc,
        delta,
        before,
    ) == seq![poc] <==> is_predicted(set, used, curr_poc, delta, poc, i) && (poc < curr_poc) == before) by {
        lemma_entry(neg[i], used[0 + i], curr_poc, delta, before, poc);
    }
    assert forall|i: int, before: bool| 0 <= i < m implies (#[trigger] predicted_entry(
        pos[i],
        used[n + i],
        curr_poc,
        delta,
        before,
    ) == seq![poc] <==> is_predicted(set, used, curr_poc, delta, poc, n + i) && (poc < curr_poc) == before) by {
        lemma_entry(pos[i], used[n + i], curr_poc, delta, before, poc);
    }
    let last = (n + m) as int;
    assert((b.contains(poc) || e.contains(poc)) <==> is_predicted(
        set,
        used,
        curr_poc,
        delta,
        poc,
        last,
    )) by {
        if is_predicted(set, used, curr_poc, delta, poc, last) {
            assert(own[0] == poc);
        }
    }
    if exists|j: int| #[trigger] is_predicted(set, used, curr_poc, delta, poc, j) {
        let j = choose|j: int| #[trigger] is_predicted(set, used, curr_poc, delta, poc, j);
        let before = poc < curr_poc;
        if j < n {
            assert(predicted_entry(neg[j], used[0 + j], curr_poc, delta, before) == seq![poc]);
        } else if j < n + m {
            assert(predicted_entry(pos[j - n], used[n + (j - n)], curr_poc, delta, before) == seq![poc]);
        }
    }
    if c.contains(poc) || d.contains(poc) {
        let before = c.contains(poc);
        let i = choose|i: int|
            0 <= i < n && #[trigger] predicted_entry(neg[i], used[0 + i], curr_poc, delta, before)
                == seq![poc];
        assert(is_predicted(set, used, curr_poc, delta, poc, i));
    }
    if a.contains(poc) || f.contains(poc) {
        let before = a.contains(poc);
        let i = choose|i: int|
            0 <= i < m && #[trigger] predicted_entry(pos[i], used[n + i], curr_poc, delta, before)
                == seq![poc];
        assert(is_predicted(set, used, curr_poc, delta, poc, n + i));
    }
}

// ---------------------------------------------------------------------------
// The header as it is written
// ---------------------------------------------------------------------------

/// What is written only where it is present.
pub open spec fn optional(present: bool, bits: Seq<bool>) -> Seq<bool> {
    if present {
        bits
    } else {
        Seq::empty()
    }
}

/// What the first slice segment of a picture says, up to its order count.
pub struct WrittenSlice {
    pub no_output: bool,
    pub pps_id: nat,
    pub extra: nat,
    pub slice_type: nat,
    pub output: bool,
    pub colour_plane: nat,
    pub lsb: nat,
}

impl WrittenSlice {
    /// Every number fits in the digits that it is written in.
    pub open spec fn wf(&self, sps: H265Sps, pps: H265Pps) -> bool {
        &&& self.pps_id < u32::MAX
        &&& self.slice_type < u32::MAX
        &&& pps.num_extra_slice_header_bits <= 32
        &&& self.extra < pow2(pps.num_extra_slice_header_bits as nat)
        &&& self.colour_plane < 4
        &&& self.lsb < pow2((sps.log2_max_pic_order_cnt_lsb_minus4 + 4) as nat)
    }
}

/// The header of the first slice segment of a picture, up to its order count.
pub open spec fn slice_bits(w: WrittenSlice, sps: H265Sps, pps: H265Pps, t: u8) -> Seq<bool> {
    seq![true] + (optional(16 <= t <= 23, seq![w.no_output]) + (ue_bits(w.pps_id) + (optional(
        pps.num_extra_slice_header_bits > 0,
        fixed_bits(w.extra, pps.num_extra_slice_header_bits as nat),
    ) + (ue_bits(w.slice_type) + (optional(pps.output_flag_present_flag, seq![w.output]) + (
    optional(sps.separate_colour_plane_flag, fixed_bits(w.colour_plane, 2)) + optional(
        t != 19 && t != 20,
        fixed_bits(w.lsb, (sps.log2_max_pic_order_cnt_lsb_minus4 + 4) as nat),
    )))))))
}

/// The header of the first slice segment of a picture is read back: the type of its
/// slice and the low part of its order count as they were written; whether it is an IDR
/// or a reference picture by its NAL unit type. An IDR picture refers to nothing.
#[verifier::rlimit(80)]
pub proof fn law_slice_headers_read_back(
    nal_len: nat,
    payload: Seq<u8>,
    w: WrittenSlice,
    sps: H265Sps,
    pps: H265Pps,
    t: u8,
    prev_lsb: i32,
    prev_msb: i32,
)
    requires
        sps.wf(),
        w.wf(sps, pps),
        nal_len >= 3,
        holds(payload, 0, slice_bits(w, sps, pps, t)),
    ensures
        slice_header(nal_len, payload, sps, pps, t, prev_lsb, prev_msb) matches Some(v) && {
            let end = slice_bits(w, sps, pps, t).len() as int;
            &&& v.first_slice_segment_in_pic_flag
            &&& v.slice_type == w.slice_type
            &&& v.no_output_of_prior_pics_flag == (16 <= t <= 23 && w.no_output)
            &&& v.is_idr == (t == 19 || t == 20)
            &&& v.is_reference == (16 <= t <= 23 || t % 2 == 1)
            &&& v.pic_order_cnt_lsb == (if v.is_idr {
                0
            } else {
                w.lsb
            })
            &&& v.pic_order_cnt.len() == 2
            &&& v.pic_order_cnt[0] == v.pic_order_cnt_msb.wrapping_add(v.pic_order_cnt_lsb)
            &&& v.pic_order_cnt[1] == v.pic_order_cnt[0]
            &&& 16 <= t <= 20 ==> v.pic_order_cnt_msb == 0
            &&& v.is_idr ==> v.ref_pocs.len() == 0 && v.long_term_pocs.len() == 0
                && v.num_bits_for_st_ref_pic_set_in_slice == 0 && v.num_delta_pocs_of_ref_rps_idx
                == 0 && !v.short_term_ref_pic_set_sps_flag
            &&& !v.is_idr ==> is_behind_lsb(v, payload, end, sps)
        },
{
    lemma2_to64();
    let lsb_bits = (sps.log2_max_pic_order_cnt_lsb_minus4 + 4) as nat;
    let idr = t == 19 || t == 20;
    let b0 = seq![true];
    let b1 = optional(16 <= t <= 23, seq![w.no_output]);
    let b2 = ue_bits(w.pps_id);
    let b3 = optional(
        pps.num_extra_slice_header_bits > 0,
        fixed_bits(w.extra, pps.num_extra_slice_header_bits as nat),
    );
    let b4 = ue_bits(w.slice_type);
    let b5 = optional(pps.output_flag_present_flag, seq![w.output]);
    let b6 = optional(sps.separate_colour_plane_flag, fixed_bits(w.colour_plane, 2));
    let b7 = optional(!idr, fixed_bits(w.lsb, lsb_bits));
    let p1 = 1int;
    let p2 = p1 + b1.len();
    let p3 = p2 + b2.len();
    let p4 = p3 + b3.len();
    let p5 = p4 + b4.len();
    let p6 = p5 + b5.len();
    let p7 = p6 + b6.len();
    lemma_holds_splits(payload, 0, b0, b1 + (b2 + (b3 + (b4 + (b5 + (b6 + b7))))));
    lemma_holds_splits(payload, p1, b1, b2 + (b3 + (b4 + (b5 + (b6 + b7)))));
    lemma_holds_splits(payload, p2, b2, b3 + (b4 + (b5 + (b6 + b7))));
    lemma_holds_splits(payload, p3, b3, b4 + (b5 + (b6 + b7)));
    lemma_holds_splits(payload, p4, b4, b5 + (b6 + b7));
    lemma_holds_splits(payload, p5, b5, b6 + b7);
    lemma_holds_splits(payload, p6, b6, b7);
    law_bit_reads_back(payload, 0, true);
    assert(bit_or_zero(payload, 0) == (1u32, p1));
    if 16 <= t <= 23 {
        law_bit_reads_back(payload, p1, w.no_output);
        assert(bit_or_zero(payload, p1).1 == p2);
    }
    law_ue_reads_back(payload, p2, w.pps_id);
    assert(ue_or_zero(payload, p2).1 == p3);
    if pps.num_extra_slice_header_bits > 0 {
        law_fixed_reads_back(payload, p3, w.extra, pps.num_extra_slice_header_bits as nat);
        assert(bits_or_zero(payload, p3, pps.num_extra_slice_header_bits as nat).1 == p4);
    }
    law_ue_reads_back(payload, p4, w.slice_type);
    assert(ue_or_zero(payload, p4) == (w.slice_type as u32, p5));
    if pps.output_flag_present_flag {
        law_bit_reads_back(payload, p5, w.output);
        assert(bit_or_zero(payload, p5).1 == p6);
    }
    if sps.separate_colour_plane_flag {
        law_fixed_reads_back(payload, p6, w.colour_plane, 2);
        assert(bits_or_zero(payload, p6, 2).1 == p7);
    }
    assert(slice_bits(w, sps, pps, t).len() == p7 + b7.len());
    if !idr {
        law_fixed_reads_back(payload, p7, w.lsb, lsb_bits);
        if lsb_bits < 31 {
            lemma_pow2_strictly_increases(lsb_bits, 31);
        }
    }
}

/// What stands behind the order count says which pictures are referred to.
pub open spec fn is_behind_lsb(
    v: H265SliceHeaderView,
    payload: Seq<u8>,
    end: int,
    sps: H265Sps,
) -> bool {
    let st = short_term_part(payload, end, sps, v.pic_order_cnt[0]);
    let (num_sps, q1) = ue_or_zero(payload, st.end);
    let (num_pics, q2) = ue_or_zero(payload, q1);
    let lt = if sps.long_term_ref_pics_present_flag && sps.num_long_term_ref_pics_sps > 0 {
        long_term_pocs(payload, q2, 0, num_sps.wrapping_add(num_pics) as nat, num_sps, sps).0
    } else {
        Seq::empty()
    };
    &&& v.ref_pocs == st.pocs + lt
    &&& v.long_term_pocs == lt
    &&& v.num_bits_for_st_ref_pic_set_in_slice == st.num_bits
    &&& v.num_delta_pocs_of_ref_rps_idx == st.num_delta_pocs
    &&& v.short_term_ref_pic_set_sps_flag == st.sps_flag
}

/// The order count that is read is the true one. `prev` and `count` are the true order
/// counts of the picture that it is told from and of the picture itself.
pub proof fn law_slices_have_true_order_counts(
    nal_len: nat,
    payload: Seq<u8>,
    w: WrittenSlice,
    sps: H265Sps,
    pps: H265Pps,
    t: u8,
    prev: int,
    count: int,
)
    requires
        sps.wf(),
        w.wf(sps, pps),
        nal_len >= 3,
        holds(payload, 0, slice_bits(w, sps, pps, t)),
        !(16 <= t <= 20),
        sps.log2_max_pic_order_cnt_lsb_minus4 <= 26,
        ({
            let cycle = pow2((sps.log2_max_pic_order_cnt_lsb_minus4 + 4) as nat) as int;
            &&& w.lsb == count % cycle
            &&& -(cycle / 2) < count - prev <= cycle / 2
        }),
        -0x4000_0000 <= prev < 0x4000_0000,
        -0x4000_0000 <= count < 0x4000_0000,
    ensures
        ({
            let cycle = pow2((sps.log2_max_pic_order_cnt_lsb_minus4 + 4) as nat) as int;
            let prev_lsb = (prev % cycle) as i32;
            let prev_msb = (prev - prev % cycle) as i32;
            &&& slice_header(nal_len, payload, sps, pps, t, prev_lsb, prev_msb) matches Some(v)
            &&& v.pic_order_cnt =~= seq![count as i32, count as i32]
            &&& v.pic_order_cnt_lsb == count % cycle
            &&& v.pic_order_cnt_msb == count - count % cycle
        }),
{
    let bits = (sps.log2_max_pic_order_cnt_lsb_minus4 + 4) as nat;
    let cycle = pow2(bits) as int;
    let prev_lsb = (prev % cycle) as i32;
    let prev_msb = (prev - prev % cycle) as i32;
    law_slice_headers_read_back(nal_len, payload, w, sps, pps, t, prev_lsb, prev_msb);
    law_order_counts_are_true(bits, prev, count);
}

// ---------------------------------------------------------------------------
// Reference pictures as they are written
// ---------------------------------------------------------------------------

/// The short-term set of a slice: one of the sequence parameter set by its number, one
/// that is predicted from such a set, or one that is written out.
pub enum WrittenSet {
    Stored { idx: nat },
    Predicted { back: nat, delta: int, uses: Seq<bool> },
    Explicit { before: Seq<WrittenRef>, after: Seq<WrittenRef> },
}

/// Use flags as they are written: a one, or two zeros.
pub open spec fn uses_bits(uses: Seq<bool>) -> Seq<bool>
    decreases uses.len(),
{
    if uses.len() == 0 {
        Seq::empty()
    } else {
        uses_bits(uses.drop_last()) + if uses.last() {
            seq![true]
        } else {
            seq![false, false]
        }
    }
}

proof fn lemma_uses_read_back(data: Seq<u8>, p: int, uses: Seq<bool>)
    requires
        holds(data, p, uses_bits(uses)),
    ensures
        use_flags(data, p, uses.len()) == (uses, p + uses_bits(uses).len()),
    decreases uses.len(),
{
    if uses.len() > 0 {
        let rest = uses.drop_last();
        let tail = if uses.last() {
            seq![true]
        } else {
            seq![false, false]
        };
        lemma_holds_splits(data, p, uses_bits(rest), tail);
        lemma_uses_read_back(data, p, rest);
        let q = p + uses_bits(rest).len();
        if uses.last() {
            law_bit_reads_back(data, q, true);
        } else {
            assert(seq![false, false] =~= seq![false] + seq![false]);
            lemma_holds_splits(data, q, seq![false], seq![false]);
            law_bit_reads_back(data, q, false);
            law_bit_reads_back(data, q + 1, false);
        }
        assert(rest.push(uses.last()) =~= uses);
    } else {
        assert(uses =~= Seq::empty());
    }
}

/// The set that a prediction goes back to.
pub open spec fn source_of(back: nat, sps: H265Sps) -> H265ShortTermRefPicSet {
    sps.short_term_ref_pic_sets@[sps.num_short_term_ref_pic_sets - back]
}

/// The set can be written, and its order counts fit in 32 signed bits.
pub open spec fn can_write(set: WrittenSet, sps: H265Sps, curr_poc: i32) -> bool {
    match set {
        WrittenSet::Stored { idx } => {
            &&& idx < sps.num_short_term_ref_pic_sets
            &&& idx < sps.short_term_ref_pic_sets@.len()
        },
        WrittenSet::Predicted { back, delta, uses } => {
            &&& 1 <= back <= sps.num_short_term_ref_pic_sets
            &&& sps.num_short_term_ref_pic_sets - back < sps.short_term_ref_pic_sets@.len()
            &&& delta != 0
            &&& -0x2000_0000 <= delta <= 0x2000_0000
            &&& uses.len() == source_of(back, sps).num_negative_pics + source_of(
                back,
                sps,
            ).num_positive_pics + 1
        },
        WrittenSet::Explicit { before, after } => {
            &&& before.len() < 0x7FFF_FFFF
            &&& after.len() < 0x7FFF_FFFF
            &&& are_rising(before, 0, curr_poc)
            &&& are_rising(after, 0, curr_poc)
        },
    }
}

/// The set as it is written, behind the flag that says whether it is stored.
pub open spec fn set_body(set: WrittenSet, sps: H265Sps) -> Seq<bool> {
    match set {
        WrittenSet::Stored { idx } => optional(
            sps.num_short_term_ref_pic_sets > 1,
            fixed_bits(idx, ceil_log2(sps.num_short_term_ref_pic_sets as nat)),
        ),
        WrittenSet::Predicted { back, delta, uses } => seq![true] + (ue_bits((back - 1) as nat) + (
        seq![delta < 0] + (ue_bits(
            (if delta < 0 {
                -delta - 1
            } else {
                delta - 1
            }) as nat,
        ) + uses_bits(uses)))),
        WrittenSet::Explicit { before, after } => optional(
            sps.num_short_term_ref_pic_sets > 0,
            seq![false],
        ) + (ue_bits(before.len()) + (ue_bits(after.len()) + (refs_bits(before, 0) + refs_bits(
            after,
            0,
        )))),
    }
}

/// The set as it is written.
pub open spec fn set_bits(set: WrittenSet, sps: H265Sps) -> Seq<bool> {
    seq![set is Stored] + set_body(set, sps)
}

/// The order counts that a set names.
pub open spec fn set_pocs(set: WrittenSet, sps: H265Sps, curr_poc: i32) -> Seq<i32> {
    match set {
        WrittenSet::Stored { idx } => stored_pocs(
            sps.short_term_ref_pic_sets@[idx as int],
            curr_poc,
        ),
        WrittenSet::Predicted { back, delta, uses } => predicted_pocs(
            source_of(back, sps),
            uses,
            curr_poc,
            delta as i32,
        ),
        WrittenSet::Explicit { before, after } => named_pocs(before, curr_poc, true) + named_pocs(
            after,
            curr_poc,
            false,
        ),
    }
}

/// A short-term set is read back: the order counts that it names, whether it is a stored
/// one, how many bits it takes up where it is not, and of how many pictures the set is
/// that it is predicted from.
#[verifier::rlimit(50)]
pub proof fn law_sets_read_back(
    data: Seq<u8>,
    p: int,
    set: WrittenSet,
    sps: H265Sps,
    curr_poc: i32,
)
    requires
        sps.wf(),
        can_write(set, sps, curr_poc),
        holds(data, p, set_bits(set, sps)),
        bit_len(data) <= i32::MAX,
    ensures
        ({
            let st = short_term_part(data, p, sps, curr_poc);
            &&& st.pocs == set_pocs(set, sps, curr_poc)
            &&& st.end == p + set_bits(set, sps).len()
            &&& st.sps_flag == (set is Stored)
            &&& st.num_bits == (if set is Stored {
                0
            } else {
                set_bits(set, sps).len() - 1
            })
            &&& st.num_delta_pocs == match set {
                WrittenSet::Predicted { back, .. } => (source_of(back, sps).num_negative_pics
                    + source_of(back, sps).num_positive_pics) as int,
                _ => 0,
            }
        }),
{
    lemma2_to64();
    let body = set_body(set, sps);
    lemma_holds_splits(data, p, seq![set is Stored], body);
    law_bit_reads_back(data, p, set is Stored);
    let p1 = p + 1;
    match set {
        WrittenSet::Stored { idx } => {
            let total = sps.num_short_term_ref_pic_sets as nat;
            if total > 1 {
                let n = ceil_log2(total);
                crate::slice_header::law_ceil_log2_is_least(total, n);
                crate::slice_header::law_ceil_log2_is_least(total, 8);
                law_fixed_reads_back(data, p1, idx, n);
            }
        },
        WrittenSet::Predicted { back, delta, uses } => {
            let b1 = ue_bits((back - 1) as nat);
            let b2 = seq![delta < 0];
            let abs = (if delta < 0 {
                -delta - 1
            } else {
                delta - 1
            }) as nat;
            let b3 = ue_bits(abs);
            let b4 = uses_bits(uses);
            lemma_holds_splits(data, p1, seq![true], b1 + (b2 + (b3 + b4)));
            law_bit_reads_back(data, p1, true);
            let p2 = p1 + 1;
            lemma_holds_splits(data, p2, b1, b2 + (b3 + b4));
            law_ue_reads_back(data, p2, (back - 1) as nat);
            let p3 = p2 + b1.len();
            lemma_holds_splits(data, p3, b2, b3 + b4);
            law_bit_reads_back(data, p3, delta < 0);
            let p4 = p3 + 1;
            lemma_holds_splits(data, p4, b3, b4);
            law_ue_reads_back(data, p4, abs);
            let p5 = p4 + b3.len();
            lemma_uses_read_back(data, p5, uses);
            let (pocs, n, end) = predicted_part(data, p2, sps, curr_poc);
            assert(end == p5 + b4.len());
            assert(set_bits(set, sps).len() == 2 + b1.len() + 1 + b3.len() + b4.len());
        },
        WrittenSet::Explicit { before, after } => {
            let b0 = optional(sps.num_short_term_ref_pic_sets > 0, seq![false]);
            let b1 = ue_bits(before.len());
            let b2 = ue_bits(after.len());
            let b3 = refs_bits(before, 0);
            let b4 = refs_bits(after, 0);
            lemma_holds_splits(data, p1, b0, b1 + (b2 + (b3 + b4)));
            if sps.num_short_term_ref_pic_sets > 0 {
                law_bit_reads_back(data, p1, false);
            }
            let p2 = p1 + b0.len();
            lemma_holds_splits(data, p2, b1, b2 + (b3 + b4));
            law_ue_reads_back(data, p2, before.len());
            let p3 = p2 + b1.len();
            lemma_holds_splits(data, p3, b2, b3 + b4);
            law_ue_reads_back(data, p3, after.len());
            let p4 = p3 + b2.len();
            lemma_holds_splits(data, p4, b3, b4);
            law_written_refs_read_back(data, p4, before, 0, curr_poc, true);
            let p5 = p4 + b3.len();
            law_written_refs_read_back(data, p5, after, 0, curr_poc, false);
            let (pocs, end) = explicit_part(data, p2, curr_poc);
            assert(end == p5 + b4.len());
            assert(set_bits(set, sps).len() == 1 + b0.len() + b1.len() + b2.len() + b3.len()
                + b4.len());
        },
    }
}

/// A long-term reference picture as it is written: by its number in the sequence
/// parameter set, or by the low part of its order count.
pub struct WrittenLongTerm {
    pub number: nat,
    pub used: bool,
    /// The high part of its order count, if it is told.
    pub msb_cycle: Option<nat>,
}

/// The entries from `i` on, of which the first `num_sps` are told by their numbers.
pub open spec fn long_term_bits(
    lts: Seq<WrittenLongTerm>,
    i: nat,
    num_sps: nat,
    sps: H265Sps,
) -> Seq<bool>
    decreases lts.len() - i,
{
    if i >= lts.len() {
        Seq::empty()
    } else {
        let e = lts[i as int];
        let own = if i < num_sps {
            optional(
                sps.num_long_term_ref_pics_sps > 1,
                fixed_bits(e.number, ceil_log2(sps.num_long_term_ref_pics_sps as nat)),
            )
        } else {
            fixed_bits(e.number, (sps.log2_max_pic_order_cnt_lsb_minus4 + 4) as nat) + seq![e.used]
        };
        let msb = match e.msb_cycle {
            Some(m) => seq![true] + ue_bits(m),
            None => seq![false],
        };
        own + (msb + long_term_bits(lts, i + 1, num_sps, sps))
    }
}

/// Every number fits in the digits that it is written in.
pub open spec fn long_terms_fit(lts: Seq<WrittenLongTerm>, num_sps: nat, sps: H265Sps) -> bool {
    forall|i: int|
        0 <= i < lts.len() ==> {
            let e = #[trigger] lts[i];
            &&& if i < num_sps {
                e.number < sps.num_long_term_ref_pics_sps
            } else {
                e.number < pow2((sps.log2_max_pic_order_cnt_lsb_minus4 + 4) as nat)
            }
            &&& e.msb_cycle matches Some(m) ==> m < u32::MAX
        }
}

/// Long-term reference pictures are read back: those that are told by their numbers have
/// the order counts that the sequence parameter set holds for them, and the others those
/// that are written.
pub proof fn law_long_terms_read_back(
    data: Seq<u8>,
    p: int,
    lts: Seq<WrittenLongTerm>,
    i: nat,
    num_sps: u32,
    sps: H265Sps,
)
    requires
        sps.wf(),
        sps.num_long_term_ref_pics_sps > 0,
        i <= lts.len(),
        long_terms_fit(lts, num_sps as nat, sps),
        holds(data, p, long_term_bits(lts, i, num_sps as nat, sps)),
    ensures
        long_term_pocs(data, p, i, lts.len(), num_sps, sps).0.len() == lts.len() - i,
        forall|k: int|
            i <= k < lts.len() ==> long_term_pocs(data, p, i, lts.len(), num_sps, sps).0[k - i]
                == if k < num_sps {
                sps.lt_ref_pic_poc_lsb_sps@[(#[trigger] lts[k]).number as int] as i32 as int
            } else {
                lts[k].number as int
            },
    decreases lts.len() - i,
{
    if i < lts.len() {
        let p2 = lemma_first_long_term(data, p, lts, i, num_sps, sps);
        law_long_terms_read_back(data, p2, lts, i + 1, num_sps, sps);
        let all = long_term_pocs(data, p, i, lts.len(), num_sps, sps).0;
        let tail = long_term_pocs(data, p2, i + 1, lts.len(), num_sps, sps).0;
        assert forall|k: int| i <= k < lts.len() implies all[k - i] == if k < num_sps {
            sps.lt_ref_pic_poc_lsb_sps@[(#[trigger] lts[k]).number as int] as i32 as int
        } else {
            lts[k].number as int
        } by {
            if k > i {
                assert(all[k - i] == tail[k - (i + 1)]);
            }
        }
    }
}

/// The first of the entries is read back, and the others lie behind it, from `p2` on.
#[verifier::rlimit(60)]
proof fn lemma_first_long_term(
    data: Seq<u8>,
    p: int,
    lts: Seq<WrittenLongTerm>,
    i: nat,
    num_sps: u32,
    sps: H265Sps,
) -> (p2: int)
    requires
        sps.wf(),
        sps.num_long_term_ref_pics_sps > 0,
        i < lts.len(),
        long_terms_fit(lts, num_sps as nat, sps),
        holds(data, p, long_term_bits(lts, i, num_sps as nat, sps)),
    ensures
        holds(data, p2, long_term_bits(lts, i + 1, num_sps as nat, sps)),
        ({
            let all = long_term_pocs(data, p, i, lts.len(), num_sps, sps).0;
            let tail = long_term_pocs(data, p2, i + 1, lts.len(), num_sps, sps).0;
            &&& all == seq![all[0]] + tail
            &&& all[0] == if i < num_sps {
                sps.lt_ref_pic_poc_lsb_sps@[lts[i as int].number as int] as i32 as int
            } else {
                lts[i as int].number as int
            }
        }),
{
    lemma2_to64();
    let e = lts[i as int];
    let total = sps.num_long_term_ref_pics_sps as nat;
    let idx_bits = ceil_log2(total);
    let lsb_bits = (sps.log2_max_pic_order_cnt_lsb_minus4 + 4) as nat;
    let rest = long_term_bits(lts, i + 1, num_sps as nat, sps);
    let msb = match e.msb_cycle {
        Some(m) => seq![true] + ue_bits(m),
        None => seq![false],
    };
    crate::slice_header::law_ceil_log2_is_least(total, idx_bits);
    crate::slice_header::law_ceil_log2_is_least(total, 8);
    crate::slice_header::law_ceil_log2_is_least(total, 0);
    let own = if i < num_sps {
        optional(total > 1, fixed_bits(e.number, idx_bits))
    } else {
        fixed_bits(e.number, lsb_bits) + seq![e.used]
    };
    lemma_holds_splits(data, p, own, msb + rest);
    if i < num_sps {
        if total > 1 {
            law_fixed_reads_back(data, p, e.number, idx_bits);
        }
    } else {
        lemma_holds_splits(data, p, fixed_bits(e.number, lsb_bits), seq![e.used]);
        law_fixed_reads_back(data, p, e.number, lsb_bits);
        law_bit_reads_back(data, p + lsb_bits, e.used);
        if lsb_bits < 31 {
            lemma_pow2_strictly_increases(lsb_bits, 31);
        }
    }
    let p1 = p + own.len();
    lemma_holds_splits(data, p1, msb, rest);
    if let Some(m) = e.msb_cycle {
        lemma_holds_splits(data, p1, seq![true], ue_bits(m));
        law_bit_reads_back(data, p1, true);
        law_ue_reads_back(data, p1 + 1, m);
    } else {
        law_bit_reads_back(data, p1, false);
    }
    let p2 = p1 + msb.len();
    let all = long_term_pocs(data, p, i, lts.len(), num_sps, sps).0;
    let tail = long_term_pocs(data, p2, i + 1, lts.len(), num_sps, sps).0;
    let first = if i < num_sps {
        sps.lt_ref_pic_poc_lsb_sps@[e.number as int] as i32
    } else {
        e.number as i32
    };
    assert(all =~= seq![first] + tail);
    p2
}

} // verus!
