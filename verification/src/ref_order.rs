//! The order in which an H.265 picture names its references: those before it from the
//! nearest on, then those after it from the nearest on.

use crate::parameter_sets::H265ShortTermRefPicSet;
use crate::slice_header::{
    mask_bit, negative_poc, positive_poc, predicted_down, predicted_entry, predicted_pocs,
    predicted_up, stored_negative, stored_pocs, stored_positive,
};
use crate::slice_syntax::twos_complement;
use vstd::prelude::*;

verus! {

/// The numbers fall, or rise.
pub open spec fn are_ordered(s: Seq<i32>, fall: bool) -> bool {
    forall|i: int, j: int|
        0 <= i < j < s.len() ==> if fall {
            #[trigger] s[i] > #[trigger] s[j]
        } else {
            s[i] < s[j]
        }
}

/// The first `k` order counts lie before the current one, and the others behind it, each
/// time with the nearest first.
pub open spec fn are_nearest_first(pocs: Seq<i32>, curr_poc: i32, k: int) -> bool {
    &&& 0 <= k <= pocs.len()
    &&& are_ordered(pocs.take(k), true)
    &&& are_ordered(pocs.skip(k), false)
    &&& forall|i: int| 0 <= i < k ==> #[trigger] pocs[i] < curr_poc
    &&& forall|i: int| k <= i < pocs.len() ==> #[trigger] pocs[i] > curr_poc
}

/// The entries of a set lie farther and farther off: the distances of the negative part
/// fall from below zero on, and those of the positive part rise from above zero on.
pub open spec fn are_spread(set: H265ShortTermRefPicSet) -> bool {
    &&& forall|i: int|
        0 <= i < set.num_negative_pics ==> twos_complement(
            #[trigger] set.delta_poc_s0_minus1@[i],
        ) < 0
    &&& forall|i: int, j: int|
        0 <= i < j < set.num_negative_pics ==> twos_complement(
            #[trigger] set.delta_poc_s0_minus1@[i],
        ) > twos_complement(#[trigger] set.delta_poc_s0_minus1@[j])
    &&& forall|i: int|
        0 <= i < set.num_positive_pics ==> #[trigger] set.delta_poc_s1_minus1@[i] > 0
    &&& forall|i: int, j: int|
        0 <= i < j < set.num_positive_pics ==> #[trigger] set.delta_poc_s1_minus1@[i]
            < #[trigger] set.delta_poc_s1_minus1@[j]
}

/// A number is one of `from..to` in a list, moved by `delta`.
pub open spec fn is_moved(v: int, pocs: Seq<i32>, delta: i32, from: int, to: int) -> bool {
    exists|i: int| from <= i < to && (#[trigger] pocs[i]) + delta == v
}

proof fn lemma_concat_is_ordered(a: Seq<i32>, b: Seq<i32>, fall: bool)
    requires
        are_ordered(a, fall),
        are_ordered(b, fall),
        forall|i: int, j: int|
            0 <= i < a.len() && 0 <= j < b.len() ==> if fall {
                #[trigger] a[i] > #[trigger] b[j]
            } else {
                a[i] < b[j]
            },
    ensures
        are_ordered(a + b, fall),
{
    let s = a + b;
    assert forall|i: int, j: int| 0 <= i < j < s.len() implies if fall {
        #[trigger] s[i] > #[trigger] s[j]
    } else {
        s[i] < s[j]
    } by {
        if j < a.len() {
            assert(s[i] == a[i] && s[j] == a[j]);
        } else if i >= a.len() {
            assert(s[i] == b[i - a.len()] && s[j] == b[j - a.len()]);
        } else {
            assert(s[i] == a[i] && s[j] == b[j - a.len()]);
        }
    }
}

proof fn lemma_order_counts_are_sums(set: H265ShortTermRefPicSet, curr_poc: i32, i: int)
    requires
        -0x4000_0000 <= curr_poc <= 0x4000_0000,
    ensures
        negative_poc(set, curr_poc, i) == curr_poc + twos_complement(set.delta_poc_s0_minus1@[i]),
        positive_poc(set, curr_poc, i) == curr_poc + set.delta_poc_s1_minus1@[i],
        -32768 <= twos_complement(set.delta_poc_s0_minus1@[i]) <= 32767,
{
}

/// The order counts of a stored set come with the nearest first.
pub proof fn law_stored_sets_are_nearest_first(set: H265ShortTermRefPicSet, curr_poc: i32)
    requires
        set.wf(),
        are_spread(set),
        -0x4000_0000 <= curr_poc <= 0x4000_0000,
    ensures
        exists|k: int| #[trigger] are_nearest_first(stored_pocs(set, curr_poc), curr_poc, k),
{
    let n = set.num_negative_pics as nat;
    let m = set.num_positive_pics as nat;
    let a = stored_negative(set, curr_poc, n);
    let b = stored_positive(set, curr_poc, m);
    lemma_stored_negative_falls(set, curr_poc, n);
    lemma_stored_positive_rises(set, curr_poc, m);
    let all = stored_pocs(set, curr_poc);
    assert(all.take(a.len() as int) =~= a);
    assert(all.skip(a.len() as int) =~= b);
    assert(are_nearest_first(all, curr_poc, a.len() as int));
}

proof fn lemma_stored_negative_falls(set: H265ShortTermRefPicSet, curr_poc: i32, n: nat)
    requires
        set.wf(),
        are_spread(set),
        n <= set.num_negative_pics,
        -0x4000_0000 <= curr_poc <= 0x4000_0000,
    ensures
        are_ordered(stored_negative(set, curr_poc, n), true),
        forall|k: int|
            0 <= k < stored_negative(set, curr_poc, n).len() ==> #[trigger] stored_negative(
                set,
                curr_poc,
                n,
            )[k] < curr_poc,
        forall|k: int, j: int|
            0 <= k < stored_negative(set, curr_poc, n).len() && n <= j < set.num_negative_pics
                ==> #[trigger] stored_negative(set, curr_poc, n)[k] > curr_poc + twos_complement(
                #[trigger] set.delta_poc_s0_minus1@[j],
            ),
    decreases n,
{
    if n > 0 {
        lemma_stored_negative_falls(set, curr_poc, (n - 1) as nat);
        lemma_order_counts_are_sums(set, curr_poc, n - 1);
        let rest = stored_negative(set, curr_poc, (n - 1) as nat);
        let v = negative_poc(set, curr_poc, n - 1);
        assert(v == curr_poc + twos_complement(set.delta_poc_s0_minus1@[n - 1]));
        if mask_bit(set.used_by_curr_pic_s0_flag, n - 1) {
            assert(stored_negative(set, curr_poc, n) =~= rest + seq![v]);
            lemma_concat_is_ordered(rest, seq![v], true);
        }
    }
}

proof fn lemma_stored_positive_rises(set: H265ShortTermRefPicSet, curr_poc: i32, n: nat)
    requires
        set.wf(),
        are_spread(set),
        n <= set.num_positive_pics,
        -0x4000_0000 <= curr_poc <= 0x4000_0000,
    ensures
        are_ordered(stored_positive(set, curr_poc, n), false),
        forall|k: int|
            0 <= k < stored_positive(set, curr_poc, n).len() ==> #[trigger] stored_positive(
                set,
                curr_poc,
                n,
            )[k] > curr_poc,
        forall|k: int, j: int|
            0 <= k < stored_positive(set, curr_poc, n).len() && n <= j < set.num_positive_pics
                ==> #[trigger] stored_positive(set, curr_poc, n)[k] < curr_poc
                + #[trigger] set.delta_poc_s1_minus1@[j],
    decreases n,
{
    if n > 0 {
        lemma_stored_positive_rises(set, curr_poc, (n - 1) as nat);
        lemma_order_counts_are_sums(set, curr_poc, n - 1);
        let rest = stored_positive(set, curr_poc, (n - 1) as nat);
        let v = positive_poc(set, curr_poc, n - 1);
        assert(v == curr_poc + set.delta_poc_s1_minus1@[n - 1]);
        if mask_bit(set.used_by_curr_pic_s1_flag, n - 1) {
            assert(stored_positive(set, curr_poc, n) =~= rest + seq![v]);
            lemma_concat_is_ordered(rest, seq![v], false);
        }
    }
}

proof fn lemma_predicted_up(
    pocs: Seq<i32>,
    used: Seq<bool>,
    base: int,
    curr_poc: i32,
    delta: i32,
    before: bool,
    n: nat,
)
    requires
        n <= pocs.len(),
        are_ordered(pocs, before),
        -0x2000_0000 <= delta <= 0x2000_0000,
        forall|i: int| 0 <= i < pocs.len() ==> -0x6000_0000 <= #[trigger] pocs[i] <= 0x5FFF_FFFF,
    ensures
        ({
            let r = predicted_up(pocs, used, base, curr_poc, delta, before, n);
            &&& are_ordered(r, before)
            &&& forall|k: int|
                0 <= k < r.len() ==> is_moved(#[trigger] r[k] as int, pocs, delta, 0, n as int)
            &&& forall|k: int|
                0 <= k < r.len() ==> if before {
                    #[trigger] r[k] < curr_poc
                } else {
                    r[k] > curr_poc
                }
        }),
    decreases n,
{
    if n > 0 {
        let m = (n - 1) as nat;
        lemma_predicted_up(pocs, used, base, curr_poc, delta, before, m);
        let rest = predicted_up(pocs, used, base, curr_poc, delta, before, m);
        let own = predicted_entry(pocs[n - 1], used[base + n - 1], curr_poc, delta, before);
        let r = predicted_up(pocs, used, base, curr_poc, delta, before, n);
        assert(r == rest + own);
        assert forall|i: int, j: int| 0 <= i < rest.len() && 0 <= j < own.len() implies if before {
            #[trigger] rest[i] > #[trigger] own[j]
        } else {
            rest[i] < own[j]
        } by {
            assert(is_moved(rest[i] as int, pocs, delta, 0, m as int));
            let q = choose|q: int| 0 <= q < m && (#[trigger] pocs[q]) + delta == rest[i];
            assert(own[j] == pocs[n - 1] + delta);
        }
        lemma_concat_is_ordered(rest, own, before);
        assert forall|k: int| 0 <= k < r.len() implies is_moved(
            #[trigger] r[k] as int,
            pocs,
            delta,
            0,
            n as int,
        ) by {
            if k < rest.len() {
                assert(r[k] == rest[k]);
                let q = choose|q: int| 0 <= q < m && (#[trigger] pocs[q]) + delta == rest[k];
                assert(pocs[q] + delta == r[k]);
            } else {
                assert(pocs[n - 1] + delta == r[k]);
            }
        }
        assert forall|k: int| 0 <= k < r.len() implies if before {
            #[trigger] r[k] < curr_poc
        } else {
            r[k] > curr_poc
        } by {
            if k < rest.len() {
                assert(r[k] == rest[k]);
            } else {
                assert(r[k] == own[k - rest.len()]);
            }
        }
    }
}

#[verifier::rlimit(50)]
proof fn lemma_predicted_down(
    pocs: Seq<i32>,
    used: Seq<bool>,
    base: int,
    curr_poc: i32,
    delta: i32,
    before: bool,
    n: nat,
)
    requires
        n <= pocs.len(),
        are_ordered(pocs, !before),
        -0x2000_0000 <= delta <= 0x2000_0000,
        forall|i: int| 0 <= i < pocs.len() ==> -0x6000_0000 <= #[trigger] pocs[i] <= 0x5FFF_FFFF,
    ensures
        ({
            let r = predicted_down(pocs, used, base, curr_poc, delta, before, n);
            let len = pocs.len() as int;
            &&& are_ordered(r, before)
            &&& forall|k: int|
                0 <= k < r.len() ==> is_moved(#[trigger] r[k] as int, pocs, delta, len - n, len)
            &&& forall|k: int|
                0 <= k < r.len() ==> if before {
                    #[trigger] r[k] < curr_poc
                } else {
                    r[k] > curr_poc
                }
        }),
    decreases n,
{
    if n > 0 {
        let m = (n - 1) as nat;
        let len = pocs.len() as int;
        lemma_predicted_down(pocs, used, base, curr_poc, delta, before, m);
        let rest = predicted_down(pocs, used, base, curr_poc, delta, before, m);
        let own = predicted_entry(pocs[len - n], used[base + len - n], curr_poc, delta, before);
        let r = predicted_down(pocs, used, base, curr_poc, delta, before, n);
        assert(r == rest + own);
        assert forall|i: int, j: int| 0 <= i < rest.len() && 0 <= j < own.len() implies if before {
            #[trigger] rest[i] > #[trigger] own[j]
        } else {
            rest[i] < own[j]
        } by {
            assert(is_moved(rest[i] as int, pocs, delta, len - m, len));
            let q = choose|q: int| len - m <= q < len && (#[trigger] pocs[q]) + delta == rest[i];
            assert(own[j] == pocs[len - n] + delta);
        }
        lemma_concat_is_ordered(rest, own, before);
        assert forall|k: int| 0 <= k < r.len() implies is_moved(
            #[trigger] r[k] as int,
            pocs,
            delta,
            len - n,
            len,
        ) by {
            if k < rest.len() {
                assert(r[k] == rest[k]);
                let q = choose|q: int|
                    len - m <= q < len && (#[trigger] pocs[q]) + delta == rest[k];
                assert(pocs[q] + delta == r[k]);
            } else {
                assert(pocs[len - n] + delta == r[k]);
            }
        }
        assert forall|k: int| 0 <= k < r.len() implies if before {
            #[trigger] r[k] < curr_poc
        } else {
            r[k] > curr_poc
        } by {
            if k < rest.len() {
                assert(r[k] == rest[k]);
            } else {
                assert(r[k] == own[k - rest.len()]);
            }
        }
    }
}

/// The order counts of a predicted set come with the nearest first too, where those of the
/// set that it is predicted from do.
#[verifier::rlimit(50)]
pub proof fn law_predicted_sets_are_nearest_first(
    set: H265ShortTermRefPicSet,
    used: Seq<bool>,
    curr_poc: i32,
    delta: i32,
)
    requires
        set.wf(),
        are_spread(set),
        used.len() == set.num_negative_pics + set.num_positive_pics + 1,
        -0x2000_0000 <= curr_poc <= 0x2000_0000,
        -0x2000_0000 <= delta <= 0x2000_0000,
    ensures
        exists|k: int| #[trigger]
            are_nearest_first(predicted_pocs(set, used, curr_poc, delta), curr_poc, k),
{
    let neg = Seq::new(set.num_negative_pics as nat, |i: int| negative_poc(set, curr_poc, i));
    let pos = Seq::new(set.num_positive_pics as nat, |i: int| positive_poc(set, curr_poc, i));
    assert forall|i: int| 0 <= i < neg.len() implies #[trigger] neg[i] == curr_poc
        + twos_complement(set.delta_poc_s0_minus1@[i]) by {
        lemma_order_counts_are_sums(set, curr_poc, i);
    }
    assert forall|i: int| 0 <= i < pos.len() implies #[trigger] pos[i] == curr_poc
        + set.delta_poc_s1_minus1@[i] by {
        lemma_order_counts_are_sums(set, curr_poc, i);
    }
    let n = neg.len() as int;
    let own: Seq<i32> = if used[n + pos.len()] {
        seq![curr_poc.wrapping_add(delta)]
    } else {
        Seq::empty()
    };
    let none: Seq<i32> = Seq::empty();
    let a = predicted_down(pos, used, n, curr_poc, delta, true, pos.len());
    let b = if delta < 0 {
        own
    } else {
        none
    };
    let c = predicted_up(neg, used, 0, curr_poc, delta, true, neg.len());
    let d = predicted_down(neg, used, 0, curr_poc, delta, false, neg.len());
    let e = if delta > 0 {
        own
    } else {
        none
    };
    let f = predicted_up(pos, used, n, curr_poc, delta, false, pos.len());
    lemma_predicted_down(pos, used, n, curr_poc, delta, true, pos.len());
    lemma_predicted_up(neg, used, 0, curr_poc, delta, true, neg.len());
    lemma_predicted_down(neg, used, 0, curr_poc, delta, false, neg.len());
    lemma_predicted_up(pos, used, n, curr_poc, delta, false, pos.len());
    lemma_moved_on_one_side(a, pos, curr_poc, delta, true);
    lemma_moved_on_one_side(c, neg, curr_poc, delta, false);
    lemma_moved_on_one_side(d, neg, curr_poc, delta, false);
    lemma_moved_on_one_side(f, pos, curr_poc, delta, true);
    lemma_concat_is_ordered(a, b, true);
    let ab = a + b;
    assert forall|i: int, j: int| 0 <= i < ab.len() && 0 <= j < c.len() implies #[trigger] ab[i]
        > #[trigger] c[j] by {
        if i < a.len() {
            assert(ab[i] == a[i]);
        }
    }
    lemma_concat_is_ordered(ab, c, true);
    lemma_concat_is_ordered(d, e, false);
    let de = d + e;
    assert forall|i: int, j: int| 0 <= i < de.len() && 0 <= j < f.len() implies #[trigger] de[i]
        < #[trigger] f[j] by {
        if i < d.len() {
            assert(de[i] == d[i]);
        }
    }
    lemma_concat_is_ordered(de, f, false);
    let all = predicted_pocs(set, used, curr_poc, delta);
    let k = (a.len() + b.len() + c.len()) as int;
    assert(all =~= a + b + c + d + e + f);
    assert(all.take(k) =~= ab + c);
    assert(all.skip(k) =~= de + f);
    assert forall|i: int| 0 <= i < k implies #[trigger] all[i] < curr_poc by {
        assert(all[i] == (ab + c)[i]);
    }
    assert forall|i: int| k <= i < all.len() implies #[trigger] all[i] > curr_poc by {
        assert(all[i] == (de + f)[i - k]);
    }
    assert(are_nearest_first(all, curr_poc, k));
}

proof fn lemma_moved_on_one_side(
    r: Seq<i32>,
    pocs: Seq<i32>,
    curr_poc: i32,
    delta: i32,
    behind: bool,
)
    requires
        forall|k: int|
            0 <= k < r.len() ==> is_moved(#[trigger] r[k] as int, pocs, delta, 0, pocs.len() as int),
        forall|i: int|
            0 <= i < pocs.len() ==> if behind {
                #[trigger] pocs[i] > curr_poc
            } else {
                pocs[i] < curr_poc
            },
    ensures
        forall|k: int|
            0 <= k < r.len() ==> if behind {
                #[trigger] r[k] > curr_poc + delta
            } else {
                r[k] < curr_poc + delta
            },
{
    assert forall|k: int| 0 <= k < r.len() implies if behind {
        #[trigger] r[k] > curr_poc + delta
    } else {
        r[k] < curr_poc + delta
    } by {
        assert(is_moved(r[k] as int, pocs, delta, 0, pocs.len() as int));
        let q = choose|q: int| 0 <= q < pocs.len() && (#[trigger] pocs[q]) + delta == r[k];
        assert(pocs[q] + delta == r[k]);
    }
}

} // verus!
