//! Decoded frames, and their order of presentation.

use crate::decoder::VideoDecoder;
use crate::readback::DecodedPixels;
use vstd::prelude::*;

verus! {

/// Decoded frame with metadata for presentation ordering.
#[derive(Debug, Clone)]
pub struct DecodedFrame {
    pub poc: i32,
    pub frame_num: u32,
    pub is_idr: bool,
    pub is_reference: bool,
    pub pixels: DecodedPixels,
    pub coded_width: u32,
    pub coded_height: u32,
    pub display_width: u32,
    pub display_height: u32,
    pub crop_left: u32,
    pub crop_top: u32,
}

/// A frame put into its place in a sorted group: behind all frames of the same or
/// a lower order count at its end.
pub open spec fn placed(group: Seq<DecodedFrame>, f: DecodedFrame) -> Seq<DecodedFrame>
    decreases group.len(),
{
    if group.len() == 0 || group.last().poc <= f.poc {
        group.push(f)
    } else {
        placed(group.drop_last(), f).push(group.last())
    }
}

/// Frames sorted by order count; those with the same one stay in their order. See
/// `law_sorting`.
pub open spec fn by_poc(frames: Seq<DecodedFrame>) -> Seq<DecodedFrame>
    decreases frames.len(),
{
    if frames.len() == 0 {
        Seq::empty()
    } else {
        placed(by_poc(frames.drop_last()), frames.last())
    }
}

/// Where the last group of the first `n` frames begins: groups begin at IDR
/// frames, and at the first frame.
pub open spec fn last_group(frames: Seq<DecodedFrame>, n: int) -> int
    decreases n,
{
    if n <= 1 {
        0
    } else if frames[n - 1].is_idr {
        n - 1
    } else {
        last_group(frames, n - 1)
    }
}

/// Frames in presentation order: groups in decoding order, each of them sorted by
/// order count.
pub open spec fn presented(frames: Seq<DecodedFrame>) -> Seq<DecodedFrame>
    decreases frames.len(),
{
    let g = last_group(frames, frames.len() as int);
    if frames.len() == 0 || g < 0 || g >= frames.len() {
        Seq::empty()
    } else {
        presented(frames.take(g)) + by_poc(frames.skip(g))
    }
}

proof fn lemma_last_group(frames: Seq<DecodedFrame>, n: int)
    requires
        0 <= n <= frames.len(),
    ensures
        0 <= last_group(frames, n),
        n > 0 ==> last_group(frames, n) < n,
        forall|i: int| last_group(frames, n) < i < n ==> !(#[trigger] frames[i]).is_idr,
        last_group(frames, n) == 0 || frames[last_group(frames, n)].is_idr,
    decreases n,
{
    if n > 1 && !frames[n - 1].is_idr {
        lemma_last_group(frames, n - 1);
    }
}

proof fn lemma_last_group_of_prefix(a: Seq<DecodedFrame>, b: Seq<DecodedFrame>, n: int)
    requires
        0 <= n <= a.len(),
        n <= b.len(),
        forall|i: int| 0 <= i < n ==> #[trigger] a[i] == b[i],
    ensures
        last_group(a, n) == last_group(b, n),
    decreases n,
{
    if n > 1 {
        assert(a[n - 1] == b[n - 1]);
        lemma_last_group_of_prefix(a, b, n - 1);
    }
}

proof fn lemma_placed(group: Seq<DecodedFrame>, f: DecodedFrame, i: int)
    requires
        0 <= i <= group.len(),
        i > 0 ==> group[i - 1].poc <= f.poc,
        forall|j: int| i <= j < group.len() ==> (#[trigger] group[j]).poc > f.poc,
    ensures
        placed(group, f) == group.insert(i, f),
    decreases group.len(),
{
    if i < group.len() {
        assert(group[group.len() - 1].poc > f.poc);
        lemma_placed(group.drop_last(), f, i);
        assert(group.drop_last().insert(i, f).push(group.last()) =~= group.insert(i, f));
    } else {
        assert(group.insert(i, f) =~= group.push(f));
    }
}

proof fn lemma_by_poc_len(frames: Seq<DecodedFrame>)
    ensures
        by_poc(frames).len() == frames.len(),
        by_poc(frames).to_multiset() == frames.to_multiset(),
    decreases frames.len(),
{
    if frames.len() > 0 {
        lemma_by_poc_len(frames.drop_last());
        lemma_placed_items(by_poc(frames.drop_last()), frames.last());
        frames.drop_last().to_multiset_ensures();
        assert(frames.drop_last().push(frames.last()) =~= frames);
    } else {
        assert(by_poc(frames) =~= frames);
    }
}

proof fn lemma_placed_items(group: Seq<DecodedFrame>, f: DecodedFrame)
    ensures
        placed(group, f).len() == group.len() + 1,
        placed(group, f).to_multiset() == group.to_multiset().insert(f),
    decreases group.len(),
{
    group.to_multiset_ensures();
    if group.len() > 0 && group.last().poc > f.poc {
        let rest = group.drop_last();
        lemma_placed_items(rest, f);
        rest.to_multiset_ensures();
        placed(rest, f).to_multiset_ensures();
        assert(rest.push(group.last()) =~= group);
        assert(placed(group, f).to_multiset() =~= group.to_multiset().insert(f));
    }
}

#[verifier::rlimit(50)]
proof fn lemma_placed_sorted(group: Seq<DecodedFrame>, f: DecodedFrame)
    requires
        is_sorted(group),
    ensures
        is_sorted(placed(group, f)),
        group.len() > 0 ==> placed(group, f).last().poc == if group.last().poc <= f.poc {
            f.poc
        } else {
            group.last().poc
        },
        placed(group, f).len() > 0,
        forall|p: i32| #[trigger]
            with_poc(placed(group, f), p) == with_poc(group, p) + if f.poc == p {
                seq![f]
            } else {
                Seq::empty()
            },
    decreases group.len(),
{
    let r = placed(group, f);
    if group.len() == 0 || group.last().poc <= f.poc {
        assert forall|i: int, j: int| 0 <= i <= j < r.len() implies r[i].poc <= r[j].poc by {
            if j == group.len() && i < group.len() {
                assert(group[i].poc <= group[group.len() - 1].poc);
            }
        }
        assert(r.drop_last() =~= group);
        assert forall|p: i32| #[trigger]
            with_poc(r, p) == with_poc(group, p) + if f.poc == p {
                seq![f]
            } else {
                Seq::empty()
            } by {
            assert(with_poc(group, p) + Seq::empty() =~= with_poc(group, p));
            assert(with_poc(group, p) + seq![f] =~= with_poc(group, p).push(f));
        }
    } else {
        let rest = group.drop_last();
        let q = placed(rest, f);
        lemma_placed_sorted(rest, f);
        assert(r == q.push(group.last()));
        assert(q.last().poc <= group.last().poc) by {
            if rest.len() > 0 {
                assert(group[rest.len() - 1].poc <= group[group.len() - 1].poc);
            } else {
                assert(q =~= rest.push(f));
            }
        }
        assert forall|i: int, j: int| 0 <= i <= j < r.len() implies r[i].poc <= r[j].poc by {
            if j == q.len() && i < q.len() {
                assert(q[i].poc <= q[q.len() - 1].poc);
            }
        }
        assert(r.drop_last() =~= q);
        assert forall|p: i32| #[trigger]
            with_poc(r, p) == with_poc(group, p) + if f.poc == p {
                seq![f]
            } else {
                Seq::empty()
            } by {
            assert(with_poc(q, p) == with_poc(rest, p) + if f.poc == p {
                seq![f]
            } else {
                Seq::empty()
            });
            if group.last().poc == p {
                assert(with_poc(rest, p) + Seq::empty() =~= with_poc(rest, p));
                assert(with_poc(group, p) + Seq::empty() =~= with_poc(group, p));
            }
        }
    }
}

/// Order counts do not fall.
pub open spec fn is_sorted(frames: Seq<DecodedFrame>) -> bool {
    forall|i: int, j: int| 0 <= i <= j < frames.len() ==> frames[i].poc <= frames[j].poc
}

/// The frames of an order count, in order.
pub open spec fn with_poc(frames: Seq<DecodedFrame>, poc: i32) -> Seq<DecodedFrame>
    decreases frames.len(),
{
    if frames.len() == 0 {
        Seq::empty()
    } else if frames.last().poc == poc {
        with_poc(frames.drop_last(), poc).push(frames.last())
    } else {
        with_poc(frames.drop_last(), poc)
    }
}

/// Sorting keeps the frames, orders them by order count, and leaves frames of the
/// same order count in their order.
pub proof fn law_sorting(frames: Seq<DecodedFrame>)
    ensures
        by_poc(frames).to_multiset() == frames.to_multiset(),
        by_poc(frames).len() == frames.len(),
        is_sorted(by_poc(frames)),
        forall|p: i32| #[trigger] with_poc(by_poc(frames), p) == with_poc(frames, p),
    decreases frames.len(),
{
    lemma_by_poc_len(frames);
    if frames.len() > 0 {
        let rest = frames.drop_last();
        let f = frames.last();
        law_sorting(rest);
        lemma_placed_sorted(by_poc(rest), f);
        assert forall|p: i32| #[trigger] with_poc(by_poc(frames), p) == with_poc(frames, p) by {
            assert(with_poc(by_poc(rest), p) == with_poc(rest, p));
            assert(with_poc(rest, p) + seq![f] =~= with_poc(rest, p).push(f));
            assert(with_poc(rest, p) + Seq::empty() =~= with_poc(rest, p));
        }
    }
}

/// Frames that are in order already stay as they are.
pub proof fn law_sorted_frames_stay(frames: Seq<DecodedFrame>)
    requires
        is_sorted(frames),
    ensures
        by_poc(frames) == frames,
    decreases frames.len(),
{
    if frames.len() > 0 {
        let rest = frames.drop_last();
        assert(is_sorted(rest));
        law_sorted_frames_stay(rest);
        if rest.len() > 0 {
            assert(frames[rest.len() - 1].poc <= frames[frames.len() - 1].poc);
        }
        assert(rest.push(frames.last()) =~= frames);
    }
}

/// Reordering loses no frame and adds none.
pub proof fn law_reordering_keeps_frames(frames: Seq<DecodedFrame>)
    ensures
        presented(frames).len() == frames.len(),
        presented(frames).to_multiset() == frames.to_multiset(),
    decreases frames.len(),
{
    let n = frames.len() as int;
    lemma_last_group(frames, n);
    let g = last_group(frames, n);
    if n > 0 {
        law_reordering_keeps_frames(frames.take(g));
        lemma_by_poc_len(frames.skip(g));
        vstd::seq_lib::lemma_multiset_commutative(
            presented(frames.take(g)),
            by_poc(frames.skip(g)),
        );
        vstd::seq_lib::lemma_multiset_commutative(frames.take(g), frames.skip(g));
        assert(frames.take(g) + frames.skip(g) =~= frames);
    } else {
        assert(presented(frames) =~= frames);
    }
}

/// Frames whose order counts never fall are presented as they were decoded, however
/// many groups they make up.
pub proof fn law_ordered_frames_stay(frames: Seq<DecodedFrame>)
    requires
        is_sorted(frames),
    ensures
        presented(frames) == frames,
    decreases frames.len(),
{
    let n = frames.len() as int;
    lemma_last_group(frames, n);
    let g = last_group(frames, n);
    if n > 0 {
        assert(is_sorted(frames.take(g)));
        law_ordered_frames_stay(frames.take(g));
        let group = frames.skip(g);
        assert forall|i: int, j: int| 0 <= i <= j < group.len() implies group[i].poc
            <= group[j].poc by {
            assert(frames[g + i].poc <= frames[g + j].poc);
        }
        law_sorted_frames_stay(group);
        assert(frames.take(g) + group =~= frames);
    } else {
        assert(presented(frames) =~= frames);
    }
}

/// A stream that consists of one group is sorted by order count as a whole.
pub proof fn law_single_group_is_sorted(frames: Seq<DecodedFrame>)
    requires
        forall|i: int| 0 < i < frames.len() ==> !(#[trigger] frames[i]).is_idr,
    ensures
        presented(frames) == by_poc(frames),
{
    let n = frames.len() as int;
    lemma_last_group(frames, n);
    let g = last_group(frames, n);
    if n > 0 {
        assert(g == 0);
        assert(frames.take(0) =~= Seq::empty());
        assert(frames.skip(0) =~= frames);
        assert(presented(frames.take(0)) =~= Seq::empty());
        assert(Seq::empty() + by_poc(frames) =~= by_poc(frames));
    } else {
        assert(presented(frames) =~= by_poc(frames));
    }
}

/// Groups are kept apart: what comes before an IDR frame is presented before all
/// that follows it, and as if nothing followed.
pub proof fn law_groups_are_kept_apart(a: Seq<DecodedFrame>, b: Seq<DecodedFrame>)
    requires
        b.len() > 0 ==> b[0].is_idr,
    ensures
        presented(a + b) == presented(a) + presented(b),
    decreases b.len(),
{
    let all = a + b;
    if b.len() == 0 {
        assert(all =~= a);
        assert(presented(b) =~= Seq::empty());
        assert(presented(a) + presented(b) =~= presented(a));
    } else {
        let n = all.len() as int;
        lemma_last_group(b, b.len() as int);
        lemma_last_group(all, n);
        let g = last_group(b, b.len() as int);
        let h = last_group(all, n);
        assert(all[a.len() + g] == b[g]);
        assert(h == a.len() + g) by {
            if h < a.len() + g {
                assert(!all[a.len() + g].is_idr);
            }
            if h > a.len() + g {
                assert(all[h].is_idr);
                assert(!b[h - a.len()].is_idr);
            }
        }
        assert(all.take(h) =~= a + b.take(g));
        assert(all.skip(h) =~= b.skip(g));
        if g > 0 {
            assert(b.take(g)[0] == b[0]);
        }
        law_groups_are_kept_apart(a, b.take(g));
        assert(presented(a) + presented(b.take(g)) + by_poc(b.skip(g)) =~= presented(a) + (
        presented(b.take(g)) + by_poc(b.skip(g))));
    }
}

proof fn lemma_one_more_frame(frames: Seq<DecodedFrame>, k: int)
    requires
        0 <= k < frames.len(),
    ensures
        ({
            let before = frames.take(k);
            let now = frames.take(k + 1);
            let g = last_group(before, k);
            let f = frames[k];
            if k > 0 && !f.is_idr {
                &&& last_group(now, k + 1) == g
                &&& 0 <= g < k
                &&& presented(before) == presented(frames.take(g)) + by_poc(frames.subrange(g, k))
                &&& presented(now) == presented(frames.take(g)) + placed(
                    by_poc(frames.subrange(g, k)),
                    f,
                )
            } else {
                &&& last_group(now, k + 1) == k
                &&& presented(now) == presented(before).push(f)
            }
        }),
{
    let before = frames.take(k);
    let now = frames.take(k + 1);
    let g = last_group(before, k);
    let f = frames[k];
    lemma_last_group(before, k);
    lemma_last_group_of_prefix(before, now, k);
    if k > 0 && !f.is_idr {
        assert(before.take(g) =~= frames.take(g));
        assert(now.take(g) =~= frames.take(g));
        assert(before.skip(g) =~= frames.subrange(g, k));
        assert(now.skip(g).drop_last() =~= frames.subrange(g, k));
        assert(now.skip(g).last() == f);
    } else {
        assert(now.take(k) =~= before);
        assert(now.skip(k) =~= seq![f]);
        let one = seq![f];
        assert(one.drop_last() =~= Seq::empty());
        assert(by_poc(one.drop_last()) =~= Seq::empty());
        assert(by_poc(one) =~= one);
        assert(presented(before) + one =~= presented(before).push(f));
    }
}

impl VideoDecoder {
    /// Reorders frames from decoding order to presentation order.
    ///
    /// Order counts are unique only within a group of pictures: they begin anew at
    /// each IDR frame. So each group is sorted on its own, and the groups follow each
    /// other in decoding order.
    pub fn reorder_to_presentation(frames: Vec<DecodedFrame>) -> (result: Vec<DecodedFrame>)
        ensures
            result@ == presented(frames@),
    {
        let ghost all = frames@;
        let mut result: Vec<DecodedFrame> = Vec::new();
        let mut start: usize = 0;
        assert(all.take(0) =~= Seq::empty());
        assert(presented(all.take(0)) =~= Seq::empty());
        for frame in it: frames
            invariant
                it.seq() == all,
                0 <= it.index() <= all.len(),
                result@ == presented(all.take(it.index() as int)),
                start <= result@.len(),
                start == presented(
                    all.take(last_group(all.take(it.index() as int), it.index() as int)),
                ).len(),
        {
            let ghost k = it.index() as int;
            let ghost g = last_group(all.take(k), k);
            let ghost before = result@;
            proof {
                lemma_one_more_frame(all, k);
                law_reordering_keeps_frames(all.take(k));
            }
            if frame.is_idr && result.len() > 0 {
                start = result.len();
            }
            let mut i: usize = result.len();
            while i > start && result[i - 1].poc > frame.poc
                invariant
                    start <= i <= result@.len(),
                    result@ == before,
                    forall|j: int| i <= j < result@.len() ==> (#[trigger] result@[j]).poc > frame.poc,
                decreases i,
            {
                i = i - 1;
            }
            proof {
                if k > 0 && !frame.is_idr {
                    let group = by_poc(all.subrange(g, k));
                    let head = presented(all.take(g));
                    assert(before == head + group);
                    assert forall|j: int| i - start <= j < group.len() implies (
                    #[trigger] group[j]).poc > frame.poc by {
                        assert(before[start + j] == group[j]);
                    }
                    if i > start {
                        assert(before[i - 1] == group[i - 1 - start]);
                    }
                    lemma_placed(group, frame, i - start);
                    assert(before.insert(i as int, frame) =~= head + group.insert(i - start, frame));
                } else {
                    assert(i == before.len());
                    assert(before.insert(i as int, frame) =~= before.push(frame));
                    assert(all.take(k + 1).take(k) =~= all.take(k));
                }
            }
            result.insert(i, frame);
        }
        assert(all.take(all.len() as int) =~= all);
        result
    }
}

} // verus!
