//! Decoded picture buffer management for reference frame tracking.

use crate::access_unit::H264MmcoCommand;
use crate::codes::ImageLayout;
use vstd::prelude::*;

verus! {

/// Type of the last access to a slot.
#[derive(Debug, Clone, Copy, PartialEq, Eq, Structural)]
pub enum LastAccessType {
    DecodeWrite,
    TransferRead,
    NoAccess,
}

/// A slot that tracks a reference frame. `image_view` and `image` are handles,
/// zero where there is none.
#[derive(Debug, Clone, Copy)]
pub struct DpbEntry {
    pub frame_num: u32,
    pub pic_order_cnt: [i32; 2],
    pub slot_index: u32,
    pub is_valid: bool,
    pub image_view: u64,
    pub image: u64,
    pub current_layout: ImageLayout,
    pub last_access: LastAccessType,
}

/// Manager of the reference frames during decoding.
pub struct DpbManager {
    pub entries: Vec<DpbEntry>,
    pub max_dpb_slots: u32,
    pub next_slot: u32,
    pub max_num_ref_frames: u32,
    /// The number of frame numbers, for comparison across a wraparound.
    pub max_frame_num: u32,
}

/// Whether a list holds a value.
pub fn contains_i32(list: &[i32], v: i32) -> (r: bool)
    ensures
        r == list@.contains(v),
{
    let mut i: usize = 0;
    while i < list.len()
        invariant
            i <= list@.len(),
            forall|k: int| 0 <= k < i ==> list@[k] != v,
        decreases list@.len() - i,
    {
        if list[i] == v {
            return true;
        }
        i = i + 1;
    }
    false
}

// ---------------------------------------------------------------------------
// The sliding window
// ---------------------------------------------------------------------------

/// A frame number seen from the current one: a greater one belongs to the cycle
/// before.
pub open spec fn wrapped_frame_num(max_frame_num: u32, frame_num: u32, current: u32) -> i32 {
    if frame_num > current {
        (frame_num as i32).wrapping_sub(max_frame_num as i32)
    } else {
        frame_num as i32
    }
}

/// A valid entry other than the current frame.
pub open spec fn is_other_reference(e: DpbEntry, current: u32) -> bool {
    e.is_valid && e.frame_num != current
}

/// How many of the entries are valid and other than the current frame.
pub open spec fn count_other_references(entries: Seq<DpbEntry>, current: u32) -> nat
    decreases entries.len(),
{
    if entries.len() == 0 {
        0
    } else {
        count_other_references(entries.drop_last(), current) + if is_other_reference(
            entries.last(),
            current,
        ) {
            1nat
        } else {
            0nat
        }
    }
}

/// Entry `i` is the first of the oldest references other than the current frame.
pub open spec fn is_oldest(
    entries: Seq<DpbEntry>,
    max_frame_num: u32,
    current: u32,
    i: int,
) -> bool {
    &&& 0 <= i < entries.len()
    &&& is_other_reference(entries[i], current)
    &&& wrapped_frame_num(max_frame_num, entries[i].frame_num, current) < i32::MAX
    &&& forall|j: int|
        0 <= j < entries.len() && is_other_reference(#[trigger] entries[j], current)
            ==> wrapped_frame_num(max_frame_num, entries[i].frame_num, current)
            <= wrapped_frame_num(max_frame_num, entries[j].frame_num, current)
    &&& forall|j: int|
        0 <= j < i && is_other_reference(#[trigger] entries[j], current) ==> wrapped_frame_num(
            max_frame_num,
            entries[i].frame_num,
            current,
        ) < wrapped_frame_num(max_frame_num, entries[j].frame_num, current)
}

/// The entry without its reference mark.
pub open spec fn unmarked(e: DpbEntry) -> DpbEntry {
    DpbEntry { is_valid: false, ..e }
}

/// The greater of a number and one.
pub open spec fn at_least_one(n: u32) -> nat {
    if n == 0 {
        1
    } else {
        n as nat
    }
}

/// What the sliding window does: once there are as many other references as are
/// allowed, the oldest of them loses its mark.
pub open spec fn slid(
    before: Seq<DpbEntry>,
    after: Seq<DpbEntry>,
    max_num_ref_frames: u32,
    max_frame_num: u32,
    current: u32,
) -> bool {
    if count_other_references(before, current) >= at_least_one(max_num_ref_frames) {
        ||| exists|i: int|
            #![trigger before[i]]
            is_oldest(before, max_frame_num, current, i) && after == before.update(
                i,
                unmarked(before[i]),
            )
        ||| (after == before && forall|i: int|
            #![trigger before[i]]
            !is_oldest(before, max_frame_num, current, i))
    } else {
        after == before
    }
}

proof fn lemma_count_update(entries: Seq<DpbEntry>, current: u32, i: int)
    requires
        0 <= i < entries.len(),
        is_other_reference(entries[i], current),
    ensures
        count_other_references(entries.update(i, unmarked(entries[i])), current) + 1
            == count_other_references(entries, current),
    decreases entries.len(),
{
    let after = entries.update(i, unmarked(entries[i]));
    if i == entries.len() - 1 {
        assert(after.drop_last() =~= entries.drop_last());
    } else {
        lemma_count_update(entries.drop_last(), current, i);
        assert(after.drop_last() =~= entries.drop_last().update(
            i,
            unmarked(entries.drop_last()[i]),
        ));
    }
}

/// There is an oldest reference where there is any reference whose wrapped frame
/// number can be exceeded.
proof fn lemma_oldest_exists(
    entries: Seq<DpbEntry>,
    max_frame_num: u32,
    current: u32,
    n: nat,
) -> (i: int)
    requires
        n <= entries.len(),
        exists|k: int|
            #![trigger entries[k]]
            0 <= k < n && is_other_reference(entries[k], current) && wrapped_frame_num(
                max_frame_num,
                entries[k].frame_num,
                current,
            ) < i32::MAX,
    ensures
        is_oldest(entries.take(n as int), max_frame_num, current, i),
    decreases n,
{
    let t = entries.take(n as int);
    let m = n - 1;
    let w = |k: int| wrapped_frame_num(max_frame_num, entries[k].frame_num, current);
    let s = entries.take(m);
    if exists|k: int|
        #![trigger entries[k]]
        0 <= k < m && is_other_reference(entries[k], current) && w(k) < i32::MAX {
        let p = lemma_oldest_exists(entries, max_frame_num, current, m as nat);
        if is_other_reference(entries[m], current) && w(m) < w(p) {
            assert forall|j: int| 0 <= j < t.len() && is_other_reference(#[trigger] t[j], current) implies w(m)
                <= w(j) by {
                if j < m {
                    assert(s[j] == t[j]);
                }
            }
            assert forall|j: int| 0 <= j < m && is_other_reference(#[trigger] t[j], current) implies w(m)
                < w(j) by {
                assert(s[j] == t[j]);
            }
            m
        } else {
            assert forall|j: int| 0 <= j < t.len() && is_other_reference(#[trigger] t[j], current) implies w(p)
                <= w(j) by {
                if j < m {
                    assert(s[j] == t[j]);
                }
            }
            assert forall|j: int| 0 <= j < p && is_other_reference(#[trigger] t[j], current) implies w(p)
                < w(j) by {
                assert(s[j] == t[j]);
            }
            p
        }
    } else {
        assert forall|j: int| 0 <= j < m && is_other_reference(#[trigger] t[j], current) implies w(m) < w(
            j,
        ) by {
            assert(t[j] == entries[j]);
        }
        m
    }
}

/// The sliding window makes room: as long as frame numbers stay below two to the
/// power of 31, it takes away exactly one reference where there are too many,
/// and never the current frame.
pub proof fn law_sliding_window_makes_room(
    before: Seq<DpbEntry>,
    after: Seq<DpbEntry>,
    max_num_ref_frames: u32,
    max_frame_num: u32,
    current: u32,
)
    requires
        slid(before, after, max_num_ref_frames, max_frame_num, current),
        forall|i: int| 0 <= i < before.len() ==> (#[trigger] before[i]).frame_num < 0x7FFF_FFFF,
        max_frame_num < 0x8000_0000,
    ensures
        count_other_references(before, current) >= at_least_one(max_num_ref_frames)
            ==> count_other_references(after, current) == count_other_references(before, current)
            - 1,
        count_other_references(before, current) < at_least_one(max_num_ref_frames) ==> after
            == before,
        forall|i: int|
            0 <= i < before.len() && before[i].frame_num == current ==> #[trigger] after[i]
                == before[i],
        after.len() == before.len(),
{
    if count_other_references(before, current) >= at_least_one(max_num_ref_frames) {
        lemma_some_reference(before, current);
        let k = choose|k: int|
            #![trigger before[k]]
            0 <= k < before.len() && is_other_reference(before[k], current);
        assert(before[k].frame_num < 0x7FFF_FFFF);
        let o = lemma_oldest_exists(before, max_frame_num, current, before.len());
        assert(before.take(before.len() as int) =~= before);
        assert(is_oldest(before, max_frame_num, current, o));
        assert(before[o] == before[o]);
        let i = choose|i: int|
            #![trigger before[i]]
            is_oldest(before, max_frame_num, current, i) && after == before.update(
                i,
                unmarked(before[i]),
            );
        lemma_count_update(before, current, i);
    }
}

proof fn lemma_some_reference(entries: Seq<DpbEntry>, current: u32)
    requires
        count_other_references(entries, current) > 0,
    ensures
        exists|k: int|
            #![trigger entries[k]]
            0 <= k < entries.len() && is_other_reference(entries[k], current),
    decreases entries.len(),
{
    if is_other_reference(entries.last(), current) {
        assert(is_other_reference(entries[entries.len() - 1], current));
    } else {
        lemma_some_reference(entries.drop_last(), current);
        let k = choose|k: int|
            #![trigger entries.drop_last()[k]]
            0 <= k < entries.drop_last().len() && is_other_reference(
                entries.drop_last()[k],
                current,
            );
        assert(is_other_reference(entries[k], current));
    }
}

/// How many frames ago a frame number was given, in a cycle of frame numbers.
pub open spec fn age(frame_num: int, current: int, max_frame_num: int) -> int {
    (current - frame_num) % max_frame_num
}

/// The sliding window takes the mark of the longest ago reference: of those other than
/// the current frame none was given its number longer ago, in the cycle of frame numbers.
/// It takes one mark where the others are as many as are allowed, and none otherwise.
pub proof fn law_oldest_reference_slides_out(
    before: Seq<DpbEntry>,
    after: Seq<DpbEntry>,
    max_num_ref_frames: u32,
    max_frame_num: u32,
    current: u32,
    i: int,
    j: int,
)
    requires
        slid(before, after, max_num_ref_frames, max_frame_num, current),
        current < max_frame_num < 0x7FFF_FFFF,
        forall|k: int| 0 <= k < before.len() ==> (#[trigger] before[k]).frame_num < max_frame_num,
        0 <= i < before.len(),
        0 <= j < before.len(),
        before[i].is_valid && !after[i].is_valid,
        before[j].is_valid && before[j].frame_num != current,
    ensures
        before[i].frame_num != current,
        age(before[i].frame_num as int, current as int, max_frame_num as int) >= age(
            before[j].frame_num as int,
            current as int,
            max_frame_num as int,
        ),
        j != i ==> after[j] == before[j],
        after[i] == (DpbEntry { is_valid: false, ..before[i] }),
{
    let m = max_frame_num as int;
    let o = choose|o: int|
        #![trigger before[o]]
        is_oldest(before, max_frame_num, current, o) && after == before.update(
            o,
            unmarked(before[o]),
        );
    assert(o == i);
    assert(before[i].frame_num < max_frame_num && before[j].frame_num < max_frame_num);
    lemma_age(before[i].frame_num, current, max_frame_num);
    lemma_age(before[j].frame_num, current, max_frame_num);
}

proof fn lemma_age(frame_num: u32, current: u32, max_frame_num: u32)
    requires
        frame_num < max_frame_num,
        current < max_frame_num < 0x7FFF_FFFF,
    ensures
        age(frame_num as int, current as int, max_frame_num as int) == current - wrapped_frame_num(
            max_frame_num,
            frame_num,
            current,
        ),
{
    let m = max_frame_num as int;
    let x = current - frame_num;
    if frame_num > current {
        vstd::arithmetic::div_mod::lemma_mod_add_multiples_vanish(x, m);
        vstd::arithmetic::div_mod::lemma_small_mod((x + m) as nat, m as nat);
        assert((m + x) % m == x % m);
    } else {
        vstd::arithmetic::div_mod::lemma_small_mod(x as nat, m as nat);
    }
}

/// How many references other than the current frame there are is told by their places.
pub proof fn law_other_references_are_counted(entries: Seq<DpbEntry>, current: u32)
    ensures
        count_other_references(entries, current) == Set::new(
            |i: int| 0 <= i < entries.len() && entries[i].is_valid && entries[i].frame_num != current,
        ).len(),
        Set::new(
            |i: int| 0 <= i < entries.len() && entries[i].is_valid && entries[i].frame_num != current,
        ).finite(),
    decreases entries.len(),
{
    let places = |l: Seq<DpbEntry>|
        Set::new(|i: int| 0 <= i < l.len() && l[i].is_valid && l[i].frame_num != current);
    let all = places(entries);
    assert(all =~= Set::new(
        |i: int| 0 <= i < entries.len() && entries[i].is_valid && entries[i].frame_num != current,
    ));
    if entries.len() == 0 {
        assert(all =~= Set::empty());
    } else {
        let rest = entries.drop_last();
        law_other_references_are_counted(rest, current);
        let some = places(rest);
        assert(some =~= Set::new(
            |i: int| 0 <= i < rest.len() && rest[i].is_valid && rest[i].frame_num != current,
        ));
        let n = entries.len() - 1;
        if entries[n].is_valid && entries[n].frame_num != current {
            assert(all =~= some.insert(n));
        } else {
            assert(all =~= some);
        }
    }
}

// ---------------------------------------------------------------------------
// Marking commands
// ---------------------------------------------------------------------------

/// The frame number that lies `difference_minus1 + 1` before the current one.
pub open spec fn pic_num_before(
    max_frame_num: u32,
    current: u32,
    difference_minus1: u32,
) -> u32 {
    let diff = difference_minus1.wrapping_add(1);
    if current >= diff {
        (current - diff) as u32
    } else {
        max_frame_num.wrapping_add(current).wrapping_sub(diff)
    }
}

/// An entry after one marking command. Commands on long-term references leave
/// it as it is.
pub open spec fn entry_after_mmco(
    e: DpbEntry,
    cmd: H264MmcoCommand,
    max_frame_num: u32,
    current: u32,
) -> DpbEntry {
    match cmd {
        H264MmcoCommand::UnmarkShortTerm { difference_of_pic_nums_minus1 } => if e.frame_num
            == pic_num_before(max_frame_num, current, difference_of_pic_nums_minus1) {
            unmarked(e)
        } else {
            e
        },
        H264MmcoCommand::UnmarkAll => unmarked(e),
        _ => e,
    }
}

/// An entry after the first `n` marking commands.
pub open spec fn entry_after_mmcos(
    e: DpbEntry,
    cmds: Seq<H264MmcoCommand>,
    n: nat,
    max_frame_num: u32,
    current: u32,
) -> DpbEntry
    decreases n,
{
    if n == 0 {
        e
    } else {
        entry_after_mmco(
            entry_after_mmcos(e, cmds, (n - 1) as nat, max_frame_num, current),
            cmds[n - 1],
            max_frame_num,
            current,
        )
    }
}

/// Marking commands never mark a reference, and the command to unmark all
/// references leaves none.
pub proof fn law_mmco_only_unmarks(
    e: DpbEntry,
    cmds: Seq<H264MmcoCommand>,
    n: nat,
    max_frame_num: u32,
    current: u32,
)
    requires
        n <= cmds.len(),
    ensures
        ({
            let after = entry_after_mmcos(e, cmds, n, max_frame_num, current);
            &&& after == e || after == unmarked(e)
            &&& (exists|k: int| 0 <= k < n && (#[trigger] cmds[k]) is UnmarkAll) ==> !after.is_valid
        }),
    decreases n,
{
    if n > 0 {
        law_mmco_only_unmarks(e, cmds, (n - 1) as nat, max_frame_num, current);
        let m = (n - 1) as nat;
        if exists|k: int| 0 <= k < n && (#[trigger] cmds[k]) is UnmarkAll {
            let k = choose|k: int| 0 <= k < n && (#[trigger] cmds[k]) is UnmarkAll;
            if k < m {
                assert(cmds[k] is UnmarkAll);
            }
        }
    }
}

/// A command takes the mark of a frame: the one to unmark all does, and the one that
/// counts back does if the frame lies as many numbers before the current one as it says,
/// in the cycle of frame numbers.
pub open spec fn takes_mark(
    cmd: H264MmcoCommand,
    frame_num: int,
    max_frame_num: int,
    current: int,
) -> bool {
    match cmd {
        H264MmcoCommand::UnmarkShortTerm { difference_of_pic_nums_minus1 } => {
            let back = difference_of_pic_nums_minus1 + 1;
            if back <= current {
                frame_num + back == current
            } else {
                frame_num + back == current + max_frame_num
            }
        },
        H264MmcoCommand::UnmarkAll => true,
        _ => false,
    }
}

/// A command counts back no further than a cycle of frame numbers.
pub open spec fn counts_within_cycle(cmd: H264MmcoCommand, max_frame_num: int) -> bool {
    cmd matches H264MmcoCommand::UnmarkShortTerm { difference_of_pic_nums_minus1 }
        ==> difference_of_pic_nums_minus1 + 1 <= max_frame_num
}

/// A command that counts back takes the mark of the frame that lies as many numbers
/// before the current one as it says, and of no other; it leaves all else of an entry.
pub proof fn law_counting_back_unmarks(
    e: DpbEntry,
    difference_minus1: u32,
    max_frame_num: u32,
    current: u32,
)
    requires
        difference_minus1 + 1 <= current || difference_minus1 + 1 <= max_frame_num,
        difference_minus1 < u32::MAX,
        current + max_frame_num <= u32::MAX,
    ensures
        ({
            let cmd = H264MmcoCommand::UnmarkShortTerm {
                difference_of_pic_nums_minus1: difference_minus1,
            };
            let after = entry_after_mmcos(e, seq![cmd], 1, max_frame_num, current);
            let back = difference_minus1 + 1;
            let is_named = if back <= current {
                e.frame_num + back == current
            } else {
                e.frame_num + back == current + max_frame_num
            };
            &&& after.is_valid == (e.is_valid && !is_named)
            &&& after == (DpbEntry { is_valid: after.is_valid, ..e })
        }),
{
    let cmd = H264MmcoCommand::UnmarkShortTerm { difference_of_pic_nums_minus1: difference_minus1 };
    let cmds = seq![cmd];
    assert(cmds[0] == cmd);
    assert(entry_after_mmcos(e, cmds, 0, max_frame_num, current) == e);
    assert(entry_after_mmcos(e, cmds, 1, max_frame_num, current) == entry_after_mmco(
        entry_after_mmcos(e, cmds, 0, max_frame_num, current),
        cmds[0],
        max_frame_num,
        current,
    ));
}

/// A frame stays a reference exactly if it was one and none of the commands takes its
/// mark.
pub proof fn law_commands_unmark_what_they_name(
    e: DpbEntry,
    cmds: Seq<H264MmcoCommand>,
    n: nat,
    max_frame_num: u32,
    current: u32,
)
    requires
        n <= cmds.len(),
        current + max_frame_num <= u32::MAX,
        forall|k: int|
            0 <= k < n ==> counts_within_cycle(#[trigger] cmds[k], max_frame_num as int),
    ensures
        entry_after_mmcos(e, cmds, n, max_frame_num, current).is_valid <==> e.is_valid && forall|
            k: int,
        |
            0 <= k < n ==> !takes_mark(
                #[trigger] cmds[k],
                e.frame_num as int,
                max_frame_num as int,
                current as int,
            ),
        entry_after_mmcos(e, cmds, n, max_frame_num, current).frame_num == e.frame_num,
    decreases n,
{
    if n > 0 {
        let k = (n - 1) as nat;
        law_commands_unmark_what_they_name(e, cmds, k, max_frame_num, current);
        let before = entry_after_mmcos(e, cmds, k, max_frame_num, current);
        let after = entry_after_mmcos(e, cmds, n, max_frame_num, current);
        let cmd = cmds[n - 1];
        assert(counts_within_cycle(cmd, max_frame_num as int));
        assert(after == entry_after_mmco(before, cmd, max_frame_num, current));
        assert(after.is_valid == (before.is_valid && !takes_mark(
            cmd,
            e.frame_num as int,
            max_frame_num as int,
            current as int,
        )));
        if after.is_valid {
            assert forall|j: int| 0 <= j < n implies !takes_mark(
                #[trigger] cmds[j],
                e.frame_num as int,
                max_frame_num as int,
                current as int,
            ) by {
                if j < k {
                    assert(cmds[j] == cmds[j]);
                }
            }
        }
    }
}

// ---------------------------------------------------------------------------
// Slots
// ---------------------------------------------------------------------------

/// Slot `i` can be recycled for a frame that needs the protected order counts.
pub open spec fn is_recyclable(e: DpbEntry, protected_pocs: Seq<i32>) -> bool {
    e.is_valid && !protected_pocs.contains(e.pic_order_cnt@[0]) && e.pic_order_cnt@[0] < i32::MAX
}

/// Which slot is used next: the first free one; where all are taken, the first
/// of those with the lowest order count that is not protected; none where all
/// are protected.
pub open spec fn is_next_slot(
    entries: Seq<DpbEntry>,
    protected_pocs: Seq<i32>,
    r: Option<u32>,
) -> bool {
    if exists|i: int| 0 <= i < entries.len() && !(#[trigger] entries[i]).is_valid {
        &&& r matches Some(s)
        &&& s < entries.len()
        &&& !entries[s as int].is_valid
        &&& forall|j: int| 0 <= j < s ==> (#[trigger] entries[j]).is_valid
    } else {
        match r {
            Some(s) => {
                &&& s < entries.len()
                &&& is_recyclable(entries[s as int], protected_pocs)
                &&& forall|j: int|
                    0 <= j < entries.len() && is_recyclable(#[trigger] entries[j], protected_pocs)
                        ==> entries[s as int].pic_order_cnt@[0] <= entries[j].pic_order_cnt@[0]
                &&& forall|j: int|
                    0 <= j < s && is_recyclable(#[trigger] entries[j], protected_pocs)
                        ==> entries[s as int].pic_order_cnt@[0] < entries[j].pic_order_cnt@[0]
            },
            None => forall|j: int|
                0 <= j < entries.len() ==> !is_recyclable(#[trigger] entries[j], protected_pocs),
        }
    }
}

/// Slot `i` is not among the excluded ones.
pub open spec fn is_allowed(i: int, exclude_slots: Seq<i32>) -> bool {
    !exclude_slots.contains(i as i32)
}

/// Slot `i` can be recycled for a frame that needs the excluded slots.
pub open spec fn is_recyclable_slot(
    entries: Seq<DpbEntry>,
    exclude_slots: Seq<i32>,
    i: int,
) -> bool {
    entries[i].is_valid && is_allowed(i, exclude_slots) && entries[i].frame_num < u32::MAX
}

/// Which slot is used next where some are excluded: the first free one that is
/// allowed; where there is none, the first of those allowed with the lowest frame
/// number; none where all are excluded.
pub open spec fn is_next_allowed_slot(
    entries: Seq<DpbEntry>,
    exclude_slots: Seq<i32>,
    r: Option<u32>,
) -> bool {
    if exists|i: int|
        0 <= i < entries.len() && !(#[trigger] entries[i]).is_valid && is_allowed(
            i,
            exclude_slots,
        ) {
        &&& r matches Some(s)
        &&& s < entries.len()
        &&& !entries[s as int].is_valid
        &&& is_allowed(s as int, exclude_slots)
        &&& forall|j: int|
            0 <= j < s ==> (#[trigger] entries[j]).is_valid || !is_allowed(j, exclude_slots)
    } else {
        match r {
            Some(s) => {
                &&& s < entries.len()
                &&& is_recyclable_slot(entries, exclude_slots, s as int)
                &&& forall|j: int|
                    0 <= j < entries.len() && #[trigger] is_recyclable_slot(
                        entries,
                        exclude_slots,
                        j,
                    ) ==> entries[s as int].frame_num <= entries[j].frame_num
                &&& forall|j: int|
                    0 <= j < s && #[trigger] is_recyclable_slot(entries, exclude_slots, j)
                        ==> entries[s as int].frame_num < entries[j].frame_num
            },
            None => forall|j: int|
                0 <= j < entries.len() ==> !#[trigger] is_recyclable_slot(
                    entries,
                    exclude_slots,
                    j,
                ),
        }
    }
}

/// A slot that is used next never holds a picture that the frame needs.
pub proof fn law_next_slot_spares_references(
    entries: Seq<DpbEntry>,
    protected_pocs: Seq<i32>,
    exclude_slots: Seq<i32>,
    r: Option<u32>,
    q: Option<u32>,
)
    requires
        is_next_slot(entries, protected_pocs, r),
        is_next_allowed_slot(entries, exclude_slots, q),
    ensures
        r matches Some(s) ==> s < entries.len() && !(entries[s as int].is_valid
            && protected_pocs.contains(entries[s as int].pic_order_cnt@[0])),
        q matches Some(s) ==> s < entries.len() && !exclude_slots.contains(s as i32),
{
}

/// A frame goes into a free slot as long as there is one: the first of them. Where all are
/// taken it takes the place of a picture that is not protected, of which none other comes
/// before it in order.
pub proof fn law_next_slot_is_free_or_lowest(
    entries: Seq<DpbEntry>,
    protected_pocs: Seq<i32>,
    s: u32,
    j: int,
)
    requires
        is_next_slot(entries, protected_pocs, Some(s)),
        0 <= j < entries.len(),
    ensures
        s < entries.len(),
        !entries[j].is_valid ==> !entries[s as int].is_valid && s <= j,
        entries[s as int].is_valid ==> !protected_pocs.contains(
            entries[s as int].pic_order_cnt@[0],
        ) && (!protected_pocs.contains(entries[j].pic_order_cnt@[0]) ==> entries[s as int].pic_order_cnt@[0]
            <= entries[j].pic_order_cnt@[0]),
{
}

/// Where some slots are excluded, a frame goes into the first free slot that is not, as
/// long as there is one; otherwise into one of those whose frame number is lowest.
pub proof fn law_next_allowed_slot_is_free_or_lowest(
    entries: Seq<DpbEntry>,
    exclude_slots: Seq<i32>,
    s: u32,
    j: int,
)
    requires
        is_next_allowed_slot(entries, exclude_slots, Some(s)),
        0 <= j < entries.len() <= 0x7FFF_FFFF,
    ensures
        s < entries.len(),
        !exclude_slots.contains(s as i32),
        !entries[j].is_valid && !exclude_slots.contains(j as i32) ==> !entries[s as int].is_valid && s
            <= j,
        entries[s as int].is_valid && !exclude_slots.contains(j as i32)
            ==> entries[s as int].frame_num <= entries[j].frame_num,
{
    assert(is_allowed(j, exclude_slots) <==> !exclude_slots.contains(j as i32));
    if entries[j].is_valid && entries[j].frame_num < u32::MAX {
        assert(is_allowed(j, exclude_slots) ==> is_recyclable_slot(entries, exclude_slots, j));
    }
}

/// There is a slot for a frame as long as one is free or holds a picture that is not
/// protected.
pub proof fn law_there_is_a_next_slot(
    entries: Seq<DpbEntry>,
    protected_pocs: Seq<i32>,
    r: Option<u32>,
    j: int,
)
    requires
        is_next_slot(entries, protected_pocs, r),
        0 <= j < entries.len(),
        !entries[j].is_valid || (!protected_pocs.contains(entries[j].pic_order_cnt@[0])
            && entries[j].pic_order_cnt@[0] < i32::MAX),
    ensures
        r is Some,
{
}

/// The entries of new and of forgotten slots are free, in no layout, and were not
/// accessed; what is forgotten keeps its place and its image.
pub proof fn law_free_entries(i: u32, e: DpbEntry)
    ensures
        !blank_entry(i as int).is_valid,
        blank_entry(i as int).slot_index == i,
        blank_entry(i as int).image == 0 && blank_entry(i as int).image_view == 0,
        blank_entry(i as int).current_layout == ImageLayout::Undefined,
        blank_entry(i as int).last_access == LastAccessType::NoAccess,
        !forgotten(e).is_valid,
        forgotten(e).slot_index == e.slot_index,
        forgotten(e).image == e.image && forgotten(e).image_view == e.image_view,
        forgotten(e).frame_num == e.frame_num,
        forgotten(e).pic_order_cnt == e.pic_order_cnt,
        forgotten(e).current_layout == ImageLayout::Undefined,
        forgotten(e).last_access == LastAccessType::NoAccess,
{
}

/// The references are the valid entries, each once and in order.
pub proof fn law_references_are_valid_entries(entries: Seq<DpbEntry>)
    ensures
        valid_places(entries).len() == valid_entries(entries).len(),
        forall|k: int|
            0 <= k < valid_places(entries).len() ==> 0 <= #[trigger] valid_places(entries)[k]
                < entries.len() && entries[valid_places(entries)[k]].is_valid && valid_entries(
                entries,
            )[k] == entries[valid_places(entries)[k]],
        forall|i: int|
            0 <= i < entries.len() && (#[trigger] entries[i]).is_valid ==> valid_places(
                entries,
            ).contains(i),
        forall|j: int, k: int|
            0 <= j < k < valid_places(entries).len() ==> valid_places(entries)[j] < valid_places(
                entries,
            )[k],
    decreases entries.len(),
{
    if entries.len() > 0 {
        let rest = entries.drop_last();
        law_references_are_valid_entries(rest);
        let p = valid_places(rest);
        let all = valid_places(entries);
        assert forall|i: int| 0 <= i < entries.len() && (#[trigger] entries[i]).is_valid implies all.contains(
            i,
        ) by {
            if i < rest.len() {
                assert(rest[i].is_valid);
                let k = choose|k: int| 0 <= k < p.len() && p[k] == i;
                assert(all[k] == i);
            } else {
                assert(all[all.len() - 1] == i);
            }
        }
        assert forall|k: int| 0 <= k < all.len() implies 0 <= #[trigger] all[k] < entries.len()
            && entries[all[k]].is_valid && valid_entries(entries)[k] == entries[all[k]] by {
            if k < p.len() {
                assert(all[k] == p[k]);
                assert(rest[p[k]] == entries[p[k]]);
            }
        }
    }
}

/// A free entry.
pub open spec fn blank_entry(i: int) -> DpbEntry {
    DpbEntry {
        frame_num: 0,
        pic_order_cnt: [0i32, 0i32],
        slot_index: i as u32,
        is_valid: false,
        image_view: 0,
        image: 0,
        current_layout: ImageLayout::Undefined,
        last_access: LastAccessType::NoAccess,
    }
}

/// An entry that nothing is known of any more.
pub open spec fn forgotten(e: DpbEntry) -> DpbEntry {
    DpbEntry {
        is_valid: false,
        current_layout: ImageLayout::Undefined,
        last_access: LastAccessType::NoAccess,
        ..e
    }
}

/// The places of the valid entries, in order.
pub open spec fn valid_places(entries: Seq<DpbEntry>) -> Seq<int>
    decreases entries.len(),
{
    if entries.len() == 0 {
        Seq::empty()
    } else {
        let rest = valid_places(entries.drop_last());
        if entries.last().is_valid {
            rest.push(entries.len() - 1)
        } else {
            rest
        }
    }
}

/// The valid entries, in order.
pub open spec fn valid_entries(entries: Seq<DpbEntry>) -> Seq<DpbEntry>
    decreases entries.len(),
{
    if entries.len() == 0 {
        Seq::empty()
    } else {
        let rest = valid_entries(entries.drop_last());
        if entries.last().is_valid {
            rest.push(entries.last())
        } else {
            rest
        }
    }
}

impl DpbManager {
    /// There is an entry for each slot.
    pub open spec fn wf(&self) -> bool {
        self.entries@.len() == self.max_dpb_slots
    }

    /// Only the entries may differ.
    pub open spec fn same_limits(&self, other: &DpbManager) -> bool {
        &&& self.max_dpb_slots == other.max_dpb_slots
        &&& self.next_slot == other.next_slot
        &&& self.max_num_ref_frames == other.max_num_ref_frames
        &&& self.max_frame_num == other.max_frame_num
    }

    /// A manager of free slots.
    pub fn new(max_dpb_slots: u32) -> (m: DpbManager)
        ensures
            m.wf(),
            m.entries@ == Seq::new(max_dpb_slots as nat, |i: int| blank_entry(i)),
            m.max_dpb_slots == max_dpb_slots,
            m.next_slot == 0,
            m.max_num_ref_frames == 16,
            m.max_frame_num == 64,
    {
        let mut entries: Vec<DpbEntry> = Vec::new();
        let mut i: u32 = 0;
        while i < max_dpb_slots
            invariant
                i <= max_dpb_slots,
                entries@ == Seq::new(i as nat, |k: int| blank_entry(k)),
            decreases max_dpb_slots - i,
        {
            entries.push(
                DpbEntry {
                    frame_num: 0,
                    pic_order_cnt: [0, 0],
                    slot_index: i,
                    is_valid: false,
                    image_view: 0,
                    image: 0,
                    current_layout: ImageLayout::Undefined,
                    last_access: LastAccessType::NoAccess,
                },
            );
            i = i + 1;
        }
        DpbManager {
            entries,
            max_dpb_slots,
            next_slot: 0,
            max_num_ref_frames: 16,
            max_frame_num: 64,
        }
    }

    /// Sets how many reference frames the sliding window allows.
    pub fn set_max_num_ref_frames(&mut self, max_num_ref_frames: u32)
        ensures
            *final(self) == (DpbManager { max_num_ref_frames, ..*old(self) }),
    {
        self.max_num_ref_frames = max_num_ref_frames;
    }

    /// Sets the number of frame numbers, two to the power of
    /// `log2_max_frame_num_minus4 + 4`, for comparison across a wraparound.
    pub fn set_max_frame_num(&mut self, max_frame_num: u32)
        ensures
            *final(self) == (DpbManager { max_frame_num, ..*old(self) }),
    {
        self.max_frame_num = max_frame_num;
    }

    /// A frame number seen from the current one; negative for the cycle before.
    pub fn frame_num_wrap(&self, entry_frame_num: u32, current_frame_num: u32) -> (r: i32)
        ensures
            r == wrapped_frame_num(self.max_frame_num, entry_frame_num, current_frame_num),
            entry_frame_num <= 0x7FFF_FFFF && entry_frame_num <= current_frame_num ==> r
                == entry_frame_num,
            entry_frame_num <= 0x7FFF_FFFF && self.max_frame_num <= 0x7FFF_FFFF && entry_frame_num
                > current_frame_num ==> r == entry_frame_num - self.max_frame_num,
    {
        if entry_frame_num > current_frame_num {
            (entry_frame_num as i32).wrapping_sub(self.max_frame_num as i32)
        } else {
            entry_frame_num as i32
        }
    }

    /// Applies sliding window reference picture marking.
    pub fn apply_sliding_window(&mut self, current_frame_num: u32)
        ensures
            final(self).same_limits(old(self)),
            final(self).entries@.len() == old(self).entries@.len(),
            slid(
                old(self).entries@,
                final(self).entries@,
                old(self).max_num_ref_frames,
                old(self).max_frame_num,
                current_frame_num,
            ),
    {
        let max_refs: usize = if self.max_num_ref_frames == 0 {
            1
        } else {
            self.max_num_ref_frames as usize
        };
        let ghost before = self.entries@;
        let ghost max = self.max_frame_num;
        let mut count: usize = 0;
        let mut i: usize = 0;
        while i < self.entries.len()
            invariant
                i <= self.entries@.len(),
                count <= i,
                *self == *old(self),
                before == self.entries@,
                count == count_other_references(before.take(i as int), current_frame_num),
            decreases self.entries@.len() - i,
        {
            let e: DpbEntry = self.entries[i];
            proof {
                assert(before.take(i + 1).drop_last() =~= before.take(i as int));
            }
            if e.is_valid && e.frame_num != current_frame_num {
                count = count + 1;
            }
            i = i + 1;
        }
        proof {
            assert(before.take(i as int) =~= before);
        }
        if count < max_refs {
            return;
        }
        let mut oldest: Option<usize> = None;
        let mut oldest_wrap: i32 = i32::MAX;
        let mut k: usize = 0;
        while k < self.entries.len()
            invariant
                k <= self.entries@.len(),
                *self == *old(self),
                before == self.entries@,
                max == self.max_frame_num,
                match oldest {
                    Some(o) => {
                        &&& is_oldest(before.take(k as int), max, current_frame_num, o as int)
                        &&& o < k
                        &&& oldest_wrap == wrapped_frame_num(
                            max,
                            before[o as int].frame_num,
                            current_frame_num,
                        )
                    },
                    None => {
                        &&& oldest_wrap == i32::MAX
                        &&& forall|j: int|
                            0 <= j < k && is_other_reference(#[trigger] before[j], current_frame_num)
                                ==> wrapped_frame_num(max, before[j].frame_num, current_frame_num)
                                == i32::MAX
                    },
                },
            decreases self.entries@.len() - k,
        {
            let e: DpbEntry = self.entries[k];
            let ghost prev = before.take(k as int);
            let ghost next = before.take(k + 1);
            assert forall|j: int| 0 <= j < k implies #[trigger] next[j] == prev[j] && next[j]
                == before[j] by {}
            if e.is_valid && e.frame_num != current_frame_num {
                let wrap: i32 = self.frame_num_wrap(e.frame_num, current_frame_num);
                if wrap < oldest_wrap {
                    oldest_wrap = wrap;
                    oldest = Some(k);
                }
            }
            k = k + 1;
        }
        assert(before.take(k as int) =~= before);
        match oldest {
            Some(o) => {
                let mut e: DpbEntry = self.entries[o];
                e.is_valid = false;
                self.entries.set(o, e);
                proof {
                    assert(is_oldest(before, max, current_frame_num, o as int));
                    assert(before[o as int] == before[o as int]);
                }
            },
            None => {},
        }
    }

    /// Applies H.264 memory management control operations, where the current
    /// picture has `current_frame_num` and lies in `current_slot_index`.
    pub fn apply_mmco(
        &mut self,
        current_frame_num: u32,
        current_slot_index: u32,
        mmco_commands: &[H264MmcoCommand],
    )
        ensures
            final(self).same_limits(old(self)),
            final(self).entries@ == old(self).entries@.map_values(
                |e: DpbEntry|
                    entry_after_mmcos(
                        e,
                        mmco_commands@,
                        mmco_commands@.len(),
                        old(self).max_frame_num,
                        current_frame_num,
                    ),
            ),
    {
        let _ = current_slot_index;
        let ghost max = self.max_frame_num;
        let ghost before = self.entries@;
        let mut c: usize = 0;
        assert(self.entries@ =~= before.map_values(
            |e: DpbEntry| entry_after_mmcos(e, mmco_commands@, 0, max, current_frame_num),
        ));
        while c < mmco_commands.len()
            invariant
                c <= mmco_commands@.len(),
                max == self.max_frame_num,
                self.same_limits(old(self)),
                self.entries@ == before.map_values(
                    |e: DpbEntry|
                        entry_after_mmcos(e, mmco_commands@, c as nat, max, current_frame_num),
                ),
            decreases mmco_commands@.len() - c,
        {
            let cmd: H264MmcoCommand = mmco_commands[c];
            let ghost now = self.entries@;
            let mut i: usize = 0;
            while i < self.entries.len()
                invariant
                    i <= self.entries@.len() == now.len(),
                    max == self.max_frame_num,
                    self.same_limits(old(self)),
                    forall|k: int|
                        0 <= k < i ==> #[trigger] self.entries@[k] == entry_after_mmco(
                            now[k],
                            cmd,
                            max,
                            current_frame_num,
                        ),
                    forall|k: int| i <= k < now.len() ==> #[trigger] self.entries@[k] == now[k],
                decreases self.entries@.len() - i,
            {
                let mut e: DpbEntry = self.entries[i];
                match cmd {
                    H264MmcoCommand::UnmarkShortTerm { difference_of_pic_nums_minus1 } => {
                        let pic_num_x: u32 = self.compute_pic_num(
                            current_frame_num,
                            difference_of_pic_nums_minus1,
                        );
                        if e.frame_num == pic_num_x {
                            e.is_valid = false;
                        }
                    },
                    H264MmcoCommand::UnmarkAll => {
                        e.is_valid = false;
                    },
                    _ => {},
                }
                self.entries.set(i, e);
                i = i + 1;
            }
            c = c + 1;
            assert(self.entries@ =~= before.map_values(
                |e: DpbEntry|
                    entry_after_mmcos(e, mmco_commands@, c as nat, max, current_frame_num),
            ));
        }
    }

    /// The frame number that a marking command names.
    pub fn compute_pic_num(
        &self,
        current_frame_num: u32,
        difference_of_pic_nums_minus1: u32,
    ) -> (r: u32)
        ensures
            r == pic_num_before(
                self.max_frame_num,
                current_frame_num,
                difference_of_pic_nums_minus1,
            ),
            difference_of_pic_nums_minus1 < current_frame_num ==> r + (
            difference_of_pic_nums_minus1 + 1) == current_frame_num,
            current_frame_num <= difference_of_pic_nums_minus1 < self.max_frame_num
                && self.max_frame_num + current_frame_num <= u32::MAX ==> r + (
            difference_of_pic_nums_minus1 + 1) == self.max_frame_num + current_frame_num,
    {
        let diff: u32 = difference_of_pic_nums_minus1.wrapping_add(1);
        if current_frame_num >= diff {
            current_frame_num - diff
        } else {
            self.max_frame_num.wrapping_add(current_frame_num).wrapping_sub(diff)
        }
    }

    /// Finds an empty slot or recycles the oldest reference.
    ///
    /// Slots whose order count is among `protected_pocs` are not recycled: the
    /// current frame needs them.
    pub fn find_or_recycle_slot(&mut self, protected_pocs: &[i32]) -> (r: Option<u32>)
        requires
            old(self).wf(),
        ensures
            *final(self) == *old(self),
            is_next_slot(old(self).entries@, protected_pocs@, r),
    {
        let mut i: u32 = 0;
        while i < self.max_dpb_slots
            invariant
                self.wf(),
                *self == *old(self),
                i <= self.max_dpb_slots,
                forall|j: int| 0 <= j < i ==> (#[trigger] self.entries@[j]).is_valid,
            decreases self.max_dpb_slots - i,
        {
            if !self.entries[i as usize].is_valid {
                return Some(i);
            }
            i = i + 1;
        }
        let mut oldest: Option<u32> = None;
        let mut oldest_poc: i32 = i32::MAX;
        let mut k: u32 = 0;
        let ghost all = self.entries@;
        while k < self.max_dpb_slots
            invariant
                self.wf(),
                *self == *old(self),
                all == self.entries@,
                k <= self.max_dpb_slots,
                forall|j: int| 0 <= j < all.len() ==> (#[trigger] all[j]).is_valid,
                match oldest {
                    Some(o) => {
                        &&& o < k
                        &&& is_recyclable(all[o as int], protected_pocs@)
                        &&& oldest_poc == all[o as int].pic_order_cnt@[0]
                        &&& forall|j: int|
                            0 <= j < k && is_recyclable(#[trigger] all[j], protected_pocs@)
                                ==> oldest_poc <= all[j].pic_order_cnt@[0]
                        &&& forall|j: int|
                            0 <= j < o && is_recyclable(#[trigger] all[j], protected_pocs@)
                                ==> oldest_poc < all[j].pic_order_cnt@[0]
                    },
                    None => {
                        &&& oldest_poc == i32::MAX
                        &&& forall|j: int|
                            0 <= j < k ==> !is_recyclable(#[trigger] all[j], protected_pocs@)
                    },
                },
            decreases self.max_dpb_slots - k,
        {
            let e: DpbEntry = self.entries[k as usize];
            let poc: i32 = e.pic_order_cnt[0];
            if !contains_i32(protected_pocs, poc) && poc < oldest_poc {
                oldest_poc = poc;
                oldest = Some(k);
            }
            k = k + 1;
        }
        oldest
    }

    /// Finds an empty slot or recycles the oldest reference, leaving out the
    /// slots of `exclude_slots`: the current frame needs them.
    pub fn find_or_recycle_slot_excluding(&mut self, exclude_slots: &[i32]) -> (r: Option<u32>)
        requires
            old(self).wf(),
        ensures
            *final(self) == *old(self),
            is_next_allowed_slot(old(self).entries@, exclude_slots@, r),
    {
        let mut i: u32 = 0;
        while i < self.max_dpb_slots
            invariant
                self.wf(),
                *self == *old(self),
                i <= self.max_dpb_slots,
                forall|j: int|
                    0 <= j < i ==> (#[trigger] self.entries@[j]).is_valid || !is_allowed(
                        j,
                        exclude_slots@,
                    ),
            decreases self.max_dpb_slots - i,
        {
            if !self.entries[i as usize].is_valid && !contains_i32(exclude_slots, i as i32) {
                return Some(i);
            }
            i = i + 1;
        }
        let mut oldest: Option<u32> = None;
        let mut oldest_frame_num: u32 = u32::MAX;
        let mut k: u32 = 0;
        let ghost all = self.entries@;
        while k < self.max_dpb_slots
            invariant
                self.wf(),
                *self == *old(self),
                all == self.entries@,
                k <= self.max_dpb_slots,
                forall|j: int|
                    0 <= j < all.len() ==> (#[trigger] all[j]).is_valid || !is_allowed(
                        j,
                        exclude_slots@,
                    ),
                match oldest {
                    Some(o) => {
                        &&& o < k
                        &&& is_recyclable_slot(all, exclude_slots@, o as int)
                        &&& oldest_frame_num == all[o as int].frame_num
                        &&& forall|j: int|
                            0 <= j < k && #[trigger] is_recyclable_slot(all, exclude_slots@, j)
                                ==> oldest_frame_num <= all[j].frame_num
                        &&& forall|j: int|
                            0 <= j < o && #[trigger] is_recyclable_slot(all, exclude_slots@, j)
                                ==> oldest_frame_num < all[j].frame_num
                    },
                    None => {
                        &&& oldest_frame_num == u32::MAX
                        &&& forall|j: int|
                            0 <= j < k ==> !#[trigger] is_recyclable_slot(all, exclude_slots@, j)
                    },
                },
            decreases self.max_dpb_slots - k,
        {
            let e: DpbEntry = self.entries[k as usize];
            if e.is_valid && !contains_i32(exclude_slots, k as i32) && e.frame_num
                < oldest_frame_num {
                oldest_frame_num = e.frame_num;
                oldest = Some(k);
            }
            k = k + 1;
        }
        oldest
    }

    /// Marks all entries as invalid (for IDR frames).
    pub fn invalidate_all(&mut self)
        ensures
            final(self).same_limits(old(self)),
            final(self).entries@ == old(self).entries@.map_values(|e: DpbEntry| forgotten(e)),
    {
        let ghost before = self.entries@;
        let mut i: usize = 0;
        while i < self.entries.len()
            invariant
                i <= self.entries@.len() == before.len(),
                self.same_limits(old(self)),
                forall|k: int| 0 <= k < i ==> #[trigger] self.entries@[k] == forgotten(before[k]),
                forall|k: int| i <= k < before.len() ==> #[trigger] self.entries@[k] == before[k],
            decreases self.entries@.len() - i,
        {
            let mut e: DpbEntry = self.entries[i];
            e.is_valid = false;
            e.current_layout = ImageLayout::Undefined;
            e.last_access = LastAccessType::NoAccess;
            self.entries.set(i, e);
            i = i + 1;
        }
        assert(self.entries@ =~= before.map_values(|e: DpbEntry| forgotten(e)));
    }

    /// The layout of a slot's image.
    pub fn get_slot_layout(&self, slot_index: u32) -> (r: ImageLayout)
        requires
            slot_index < self.entries@.len(),
        ensures
            r == self.entries@[slot_index as int].current_layout,
    {
        self.entries[slot_index as usize].current_layout
    }

    /// Sets the layout of a slot's image.
    pub fn set_slot_layout(&mut self, slot_index: u32, layout: ImageLayout)
        requires
            slot_index < old(self).entries@.len(),
        ensures
            final(self).same_limits(old(self)),
            final(self).entries@ == old(self).entries@.update(
                slot_index as int,
                DpbEntry { current_layout: layout, ..old(self).entries@[slot_index as int] },
            ),
    {
        let mut e: DpbEntry = self.entries[slot_index as usize];
        e.current_layout = layout;
        self.entries.set(slot_index as usize, e);
    }

    /// The last access to a slot.
    pub fn get_slot_last_access(&self, slot_index: u32) -> (r: LastAccessType)
        requires
            slot_index < self.entries@.len(),
        ensures
            r == self.entries@[slot_index as int].last_access,
    {
        self.entries[slot_index as usize].last_access
    }

    /// Sets the last access to a slot.
    pub fn set_slot_last_access(&mut self, slot_index: u32, access: LastAccessType)
        requires
            slot_index < old(self).entries@.len(),
        ensures
            final(self).same_limits(old(self)),
            final(self).entries@ == old(self).entries@.update(
                slot_index as int,
                DpbEntry { last_access: access, ..old(self).entries@[slot_index as int] },
            ),
    {
        let mut e: DpbEntry = self.entries[slot_index as usize];
        e.last_access = access;
        self.entries.set(slot_index as usize, e);
    }

    /// The first valid entry of a frame number, and its place.
    pub fn find_by_frame_num(&self, frame_num: u32) -> (r: Option<(usize, &DpbEntry)>)
        ensures
            match r {
                Some((i, e)) => {
                    &&& i < self.entries@.len()
                    &&& *e == self.entries@[i as int]
                    &&& e.is_valid && e.frame_num == frame_num
                    &&& forall|j: int|
                        0 <= j < i ==> !((#[trigger] self.entries@[j]).is_valid
                            && self.entries@[j].frame_num == frame_num)
                },
                None => forall|j: int|
                    0 <= j < self.entries@.len() ==> !((#[trigger] self.entries@[j]).is_valid
                        && self.entries@[j].frame_num == frame_num),
            },
    {
        let mut i: usize = 0;
        while i < self.entries.len()
            invariant
                i <= self.entries@.len(),
                forall|j: int|
                    0 <= j < i ==> !((#[trigger] self.entries@[j]).is_valid
                        && self.entries@[j].frame_num == frame_num),
            decreases self.entries@.len() - i,
        {
            let e: &DpbEntry = &self.entries[i];
            if e.is_valid && e.frame_num == frame_num {
                return Some((i, e));
            }
            i = i + 1;
        }
        None
    }

    /// The valid entries, in order.
    pub fn get_references(&self) -> (r: Vec<&DpbEntry>)
        ensures
            r@.map_values(|e: &DpbEntry| *e) == valid_entries(self.entries@),
    {
        let mut r: Vec<&DpbEntry> = Vec::new();
        let mut i: usize = 0;
        assert(r@.map_values(|e: &DpbEntry| *e) =~= Seq::empty());
        while i < self.entries.len()
            invariant
                i <= self.entries@.len(),
                r@.map_values(|e: &DpbEntry| *e) == valid_entries(self.entries@.take(i as int)),
            decreases self.entries@.len() - i,
        {
            let ghost before = r@.map_values(|e: &DpbEntry| *e);
            assert(self.entries@.take(i + 1).drop_last() =~= self.entries@.take(i as int));
            let e: &DpbEntry = &self.entries[i];
            if e.is_valid {
                r.push(e);
                assert(r@.map_values(|e: &DpbEntry| *e) =~= before.push(*e));
            }
            i = i + 1;
        }
        assert(self.entries@.take(i as int) =~= self.entries@);
        r
    }

    /// The places of the valid entries, in order, by which they can be changed.
    pub fn get_references_mut(&mut self) -> (r: Vec<usize>)
        ensures
            *final(self) == *old(self),
            r@.map_values(|i: usize| i as int) == valid_places(old(self).entries@),
    {
        let mut r: Vec<usize> = Vec::new();
        let mut i: usize = 0;
        assert(r@.map_values(|i: usize| i as int) =~= Seq::empty());
        while i < self.entries.len()
            invariant
                *self == *old(self),
                i <= self.entries@.len(),
                r@.map_values(|i: usize| i as int) == valid_places(self.entries@.take(i as int)),
            decreases self.entries@.len() - i,
        {
            let ghost before = r@.map_values(|i: usize| i as int);
            assert(self.entries@.take(i + 1).drop_last() =~= self.entries@.take(i as int));
            if self.entries[i].is_valid {
                r.push(i);
                assert(r@.map_values(|i: usize| i as int) =~= before.push(i as int));
            }
            i = i + 1;
        }
        assert(self.entries@.take(i as int) =~= self.entries@);
        r
    }

    /// Registers a frame in a slot, without an order count. A slot that does not
    /// exist is passed over.
    pub fn register_frame(&mut self, slot: u32, frame_count: u32)
        requires
            old(self).wf(),
        ensures
            final(self).same_limits(old(self)),
            slot < old(self).entries@.len() ==> final(self).entries@ == old(self).entries@.update(
                slot as int,
                (DpbEntry {
                    is_valid: true,
                    frame_num: frame_count,
                    slot_index: slot,
                    ..old(self).entries@[slot as int]
                }),
            ),
            slot >= old(self).entries@.len() ==> final(self).entries@ == old(self).entries@,
    {
        if slot < self.entries.len() as u32 {
            let mut e: DpbEntry = self.entries[slot as usize];
            e.is_valid = true;
            e.frame_num = frame_count;
            e.slot_index = slot;
            self.entries.set(slot as usize, e);
        }
    }
}

/// Forgetting all frames frees every slot, so that the first is used next.
pub proof fn law_forgetting_frees_all(
    before: Seq<DpbEntry>,
    protected_pocs: Seq<i32>,
    r: Option<u32>,
)
    requires
        before.len() > 0,
        is_next_slot(before.map_values(|e: DpbEntry| forgotten(e)), protected_pocs, r),
    ensures
        r == Some(0u32),
{
    let after = before.map_values(|e: DpbEntry| forgotten(e));
    assert(!after[0].is_valid);
}

/// The sliding window takes no mark while fewer references than are allowed are other than
/// the current frame, where at least one is always allowed, and otherwise exactly one.
pub proof fn law_window_slides_when_full(
    before: Seq<DpbEntry>,
    after: Seq<DpbEntry>,
    max_num_ref_frames: u32,
    max_frame_num: u32,
    current: u32,
)
    requires
        slid(before, after, max_num_ref_frames, max_frame_num, current),
        forall|i: int| 0 <= i < before.len() ==> (#[trigger] before[i]).frame_num < 0x7FFF_FFFF,
        max_frame_num < 0x8000_0000,
    ensures
        count_other_references(before, current) == 0 ==> after == before,
        count_other_references(before, current) < max_num_ref_frames ==> after == before,
        count_other_references(before, current) >= 1 && count_other_references(before, current)
            >= max_num_ref_frames ==> count_other_references(after, current) + 1
            == count_other_references(before, current),
{
    law_sliding_window_makes_room(before, after, max_num_ref_frames, max_frame_num, current);
}

/// An entry that is forgotten, or loses its mark, stays what it was otherwise.
pub proof fn law_given_up_entries(e: DpbEntry, i: int)
    ensures
        !unmarked(e).is_valid,
        unmarked(e) == (DpbEntry { is_valid: false, ..e }),
        !forgotten(e).is_valid,
        forgotten(e).current_layout == ImageLayout::Undefined,
        forgotten(e).last_access == LastAccessType::NoAccess,
        forgotten(e).frame_num == e.frame_num,
        forgotten(e).pic_order_cnt == e.pic_order_cnt,
        forgotten(e).slot_index == e.slot_index,
        forgotten(e).image_view == e.image_view,
        forgotten(e).image == e.image,
        !blank_entry(i).is_valid,
        0 <= i <= u32::MAX ==> blank_entry(i).slot_index == i,
        blank_entry(i).current_layout == ImageLayout::Undefined,
        blank_entry(i).last_access == LastAccessType::NoAccess,
{
}

/// A command that counts back takes the mark of one frame number, whatever it counts: the
/// one that is so many back, in the cycle before where that is less than zero, and in 32 bits
/// where the cycle is too short.
pub proof fn law_any_counting_back_unmarks(
    e: DpbEntry,
    difference_minus1: u32,
    max_frame_num: u32,
    current: u32,
)
    ensures
        ({
            let cmd = H264MmcoCommand::UnmarkShortTerm {
                difference_of_pic_nums_minus1: difference_minus1,
            };
            let after = entry_after_mmcos(e, seq![cmd], 1, max_frame_num, current);
            let back = (difference_minus1 + 1) % 0x1_0000_0000;
            let is_named = if back <= current {
                e.frame_num + back == current
            } else {
                (e.frame_num + back - current - max_frame_num) % 0x1_0000_0000 == 0
            };
            &&& after.is_valid == (e.is_valid && !is_named)
            &&& after == (DpbEntry { is_valid: after.is_valid, ..e })
        }),
{
    let cmd = H264MmcoCommand::UnmarkShortTerm { difference_of_pic_nums_minus1: difference_minus1 };
    assert(entry_after_mmcos(e, seq![cmd], 0, max_frame_num, current) == e);
    assert(entry_after_mmcos(e, seq![cmd], 1, max_frame_num, current) == entry_after_mmco(
        e,
        cmd,
        max_frame_num,
        current,
    ));
}

/// Frame numbers above the current one are those of the cycle before.
pub proof fn law_frame_numbers_wrap(max_frame_num: u32, frame_num: u32, current: u32)
    requires
        frame_num <= 0x7FFF_FFFF,
        max_frame_num <= 0x7FFF_FFFF,
    ensures
        frame_num <= current ==> wrapped_frame_num(max_frame_num, frame_num, current) == frame_num,
        frame_num > current ==> wrapped_frame_num(max_frame_num, frame_num, current) + max_frame_num
            == frame_num,
{
}

} // verus!
