//! What the decode commands of all codecs have in common: layout changes of
//! images.

use crate::codes::ImageLayout;
use vstd::prelude::*;

verus! {

/// A change of an image's layout before decoding.
#[derive(Debug, Clone, Copy, PartialEq, Eq, Structural)]
pub struct ImageBarrier {
    pub image: u64,
    pub old_layout: ImageLayout,
    pub new_layout: ImageLayout,
    pub base_array_layer: u32,
    /// Whether decoding writes to the image; otherwise it reads the image.
    pub is_written: bool,
    /// Whether decoding that is under way has to come to its end before.
    pub waits_for_decoding: bool,
}

/// The image of a reference picture: a handle, zero where there is none, and the
/// layer of the picture in it.
#[derive(Debug, Clone, Copy, PartialEq, Eq, Structural)]
pub struct RefImage {
    pub image: u64,
    pub layout: ImageLayout,
    pub layer: u32,
}

/// The layout that an output image is decoded in: that of references where the
/// picture becomes one.
pub open spec fn output_layout(has_setup: bool) -> ImageLayout {
    if has_setup {
        ImageLayout::VideoDecodeDpb
    } else {
        ImageLayout::VideoDecodeDst
    }
}

/// Whether an image has to change its layout to serve as a reference.
pub open spec fn needs_change(r: RefImage) -> bool {
    r.image != 0 && r.layout != ImageLayout::VideoDecodeDpb
}

/// The change of layout by which an image becomes a reference.
pub open spec fn change_of(r: RefImage, refs_wait: bool) -> ImageBarrier {
    ImageBarrier {
        image: r.image,
        old_layout: r.layout,
        new_layout: ImageLayout::VideoDecodeDpb,
        base_array_layer: r.layer,
        is_written: false,
        waits_for_decoding: refs_wait,
    }
}

/// The layout changes of reference images, in order: those that exist and are
/// not yet in the layout of references.
pub open spec fn layout_changes(refs: Seq<RefImage>, refs_wait: bool) -> Seq<ImageBarrier>
    decreases refs.len(),
{
    if refs.len() == 0 {
        Seq::empty()
    } else {
        let rest = layout_changes(refs.drop_last(), refs_wait);
        if needs_change(refs.last()) {
            rest.push(change_of(refs.last(), refs_wait))
        } else {
            rest
        }
    }
}

/// The layout changes of a decode command: the output image first, which decoding
/// writes to, then the reference images. `refs_wait` says whether those wait for
/// decoding that is under way.
pub open spec fn command_barriers(
    output_image: u64,
    old_layout: ImageLayout,
    layer: u32,
    has_setup: bool,
    refs: Seq<RefImage>,
    refs_wait: bool,
) -> Seq<ImageBarrier> {
    seq![
        ImageBarrier {
            image: output_image,
            old_layout,
            new_layout: output_layout(has_setup),
            base_array_layer: layer,
            is_written: true,
            waits_for_decoding: false,
        },
    ] + layout_changes(refs, refs_wait)
}

/// After the layout changes of a decode command every reference image is in the
/// layout of references: one without a change already was, or does not exist.
pub proof fn law_references_end_in_reference_layout(
    refs: Seq<RefImage>,
    refs_wait: bool,
    i: int,
)
    requires
        0 <= i < refs.len(),
        needs_change(refs[i]),
    ensures
        layout_changes(refs, refs_wait).contains(change_of(refs[i], refs_wait)),
    decreases refs.len(),
{
    let all = layout_changes(refs, refs_wait);
    let rest = layout_changes(refs.drop_last(), refs_wait);
    if i == refs.len() - 1 {
        assert(all[all.len() - 1] == change_of(refs[i], refs_wait));
    } else {
        law_references_end_in_reference_layout(refs.drop_last(), refs_wait, i);
        let k = choose|k: int| 0 <= k < rest.len() && rest[k] == change_of(refs[i], refs_wait);
        assert(all[k] == rest[k]);
    }
}

/// Every layout change of a reference image leads to the layout of references.
pub proof fn law_changes_lead_to_reference_layout(
    refs: Seq<RefImage>,
    refs_wait: bool,
    k: int,
)
    requires
        0 <= k < layout_changes(refs, refs_wait).len(),
    ensures
        layout_changes(refs, refs_wait)[k].new_layout == ImageLayout::VideoDecodeDpb,
        layout_changes(refs, refs_wait)[k].old_layout != ImageLayout::VideoDecodeDpb,
        layout_changes(refs, refs_wait)[k].image != 0,
    decreases refs.len(),
{
    let rest = layout_changes(refs.drop_last(), refs_wait);
    if k < rest.len() {
        law_changes_lead_to_reference_layout(refs.drop_last(), refs_wait, k);
        assert(layout_changes(refs, refs_wait)[k] == rest[k]);
    }
}

/// The layout changes of a decode command.
pub fn plan_barriers(
    output_image: u64,
    old_layout: ImageLayout,
    layer: u32,
    has_setup: bool,
    refs: &Vec<RefImage>,
    refs_wait: bool,
) -> (barriers: Vec<ImageBarrier>)
    ensures
        barriers@ == command_barriers(output_image, old_layout, layer, has_setup, refs@, refs_wait),
{
    let mut barriers: Vec<ImageBarrier> = Vec::new();
    let new_layout: ImageLayout = if has_setup {
        ImageLayout::VideoDecodeDpb
    } else {
        ImageLayout::VideoDecodeDst
    };
    barriers.push(
        ImageBarrier {
            image: output_image,
            old_layout,
            new_layout,
            base_array_layer: layer,
            is_written: true,
            waits_for_decoding: false,
        },
    );
    let ghost first = barriers@;
    let mut i: usize = 0;
    while i < refs.len()
        invariant
            i <= refs@.len(),
            barriers@ == first + layout_changes(refs@.take(i as int), refs_wait),
        decreases refs@.len() - i,
    {
        let r: RefImage = refs[i];
        assert(refs@.take(i + 1).drop_last() =~= refs@.take(i as int));
        if r.image != 0 && r.layout != ImageLayout::VideoDecodeDpb {
            barriers.push(
                ImageBarrier {
                    image: r.image,
                    old_layout: r.layout,
                    new_layout: ImageLayout::VideoDecodeDpb,
                    base_array_layer: r.layer,
                    is_written: false,
                    waits_for_decoding: refs_wait,
                },
            );
        }
        i = i + 1;
    }
    assert(refs@.take(i as int) =~= refs@);
    barriers
}

/// The barriers of a decode command: the first is that of the output image, which decoding
/// writes to, and which comes into the layout of references where its picture becomes one.
/// The others are those of reference images, which decoding reads, and which come into that
/// layout too.
pub proof fn law_command_barriers(
    output_image: u64,
    old_layout: ImageLayout,
    layer: u32,
    has_setup: bool,
    refs: Seq<RefImage>,
    refs_wait: bool,
    k: int,
)
    ensures
        ({
            let b = command_barriers(output_image, old_layout, layer, has_setup, refs, refs_wait);
            &&& b.len() >= 1
            &&& b[0].image == output_image
            &&& b[0].old_layout == old_layout
            &&& b[0].base_array_layer == layer
            &&& b[0].is_written && !b[0].waits_for_decoding
            &&& has_setup ==> b[0].new_layout == ImageLayout::VideoDecodeDpb
            &&& !has_setup ==> b[0].new_layout == ImageLayout::VideoDecodeDst
            &&& 1 <= k < b.len() ==> !b[k].is_written && b[k].waits_for_decoding == refs_wait
                && b[k].new_layout == ImageLayout::VideoDecodeDpb && b[k].old_layout
                != ImageLayout::VideoDecodeDpb && b[k].image != 0 && exists|r: int|
                0 <= r < refs.len() && (#[trigger] refs[r]).image == b[k].image && refs[r].layout
                    == b[k].old_layout && refs[r].layer == b[k].base_array_layer
        }),
{
    let b = command_barriers(output_image, old_layout, layer, has_setup, refs, refs_wait);
    if 1 <= k < b.len() {
        lemma_change_of_some(refs, refs_wait, k - 1);
        assert(b[k] == layout_changes(refs, refs_wait)[k - 1]);
    }
}

proof fn lemma_change_of_some(refs: Seq<RefImage>, refs_wait: bool, k: int)
    requires
        0 <= k < layout_changes(refs, refs_wait).len(),
    ensures
        exists|r: int|
            0 <= r < refs.len() && needs_change(#[trigger] refs[r]) && layout_changes(
                refs,
                refs_wait,
            )[k] == change_of(refs[r], refs_wait),
    decreases refs.len(),
{
    let before = refs.drop_last();
    let rest = layout_changes(before, refs_wait);
    let all = layout_changes(refs, refs_wait);
    if k < rest.len() {
        lemma_change_of_some(before, refs_wait, k);
        let r = choose|r: int|
            0 <= r < before.len() && needs_change(#[trigger] before[r]) && rest[k] == change_of(
                before[r],
                refs_wait,
            );
        assert(refs[r] == before[r]);
        assert(all[k] == rest[k]);
    } else {
        assert(all[k] == change_of(refs[refs.len() - 1], refs_wait));
    }
}

/// A reference image has a barrier exactly where it exists and is not in the layout of
/// references yet.
pub proof fn law_reference_barriers(refs: Seq<RefImage>, refs_wait: bool, i: int)
    requires
        0 <= i < refs.len(),
    ensures
        needs_change(refs[i]) <==> refs[i].image != 0 && refs[i].layout
            != ImageLayout::VideoDecodeDpb,
        refs[i].image != 0 && refs[i].layout != ImageLayout::VideoDecodeDpb ==> layout_changes(
            refs,
            refs_wait,
        ).contains(
            ImageBarrier {
                image: refs[i].image,
                old_layout: refs[i].layout,
                new_layout: ImageLayout::VideoDecodeDpb,
                base_array_layer: refs[i].layer,
                is_written: false,
                waits_for_decoding: refs_wait,
            },
        ),
{
    if needs_change(refs[i]) {
        law_references_end_in_reference_layout(refs, refs_wait, i);
    }
}

} // verus!
