//! Images that are decoded into or read back from.

use crate::codes::PixelFormat;
use crate::container::owned_part;
use crate::session::Extent2D;
use vstd::prelude::*;

verus! {

/// A decoded output image, luma and chroma in planes of their own. `image`,
/// `image_view` and `memory` are handles.
#[derive(Debug, Clone, Copy, PartialEq, Eq, Structural)]
pub struct DecodedImage {
    pub image: u64,
    pub image_view: u64,
    pub memory: u64,
    pub format: PixelFormat,
    pub extent: Extent2D,
}

impl DecodedImage {
    /// The number of bytes in a row of luma samples.
    pub fn y_row_pitch(&self) -> (r: usize)
        ensures
            r == self.extent.width,
    {
        self.extent.width as usize
    }

    /// The number of bytes in a row of chroma samples: two for each whole pair of
    /// luma samples.
    pub fn uv_row_pitch(&self) -> (r: usize)
        ensures
            r == self.extent.width - self.extent.width % 2,
    {
        (self.extent.width as usize / 2) * 2
    }
}

/// The number of luma samples of a picture.
pub open spec fn y_size(width: u32, height: u32) -> int {
    width * height
}

/// The number of chroma samples of a picture: those of half its width over half its
/// height, two of a kind.
pub open spec fn uv_size(width: u32, height: u32) -> int {
    width as int / 2 * height / 2 * 2
}

/// A host-visible image for readback: handles, and its bytes where they are mapped.
#[derive(Debug)]
pub struct StagingImage {
    pub image: u64,
    pub memory: u64,
    pub mapped: Option<Vec<u8>>,
    pub extent: Extent2D,
}

fn luma_size(width: u32, height: u32) -> (r: usize)
    requires
        y_size(width, height) <= u32::MAX,
    ensures
        r == y_size(width, height),
{
    (width * height) as usize
}

proof fn lemma_chroma_is_smaller(width: u32, height: u32)
    ensures
        0 <= width as int / 2 * height <= y_size(width, height),
        0 <= uv_size(width, height) <= y_size(width, height),
{
    let w = width as int;
    let h = height as int;
    assert(0 <= w / 2 * h <= w * h) by (nonlinear_arith)
        requires
            w >= 0,
            h >= 0,
    ;
}

fn chroma_size(width: u32, height: u32) -> (r: usize)
    requires
        y_size(width, height) <= u32::MAX,
    ensures
        r == uv_size(width, height),
{
    proof {
        lemma_chroma_is_smaller(width, height);
    }
    (width / 2 * height / 2 * 2) as usize
}

impl StagingImage {
    /// The mapped bytes hold the planes of a picture.
    pub open spec fn holds(&self, width: u32, height: u32) -> bool {
        &&& y_size(width, height) <= u32::MAX
        &&& self.mapped matches Some(bytes) ==> y_size(width, height) + uv_size(width, height)
            <= bytes@.len()
    }

    /// The luma plane, which the image begins with; nothing where it is not mapped.
    pub fn get_y_plane(&self, width: u32, height: u32) -> (r: Option<Vec<u8>>)
        requires
            self.holds(width, height),
        ensures
            match self.mapped {
                Some(bytes) => r matches Some(plane) && plane@ == bytes@.subrange(
                    0,
                    y_size(width, height),
                ),
                None => r is None,
            },
    {
        match &self.mapped {
            Some(bytes) => {
                proof {
                    lemma_chroma_is_smaller(width, height);
                }
                let y: usize = luma_size(width, height);
                Some(owned_part(bytes.as_slice(), 0, y))
            },
            None => None,
        }
    }

    /// The chroma plane, which follows the luma plane; nothing where the image is not
    /// mapped.
    pub fn get_uv_plane(&self, width: u32, height: u32) -> (r: Option<Vec<u8>>)
        requires
            self.holds(width, height),
        ensures
            match self.mapped {
                Some(bytes) => r matches Some(plane) && plane@ == bytes@.subrange(
                    y_size(width, height),
                    y_size(width, height) + uv_size(width, height),
                ),
                None => r is None,
            },
    {
        match &self.mapped {
            Some(bytes) => {
                proof {
                    lemma_chroma_is_smaller(width, height);
                }
                let _len: usize = bytes.len();
                let y: usize = luma_size(width, height);
                let uv: usize = chroma_size(width, height);
                Some(owned_part(bytes.as_slice(), y, y + uv))
            },
            None => None,
        }
    }
}

/// A picture has a luma sample for each of its places, and where its width and height are
/// even half as many chroma samples.
pub proof fn law_picture_sizes(width: u32, height: u32)
    ensures
        y_size(width, height) == width * height,
        width % 2 == 0 && height % 2 == 0 ==> 2 * uv_size(width, height) == y_size(width, height),
{
    if width % 2 == 0 && height % 2 == 0 {
        let a = width as int / 2;
        let b = height as int / 2;
        assert(width == 2 * a && height == 2 * b);
        assert(a * height == 2 * (a * b)) by (nonlinear_arith)
            requires
                height == 2 * b,
        ;
        assert(width * height == 4 * (a * b)) by (nonlinear_arith)
            requires
                width == 2 * a,
                height == 2 * b,
        ;
    }
}

} // verus!
