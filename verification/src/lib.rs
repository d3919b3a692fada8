//! Vulkan Video decoding: the rules, parsers and state machines behind the
//! H.264, H.265, VP9 and AV1 decoders, with their behaviour stated and proved.
//!
//! Nothing here talks to a device. Functions take plain values (bytes, parsed
//! headers, handles, what a device reported) and return what is to be done.

pub mod access_unit;
pub mod av1;
pub mod av1_picture;
pub mod bits;
pub mod buffer;
pub mod codes;
pub mod commands;
pub mod container;
pub mod decode_av1;
pub mod decode_h26x;
pub mod decode_vp9;
pub mod decoder;
pub mod detect;
pub mod device;
pub mod dpb;
pub mod error;
pub mod extractor;
pub mod h264;
pub mod h265;
pub mod image;
pub mod obu;
pub mod parameter_sets;
pub mod pipeline;
pub mod presentation;
pub mod profile_chain;
pub mod readback;
pub mod ref_order;
pub mod session;
pub mod slice_header;
pub mod slice_syntax;
pub mod stream_info;
pub mod syntax;
pub mod text;

pub use access_unit::{
    AccessUnit, H264MmcoCommand, H264OrH265Pps, H264OrH265Sps, VideoCodec as AccessUnitCodec,
};
pub use container::Vp9Frame;
pub use decoder::VideoDecoder;
pub use device::{QueueFamilies, VideoCodec, VideoDeviceBuilder};
pub use dpb::{DpbEntry, DpbManager, LastAccessType};
pub use error::{AppInfo, VideoError, VideoResult};
pub use image::StagingImage;
pub use presentation::DecodedFrame;
pub use readback::DecodedPixels;
pub use session::{CodecProfileInfo, VideoSession, VideoSessionParameters, VideoSessionParams};
