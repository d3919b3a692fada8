//! What can go wrong, and what the application is called.

use crate::codes::ash_api_version_1_2;
use vstd::prelude::*;
use vstd::string::*;

verus! {

/// Vulkan video errors, each with what is known of its cause.
#[derive(Debug)]
pub enum VideoError {
    VulkanInit(String),
    VideoNotSupported(String),
    DeviceCreation(String),
    SessionCreation(String),
    BufferAllocation(String),
    MemoryAllocation(String),
    ImageCreation(String),
    CommandBufferRecording(String),
    QueueSubmission(String),
    FenceWait(String),
    DecoderInit(String),
    FormatNotSupported(String),
    CapabilityNotAvailable(String),
    CodecNotSupported(String),
    InvalidState(String),
    Io(String),
}

/// Result type for Vulkan video operations.
pub type VideoResult<T> = Result<T, VideoError>;

/// What an error's message begins with.
pub open spec fn error_prefix(e: VideoError) -> Seq<char> {
    match e {
        VideoError::VulkanInit(_) => "Vulkan initialization failed: "@,
        VideoError::VideoNotSupported(_) => "Video decode not supported: "@,
        VideoError::DeviceCreation(_) => "Device creation failed: "@,
        VideoError::SessionCreation(_) => "Session creation failed: "@,
        VideoError::BufferAllocation(_) => "Buffer allocation failed: "@,
        VideoError::MemoryAllocation(_) => "Memory allocation failed: "@,
        VideoError::ImageCreation(_) => "Image creation failed: "@,
        VideoError::CommandBufferRecording(_) => "Command buffer recording failed: "@,
        VideoError::QueueSubmission(_) => "Queue submission failed: "@,
        VideoError::FenceWait(_) => "Fence wait failed: "@,
        VideoError::DecoderInit(_) => "Decoder initialization failed: "@,
        VideoError::FormatNotSupported(_) => "Format not supported: "@,
        VideoError::CapabilityNotAvailable(_) => "Capability not available: "@,
        VideoError::CodecNotSupported(_) => "Codec not supported: "@,
        VideoError::InvalidState(_) => "Invalid state: "@,
        VideoError::Io(_) => "IO error: "@,
    }
}

/// What an error says of its cause.
pub open spec fn error_cause(e: VideoError) -> Seq<char> {
    match e {
        VideoError::VulkanInit(s) => s@,
        VideoError::VideoNotSupported(s) => s@,
        VideoError::DeviceCreation(s) => s@,
        VideoError::SessionCreation(s) => s@,
        VideoError::BufferAllocation(s) => s@,
        VideoError::MemoryAllocation(s) => s@,
        VideoError::ImageCreation(s) => s@,
        VideoError::CommandBufferRecording(s) => s@,
        VideoError::QueueSubmission(s) => s@,
        VideoError::FenceWait(s) => s@,
        VideoError::DecoderInit(s) => s@,
        VideoError::FormatNotSupported(s) => s@,
        VideoError::CapabilityNotAvailable(s) => s@,
        VideoError::CodecNotSupported(s) => s@,
        VideoError::InvalidState(s) => s@,
        VideoError::Io(s) => s@,
    }
}

impl VideoError {
    /// The error's message.
    pub fn message(&self) -> (m: String)
        ensures
            m@ == error_prefix(*self) + error_cause(*self),
    {
        let (prefix, cause): (&str, &String) = match self {
            VideoError::VulkanInit(s) => ("Vulkan initialization failed: ", s),
            VideoError::VideoNotSupported(s) => ("Video decode not supported: ", s),
            VideoError::DeviceCreation(s) => ("Device creation failed: ", s),
            VideoError::SessionCreation(s) => ("Session creation failed: ", s),
            VideoError::BufferAllocation(s) => ("Buffer allocation failed: ", s),
            VideoError::MemoryAllocation(s) => ("Memory allocation failed: ", s),
            VideoError::ImageCreation(s) => ("Image creation failed: ", s),
            VideoError::CommandBufferRecording(s) => ("Command buffer recording failed: ", s),
            VideoError::QueueSubmission(s) => ("Queue submission failed: ", s),
            VideoError::FenceWait(s) => ("Fence wait failed: ", s),
            VideoError::DecoderInit(s) => ("Decoder initialization failed: ", s),
            VideoError::FormatNotSupported(s) => ("Format not supported: ", s),
            VideoError::CapabilityNotAvailable(s) => ("Capability not available: ", s),
            VideoError::CodecNotSupported(s) => ("Codec not supported: ", s),
            VideoError::InvalidState(s) => ("Invalid state: ", s),
            VideoError::Io(s) => ("IO error: ", s),
        };
        let mut m: String = prefix.to_owned();
        m.append(cause.as_str());
        m
    }
}

/// Application information.
#[derive(Debug, Clone)]
pub struct AppInfo {
    pub name: String,
    pub engine_name: String,
    pub api_version: u32,
}

impl Default for AppInfo {
    fn default() -> (a: AppInfo)
        ensures
            a.name@ == "vk-video"@,
            a.engine_name@ == "vk-video-vulkan"@,
            a.api_version == 0x40_2000,
    {
        AppInfo {
            name: "vk-video".to_owned(),
            engine_name: "vk-video-vulkan".to_owned(),
            api_version: ash_api_version_1_2(),
        }
    }
}

/// An error's message says what failed, and then why.
pub proof fn law_error_messages(cause: String)
    ensures
        error_prefix(VideoError::VulkanInit(cause)) == "Vulkan initialization failed: "@,
        error_prefix(VideoError::VideoNotSupported(cause)) == "Video decode not supported: "@,
        error_prefix(VideoError::DeviceCreation(cause)) == "Device creation failed: "@,
        error_prefix(VideoError::SessionCreation(cause)) == "Session creation failed: "@,
        error_prefix(VideoError::BufferAllocation(cause)) == "Buffer allocation failed: "@,
        error_prefix(VideoError::MemoryAllocation(cause)) == "Memory allocation failed: "@,
        error_prefix(VideoError::ImageCreation(cause)) == "Image creation failed: "@,
        error_prefix(VideoError::CommandBufferRecording(cause))
            == "Command buffer recording failed: "@,
        error_prefix(VideoError::QueueSubmission(cause)) == "Queue submission failed: "@,
        error_prefix(VideoError::FenceWait(cause)) == "Fence wait failed: "@,
        error_prefix(VideoError::DecoderInit(cause)) == "Decoder initialization failed: "@,
        error_prefix(VideoError::FormatNotSupported(cause)) == "Format not supported: "@,
        error_prefix(VideoError::CapabilityNotAvailable(cause)) == "Capability not available: "@,
        error_prefix(VideoError::CodecNotSupported(cause)) == "Codec not supported: "@,
        error_prefix(VideoError::InvalidState(cause)) == "Invalid state: "@,
        error_prefix(VideoError::Io(cause)) == "IO error: "@,
        error_cause(VideoError::VulkanInit(cause)) == cause@,
        error_cause(VideoError::VideoNotSupported(cause)) == cause@,
        error_cause(VideoError::DeviceCreation(cause)) == cause@,
        error_cause(VideoError::SessionCreation(cause)) == cause@,
        error_cause(VideoError::BufferAllocation(cause)) == cause@,
        error_cause(VideoError::MemoryAllocation(cause)) == cause@,
        error_cause(VideoError::ImageCreation(cause)) == cause@,
        error_cause(VideoError::CommandBufferRecording(cause)) == cause@,
        error_cause(VideoError::QueueSubmission(cause)) == cause@,
        error_cause(VideoError::FenceWait(cause)) == cause@,
        error_cause(VideoError::DecoderInit(cause)) == cause@,
        error_cause(VideoError::FormatNotSupported(cause)) == cause@,
        error_cause(VideoError::CapabilityNotAvailable(cause)) == cause@,
        error_cause(VideoError::CodecNotSupported(cause)) == cause@,
        error_cause(VideoError::InvalidState(cause)) == cause@,
        error_cause(VideoError::Io(cause)) == cause@,
{
}

} // verus!
