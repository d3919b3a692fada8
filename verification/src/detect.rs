//! Telling the codec of a stream from its first bytes.

use crate::access_unit::VideoCodec;
use crate::container::{behind_zeros, has_frame_marker, is_ivf, looks_like_ivf};
use vstd::prelude::*;

verus! {

/// Where a NAL unit begins whose start code is at `i`.
pub open spec fn start_code_end(data: Seq<u8>, i: int) -> Option<int> {
    if i + 4 <= data.len() && data[i] == 0 && data[i + 1] == 0 && data[i + 2] == 0 && data[i + 3]
        == 1 {
        Some(i + 4)
    } else if i + 3 <= data.len() && data[i] == 0 && data[i + 1] == 0 && data[i + 2] == 1 {
        Some(i + 3)
    } else {
        None
    }
}

/// The first byte of the NAL unit whose start code is at `i`.
pub open spec fn first_byte_at(data: Seq<u8>, i: int) -> Option<u8> {
    match start_code_end(data, i) {
        Some(start) => if start < data.len() {
            Some(data[start])
        } else {
            None
        },
        None => None,
    }
}

/// The H.264 type of a NAL unit with the given first byte: its low five bits.
pub open spec fn h264_type(byte: u8) -> u8 {
    (byte % 32) as u8
}

/// The H.265 type of a NAL unit with the given first byte: the six bits behind its
/// highest.
pub open spec fn h265_type(byte: u8) -> u8 {
    ((byte / 2) % 64) as u8
}

/// A NAL unit with the given first byte is an H.265 video, sequence or picture parameter
/// set. Its highest and its lowest bit are zero.
pub open spec fn is_h265_set(byte: u8) -> bool {
    byte < 128 && byte % 2 == 0 && 32 <= h265_type(byte) <= 34
}

/// The codec that a NAL unit with the given first byte is a parameter set of: H.265
/// for its parameter sets, and otherwise H.264 for its sequence and picture parameter
/// sets.
pub open spec fn codec_of_set(byte: u8) -> Option<VideoCodec> {
    if is_h265_set(byte) {
        Some(VideoCodec::H265)
    } else if h264_type(byte) == 7 || h264_type(byte) == 8 {
        Some(VideoCodec::H264)
    } else {
        None
    }
}

/// The codec that a type of NAL unit speaks for: H.264 for slices, supplemental
/// information and types of nine, H.265 for the others that are in use.
pub open spec fn codec_of_nal(nal_type: u8) -> Option<VideoCodec> {
    if 1 <= nal_type <= 6 || nal_type == 9 {
        Some(VideoCodec::H264)
    } else if nal_type == 0 || 12 <= nal_type <= 21 {
        Some(VideoCodec::H265)
    } else {
        None
    }
}

/// The codec that the NAL unit whose start code is at `i` is a parameter set of.
pub open spec fn set_codec_at(data: Seq<u8>, i: int) -> Option<VideoCodec> {
    match first_byte_at(data, i) {
        Some(b) => codec_of_set(b),
        None => None,
    }
}

/// The codec of the first parameter set whose start code lies from `i` on and before
/// `n`.
pub open spec fn first_set_codec(data: Seq<u8>, i: int, n: int) -> Option<VideoCodec>
    decreases n - i,
{
    if i >= n {
        None
    } else if set_codec_at(data, i) is Some {
        set_codec_at(data, i)
    } else {
        first_set_codec(data, i + 1, n)
    }
}

/// The codec that the first telling NAL unit speaks for whose start code lies from
/// `i` on and before `n`.
pub open spec fn first_told(data: Seq<u8>, i: int, n: int) -> Option<VideoCodec>
    decreases n - i,
{
    if i >= n {
        None
    } else {
        let told = match first_byte_at(data, i) {
            Some(b) => codec_of_nal(h264_type(b)),
            None => None,
        };
        if told is Some {
            told
        } else {
            first_told(data, i + 1, n)
        }
    }
}

/// The length of the data, `most` where they are longer.
pub open spec fn searched(data: Seq<u8>, most: int) -> int {
    if data.len() < most {
        data.len() as int
    } else {
        most
    }
}

/// The first byte that is not zero lies among the first 256 and can begin a VP9
/// frame.
pub open spec fn begins_like_vp9(data: Seq<u8>) -> bool {
    let k = behind_zeros(data, 0);
    k < data.len() && k < 256 && has_frame_marker(data[k])
}

/// The codec of a stream. An IVF container names it, and counts as VP9 unless it
/// names AV1. Otherwise VP9 is told by its frame marker, and H.264 and H.265 by the
/// first parameter set near the beginning. Failing these, the first telling NAL unit
/// decides, and H.264 is the default.
pub open spec fn detected_codec(data: Seq<u8>) -> VideoCodec {
    if is_ivf(data) {
        if data[8] == 0x41 && data[9] == 0x56 && data[10] == 0x30 && data[11] == 0x31 {
            VideoCodec::Av1
        } else {
            VideoCodec::Vp9
        }
    } else if begins_like_vp9(data) {
        VideoCodec::Vp9
    } else {
        match first_set_codec(data, 0, searched(data, 4096)) {
            Some(c) => c,
            None => match first_told(data, 0, searched(data, 1024)) {
                Some(c) => c,
                None => VideoCodec::H264,
            },
        }
    }
}

fn nal_byte(data: &[u8], i: usize) -> (r: Option<u8>)
    requires
        i < data@.len(),
    ensures
        r == first_byte_at(data@, i as int),
{
    let len: usize = data.len();
    let left: usize = len - i;
    let start: usize = if left >= 4 && data[i] == 0 && data[i + 1] == 0 && data[i + 2] == 0
        && data[i + 3] == 1 {
        i + 4
    } else if left >= 3 && data[i] == 0 && data[i + 1] == 0 && data[i + 2] == 1 {
        i + 3
    } else {
        return None;
    };
    if start >= len {
        return None;
    }
    Some(data[start])
}

fn starts_like_vp9(data: &[u8]) -> (r: bool)
    ensures
        r == begins_like_vp9(data@),
{
    let mut i: usize = 0;
    while i < data.len() && i < 256 && data[i] == 0
        invariant
            i <= data@.len(),
            i <= 256,
            behind_zeros(data@, 0) == behind_zeros(data@, i as int),
        decreases data@.len() - i,
    {
        i = i + 1;
    }
    proof {
        lemma_behind_zeros_grows(data@, i as int);
    }
    i < data.len() && i < 256 && data[i] / 64 == 2
}

proof fn lemma_behind_zeros_grows(data: Seq<u8>, i: int)
    ensures
        behind_zeros(data, i) >= i,
    decreases data.len() - i,
{
    if 0 <= i < data.len() && data[i] == 0 {
        lemma_behind_zeros_grows(data, i + 1);
    }
}

/// Tells the codec of a stream.
pub fn detect_codec_from_data(data: &[u8]) -> (codec: VideoCodec)
    ensures
        codec == detected_codec(data@),
{
    if looks_like_ivf(data) {
        if data[8] == 0x41 && data[9] == 0x56 && data[10] == 0x30 && data[11] == 0x31 {
            return VideoCodec::Av1;
        }
        return VideoCodec::Vp9;
    }
    if starts_like_vp9(data) {
        return VideoCodec::Vp9;
    }
    let most: usize = if data.len() < 4096 {
        data.len()
    } else {
        4096
    };
    let mut i: usize = 0;
    while i < most
        invariant
            !is_ivf(data@),
            !begins_like_vp9(data@),
            i <= most <= data@.len(),
            most == searched(data@, 4096),
            first_set_codec(data@, 0, most as int) == first_set_codec(
                data@,
                i as int,
                most as int,
            ),
        decreases most - i,
    {
        if let Some(b) = nal_byte(data, i) {
            let t: u8 = (b / 2) % 64;
            if b < 128 && b % 2 == 0 && 32 <= t && t <= 34 {
                return VideoCodec::H265;
            }
            if b % 32 == 7 || b % 32 == 8 {
                return VideoCodec::H264;
            }
        }
        i = i + 1;
    }
    let n: usize = if data.len() < 1024 {
        data.len()
    } else {
        1024
    };
    let mut k: usize = 0;
    while k < n
        invariant
            !is_ivf(data@),
            !begins_like_vp9(data@),
            first_set_codec(data@, 0, searched(data@, 4096)) is None,
            k <= n <= data@.len(),
            n == searched(data@, 1024),
            first_told(data@, 0, n as int) == first_told(data@, k as int, n as int),
        decreases n - k,
    {
        if let Some(b) = nal_byte(data, k) {
            let t: u8 = b % 32;
            if (1 <= t && t <= 6) || t == 9 {
                return VideoCodec::H264;
            }
            if t == 0 || (12 <= t && t <= 21) {
                return VideoCodec::H265;
            }
        }
        k = k + 1;
    }
    VideoCodec::H264
}

/// In a stream that is no container and does not begin like VP9 the first parameter
/// set near its beginning decides, whatever else the stream holds.
pub proof fn law_parameter_sets_decide(data: Seq<u8>, i: int, codec: VideoCodec)
    requires
        !is_ivf(data),
        !begins_like_vp9(data),
        0 <= i < data.len(),
        i < 4096,
        set_codec_at(data, i) == Some(codec),
        forall|k: int| 0 <= k < i ==> #[trigger] set_codec_at(data, k) is None,
    ensures
        detected_codec(data) == codec,
{
    lemma_first_set_decides(data, 0, i, searched(data, 4096));
}

proof fn lemma_first_set_decides(data: Seq<u8>, from: int, i: int, n: int)
    requires
        from <= i < n,
        set_codec_at(data, i) is Some,
        forall|k: int| from <= k < i ==> #[trigger] set_codec_at(data, k) is None,
    ensures
        first_set_codec(data, from, n) == set_codec_at(data, i),
    decreases i - from,
{
    if from < i {
        assert(set_codec_at(data, from) is None);
        lemma_first_set_decides(data, from + 1, i, n);
    }
}

/// A first byte of 0x40, 0x42 or 0x44 is that of an H.265 parameter set; one whose low five
/// bits are seven or eight is that of an H.264 parameter set; no other is that of any.
pub proof fn law_set_bytes(b: u8)
    ensures
        codec_of_set(b) == Some(VideoCodec::H265) <==> b == 0x40 || b == 0x42 || b == 0x44,
        codec_of_set(b) == Some(VideoCodec::H264) <==> b as int % 32 == 7 || b as int % 32 == 8,
        codec_of_set(b) is None <==> b != 0x40 && b != 0x42 && b != 0x44 && b as int % 32 != 7
            && b as int % 32 != 8,
{
}

/// The types of NAL units that speak for a codec where there is no parameter set.
pub proof fn law_telling_types(t: u8)
    ensures
        codec_of_nal(t) == Some(VideoCodec::H264) <==> t == 1 || t == 2 || t == 3 || t == 4 || t
            == 5 || t == 6 || t == 9,
        codec_of_nal(t) == Some(VideoCodec::H265) <==> t == 0 || 12 <= t <= 21,
        codec_of_nal(t) is None <==> t == 7 || t == 8 || t == 10 || t == 11 || t >= 22,
{
}

/// A NAL unit begins behind two zeros and a one, or behind three zeros and a one.
pub proof fn law_units_begin_behind_start_codes(data: Seq<u8>, i: int)
    requires
        0 <= i < data.len(),
    ensures
        i + 3 < data.len() && data[i] == 0 && data[i + 1] == 0 && data[i + 2] == 1
            ==> first_byte_at(data, i) == Some(data[i + 3]),
        i + 4 < data.len() && data[i] == 0 && data[i + 1] == 0 && data[i + 2] == 0 && data[i + 3]
            == 1 ==> first_byte_at(data, i) == Some(data[i + 4]),
        first_byte_at(data, i) is Some ==> data[i] == 0 && i + 2 < data.len() && data[i + 1] == 0
            && (data[i + 2] == 1 || data[i + 2] == 0 && i + 3 < data.len() && data[i + 3] == 1),
{
}

/// A container whose header names AV01 holds AV1, and one that names anything else VP9.
pub proof fn law_containers_name_their_codec(data: Seq<u8>)
    requires
        data.len() >= 32,
        data[0] == 0x44 && data[1] == 0x4B && data[2] == 0x49 && data[3] == 0x46,
    ensures
        detected_codec(data) == VideoCodec::Av1 <==> data[8] == 0x41 && data[9] == 0x56 && data[10]
            == 0x30 && data[11] == 0x31,
        detected_codec(data) != VideoCodec::Av1 ==> detected_codec(data) == VideoCodec::Vp9,
{
}

/// Other data are VP9 exactly where the first byte that is not zero is among the first 256
/// and has the frame marker; they are never AV1.
pub proof fn law_marked_frames_are_vp9(data: Seq<u8>, k: int)
    requires
        data.len() < 32 || data[0] != 0x44 || data[1] != 0x4B || data[2] != 0x49 || data[3] != 0x46,
        0 <= k < data.len(),
        data[k] != 0,
        forall|j: int| 0 <= j < k ==> #[trigger] data[j] == 0,
    ensures
        detected_codec(data) == VideoCodec::Vp9 <==> k < 256 && 128 <= data[k] <= 191,
        detected_codec(data) != VideoCodec::Av1,
{
    lemma_behind_zeros_is(data, 0, k);
    lemma_sets_are_h26x(data, 0, searched(data, 4096));
    lemma_told_are_h26x(data, 0, searched(data, 1024));
}

proof fn lemma_behind_zeros_is(data: Seq<u8>, from: int, k: int)
    requires
        0 <= from <= k < data.len(),
        data[k] != 0,
        forall|j: int| from <= j < k ==> #[trigger] data[j] == 0,
    ensures
        behind_zeros(data, from) == k,
    decreases k - from,
{
    if from < k {
        assert(data[from] == 0);
        lemma_behind_zeros_is(data, from + 1, k);
    }
}

proof fn lemma_sets_are_h26x(data: Seq<u8>, i: int, n: int)
    ensures
        first_set_codec(data, i, n) matches Some(c) ==> c == VideoCodec::H264 || c
            == VideoCodec::H265,
    decreases n - i,
{
    if i < n {
        lemma_sets_are_h26x(data, i + 1, n);
    }
}

proof fn lemma_told_are_h26x(data: Seq<u8>, i: int, n: int)
    ensures
        first_told(data, i, n) matches Some(c) ==> c == VideoCodec::H264 || c == VideoCodec::H265,
    decreases n - i,
{
    if i < n {
        lemma_told_are_h26x(data, i + 1, n);
    }
}

/// Data that begin with a NAL unit which is a parameter set are those of its codec,
/// whatever follows.
pub proof fn law_leading_sets_decide(data: Seq<u8>, b: u8)
    requires
        data.len() > 4,
        data[0] == 0 && data[1] == 0,
        data[2] == 1 && data[3] == b || data[2] == 0 && data[3] == 1 && data[4] == b,
    ensures
        b == 0x40 || b == 0x42 || b == 0x44 ==> detected_codec(data) == VideoCodec::H265,
        b as int % 32 == 7 || b as int % 32 == 8 ==> detected_codec(data) == VideoCodec::H264,
{
    if data[2] == 1 {
        lemma_behind_zeros_is(data, 0, 2);
    } else {
        lemma_behind_zeros_is(data, 0, 3);
    }
    law_set_bytes(b);
    if codec_of_set(b) is Some {
        law_parameter_sets_decide(data, 0, codec_of_set(b)->0);
    }
}

/// Data without a parameter set are those of the first NAL unit that tells, among the first
/// 1024 bytes, and H.264 where none does.
pub proof fn law_first_telling_units_decide(data: Seq<u8>, i: int, k: int)
    requires
        data.len() < 32 || data[0] != 0x44,
        0 <= k < data.len(),
        data[k] != 0,
        data[k] < 128 || data[k] > 191,
        forall|j: int| 0 <= j < k ==> #[trigger] data[j] == 0,
        forall|j: int| 0 <= j < data.len() ==> #[trigger] set_codec_at(data, j) is None,
        0 <= i <= data.len(),
        i <= 1024,
        forall|j: int| 0 <= j < i ==> !#[trigger] tells(data, j),
    ensures
        i < 1024 && tells(data, i) ==> detected_codec(data) == codec_of_nal(
            (first_byte_at(data, i)->0 as int % 32) as u8,
        )->0,
        i == data.len() || i == 1024 ==> detected_codec(data) == VideoCodec::H264,
{
    lemma_behind_zeros_is(data, 0, k);
    lemma_no_set(data, 0, searched(data, 4096));
    if i < 1024 && tells(data, i) {
        lemma_first_told_is(data, 0, i, searched(data, 1024));
    }
    if i == data.len() || i == 1024 {
        lemma_nothing_told(data, 0, searched(data, 1024));
    }
}

/// A NAL unit whose start code is at `i` tells a codec.
pub open spec fn tells(data: Seq<u8>, i: int) -> bool {
    0 <= i < data.len() && (first_byte_at(data, i) matches Some(b) && (1 <= b % 32 <= 6 || b % 32
        == 9 || b % 32 == 0 || 12 <= b % 32 <= 21))
}

proof fn lemma_no_set(data: Seq<u8>, i: int, n: int)
    requires
        0 <= i,
        n <= data.len(),
        forall|j: int| i <= j < n ==> #[trigger] set_codec_at(data, j) is None,
    ensures
        first_set_codec(data, i, n) is None,
    decreases n - i,
{
    if i < n {
        assert(set_codec_at(data, i) is None);
        lemma_no_set(data, i + 1, n);
    }
}

proof fn lemma_first_told_is(data: Seq<u8>, from: int, i: int, n: int)
    requires
        0 <= from <= i < n <= data.len(),
        tells(data, i),
        forall|j: int| from <= j < i ==> !#[trigger] tells(data, j),
    ensures
        first_told(data, from, n) == codec_of_nal((first_byte_at(data, i)->0 as int % 32) as u8),
    decreases i - from,
{
    if from < i {
        assert(!tells(data, from));
        lemma_first_told_is(data, from + 1, i, n);
    }
}

proof fn lemma_nothing_told(data: Seq<u8>, from: int, n: int)
    requires
        0 <= from,
        n <= data.len(),
        forall|j: int| from <= j < n ==> !#[trigger] tells(data, j),
    ensures
        first_told(data, from, n) is None,
    decreases n - from,
{
    if from < n {
        assert(!tells(data, from));
        lemma_nothing_told(data, from + 1, n);
    }
}

} // verus!
