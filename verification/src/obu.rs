//! AV1 open bitstream units: the frames of a packet.

use crate::container::{
    byte_seqs, is_ivf, ivf_contents, ivf_or_whole, least, looks_like_ivf, owned, owned_part,
    unpack_ivf,
};
use vstd::arithmetic::div_mod::lemma_mod_multiples_vanish;
use vstd::prelude::*;

verus! {

/// The place behind a LEB128 number that begins at `i`: behind the first byte
/// below 128, or the end of the data.
pub open spec fn leb_end(data: Seq<u8>, i: int) -> int
    decreases data.len() - i,
{
    if i < 0 || i >= data.len() {
        i
    } else if data[i] < 128 {
        i + 1
    } else {
        leb_end(data, i + 1)
    }
}

/// The value of a LEB128 number: seven bits of each byte, the lowest first.
pub open spec fn leb_value(bytes: Seq<u8>) -> nat
    decreases bytes.len(),
{
    if bytes.len() == 0 {
        0
    } else {
        (bytes[0] % 128) as nat + 128 * leb_value(bytes.skip(1))
    }
}

/// The size that a LEB128 number at `i` gives, in 64 bits.
pub open spec fn leb_size(data: Seq<u8>, i: int) -> nat {
    leb_value(data.subrange(i, leb_end(data, i))) % 0x1_0000_0000_0000_0000
}

/// The type of a unit, from its first byte.
pub open spec fn obu_type(first: u8) -> u8 {
    first / 8 % 16
}

/// The length of a unit's header, from its first byte.
pub open spec fn obu_header_len(first: u8) -> nat {
    (1 + first / 4 % 2) as nat
}

/// Whether a unit gives its size, from its first byte.
pub open spec fn obu_has_size(first: u8) -> bool {
    first / 2 % 2 == 1
}

/// Information about a single Frame OBU (type 6) or show_existing_frame
/// FrameHeader OBU (type 3) within a packet.
#[derive(Debug, Clone)]
pub struct FrameObuInfo {
    /// The OBU payload (frame header and tile data for Frame OBUs; frame header
    /// only for FrameHeader OBUs).
    pub payload: Vec<u8>,
    /// Offset of the payload within the packet.
    pub payload_start: u32,
    /// Size of the payload.
    pub payload_size: u32,
}

/// A frame unit of a packet as a mathematical value: where its payload begins
/// and ends.
pub struct ObuSpan {
    pub start: int,
    pub end: int,
}

/// The frame units of a packet from `pos` on, in order. A FrameHeader unit counts
/// only where it shows an existing frame, which the top bit of its payload says.
pub open spec fn frame_obus(packet: Seq<u8>, pos: int) -> Seq<ObuSpan>
    decreases packet.len() - pos,
    when 0 <= pos
{
    if pos + 1 >= packet.len() {
        Seq::empty()
    } else {
        let first = packet[pos];
        let at = pos + obu_header_len(first);
        if obu_has_size(first) && at < packet.len() {
            let start = leb_end(packet, at);
            let size = leb_size(packet, at);
            let shows_existing = obu_type(first) == 3 && size > 0 && start < packet.len()
                && packet[start] >= 128;
            let end = least(start + size, packet.len() as int);
            if end <= pos {
                Seq::empty()
            } else if obu_type(first) == 6 || shows_existing {
                seq![ObuSpan { start, end }] + frame_obus(packet, end)
            } else {
                frame_obus(packet, end)
            }
        } else {
            frame_obus(packet, at)
        }
    }
}

/// A described frame unit is the given span of a packet.
pub open spec fn describes(info: FrameObuInfo, packet: Seq<u8>, span: ObuSpan) -> bool {
    &&& info.payload@ == packet.subrange(span.start, span.end)
    &&& info.payload_start == span.start as u32
    &&& info.payload_size == (span.end - span.start) as u32
}

/// The described frame units are the given spans of a packet, one for one.
pub open spec fn all_describe(
    infos: Seq<FrameObuInfo>,
    packet: Seq<u8>,
    spans: Seq<ObuSpan>,
) -> bool {
    &&& infos.len() == spans.len()
    &&& forall|i: int|
        0 <= i < infos.len() ==> describes(#[trigger] infos[i], packet, spans[i])
}

proof fn lemma_leb_end(data: Seq<u8>, i: int)
    requires
        0 <= i < data.len(),
    ensures
        i < leb_end(data, i) <= data.len(),
    decreases data.len() - i,
{
    if data[i] >= 128 {
        if i + 1 < data.len() {
            lemma_leb_end(data, i + 1);
        } else {
            assert(leb_end(data, i + 1) == i + 1);
        }
    }
}

/// Frame units lie within the packet, one behind the other.
pub proof fn law_frame_obus_lie_in_order(packet: Seq<u8>, pos: int)
    requires
        0 <= pos,
    ensures
        forall|i: int|
            0 <= i < frame_obus(packet, pos).len() ==> {
                let s = #[trigger] frame_obus(packet, pos)[i];
                pos < s.start <= s.end <= packet.len()
            },
        forall|i: int, j: int|
            0 <= i < j < frame_obus(packet, pos).len() ==> (#[trigger] frame_obus(packet, pos)[i]).end
                <= (#[trigger] frame_obus(packet, pos)[j]).start,
    decreases packet.len() - pos,
{
    let all = frame_obus(packet, pos);
    if pos + 1 < packet.len() {
        let first = packet[pos];
        let at = pos + obu_header_len(first);
        if obu_has_size(first) && at < packet.len() {
            lemma_leb_end(packet, at);
            let next = least(leb_end(packet, at) + leb_size(packet, at), packet.len() as int);
            law_frame_obus_lie_in_order(packet, next);
            let rest = frame_obus(packet, next);
            assert(all == rest || (all.len() == rest.len() + 1 && all[0].start == leb_end(packet, at)
                && all[0].end == next && all.skip(1) =~= rest));
            assert forall|i: int| 0 <= i < all.len() implies {
                let s = #[trigger] all[i];
                pos < s.start <= s.end <= packet.len()
            } by {
                if all.len() == rest.len() {
                    assert(all[i] == rest[i]);
                } else if i > 0 {
                    assert(all[i] == rest[i - 1]);
                }
            }
            assert forall|i: int, j: int| 0 <= i < j < all.len() implies (#[trigger] all[i]).end <= (
            #[trigger] all[j]).start by {
                if all.len() == rest.len() {
                    assert(all[i] == rest[i] && all[j] == rest[j]);
                } else {
                    assert(all[j] == rest[j - 1]);
                    if i > 0 {
                        assert(all[i] == rest[i - 1]);
                    }
                }
            }
        } else {
            law_frame_obus_lie_in_order(packet, at);
            let rest = frame_obus(packet, at);
            assert(all == rest);
            assert forall|i: int| 0 <= i < all.len() implies {
                let s = #[trigger] all[i];
                pos < s.start <= s.end <= packet.len()
            } by {
                assert(all[i] == rest[i]);
            }
        }
    }
}

fn find_leb_end(data: &[u8], from: usize) -> (end: usize)
    requires
        from < data@.len(),
    ensures
        end == leb_end(data@, from as int),
        from < end <= data@.len(),
{
    proof {
        lemma_leb_end(data@, from as int);
    }
    let mut i: usize = from;
    while i < data.len()
        invariant
            from <= i <= data@.len(),
            leb_end(data@, from as int) == leb_end(data@, i as int),
        decreases data@.len() - i,
    {
        if data[i] < 128 {
            return i + 1;
        }
        i = i + 1;
    }
    i
}

fn read_leb(data: &[u8], from: usize, end: usize) -> (size: u64)
    requires
        from < data@.len(),
        end == leb_end(data@, from as int),
        from < end <= data@.len(),
    ensures
        size == leb_size(data@, from as int),
{
    let mut size: u64 = 0;
    let mut j: usize = end;
    assert(data@.subrange(j as int, end as int) =~= Seq::empty());
    while j > from
        invariant
            from <= j <= end <= data@.len(),
            size as int == leb_value(data@.subrange(j as int, end as int)) as int
                % 0x1_0000_0000_0000_0000,
        decreases j - from,
    {
        let ghost tail = data@.subrange(j as int, end as int);
        let ghost old_size = size as int;
        j = j - 1;
        let low: u64 = (data[j] % 128) as u64;
        proof {
            let part = data@.subrange(j as int, end as int);
            assert(part.skip(1) =~= tail);
            assert(part[0] == data@[j as int]);
            let m: int = 0x1_0000_0000_0000_0000;
            let v = leb_value(tail) as int;
            let q = v / m;
            assert(v == m * q + old_size);
            lemma_mod_multiples_vanish(128 * q, low + 128 * old_size, m);
            assert(low + 128 * v == m * (128 * q) + (low + 128 * old_size)) by (nonlinear_arith)
                requires
                    v == m * q + old_size,
            ;
            assert((low + 128 * v) % m == (low + 128 * old_size) % m);
            let shifted = (128 * old_size) % m;
            lemma_mod_multiples_vanish((128 * old_size) / m, low + shifted, m);
            assert(low + 128 * old_size == m * ((128 * old_size) / m) + (low + shifted));
        }
        size = size.wrapping_mul(128).wrapping_add(low);
    }
    size
}

/// Extracts all Frame OBUs (type 6) and show_existing_frame FrameHeader OBUs
/// (type 3) from a packet, in order.
///
/// A FrameHeader OBU counts only where its payload signals
/// `show_existing_frame` (the top bit of its first byte): it carries no tile
/// data. Redundant frame headers are passed over.
pub fn extract_frame_obus_from_packet(packet: &[u8]) -> (obus: Vec<FrameObuInfo>)
    ensures
        all_describe(obus@, packet@, frame_obus(packet@, 0)),
{
    let mut obus: Vec<FrameObuInfo> = Vec::new();
    let mut pos: usize = 0;
    let ghost mut spans = Seq::<ObuSpan>::empty();
    let ghost all = frame_obus(packet@, 0);
    assert(spans + frame_obus(packet@, 0) =~= all);
    while pos < packet.len() && packet.len() - pos > 1
        invariant
            pos <= packet@.len(),
            all == spans + frame_obus(packet@, pos as int),
            all_describe(obus@, packet@, spans),
        decreases packet@.len() - pos,
    {
        let first: u8 = packet[pos];
        let kind: u8 = first / 8 % 16;
        let header_len: usize = 1 + (first / 4 % 2) as usize;
        let has_size: bool = first / 2 % 2 == 1;
        let at: usize = pos + header_len;
        if has_size && at < packet.len() {
            let start: usize = find_leb_end(packet, at);
            let size: u64 = read_leb(packet, at, start);
            let room: usize = packet.len() - start;
            let end: usize = if size > room as u64 {
                packet.len()
            } else {
                start + size as usize
            };
            let shows_existing: bool = kind == 3 && size > 0 && start < packet.len()
                && packet[start] >= 128;
            let ghost rest = frame_obus(packet@, end as int);
            if kind == 6 || shows_existing {
                let info = FrameObuInfo {
                    payload: owned_part(packet, start, end),
                    payload_start: start as u32,
                    payload_size: (end - start) as u32,
                };
                obus.push(info);
                proof {
                    let span = ObuSpan { start: start as int, end: end as int };
                    assert(spans + (seq![span] + rest) =~= spans.push(span) + rest);
                    spans = spans.push(span);
                }
            }
            pos = end;
        } else {
            pos = at;
        }
    }
    assert(spans + Seq::<ObuSpan>::empty() =~= spans);
    obus
}

/// An AV1 frame extracted from the bitstream.
#[derive(Debug, Clone)]
pub struct Av1Frame {
    /// The full IVF packet (bitstream): the GPU decodes from this buffer.
    pub data: Vec<u8>,
    /// Frame count (sequential, per Frame OBU).
    pub frame_count: u32,
    /// The Frame OBU payload (frame header and tile data), used to parse the
    /// frame header.
    pub frame_obu_payload: Vec<u8>,
    /// Offset of the Frame OBU payload within `data` (the packet).
    pub payload_start: u32,
    /// Size of the Frame OBU payload within `data`.
    pub payload_size: u32,
}

/// A frame unit together with the packet that holds it.
pub struct PacketSpan {
    pub packet: Seq<u8>,
    pub span: ObuSpan,
}

/// The frame units of the first `k` packets, in order.
pub open spec fn packet_spans(packets: Seq<Seq<u8>>, k: nat) -> Seq<PacketSpan>
    decreases k,
{
    if k == 0 {
        Seq::empty()
    } else {
        packet_spans(packets, (k - 1) as nat) + frame_obus(packets[k - 1], 0).map_values(
            |s: ObuSpan| PacketSpan { packet: packets[k - 1], span: s },
        )
    }
}

/// The packets of an AV1 stream: those of an IVF container, the whole stream
/// where there is none or it is refused.
pub open spec fn av1_packets(data: Seq<u8>) -> Seq<Seq<u8>> {
    if is_ivf(data) {
        ivf_or_whole(data)
    } else {
        seq![data]
    }
}

/// How many frame units are taken out of a stream at most: ten for each wanted
/// frame, as far as that can be counted, and never fewer than 64.
pub open spec fn max_obus(max_frames: usize) -> int {
    if max_frames * 10 < 64 {
        64
    } else {
        least(max_frames * 10, usize::MAX as int)
    }
}

/// An extracted frame is the given frame unit, the `i`-th of the stream.
pub open spec fn frame_is(frame: Av1Frame, p: PacketSpan, i: int) -> bool {
    &&& frame.data@ == p.packet
    &&& frame.frame_count == i as u32
    &&& frame.frame_obu_payload@ == p.packet.subrange(p.span.start, p.span.end)
    &&& frame.payload_start == p.span.start as u32
    &&& frame.payload_size == (p.span.end - p.span.start) as u32
}

/// The frames are the first of the given frame units, one for one.
pub open spec fn frames_are(frames: Seq<Av1Frame>, spans: Seq<PacketSpan>) -> bool {
    forall|i: int| 0 <= i < frames.len() ==> frame_is(#[trigger] frames[i], spans[i], i)
}

/// An extracted frame is made of a packet and a described unit of it.
pub open spec fn is_made_of(frame: Av1Frame, packet: Seq<u8>, obu: FrameObuInfo, i: int) -> bool {
    &&& frame.data@ == packet
    &&& frame.frame_count == i as u32
    &&& frame.frame_obu_payload@ == obu.payload@
    &&& frame.payload_start == obu.payload_start
    &&& frame.payload_size == obu.payload_size
}

/// Appends the frames of a packet, as far as the limit goes.
fn append_frames(
    frames: &mut Vec<Av1Frame>,
    packet: &[u8],
    obus: &Vec<FrameObuInfo>,
    limit: usize,
)
    requires
        old(frames)@.len() <= limit,
    ensures
        final(frames)@.len() == least(
            (old(frames)@.len() + obus@.len()) as int,
            limit as int,
        ),
        forall|i: int|
            0 <= i < old(frames)@.len() ==> #[trigger] final(frames)@[i] == old(frames)@[i],
        forall|i: int|
            old(frames)@.len() <= i < final(frames)@.len() ==> is_made_of(
                #[trigger] final(frames)@[i],
                packet@,
                obus@[i - old(frames)@.len()],
                i,
            ),
{
    let ghost before = frames@;
    let mut j: usize = 0;
    while j < obus.len() && frames.len() < limit
        invariant
            j <= obus@.len(),
            frames@.len() == before.len() + j,
            frames@.len() <= limit,
            forall|i: int| 0 <= i < before.len() ==> #[trigger] frames@[i] == before[i],
            forall|i: int|
                before.len() <= i < frames@.len() ==> is_made_of(
                    #[trigger] frames@[i],
                    packet@,
                    obus@[i - before.len()],
                    i,
                ),
        decreases obus@.len() - j,
    {
        let obu: &FrameObuInfo = &obus[j];
        let frame = Av1Frame {
            data: owned(packet),
            frame_count: frames.len() as u32,
            frame_obu_payload: owned(obu.payload.as_slice()),
            payload_start: obu.payload_start,
            payload_size: obu.payload_size,
        };
        frames.push(frame);
        j = j + 1;
    }
}

/// Frames that were appended for the `k`-th packet are the next of the stream.
proof fn lemma_appended_frames(
    before: Seq<Av1Frame>,
    after: Seq<Av1Frame>,
    packets: Seq<Seq<u8>>,
    k: nat,
    obus: Seq<FrameObuInfo>,
)
    requires
        k < packets.len(),
        before.len() == packet_spans(packets, k).len(),
        frames_are(before, packet_spans(packets, k)),
        all_describe(obus, packets[k as int], frame_obus(packets[k as int], 0)),
        before.len() <= after.len() <= before.len() + obus.len(),
        forall|i: int| 0 <= i < before.len() ==> #[trigger] after[i] == before[i],
        forall|i: int|
            before.len() <= i < after.len() ==> is_made_of(
                #[trigger] after[i],
                packets[k as int],
                obus[i - before.len()],
                i,
            ),
    ensures
        frames_are(after, packet_spans(packets, k + 1)),
        packet_spans(packets, k + 1).len() == before.len() + obus.len(),
{
    let spans = packet_spans(packets, k + 1);
    let own = frame_obus(packets[k as int], 0);
    assert forall|i: int| 0 <= i < after.len() implies frame_is(#[trigger] after[i], spans[i], i) by {
        if i < before.len() {
            assert(frame_is(before[i], packet_spans(packets, k)[i], i));
        } else {
            let j = i - before.len();
            assert(describes(obus[j], packets[k as int], own[j]));
            assert(is_made_of(after[i], packets[k as int], obus[j], i));
            assert(spans[i] == (PacketSpan { packet: packets[k as int], span: own[j] }));
        }
    }
}

/// Frames that are the first of some units are the first of more.
proof fn lemma_frames_of_prefix(
    frames: Seq<Av1Frame>,
    spans: Seq<PacketSpan>,
    all: Seq<PacketSpan>,
)
    requires
        frames_are(frames, spans),
        frames.len() <= spans.len(),
        spans.is_prefix_of(all),
    ensures
        frames_are(frames, all),
{
    assert forall|i: int| 0 <= i < frames.len() implies frame_is(#[trigger] frames[i], all[i], i) by {
        assert(frame_is(frames[i], spans[i], i));
    }
}

/// Extracts AV1 frames from an IVF container or a raw bitstream.
///
/// There is one frame per Frame OBU (type 6) and per show_existing_frame
/// FrameHeader OBU (type 3) in the bitstream, in order; each carries the full
/// packet and the place of its payload in it. `max_frames` limits how many are
/// taken: ten times as many, since some of them may not be displayed.
pub fn extract_av1_frames(data: &[u8], max_frames: usize) -> (frames: Vec<Av1Frame>)
    ensures
        ({
            let spans = packet_spans(av1_packets(data@), av1_packets(data@).len());
            &&& frames@.len() == least(spans.len() as int, max_obus(max_frames))
            &&& frames_are(frames@, spans)
        }),
{
    let packets: Vec<Vec<u8>> = if looks_like_ivf(data) {
        unpack_ivf(data)
    } else {
        let mut v: Vec<Vec<u8>> = Vec::new();
        v.push(owned(data));
        assert(byte_seqs(v@) =~= seq![data@]);
        v
    };
    let ghost seqs = byte_seqs(packets@);
    let ghost all = packet_spans(seqs, seqs.len());
    let limit: usize = if max_frames < 7 {
        64
    } else if max_frames > usize::MAX / 10 {
        usize::MAX
    } else {
        max_frames * 10
    };
    let mut frames: Vec<Av1Frame> = Vec::new();
    let mut k: usize = 0;
    while k < packets.len()
        invariant
            k <= packets@.len(),
            seqs == byte_seqs(packets@),
            all == packet_spans(seqs, seqs.len()),
            limit == max_obus(max_frames),
            seqs == av1_packets(data@),
            frames@.len() == packet_spans(seqs, k as nat).len(),
            frames@.len() < limit,
            frames_are(frames@, packet_spans(seqs, k as nat)),
        decreases packets@.len() - k,
    {
        let packet: &Vec<u8> = &packets[k];
        assert(seqs[k as int] == packet@);
        let obus: Vec<FrameObuInfo> = extract_frame_obus_from_packet(packet.as_slice());
        let ghost before = frames@;
        append_frames(&mut frames, packet.as_slice(), &obus, limit);
        proof {
            lemma_appended_frames(before, frames@, seqs, k as nat, obus@);
            lemma_packet_spans_prefix(seqs, k as nat + 1, seqs.len());
        }
        if frames.len() >= limit {
            proof {
                lemma_frames_of_prefix(frames@, packet_spans(seqs, k as nat + 1), all);
            }
            return frames;
        }
        k = k + 1;
    }
    frames
}

proof fn lemma_packet_spans_prefix(packets: Seq<Seq<u8>>, k: nat, n: nat)
    requires
        k <= n,
    ensures
        packet_spans(packets, k).is_prefix_of(packet_spans(packets, n)),
    decreases n - k,
{
    if k < n {
        lemma_packet_spans_prefix(packets, k, (n - 1) as nat);
        let a = packet_spans(packets, k);
        let b = packet_spans(packets, (n - 1) as nat);
        let c = packet_spans(packets, n);
        assert(c.take(b.len() as int) =~= b);
        assert(c.take(a.len() as int) =~= b.take(a.len() as int));
    }
}

// ---------------------------------------------------------------------------
// The frame header of a packet
// ---------------------------------------------------------------------------

/// The place of the first frame header from `pos` on, among units that give
/// their size; bytes that begin no such unit are passed over one by one. Zero
/// where there is none.
pub open spec fn frame_header_from(data: Seq<u8>, pos: int) -> int
    decreases data.len() - pos,
    when 0 <= pos
{
    if pos + 1 >= data.len() {
        0
    } else {
        let first = data[pos];
        let at = pos + obu_header_len(first);
        if obu_has_size(first) && at < data.len() {
            let end = leb_end(data, at);
            let next = least(end + leb_size(data, at), data.len() as int);
            if obu_type(first) == 6 || obu_type(first) == 3 {
                end
            } else if next <= pos {
                0
            } else {
                frame_header_from(data, next)
            }
        } else {
            frame_header_from(data, pos + 1)
        }
    }
}

/// The place of the frame header in a packet. Where the packet begins with a
/// frame unit that is its header, whether the unit gives its size or not.
pub open spec fn frame_header_place(data: Seq<u8>) -> int {
    if data.len() == 0 {
        0
    } else {
        let first = data[0];
        let at = obu_header_len(first);
        if data.len() <= at {
            0
        } else if obu_type(first) == 6 || obu_type(first) == 3 {
            if obu_has_size(first) {
                leb_end(data, at as int)
            } else {
                at as int
            }
        } else {
            frame_header_from(data, 0)
        }
    }
}

/// Finds the offset of the frame header in an AV1 frame.
pub fn find_av1_frame_header_offset(data: &[u8]) -> (r: u32)
    ensures
        r == frame_header_place(data@) as u32,
{
    if data.len() == 0 {
        return 0;
    }
    let first: u8 = data[0];
    let kind: u8 = first / 8 % 16;
    let header_len: usize = 1 + (first / 4 % 2) as usize;
    if data.len() <= header_len {
        return 0;
    }
    if kind == 6 || kind == 3 {
        return if first / 2 % 2 == 1 {
            find_leb_end(data, header_len) as u32
        } else {
            header_len as u32
        };
    }
    let mut pos: usize = 0;
    while pos < data.len() && data.len() - pos > 1
        invariant
            pos <= data@.len(),
            frame_header_place(data@) == frame_header_from(data@, pos as int),
        decreases data@.len() - pos,
    {
        let first: u8 = data[pos];
        let kind: u8 = first / 8 % 16;
        let at: usize = pos + 1 + (first / 4 % 2) as usize;
        if first / 2 % 2 == 1 && at < data.len() {
            let end: usize = find_leb_end(data, at);
            let size: u64 = read_leb(data, at, end);
            if kind == 6 || kind == 3 {
                return end as u32;
            }
            let room: usize = data.len() - end;
            pos = if size > room as u64 {
                data.len()
            } else {
                end + size as usize
            };
        } else {
            pos = pos + 1;
        }
    }
    0
}

// ---------------------------------------------------------------------------
// Writing and reading back
// ---------------------------------------------------------------------------

/// A number in groups of seven bits, the lowest first; all bytes but the last have their
/// highest bit set.
pub open spec fn leb_bytes(v: nat) -> Seq<u8>
    decreases v,
{
    if v < 128 {
        seq![v as u8]
    } else {
        seq![(128 + v % 128) as u8] + leb_bytes(v / 128)
    }
}

/// A number that was written in groups of seven bits is read back, whatever stands before
/// and behind it.
pub proof fn law_leb_reads_back(before: Seq<u8>, v: nat, rest: Seq<u8>)
    ensures
        ({
            let data = before + leb_bytes(v) + rest;
            let end = (before.len() + leb_bytes(v).len()) as int;
            &&& leb_end(data, before.len() as int) == end
            &&& leb_value(data.subrange(before.len() as int, end)) == v
            &&& v <= u64::MAX ==> leb_size(data, before.len() as int) == v
            &&& leb_bytes(v).len() >= 1
        }),
    decreases v,
{
    let data = before + leb_bytes(v) + rest;
    let o = before.len() as int;
    let end = (before.len() + leb_bytes(v).len()) as int;
    let own = data.subrange(o, end);
    assert(own =~= leb_bytes(v));
    if v < 128 {
        assert(data[o] == leb_bytes(v)[0]);
        assert(own.skip(1) =~= Seq::empty());
        assert(leb_value(own.skip(1)) == 0);
    } else {
        let b = seq![(128 + v % 128) as u8];
        assert(leb_bytes(v) == b + leb_bytes(v / 128));
        assert(data[o] == b[0]);
        law_leb_reads_back(before + b, v / 128, rest);
        assert(data =~= (before + b) + leb_bytes(v / 128) + rest);
        assert(own.skip(1) =~= data.subrange(o + 1, end));
    }
}

/// A unit of a packet: its type, the byte of its extension if it has one, and its payload.
pub struct WrittenObu {
    pub kind: nat,
    pub extension: Option<u8>,
    pub payload: Seq<u8>,
}

/// The bytes before the payload of a unit that gives its size: the type in four bits, marks
/// for the extension and the size in one bit each; the extension; the size.
pub open spec fn obu_head(u: WrittenObu) -> Seq<u8> {
    match u.extension {
        Some(e) => seq![(8 * u.kind + 6) as u8, e] + leb_bytes(u.payload.len()),
        None => seq![(8 * u.kind + 2) as u8] + leb_bytes(u.payload.len()),
    }
}

/// Units one behind the other.
pub open spec fn obu_bytes(units: Seq<WrittenObu>) -> Seq<u8>
    decreases units.len(),
{
    if units.len() == 0 {
        Seq::empty()
    } else {
        obu_head(units[0]) + units[0].payload + obu_bytes(units.skip(1))
    }
}

/// A unit is a frame, or the header of one that shows an existing frame.
pub open spec fn is_frame_unit(u: WrittenObu) -> bool {
    u.kind == 6 || (u.kind == 3 && u.payload.len() > 0 && u.payload[0] >= 0x80)
}

/// Where the payloads of the frame units lie, from `pos` on.
pub open spec fn frame_places(units: Seq<WrittenObu>, pos: int) -> Seq<ObuSpan>
    decreases units.len(),
{
    if units.len() == 0 {
        Seq::empty()
    } else {
        let start = pos + obu_head(units[0]).len();
        let end = start + units[0].payload.len();
        let rest = frame_places(units.skip(1), end);
        if is_frame_unit(units[0]) {
            seq![ObuSpan { start, end }] + rest
        } else {
            rest
        }
    }
}

/// The units can be written.
pub open spec fn can_write(units: Seq<WrittenObu>) -> bool {
    forall|i: int|
        0 <= i < units.len() ==> (#[trigger] units[i]).kind < 16 && units[i].payload.len()
            <= u64::MAX
}

proof fn lemma_obu_head(before: Seq<u8>, u: WrittenObu, rest: Seq<u8>)
    requires
        u.kind < 16,
        u.payload.len() <= u64::MAX,
    ensures
        ({
            let data = before + obu_head(u) + u.payload + rest;
            let pos = before.len() as int;
            let first = data[pos];
            let at = pos + obu_header_len(first);
            &&& pos + 1 < data.len()
            &&& obu_type(first) == u.kind
            &&& obu_has_size(first)
            &&& at < data.len()
            &&& leb_end(data, at) == pos + obu_head(u).len()
            &&& leb_size(data, at) == u.payload.len()
        }),
{
    let data = before + obu_head(u) + u.payload + rest;
    let pos = before.len() as int;
    let head = match u.extension {
        Some(e) => seq![(8 * u.kind + 6) as u8, e],
        None => seq![(8 * u.kind + 2) as u8],
    };
    assert(obu_head(u) == head + leb_bytes(u.payload.len()));
    law_leb_reads_back(before + head, u.payload.len(), u.payload + rest);
    assert(data =~= (before + head) + leb_bytes(u.payload.len()) + (u.payload + rest));
    assert(data[pos] == head[0]);
    let first = data[pos];
    let k = u.kind as int;
    if u.extension is Some {
        assert(first == 8 * k + 6);
        assert(first / 8 == k && first / 4 % 2 == 1 && first / 2 % 2 == 1);
    } else {
        assert(first == 8 * k + 2);
        assert(first / 8 == k && first / 4 % 2 == 0 && first / 2 % 2 == 1);
    }
}

/// The frame units of a packet are found where they were written: all units of type 6, and
/// those of type 3 whose payload has its highest bit set.
pub proof fn law_frame_units_are_found(before: Seq<u8>, units: Seq<WrittenObu>)
    requires
        can_write(units),
    ensures
        frame_obus(before + obu_bytes(units), before.len() as int) == frame_places(
            units,
            before.len() as int,
        ),
    decreases units.len(),
{
    let data = before + obu_bytes(units);
    let pos = before.len() as int;
    if units.len() == 0 {
        assert(frame_obus(data, pos) =~= Seq::empty());
    } else {
        let u = units[0];
        let rest = units.skip(1);
        assert(u.kind < 16 && u.payload.len() <= u64::MAX);
        assert forall|i: int| 0 <= i < rest.len() implies (#[trigger] rest[i]).kind < 16
            && rest[i].payload.len() <= u64::MAX by {
            assert(rest[i] == units[i + 1]);
        }
        let tail = obu_bytes(rest);
        assert(data =~= before + obu_head(u) + u.payload + tail);
        lemma_obu_head(before, u, tail);
        let next = before + obu_head(u) + u.payload;
        law_frame_units_are_found(next, rest);
        assert(data =~= next + tail);
        let start = pos + obu_head(u).len();
        if u.payload.len() > 0 {
            assert(data[start] == u.payload[0]);
        }
        assert(obu_head(u).len() >= 1);
    }
}

/// The payload of a frame unit that was found is the one that was written.
pub proof fn law_frame_payloads_come_back(before: Seq<u8>, units: Seq<WrittenObu>, k: int)
    requires
        can_write(units),
        0 <= k < frame_places(units, before.len() as int).len(),
    ensures
        ({
            let s = frame_places(units, before.len() as int)[k];
            exists|i: int|
                0 <= i < units.len() && is_frame_unit(#[trigger] units[i]) && (before + obu_bytes(
                    units,
                )).subrange(s.start, s.end) == units[i].payload
        }),
    decreases units.len(),
{
    let pos = before.len() as int;
    let u = units[0];
    let rest = units.skip(1);
    let data = before + obu_bytes(units);
    let next = before + obu_head(u) + u.payload;
    let start = pos + obu_head(u).len();
    let end = start + u.payload.len();
    assert(data =~= next + obu_bytes(rest));
    assert forall|i: int| 0 <= i < rest.len() implies (#[trigger] rest[i]).kind < 16
        && rest[i].payload.len() <= u64::MAX by {
        assert(rest[i] == units[i + 1]);
    }
    let places = frame_places(units, pos);
    let others = frame_places(rest, end);
    let j = if is_frame_unit(u) {
        k - 1
    } else {
        k
    };
    if j < 0 {
        assert(data.subrange(start, end) =~= u.payload);
        assert(places[0] == (ObuSpan { start, end }));
    } else {
        assert(places[k] == others[j]);
        law_frame_payloads_come_back(next, rest, j);
        let s = others[j];
        let i = choose|i: int|
            0 <= i < rest.len() && is_frame_unit(#[trigger] rest[i]) && (next + obu_bytes(
                rest,
            )).subrange(s.start, s.end) == rest[i].payload;
        assert(units[i + 1] == rest[i]);
    }
}

/// The frame header is found: behind units of other types it begins with the payload of the
/// first unit of type 3 or 6.
pub proof fn law_frame_header_is_found(before: Seq<WrittenObu>, u: WrittenObu, rest: Seq<u8>)
    requires
        can_write(before),
        u.kind == 6 || u.kind == 3,
        u.payload.len() <= u64::MAX,
        forall|i: int|
            0 <= i < before.len() ==> (#[trigger] before[i]).kind != 6 && before[i].kind != 3,
    ensures
        frame_header_place(obu_bytes(before) + obu_head(u) + u.payload + rest) == obu_bytes(
            before,
        ).len() + obu_head(u).len(),
{
    let data = obu_bytes(before) + obu_head(u) + u.payload + rest;
    if before.len() == 0 {
        assert(obu_bytes(before) =~= Seq::empty());
        lemma_obu_head(obu_bytes(before), u, rest);
    } else {
        let b = before[0];
        assert(b.kind < 16 && b.payload.len() <= u64::MAX);
        let tail = obu_bytes(before.skip(1)) + obu_head(u) + u.payload + rest;
        assert(data =~= Seq::<u8>::empty() + obu_head(b) + b.payload + tail);
        lemma_obu_head(Seq::empty(), b, tail);
        lemma_frame_header_from(Seq::empty(), before, u, rest);
        assert(data =~= Seq::<u8>::empty() + obu_bytes(before) + obu_head(u) + u.payload + rest);
    }
}

proof fn lemma_frame_header_from(
    behind: Seq<u8>,
    before: Seq<WrittenObu>,
    u: WrittenObu,
    rest: Seq<u8>,
)
    requires
        can_write(before),
        u.kind == 6 || u.kind == 3,
        u.payload.len() <= u64::MAX,
        forall|i: int|
            0 <= i < before.len() ==> (#[trigger] before[i]).kind != 6 && before[i].kind != 3,
    ensures
        frame_header_from(
            behind + obu_bytes(before) + obu_head(u) + u.payload + rest,
            behind.len() as int,
        ) == behind.len() + obu_bytes(before).len() + obu_head(u).len(),
    decreases before.len(),
{
    let data = behind + obu_bytes(before) + obu_head(u) + u.payload + rest;
    if before.len() == 0 {
        assert(data =~= behind + obu_head(u) + u.payload + rest);
        lemma_obu_head(behind, u, rest);
    } else {
        let b = before[0];
        let others = before.skip(1);
        assert(b.kind < 16 && b.payload.len() <= u64::MAX && b.kind != 6 && b.kind != 3);
        assert forall|i: int| 0 <= i < others.len() implies (#[trigger] others[i]).kind < 16
            && others[i].payload.len() <= u64::MAX && others[i].kind != 6 && others[i].kind
            != 3 by {
            assert(others[i] == before[i + 1]);
        }
        let tail = obu_bytes(others) + obu_head(u) + u.payload + rest;
        assert(data =~= behind + obu_head(b) + b.payload + tail);
        lemma_obu_head(behind, b, tail);
        let next = behind + obu_head(b) + b.payload;
        lemma_frame_header_from(next, others, u, rest);
        assert(data =~= next + obu_bytes(others) + obu_head(u) + u.payload + rest);
        assert(obu_head(b).len() >= 1);
    }
}

/// Ten times as many frame units as frames are wanted are taken out of a stream, and at
/// least 64.
pub proof fn law_frame_units_suffice(max_frames: usize)
    ensures
        max_obus(max_frames) >= 64,
        max_frames >= 7 && max_frames <= usize::MAX / 10 ==> max_obus(max_frames) == 10 * max_frames,
        max_obus(max_frames) >= max_frames,
        max_frames < 7 ==> max_obus(max_frames) == 64,
{
}

/// The frames of a stream are its frame units in order: each has the whole packet that it
/// is in, its number, and the place and the bytes of its payload.
pub proof fn law_frames_hold_their_units(frames: Seq<Av1Frame>, spans: Seq<PacketSpan>, i: int)
    requires
        frames_are(frames, spans),
        0 <= i < frames.len(),
        i <= u32::MAX,
        0 <= spans[i].span.start <= spans[i].span.end <= u32::MAX,
    ensures
        frames[i].data@ == spans[i].packet,
        frames[i].frame_count == i,
        frames[i].payload_start == spans[i].span.start,
        frames[i].payload_start + frames[i].payload_size == spans[i].span.end,
        frames[i].frame_obu_payload@ == spans[i].packet.subrange(
            spans[i].span.start,
            spans[i].span.end,
        ),
{
    assert(frame_is(frames[i], spans[i], i));
}

/// The packets of an AV1 stream are those of its container, and the stream itself where it
/// has none.
pub proof fn law_av1_packets(data: Seq<u8>)
    ensures
        data.len() < 32 || data[0] != 0x44 || data[1] != 0x4B || data[2] != 0x49 || data[3] != 0x46
            ==> av1_packets(data) == seq![data],
        is_ivf(data) && ivf_contents(data) is Ok ==> av1_packets(data) == ivf_contents(data)->Ok_0,
        is_ivf(data) && ivf_contents(data) is Err ==> av1_packets(data) == seq![data],
{
}

/// The frame units of packets come packet after packet, each with its packet.
pub proof fn law_packets_give_units_in_order(packets: Seq<Seq<u8>>, k: nat, i: int)
    requires
        0 < k <= packets.len(),
    ensures
        ({
            let before = packet_spans(packets, (k - 1) as nat);
            let all = packet_spans(packets, k);
            let own = frame_obus(packets[k - 1], 0);
            &&& all.len() == before.len() + own.len()
            &&& 0 <= i < before.len() ==> all[i] == before[i]
            &&& 0 <= i < own.len() ==> all[before.len() + i].packet == packets[k - 1]
                && all[before.len() + i].span == own[i]
        }),
        packet_spans(packets, 0).len() == 0,
{
}

} // verus!
