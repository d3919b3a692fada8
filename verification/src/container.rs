//! IVF containers, VP9 superframes and VP9 frame boundaries.

use crate::text::{decimal, text_with_number};
use vstd::prelude::*;
use vstd::slice::slice_subrange;
use vstd::string::*;

verus! {

/// A list of byte vectors as a mathematical value.
pub open spec fn byte_seqs(v: Seq<Vec<u8>>) -> Seq<Seq<u8>> {
    v.map_values(|x: Vec<u8>| x@)
}

/// The bytes of a slice, owned.
pub fn owned(data: &[u8]) -> (v: Vec<u8>)
    ensures
        v@ == data@,
{
    let mut v: Vec<u8> = Vec::new();
    v.extend_from_slice(data);
    assert(v@ =~= data@);
    v
}

/// The bytes of a part of a slice, owned.
pub fn owned_part(data: &[u8], from: usize, to: usize) -> (v: Vec<u8>)
    requires
        from <= to <= data@.len(),
    ensures
        v@ == data@.subrange(from as int, to as int),
{
    owned(slice_subrange(data, from, to))
}

// ---------------------------------------------------------------------------
// IVF
// ---------------------------------------------------------------------------

/// Two bytes at `i`, the low one first, as a number.
pub open spec fn le16(data: Seq<u8>, i: int) -> nat {
    (data[i] + 256 * data[i + 1]) as nat
}

/// Four bytes at `i`, the lowest first, as a number.
pub open spec fn le32(data: Seq<u8>, i: int) -> nat {
    (data[i] + 256 * data[i + 1] + 65536 * data[i + 2] + 16777216 * data[i + 3]) as nat
}

/// The four bytes of a number below two to the power of 32, the lowest first.
pub open spec fn le32_bytes(n: nat) -> Seq<u8> {
    seq![
        (n % 256) as u8,
        (n / 256 % 256) as u8,
        (n / 65536 % 256) as u8,
        (n / 16777216 % 256) as u8,
    ]
}

/// The data begin like an IVF container: a header of 32 bytes and the magic
/// letters.
pub open spec fn is_ivf(data: Seq<u8>) -> bool {
    data.len() >= 32 && has_ivf_magic(data)
}

/// The data begin with the letters DKIF.
pub open spec fn has_ivf_magic(data: Seq<u8>) -> bool {
    data[0] == 0x44 && data[1] == 0x4B && data[2] == 0x49 && data[3] == 0x46
}

/// The packets from `offset` on: each has a header of twelve bytes that begins
/// with its size. The list ends at a packet of size zero and at one that the
/// data do not hold whole.
pub open spec fn ivf_packets(data: Seq<u8>, offset: int) -> Seq<Seq<u8>>
    decreases data.len() - offset,
{
    if offset < 0 || offset + 12 > data.len() {
        Seq::empty()
    } else {
        let start = offset + 12;
        let size = le32(data, offset);
        if size == 0 || start + size > data.len() {
            Seq::empty()
        } else {
            seq![data.subrange(start, start + size)] + ivf_packets(data, start + size)
        }
    }
}

/// What an IVF container holds, or why it is refused.
pub open spec fn ivf_contents(data: Seq<u8>) -> Result<Seq<Seq<u8>>, Seq<char>> {
    if data.len() < 32 {
        Err("File too small for IVF header"@)
    } else if !has_ivf_magic(data) {
        Err("Invalid IVF magic"@)
    } else if le16(data, 4) != 0 {
        Err("Unsupported IVF version: "@ + decimal(le16(data, 4)) + " (expected 0)"@)
    } else if !(32 <= le16(data, 6) <= 256) {
        Err("Invalid IVF header_size: "@ + decimal(le16(data, 6)) + " (expected 32)"@)
    } else if data.len() < le16(data, 6) {
        Err("File too small for IVF header"@)
    } else if ivf_packets(data, le16(data, 6) as int).len() == 0 {
        Err("No frames found in IVF container"@)
    } else {
        Ok(ivf_packets(data, le16(data, 6) as int))
    }
}

/// The bytes of packets in an IVF container; `stamps` gives the eight bytes that
/// stand behind each size.
pub open spec fn ivf_bytes(packets: Seq<Seq<u8>>, stamps: Seq<Seq<u8>>) -> Seq<u8>
    decreases packets.len(),
{
    if packets.len() == 0 {
        Seq::empty()
    } else {
        le32_bytes(packets[0].len()) + stamps[0] + packets[0] + ivf_bytes(
            packets.skip(1),
            stamps.skip(1),
        )
    }
}

/// Reading back packets gives what was written: behind any header, the packets
/// of a container are those it was made from.
pub proof fn law_ivf_packets_read_back(
    header: Seq<u8>,
    packets: Seq<Seq<u8>>,
    stamps: Seq<Seq<u8>>,
)
    requires
        packets.len() == stamps.len(),
        forall|i: int| 0 <= i < packets.len() ==> 0 < (#[trigger] packets[i]).len() < 0x1_0000_0000,
        forall|i: int| 0 <= i < stamps.len() ==> (#[trigger] stamps[i]).len() == 8,
    ensures
        ivf_packets(header + ivf_bytes(packets, stamps), header.len() as int) == packets,
    decreases packets.len(),
{
    let data = header + ivf_bytes(packets, stamps);
    let offset = header.len() as int;
    if packets.len() == 0 {
        assert(ivf_packets(data, offset) =~= packets);
    } else {
        let p = packets[0];
        let head = le32_bytes(p.len()) + stamps[0] + p;
        let rest = ivf_bytes(packets.skip(1), stamps.skip(1));
        assert(data =~= header + head + rest);
        assert(data[offset] == le32_bytes(p.len())[0]);
        assert(data[offset + 1] == le32_bytes(p.len())[1]);
        assert(data[offset + 2] == le32_bytes(p.len())[2]);
        assert(data[offset + 3] == le32_bytes(p.len())[3]);
        assert(le32(data, offset) == p.len());
        assert(data.subrange(offset + 12, offset + 12 + p.len()) =~= p);
        assert forall|i: int| 0 <= i < packets.skip(1).len() implies 0 < (
        #[trigger] packets.skip(1)[i]).len() < 0x1_0000_0000 by {
            assert(packets.skip(1)[i] == packets[i + 1]);
        }
        assert forall|i: int| 0 <= i < stamps.skip(1).len() implies (
        #[trigger] stamps.skip(1)[i]).len() == 8 by {
            assert(stamps.skip(1)[i] == stamps[i + 1]);
        }
        law_ivf_packets_read_back(header + head, packets.skip(1), stamps.skip(1));
        assert(header + head + rest =~= (header + head) + rest);
        assert(seq![p] + packets.skip(1) =~= packets);
    }
}

/// The bytes that packets and their headers take up.
pub open spec fn ivf_extent(packets: Seq<Seq<u8>>) -> nat
    decreases packets.len(),
{
    if packets.len() == 0 {
        0
    } else {
        12 + packets[0].len() + ivf_extent(packets.skip(1))
    }
}

/// Packets are never empty, and with their headers they fit side by side into
/// the data behind `offset`.
pub proof fn law_ivf_packets_fit(data: Seq<u8>, offset: int)
    requires
        0 <= offset <= data.len(),
    ensures
        ivf_extent(ivf_packets(data, offset)) <= data.len() - offset,
        forall|i: int|
            0 <= i < ivf_packets(data, offset).len() ==> (#[trigger] ivf_packets(
                data,
                offset,
            )[i]).len() > 0,
    decreases data.len() - offset,
{
    let all = ivf_packets(data, offset);
    if all.len() > 0 {
        let start = offset + 12;
        let size = le32(data, offset);
        let rest = ivf_packets(data, start + size);
        law_ivf_packets_fit(data, start + size);
        assert(all.skip(1) =~= rest);
        assert forall|i: int| 0 <= i < all.len() implies (#[trigger] all[i]).len() > 0 by {
            if i > 0 {
                assert(all[i] == rest[i - 1]);
            }
        }
    }
}

fn read_le16(data: &[u8], i: usize) -> (n: u64)
    requires
        i + 1 < data@.len(),
    ensures
        n == le16(data@, i as int),
        n < 65536,
{
    data[i] as u64 + 256 * (data[i + 1] as u64)
}

fn read_le32(data: &[u8], i: usize) -> (n: u64)
    requires
        i + 3 < data@.len(),
    ensures
        n == le32(data@, i as int),
{
    data[i] as u64 + 256 * (data[i + 1] as u64) + 65536 * (data[i + 2] as u64) + 16777216 * (data[i
        + 3] as u64)
}

/// Whether the data begin like an IVF container.
pub fn looks_like_ivf(data: &[u8]) -> (r: bool)
    ensures
        r == is_ivf(data@),
{
    data.len() >= 32 && data[0] == 0x44 && data[1] == 0x4B && data[2] == 0x49 && data[3] == 0x46
}

/// Parses an IVF container and extracts its packets.
pub fn parse_ivf_container(data: &[u8]) -> (r: Result<Vec<Vec<u8>>, String>)
    ensures
        match r {
            Ok(frames) => ivf_contents(data@) == Ok::<Seq<Seq<u8>>, Seq<char>>(byte_seqs(frames@)),
            Err(e) => ivf_contents(data@) == Err::<Seq<Seq<u8>>, Seq<char>>(e@),
        },
{
    if data.len() < 32 {
        return Err("File too small for IVF header".to_owned());
    }
    if !looks_like_ivf(data) {
        return Err("Invalid IVF magic".to_owned());
    }
    let version: u64 = read_le16(data, 4);
    if version != 0 {
        return Err(text_with_number("Unsupported IVF version: ", version, " (expected 0)"));
    }
    let header_size: u64 = read_le16(data, 6);
    if header_size < 32 || header_size > 256 {
        return Err(text_with_number("Invalid IVF header_size: ", header_size, " (expected 32)"));
    }
    let first: usize = header_size as usize;
    if data.len() < first {
        return Err("File too small for IVF header".to_owned());
    }
    let mut frames: Vec<Vec<u8>> = Vec::new();
    let mut offset: usize = first;
    let ghost all = ivf_packets(data@, first as int);
    while data.len() - offset >= 12
        invariant_except_break
            offset <= data@.len(),
            all == byte_seqs(frames@) + ivf_packets(data@, offset as int),
        ensures
            all == byte_seqs(frames@),
        decreases data@.len() - offset,
    {
        let ghost at = offset as int;
        let ghost before = byte_seqs(frames@);
        let packet_size: u64 = read_le32(data, offset);
        offset = offset + 12;
        if packet_size == 0 || packet_size > (data.len() - offset) as u64 {
            assert(before + ivf_packets(data@, at) =~= before);
            break;
        }
        let end: usize = offset + packet_size as usize;
        let packet: Vec<u8> = owned_part(data, offset, end);
        let ghost v = packet@;
        frames.push(packet);
        proof {
            assert(byte_seqs(frames@) =~= before.push(v));
            assert(ivf_packets(data@, at) =~= seq![v] + ivf_packets(data@, end as int));
            assert(before + ivf_packets(data@, at) =~= byte_seqs(frames@) + ivf_packets(
                data@,
                end as int,
            ));
        }
        offset = end;
        assert(data@.len() - offset < 12 ==> byte_seqs(frames@) + ivf_packets(data@, offset as int)
            =~= byte_seqs(frames@));
    }
    if frames.len() == 0 {
        return Err("No frames found in IVF container".to_owned());
    }
    Ok(frames)
}

// ---------------------------------------------------------------------------
// Superframes
// ---------------------------------------------------------------------------

/// The bytes as a number, the lowest first.
pub open spec fn le_value(bytes: Seq<u8>) -> nat
    decreases bytes.len(),
{
    if bytes.len() == 0 {
        0
    } else {
        bytes[0] as nat + 256 * le_value(bytes.skip(1))
    }
}

/// What the last byte of a superframe says: how many frames there are and how
/// many bytes each size takes.
pub open spec fn superframe_marker(last: u8) -> Option<(nat, nat)> {
    if last / 32 == 6 && last % 8 > 0 {
        Some(((last % 8 + 1) as nat, (last / 8 % 4 + 1) as nat))
    } else {
        None
    }
}

/// The frames `i..n` of a superframe whose index begins at `index`, of which the
/// first begins at `offset`. A frame that reaches into the index is left out.
pub open spec fn superframe_pieces(
    packet: Seq<u8>,
    index: int,
    mag: nat,
    n: nat,
    i: nat,
    offset: nat,
) -> Seq<Seq<u8>>
    decreases n - i,
{
    if i >= n {
        Seq::empty()
    } else {
        let at = index + 1 + mag * i;
        let size = le_value(packet.subrange(at, at + mag));
        let rest = superframe_pieces(packet, index, mag, n, i + 1, offset + size);
        if offset + size <= index {
            seq![packet.subrange(offset as int, (offset + size) as int)] + rest
        } else {
            rest
        }
    }
}

/// The frames of one packet: those that its superframe index names, or the
/// packet itself where it has no such index.
pub open spec fn packet_frames(packet: Seq<u8>) -> Seq<Seq<u8>> {
    if packet.len() < 2 {
        seq![packet]
    } else {
        match superframe_marker(packet.last()) {
            Some((n, mag)) => {
                let index = packet.len() - (2 + mag * n);
                if index < 0 || packet[index] != packet.last() {
                    seq![packet]
                } else {
                    superframe_pieces(packet, index, mag, n, 0, 0)
                }
            },
            None => seq![packet],
        }
    }
}

/// The frames of the first `k` packets, in order.
pub open spec fn expanded_frames(packets: Seq<Seq<u8>>, k: nat) -> Seq<Seq<u8>>
    decreases k,
{
    if k == 0 {
        Seq::empty()
    } else {
        expanded_frames(packets, (k - 1) as nat) + packet_frames(packets[k - 1])
    }
}

/// A piece is part of a packet's first `index` bytes.
pub open spec fn lies_within(piece: Seq<u8>, packet: Seq<u8>, index: int) -> bool {
    exists|from: int, to: int|
        0 <= from <= to <= index && piece == #[trigger] packet.subrange(from, to)
}

/// The frames that a packet is split into lie within the packet before its
/// index, and there are no more of them than the index names.
pub proof fn law_superframe_pieces_lie_within(
    packet: Seq<u8>,
    index: int,
    mag: nat,
    n: nat,
    i: nat,
    offset: nat,
)
    requires
        0 <= index <= packet.len(),
    ensures
        forall|k: int|
            0 <= k < superframe_pieces(packet, index, mag, n, i, offset).len() ==> lies_within(
                #[trigger] superframe_pieces(packet, index, mag, n, i, offset)[k],
                packet,
                index,
            ),
        superframe_pieces(packet, index, mag, n, i, offset).len() <= if i < n {
            n - i
        } else {
            0
        },
    decreases n - i,
{
    if i < n {
        let at = index + 1 + mag * i;
        let size = le_value(packet.subrange(at, at + mag));
        let rest = superframe_pieces(packet, index, mag, n, i + 1, offset + size);
        law_superframe_pieces_lie_within(packet, index, mag, n, i + 1, offset + size);
        let all = superframe_pieces(packet, index, mag, n, i, offset);
        assert forall|k: int| 0 <= k < all.len() implies lies_within(
            #[trigger] all[k],
            packet,
            index,
        ) by {
            if offset + size <= index {
                if k == 0 {
                    assert(all[0] == packet.subrange(offset as int, (offset + size) as int));
                } else {
                    assert(all[k] == rest[k - 1]);
                }
            } else {
                assert(all[k] == rest[k]);
            }
        }
    }
}

fn read_le(packet: &Vec<u8>, at: usize, mag: usize) -> (size: u64)
    requires
        at + mag <= packet@.len(),
        mag <= 4,
    ensures
        size == le_value(packet@.subrange(at as int, at + mag)),
        size < 0x1_0000_0000,
{
    let len: usize = packet.len();
    let mut size: u64 = 0;
    let mut j: usize = mag;
    assert(packet@.subrange(at + j, at + mag) =~= Seq::empty());
    while j > 0
        invariant
            j <= mag <= 4,
            at + mag <= len == packet@.len(),
            size == le_value(packet@.subrange(at + j, at + mag)),
            j == 4 ==> size == 0,
            j == 3 ==> size < 0x100,
            j == 2 ==> size < 0x1_0000,
            j == 1 ==> size < 0x100_0000,
            j == 0 ==> size < 0x1_0000_0000,
        decreases j,
    {
        let ghost tail = packet@.subrange(at + j, at + mag);
        j = j - 1;
        proof {
            let part = packet@.subrange(at + j, at + mag);
            assert(part.skip(1) =~= tail);
            assert(part[0] == packet@[at + j]);
        }
        size = size * 256 + packet[at + j] as u64;
    }
    size
}

fn push_packet_frames(packet: &Vec<u8>, out: &mut Vec<Vec<u8>>)
    ensures
        byte_seqs(final(out)@) == byte_seqs(old(out)@) + packet_frames(packet@),
{
    let len: usize = packet.len();
    let mut whole: bool = true;
    let mut n: usize = 0;
    let mut mag: usize = 0;
    let mut index: usize = 0;
    if len >= 2 {
        let last: u8 = packet[len - 1];
        if last / 32 == 6 && last % 8 > 0 {
            n = (last % 8) as usize + 1;
            mag = (last / 8 % 4) as usize + 1;
            assert(mag * n <= 4 * 8) by (nonlinear_arith)
                requires
                    mag <= 4,
                    n <= 8,
            ;
            let index_size: usize = 2 + mag * n;
            if len >= index_size {
                index = len - index_size;
                whole = packet[index] != last;
            }
        }
    }
    if whole {
        let copy: Vec<u8> = owned(packet.as_slice());
        let ghost before = byte_seqs(out@);
        out.push(copy);
        assert(byte_seqs(out@) =~= before + seq![packet@]);
        return;
    }
    let ghost before = byte_seqs(out@);
    let ghost all = superframe_pieces(packet@, index as int, mag as nat, n as nat, 0, 0);
    let mut offset: u64 = 0;
    let mut i: usize = 0;
    while i < n
        invariant
            i <= n <= 8,
            1 <= mag <= 4,
            index + 2 + mag * n == len == packet@.len(),
            offset <= i * 0x1_0000_0000,
            before + all == byte_seqs(out@) + superframe_pieces(
                packet@,
                index as int,
                mag as nat,
                n as nat,
                i as nat,
                offset as nat,
            ),
        decreases n - i,
    {
        assert(mag * i + mag <= mag * n && mag * i <= 32) by (nonlinear_arith)
            requires
                i < n <= 8,
                1 <= mag <= 4,
        ;
        let at: usize = index + 1 + mag * i;
        let size: u64 = read_le(packet, at, mag);
        let ghost sofar = byte_seqs(out@);
        let ghost rest = superframe_pieces(
            packet@,
            index as int,
            mag as nat,
            n as nat,
            i as nat + 1,
            (offset + size) as nat,
        );
        if offset + size <= index as u64 {
            let piece: Vec<u8> = owned_part(
                packet.as_slice(),
                offset as usize,
                (offset + size) as usize,
            );
            let ghost v = piece@;
            out.push(piece);
            assert(byte_seqs(out@) =~= sofar.push(v));
            assert(sofar + (seq![v] + rest) =~= byte_seqs(out@) + rest);
        }
        offset = offset + size;
        i = i + 1;
    }
    assert(byte_seqs(out@) + Seq::<Seq<u8>>::empty() =~= byte_seqs(out@));
}

/// Expands superframes into individual frames.
pub fn expand_superframes(packets: &[Vec<u8>]) -> (expanded: Vec<Vec<u8>>)
    ensures
        byte_seqs(expanded@) == expanded_frames(byte_seqs(packets@), packets@.len()),
{
    let mut expanded: Vec<Vec<u8>> = Vec::new();
    let mut k: usize = 0;
    assert(byte_seqs(expanded@) =~= Seq::empty());
    while k < packets.len()
        invariant
            k <= packets@.len(),
            byte_seqs(expanded@) == expanded_frames(byte_seqs(packets@), k as nat),
        decreases packets@.len() - k,
    {
        push_packet_frames(&packets[k], &mut expanded);
        assert(byte_seqs(packets@)[k as int] == packets@[k as int]@);
        k = k + 1;
    }
    expanded
}

// ---------------------------------------------------------------------------
// VP9 frame boundaries
// ---------------------------------------------------------------------------

/// Where the compressed header of a VP9 frame lies within the frame.
#[derive(Debug, Clone, Copy, PartialEq, Eq, Structural)]
pub struct Vp9HeaderExtent {
    pub compressed_header_offset: u32,
    pub compressed_header_size: u32,
}

/// The first place from `i` on that holds no zero byte.
pub open spec fn behind_zeros(data: Seq<u8>, i: int) -> int
    decreases data.len() - i,
{
    if 0 <= i < data.len() && data[i] == 0 {
        behind_zeros(data, i + 1)
    } else {
        i
    }
}

/// A byte can begin a VP9 frame: its top two bits are one and zero.
pub open spec fn has_frame_marker(b: u8) -> bool {
    b / 64 == 2
}

/// The first place from `i` on at which a frame can begin and can be parsed, the
/// end of the data where there is none.
pub open spec fn next_frame(data: Seq<u8>, headers: Seq<Option<Vp9HeaderExtent>>, i: int) -> int
    decreases data.len() - i,
{
    if i < 0 || i >= data.len() {
        data.len() as int
    } else if has_frame_marker(data[i]) && headers[i] is Some {
        i
    } else {
        next_frame(data, headers, i + 1)
    }
}

/// The lesser of two numbers.
pub open spec fn least(a: int, b: int) -> int {
    if a < b {
        a
    } else {
        b
    }
}

/// Where the frame that begins at `i` ends: the next frame is looked for behind
/// its compressed header.
pub open spec fn frame_end(
    data: Seq<u8>,
    headers: Seq<Option<Vp9HeaderExtent>>,
    i: int,
    h: Vp9HeaderExtent,
) -> int {
    next_frame(
        data,
        headers,
        least(i + h.compressed_header_offset + h.compressed_header_size, data.len() as int),
    )
}

/// The frames of a packet from `offset` on. `headers[i]` is what parsing the
/// packet from place `i` on gives. The list ends where no frame begins.
pub open spec fn vp9_frames(
    data: Seq<u8>,
    headers: Seq<Option<Vp9HeaderExtent>>,
    offset: int,
) -> Seq<Seq<u8>>
    decreases data.len() - offset,
    when 0 <= offset <= data.len()
{
    let i = behind_zeros(data, offset);
    if i >= data.len() || !has_frame_marker(data[i]) {
        Seq::empty()
    } else {
        match headers[i] {
            Some(h) => {
                let end = frame_end(data, headers, i, h);
                if end <= i || i < offset || end > data.len() {
                    Seq::empty()
                } else {
                    seq![data.subrange(i, end)] + vp9_frames(data, headers, end)
                }
            },
            None => Seq::empty(),
        }
    }
}

/// The frames of the first `k` packets, in order.
pub open spec fn all_vp9_frames(
    packets: Seq<Seq<u8>>,
    headers: Seq<Vec<Option<Vp9HeaderExtent>>>,
    k: nat,
) -> Seq<Seq<u8>>
    decreases k,
{
    if k == 0 {
        Seq::empty()
    } else {
        all_vp9_frames(packets, headers, (k - 1) as nat) + vp9_frames(
            packets[k - 1],
            headers[k - 1]@,
            0,
        )
    }
}

/// There is a parse result for every place of every packet.
pub open spec fn headers_match(
    packets: Seq<Seq<u8>>,
    headers: Seq<Vec<Option<Vp9HeaderExtent>>>,
) -> bool {
    &&& headers.len() == packets.len()
    &&& forall|k: int| 0 <= k < headers.len() ==> (#[trigger] headers[k])@.len() == packets[k].len()
}

proof fn lemma_behind_zeros(data: Seq<u8>, i: int)
    requires
        0 <= i <= data.len(),
    ensures
        i <= behind_zeros(data, i) <= data.len(),
    decreases data.len() - i,
{
    if i < data.len() && data[i] == 0 {
        lemma_behind_zeros(data, i + 1);
    }
}

proof fn lemma_next_frame(data: Seq<u8>, headers: Seq<Option<Vp9HeaderExtent>>, i: int)
    requires
        0 <= i <= data.len(),
    ensures
        i <= next_frame(data, headers, i) <= data.len(),
    decreases data.len() - i,
{
    if i < data.len() && !(has_frame_marker(data[i]) && headers[i] is Some) {
        lemma_next_frame(data, headers, i + 1);
    }
}

/// The VP9 frames of a packet are never empty, begin with a frame marker, and
/// fit side by side into the packet behind `offset`.
pub proof fn law_vp9_frames_fit(data: Seq<u8>, headers: Seq<Option<Vp9HeaderExtent>>, offset: int)
    requires
        0 <= offset <= data.len(),
    ensures
        total_len(vp9_frames(data, headers, offset)) <= data.len() - offset,
        forall|k: int|
            0 <= k < vp9_frames(data, headers, offset).len() ==> {
                let f = #[trigger] vp9_frames(data, headers, offset)[k];
                f.len() > 0 && has_frame_marker(f[0])
            },
    decreases data.len() - offset,
{
    let all = vp9_frames(data, headers, offset);
    let i = behind_zeros(data, offset);
    lemma_behind_zeros(data, offset);
    if all.len() > 0 {
        let h = headers[i].unwrap();
        let end = frame_end(data, headers, i, h);
        let rest = vp9_frames(data, headers, end);
        law_vp9_frames_fit(data, headers, end);
        assert(all.skip(1) =~= rest);
        assert forall|k: int| 0 <= k < all.len() implies {
            let f = #[trigger] all[k];
            f.len() > 0 && has_frame_marker(f[0])
        } by {
            if k > 0 {
                assert(all[k] == rest[k - 1]);
            }
        }
    }
}

/// The bytes in a list of byte sequences.
pub open spec fn total_len(s: Seq<Seq<u8>>) -> nat
    decreases s.len(),
{
    if s.len() == 0 {
        0
    } else {
        s[0].len() + total_len(s.skip(1))
    }
}

fn skip_zeros(data: &Vec<u8>, from: usize) -> (i: usize)
    requires
        from <= data@.len(),
    ensures
        i == behind_zeros(data@, from as int),
        from <= i <= data@.len(),
{
    let mut i: usize = from;
    while i < data.len() && data[i] == 0
        invariant
            from <= i <= data@.len(),
            behind_zeros(data@, from as int) == behind_zeros(data@, i as int),
        decreases data@.len() - i,
    {
        i = i + 1;
    }
    i
}

fn find_next_frame(data: &Vec<u8>, headers: &Vec<Option<Vp9HeaderExtent>>, from: usize) -> (i:
    usize)
    requires
        from <= data@.len(),
        headers@.len() == data@.len(),
    ensures
        i == next_frame(data@, headers@, from as int),
        from <= i <= data@.len(),
{
    let mut i: usize = from;
    while i < data.len()
        invariant
            from <= i <= data@.len(),
            headers@.len() == data@.len(),
            next_frame(data@, headers@, from as int) == next_frame(data@, headers@, i as int),
        decreases data@.len() - i,
    {
        if data[i] / 64 == 2 && headers[i].is_some() {
            return i;
        }
        i = i + 1;
    }
    i
}

fn push_vp9_frames(
    data: &Vec<u8>,
    headers: &Vec<Option<Vp9HeaderExtent>>,
    out: &mut Vec<Vec<u8>>,
)
    requires
        headers@.len() == data@.len(),
    ensures
        byte_seqs(final(out)@) == byte_seqs(old(out)@) + vp9_frames(data@, headers@, 0),
{
    let ghost before = byte_seqs(out@);
    let ghost all = vp9_frames(data@, headers@, 0);
    let mut offset: usize = 0;
    loop
        invariant_except_break
            headers@.len() == data@.len(),
            offset <= data@.len(),
            before + all == byte_seqs(out@) + vp9_frames(data@, headers@, offset as int),
        ensures
            before + all == byte_seqs(out@),
        decreases data@.len() - offset,
    {
        let ghost sofar = byte_seqs(out@);
        let start: usize = skip_zeros(data, offset);
        if start >= data.len() || data[start] / 64 != 2 {
            assert(sofar + vp9_frames(data@, headers@, offset as int) =~= sofar);
            break;
        }
        let header: Vp9HeaderExtent = match headers[start] {
            Some(h) => h,
            None => {
                assert(sofar + vp9_frames(data@, headers@, offset as int) =~= sofar);
                break;
            },
        };
        let skip: u64 = header.compressed_header_offset as u64
            + header.compressed_header_size as u64;
        let room: usize = data.len() - start;
        let search: usize = if skip > room as u64 {
            data.len()
        } else {
            start + skip as usize
        };
        let end: usize = find_next_frame(data, headers, search);
        if end == start {
            assert(sofar + vp9_frames(data@, headers@, offset as int) =~= sofar);
            break;
        }
        let frame: Vec<u8> = owned_part(data.as_slice(), start, end);
        let ghost v = frame@;
        out.push(frame);
        proof {
            let rest = vp9_frames(data@, headers@, end as int);
            assert(byte_seqs(out@) =~= sofar.push(v));
            assert(sofar + (seq![v] + rest) =~= byte_seqs(out@) + rest);
        }
        offset = end;
    }
}

/// Splits a VP9 bitstream into individual frame packets.
///
/// `headers[k][i]` is what a fresh frame parser gives for packet `k` from its
/// byte `i` on, nothing where it fails.
pub fn split_vp9_bitstream(
    packets: &[Vec<u8>],
    headers: &[Vec<Option<Vp9HeaderExtent>>],
) -> (frames: Vec<Vec<u8>>)
    requires
        headers_match(byte_seqs(packets@), headers@),
    ensures
        byte_seqs(frames@) == all_vp9_frames(byte_seqs(packets@), headers@, packets@.len()),
{
    let mut frames: Vec<Vec<u8>> = Vec::new();
    let mut k: usize = 0;
    assert(byte_seqs(frames@) =~= Seq::empty());
    while k < packets.len()
        invariant
            k <= packets@.len(),
            headers_match(byte_seqs(packets@), headers@),
            byte_seqs(frames@) == all_vp9_frames(byte_seqs(packets@), headers@, k as nat),
        decreases packets@.len() - k,
    {
        assert(byte_seqs(packets@)[k as int] == packets@[k as int]@);
        assert(headers@[k as int]@.len() == byte_seqs(packets@)[k as int].len());
        push_vp9_frames(&packets[k], &headers[k], &mut frames);
        k = k + 1;
    }
    frames
}

/// A VP9 frame extracted from the bitstream.
#[derive(Debug, Clone)]
pub struct Vp9Frame {
    /// Raw frame data (header and compressed data).
    pub data: Vec<u8>,
    /// Frame count (sequential).
    pub frame_count: u32,
}

/// The packets that a VP9 stream is expanded into before its frames are told
/// apart: those of the superframes in it.
pub open spec fn vp9_packets(data: Seq<u8>) -> Seq<Seq<u8>> {
    packet_frames(data)
}

/// The frames of a VP9 stream: the packets of an IVF container, the whole stream
/// where such a container is refused, and what the frame boundaries give where
/// there is no container.
pub open spec fn vp9_stream_frames(
    data: Seq<u8>,
    headers: Seq<Vec<Option<Vp9HeaderExtent>>>,
) -> Seq<Seq<u8>> {
    if is_ivf(data) {
        ivf_or_whole(data)
    } else {
        all_vp9_frames(vp9_packets(data), headers, vp9_packets(data).len())
    }
}

/// The packets of an IVF container, the whole data where it is refused.
pub open spec fn ivf_or_whole(data: Seq<u8>) -> Seq<Seq<u8>> {
    match ivf_contents(data) {
        Ok(packets) => packets,
        Err(_) => seq![data],
    }
}

/// The packets of an IVF container, the whole data where it is refused.
pub fn unpack_ivf(data: &[u8]) -> (packets: Vec<Vec<u8>>)
    ensures
        byte_seqs(packets@) == ivf_or_whole(data@),
{
    match parse_ivf_container(data) {
        Ok(frames) => frames,
        Err(_) => {
            let mut v: Vec<Vec<u8>> = Vec::new();
            v.push(owned(data));
            assert(byte_seqs(v@) =~= seq![data@]);
            v
        },
    }
}

/// The packets that a VP9 stream without a container is expanded into.
pub fn vp9_stream_packets(data: &[u8]) -> (packets: Vec<Vec<u8>>)
    ensures
        byte_seqs(packets@) == vp9_packets(data@),
{
    let whole: Vec<u8> = owned(data);
    let mut packets: Vec<Vec<u8>> = Vec::new();
    push_packet_frames(&whole, &mut packets);
    assert(byte_seqs(Seq::<Vec<u8>>::empty()) + packet_frames(data@) =~= packet_frames(data@));
    packets
}

/// Extracts VP9 frames from raw bitstream data.
///
/// `headers` are the parse results for the packets of `vp9_stream_packets`; they
/// do not matter for an IVF container.
pub fn extract_vp9_frames(
    data: &[u8],
    max_frames: usize,
    headers: &[Vec<Option<Vp9HeaderExtent>>],
) -> (frames: Vec<Vp9Frame>)
    requires
        !is_ivf(data@) ==> headers_match(vp9_packets(data@), headers@),
    ensures
        frames@.len() == least(
            vp9_stream_frames(data@, headers@).len() as int,
            max_frames as int,
        ),
        forall|i: int|
            0 <= i < frames@.len() ==> (#[trigger] frames@[i]).data@ == vp9_stream_frames(
                data@,
                headers@,
            )[i] && frames@[i].frame_count == i as u32,
{
    let raw: Vec<Vec<u8>> = if looks_like_ivf(data) {
        unpack_ivf(data)
    } else {
        let packets: Vec<Vec<u8>> = vp9_stream_packets(data);
        split_vp9_bitstream(packets.as_slice(), headers)
    };
    let ghost all = byte_seqs(raw@);
    let mut frames: Vec<Vp9Frame> = Vec::new();
    let mut i: usize = 0;
    while i < raw.len() && i < max_frames
        invariant
            i <= raw@.len(),
            i <= max_frames,
            all == byte_seqs(raw@),
            frames@.len() == i,
            forall|k: int|
                0 <= k < i ==> (#[trigger] frames@[k]).data@ == all[k] && frames@[k].frame_count
                    == k as u32,
        decreases raw@.len() - i,
    {
        let frame: Vec<u8> = owned(raw[i].as_slice());
        assert(all[i as int] == raw@[i as int]@);
        frames.push(Vp9Frame { data: frame, frame_count: i as u32 });
        i = i + 1;
    }
    frames
}

// ---------------------------------------------------------------------------
// Writing and reading back
// ---------------------------------------------------------------------------

/// Numbers are stored with the lowest byte first.
pub proof fn law_numbers_are_little_endian(a: u8, b: u8, c: u8, d: u8)
    ensures
        le16(seq![a, b], 0) == a + 0x100 * b,
        le32(seq![a, b, c, d], 0) == a + 0x100 * b + 0x1_0000 * c + 0x100_0000 * d,
        le32_bytes((a + 0x100 * b + 0x1_0000 * c + 0x100_0000 * d) as nat) == seq![a, b, c, d],
{
    let n = (a + 0x100 * b + 0x1_0000 * c + 0x100_0000 * d) as nat;
    assert(n % 256 == a);
    let n1 = n / 256;
    assert(n1 == b + 0x100 * c + 0x1_0000 * d);
    assert(n1 % 256 == b);
    let n2 = n / 65536;
    assert(n2 == c + 0x100 * d);
    assert(n2 % 256 == c);
    let n3 = n / 16777216;
    assert(n3 == d);
    assert(le32_bytes(n) =~= seq![a, b, c, d]);
}

/// What is written as an IVF container is read back: letters DKIF, version zero, the size of
/// the header, which has at least 32 and at most 256 bytes, and the packets.
pub proof fn law_ivf_containers_read_back(
    header: Seq<u8>,
    packets: Seq<Seq<u8>>,
    stamps: Seq<Seq<u8>>,
)
    requires
        32 <= header.len() <= 256,
        header[0] == 0x44 && header[1] == 0x4B && header[2] == 0x49 && header[3] == 0x46,
        header[4] == 0 && header[5] == 0,
        header[6] + 0x100 * header[7] == header.len(),
        packets.len() > 0,
        packets.len() == stamps.len(),
        forall|i: int| 0 <= i < packets.len() ==> 0 < (#[trigger] packets[i]).len() < 0x1_0000_0000,
        forall|i: int| 0 <= i < stamps.len() ==> (#[trigger] stamps[i]).len() == 8,
    ensures
        ivf_contents(header + ivf_bytes(packets, stamps)) == Ok::<Seq<Seq<u8>>, Seq<char>>(packets),
        is_ivf(header + ivf_bytes(packets, stamps)),
        ivf_or_whole(header + ivf_bytes(packets, stamps)) == packets,
{
    law_ivf_packets_read_back(header, packets, stamps);
    let data = header + ivf_bytes(packets, stamps);
    assert(data[0] == header[0] && data[1] == header[1] && data[2] == header[2] && data[3]
        == header[3] && data[4] == header[4] && data[5] == header[5] && data[6] == header[6]
        && data[7] == header[7]);
}

/// Data that are no IVF container are refused: those that are shorter than a header, do not
/// begin with its letters, or have another version.
pub proof fn law_other_containers_are_refused(data: Seq<u8>)
    ensures
        data.len() < 32 ==> ivf_contents(data) is Err && !is_ivf(data),
        data.len() >= 32 && (data[0] != 0x44 || data[1] != 0x4B || data[2] != 0x49 || data[3]
            != 0x46) ==> ivf_contents(data) is Err && !is_ivf(data),
        data.len() >= 32 && (data[4] != 0 || data[5] != 0) ==> ivf_contents(data) is Err,
{
}

/// A number in `n` bytes, the lowest first.
pub open spec fn le_bytes(v: nat, n: nat) -> Seq<u8>
    decreases n,
{
    if n == 0 {
        Seq::empty()
    } else {
        seq![(v % 256) as u8] + le_bytes(v / 256, (n - 1) as nat)
    }
}

/// The number of numbers that `n` bytes can hold.
pub open spec fn byte_range(n: nat) -> nat
    decreases n,
{
    if n == 0 {
        1
    } else {
        256 * byte_range((n - 1) as nat)
    }
}

/// A number that was written in bytes is read back.
pub proof fn law_bytes_read_back(v: nat, n: nat)
    requires
        v < byte_range(n),
    ensures
        le_bytes(v, n).len() == n,
        le_value(le_bytes(v, n)) == v,
    decreases n,
{
    if n > 0 {
        let rest = le_bytes(v / 256, (n - 1) as nat);
        law_bytes_read_back(v / 256, (n - 1) as nat);
        assert(le_bytes(v, n).skip(1) =~= rest);
    }
}

/// Byte sequences one behind the other.
pub open spec fn concat(pieces: Seq<Seq<u8>>) -> Seq<u8>
    decreases pieces.len(),
{
    if pieces.len() == 0 {
        Seq::empty()
    } else {
        pieces[0] + concat(pieces.skip(1))
    }
}

/// The sizes of frames, in `mag` bytes each.
pub open spec fn size_bytes(frames: Seq<Seq<u8>>, mag: nat) -> Seq<u8>
    decreases frames.len(),
{
    if frames.len() == 0 {
        Seq::empty()
    } else {
        le_bytes(frames[0].len(), mag) + size_bytes(frames.skip(1), mag)
    }
}

/// A superframe: its frames, and then their sizes between two bytes that say how many
/// frames there are and how many bytes a size has.
pub open spec fn superframe(frames: Seq<Seq<u8>>, mag: nat) -> Seq<u8> {
    let marker = seq![(0xC0 + 8 * (mag - 1) + (frames.len() - 1)) as u8];
    concat(frames) + marker + size_bytes(frames, mag) + marker
}

proof fn lemma_size_bytes_len(frames: Seq<Seq<u8>>, mag: nat)
    requires
        forall|i: int| 0 <= i < frames.len() ==> (#[trigger] frames[i]).len() < byte_range(mag),
    ensures
        size_bytes(frames, mag).len() == mag * frames.len(),
    decreases frames.len(),
{
    if frames.len() > 0 {
        assert(frames[0].len() < byte_range(mag));
        law_bytes_read_back(frames[0].len(), mag);
        assert forall|i: int| 0 <= i < frames.skip(1).len() implies (
        #[trigger] frames.skip(1)[i]).len() < byte_range(mag) by {
            assert(frames.skip(1)[i] == frames[i + 1]);
        }
        lemma_size_bytes_len(frames.skip(1), mag);
        let n = frames.len() as int;
        assert(mag * n == mag + mag * (n - 1)) by (nonlinear_arith);
    } else {
        assert(mag * 0 == 0);
    }
}

proof fn lemma_superframe_pieces(
    packet: Seq<u8>,
    before: Seq<u8>,
    sized: Seq<u8>,
    marker: Seq<u8>,
    frames: Seq<Seq<u8>>,
    mag: nat,
    n: nat,
    i: nat,
)
    requires
        1 <= mag,
        i + frames.len() == n,
        marker.len() == 1,
        sized.len() == mag * i,
        forall|k: int| 0 <= k < frames.len() ==> (#[trigger] frames[k]).len() < byte_range(mag),
        packet == before + concat(frames) + marker + (sized + size_bytes(frames, mag)) + marker,
    ensures
        superframe_pieces(
            packet,
            (before.len() + concat(frames).len()) as int,
            mag,
            n,
            i,
            before.len(),
        ) == frames,
    decreases frames.len(),
{
    let index = (before.len() + concat(frames).len()) as int;
    if frames.len() == 0 {
        assert(superframe_pieces(packet, index, mag, n, i, before.len()) =~= frames);
    } else {
        let f = frames[0];
        let rest = frames.skip(1);
        let own = le_bytes(f.len(), mag);
        assert(f.len() < byte_range(mag));
        law_bytes_read_back(f.len(), mag);
        lemma_size_bytes_len(frames, mag);
        assert forall|k: int| 0 <= k < rest.len() implies (#[trigger] rest[k]).len() < byte_range(
            mag,
        ) by {
            assert(rest[k] == frames[k + 1]);
        }
        let at = index + 1 + mag * i;
        assert(size_bytes(frames, mag) == own + size_bytes(rest, mag));
        assert(packet.subrange(at, at + mag) =~= own) by {
            assert forall|k: int| 0 <= k < mag implies packet.subrange(at, at + mag)[k] == own[k] by {
                assert(packet[at + k] == (sized + size_bytes(frames, mag))[sized.len() + k]);
                assert((sized + size_bytes(frames, mag))[sized.len() + k] == size_bytes(
                    frames,
                    mag,
                )[k]);
            }
        }
        assert(concat(frames) == f + concat(rest));
        let o = before.len() as int;
        assert(packet.subrange(o, o + f.len()) =~= f) by {
            assert forall|k: int| 0 <= k < f.len() implies packet.subrange(o, o + f.len())[k] == f[k] by {
                assert(packet[o + k] == (before + concat(frames))[o + k]);
                assert((before + concat(frames))[o + k] == concat(frames)[k]);
            }
        }
        assert(mag * (i + 1) == mag * i + mag) by (nonlinear_arith);
        assert(packet =~= (before + f) + concat(rest) + marker + ((sized + own) + size_bytes(
            rest,
            mag,
        )) + marker);
        lemma_superframe_pieces(packet, before + f, sized + own, marker, rest, mag, n, i + 1);
        assert(seq![f] + rest =~= frames);
    }
}

/// What is written as a superframe is read back: two to eight frames, whose sizes take one
/// to four bytes each.
pub proof fn law_superframes_read_back(frames: Seq<Seq<u8>>, mag: nat)
    requires
        2 <= frames.len() <= 8,
        1 <= mag <= 4,
        forall|k: int| 0 <= k < frames.len() ==> (#[trigger] frames[k]).len() < byte_range(mag),
    ensures
        packet_frames(superframe(frames, mag)) == frames,
        vp9_packets(superframe(frames, mag)) == frames,
{
    let n = frames.len();
    let m = (0xC0 + 8 * (mag - 1) + (n - 1)) as u8;
    let marker = seq![m];
    let packet = superframe(frames, mag);
    lemma_size_bytes_len(frames, mag);
    assert(m / 32 == 6 && m % 8 == n - 1 && m / 8 % 4 == mag - 1) by {
        assert(1 <= n - 1 <= 7 && 0 <= mag - 1 <= 3);
    }
    assert(packet.last() == m);
    let index = packet.len() - (2 + mag * n);
    assert(index == concat(frames).len());
    assert(packet[index] == (concat(frames) + marker)[index]);
    assert(packet =~= Seq::<u8>::empty() + concat(frames) + marker + (Seq::<u8>::empty()
        + size_bytes(frames, mag)) + marker);
    assert(mag * 0 == 0);
    lemma_superframe_pieces(
        packet,
        Seq::empty(),
        Seq::empty(),
        marker,
        frames,
        mag,
        n,
        0,
    );
}

/// A packet whose last byte does not have the highest three bits of a marker, or that does
/// not repeat it where the index would begin, is a frame of its own.
pub proof fn law_other_packets_are_frames(packet: Seq<u8>)
    requires
        packet.len() >= 1,
        packet.len() == 1 || packet.last() < 0xC0 || packet.last() >= 0xE0,
    ensures
        packet_frames(packet) == seq![packet],
{
}

/// The frames of a packet that are told apart by where they can be parsed: each begins with
/// a frame marker, its compressed header ends within it, and nowhere else in it a frame can
/// be parsed.
pub open spec fn are_told_apart(
    frames: Seq<Seq<u8>>,
    headers: Seq<Option<Vp9HeaderExtent>>,
    offset: int,
) -> bool
    decreases frames.len(),
{
    frames.len() > 0 ==> {
        let f = frames[0];
        &&& f.len() > 0
        &&& 0x80 <= f[0] < 0xC0
        &&& headers[offset] matches Some(h) && 1 <= h.compressed_header_offset
            + h.compressed_header_size <= f.len()
        &&& forall|j: int| offset < j < offset + f.len() ==> #[trigger] headers[j] is None
        &&& are_told_apart(frames.skip(1), headers, offset + f.len())
    }
}

proof fn lemma_next_frame_is(
    data: Seq<u8>,
    headers: Seq<Option<Vp9HeaderExtent>>,
    from: int,
    to: int,
)
    requires
        0 <= from <= to <= data.len(),
        forall|j: int| from <= j < to ==> #[trigger] headers[j] is None,
        to == data.len() || (headers[to] is Some && has_frame_marker(data[to])),
    ensures
        next_frame(data, headers, from) == to,
    decreases to - from,
{
    if from < to {
        assert(headers[from] is None);
        lemma_next_frame_is(data, headers, from + 1, to);
    }
}

/// Frames that stand side by side in a packet are told apart and come back.
pub proof fn law_vp9_frames_come_back(
    before: Seq<u8>,
    frames: Seq<Seq<u8>>,
    headers: Seq<Option<Vp9HeaderExtent>>,
)
    requires
        are_told_apart(frames, headers, before.len() as int),
    ensures
        vp9_frames(before + concat(frames), headers, before.len() as int) == frames,
    decreases frames.len(),
{
    let data = before + concat(frames);
    let o = before.len() as int;
    if frames.len() == 0 {
        assert(data.len() == o);
        assert(vp9_frames(data, headers, o) =~= frames);
    } else {
        let f = frames[0];
        let rest = frames.skip(1);
        let end = o + f.len();
        assert(concat(frames) == f + concat(rest));
        assert(data[o] == f[0]);
        assert(behind_zeros(data, o) == o);
        let h = headers[o]->0;
        assert(data =~= (before + f) + concat(rest));
        assert(end == data.len() || (headers[end] is Some && has_frame_marker(data[end]))) by {
            if rest.len() > 0 {
                assert(are_told_apart(rest, headers, end));
                assert(rest[0].len() > 0);
                assert(concat(rest) == rest[0] + concat(rest.skip(1)));
                assert(((before + f) + concat(rest))[end] == concat(rest)[0]);
                assert(data[end] == concat(rest)[0]);
                assert(data[end] == rest[0][0]);
            }
        }
        lemma_next_frame_is(
            data,
            headers,
            o + h.compressed_header_offset + h.compressed_header_size,
            end,
        );
        assert(data.subrange(o, end) =~= f);
        law_vp9_frames_come_back(before + f, rest, headers);
        assert(seq![f] + rest =~= frames);
    }
}

/// Packets are expanded one after the other: where `parts` are the frames of each, all of
/// them come out in order.
pub proof fn law_packets_expand_in_order(packets: Seq<Seq<u8>>, parts: Seq<Seq<Seq<u8>>>)
    requires
        parts.len() == packets.len(),
        forall|i: int|
            0 <= i < packets.len() ==> #[trigger] parts[i] == packet_frames(packets[i]),
    ensures
        expanded_frames(packets, packets.len()) == parts.flatten_alt(),
{
    lemma_packets_expand(packets, parts, packets.len());
    assert(parts.take(parts.len() as int) =~= parts);
}

proof fn lemma_packets_expand(packets: Seq<Seq<u8>>, parts: Seq<Seq<Seq<u8>>>, k: nat)
    requires
        parts.len() == packets.len(),
        k <= packets.len(),
        forall|i: int|
            0 <= i < packets.len() ==> #[trigger] parts[i] == packet_frames(packets[i]),
    ensures
        expanded_frames(packets, k) == parts.take(k as int).flatten_alt(),
    decreases k,
{
    if k > 0 {
        lemma_packets_expand(packets, parts, (k - 1) as nat);
        assert(parts.take(k as int).drop_last() =~= parts.take(k - 1));
        assert(parts.take(k as int).last() == parts[k - 1]);
    }
}

/// The frames of a VP9 stream without a container are those of its packets, in order; a
/// container's packets are its frames.
pub proof fn law_vp9_streams(
    data: Seq<u8>,
    headers: Seq<Vec<Option<Vp9HeaderExtent>>>,
    parts: Seq<Seq<Seq<u8>>>,
)
    ensures
        is_ivf(data) && ivf_contents(data) is Ok ==> vp9_stream_frames(data, headers)
            == ivf_contents(data)->Ok_0,
        is_ivf(data) && ivf_contents(data) is Err ==> vp9_stream_frames(data, headers) == seq![
            data,
        ],
        !is_ivf(data) && parts.len() == packet_frames(data).len() && (forall|i: int|
            0 <= i < parts.len() ==> #[trigger] parts[i] == vp9_frames(
                packet_frames(data)[i],
                headers[i]@,
                0,
            )) ==> vp9_stream_frames(data, headers) == parts.flatten_alt(),
{
    let packets = packet_frames(data);
    if !is_ivf(data) && parts.len() == packets.len() && (forall|i: int|
        0 <= i < parts.len() ==> #[trigger] parts[i] == vp9_frames(packets[i], headers[i]@, 0)) {
        lemma_all_vp9_frames(packets, headers, parts, packets.len());
        assert(parts.take(parts.len() as int) =~= parts);
    }
}

proof fn lemma_all_vp9_frames(
    packets: Seq<Seq<u8>>,
    headers: Seq<Vec<Option<Vp9HeaderExtent>>>,
    parts: Seq<Seq<Seq<u8>>>,
    k: nat,
)
    requires
        parts.len() == packets.len(),
        k <= packets.len(),
        forall|i: int|
            0 <= i < parts.len() ==> #[trigger] parts[i] == vp9_frames(packets[i], headers[i]@, 0),
    ensures
        all_vp9_frames(packets, headers, k) == parts.take(k as int).flatten_alt(),
    decreases k,
{
    if k > 0 {
        lemma_all_vp9_frames(packets, headers, parts, (k - 1) as nat);
        assert(parts.take(k as int).drop_last() =~= parts.take(k - 1));
        assert(parts.take(k as int).last() == parts[k - 1]);
    }
}

/// Why a container is refused is said of the first thing that is wrong with it.
pub proof fn law_refusals_say_why(data: Seq<u8>)
    ensures
        data.len() < 32 ==> ivf_contents(data) == Err::<Seq<Seq<u8>>, Seq<char>>(
            "File too small for IVF header"@,
        ),
        data.len() >= 32 && (data[0] != 0x44 || data[1] != 0x4B || data[2] != 0x49 || data[3]
            != 0x46) ==> ivf_contents(data) == Err::<Seq<Seq<u8>>, Seq<char>>(
            "Invalid IVF magic"@,
        ),
        is_ivf(data) ==> ({
            let version = (data[4] + 0x100 * data[5]) as nat;
            let size = (data[6] + 0x100 * data[7]) as nat;
            &&& version != 0 ==> ivf_contents(data) == Err::<Seq<Seq<u8>>, Seq<char>>(
                "Unsupported IVF version: "@ + decimal(version) + " (expected 0)"@,
            )
            &&& version == 0 && (size < 32 || size > 256) ==> ivf_contents(data) == Err::<
                Seq<Seq<u8>>,
                Seq<char>,
            >("Invalid IVF header_size: "@ + decimal(size) + " (expected 32)"@)
            &&& version == 0 && 32 <= size <= 256 && data.len() < size ==> ivf_contents(data)
                == Err::<Seq<Seq<u8>>, Seq<char>>("File too small for IVF header"@)
            &&& version == 0 && 32 <= size <= 256 && size <= data.len() < size + 12
                ==> ivf_contents(data) == Err::<Seq<Seq<u8>>, Seq<char>>(
                "No frames found in IVF container"@,
            )
        }),
{
}

} // verus!
