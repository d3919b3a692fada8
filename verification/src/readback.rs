//! From the samples of a decoded image to planes of 8-bit pixels.

use crate::codes::PixelFormat;
use vstd::arithmetic::power2::{
    lemma2_to64, lemma_pow2_adds, lemma_pow2_pos, lemma_pow2_strictly_increases, pow2,
};
use vstd::prelude::*;

verus! {

/// Decoded pixel data for YUV 4:2:0 planar format.
#[derive(Debug, Clone)]
pub struct DecodedPixels {
    pub y_plane: Vec<u8>,
    pub u_plane: Vec<u8>,
    pub v_plane: Vec<u8>,
}

/// How the samples of an image are stored.
#[derive(Debug, Clone, Copy, PartialEq, Eq, Structural)]
pub enum HdrSource {
    /// One byte per sample; chroma samples of U and V take turns.
    B8,
    /// Two bytes per sample, the value in the high `bits` bits; chroma samples of
    /// U and V take turns.
    B16 { bits: u32 },
}

/// How many bits the samples of a format have, where they have more than 8.
pub open spec fn high_bits(format: PixelFormat) -> Option<u32> {
    match format {
        PixelFormat::P010 => Some(10),
        PixelFormat::P012 => Some(12),
        _ => None,
    }
}

/// How the samples of a format with more than 8 bits are stored.
pub fn hdr_source_for_format(format: PixelFormat) -> (r: Option<HdrSource>)
    ensures
        match high_bits(format) {
            Some(bits) => r == Some(HdrSource::B16 { bits }),
            None => r is None,
        },
{
    match format {
        PixelFormat::P010 => Some(HdrSource::B16 { bits: 10 }),
        PixelFormat::P012 => Some(HdrSource::B16 { bits: 12 }),
        _ => None,
    }
}

/// The bytes that an image takes up in a readback buffer.
#[derive(Debug, Clone, Copy, PartialEq, Eq, Structural)]
pub struct ReadbackLayout {
    pub uv_width: u32,
    pub uv_height: u32,
    pub y_size: u32,
    pub uv_size: u32,
    pub total_size: u64,
}

/// Half of a number, rounded up.
pub open spec fn half_up(n: int) -> int {
    (n + 1) / 2
}

/// The bytes of a sample.
pub open spec fn sample_bytes(format: PixelFormat) -> int {
    if high_bits(format) is Some {
        2
    } else {
        1
    }
}

/// The plane sizes of an image can be counted in 32 bits.
pub open spec fn is_readable(width: u32, height: u32, format: PixelFormat) -> bool {
    &&& width * height * sample_bytes(format) <= u32::MAX
    &&& half_up(width as int) * half_up(height as int) * 2 * sample_bytes(format) <= u32::MAX
}

proof fn lemma_plane_lengths(width: u32, height: u32)
    ensures
        0 <= width * height,
        0 <= half_up(width as int) * half_up(height as int),
{
    assert(0 <= width * height) by (nonlinear_arith);
    let a = half_up(width as int);
    let b = half_up(height as int);
    assert(0 <= a * b) by (nonlinear_arith)
        requires
            a >= 0,
            b >= 0,
    ;
}

/// How an image lies in a readback buffer: the luma plane, then the plane of
/// chroma pairs at half the width and height.
pub fn readback_layout(width: u32, height: u32, format: PixelFormat) -> (r: ReadbackLayout)
    requires
        is_readable(width, height, format),
    ensures
        r.uv_width == half_up(width as int),
        r.uv_height == half_up(height as int),
        r.y_size == width * height * sample_bytes(format),
        r.uv_size == r.uv_width * r.uv_height * 2 * sample_bytes(format),
        r.total_size == r.y_size + r.uv_size,
{
    let uv_width: u32 = width / 2 + width % 2;
    let uv_height: u32 = height / 2 + height % 2;
    let ghost n = width * height;
    let ghost m = uv_width * uv_height;
    let ghost b = sample_bytes(format);
    proof {
        lemma_plane_lengths(width, height);
        assert(half_up(width as int) == uv_width);
        assert(half_up(height as int) == uv_height);
        assert(b == 1 || b == 2);
        assert((b == 1 ==> n * b == n && m * 2 * b == m * 2) && (b == 2 ==> n * b == n * 2 && m * 2
            * b == m * 4)) by (nonlinear_arith);
    }
    let (y_size, uv_size): (u32, u32) = match hdr_source_for_format(format) {
        Some(_) => (width * height * 2, uv_width * uv_height * 4),
        None => (width * height, uv_width * uv_height * 2),
    };
    ReadbackLayout {
        uv_width,
        uv_height,
        y_size,
        uv_size,
        total_size: y_size as u64 + uv_size as u64,
    }
}

/// A sample of `bits` bits, stored in the high bits of 16, as one of 8 bits: the
/// nearest, and the greatest where that is too great.
pub open spec fn scaled(v: int, bits: nat) -> int {
    let x = v / (pow2((16 - bits) as nat) as int);
    let r = (x * 256 + pow2((bits - 1) as nat)) / (pow2(bits) as int);
    if r > 255 {
        255
    } else {
        r
    }
}

/// Scaling keeps the order of samples, leaves black black, and gives the
/// greatest sample the greatest value.
pub proof fn law_scaling_keeps_order(a: u16, b: u16, bits: nat)
    requires
        a <= b,
        1 <= bits <= 16,
    ensures
        0 <= scaled(a as int, bits) <= scaled(b as int, bits) <= 255,
        scaled(0, bits) == 0,
        bits >= 8 ==> scaled(0xFFFF, bits) == 255,
{
    let d = pow2((16 - bits) as nat) as int;
    let n = pow2(bits) as int;
    let h = pow2((bits - 1) as nat) as int;
    lemma_pow2_pos((16 - bits) as nat);
    lemma_pow2_pos(bits);
    lemma_pow2_pos((bits - 1) as nat);
    lemma2_to64();
    lemma_pow2_adds((bits - 1) as nat, 1);
    lemma_pow2_adds(bits, (16 - bits) as nat);
    let x = a as int / d;
    let y = b as int / d;
    vstd::arithmetic::div_mod::lemma_div_is_ordered(a as int, b as int, d);
    vstd::arithmetic::div_mod::lemma_div_is_ordered(x * 256 + h, y * 256 + h, n);
    vstd::arithmetic::div_mod::lemma_div_pos_is_pos(a as int, d);
    vstd::arithmetic::div_mod::lemma_div_pos_is_pos(x * 256 + h, n);
    vstd::arithmetic::div_mod::lemma_div_basics(d);
    vstd::arithmetic::div_mod::lemma_basic_div(h, n);
    if bits >= 8 {
        let top = 0xFFFFint / d;
        assert(top == n - 1) by {
            assert((n - 1) * d + (d - 1) == 0xFFFF) by (nonlinear_arith)
                requires
                    n * d == 0x1_0000,
            ;
            vstd::arithmetic::div_mod::lemma_fundamental_div_mod_converse(0xFFFF, d, n - 1, d - 1);
        }
        if bits > 8 {
            lemma_pow2_strictly_increases(8, bits);
        }
        vstd::arithmetic::div_mod::lemma_fundamental_div_mod(top * 256 + h, n);
        vstd::arithmetic::div_mod::lemma_div_is_ordered(255 * n, top * 256 + h, n);
        vstd::arithmetic::div_mod::lemma_div_by_multiple(255, n);
    }
}

/// Scales a sample of `bits` bits, stored in the high bits of 16, to 8 bits,
/// rounded.
pub fn scale_to_8(v: u16, bits: u32) -> (r: u8)
    requires
        1 <= bits <= 16,
    ensures
        r == scaled(v as int, bits as nat),
{
    proof {
        lemma2_to64();
        let s = (16 - bits) as nat;
        lemma_pow2_pos(s);
        lemma_pow2_pos(bits as nat);
        lemma_pow2_pos((bits - 1) as nat);
        lemma_pow2_adds(bits as nat, s);
        lemma_pow2_adds((bits - 1) as nat, 1);
        if bits < 16 {
            lemma_pow2_strictly_increases(bits as nat, 16);
        }
        vstd::bits::lemma_u32_shr_is_div(v as u32, (16 - bits) as u32);
        let x = v as int / pow2(s) as int;
        assert(x < pow2(bits as nat)) by (nonlinear_arith)
            requires
                x == v as int / pow2(s) as int,
                v < 0x1_0000,
                pow2(bits as nat) * pow2(s) == 0x1_0000,
                pow2(s) > 0,
        ;
        vstd::arithmetic::div_mod::lemma_div_pos_is_pos(v as int, pow2(s) as int);
        vstd::bits::lemma_u32_shl_is_mul(1, (bits - 1) as u32);
    }
    let x: u32 = (v as u32) >> (16 - bits);
    let ghost t = x * 256 + pow2((bits - 1) as nat);
    proof {
        vstd::bits::lemma_u32_shr_is_div((x * 256 + (1u32 << (bits - 1) as u32)) as u32, bits);
        vstd::arithmetic::div_mod::lemma_div_pos_is_pos(t as int, pow2(bits as nat) as int);
    }
    let r: u32 = (x * 256 + (1u32 << (bits - 1))) >> bits;
    if r > 255 {
        255
    } else {
        r as u8
    }
}

/// Whether pixels are those of an 8-bit image: the luma bytes first, then the
/// chroma bytes by turns.
pub open spec fn are_nv12_pixels(p: DecodedPixels, bytes: Seq<u8>, y_len: nat, uv_len: nat) -> bool {
    &&& p.y_plane@ == Seq::new(y_len, |i: int| bytes[i])
    &&& p.u_plane@ == Seq::new(uv_len, |i: int| bytes[y_len + 2 * i])
    &&& p.v_plane@ == Seq::new(uv_len, |i: int| bytes[y_len + 2 * i + 1])
}

/// Whether pixels are those of an image of 16-bit samples, scaled to 8 bits.
pub open spec fn are_scaled_pixels(
    p: DecodedPixels,
    samples: Seq<u16>,
    bits: nat,
    y_len: nat,
    uv_len: nat,
) -> bool {
    &&& p.y_plane@ == Seq::new(y_len, |i: int| scaled(samples[i] as int, bits) as u8)
    &&& p.u_plane@ == Seq::new(uv_len, |i: int| scaled(samples[y_len + 2 * i] as int, bits) as u8)
    &&& p.v_plane@ == Seq::new(
        uv_len,
        |i: int| scaled(samples[y_len + 2 * i + 1] as int, bits) as u8,
    )
}

/// Takes the planes out of an 8-bit image.
pub fn planes_from_nv12(bytes: &[u8], width: u32, height: u32) -> (p: DecodedPixels)
    requires
        is_readable(width, height, PixelFormat::Nv12),
        bytes@.len() >= width * height + half_up(width as int) * half_up(height as int) * 2,
    ensures
        are_nv12_pixels(
            p,
            bytes@,
            (width * height) as nat,
            (half_up(width as int) * half_up(height as int)) as nat,
        ),
{
    let l: ReadbackLayout = readback_layout(width, height, PixelFormat::Nv12);
    let y_len: usize = l.y_size as usize;
    let uv_len: usize = (l.uv_size / 2) as usize;
    let total: usize = bytes.len();
    let ghost n = width * height;
    let ghost m = half_up(width as int) * half_up(height as int);
    proof {
        lemma_plane_lengths(width, height);
        let b = sample_bytes(PixelFormat::Nv12);
        assert(n * b == n && m * 2 * b == m * 2) by (nonlinear_arith)
            requires
                b == 1,
        ;
        assert(y_len == n && uv_len == m);
    }
    let mut y_plane: Vec<u8> = Vec::new();
    let mut i: usize = 0;
    while i < y_len
        invariant
            i <= y_len,
            y_len + 2 * uv_len <= bytes@.len(),
            y_plane@ == Seq::new(i as nat, |k: int| bytes@[k]),
        decreases y_len - i,
    {
        y_plane.push(bytes[i]);
        i = i + 1;
    }
    let mut u_plane: Vec<u8> = Vec::new();
    let mut v_plane: Vec<u8> = Vec::new();
    let mut j: usize = 0;
    while j < uv_len
        invariant
            j <= uv_len,
            y_len + 2 * uv_len <= total == bytes@.len(),
            u_plane@ == Seq::new(j as nat, |k: int| bytes@[y_len + 2 * k]),
            v_plane@ == Seq::new(j as nat, |k: int| bytes@[y_len + 2 * k + 1]),
        decreases uv_len - j,
    {
        u_plane.push(bytes[y_len + 2 * j]);
        v_plane.push(bytes[y_len + 2 * j + 1]);
        j = j + 1;
    }
    DecodedPixels { y_plane, u_plane, v_plane }
}

/// Takes the planes out of an image of 16-bit samples with `bits` bits each.
pub fn planes_from_samples(samples: &[u16], bits: u32, width: u32, height: u32) -> (p:
    DecodedPixels)
    requires
        1 <= bits <= 16,
        is_readable(width, height, PixelFormat::P010),
        samples@.len() >= width * height + half_up(width as int) * half_up(height as int) * 2,
    ensures
        are_scaled_pixels(
            p,
            samples@,
            bits as nat,
            (width * height) as nat,
            (half_up(width as int) * half_up(height as int)) as nat,
        ),
{
    let l: ReadbackLayout = readback_layout(width, height, PixelFormat::P010);
    let y_len: usize = (l.y_size / 2) as usize;
    let uv_len: usize = (l.uv_size / 4) as usize;
    let total: usize = samples.len();
    let ghost n = width * height;
    let ghost m = half_up(width as int) * half_up(height as int);
    proof {
        lemma_plane_lengths(width, height);
        let b = sample_bytes(PixelFormat::P010);
        assert(n * b == n * 2 && m * 2 * b == m * 4) by (nonlinear_arith)
            requires
                b == 2,
        ;
        assert(high_bits(PixelFormat::P010) is Some);
        assert(l.y_size == n * 2);
        assert(l.uv_size == m * 4);
        vstd::arithmetic::div_mod::lemma_div_by_multiple(n, 2);
        vstd::arithmetic::div_mod::lemma_div_by_multiple(m, 4);
        assert(y_len == n && uv_len == m);
    }
    let mut y_plane: Vec<u8> = Vec::new();
    let mut i: usize = 0;
    while i < y_len
        invariant
            i <= y_len,
            1 <= bits <= 16,
            y_len + 2 * uv_len <= samples@.len(),
            y_plane@ == Seq::new(i as nat, |k: int| scaled(samples@[k] as int, bits as nat) as u8),
        decreases y_len - i,
    {
        y_plane.push(scale_to_8(samples[i], bits));
        i = i + 1;
    }
    let mut u_plane: Vec<u8> = Vec::new();
    let mut v_plane: Vec<u8> = Vec::new();
    let mut j: usize = 0;
    while j < uv_len
        invariant
            j <= uv_len,
            1 <= bits <= 16,
            y_len + 2 * uv_len <= total == samples@.len(),
            u_plane@ == Seq::new(
                j as nat,
                |k: int| scaled(samples@[y_len + 2 * k] as int, bits as nat) as u8,
            ),
            v_plane@ == Seq::new(
                j as nat,
                |k: int| scaled(samples@[y_len + 2 * k + 1] as int, bits as nat) as u8,
            ),
        decreases uv_len - j,
    {
        u_plane.push(scale_to_8(samples[y_len + 2 * j], bits));
        v_plane.push(scale_to_8(samples[y_len + 2 * j + 1], bits));
        j = j + 1;
    }
    DecodedPixels { y_plane, u_plane, v_plane }
}

// ---------------------------------------------------------------------------
// Laws
// ---------------------------------------------------------------------------

/// A sample is scaled to the nearest of 8 bits: of the value in its high `bits` bits, in
/// units of two to the power of `bits` less 8, it is off by half a unit at most, unless it
/// is the greatest.
pub proof fn law_samples_are_rounded(v: u16, bits: nat)
    requires
        1 <= bits <= 16,
    ensures
        ({
            let shift = pow2((16 - bits) as nat) as int;
            let full = pow2(bits) as int;
            let x = v as int / shift;
            let r = scaled(v as int, bits);
            &&& 0 <= r <= 255
            &&& shift * x <= v < shift * (x + 1)
            &&& r < 255 ==> -full <= 2 * (256 * x - r * full) < full
            &&& r == 255 ==> 2 * (256 * x - r * full) >= -full
        }),
{
    lemma2_to64();
    let s = (16 - bits) as nat;
    lemma_pow2_pos(s);
    lemma_pow2_pos(bits);
    lemma_pow2_pos((bits - 1) as nat);
    lemma_pow2_adds((bits - 1) as nat, 1);
    let shift = pow2(s) as int;
    let full = pow2(bits) as int;
    let x = v as int / shift;
    vstd::arithmetic::div_mod::lemma_fundamental_div_mod(v as int, shift);
    vstd::arithmetic::div_mod::lemma_mod_bound(v as int, shift);
    vstd::arithmetic::div_mod::lemma_div_pos_is_pos(v as int, shift);
    assert(shift * (x + 1) == shift * x + shift) by (nonlinear_arith);
    let t = x * 256 + pow2((bits - 1) as nat);
    let q = t / full;
    vstd::arithmetic::div_mod::lemma_fundamental_div_mod(t, full);
    vstd::arithmetic::div_mod::lemma_mod_bound(t, full);
    vstd::arithmetic::div_mod::lemma_div_pos_is_pos(t, full);
    assert(full * q == q * full) by (nonlinear_arith);
    if q > 255 {
        assert(q * full >= 255 * full) by (nonlinear_arith)
            requires
                q > 255,
                full > 0,
        ;
    }
}

/// Chroma samples by turns, those of U first.
pub open spec fn by_turns<T>(u: Seq<T>, v: Seq<T>) -> Seq<T> {
    Seq::new(
        2 * u.len(),
        |i: int|
            if i % 2 == 0 {
                u[i / 2]
            } else {
                v[i / 2]
            },
    )
}

/// The planes that were put into an 8-bit image, luma first and then chroma by turns, are
/// taken out of it.
pub proof fn law_planes_come_back(
    p: DecodedPixels,
    y: Seq<u8>,
    u: Seq<u8>,
    v: Seq<u8>,
    rest: Seq<u8>,
)
    requires
        u.len() == v.len(),
        are_nv12_pixels(p, y + by_turns(u, v) + rest, y.len(), u.len()),
    ensures
        p.y_plane@ == y,
        p.u_plane@ == u,
        p.v_plane@ == v,
{
    let all = y + by_turns(u, v) + rest;
    assert forall|i: int| 0 <= i < y.len() implies all[i] == y[i] by {}
    assert forall|i: int| 0 <= i < u.len() implies all[y.len() + 2 * i] == u[i] && all[y.len() + 2
        * i + 1] == v[i] by {
        assert(all[y.len() + 2 * i] == by_turns(u, v)[2 * i]);
        assert(all[y.len() + 2 * i + 1] == by_turns(u, v)[2 * i + 1]);
    }
    assert(p.y_plane@ =~= y);
    assert(p.u_plane@ =~= u);
    assert(p.v_plane@ =~= v);
}

/// The planes that were put into an image of 16-bit samples are taken out of it, each sample
/// scaled.
pub proof fn law_scaled_planes_come_back(
    p: DecodedPixels,
    bits: nat,
    y: Seq<u16>,
    u: Seq<u16>,
    v: Seq<u16>,
    rest: Seq<u16>,
)
    requires
        u.len() == v.len(),
        1 <= bits <= 16,
        are_scaled_pixels(p, y + by_turns(u, v) + rest, bits, y.len(), u.len()),
    ensures
        p.y_plane@.len() == y.len() && p.u_plane@.len() == u.len() && p.v_plane@.len() == v.len(),
        forall|i: int| 0 <= i < y.len() ==> #[trigger] p.y_plane@[i] == scaled(y[i] as int, bits),
        forall|i: int| 0 <= i < u.len() ==> #[trigger] p.u_plane@[i] == scaled(u[i] as int, bits),
        forall|i: int| 0 <= i < v.len() ==> #[trigger] p.v_plane@[i] == scaled(v[i] as int, bits),
{
    let all = y + by_turns(u, v) + rest;
    assert forall|i: int| 0 <= i < y.len() implies #[trigger] p.y_plane@[i] == scaled(
        y[i] as int,
        bits,
    ) by {
        assert(all[i] == y[i]);
        law_samples_are_rounded(y[i], bits);
    }
    assert forall|i: int| 0 <= i < u.len() implies #[trigger] p.u_plane@[i] == scaled(
        u[i] as int,
        bits,
    ) by {
        assert(all[y.len() + 2 * i] == by_turns(u, v)[2 * i]);
        law_samples_are_rounded(u[i], bits);
    }
    assert forall|i: int| 0 <= i < v.len() implies #[trigger] p.v_plane@[i] == scaled(
        v[i] as int,
        bits,
    ) by {
        assert(all[y.len() + 2 * i + 1] == by_turns(u, v)[2 * i + 1]);
        law_samples_are_rounded(v[i], bits);
    }
}

/// Chroma planes are half as wide and high as luma planes, and one sample more where that is
/// odd. The samples of the formats with 10 and 12 bits take up two bytes, others one.
pub proof fn law_plane_sizes(n: int, code: i32)
    ensures
        n <= 2 * half_up(n) <= n + 1,
        high_bits(PixelFormat::P010) == Some(10u32),
        high_bits(PixelFormat::P012) == Some(12u32),
        high_bits(PixelFormat::Nv12) is None,
        high_bits(PixelFormat::Other { code }) is None,
        sample_bytes(PixelFormat::P010) == 2 && sample_bytes(PixelFormat::P012) == 2,
        sample_bytes(PixelFormat::Nv12) == 1,
{
}

} // verus!
