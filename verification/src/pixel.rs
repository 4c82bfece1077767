//! The pixel packer: one RGBA8 sample in, one fixed-width bit pattern out.
//!
//! Each uncompressed format has a bit formula, an executable function that
//! computes it, and the inverse formula with a proof of what survives the
//! round trip.

use crate::bytes::{le_bytes_u16, le_bytes_u32, push_u16_le, push_u32_le, push_zeros, zeros};
use crate::format::{PixelFormat, StorageClass};
use vstd::prelude::*;

verus! {

/// One sample of the source image. For luminance formats the first channel
/// is the luminance and the second the alpha.
#[derive(Clone, Copy, Debug, PartialEq, Eq, Structural)]
pub struct Rgba8 {
    pub r: u8,
    pub g: u8,
    pub b: u8,
    pub a: u8,
}

/// `(a << 24) | (r << 16) | (g << 8) | b`.
pub open spec fn argb8888(p: Rgba8) -> u32 {
    ((p.a as u32) << 24) | ((p.r as u32) << 16) | ((p.g as u32) << 8) | (p.b as u32)
}

/// `((r >> 3) << 11) | ((g >> 2) << 5) | (b >> 3)`; alpha is dropped.
pub open spec fn rgb565(p: Rgba8) -> u16 {
    (((p.r as u16) >> 3) << 11) | (((p.g as u16) >> 2) << 5) | ((p.b as u16) >> 3)
}

/// `((a >> 4) << 12) | ((r >> 4) << 8) | ((g >> 4) << 4) | (b >> 4)`.
pub open spec fn argb4444(p: Rgba8) -> u16 {
    (((p.a as u16) >> 4) << 12) | (((p.r as u16) >> 4) << 8) | (((p.g as u16) >> 4) << 4) | ((
    p.b as u16) >> 4)
}

/// The first channel, unchanged.
pub open spec fn l8(p: Rgba8) -> u8 {
    p.r
}

/// `(l << 8) | a`, with the luminance in the first channel and the alpha in
/// the second.
pub open spec fn la88(p: Rgba8) -> u16 {
    ((p.r as u16) << 8) | (p.g as u16)
}

pub fn pixel_to_argb8888(src_pixel: Rgba8) -> (packed: u32)
    ensures
        packed == argb8888(src_pixel),
{
    let r = src_pixel.r as u32;
    let g = src_pixel.g as u32;
    let b = src_pixel.b as u32;
    let a = src_pixel.a as u32;

    (a << 24) | (r << 16) | (g << 8) | b
}

pub fn pixel_to_argb4444(src_pixel: Rgba8) -> (packed: u16)
    ensures
        packed == argb4444(src_pixel),
{
    let r = src_pixel.r as u16;
    let g = src_pixel.g as u16;
    let b = src_pixel.b as u16;
    let a = src_pixel.a as u16;

    ((a >> 4) << 12) | ((r >> 4) << 8) | ((g >> 4) << 4) | (b >> 4)
}

pub fn pixel_to_rgb565(src_pixel: Rgba8) -> (packed: u16)
    ensures
        packed == rgb565(src_pixel),
{
    let r = src_pixel.r as u16;
    let g = src_pixel.g as u16;
    let b = src_pixel.b as u16;

    ((r >> 3) << 11) | ((g >> 2) << 5) | (b >> 3)
}

pub fn pixel_to_l8(src_pixel: Rgba8) -> (packed: u8)
    ensures
        packed == l8(src_pixel),
{
    src_pixel.r
}

pub fn pixel_to_la88(src_pixel: Rgba8) -> (packed: u16)
    ensures
        packed == la88(src_pixel),
{
    let l = src_pixel.r as u16;
    let a = src_pixel.g as u16;

    (l << 8) | a
}

/// The bit pattern a sample is stored as. Block-compressed formats store
/// no per-pixel pattern.
pub open spec fn pack(format: PixelFormat, p: Rgba8) -> u32 {
    match format {
        PixelFormat::Argb8888 => argb8888(p),
        PixelFormat::Rgb565 => rgb565(p) as u32,
        PixelFormat::Argb4444 => argb4444(p) as u32,
        PixelFormat::L8 => l8(p) as u32,
        PixelFormat::La88 => la88(p) as u32,
        _ => 0,
    }
}

/// The channels read back out of a stored bit pattern, each at the
/// precision the format keeps; channels the format drops read as zero.
pub open spec fn unpack(format: PixelFormat, bits: u32) -> Rgba8 {
    match format {
        PixelFormat::Argb8888 => Rgba8 {
            r: ((bits >> 16) & 0xff) as u8,
            g: ((bits >> 8) & 0xff) as u8,
            b: (bits & 0xff) as u8,
            a: ((bits >> 24) & 0xff) as u8,
        },
        PixelFormat::Rgb565 => Rgba8 {
            r: ((bits >> 11) & 0x1f) as u8,
            g: ((bits >> 5) & 0x3f) as u8,
            b: (bits & 0x1f) as u8,
            a: 0,
        },
        PixelFormat::Argb4444 => Rgba8 {
            r: ((bits >> 8) & 0xf) as u8,
            g: ((bits >> 4) & 0xf) as u8,
            b: (bits & 0xf) as u8,
            a: ((bits >> 12) & 0xf) as u8,
        },
        PixelFormat::L8 => Rgba8 { r: (bits & 0xff) as u8, g: 0, b: 0, a: 0 },
        PixelFormat::La88 => Rgba8 {
            r: ((bits >> 8) & 0xff) as u8,
            g: (bits & 0xff) as u8,
            b: 0,
            a: 0,
        },
        _ => Rgba8 { r: 0, g: 0, b: 0, a: 0 },
    }
}

/// A sample cut down to what the format keeps of it: the high bits of each
/// stored channel, and zero for each dropped one.
pub open spec fn stored_precision(format: PixelFormat, p: Rgba8) -> Rgba8 {
    match format {
        PixelFormat::Argb8888 => p,
        PixelFormat::Rgb565 => Rgba8 { r: p.r >> 3, g: p.g >> 2, b: p.b >> 3, a: 0 },
        PixelFormat::Argb4444 => Rgba8 { r: p.r >> 4, g: p.g >> 4, b: p.b >> 4, a: p.a >> 4 },
        PixelFormat::L8 => Rgba8 { r: p.r, g: 0, b: 0, a: 0 },
        PixelFormat::La88 => Rgba8 { r: p.r, g: p.g, b: 0, a: 0 },
        _ => Rgba8 { r: 0, g: 0, b: 0, a: 0 },
    }
}

/// Packing a sample and unpacking the result gives the sample at the
/// precision the format keeps.
pub proof fn lemma_unpack_pack(format: PixelFormat, p: Rgba8)
    ensures
        unpack(format, pack(format, p)) == stored_precision(format, p),
{
    let r = p.r;
    let g = p.g;
    let b = p.b;
    let a = p.a;
    match format {
        PixelFormat::Argb8888 => {
            assert({
                let bits = ((a as u32) << 24) | ((r as u32) << 16) | ((g as u32) << 8) | (b as u32);
                &&& ((bits >> 16) & 0xff) as u8 == r
                &&& ((bits >> 8) & 0xff) as u8 == g
                &&& (bits & 0xff) as u8 == b
                &&& ((bits >> 24) & 0xff) as u8 == a
            }) by (bit_vector);
        },
        PixelFormat::Rgb565 => {
            assert({
                let bits = ((((r as u16) >> 3) << 11) | (((g as u16) >> 2) << 5) | ((b as u16)
                    >> 3)) as u32;
                &&& ((bits >> 11) & 0x1f) as u8 == r >> 3
                &&& ((bits >> 5) & 0x3f) as u8 == g >> 2
                &&& (bits & 0x1f) as u8 == b >> 3
            }) by (bit_vector);
        },
        PixelFormat::Argb4444 => {
            assert({
                let bits = ((((a as u16) >> 4) << 12) | (((r as u16) >> 4) << 8) | (((g as u16)
                    >> 4) << 4) | ((b as u16) >> 4)) as u32;
                &&& ((bits >> 8) & 0xf) as u8 == r >> 4
                &&& ((bits >> 4) & 0xf) as u8 == g >> 4
                &&& (bits & 0xf) as u8 == b >> 4
                &&& ((bits >> 12) & 0xf) as u8 == a >> 4
            }) by (bit_vector);
        },
        PixelFormat::L8 => {
            assert(((r as u32) & 0xff) as u8 == r) by (bit_vector);
        },
        PixelFormat::La88 => {
            assert({
                let bits = (((r as u16) << 8) | (g as u16)) as u32;
                &&& ((bits >> 8) & 0xff) as u8 == r
                &&& (bits & 0xff) as u8 == g
            }) by (bit_vector);
        },
        _ => {},
    }
}

/// Samples that agree at the precision a format keeps are stored as the
/// same bit pattern.
pub proof fn lemma_pack_depends_on_stored_precision(format: PixelFormat, p: Rgba8, q: Rgba8)
    requires
        stored_precision(format, p) == stored_precision(format, q),
    ensures
        pack(format, p) == pack(format, q),
{
}

/// The row stride in pixels: `width` rounded up to a multiple of 16.
pub open spec fn padded_width(width: nat) -> nat {
    if width % 16 == 0 {
        width
    } else {
        (width + (16 - width % 16)) as nat
    }
}

/// The padded width is the least multiple of 16 that is not below the
/// width.
pub proof fn lemma_padded_width(width: nat)
    ensures
        padded_width(width) % 16 == 0,
        padded_width(width) >= width,
        padded_width(width) == width <==> width % 16 == 0,
        padded_width(width) < width + 16,
{
}

pub fn pad_width(width: u32) -> (padded: u32)
    requires
        padded_width(width as nat) <= u32::MAX,
    ensures
        padded == padded_width(width as nat),
        padded % 16 == 0,
        padded >= width,
        padded == width <==> width % 16 == 0,
{
    if width % 16 == 0 {
        width
    } else {
        width + (16 - width % 16)
    }
}

/// [`pad_width`] for every width: `None` where the padded width does not
/// fit in 32 bits.
pub fn checked_pad_width(width: u32) -> (padded: Option<u32>)
    ensures
        match padded {
            Some(p) => p == padded_width(width as nat),
            None => padded_width(width as nat) > u32::MAX,
        },
{
    if width % 16 != 0 && width > u32::MAX - 16 {
        None
    } else {
        Some(pad_width(width))
    }
}

/// The bytes one sample is stored as: its bit pattern, least significant
/// byte first, at the width of the format. Block-compressed formats store
/// no per-pixel bytes.
pub open spec fn sample_bytes(format: PixelFormat, p: Rgba8) -> Seq<u8> {
    match format {
        PixelFormat::Argb8888 => le_bytes_u32(argb8888(p)),
        PixelFormat::Rgb565 => le_bytes_u16(rgb565(p)),
        PixelFormat::Argb4444 => le_bytes_u16(argb4444(p)),
        PixelFormat::L8 => seq![l8(p)],
        PixelFormat::La88 => le_bytes_u16(la88(p)),
        _ => Seq::empty(),
    }
}

/// Bytes per stored sample: the width of an uncompressed format, and zero
/// for a block-compressed one.
pub open spec fn sample_width(format: PixelFormat) -> nat {
    match format.spec_storage_class() {
        StorageClass::Uncompressed { bytes_per_pixel } => bytes_per_pixel as nat,
        StorageClass::BlockCompressed { .. } => 0,
    }
}

/// The bytes of one padding column: a zero value of the sample's width.
pub open spec fn padding_bytes(format: PixelFormat) -> Seq<u8> {
    zeros(sample_width(format))
}

/// A stored sample is as wide as its format says.
pub proof fn lemma_sample_bytes_len(format: PixelFormat, p: Rgba8)
    ensures
        sample_bytes(format, p).len() == sample_width(format),
        padding_bytes(format).len() == sample_width(format),
{
}

/// Appends one packed sample.
pub fn push_sample(buf: &mut Vec<u8>, format: PixelFormat, src_pixel: Rgba8)
    ensures
        final(buf)@ == old(buf)@ + sample_bytes(format, src_pixel),
{
    match format {
        PixelFormat::Argb8888 => push_u32_le(buf, pixel_to_argb8888(src_pixel)),
        PixelFormat::Rgb565 => push_u16_le(buf, pixel_to_rgb565(src_pixel)),
        PixelFormat::Argb4444 => push_u16_le(buf, pixel_to_argb4444(src_pixel)),
        PixelFormat::L8 => buf.push(pixel_to_l8(src_pixel)),
        PixelFormat::La88 => push_u16_le(buf, pixel_to_la88(src_pixel)),
        _ => {},
    }
}

/// Appends one padding column.
pub fn push_padding(buf: &mut Vec<u8>, format: PixelFormat)
    ensures
        final(buf)@ == old(buf)@ + padding_bytes(format),
{
    match format.storage_class() {
        StorageClass::Uncompressed { bytes_per_pixel } => push_zeros(buf, bytes_per_pixel),
        StorageClass::BlockCompressed { .. } => {},
    }
}

} // verus!
