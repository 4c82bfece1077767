//! The container writer: the outer header, the `PIC ` chunk and its named
//! sub-chunks, each length field computed before the first byte is
//! written.
//!
//! ```text
//! u32      65536
//! byte[4]  "MGIc"
//! u32      total length          = PIC chunk length + 32
//! u32      record count          = 1
//! byte[16] zero
//! byte[4]  "PIC "
//! byte[4]  zero
//! u32      PIC chunk length
//! u32      sub-chunk count       = 7, or 9 for the second engine
//! "ver "   9   u8  schema version
//! "flgs"   12  u32 flags
//! "wdth"   12  u32 width
//! "hgt "   12  u32 height
//! "mips"   12  u32 mip level count
//! "size"   12  u32 payload size
//! "frms"   12  u32 1             second engine only
//! "dpth"   12  u32 1             second engine only
//! "bits"   payload size + 8, then the payload
//! ```
//!
//! All integers are little-endian.

use crate::bytes::{
    le_bytes_u32, le_u32_at, lemma_join, lemma_le_u32_at_join, lemma_le_u32_at_prefix,
    push_u32_le, push_zeros, zeros,
};
use crate::format::{EngineVariant, PixelFormat, StorageClass};
use crate::payload::{
    compressed_payload, level_fits, uncompressed_payload, write_compressed, write_uncompressed,
};
use crate::raster::{Raster, RasterView};
use crate::texture::{chain_size, EncodeError, MipLevel, TextureDescriptor};
use vstd::prelude::*;

verus! {

/// The first word of every container.
pub const MAGIC_VERSION: u32 = 65536;

/// `MGIc`
pub const TAG_MGIC: [u8; 4] = [0x4D, 0x47, 0x49, 0x63];

/// `PIC `
pub const TAG_PIC: [u8; 4] = [0x50, 0x49, 0x43, 0x20];

/// `ver `
pub const TAG_VER: [u8; 4] = [0x76, 0x65, 0x72, 0x20];

/// `flgs`
pub const TAG_FLGS: [u8; 4] = [0x66, 0x6C, 0x67, 0x73];

/// `wdth`
pub const TAG_WDTH: [u8; 4] = [0x77, 0x64, 0x74, 0x68];

/// `hgt `
pub const TAG_HGT: [u8; 4] = [0x68, 0x67, 0x74, 0x20];

/// `mips`
pub const TAG_MIPS: [u8; 4] = [0x6D, 0x69, 0x70, 0x73];

/// `size`
pub const TAG_SIZE: [u8; 4] = [0x73, 0x69, 0x7A, 0x65];

/// `frms`
pub const TAG_FRMS: [u8; 4] = [0x66, 0x72, 0x6D, 0x73];

/// `dpth`
pub const TAG_DPTH: [u8; 4] = [0x64, 0x70, 0x74, 0x68];

/// `bits`
pub const TAG_BITS: [u8; 4] = [0x62, 0x69, 0x74, 0x73];

/// The value of the `bits` length field: the payload and the eight bytes
/// of the chunk's own tag and length.
pub open spec fn spec_bits_length(payload: nat) -> nat {
    payload + 8
}

/// The length of the `PIC ` chunk: its 16-byte head, the `ver ` chunk,
/// five 12-byte chunks (seven for the second engine) and the `bits` chunk.
pub open spec fn spec_pic_chunk_length(is_ma2: bool, payload: nat) -> nat {
    16 + 9 + 12 * 5 + spec_bits_length(payload) + if is_ma2 {
        12 * 2
    } else {
        0nat
    }
}

/// The length of the whole stream.
pub open spec fn spec_total_length(is_ma2: bool, payload: nat) -> nat {
    spec_pic_chunk_length(is_ma2, payload) + 32
}

/// The bytes of the stream that come before the payload.
pub open spec fn spec_header_length(is_ma2: bool) -> nat {
    if is_ma2 {
        149
    } else {
        125
    }
}

/// For a payload of `S` bytes the `PIC ` chunk is `S + 93` bytes long for
/// the first engine and `S + 117` for the second; the stream is 32 bytes
/// longer, and the header takes all of it but the payload.
pub proof fn lemma_chunk_lengths(is_ma2: bool, payload: nat)
    ensures
        !is_ma2 ==> spec_pic_chunk_length(is_ma2, payload) == payload + 93,
        is_ma2 ==> spec_pic_chunk_length(is_ma2, payload) == payload + 117,
        spec_total_length(is_ma2, payload) == spec_pic_chunk_length(is_ma2, payload) + 32,
        spec_total_length(is_ma2, payload) == spec_header_length(is_ma2) + payload,
{
}

/// The 32 bytes of the outer header.
pub open spec fn outer_header(total_length: u32) -> Seq<u8> {
    le_bytes_u32(MAGIC_VERSION) + TAG_MGIC@ + le_bytes_u32(total_length) + le_bytes_u32(1) + zeros(
        16,
    )
}

/// The 16 bytes at the head of the `PIC ` chunk.
pub open spec fn pic_head(pic_length: u32, is_ma2: bool) -> Seq<u8> {
    TAG_PIC@ + zeros(4) + le_bytes_u32(pic_length) + le_bytes_u32(
        if is_ma2 {
            9
        } else {
            7
        },
    )
}

/// The `ver ` chunk: schema version 2 for the first engine, 4 for the
/// second.
pub open spec fn ver_chunk(is_ma2: bool) -> Seq<u8> {
    TAG_VER@ + le_bytes_u32(9) + seq![if is_ma2 {
        4u8
    } else {
        2u8
    }]
}

/// A 12-byte chunk that holds one 32-bit value.
pub open spec fn u32_chunk(tag: [u8; 4], value: u32) -> Seq<u8> {
    tag@ + le_bytes_u32(12) + le_bytes_u32(value)
}

/// The two chunks that only the second engine reads.
pub open spec fn variant_chunks(is_ma2: bool) -> Seq<u8> {
    if is_ma2 {
        u32_chunk(TAG_FRMS, 1) + u32_chunk(TAG_DPTH, 1)
    } else {
        Seq::empty()
    }
}

/// The tag and the length field of the `bits` chunk.
pub open spec fn bits_head(bits: u32) -> Seq<u8> {
    TAG_BITS@ + le_bytes_u32(bits)
}

/// Everything that precedes the payload.
pub open spec fn header_bytes(
    flags: u32,
    width: u32,
    height: u32,
    mips: u32,
    size: u32,
    actual_size: u32,
    is_ma2: bool,
) -> Seq<u8> {
    outer_header(spec_total_length(is_ma2, actual_size as nat) as u32) + pic_head(
        spec_pic_chunk_length(is_ma2, actual_size as nat) as u32,
        is_ma2,
    ) + ver_chunk(is_ma2) + u32_chunk(TAG_FLGS, flags) + u32_chunk(TAG_WDTH, width) + u32_chunk(
        TAG_HGT,
        height,
    ) + u32_chunk(TAG_MIPS, mips) + u32_chunk(TAG_SIZE, size) + variant_chunks(is_ma2) + bits_head(
        spec_bits_length(actual_size as nat) as u32,
    )
}

/// Where the length of the stream stands in the stream.
pub open spec fn total_length_offset() -> int {
    8
}

/// Where the length of the `PIC ` chunk stands in the stream.
pub open spec fn pic_length_offset() -> int {
    40
}

/// Where the mip level count stands in the stream.
pub open spec fn mips_field_offset() -> int {
    101
}

/// Where the `size` field stands in the stream.
pub open spec fn size_field_offset() -> int {
    113
}

/// Where the length field of the `bits` chunk stands in the stream: in
/// the last four bytes before the payload.
pub open spec fn bits_field_offset(is_ma2: bool) -> int {
    spec_header_length(is_ma2) - 4
}

/// The header is 125 bytes long, 149 for the second engine; its `size`
/// field holds `size` and the length field of its `bits` chunk holds
/// `actual_size + 8`.
pub proof fn lemma_header_fields(
    flags: u32,
    width: u32,
    height: u32,
    mips: u32,
    size: u32,
    actual_size: u32,
    is_ma2: bool,
)
    requires
        spec_total_length(is_ma2, actual_size as nat) <= u32::MAX,
    ensures
        header_bytes(flags, width, height, mips, size, actual_size, is_ma2).len()
            == spec_header_length(is_ma2),
        le_u32_at(
            header_bytes(flags, width, height, mips, size, actual_size, is_ma2),
            size_field_offset(),
        ) == size,
        le_u32_at(
            header_bytes(flags, width, height, mips, size, actual_size, is_ma2),
            bits_field_offset(is_ma2),
        ) == actual_size + 8,
{
    let header = header_bytes(flags, width, height, mips, size, actual_size, is_ma2);
    let total = spec_total_length(is_ma2, actual_size as nat) as u32;
    let pic = spec_pic_chunk_length(is_ma2, actual_size as nat) as u32;
    let bits = spec_bits_length(actual_size as nat) as u32;
    let before_size = outer_header(total) + pic_head(pic, is_ma2) + ver_chunk(is_ma2) + u32_chunk(
        TAG_FLGS,
        flags,
    ) + u32_chunk(TAG_WDTH, width) + u32_chunk(TAG_HGT, height) + u32_chunk(TAG_MIPS, mips)
        + TAG_SIZE@ + le_bytes_u32(12);
    let after_size = variant_chunks(is_ma2) + bits_head(bits);
    assert(before_size.len() == 113);
    assert(header =~= before_size + le_bytes_u32(size) + after_size);
    lemma_le_u32_at_join(before_size, size, after_size);
    let before_bits = before_size + le_bytes_u32(size) + variant_chunks(is_ma2) + TAG_BITS@;
    assert(header =~= before_bits + le_bytes_u32(bits) + Seq::<u8>::empty());
    lemma_le_u32_at_join(before_bits, bits, Seq::<u8>::empty());
}

/// The length field of the outer header holds the length of the stream.
pub proof fn lemma_header_total_length(
    flags: u32,
    width: u32,
    height: u32,
    mips: u32,
    size: u32,
    actual_size: u32,
    is_ma2: bool,
)
    requires
        spec_total_length(is_ma2, actual_size as nat) <= u32::MAX,
    ensures
        le_u32_at(
            header_bytes(flags, width, height, mips, size, actual_size, is_ma2),
            total_length_offset(),
        ) == spec_total_length(is_ma2, actual_size as nat),
{
    let total = spec_total_length(is_ma2, actual_size as nat) as u32;
    let pic = spec_pic_chunk_length(is_ma2, actual_size as nat) as u32;
    let bits = spec_bits_length(actual_size as nat) as u32;
    let at = total_length_offset();
    let h0 = outer_header(total);
    let h1 = h0 + pic_head(pic, is_ma2);
    let h2 = h1 + ver_chunk(is_ma2);
    let h3 = h2 + u32_chunk(TAG_FLGS, flags);
    let h4 = h3 + u32_chunk(TAG_WDTH, width);
    let h5 = h4 + u32_chunk(TAG_HGT, height);
    let h6 = h5 + u32_chunk(TAG_MIPS, mips);
    let h7 = h6 + u32_chunk(TAG_SIZE, size);
    let h8 = h7 + variant_chunks(is_ma2);
    lemma_le_u32_at_prefix(h8, bits_head(bits), at);
    lemma_le_u32_at_prefix(h7, variant_chunks(is_ma2), at);
    lemma_le_u32_at_prefix(h6, u32_chunk(TAG_SIZE, size), at);
    lemma_le_u32_at_prefix(h5, u32_chunk(TAG_MIPS, mips), at);
    lemma_le_u32_at_prefix(h4, u32_chunk(TAG_HGT, height), at);
    lemma_le_u32_at_prefix(h3, u32_chunk(TAG_WDTH, width), at);
    lemma_le_u32_at_prefix(h2, u32_chunk(TAG_FLGS, flags), at);
    lemma_le_u32_at_prefix(h1, ver_chunk(is_ma2), at);
    lemma_le_u32_at_prefix(h0, pic_head(pic, is_ma2), at);
    let before = le_bytes_u32(MAGIC_VERSION) + TAG_MGIC@;
    let after = le_bytes_u32(1) + zeros(16);
    assert(h0 =~= before + le_bytes_u32(total) + after);
    lemma_le_u32_at_join(before, total, after);
}

/// The length field of the `PIC ` chunk holds the length of the chunk.
pub proof fn lemma_header_pic_length(
    flags: u32,
    width: u32,
    height: u32,
    mips: u32,
    size: u32,
    actual_size: u32,
    is_ma2: bool,
)
    requires
        spec_total_length(is_ma2, actual_size as nat) <= u32::MAX,
    ensures
        le_u32_at(
            header_bytes(flags, width, height, mips, size, actual_size, is_ma2),
            pic_length_offset(),
        ) == spec_pic_chunk_length(is_ma2, actual_size as nat),
{
    let total = spec_total_length(is_ma2, actual_size as nat) as u32;
    let pic = spec_pic_chunk_length(is_ma2, actual_size as nat) as u32;
    let bits = spec_bits_length(actual_size as nat) as u32;
    let at = pic_length_offset();
    let h0 = outer_header(total);
    let h1 = h0 + pic_head(pic, is_ma2);
    let h2 = h1 + ver_chunk(is_ma2);
    let h3 = h2 + u32_chunk(TAG_FLGS, flags);
    let h4 = h3 + u32_chunk(TAG_WDTH, width);
    let h5 = h4 + u32_chunk(TAG_HGT, height);
    let h6 = h5 + u32_chunk(TAG_MIPS, mips);
    let h7 = h6 + u32_chunk(TAG_SIZE, size);
    let h8 = h7 + variant_chunks(is_ma2);
    lemma_le_u32_at_prefix(h8, bits_head(bits), at);
    lemma_le_u32_at_prefix(h7, variant_chunks(is_ma2), at);
    lemma_le_u32_at_prefix(h6, u32_chunk(TAG_SIZE, size), at);
    lemma_le_u32_at_prefix(h5, u32_chunk(TAG_MIPS, mips), at);
    lemma_le_u32_at_prefix(h4, u32_chunk(TAG_HGT, height), at);
    lemma_le_u32_at_prefix(h3, u32_chunk(TAG_WDTH, width), at);
    lemma_le_u32_at_prefix(h2, u32_chunk(TAG_FLGS, flags), at);
    lemma_le_u32_at_prefix(h1, ver_chunk(is_ma2), at);
    let before = h0 + TAG_PIC@ + zeros(4);
    let after = le_bytes_u32(
        if is_ma2 {
            9
        } else {
            7
        },
    );
    assert(h1 =~= before + le_bytes_u32(pic) + after);
    lemma_le_u32_at_join(before, pic, after);
}

/// The `mips` chunk holds the mip level count.
pub proof fn lemma_header_mips(
    flags: u32,
    width: u32,
    height: u32,
    mips: u32,
    size: u32,
    actual_size: u32,
    is_ma2: bool,
)
    requires
        spec_total_length(is_ma2, actual_size as nat) <= u32::MAX,
    ensures
        le_u32_at(
            header_bytes(flags, width, height, mips, size, actual_size, is_ma2),
            mips_field_offset(),
        ) == mips,
{
    let total = spec_total_length(is_ma2, actual_size as nat) as u32;
    let pic = spec_pic_chunk_length(is_ma2, actual_size as nat) as u32;
    let bits = spec_bits_length(actual_size as nat) as u32;
    let at = mips_field_offset();
    let h5 = outer_header(total) + pic_head(pic, is_ma2) + ver_chunk(is_ma2) + u32_chunk(
        TAG_FLGS,
        flags,
    ) + u32_chunk(TAG_WDTH, width) + u32_chunk(TAG_HGT, height);
    let h6 = h5 + u32_chunk(TAG_MIPS, mips);
    let h7 = h6 + u32_chunk(TAG_SIZE, size);
    let h8 = h7 + variant_chunks(is_ma2);
    assert(h5.len() == 93);
    lemma_le_u32_at_prefix(h8, bits_head(bits), at);
    lemma_le_u32_at_prefix(h7, variant_chunks(is_ma2), at);
    lemma_le_u32_at_prefix(h6, u32_chunk(TAG_SIZE, size), at);
    let before = h5 + TAG_MIPS@ + le_bytes_u32(12);
    assert(h6 =~= before + le_bytes_u32(mips) + Seq::<u8>::empty());
    lemma_le_u32_at_join(before, mips, Seq::<u8>::empty());
}

/// Appends a four-byte tag.
pub fn push_tag(buf: &mut Vec<u8>, tag: [u8; 4])
    ensures
        final(buf)@ == old(buf)@ + tag@,
{
    buf.push(tag[0]);
    buf.push(tag[1]);
    buf.push(tag[2]);
    buf.push(tag[3]);
}

fn write_outer_header(buf: &mut Vec<u8>, total_length: u32)
    ensures
        final(buf)@ == old(buf)@ + outer_header(total_length),
{
    push_u32_le(buf, MAGIC_VERSION);
    push_tag(buf, TAG_MGIC);
    push_u32_le(buf, total_length);
    push_u32_le(buf, 1);
    push_zeros(buf, 16);
}

fn write_pic_head(buf: &mut Vec<u8>, pic_length: u32, is_ma2: bool)
    ensures
        final(buf)@ == old(buf)@ + pic_head(pic_length, is_ma2),
{
    push_tag(buf, TAG_PIC);
    push_zeros(buf, 4);
    push_u32_le(buf, pic_length);
    push_u32_le(buf, if is_ma2 {
        9
    } else {
        7
    });
}

fn write_ver_chunk(buf: &mut Vec<u8>, is_ma2: bool)
    ensures
        final(buf)@ == old(buf)@ + ver_chunk(is_ma2),
{
    push_tag(buf, TAG_VER);
    push_u32_le(buf, 9);
    buf.push(if is_ma2 {
        4u8
    } else {
        2u8
    });
}

fn write_u32_chunk(buf: &mut Vec<u8>, tag: [u8; 4], value: u32)
    ensures
        final(buf)@ == old(buf)@ + u32_chunk(tag, value),
{
    push_tag(buf, tag);
    push_u32_le(buf, 12);
    push_u32_le(buf, value);
}

fn write_variant_chunks(buf: &mut Vec<u8>, is_ma2: bool)
    ensures
        final(buf)@ == old(buf)@ + variant_chunks(is_ma2),
{
    if is_ma2 {
        write_u32_chunk(buf, TAG_FRMS, 1);
        write_u32_chunk(buf, TAG_DPTH, 1);
        proof {
            lemma_join(old(buf)@, u32_chunk(TAG_FRMS, 1), u32_chunk(TAG_DPTH, 1));
        }
    }
}

fn write_bits_head(buf: &mut Vec<u8>, bits: u32)
    ensures
        final(buf)@ == old(buf)@ + bits_head(bits),
{
    push_tag(buf, TAG_BITS);
    push_u32_le(buf, bits);
    proof {
        lemma_join(old(buf)@, TAG_BITS@, le_bytes_u32(bits));
    }
}

/// Appends everything that precedes the payload: the outer header, the
/// head of the `PIC ` chunk, the metadata chunks and the head of the
/// `bits` chunk. The stream must fit its 32-bit length fields.
pub fn write_header(
    buf: &mut Vec<u8>,
    flags: u32,
    width: u32,
    height: u32,
    mips: u32,
    size: u32,
    actual_size: u32,
    is_ma2: bool,
)
    requires
        spec_total_length(is_ma2, actual_size as nat) <= u32::MAX,
    ensures
        final(buf)@ == old(buf)@ + header_bytes(
            flags,
            width,
            height,
            mips,
            size,
            actual_size,
            is_ma2,
        ),
        final(buf)@.len() == old(buf)@.len() + spec_header_length(is_ma2),
{
    let bits: u32 = actual_size + 8;
    let mut pic_length: u32 = 16 + 9 + (12 * 5) + bits;
    if is_ma2 {
        pic_length += 12 * 2;
    }
    let total_length: u32 = pic_length + 32;
    let ghost start = buf@;

    write_outer_header(buf, total_length);
    let ghost written = outer_header(total_length);
    write_pic_head(buf, pic_length, is_ma2);
    proof {
        lemma_join(start, written, pic_head(pic_length, is_ma2));
        written = written + pic_head(pic_length, is_ma2);
    }
    write_ver_chunk(buf, is_ma2);
    proof {
        lemma_join(start, written, ver_chunk(is_ma2));
        written = written + ver_chunk(is_ma2);
    }
    write_u32_chunk(buf, TAG_FLGS, flags);
    proof {
        lemma_join(start, written, u32_chunk(TAG_FLGS, flags));
        written = written + u32_chunk(TAG_FLGS, flags);
    }
    write_u32_chunk(buf, TAG_WDTH, width);
    proof {
        lemma_join(start, written, u32_chunk(TAG_WDTH, width));
        written = written + u32_chunk(TAG_WDTH, width);
    }
    write_u32_chunk(buf, TAG_HGT, height);
    proof {
        lemma_join(start, written, u32_chunk(TAG_HGT, height));
        written = written + u32_chunk(TAG_HGT, height);
    }
    write_u32_chunk(buf, TAG_MIPS, mips);
    proof {
        lemma_join(start, written, u32_chunk(TAG_MIPS, mips));
        written = written + u32_chunk(TAG_MIPS, mips);
    }
    write_u32_chunk(buf, TAG_SIZE, size);
    proof {
        lemma_join(start, written, u32_chunk(TAG_SIZE, size));
        written = written + u32_chunk(TAG_SIZE, size);
    }
    write_variant_chunks(buf, is_ma2);
    proof {
        lemma_join(start, written, variant_chunks(is_ma2));
        written = written + variant_chunks(is_ma2);
    }
    write_bits_head(buf, bits);
    proof {
        lemma_join(start, written, bits_head(bits));
        lemma_header_fields(flags, width, height, mips, size, actual_size, is_ma2);
    }
}

/// Every length of one container, settled before the first byte is
/// written.
#[derive(Debug)]
pub struct ContainerLayout {
    pub flags: u32,
    /// The mip chain, largest level first.
    pub levels: Vec<MipLevel>,
    /// Bytes of all level payloads together: the `size` field.
    pub payload_size: u32,
    /// The length field of the `bits` chunk.
    pub bits_length: u32,
    /// The length field of the `PIC ` chunk.
    pub pic_chunk_length: u32,
    /// The length field of the outer header: the length of the stream.
    pub total_length: u32,
}

impl TextureDescriptor {
    pub open spec fn is_ma2(self) -> bool {
        self.variant is VariantB
    }

    /// Whether the stream fits its 32-bit length fields.
    pub open spec fn fits(self) -> bool {
        spec_total_length(self.is_ma2(), self.spec_payload_size()) <= u32::MAX
    }
}

impl ContainerLayout {
    /// The layout is the one planned for `desc`.
    pub open spec fn plans(self, desc: TextureDescriptor) -> bool {
        &&& self.flags == desc.spec_flags()
        &&& self.levels@ == desc.spec_mip_chain()
        &&& self.payload_size == desc.spec_payload_size()
        &&& self.payload_size == chain_size(self.levels@)
        &&& self.bits_length == spec_bits_length(self.payload_size as nat)
        &&& self.pic_chunk_length == spec_pic_chunk_length(desc.is_ma2(), self.payload_size as nat)
        &&& self.total_length == spec_total_length(desc.is_ma2(), self.payload_size as nat)
    }

    /// Plans the container for a texture: the mip chain, the payload size
    /// and the three length fields. `None` where the stream would not fit
    /// its 32-bit length fields.
    pub fn plan(desc: &TextureDescriptor) -> (layout: Option<ContainerLayout>)
        requires
            desc.wf(),
        ensures
            match layout {
                Some(l) => desc.fits() && l.plans(*desc),
                None => !desc.fits(),
            },
    {
        let payload_size = match desc.payload_size() {
            Some(size) => size,
            None => {
                return None;
            },
        };
        let extra: u32 = if desc.variant.is_variant_b() {
            149
        } else {
            125
        };
        if payload_size > u32::MAX - extra {
            return None;
        }
        let levels = desc.plan_mip_chain();
        let bits_length: u32 = payload_size + 8;
        let total_length: u32 = payload_size + extra;
        Some(
            ContainerLayout {
                flags: desc.flags(),
                levels,
                payload_size,
                bits_length,
                pic_chunk_length: total_length - 32,
                total_length,
            },
        )
    }
}

/// The payload of the `bits` chunk: for a block-compressed format every
/// level of the mip chain, largest first; for an uncompressed one the
/// padded rows of the image.
pub open spec fn payload_bytes(img: RasterView, desc: TextureDescriptor) -> Seq<u8> {
    match desc.format.spec_storage_class() {
        StorageClass::BlockCompressed { algorithm } => compressed_payload(
            img,
            algorithm,
            desc.spec_mip_chain(),
        ),
        StorageClass::Uncompressed { .. } => uncompressed_payload(img, desc.format),
    }
}

/// The whole stream: the header, with every length field taken from the
/// payload size, and then the payload.
pub open spec fn container_bytes(img: RasterView, desc: TextureDescriptor) -> Seq<u8> {
    header_bytes(
        desc.spec_flags(),
        desc.width,
        desc.height,
        desc.spec_mip_count() as u32,
        desc.spec_payload_size() as u32,
        desc.spec_payload_size() as u32,
        desc.is_ma2(),
    ) + payload_bytes(img, desc)
}

/// In every stream the `size` field holds the sizes of the planned mip
/// levels added up, and the length field of the `bits` chunk holds eight
/// more.
pub proof fn lemma_size_fields(img: RasterView, desc: TextureDescriptor)
    requires
        desc.fits(),
    ensures
        le_u32_at(container_bytes(img, desc), size_field_offset()) == chain_size(
            desc.spec_mip_chain(),
        ),
        le_u32_at(container_bytes(img, desc), bits_field_offset(desc.is_ma2())) == chain_size(
            desc.spec_mip_chain(),
        ) + 8,
{
    let size = desc.spec_payload_size() as u32;
    let header = header_bytes(
        desc.spec_flags(),
        desc.width,
        desc.height,
        desc.spec_mip_count() as u32,
        size,
        size,
        desc.is_ma2(),
    );
    let stream = container_bytes(img, desc);
    lemma_header_fields(
        desc.spec_flags(),
        desc.width,
        desc.height,
        desc.spec_mip_count() as u32,
        size,
        size,
        desc.is_ma2(),
    );
    desc.lemma_chain_size();
    let at = size_field_offset();
    assert(stream.subrange(at, at + 4) =~= header.subrange(at, at + 4));
    let at = bits_field_offset(desc.is_ma2());
    assert(stream.subrange(at, at + 4) =~= header.subrange(at, at + 4));
}

/// The texture that an image, a format and a variant describe.
pub open spec fn spec_descriptor(img: RasterView, format: PixelFormat, variant: EngineVariant) -> TextureDescriptor {
    TextureDescriptor { width: img.width as u32, height: img.height as u32, format, variant }
}

/// What encoding an image gives: the stream, or the reason for refusing
/// the image. A block-compressed format on odd dimensions is refused
/// first, then a stream too long for its length fields.
pub open spec fn spec_encode(img: RasterView, format: PixelFormat, variant: EngineVariant) -> Result<
    Seq<u8>,
    EncodeError,
> {
    let desc = spec_descriptor(img, format, variant);
    if format.is_block_compressed() && (img.width % 2 == 1 || img.height % 2 == 1) {
        Err(EncodeError::OddDimensions)
    } else if !desc.fits() {
        Err(EncodeError::TooLarge)
    } else {
        Ok(container_bytes(img, desc))
    }
}

/// Appends the payload planned for a texture.
pub fn write_payload(
    buf: &mut Vec<u8>,
    img: &Raster,
    desc: &TextureDescriptor,
    layout: &ContainerLayout,
)
    requires
        desc.wf(),
        desc.fits(),
        layout.plans(*desc),
        *desc == spec_descriptor(img@, desc.format, desc.variant),
    ensures
        final(buf)@ == old(buf)@ + payload_bytes(img@, *desc),
        final(buf)@.len() == old(buf)@.len() + desc.spec_payload_size(),
{
    let width = img.width();
    proof {
        desc.lemma_block_algorithm();
    }
    match desc.format.storage_class() {
        StorageClass::BlockCompressed { algorithm } => {
            assert forall|i: int| 0 <= i < layout.levels@.len() implies level_fits(
                img@,
                algorithm,
                #[trigger] layout.levels@[i],
            ) by {
                desc.lemma_level_fits(i as nat);
            }
            write_compressed(buf, img, algorithm, &layout.levels);
        },
        StorageClass::Uncompressed { bytes_per_pixel } => {
            proof {
                desc.lemma_uncompressed_payload_size();
            }
            write_uncompressed(buf, img, desc.format);
        },
    }
}

/// Encodes an image and appends the stream to `buf`. On an error nothing
/// is appended.
pub fn encode(buf: &mut Vec<u8>, img: &Raster, format: PixelFormat, variant: EngineVariant) -> (done:
    Result<(), EncodeError>)
    ensures
        match done {
            Ok(()) => {
                let desc = spec_descriptor(img@, format, variant);
                &&& spec_encode(img@, format, variant) == Ok::<Seq<u8>, EncodeError>(
                    container_bytes(img@, desc),
                )
                &&& final(buf)@ == old(buf)@ + container_bytes(img@, desc)
                &&& final(buf)@.len() == old(buf)@.len() + spec_total_length(
                    desc.is_ma2(),
                    desc.spec_payload_size(),
                )
            },
            Err(e) => {
                &&& spec_encode(img@, format, variant) == Err::<Seq<u8>, EncodeError>(e)
                &&& final(buf)@ == old(buf)@
            },
        },
{
    let desc = match TextureDescriptor::new(img.width(), img.height(), format, variant) {
        Ok(desc) => desc,
        Err(e) => {
            return Err(e);
        },
    };
    let layout = match ContainerLayout::plan(&desc) {
        Some(layout) => layout,
        None => {
            return Err(EncodeError::TooLarge);
        },
    };
    let count = desc.mip_count();
    write_header(
        buf,
        layout.flags,
        desc.width,
        desc.height,
        count,
        layout.payload_size,
        layout.payload_size,
        variant.is_variant_b(),
    );
    write_payload(buf, img, &desc, &layout);
    proof {
        let header = header_bytes(
            desc.spec_flags(),
            desc.width,
            desc.height,
            desc.spec_mip_count() as u32,
            desc.spec_payload_size() as u32,
            desc.spec_payload_size() as u32,
            desc.is_ma2(),
        );
        lemma_join(old(buf)@, header, payload_bytes(img@, desc));
        lemma_chunk_lengths(desc.is_ma2(), desc.spec_payload_size());
    }
    Ok(())
}

/// What [`write_tif_file`] gives for an image, a format name and a game
/// name: an unknown game name is refused first, then an unknown format
/// name, then what [`spec_encode`] refuses.
pub open spec fn spec_write_tif_file(img: RasterView, format: Seq<char>, game: Seq<char>) -> Result<
    Seq<u8>,
    EncodeError,
> {
    match EngineVariant::spec_from_name(game) {
        None => Err(EncodeError::UnknownVariant),
        Some(variant) => match PixelFormat::spec_resolve(format) {
            None => Err(EncodeError::UnknownFormat),
            Some(resolved) => spec_encode(img, resolved, variant),
        },
    }
}

/// Encodes `img` in the named format for the named game and appends the
/// stream to `buf`. On an error nothing is appended.
pub fn write_tif_file(buf: &mut Vec<u8>, img: &Raster, format: &str, game: &str) -> (done: Result<
    (),
    EncodeError,
>)
    ensures
        match done {
            Ok(()) => {
                let stream = spec_write_tif_file(img@, format@, game@);
                let desc = spec_descriptor(
                    img@,
                    PixelFormat::spec_resolve(format@)->Some_0,
                    EngineVariant::spec_from_name(game@)->Some_0,
                );
                &&& stream == Ok::<Seq<u8>, EncodeError>(container_bytes(img@, desc))
                &&& final(buf)@ == old(buf)@ + container_bytes(img@, desc)
                &&& final(buf)@.len() == old(buf)@.len() + spec_total_length(
                    desc.is_ma2(),
                    desc.spec_payload_size(),
                )
            },
            Err(e) => {
                &&& spec_write_tif_file(img@, format@, game@) == Err::<Seq<u8>, EncodeError>(e)
                &&& final(buf)@ == old(buf)@
            },
        },
{
    let variant = match EngineVariant::from_name(game) {
        Some(variant) => variant,
        None => {
            return Err(EncodeError::UnknownVariant);
        },
    };
    let resolved = match PixelFormat::resolve(format) {
        Some(resolved) => resolved,
        None => {
            return Err(EncodeError::UnknownFormat);
        },
    };
    encode(buf, img, resolved, variant)
}

} // verus!
