//! The format catalog: pixel formats, their numeric codes and storage
//! classes, the engine variants, and the flags word that combines them.

use crate::text::str_eq;
use vstd::prelude::*;

verus! {

pub const FORMAT_CODE_ARGB8888: u32 = 0x0000_0000;

pub const FORMAT_CODE_RGB565: u32 = 0x0000_0001;

pub const FORMAT_CODE_ARGB4444: u32 = 0x0000_0003;

pub const FORMAT_CODE_L8: u32 = 0x0000_0005;

pub const FORMAT_CODE_LA88: u32 = 0x0000_0007;

pub const FORMAT_CODE_DXT1: u32 = 0x0000_0100;

pub const FORMAT_CODE_DXT3: u32 = 0x0000_0300;

pub const FORMAT_CODE_DXT5: u32 = 0x0000_0500;

/// Returned by [`get_format_code`] for a name that is not in the catalog.
pub const FORMAT_CODE_INVALID: u32 = 0xFFFF_FFFF;

/// Bit 31 of the flags word: set for the second engine generation.
pub const VARIANT_BIT: u32 = 0x8000_0000;

/// The low 31 bits of the flags word, which hold the format code.
pub const FORMAT_CODE_MASK: u32 = 0x7FFF_FFFF;

/// The block-compression schemes a texture can be stored in.
#[derive(Clone, Copy, Debug, PartialEq, Eq, Structural)]
pub enum BlockAlgorithm {
    Bc1,
    Bc2,
    Bc3,
}

/// How the payload of a format is laid out.
#[derive(Clone, Copy, Debug, PartialEq, Eq, Structural)]
pub enum StorageClass {
    /// One fixed-width little-endian value per pixel.
    Uncompressed { bytes_per_pixel: usize },
    /// 4x4 pixel blocks, compressed by the named scheme.
    BlockCompressed { algorithm: BlockAlgorithm },
}

/// The pixel formats the container can hold.
#[derive(Clone, Copy, Debug, PartialEq, Eq, Structural)]
pub enum PixelFormat {
    Argb8888,
    Rgb565,
    Argb4444,
    L8,
    La88,
    Dxt1,
    Dxt3,
    Dxt5,
}

/// The engine generation a container is written for.
#[derive(Clone, Copy, Debug, PartialEq, Eq, Structural)]
pub enum EngineVariant {
    VariantA,
    VariantB,
}

impl BlockAlgorithm {
    /// Bytes that one 4x4 block compresses into.
    pub open spec fn spec_block_bytes(self) -> nat {
        match self {
            BlockAlgorithm::Bc1 => 8,
            BlockAlgorithm::Bc2 => 16,
            BlockAlgorithm::Bc3 => 16,
        }
    }
}

impl PixelFormat {
    /// The format's code in the low 31 bits of the flags word.
    pub open spec fn spec_code(self) -> u32 {
        match self {
            PixelFormat::Argb8888 => FORMAT_CODE_ARGB8888,
            PixelFormat::Rgb565 => FORMAT_CODE_RGB565,
            PixelFormat::Argb4444 => FORMAT_CODE_ARGB4444,
            PixelFormat::L8 => FORMAT_CODE_L8,
            PixelFormat::La88 => FORMAT_CODE_LA88,
            PixelFormat::Dxt1 => FORMAT_CODE_DXT1,
            PixelFormat::Dxt3 => FORMAT_CODE_DXT3,
            PixelFormat::Dxt5 => FORMAT_CODE_DXT5,
        }
    }

    pub open spec fn spec_storage_class(self) -> StorageClass {
        match self {
            PixelFormat::Argb8888 => StorageClass::Uncompressed { bytes_per_pixel: 4 },
            PixelFormat::Rgb565 => StorageClass::Uncompressed { bytes_per_pixel: 2 },
            PixelFormat::Argb4444 => StorageClass::Uncompressed { bytes_per_pixel: 2 },
            PixelFormat::L8 => StorageClass::Uncompressed { bytes_per_pixel: 1 },
            PixelFormat::La88 => StorageClass::Uncompressed { bytes_per_pixel: 2 },
            PixelFormat::Dxt1 => StorageClass::BlockCompressed { algorithm: BlockAlgorithm::Bc1 },
            PixelFormat::Dxt3 => StorageClass::BlockCompressed { algorithm: BlockAlgorithm::Bc2 },
            PixelFormat::Dxt5 => StorageClass::BlockCompressed { algorithm: BlockAlgorithm::Bc3 },
        }
    }

    pub open spec fn is_block_compressed(self) -> bool {
        self.spec_storage_class() is BlockCompressed
    }

    /// The format a name stands for. Names are matched exactly and
    /// case-sensitively.
    pub open spec fn spec_resolve(name: Seq<char>) -> Option<PixelFormat> {
        if name == "argb8888"@ {
            Some(PixelFormat::Argb8888)
        } else if name == "rgb565"@ {
            Some(PixelFormat::Rgb565)
        } else if name == "argb4444"@ {
            Some(PixelFormat::Argb4444)
        } else if name == "l8"@ {
            Some(PixelFormat::L8)
        } else if name == "la88"@ {
            Some(PixelFormat::La88)
        } else if name == "dxt1"@ {
            Some(PixelFormat::Dxt1)
        } else if name == "dxt3"@ {
            Some(PixelFormat::Dxt3)
        } else if name == "dxt5"@ {
            Some(PixelFormat::Dxt5)
        } else {
            None
        }
    }

    /// The name the catalog lists the format under.
    pub open spec fn spec_name(self) -> Seq<char> {
        match self {
            PixelFormat::Argb8888 => "argb8888"@,
            PixelFormat::Rgb565 => "rgb565"@,
            PixelFormat::Argb4444 => "argb4444"@,
            PixelFormat::L8 => "l8"@,
            PixelFormat::La88 => "la88"@,
            PixelFormat::Dxt1 => "dxt1"@,
            PixelFormat::Dxt3 => "dxt3"@,
            PixelFormat::Dxt5 => "dxt5"@,
        }
    }

    /// Every format is found under its own name.
    pub proof fn lemma_resolve_name(self)
        ensures
            Self::spec_resolve(self.spec_name()) == Some(self),
    {
        reveal_strlit("argb8888");
        reveal_strlit("rgb565");
        reveal_strlit("argb4444");
        reveal_strlit("l8");
        reveal_strlit("la88");
        reveal_strlit("dxt1");
        reveal_strlit("dxt3");
        reveal_strlit("dxt5");
        assert("l8"@.len() == 2 && "la88"@.len() == 4);
        assert("argb8888"@[4] == '8' && "argb4444"@[4] == '4');
        assert("la88"@[0] == 'l' && "dxt1"@[0] == 'd' && "dxt3"@[0] == 'd' && "dxt5"@[0] == 'd');
        assert("dxt1"@[3] == '1' && "dxt3"@[3] == '3' && "dxt5"@[3] == '5');
    }

    pub fn name(self) -> (name: &'static str)
        ensures
            name@ == self.spec_name(),
    {
        match self {
            PixelFormat::Argb8888 => "argb8888",
            PixelFormat::Rgb565 => "rgb565",
            PixelFormat::Argb4444 => "argb4444",
            PixelFormat::L8 => "l8",
            PixelFormat::La88 => "la88",
            PixelFormat::Dxt1 => "dxt1",
            PixelFormat::Dxt3 => "dxt3",
            PixelFormat::Dxt5 => "dxt5",
        }
    }

    /// The whole catalog, in the order of the format codes.
    pub fn catalog() -> (formats: Vec<PixelFormat>)
        ensures
            formats@ == seq![
                PixelFormat::Argb8888,
                PixelFormat::Rgb565,
                PixelFormat::Argb4444,
                PixelFormat::L8,
                PixelFormat::La88,
                PixelFormat::Dxt1,
                PixelFormat::Dxt3,
                PixelFormat::Dxt5,
            ],
    {
        let mut formats: Vec<PixelFormat> = Vec::new();
        formats.push(PixelFormat::Argb8888);
        formats.push(PixelFormat::Rgb565);
        formats.push(PixelFormat::Argb4444);
        formats.push(PixelFormat::L8);
        formats.push(PixelFormat::La88);
        formats.push(PixelFormat::Dxt1);
        formats.push(PixelFormat::Dxt3);
        formats.push(PixelFormat::Dxt5);
        formats
    }

    pub fn code(self) -> (code: u32)
        ensures
            code == self.spec_code(),
    {
        match self {
            PixelFormat::Argb8888 => FORMAT_CODE_ARGB8888,
            PixelFormat::Rgb565 => FORMAT_CODE_RGB565,
            PixelFormat::Argb4444 => FORMAT_CODE_ARGB4444,
            PixelFormat::L8 => FORMAT_CODE_L8,
            PixelFormat::La88 => FORMAT_CODE_LA88,
            PixelFormat::Dxt1 => FORMAT_CODE_DXT1,
            PixelFormat::Dxt3 => FORMAT_CODE_DXT3,
            PixelFormat::Dxt5 => FORMAT_CODE_DXT5,
        }
    }

    pub fn storage_class(self) -> (class: StorageClass)
        ensures
            class == self.spec_storage_class(),
    {
        match self {
            PixelFormat::Argb8888 => StorageClass::Uncompressed { bytes_per_pixel: 4 },
            PixelFormat::Rgb565 => StorageClass::Uncompressed { bytes_per_pixel: 2 },
            PixelFormat::Argb4444 => StorageClass::Uncompressed { bytes_per_pixel: 2 },
            PixelFormat::L8 => StorageClass::Uncompressed { bytes_per_pixel: 1 },
            PixelFormat::La88 => StorageClass::Uncompressed { bytes_per_pixel: 2 },
            PixelFormat::Dxt1 => StorageClass::BlockCompressed { algorithm: BlockAlgorithm::Bc1 },
            PixelFormat::Dxt3 => StorageClass::BlockCompressed { algorithm: BlockAlgorithm::Bc2 },
            PixelFormat::Dxt5 => StorageClass::BlockCompressed { algorithm: BlockAlgorithm::Bc3 },
        }
    }

    /// Looks a format up by name.
    pub fn resolve(name: &str) -> (format: Option<PixelFormat>)
        ensures
            format == Self::spec_resolve(name@),
    {
        if str_eq(name, "argb8888") {
            Some(PixelFormat::Argb8888)
        } else if str_eq(name, "rgb565") {
            Some(PixelFormat::Rgb565)
        } else if str_eq(name, "argb4444") {
            Some(PixelFormat::Argb4444)
        } else if str_eq(name, "l8") {
            Some(PixelFormat::L8)
        } else if str_eq(name, "la88") {
            Some(PixelFormat::La88)
        } else if str_eq(name, "dxt1") {
            Some(PixelFormat::Dxt1)
        } else if str_eq(name, "dxt3") {
            Some(PixelFormat::Dxt3)
        } else if str_eq(name, "dxt5") {
            Some(PixelFormat::Dxt5)
        } else {
            None
        }
    }
}

impl EngineVariant {
    /// The variant a game name stands for: `ma1` is the first engine
    /// generation, `ma2` the second.
    pub open spec fn spec_from_name(name: Seq<char>) -> Option<EngineVariant> {
        if name == "ma1"@ {
            Some(EngineVariant::VariantA)
        } else if name == "ma2"@ {
            Some(EngineVariant::VariantB)
        } else {
            None
        }
    }

    pub fn from_name(name: &str) -> (variant: Option<EngineVariant>)
        ensures
            variant == Self::spec_from_name(name@),
    {
        if str_eq(name, "ma1") {
            Some(EngineVariant::VariantA)
        } else if str_eq(name, "ma2") {
            Some(EngineVariant::VariantB)
        } else {
            None
        }
    }

    pub fn is_variant_b(self) -> (b: bool)
        ensures
            b == (self is VariantB),
    {
        match self {
            EngineVariant::VariantA => false,
            EngineVariant::VariantB => true,
        }
    }
}

/// The code a format name maps to, or [`FORMAT_CODE_INVALID`] for a name
/// outside the catalog.
pub open spec fn spec_format_code(name: Seq<char>) -> u32 {
    match PixelFormat::spec_resolve(name) {
        Some(format) => format.spec_code(),
        None => FORMAT_CODE_INVALID,
    }
}

pub fn get_format_code(fmt: &str) -> (code: u32)
    ensures
        code == spec_format_code(fmt@),
        code != FORMAT_CODE_INVALID <==> PixelFormat::spec_resolve(fmt@) is Some,
{
    match PixelFormat::resolve(fmt) {
        Some(format) => format.code(),
        None => FORMAT_CODE_INVALID,
    }
}

/// The flags word: the format code in the low 31 bits, the variant in bit 31.
pub open spec fn spec_flags(format: PixelFormat, variant: EngineVariant) -> u32 {
    (if variant is VariantB { VARIANT_BIT } else { 0u32 }) | format.spec_code()
}

/// Bit 31 of the flags word is set exactly for the second engine
/// generation, and the low 31 bits are the format's code.
pub proof fn lemma_flags_fields(format: PixelFormat, variant: EngineVariant)
    ensures
        (spec_flags(format, variant) & VARIANT_BIT != 0) <==> variant is VariantB,
        spec_flags(format, variant) & FORMAT_CODE_MASK == format.spec_code(),
{
    let code = format.spec_code();
    assert((0x8000_0000u32 | code) & 0x8000_0000u32 != 0) by (bit_vector);
    assert(code <= 0x500 ==> (0u32 | code) & 0x8000_0000u32 == 0) by (bit_vector);
    assert(code <= 0x500 ==> (0x8000_0000u32 | code) & 0x7FFF_FFFFu32 == code) by (bit_vector);
    assert(code <= 0x500 ==> (0u32 | code) & 0x7FFF_FFFFu32 == code) by (bit_vector);
}

pub fn flags(format: PixelFormat, variant: EngineVariant) -> (word: u32)
    ensures
        word == spec_flags(format, variant),
        (word & VARIANT_BIT != 0) <==> variant is VariantB,
        word & FORMAT_CODE_MASK == format.spec_code(),
{
    proof {
        lemma_flags_fields(format, variant);
    }
    let high: u32 = if variant.is_variant_b() { VARIANT_BIT } else { 0 };
    high | format.code()
}

/// Bytes per pixel for the format code in the low 31 bits of `fmt_code`:
/// 4 for ARGB8888, 2 for RGB565, ARGB4444 and LA88, and 1 for L8 and for
/// every code that names no uncompressed format.
pub open spec fn spec_bytes_per_pixel(fmt_code: u32) -> usize {
    let code = fmt_code & FORMAT_CODE_MASK;
    if code == FORMAT_CODE_ARGB8888 {
        4
    } else if code == FORMAT_CODE_RGB565 || code == FORMAT_CODE_ARGB4444 || code
        == FORMAT_CODE_LA88 {
        2
    } else {
        1
    }
}

pub fn get_bytes_per_pixel(fmt_code: u32) -> (bytes: usize)
    ensures
        bytes == spec_bytes_per_pixel(fmt_code),
        1 <= bytes <= 4,
{
    let code = fmt_code & FORMAT_CODE_MASK;
    if code == FORMAT_CODE_ARGB8888 {
        4
    } else if code == FORMAT_CODE_RGB565 || code == FORMAT_CODE_ARGB4444 || code
        == FORMAT_CODE_LA88 {
        2
    } else {
        1
    }
}

/// For an uncompressed format, the width of the storage class is the width
/// that the flags word yields, whichever variant bit it carries.
pub proof fn lemma_bytes_per_pixel_of_flags(format: PixelFormat, variant: EngineVariant)
    ensures
        format.spec_storage_class() matches StorageClass::Uncompressed { bytes_per_pixel }
            ==> spec_bytes_per_pixel(spec_flags(format, variant)) == bytes_per_pixel,
{
    lemma_flags_fields(format, variant);
}

} // verus!
