//! What is to be encoded: the texture descriptor, the errors that refuse
//! it, and the mip chain planned for it.

use crate::codec::compressed_len;
use crate::format::{
    flags, lemma_bytes_per_pixel_of_flags, lemma_flags_fields, spec_bytes_per_pixel, spec_flags,
    BlockAlgorithm, EngineVariant, PixelFormat, StorageClass,
};
use crate::mip::{
    compute_image_size, halved, lemma_halved_le, lemma_image_size_grows,
    lemma_mip_level_dimensions, level_size, mip_level_count, spec_block_algorithm,
    spec_image_size, spec_level_size, spec_mip_level_count,
};
use crate::pixel::{padded_width, sample_width};
use vstd::prelude::*;

verus! {

/// Why a texture cannot be encoded.
#[derive(Clone, Copy, Debug, PartialEq, Eq, Structural)]
pub enum EncodeError {
    /// Configuration: the game name is neither `ma1` nor `ma2`.
    UnknownVariant,
    /// Configuration: the format name is not in the catalog.
    UnknownFormat,
    /// Geometry: a block-compressed format on an image whose width or
    /// height is odd.
    OddDimensions,
    /// The stream would be longer than its 32-bit length fields can say.
    TooLarge,
}

impl EncodeError {
    pub open spec fn spec_is_configuration(self) -> bool {
        self is UnknownVariant || self is UnknownFormat
    }

    /// Whether the error is about a name the caller passed.
    pub fn is_configuration(&self) -> (b: bool)
        ensures
            b == self.spec_is_configuration(),
    {
        match self {
            EncodeError::UnknownVariant => true,
            EncodeError::UnknownFormat => true,
            _ => false,
        }
    }

    /// Whether the error is about the dimensions of the image.
    pub fn is_geometry(&self) -> (b: bool)
        ensures
            b == (self is OddDimensions),
    {
        match self {
            EncodeError::OddDimensions => true,
            _ => false,
        }
    }

    pub open spec fn spec_message(self) -> Seq<char> {
        match self {
            EncodeError::UnknownVariant => "game must be either \"ma1\" or \"ma2\""@,
            EncodeError::UnknownFormat => "texture format is not supported"@,
            EncodeError::OddDimensions => "image dimensions must be even for dxt1, dxt3 and dxt5"@,
            EncodeError::TooLarge => "image is too large for the container"@,
        }
    }

    /// A sentence for the operator.
    pub fn message(&self) -> (text: String)
        ensures
            text@ == self.spec_message(),
    {
        match self {
            EncodeError::UnknownVariant => "game must be either \"ma1\" or \"ma2\"".to_owned(),
            EncodeError::UnknownFormat => "texture format is not supported".to_owned(),
            EncodeError::OddDimensions => "image dimensions must be even for dxt1, dxt3 and dxt5".to_owned(),
            EncodeError::TooLarge => "image is too large for the container".to_owned(),
        }
    }
}

/// The input of one encode: the dimensions of the source image, the
/// format to store it in and the engine to store it for.
#[derive(Clone, Copy, Debug, PartialEq, Eq, Structural)]
pub struct TextureDescriptor {
    pub width: u32,
    pub height: u32,
    pub format: PixelFormat,
    pub variant: EngineVariant,
}

/// One level of the mip chain.
#[derive(Clone, Copy, Debug, PartialEq, Eq, Structural)]
pub struct MipLevel {
    /// Position in the chain; level 0 is the full resolution.
    pub index: u32,
    pub width: u32,
    pub height: u32,
    /// Bytes of the level's encoded payload.
    pub size: u32,
}

/// The sizes of the given levels together.
pub open spec fn chain_size(levels: Seq<MipLevel>) -> nat
    decreases levels.len(),
{
    if levels.len() == 0 {
        0
    } else {
        chain_size(levels.drop_last()) + levels.last().size as nat
    }
}

impl TextureDescriptor {
    /// Both dimensions are positive, and even where the format is
    /// block-compressed.
    pub open spec fn wf(self) -> bool {
        &&& self.width > 0
        &&& self.height > 0
        &&& self.format.is_block_compressed() ==> self.width % 2 == 0 && self.height % 2 == 0
    }

    /// Describes a texture, or refuses it with
    /// [`EncodeError::OddDimensions`] where the format is block-compressed
    /// and a dimension is odd.
    pub fn new(width: u32, height: u32, format: PixelFormat, variant: EngineVariant) -> (made:
        Result<TextureDescriptor, EncodeError>)
        requires
            width > 0,
            height > 0,
        ensures
            match made {
                Ok(d) => d == (TextureDescriptor { width, height, format, variant }) && d.wf(),
                Err(e) => e == EncodeError::OddDimensions && format.is_block_compressed() && (width
                    % 2 == 1 || height % 2 == 1),
            },
    {
        let block_compressed = match format.storage_class() {
            StorageClass::BlockCompressed { .. } => true,
            StorageClass::Uncompressed { .. } => false,
        };
        if block_compressed && (width % 2 != 0 || height % 2 != 0) {
            Err(EncodeError::OddDimensions)
        } else {
            Ok(TextureDescriptor { width, height, format, variant })
        }
    }

    /// The flags word of the texture.
    pub open spec fn spec_flags(self) -> u32 {
        spec_flags(self.format, self.variant)
    }

    pub fn flags(&self) -> (word: u32)
        ensures
            word == self.spec_flags(),
    {
        flags(self.format, self.variant)
    }

    /// Levels in the chain: one for an uncompressed format, and for a
    /// block-compressed one the number of one bits in `(min(width, height)
    /// - 1) >> 1`.
    pub open spec fn spec_mip_count(self) -> nat {
        if self.format.is_block_compressed() {
            spec_mip_level_count(self.width as nat, self.height as nat)
        } else {
            1
        }
    }

    pub fn mip_count(&self) -> (count: u32)
        requires
            self.wf(),
        ensures
            count == self.spec_mip_count(),
            count <= 31,
    {
        match self.format.storage_class() {
            StorageClass::BlockCompressed { .. } => {
                let count = mip_level_count(self.width, self.height);
                proof {
                    if count > 0 {
                        lemma_mip_level_dimensions(self.width as nat, self.height as nat, 0);
                    }
                }
                count
            },
            StorageClass::Uncompressed { .. } => 1,
        }
    }

    /// The level at position `index` of the chain.
    pub open spec fn spec_level(self, index: nat) -> MipLevel {
        let width = halved(self.width as nat, index);
        let height = halved(self.height as nat, index);
        MipLevel {
            index: index as u32,
            width: width as u32,
            height: height as u32,
            size: spec_level_size(self.spec_flags(), width, height) as u32,
        }
    }

    /// The mip chain, largest level first.
    pub open spec fn spec_mip_chain(self) -> Seq<MipLevel> {
        Seq::new(self.spec_mip_count(), |index: int| self.spec_level(index as nat))
    }

    /// Bytes of the whole payload: the sizes of all levels together.
    pub open spec fn spec_payload_size(self) -> nat {
        spec_image_size(
            self.width as nat,
            self.height as nat,
            self.spec_flags(),
            self.spec_mip_count(),
        )
    }

    /// The payload bytes, or `None` where they do not fit in 32 bits.
    pub fn payload_size(&self) -> (size: Option<u32>)
        requires
            self.wf(),
        ensures
            match size {
                Some(s) => s == self.spec_payload_size(),
                None => self.spec_payload_size() > u32::MAX,
            },
    {
        compute_image_size(self.width, self.height, self.flags(), self.mip_count())
    }

    /// The compression scheme of the texture, read from its format or from
    /// its flags word, is the same.
    pub proof fn lemma_block_algorithm(self)
        ensures
            match self.format.spec_storage_class() {
                StorageClass::BlockCompressed { algorithm } => spec_block_algorithm(
                    self.spec_flags(),
                ) == Some(algorithm),
                StorageClass::Uncompressed { bytes_per_pixel } => spec_block_algorithm(
                    self.spec_flags(),
                ) == None::<BlockAlgorithm> && spec_bytes_per_pixel(self.spec_flags())
                    == bytes_per_pixel,
            },
    {
        lemma_flags_fields(self.format, self.variant);
        lemma_bytes_per_pixel_of_flags(self.format, self.variant);
    }

    /// No level is larger than the whole payload.
    pub proof fn lemma_level_size_le_payload(self, index: nat)
        requires
            index < self.spec_mip_count(),
        ensures
            spec_level_size(
                self.spec_flags(),
                halved(self.width as nat, index),
                halved(self.height as nat, index),
            ) <= self.spec_payload_size(),
    {
        lemma_image_size_grows(
            self.width as nat,
            self.height as nat,
            self.spec_flags(),
            index + 1,
            self.spec_mip_count(),
        );
    }

    /// The sizes of the first `count` levels add up to the payload of
    /// `count` levels.
    pub proof fn lemma_chain_prefix_size(self, count: nat)
        requires
            count <= self.spec_mip_count(),
            self.spec_payload_size() <= u32::MAX,
        ensures
            chain_size(self.spec_mip_chain().take(count as int)) == spec_image_size(
                self.width as nat,
                self.height as nat,
                self.spec_flags(),
                count,
            ),
        decreases count,
    {
        let chain = self.spec_mip_chain();
        if count > 0 {
            let before = (count - 1) as nat;
            self.lemma_chain_prefix_size(before);
            self.lemma_level_size_le_payload(before);
            assert(chain.take(count as int).drop_last() =~= chain.take(before as int));
            assert(chain.take(count as int).last() == self.spec_level(before));
        }
    }

    /// The sizes of the planned levels add up to the payload size.
    pub proof fn lemma_chain_size(self)
        requires
            self.spec_payload_size() <= u32::MAX,
        ensures
            chain_size(self.spec_mip_chain()) == self.spec_payload_size(),
    {
        self.lemma_chain_prefix_size(self.spec_mip_count());
        assert(self.spec_mip_chain().take(self.spec_mip_count() as int) =~= self.spec_mip_chain());
    }

    /// Plans the mip chain: level 0 at full resolution, each further level
    /// half as wide and half as high, each with the bytes its payload
    /// takes.
    pub fn plan_mip_chain(&self) -> (levels: Vec<MipLevel>)
        requires
            self.wf(),
            self.spec_payload_size() <= u32::MAX,
        ensures
            levels@ == self.spec_mip_chain(),
            chain_size(levels@) == self.spec_payload_size(),
            forall|i: int|
                0 <= i < levels@.len() ==> {
                    &&& (#[trigger] levels@[i]).index == i
                    &&& levels@[i].width == halved(self.width as nat, i as nat)
                    &&& levels@[i].height == halved(self.height as nat, i as nat)
                    &&& levels@[i].size == spec_level_size(
                        self.spec_flags(),
                        levels@[i].width as nat,
                        levels@[i].height as nat,
                    )
                    &&& self.format.is_block_compressed() ==> levels@[i].width >= 2
                        && levels@[i].height >= 2
                },
    {
        let count = self.mip_count();
        let word = self.flags();
        let mut levels: Vec<MipLevel> = Vec::new();
        let mut level_width: u32 = self.width;
        let mut level_height: u32 = self.height;
        let mut index: u32 = 0;
        while index < count
            invariant
                index <= count,
                count == self.spec_mip_count(),
                word == self.spec_flags(),
                self.spec_payload_size() <= u32::MAX,
                0 < self.width,
                0 < self.height,
                level_width == halved(self.width as nat, index as nat),
                level_height == halved(self.height as nat, index as nat),
                levels@.len() == index,
                forall|i: int| 0 <= i < index ==> levels@[i] == self.spec_level(i as nat),
                forall|i: int|
                    0 <= i < index ==> {
                        &&& (#[trigger] levels@[i]).index == i
                        &&& levels@[i].width == halved(self.width as nat, i as nat)
                        &&& levels@[i].height == halved(self.height as nat, i as nat)
                        &&& levels@[i].size == spec_level_size(
                            self.spec_flags(),
                            levels@[i].width as nat,
                            levels@[i].height as nat,
                        )
                        &&& self.format.is_block_compressed() ==> levels@[i].width >= 2
                            && levels@[i].height >= 2
                    },
            decreases count - index,
        {
            proof {
                self.lemma_level_size_le_payload(index as nat);
                if self.format.is_block_compressed() {
                    lemma_mip_level_dimensions(
                        self.width as nat,
                        self.height as nat,
                        index as nat,
                    );
                }
            }
            let size = match level_size(word, level_width, level_height) {
                Some(bytes) => bytes,
                None => 0,
            };
            levels.push(MipLevel { index, width: level_width, height: level_height, size });
            assert(level_width >> 1 == level_width / 2 && level_height >> 1 == level_height / 2)
                by (bit_vector);
            level_width >>= 1;
            level_height >>= 1;
            index += 1;
        }
        proof {
            assert(levels@ =~= self.spec_mip_chain());
            self.lemma_chain_size();
        }
        levels
    }

    /// A planned level of a block-compressed texture is not empty, no
    /// larger than the image, and as large in bytes as its compressed
    /// blocks.
    pub proof fn lemma_level_fits(self, index: nat)
        requires
            self.wf(),
            self.spec_payload_size() <= u32::MAX,
            index < self.spec_mip_count(),
        ensures
            match self.format.spec_storage_class() {
                StorageClass::BlockCompressed { algorithm } => {
                    let level = self.spec_level(index);
                    &&& 2 <= level.width <= self.width
                    &&& 2 <= level.height <= self.height
                    &&& level.size == compressed_len(
                        algorithm,
                        level.width as nat,
                        level.height as nat,
                    )
                },
                StorageClass::Uncompressed { .. } => true,
            },
    {
        if self.format.is_block_compressed() {
            self.lemma_block_algorithm();
            self.lemma_level_size_le_payload(index);
            lemma_mip_level_dimensions(self.width as nat, self.height as nat, index);
            lemma_halved_le(self.width as nat, index);
            lemma_halved_le(self.height as nat, index);
        }
    }

    /// The payload of an uncompressed texture takes the sample width times
    /// the row stride for every row, and where that fits in 32 bits so
    /// does the row stride.
    pub proof fn lemma_uncompressed_payload_size(self)
        requires
            self.wf(),
            !self.format.is_block_compressed(),
        ensures
            self.spec_payload_size() == self.height * (padded_width(self.width as nat)
                * sample_width(self.format)),
            self.spec_payload_size() <= u32::MAX ==> padded_width(self.width as nat) <= u32::MAX,
    {
        self.lemma_block_algorithm();
        let stride = padded_width(self.width as nat);
        let cell = sample_width(self.format);
        let height = self.height as nat;
        assert(spec_image_size(self.width as nat, self.height as nat, self.spec_flags(), 0) == 0);
        assert(self.spec_payload_size() == cell * stride * height);
        assert(cell * stride * height == height * (stride * cell)) by (nonlinear_arith);
        assert(cell * stride * height >= stride) by (nonlinear_arith)
            requires
                cell >= 1,
                height >= 1,
                stride >= 0,
        ;
    }
}

} // verus!
