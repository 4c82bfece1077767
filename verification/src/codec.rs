//! The two operations the encoder leaves to other crates: block
//! compression (`texpresso`) and resampling (`image`).
//!
//! Nothing in this module is proved. Each function below states what the
//! encoder relies on; the bytes themselves are named, not described.

use crate::format::BlockAlgorithm;
use vstd::prelude::*;

verus! {

/// Blocks needed to cover `size` pixels along one axis.
pub open spec fn block_count(size: nat) -> nat {
    (size + 3) / 4
}

/// Bytes that a `width` x `height` image compresses into: one block for
/// every 4x4 tile, partial tiles included.
pub open spec fn compressed_len(algorithm: BlockAlgorithm, width: nat, height: nat) -> nat {
    block_count(width) * block_count(height) * algorithm.spec_block_bytes()
}

/// The blocks that `texpresso` compresses an RGBA8 image into with the
/// cluster-fit algorithm, uniform colour weights and no alpha weighting.
pub uninterp spec fn compressed_blocks(
    algorithm: BlockAlgorithm,
    rgba: Seq<u8>,
    width: nat,
    height: nat,
) -> Seq<u8>;

/// The RGBA8 samples that `image` resamples an RGBA8 image to with the
/// triangle filter.
pub uninterp spec fn resampled(
    rgba: Seq<u8>,
    width: nat,
    height: nat,
    new_width: nat,
    new_height: nat,
) -> Seq<u8>;

/// `texpresso::Format::compressed_size`: the number of 4x4 blocks that
/// cover the image, times the block size of the format (8 bytes for BC1,
/// 16 for BC2 and BC3). The bounds keep its `usize` arithmetic from
/// overflowing.
#[verifier::external_body]
pub(crate) fn compressed_size(algorithm: BlockAlgorithm, width: usize, height: usize) -> (size:
    usize)
    requires
        width + 3 <= usize::MAX,
        height + 3 <= usize::MAX,
        compressed_len(algorithm, width as nat, height as nat) <= usize::MAX,
    ensures
        size == compressed_len(algorithm, width as nat, height as nat),
{
    let format = match algorithm {
        BlockAlgorithm::Bc1 => texpresso::Format::Bc1,
        BlockAlgorithm::Bc2 => texpresso::Format::Bc2,
        BlockAlgorithm::Bc3 => texpresso::Format::Bc3,
    };
    format.compressed_size(width, height)
}

/// `texpresso::Format::compress` with the cluster-fit algorithm, uniform
/// colour weights and no alpha weighting. It reads four bytes per pixel
/// and overwrites every block of `output`, so that what `output` held
/// before does not matter; the result is named by [`compressed_blocks`].
/// It panics on a zero width and on an output buffer that is too short,
/// and a longer one would make it write blocks past the image: the
/// buffer has to have the exact length.
#[verifier::external_body]
pub(crate) fn compress(
    algorithm: BlockAlgorithm,
    rgba: &Vec<u8>,
    width: usize,
    height: usize,
    output: &mut Vec<u8>,
)
    requires
        width > 0,
        width + 3 <= usize::MAX,
        height + 3 <= usize::MAX,
        rgba@.len() == 4 * width * height,
        old(output)@.len() == compressed_len(algorithm, width as nat, height as nat),
    ensures
        final(output)@ == compressed_blocks(algorithm, rgba@, width as nat, height as nat),
        final(output)@.len() == old(output)@.len(),
{
    let format = match algorithm {
        BlockAlgorithm::Bc1 => texpresso::Format::Bc1,
        BlockAlgorithm::Bc2 => texpresso::Format::Bc2,
        BlockAlgorithm::Bc3 => texpresso::Format::Bc3,
    };
    let params = texpresso::Params {
        algorithm: texpresso::Algorithm::ClusterFit,
        weights: texpresso::COLOUR_WEIGHTS_UNIFORM,
        weigh_colour_by_alpha: false,
    };
    format.compress(rgba.as_slice(), width, height, params, output.as_mut_slice());
}

/// `image::imageops::resize` with the triangle filter, on an RGBA8 image
/// given as its sample buffer. The result has the new dimensions, four
/// bytes per pixel; its samples are named by [`resampled`]. The bounds
/// keep the intermediate and the final buffer within `usize`.
#[verifier::external_body]
pub(crate) fn resize(
    rgba: &Vec<u8>,
    width: u32,
    height: u32,
    new_width: u32,
    new_height: u32,
) -> (resized: Vec<u8>)
    requires
        width > 0,
        height > 0,
        rgba@.len() == 4 * width * height,
        4 * width * new_height <= usize::MAX,
        4 * new_width * new_height <= usize::MAX,
    ensures
        resized@ == resampled(
            rgba@,
            width as nat,
            height as nat,
            new_width as nat,
            new_height as nat,
        ),
        resized@.len() == 4 * new_width * new_height,
{
    let source = image::ImageBuffer::<image::Rgba<u8>, &[u8]>::from_raw(
        width,
        height,
        rgba.as_slice(),
    ).expect("four bytes per pixel");
    image::imageops::resize(
        &source,
        new_width,
        new_height,
        image::imageops::FilterType::Triangle,
    ).into_raw()
}

} // verus!
