//! The mip planner: how many levels a block-compressed texture has, how
//! large each level is, and how many bytes each level and the whole chain
//! take.

use crate::codec::{block_count, compressed_len, compressed_size};
use crate::format::{
    get_bytes_per_pixel, spec_bytes_per_pixel, BlockAlgorithm, FORMAT_CODE_DXT1, FORMAT_CODE_DXT3,
    FORMAT_CODE_DXT5, FORMAT_CODE_MASK,
};
use crate::pixel::{checked_pad_width, padded_width};
use vstd::arithmetic::div_mod::lemma_div_denominator;
use vstd::arithmetic::power2::{
    lemma2_to64, lemma_pow2_pos, lemma_pow2_strictly_increases, lemma_pow2_unfold, pow2,
};
use vstd::prelude::*;

verus! {

/// The number of one bits in the binary representation of `n`.
pub open spec fn popcount(n: nat) -> nat
    decreases n,
{
    if n == 0 {
        0
    } else {
        (n % 2) + popcount(n / 2)
    }
}

/// A number has at most as many one bits as its size allows: `2^popcount(n)
/// <= n + 1`. A positive number has at least one.
pub proof fn lemma_popcount_bounds(n: nat)
    ensures
        popcount(n) <= n,
        n > 0 ==> popcount(n) >= 1,
        pow2(popcount(n)) <= n + 1,
    decreases n,
{
    if n == 0 {
        lemma2_to64();
    } else {
        lemma_popcount_bounds(n / 2);
        if n % 2 == 1 {
            lemma_pow2_unfold(popcount(n));
        }
    }
}

/// Counts the one bits of `x`.
pub fn count_ones(x: u32) -> (ones: u32)
    ensures
        ones == popcount(x as nat),
{
    let mut rest: u32 = x;
    let mut ones: u32 = 0;
    proof {
        lemma_popcount_bounds(x as nat);
    }
    while rest != 0
        invariant
            ones + popcount(rest as nat) == popcount(x as nat),
            popcount(x as nat) <= u32::MAX,
        decreases rest,
    {
        proof {
            lemma_popcount_bounds(rest as nat);
        }
        ones = ones + rest % 2;
        rest = rest / 2;
    }
    ones
}

/// `size` halved `times` times, each time rounding down.
pub open spec fn halved(size: nat, times: nat) -> nat
    decreases times,
{
    if times == 0 {
        size
    } else {
        halved(size, (times - 1) as nat) / 2
    }
}

/// Halving never grows a size.
pub proof fn lemma_halved_le(size: nat, times: nat)
    ensures
        halved(size, times) <= size,
    decreases times,
{
    if times > 0 {
        lemma_halved_le(size, (times - 1) as nat);
    }
}

/// Halving `times` times is dividing by `2^times`, which is what a right
/// shift by `times` does.
pub proof fn lemma_halved_is_division(size: nat, times: nat)
    ensures
        halved(size, times) == size / pow2(times),
    decreases times,
{
    if times == 0 {
        lemma2_to64();
    } else {
        let rest = (times - 1) as nat;
        lemma_halved_is_division(size, rest);
        lemma_pow2_unfold(times);
        lemma_pow2_pos(rest);
        lemma_div_denominator(size as int, pow2(rest) as int, 2);
        assert(pow2(rest) * 2 == 2 * pow2(rest)) by (nonlinear_arith);
    }
}

/// A size of at least `k * 2^times` is still at least `k` after `times`
/// halvings.
pub proof fn lemma_halved_lower_bound(size: nat, times: nat, k: nat)
    requires
        size >= k * pow2(times),
    ensures
        halved(size, times) >= k,
    decreases times,
{
    if times == 0 {
        lemma2_to64();
    } else {
        let rest = (times - 1) as nat;
        lemma_pow2_unfold(times);
        assert(k * pow2(times) == (2 * k) * pow2(rest)) by (nonlinear_arith)
            requires
                pow2(times) == 2 * pow2(rest),
        ;
        lemma_halved_lower_bound(size, rest, 2 * k);
    }
}

/// The number of mip levels of a block-compressed texture: the number of
/// one bits in `(min(width, height) - 1) >> 1`.
pub open spec fn spec_mip_level_count(width: nat, height: nat) -> nat
    recommends
        width > 0,
        height > 0,
{
    let shorter = if width <= height {
        width
    } else {
        height
    };
    popcount(((shorter - 1) / 2) as nat)
}

/// Every level of the chain is at least two pixels wide and two pixels
/// high, and a chain has at most 31 levels.
pub proof fn lemma_mip_level_dimensions(width: nat, height: nat, level: nat)
    requires
        0 < width <= u32::MAX,
        0 < height <= u32::MAX,
        level < spec_mip_level_count(width, height),
    ensures
        halved(width, level) >= 2,
        halved(height, level) >= 2,
        spec_mip_level_count(width, height) <= 31,
{
    let shorter = if width <= height {
        width
    } else {
        height
    };
    let count = spec_mip_level_count(width, height);
    lemma_popcount_bounds(((shorter - 1) / 2) as nat);
    assert(pow2(count) <= shorter);
    if level + 1 < count {
        lemma_pow2_strictly_increases(level + 1, count);
    }
    lemma_pow2_unfold(level + 1);
    assert(2 * pow2(level) <= shorter);
    lemma_halved_lower_bound(width, level, 2);
    lemma_halved_lower_bound(height, level, 2);
    if count > 31 {
        lemma2_to64();
        if count > 32 {
            lemma_pow2_strictly_increases(32, count);
        }
    }
}

pub fn mip_level_count(width: u32, height: u32) -> (levels: u32)
    requires
        width > 0,
        height > 0,
    ensures
        levels == spec_mip_level_count(width as nat, height as nat),
{
    let shorter = if width <= height {
        width
    } else {
        height
    };
    let below: u32 = shorter - 1;
    assert(below >> 1 == below / 2) by (bit_vector);
    count_ones(below >> 1)
}

/// The compression scheme that the format code in the low 31 bits of
/// `format` names, if it names one.
pub open spec fn spec_block_algorithm(format: u32) -> Option<BlockAlgorithm> {
    let code = format & FORMAT_CODE_MASK;
    if code == FORMAT_CODE_DXT1 {
        Some(BlockAlgorithm::Bc1)
    } else if code == FORMAT_CODE_DXT3 {
        Some(BlockAlgorithm::Bc2)
    } else if code == FORMAT_CODE_DXT5 {
        Some(BlockAlgorithm::Bc3)
    } else {
        None
    }
}

pub fn block_algorithm(format: u32) -> (algorithm: Option<BlockAlgorithm>)
    ensures
        algorithm == spec_block_algorithm(format),
{
    let code = format & FORMAT_CODE_MASK;
    if code == FORMAT_CODE_DXT1 {
        Some(BlockAlgorithm::Bc1)
    } else if code == FORMAT_CODE_DXT3 {
        Some(BlockAlgorithm::Bc2)
    } else if code == FORMAT_CODE_DXT5 {
        Some(BlockAlgorithm::Bc3)
    } else {
        None
    }
}

/// The payload bytes of one level: the compressed size for a
/// block-compressed format, and `bytes per pixel * padded width * height`
/// for any other.
pub open spec fn spec_level_size(format: u32, width: nat, height: nat) -> nat {
    match spec_block_algorithm(format) {
        Some(algorithm) => compressed_len(algorithm, width, height),
        None => spec_bytes_per_pixel(format) as nat * padded_width(width) * height,
    }
}

/// The payload bytes of one level, or `None` where they do not fit in 32
/// bits.
pub fn level_size(format: u32, width: u32, height: u32) -> (size: Option<u32>)
    ensures
        match size {
            Some(s) => s == spec_level_size(format, width as nat, height as nat),
            None => spec_level_size(format, width as nat, height as nat) > u32::MAX,
        },
{
    match block_algorithm(format) {
        Some(algorithm) => compressed_level_size(algorithm, width, height),
        None => {
            let bpp: u64 = get_bytes_per_pixel(format) as u64;
            match checked_pad_width(width) {
                Some(padded) => {
                    assert(bpp * padded <= 4 * 0xFFFF_FFFF) by (nonlinear_arith)
                        requires
                            0 <= bpp <= 4,
                            0 <= padded <= 0xFFFF_FFFF,
                    ;
                    let row: u64 = bpp * (padded as u64);
                    assert(row * height == spec_level_size(format, width as nat, height as nat))
                        by (nonlinear_arith)
                        requires
                            row == bpp * padded,
                            spec_level_size(format, width as nat, height as nat) == bpp * padded
                                * height,
                    ;
                    if height == 0 {
                        assert(row * height == 0) by (nonlinear_arith)
                            requires
                                height == 0,
                        ;
                        Some(0)
                    } else if row > u32::MAX as u64 {
                        assert(row * height >= row) by (nonlinear_arith)
                            requires
                                height >= 1,
                                row >= 0,
                        ;
                        None
                    } else {
                        assert(row * height <= 0xFFFF_FFFF * 0xFFFF_FFFF) by (nonlinear_arith)
                            requires
                                0 <= row <= 0xFFFF_FFFF,
                                0 <= height <= 0xFFFF_FFFF,
                        ;
                        let total: u64 = row * (height as u64);
                        if total > u32::MAX as u64 {
                            None
                        } else {
                            Some(total as u32)
                        }
                    }
                },
                None => {
                    let ghost padded = padded_width(width as nat);
                    assert(bpp * padded * height >= padded * height) by (nonlinear_arith)
                        requires
                            bpp >= 1,
                            padded >= 0,
                            height >= 0,
                    ;
                    if height == 0 {
                        assert(bpp * padded * height == 0) by (nonlinear_arith)
                            requires
                                height == 0,
                        ;
                        Some(0)
                    } else {
                        assert(padded * height >= padded) by (nonlinear_arith)
                            requires
                                height >= 1,
                                padded >= 0,
                        ;
                        None
                    }
                },
            }
        },
    }
}

/// The compressed size of one level, or `None` where it does not fit in
/// 32 bits.
pub fn compressed_level_size(algorithm: BlockAlgorithm, width: u32, height: u32) -> (size: Option<
    u32,
>)
    ensures
        match size {
            Some(s) => s == compressed_len(algorithm, width as nat, height as nat),
            None => compressed_len(algorithm, width as nat, height as nat) > u32::MAX,
        },
{
    let across: u64 = (width as u64 + 3) / 4;
    let down: u64 = (height as u64 + 3) / 4;
    let block_bytes: u64 = match algorithm {
        BlockAlgorithm::Bc1 => 8,
        BlockAlgorithm::Bc2 => 16,
        BlockAlgorithm::Bc3 => 16,
    };
    assert(across == block_count(width as nat) && down == block_count(height as nat));
    assert(across * down <= 0x4000_0000 * 0x4000_0000) by (nonlinear_arith)
        requires
            0 <= across <= 0x4000_0000,
            0 <= down <= 0x4000_0000,
    ;
    let blocks: u64 = across * down;
    assert(blocks * block_bytes == if block_bytes == 8 {
        8 * blocks
    } else {
        16 * blocks
    }) by (nonlinear_arith)
        requires
            block_bytes == 8 || block_bytes == 16,
    ;
    assert(compressed_len(algorithm, width as nat, height as nat) == blocks * block_bytes);
    if width == 0 || height == 0 {
        assert(across * down == 0) by (nonlinear_arith)
            requires
                across == 0 || down == 0,
        ;
        return Some(0);
    }
    if blocks > (u32::MAX as u64) / block_bytes {
        return None;
    }
    assert(across <= blocks && down <= blocks) by (nonlinear_arith)
        requires
            blocks == across * down,
            across >= 1,
            down >= 1,
    ;
    let size = compressed_size(algorithm, width as usize, height as usize);
    Some(size as u32)
}

/// The payload bytes of the first `mips` levels, each level half as wide
/// and half as high as the one before.
pub open spec fn spec_image_size(width: nat, height: nat, format: u32, mips: nat) -> nat
    decreases mips,
{
    if mips == 0 {
        0
    } else {
        let above = (mips - 1) as nat;
        spec_image_size(width, height, format, above) + spec_level_size(
            format,
            halved(width, above),
            halved(height, above),
        )
    }
}

/// More levels never take fewer bytes.
pub proof fn lemma_image_size_grows(width: nat, height: nat, format: u32, fewer: nat, more: nat)
    requires
        fewer <= more,
    ensures
        spec_image_size(width, height, format, fewer) <= spec_image_size(
            width,
            height,
            format,
            more,
        ),
    decreases more,
{
    if fewer < more {
        lemma_image_size_grows(width, height, format, fewer, (more - 1) as nat);
    }
}

/// The payload bytes of the first `mips` levels, or `None` where they do
/// not fit in 32 bits.
pub fn compute_image_size(width: u32, height: u32, format: u32, mips: u32) -> (size: Option<u32>)
    ensures
        match size {
            Some(s) => s == spec_image_size(width as nat, height as nat, format, mips as nat),
            None => spec_image_size(width as nat, height as nat, format, mips as nat) > u32::MAX,
        },
{
    let mut level_width: u32 = width;
    let mut level_height: u32 = height;
    let mut size: u32 = 0;
    let mut level: u32 = 0;
    while level < mips
        invariant
            level <= mips,
            level_width == halved(width as nat, level as nat),
            level_height == halved(height as nat, level as nat),
            size == spec_image_size(width as nat, height as nat, format, level as nat),
        decreases mips - level,
    {
        proof {
            lemma_image_size_grows(
                width as nat,
                height as nat,
                format,
                (level + 1) as nat,
                mips as nat,
            );
        }
        match level_size(format, level_width, level_height) {
            Some(bytes) => match size.checked_add(bytes) {
                Some(sum) => {
                    size = sum;
                },
                None => {
                    return None;
                },
            },
            None => {
                return None;
            },
        }
        assert(level_width >> 1 == level_width / 2 && level_height >> 1 == level_height / 2)
            by (bit_vector);
        level_width >>= 1;
        level_height >>= 1;
        level += 1;
    }
    Some(size)
}

} // verus!
