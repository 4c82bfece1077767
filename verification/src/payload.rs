//! The payload of the `bits` chunk: packed rows for an uncompressed
//! format, and one run of compressed blocks per mip level for a
//! block-compressed one.

use crate::bytes::{push_bytes, push_zeros};
use crate::codec::{compress, compressed_blocks, compressed_len, resampled, resize};
use crate::format::{BlockAlgorithm, PixelFormat};
use crate::pixel::{
    lemma_sample_bytes_len, pad_width, padded_width, padding_bytes, push_padding, push_sample,
    sample_bytes, sample_width,
};
use crate::raster::{Raster, RasterView};
use crate::texture::{chain_size, MipLevel};
use vstd::prelude::*;

verus! {

/// The bytes stored for column `x` of row `y`: the packed sample inside
/// the image, and a zero value of the same width in the padding to its
/// right.
pub open spec fn cell_bytes(img: RasterView, format: PixelFormat, x: int, y: int) -> Seq<u8> {
    if x < img.width {
        sample_bytes(format, img.sample(x, y))
    } else {
        padding_bytes(format)
    }
}

/// The first `columns` cells of row `y`, left to right.
pub open spec fn packed_row_prefix(img: RasterView, format: PixelFormat, y: int, columns: nat) -> Seq<
    u8,
>
    decreases columns,
{
    if columns == 0 {
        Seq::empty()
    } else {
        packed_row_prefix(img, format, y, (columns - 1) as nat) + cell_bytes(
            img,
            format,
            columns - 1,
            y,
        )
    }
}

/// Row `y`, padded to the row stride.
pub open spec fn packed_row(img: RasterView, format: PixelFormat, y: int) -> Seq<u8> {
    packed_row_prefix(img, format, y, padded_width(img.width))
}

/// The first `rows` rows, top to bottom.
pub open spec fn packed_rows(img: RasterView, format: PixelFormat, rows: nat) -> Seq<u8>
    decreases rows,
{
    if rows == 0 {
        Seq::empty()
    } else {
        packed_rows(img, format, (rows - 1) as nat) + packed_row(img, format, rows - 1)
    }
}

/// The payload of an uncompressed texture: every row of the image.
pub open spec fn uncompressed_payload(img: RasterView, format: PixelFormat) -> Seq<u8> {
    packed_rows(img, format, img.height)
}

/// A row prefix takes the sample width for each of its cells.
pub proof fn lemma_packed_row_prefix_len(img: RasterView, format: PixelFormat, y: int, columns: nat)
    ensures
        packed_row_prefix(img, format, y, columns).len() == columns * sample_width(format),
    decreases columns,
{
    let cell = sample_width(format);
    if columns > 0 {
        let before = (columns - 1) as nat;
        lemma_packed_row_prefix_len(img, format, y, before);
        lemma_sample_bytes_len(format, img.sample(columns - 1, y));
        assert(columns * cell == before * cell + cell) by (nonlinear_arith)
            requires
                columns == before + 1,
        ;
    } else {
        assert(columns * cell == 0) by (nonlinear_arith)
            requires
                columns == 0,
        ;
    }
}

/// `rows` rows take `rows` times the row stride times the sample width.
pub proof fn lemma_packed_rows_len(img: RasterView, format: PixelFormat, rows: nat)
    ensures
        packed_rows(img, format, rows).len() == rows * (padded_width(img.width) * sample_width(
            format,
        )),
    decreases rows,
{
    let row = padded_width(img.width) * sample_width(format);
    if rows > 0 {
        let above = (rows - 1) as nat;
        lemma_packed_rows_len(img, format, above);
        lemma_packed_row_prefix_len(img, format, rows - 1, padded_width(img.width));
        assert(rows * row == above * row + row) by (nonlinear_arith)
            requires
                rows == above + 1,
        ;
    } else {
        assert(rows * row == 0) by (nonlinear_arith)
            requires
                rows == 0,
        ;
    }
}

/// The byte at position `j` of cell `x` stands at `x * sample width + j`
/// in every row prefix that reaches the cell.
pub proof fn lemma_packed_row_prefix_byte(
    img: RasterView,
    format: PixelFormat,
    y: int,
    columns: nat,
    x: int,
    j: int,
)
    requires
        0 <= x < columns,
        0 <= j < sample_width(format),
    ensures
        0 <= x * sample_width(format) + j < packed_row_prefix(img, format, y, columns).len(),
        packed_row_prefix(img, format, y, columns)[x * sample_width(format) + j] == cell_bytes(
            img,
            format,
            x,
            y,
        )[j],
    decreases columns,
{
    let cell = sample_width(format) as int;
    let before = (columns - 1) as nat;
    lemma_packed_row_prefix_len(img, format, y, columns);
    lemma_packed_row_prefix_len(img, format, y, before);
    lemma_sample_bytes_len(format, img.sample(columns - 1, y));
    assert(0 <= x * cell && (x + 1) * cell == x * cell + cell && (x + 1) * cell <= columns * cell)
        by (nonlinear_arith)
        requires
            0 <= x < columns,
            cell >= 0,
    ;
    if x < before {
        lemma_packed_row_prefix_byte(img, format, y, before, x, j);
    } else {
        assert(before * cell == x * cell);
    }
}

/// The byte at offset `at` of row `y` stands at `y * row length + at` in
/// every run of rows that reaches the row.
pub proof fn lemma_packed_rows_byte(
    img: RasterView,
    format: PixelFormat,
    rows: nat,
    y: int,
    at: int,
)
    requires
        0 <= y < rows,
        0 <= at < padded_width(img.width) * sample_width(format),
    ensures
        0 <= y * (padded_width(img.width) * sample_width(format)) + at < packed_rows(
            img,
            format,
            rows,
        ).len(),
        packed_rows(img, format, rows)[y * (padded_width(img.width) * sample_width(format)) + at]
            == packed_row(img, format, y)[at],
    decreases rows,
{
    let row = (padded_width(img.width) * sample_width(format)) as int;
    let above = (rows - 1) as nat;
    lemma_packed_rows_len(img, format, rows);
    lemma_packed_rows_len(img, format, above);
    lemma_packed_row_prefix_len(img, format, rows - 1, padded_width(img.width));
    assert(0 <= y * row && (y + 1) * row == y * row + row && (y + 1) * row <= rows * row)
        by (nonlinear_arith)
        requires
            0 <= y < rows,
            row >= 0,
    ;
    if y < above {
        lemma_packed_rows_byte(img, format, above, y, at);
    } else {
        assert(above * row == y * row);
    }
}

/// Where each stored byte comes from: byte `j` of the cell in column `x`
/// of row `y` stands at `(y * stride + x) * sample width + j`, where the
/// stride is the padded width. Rows follow each other top to bottom, and
/// the cells of a row left to right.
pub proof fn lemma_uncompressed_payload_byte(
    img: RasterView,
    format: PixelFormat,
    x: int,
    y: int,
    j: int,
)
    requires
        0 <= y < img.height,
        0 <= x < padded_width(img.width),
        0 <= j < sample_width(format),
    ensures
        0 <= (y * padded_width(img.width) + x) * sample_width(format) + j < uncompressed_payload(
            img,
            format,
        ).len(),
        uncompressed_payload(img, format)[(y * padded_width(img.width) + x) * sample_width(format)
            + j] == cell_bytes(img, format, x, y)[j],
{
    let stride = padded_width(img.width) as int;
    let cell = sample_width(format) as int;
    let at = x * cell + j;
    lemma_packed_row_prefix_byte(img, format, y, padded_width(img.width), x, j);
    lemma_packed_row_prefix_len(img, format, y, padded_width(img.width));
    lemma_packed_rows_byte(img, format, img.height, y, at);
    assert((y * stride + x) * cell + j == y * (stride * cell) + at) by (nonlinear_arith)
        requires
            at == x * cell + j,
    ;
}

/// Appends the payload of an uncompressed texture: for each row, top to
/// bottom, the packed samples left to right and then the padding up to the
/// row stride.
pub fn write_uncompressed(buf: &mut Vec<u8>, img: &Raster, format: PixelFormat)
    requires
        padded_width(img@.width) <= u32::MAX,
    ensures
        final(buf)@ == old(buf)@ + uncompressed_payload(img@, format),
        final(buf)@.len() == old(buf)@.len() + img@.height * (padded_width(img@.width)
            * sample_width(format)),
{
    let width = img.width();
    let height = img.height();
    let padded = pad_width(width);
    let mut y: u32 = 0;
    assert(buf@ =~= old(buf)@ + packed_rows(img@, format, 0));
    while y < height
        invariant
            y <= height,
            width == img@.width,
            height == img@.height,
            padded == padded_width(img@.width),
            padded >= width,
            buf@ == old(buf)@ + packed_rows(img@, format, y as nat),
        decreases height - y,
    {
        let ghost above = buf@;
        let mut x: u32 = 0;
        assert(buf@ =~= above + packed_row_prefix(img@, format, y as int, 0));
        while x < padded
            invariant
                x <= padded,
                y < height,
                width == img@.width,
                height == img@.height,
                padded >= width,
                buf@ == above + packed_row_prefix(img@, format, y as int, x as nat),
            decreases padded - x,
        {
            let ghost left = buf@;
            if x < width {
                push_sample(buf, format, img.get_pixel(x, y));
            } else {
                push_padding(buf, format);
            }
            assert(buf@ == left + cell_bytes(img@, format, x as int, y as int));
            x += 1;
            assert(buf@ =~= above + packed_row_prefix(img@, format, y as int, x as nat));
        }
        y += 1;
        assert(buf@ =~= old(buf)@ + packed_rows(img@, format, y as nat));
    }
    proof {
        lemma_packed_rows_len(img@, format, img@.height);
    }
}

/// The payload of one level of a block-compressed texture: the image
/// resampled to the level's dimensions, then compressed.
pub open spec fn compressed_level(img: RasterView, algorithm: BlockAlgorithm, level: MipLevel) -> Seq<
    u8,
> {
    compressed_blocks(
        algorithm,
        resampled(img.rgba, img.width, img.height, level.width as nat, level.height as nat),
        level.width as nat,
        level.height as nat,
    )
}

/// The payloads of the given levels, one after the other with nothing in
/// between.
pub open spec fn compressed_payload(
    img: RasterView,
    algorithm: BlockAlgorithm,
    levels: Seq<MipLevel>,
) -> Seq<u8>
    decreases levels.len(),
{
    if levels.len() == 0 {
        Seq::empty()
    } else {
        compressed_payload(img, algorithm, levels.drop_last()) + compressed_level(
            img,
            algorithm,
            levels.last(),
        )
    }
}

/// A level that can be cut from the image: not empty, no larger than the
/// image, and with the size that its compressed blocks take.
pub open spec fn level_fits(img: RasterView, algorithm: BlockAlgorithm, level: MipLevel) -> bool {
    &&& 0 < level.width <= img.width
    &&& 0 < level.height <= img.height
    &&& level.size == compressed_len(algorithm, level.width as nat, level.height as nat)
}

/// A compressed size that fits in 32 bits leaves room for rounding both
/// dimensions up to whole blocks.
pub proof fn lemma_compressed_len_bounds(algorithm: BlockAlgorithm, width: nat, height: nat)
    requires
        width > 0,
        height > 0,
        compressed_len(algorithm, width, height) <= u32::MAX,
    ensures
        width + 3 <= u32::MAX,
        height + 3 <= u32::MAX,
{
    let across = (width + 3) / 4;
    let down = (height + 3) / 4;
    let bytes = algorithm.spec_block_bytes();
    assert(across * down * bytes >= across * 8 && across * down * bytes >= down * 8)
        by (nonlinear_arith)
        requires
            across >= 1,
            down >= 1,
            bytes >= 8,
    ;
}

/// Appends one level of a block-compressed texture.
pub fn write_compressed_level(
    buf: &mut Vec<u8>,
    img: &Raster,
    algorithm: BlockAlgorithm,
    level: &MipLevel,
)
    requires
        level_fits(img@, algorithm, *level),
    ensures
        final(buf)@ == old(buf)@ + compressed_level(img@, algorithm, *level),
        final(buf)@.len() == old(buf)@.len() + level.size,
{
    let width = img.width();
    let height = img.height();
    let source = img.data();
    proof {
        lemma_compressed_len_bounds(algorithm, level.width as nat, level.height as nat);
        assert(source@.len() == source.len());
        assert(4 * width * level.height <= 4 * width * height) by (nonlinear_arith)
            requires
                level.height <= height,
                width >= 0,
        ;
        assert(4 * level.width * level.height <= 4 * width * height) by (nonlinear_arith)
            requires
                0 <= level.width <= width,
                0 <= level.height <= height,
        ;
    }
    let resized = resize(source, width, height, level.width, level.height);
    let mut blocks: Vec<u8> = Vec::new();
    push_zeros(&mut blocks, level.size as usize);
    compress(algorithm, &resized, level.width as usize, level.height as usize, &mut blocks);
    push_bytes(buf, blocks.as_slice());
}

/// Appends every level of a block-compressed texture, in the order given.
pub fn write_compressed(
    buf: &mut Vec<u8>,
    img: &Raster,
    algorithm: BlockAlgorithm,
    levels: &Vec<MipLevel>,
)
    requires
        forall|i: int| 0 <= i < levels@.len() ==> level_fits(img@, algorithm, #[trigger] levels@[i]),
    ensures
        final(buf)@ == old(buf)@ + compressed_payload(img@, algorithm, levels@),
        final(buf)@.len() == old(buf)@.len() + chain_size(levels@),
{
    let mut done: usize = 0;
    assert(levels@.take(0) =~= Seq::<MipLevel>::empty());
    assert(buf@ =~= old(buf)@ + compressed_payload(img@, algorithm, levels@.take(0)));
    while done < levels.len()
        invariant
            done <= levels@.len(),
            forall|i: int|
                0 <= i < levels@.len() ==> level_fits(img@, algorithm, #[trigger] levels@[i]),
            buf@ == old(buf)@ + compressed_payload(img@, algorithm, levels@.take(done as int)),
            buf@.len() == old(buf)@.len() + chain_size(levels@.take(done as int)),
        decreases levels@.len() - done,
    {
        write_compressed_level(buf, img, algorithm, &levels[done]);
        proof {
            let next = levels@.take(done + 1);
            assert(next.drop_last() =~= levels@.take(done as int));
            assert(next.last() == levels@[done as int]);
        }
        done += 1;
        assert(buf@ =~= old(buf)@ + compressed_payload(img@, algorithm, levels@.take(done as int)));
    }
    assert(levels@.take(done as int) =~= levels@);
}

} // verus!
