use ma_tif::format::{BlockAlgorithm, EngineVariant, PixelFormat};
use ma_tif::mip::{
    block_algorithm, compressed_level_size, compute_image_size, count_ones, level_size,
    mip_level_count,
};
use ma_tif::texture::{EncodeError, MipLevel, TextureDescriptor};

fn describe(width: u32, height: u32, format: PixelFormat) -> TextureDescriptor {
    TextureDescriptor::new(width, height, format, EngineVariant::VariantA).unwrap()
}

#[test]
fn one_bits_are_counted() {
    assert_eq!(count_ones(0), 0);
    assert_eq!(count_ones(1), 1);
    assert_eq!(count_ones(31), 5);
    assert_eq!(count_ones(0b1010_0000), 2);
    assert_eq!(count_ones(0x8000_0000), 1);
    assert_eq!(count_ones(0xFFFF_FFFF), 32);
    for x in [2u32, 3, 6, 255, 256, 1000, 0x1234_5678, 0x7FFF_FFFF] {
        assert_eq!(count_ones(x), x.count_ones());
    }
}

#[test]
fn a_64_by_64_texture_has_five_levels() {
    assert_eq!(mip_level_count(64, 64), 5);
    let levels = describe(64, 64, PixelFormat::Dxt1).plan_mip_chain();
    let dims: Vec<(u32, u32, u32)> = levels.iter().map(|l| (l.index, l.width, l.height)).collect();
    assert_eq!(dims, [(0, 64, 64), (1, 32, 32), (2, 16, 16), (3, 8, 8), (4, 4, 4)]);
}

#[test]
fn level_count_is_a_count_of_one_bits() {
    // (min - 1) >> 1, then its one bits.
    assert_eq!(mip_level_count(1, 1), 0);
    assert_eq!(mip_level_count(2, 2), 0);
    assert_eq!(mip_level_count(3, 3), 1);
    assert_eq!(mip_level_count(4, 4), 1);
    assert_eq!(mip_level_count(6, 6), 1);
    assert_eq!(mip_level_count(8, 8), 2);
    assert_eq!(mip_level_count(10, 10), 1);
    assert_eq!(mip_level_count(16, 16), 3);
    assert_eq!(mip_level_count(128, 128), 6);
    assert_eq!(mip_level_count(256, 256), 7);
    // The shorter side decides.
    assert_eq!(mip_level_count(256, 16), 3);
    assert_eq!(mip_level_count(16, 256), 3);
    assert_eq!(mip_level_count(0xFFFF_FFFF, 0xFFFF_FFFF), 31);
    // Not a power of two: 100 - 1 = 99, 99 >> 1 = 49 = 0b110001.
    assert_eq!(mip_level_count(100, 200), 3);
}

#[test]
fn levels_halve_and_never_vanish() {
    let levels = describe(100, 36, PixelFormat::Dxt5).plan_mip_chain();
    // 35 >> 1 = 17 = 0b10001.
    let expected = [
        MipLevel { index: 0, width: 100, height: 36, size: 25 * 9 * 16 },
        MipLevel { index: 1, width: 50, height: 18, size: 13 * 5 * 16 },
    ];
    assert_eq!(levels, expected);
    for (w, h) in [(2u32, 2u32), (4, 4), (6, 10), (64, 64), (1024, 2), (30, 50), (4096, 4096)] {
        let desc = describe(w, h, PixelFormat::Dxt1);
        let levels = desc.plan_mip_chain();
        assert_eq!(levels.len() as u32, desc.mip_count());
        for (i, level) in levels.iter().enumerate() {
            assert_eq!(level.index as usize, i);
            assert_eq!(level.width, w >> i);
            assert_eq!(level.height, h >> i);
            assert!(level.width >= 2 && level.height >= 2);
        }
    }
}

#[test]
fn an_uncompressed_texture_has_one_level() {
    for format in [
        PixelFormat::Argb8888,
        PixelFormat::Rgb565,
        PixelFormat::Argb4444,
        PixelFormat::L8,
        PixelFormat::La88,
    ] {
        let desc = describe(64, 64, format);
        assert_eq!(desc.mip_count(), 1);
        assert_eq!(desc.plan_mip_chain().len(), 1);
    }
    let desc = describe(17, 3, PixelFormat::Rgb565);
    assert_eq!(desc.plan_mip_chain(), [MipLevel { index: 0, width: 17, height: 3, size: 2 * 32 * 3 }]);
    assert_eq!(desc.payload_size(), Some(192));
}

#[test]
fn compressed_sizes_count_whole_blocks() {
    assert_eq!(compressed_level_size(BlockAlgorithm::Bc1, 16, 32), Some(256));
    assert_eq!(compressed_level_size(BlockAlgorithm::Bc1, 15, 32), Some(256));
    assert_eq!(compressed_level_size(BlockAlgorithm::Bc2, 16, 32), Some(512));
    assert_eq!(compressed_level_size(BlockAlgorithm::Bc2, 15, 32), Some(512));
    assert_eq!(compressed_level_size(BlockAlgorithm::Bc3, 16, 32), Some(512));
    assert_eq!(compressed_level_size(BlockAlgorithm::Bc3, 13, 29), Some(4 * 8 * 16));
    assert_eq!(compressed_level_size(BlockAlgorithm::Bc1, 1, 1), Some(8));
    assert_eq!(compressed_level_size(BlockAlgorithm::Bc1, 0, 7), Some(0));
    assert_eq!(compressed_level_size(BlockAlgorithm::Bc1, 7, 0), Some(0));
    assert_eq!(compressed_level_size(BlockAlgorithm::Bc1, 0xFFFF_FFFF, 0), Some(0));
    for (w, h) in [(4usize, 4usize), (5, 9), (64, 64), (100, 36), (1, 1000)] {
        assert_eq!(
            compressed_level_size(BlockAlgorithm::Bc1, w as u32, h as u32),
            Some(texpresso::Format::Bc1.compressed_size(w, h) as u32)
        );
        assert_eq!(
            compressed_level_size(BlockAlgorithm::Bc2, w as u32, h as u32),
            Some(texpresso::Format::Bc2.compressed_size(w, h) as u32)
        );
        assert_eq!(
            compressed_level_size(BlockAlgorithm::Bc3, w as u32, h as u32),
            Some(texpresso::Format::Bc3.compressed_size(w, h) as u32)
        );
    }
}

#[test]
fn compressed_sizes_that_do_not_fit() {
    // 16384 * 16384 blocks of 8 bytes are 2^31 bytes; of 16 bytes, 2^32.
    assert_eq!(compressed_level_size(BlockAlgorithm::Bc1, 65536, 65536), Some(0x8000_0000));
    assert_eq!(compressed_level_size(BlockAlgorithm::Bc2, 65536, 65536), None);
    assert_eq!(compressed_level_size(BlockAlgorithm::Bc3, 65536, 65536), None);
    assert_eq!(compressed_level_size(BlockAlgorithm::Bc1, 65536, 131072), None);
    assert_eq!(compressed_level_size(BlockAlgorithm::Bc1, 0xFFFF_FFFF, 0xFFFF_FFFF), None);
    assert_eq!(compressed_level_size(BlockAlgorithm::Bc1, 0xFFFF_FFFF, 1), None);
    assert_eq!(compressed_level_size(BlockAlgorithm::Bc1, 1, 0xFFFF_FFFF), None);
    assert_eq!(compressed_level_size(BlockAlgorithm::Bc1, 0x7FFF_FFFC, 4), Some(0xFFFF_FFF8));
}

#[test]
fn level_sizes_by_flags() {
    assert_eq!(block_algorithm(0x100), Some(BlockAlgorithm::Bc1));
    assert_eq!(block_algorithm(0x300), Some(BlockAlgorithm::Bc2));
    assert_eq!(block_algorithm(0x500), Some(BlockAlgorithm::Bc3));
    assert_eq!(block_algorithm(0x8000_0500), Some(BlockAlgorithm::Bc3));
    assert_eq!(block_algorithm(0x000), None);
    assert_eq!(block_algorithm(0x007), None);
    assert_eq!(block_algorithm(0x101), None);

    assert_eq!(level_size(0x100, 64, 64), Some(2048));
    assert_eq!(level_size(0x8000_0300, 64, 64), Some(4096));
    assert_eq!(level_size(0x000, 16, 16), Some(1024));
    assert_eq!(level_size(0x000, 17, 16), Some(4 * 32 * 16));
    assert_eq!(level_size(0x8000_0001, 17, 16), Some(2 * 32 * 16));
    assert_eq!(level_size(0x005, 1, 1), Some(16));
    assert_eq!(level_size(0x005, 0, 5), Some(0));
    assert_eq!(level_size(0x005, 5, 0), Some(0));
    assert_eq!(level_size(0x005, 0xFFFF_FFFF, 0), Some(0));
    assert_eq!(level_size(0x005, 0xFFFF_FFFF, 1), None);
    assert_eq!(level_size(0x005, 0xFFFF_FFF0, 1), Some(0xFFFF_FFF0));
    assert_eq!(level_size(0x007, 0xFFFF_FFF0, 1), None);
    assert_eq!(level_size(0x000, 65536, 65536), None);
    assert_eq!(level_size(0x005, 65536, 65535), Some(0xFFFF_0000));
    assert_eq!(level_size(0x005, 65536, 65536), None);
}

#[test]
fn image_size_adds_the_levels_up() {
    // 64, 32, 16, 8, 4: 256 + 64 + 16 + 4 + 1 blocks of 8 bytes.
    assert_eq!(compute_image_size(64, 64, 0x100, 5), Some(2728));
    assert_eq!(compute_image_size(64, 64, 0x300, 5), Some(5456));
    assert_eq!(compute_image_size(64, 64, 0x8000_0500, 5), Some(5456));
    assert_eq!(compute_image_size(64, 64, 0x100, 0), Some(0));
    assert_eq!(compute_image_size(64, 64, 0x100, 1), Some(2048));
    assert_eq!(compute_image_size(64, 64, 0x100, 2), Some(2560));
    // Past the last level the sizes are zero.
    assert_eq!(compute_image_size(64, 64, 0x100, 7), Some(2728 + 8 + 8));
    assert_eq!(compute_image_size(64, 64, 0x100, 40), Some(2728 + 8 + 8));
    assert_eq!(compute_image_size(16, 16, 0x005, 1), Some(256));
    assert_eq!(compute_image_size(17, 3, 0x001, 1), Some(192));
    // Uncompressed levels pad each halved width.
    assert_eq!(compute_image_size(40, 4, 0x005, 2), Some(48 * 4 + 32 * 2));
}

#[test]
fn image_size_that_does_not_fit() {
    assert_eq!(compute_image_size(65536, 65536, 0x000, 1), None);
    assert_eq!(compute_image_size(65536, 65536, 0x100, 1), Some(0x8000_0000));
    assert_eq!(compute_image_size(65536, 65536, 0x100, 2), Some(0xA000_0000));
    assert_eq!(compute_image_size(65536, 65536, 0x100, 15), Some(0xAAAA_AAA8));
    assert_eq!(compute_image_size(65536, 65536, 0x100, 16), Some(0xAAAA_AAB0));
    assert_eq!(compute_image_size(65536, 65536, 0x300, 3), None);
    assert_eq!(compute_image_size(131072, 65536, 0x100, 2), None);
    assert_eq!(describe(65536, 65536, PixelFormat::Argb8888).payload_size(), None);
    assert_eq!(describe(65536, 65536, PixelFormat::Dxt3).payload_size(), None);
}

#[test]
fn odd_dimensions_are_refused_for_block_compression() {
    for format in [PixelFormat::Dxt1, PixelFormat::Dxt3, PixelFormat::Dxt5] {
        for (w, h) in [(15u32, 16u32), (16, 15), (15, 15), (1, 1), (3, 2)] {
            assert_eq!(
                TextureDescriptor::new(w, h, format, EngineVariant::VariantA),
                Err(EncodeError::OddDimensions)
            );
        }
        // Parity decides, not the second-lowest bit.
        for (w, h) in [(16u32, 16u32), (4, 6), (6, 4), (2, 2), (10, 14)] {
            let desc = TextureDescriptor::new(w, h, format, EngineVariant::VariantB).unwrap();
            assert_eq!((desc.width, desc.height, desc.format, desc.variant), (
                w,
                h,
                format,
                EngineVariant::VariantB,
            ));
        }
    }
    for format in [PixelFormat::Argb8888, PixelFormat::L8, PixelFormat::La88] {
        assert!(TextureDescriptor::new(15, 17, format, EngineVariant::VariantA).is_ok());
    }
}

#[test]
fn errors_say_what_they_are() {
    assert!(EncodeError::UnknownFormat.is_configuration());
    assert!(EncodeError::UnknownVariant.is_configuration());
    assert!(!EncodeError::OddDimensions.is_configuration());
    assert!(!EncodeError::TooLarge.is_configuration());
    assert!(EncodeError::OddDimensions.is_geometry());
    assert!(!EncodeError::UnknownFormat.is_geometry());
    assert!(!EncodeError::TooLarge.is_geometry());
    assert_eq!(EncodeError::UnknownVariant.message(), "game must be either \"ma1\" or \"ma2\"");
    assert_eq!(EncodeError::UnknownFormat.message(), "texture format is not supported");
    assert_eq!(
        EncodeError::OddDimensions.message(),
        "image dimensions must be even for dxt1, dxt3 and dxt5"
    );
    assert_eq!(EncodeError::TooLarge.message(), "image is too large for the container");
}
