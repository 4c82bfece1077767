use ma_tif::format::{
    flags, get_bytes_per_pixel, get_format_code, BlockAlgorithm, EngineVariant, PixelFormat,
    StorageClass, FORMAT_CODE_INVALID, FORMAT_CODE_MASK, VARIANT_BIT,
};
use ma_tif::text::{bytes_eq, str_eq};

const ALL_FORMATS: [(&str, PixelFormat, u32); 8] = [
    ("argb8888", PixelFormat::Argb8888, 0x000),
    ("rgb565", PixelFormat::Rgb565, 0x001),
    ("argb4444", PixelFormat::Argb4444, 0x003),
    ("l8", PixelFormat::L8, 0x005),
    ("la88", PixelFormat::La88, 0x007),
    ("dxt1", PixelFormat::Dxt1, 0x100),
    ("dxt3", PixelFormat::Dxt3, 0x300),
    ("dxt5", PixelFormat::Dxt5, 0x500),
];

#[test]
fn every_catalog_name_has_its_code() {
    for (name, format, code) in ALL_FORMATS {
        assert_eq!(get_format_code(name), code, "{}", name);
        assert_eq!(PixelFormat::resolve(name), Some(format), "{}", name);
        assert_eq!(format.code(), code, "{}", name);
    }
}

#[test]
fn the_catalog_lists_every_format_under_its_name() {
    let catalog = PixelFormat::catalog();
    assert_eq!(catalog.len(), 8);
    for (listed, (name, format, _)) in catalog.iter().zip(ALL_FORMATS) {
        assert_eq!(*listed, format);
        assert_eq!(listed.name(), name);
        assert_eq!(PixelFormat::resolve(listed.name()), Some(*listed));
    }
}

#[test]
fn unknown_names_have_the_invalid_code() {
    for name in ["foo", "", "DXT1", "Dxt1", "dxt", "dxt11", " dxt1", "dxt1 ", "rgb888", "l88"] {
        assert_eq!(get_format_code(name), FORMAT_CODE_INVALID, "{:?}", name);
        assert_eq!(get_format_code(name), 0xFFFF_FFFF);
        assert_eq!(PixelFormat::resolve(name), None, "{:?}", name);
    }
}

#[test]
fn names_are_compared_by_content() {
    let built = format!("{}{}", "dx", "t5");
    assert_eq!(get_format_code(&built), 0x500);
    assert!(str_eq("la88", &format!("la{}", 88)));
    assert!(!str_eq("la88", "la8"));
    assert!(!str_eq("la88", "la89"));
    assert!(str_eq("", ""));
    assert!(str_eq("gr\u{fc}n", "gr\u{fc}n"));
    assert!(!str_eq("gr\u{fc}n", "grun"));
    assert!(bytes_eq(&[1, 2, 3], &[1, 2, 3]));
    assert!(!bytes_eq(&[1, 2, 3], &[1, 2, 4]));
    assert!(!bytes_eq(&[1, 2, 3], &[1, 2]));
}

#[test]
fn storage_classes_follow_the_catalog() {
    assert_eq!(
        PixelFormat::Argb8888.storage_class(),
        StorageClass::Uncompressed { bytes_per_pixel: 4 }
    );
    assert_eq!(
        PixelFormat::Rgb565.storage_class(),
        StorageClass::Uncompressed { bytes_per_pixel: 2 }
    );
    assert_eq!(
        PixelFormat::Argb4444.storage_class(),
        StorageClass::Uncompressed { bytes_per_pixel: 2 }
    );
    assert_eq!(PixelFormat::L8.storage_class(), StorageClass::Uncompressed { bytes_per_pixel: 1 });
    assert_eq!(
        PixelFormat::La88.storage_class(),
        StorageClass::Uncompressed { bytes_per_pixel: 2 }
    );
    assert_eq!(
        PixelFormat::Dxt1.storage_class(),
        StorageClass::BlockCompressed { algorithm: BlockAlgorithm::Bc1 }
    );
    assert_eq!(
        PixelFormat::Dxt3.storage_class(),
        StorageClass::BlockCompressed { algorithm: BlockAlgorithm::Bc2 }
    );
    assert_eq!(
        PixelFormat::Dxt5.storage_class(),
        StorageClass::BlockCompressed { algorithm: BlockAlgorithm::Bc3 }
    );
}

#[test]
fn bytes_per_pixel_by_code() {
    assert_eq!(get_bytes_per_pixel(0x000), 4);
    assert_eq!(get_bytes_per_pixel(0x001), 2);
    assert_eq!(get_bytes_per_pixel(0x003), 2);
    assert_eq!(get_bytes_per_pixel(0x005), 1);
    assert_eq!(get_bytes_per_pixel(0x007), 2);
    // The variant bit does not count.
    assert_eq!(get_bytes_per_pixel(0x8000_0000), 4);
    assert_eq!(get_bytes_per_pixel(0x8000_0003), 2);
    // Any other code is one byte wide.
    assert_eq!(get_bytes_per_pixel(0x100), 1);
    assert_eq!(get_bytes_per_pixel(0x002), 1);
    assert_eq!(get_bytes_per_pixel(0xFFFF_FFFF), 1);
}

#[test]
fn flags_carry_variant_and_code() {
    for (_, format, code) in ALL_FORMATS {
        let a = flags(format, EngineVariant::VariantA);
        let b = flags(format, EngineVariant::VariantB);
        assert_eq!(a, code);
        assert_eq!(b, 0x8000_0000 | code);
        assert_eq!(a & VARIANT_BIT, 0);
        assert_eq!(b & VARIANT_BIT, VARIANT_BIT);
        assert_eq!(a & FORMAT_CODE_MASK, code);
        assert_eq!(b & FORMAT_CODE_MASK, code);
    }
    assert_eq!(flags(PixelFormat::Dxt5, EngineVariant::VariantB), 0x8000_0500);
}

#[test]
fn game_names_pick_the_variant() {
    assert_eq!(EngineVariant::from_name("ma1"), Some(EngineVariant::VariantA));
    assert_eq!(EngineVariant::from_name("ma2"), Some(EngineVariant::VariantB));
    for name in ["", "ma", "ma3", "MA1", "ma1 ", "ma22"] {
        assert_eq!(EngineVariant::from_name(name), None, "{:?}", name);
    }
    assert!(!EngineVariant::VariantA.is_variant_b());
    assert!(EngineVariant::VariantB.is_variant_b());
}
