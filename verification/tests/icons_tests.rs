use electron_tasje::icons::{icon_kind, parse_png_size_name, u64_to_string, IconGenerator, IconKind};

fn icns_bytes(sizes: &[u32]) -> Vec<u8> {
    let mut family = icns::IconFamily::new();
    for &size in sizes {
        let image = icns::Image::new(icns::PixelFormat::RGBA, size, size);
        family.add_icon(&image).unwrap();
    }
    let mut buf: Vec<u8> = Vec::new();
    family.write(&mut buf).unwrap();
    buf
}

fn ico_bytes(sizes: &[u32]) -> Vec<u8> {
    let mut dir = ico::IconDir::new(ico::ResourceType::Icon);
    for &size in sizes {
        let image = ico::IconImage::from_rgba_data(size, size, vec![0u8; (size * size * 4) as usize]);
        dir.add_entry(ico::IconDirEntry::encode(&image).unwrap());
    }
    let mut buf: Vec<u8> = Vec::new();
    dir.write(&mut buf).unwrap();
    buf
}

fn png_bytes(size: u32) -> Vec<u8> {
    let image = ico::IconImage::from_rgba_data(size, size, vec![0u8; (size * size * 4) as usize]);
    let mut buf: Vec<u8> = Vec::new();
    image.write_png(&mut buf).unwrap();
    buf
}

#[test]
fn test_mac() {
    let mut generator = IconGenerator::new();
    let outs = generator.handle_file("icon.icns", &icns_bytes(&[128, 256, 512])).unwrap();
    assert_eq!(outs.len(), 3);
    for out in &outs {
        assert_eq!(icon_kind(&out.png), IconKind::Png);
    }
    assert_eq!(generator.size_list(), "128x128\n256x256\n512x512");
}

#[test]
fn test_win() {
    let mut generator = IconGenerator::new();
    let outs = generator.handle_file("icon.ico", &ico_bytes(&[32])).unwrap();
    assert_eq!(outs.len(), 1);
    assert_eq!(outs[0].width, 32);
    assert_eq!(outs[0].height, 32);
    assert_eq!(icon_kind(&outs[0].png), IconKind::Png);
    assert_eq!(generator.size_list(), "32x32");
}

#[test]
fn test_linux() {
    let mut generator = IconGenerator::new();
    generator.handle_file("10x10.png", &png_bytes(10)).unwrap();
    generator.handle_file("icon.icns", &icns_bytes(&[128, 256])).unwrap();
    assert_eq!(generator.size_list(), "10x10\n128x128\n256x256");
}

#[test]
fn test_duplicate_sizes_are_skipped() {
    let mut generator = IconGenerator::new();
    let first = generator.handle_file("icon.icns", &icns_bytes(&[128])).unwrap();
    assert_eq!(first.len(), 1);
    let second = generator.handle_file("again.icns", &icns_bytes(&[128, 256])).unwrap();
    assert_eq!(second.len(), 1);
    assert_eq!(second[0].width, 256);
    assert_eq!(generator.size_list(), "128x128\n256x256");
}

#[test]
fn test_unknown_magic_is_ignored() {
    let mut generator = IconGenerator::new();
    let outs = generator.handle_file("whatever.bin", &vec![1u8, 2, 3, 4, 5]).unwrap();
    assert!(outs.is_empty());
    assert_eq!(generator.size_list(), "");
}

#[test]
fn test_png_with_unrelated_name_is_ignored() {
    let mut generator = IconGenerator::new();
    let outs = generator.handle_file("logo.png", &png_bytes(16)).unwrap();
    assert!(outs.is_empty());
    assert_eq!(generator.size_list(), "");
}

#[test]
fn test_png_name_parsing() {
    assert_eq!(parse_png_size_name("128x128.png"), Some((128, 128)));
    assert_eq!(parse_png_size_name("10x20.png"), Some((10, 20)));
    assert_eq!(parse_png_size_name("logo.png"), None);
    assert_eq!(parse_png_size_name("x10.png"), None);
    assert_eq!(parse_png_size_name("10x.png"), None);
    assert_eq!(parse_png_size_name("10x10.jpeg"), None);
    assert_eq!(parse_png_size_name("10x10.png.bak"), None);
    assert_eq!(parse_png_size_name("99999999999999999999999x1.png"), None);
}

#[test]
fn test_icon_kind_magic() {
    assert_eq!(icon_kind(&vec![0x69, 0x63, 0x6e, 0x73, 0]), IconKind::Icns);
    assert_eq!(icon_kind(&vec![0x00, 0x00, 0x01, 0x00]), IconKind::Ico);
    assert_eq!(icon_kind(&vec![0x89, 0x50, 0x4e, 0x47]), IconKind::Png);
    assert_eq!(icon_kind(&vec![0x89, 0x50]), IconKind::Unknown);
    assert_eq!(icon_kind(&vec![9, 9, 9, 9]), IconKind::Unknown);
}

#[test]
fn test_decimal_rendering() {
    assert_eq!(u64_to_string(0), "0");
    assert_eq!(u64_to_string(7), "7");
    assert_eq!(u64_to_string(512), "512");
    assert_eq!(u64_to_string(18446744073709551615), "18446744073709551615");
}

#[test]
fn test_broken_container_reports_decode_error() {
    let mut generator = IconGenerator::new();
    let bad = vec![0x69u8, 0x63, 0x6e, 0x73, 1, 2, 3];
    assert!(matches!(
        generator.handle_file("broken.icns", &bad).err().unwrap(),
        electron_tasje::error::Error::IconDecode(_)
    ));
}
