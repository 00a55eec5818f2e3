use rusty_spire::pck::IoError;
use rusty_spire::pck::PckError;
use rusty_spire::texture::check_surface_count;
use rusty_spire::texture::dds_header;
use rusty_spire::texture::dxgi_format;
use rusty_spire::texture::parse_texture_header;
use rusty_spire::texture::CompressedTexture2d;
use rusty_spire::texture::CompressedTexture2dDataFormat;
use rusty_spire::texture::CompressedTexture2dDataFormatFlags;
use rusty_spire::texture::CompressedTexture2dVersion;
use rusty_spire::texture::ImageFormat;
use std::io::Cursor;

fn texture_header(width: u32, height: u32, data_format: u32, mipmaps: u32, image_format: u32) -> Vec<u8> {
    let mut d = b"GST2".to_vec();
    d.extend_from_slice(&1u32.to_ne_bytes());
    d.extend_from_slice(&width.to_ne_bytes());
    d.extend_from_slice(&height.to_ne_bytes());
    d.extend_from_slice(&CompressedTexture2dDataFormatFlags::HAS_MIPMAPS.to_ne_bytes());
    d.extend_from_slice(&7u32.to_ne_bytes());
    d.extend_from_slice(&[0u8; 12]);
    d.extend_from_slice(&data_format.to_ne_bytes());
    d.extend_from_slice(&(width as u16).to_ne_bytes());
    d.extend_from_slice(&(height as u16).to_ne_bytes());
    d.extend_from_slice(&mipmaps.to_ne_bytes());
    d.extend_from_slice(&image_format.to_ne_bytes());
    d
}

fn png_bytes(width: u32, height: u32) -> Vec<u8> {
    let img = image::RgbaImage::from_pixel(width, height, image::Rgba([10, 20, 30, 255]));
    let mut out = Vec::new();
    img.write_to(&mut Cursor::new(&mut out), image::ImageFormat::Png).unwrap();
    out
}

#[test]
fn header_is_read() {
    let d = texture_header(16, 8, 1, 3, ImageFormat::FORMAT_RGBA8 as u32);
    assert_eq!(d.len(), 52);
    let h = parse_texture_header(&d).unwrap();
    assert_eq!(h.version, CompressedTexture2dVersion::V1);
    assert_eq!(h.width, 16);
    assert_eq!(h.height, 8);
    assert!(h.format_flags.contains(CompressedTexture2dDataFormatFlags::HAS_MIPMAPS));
    assert_eq!(h.mipmap_limit, 7);
    assert_eq!(h.data_format, CompressedTexture2dDataFormat::Png);
    assert_eq!(h.width_2, 16);
    assert_eq!(h.height_2, 8);
    assert_eq!(h.mipmaps, 3);
    assert_eq!(h.image_format, ImageFormat::FORMAT_RGBA8);
}

#[test]
fn header_errors() {
    let good = texture_header(4, 4, 0, 0, 17);
    let mut bad_magic = good.clone();
    bad_magic[0] = b'X';
    assert!(matches!(parse_texture_header(&bad_magic), Err(PckError::InvalidMagic)));
    // the magic is big-endian: "GST2" read as a big-endian word
    let mut swapped = good.clone();
    swapped[0..4].copy_from_slice(b"2TSG");
    assert!(matches!(parse_texture_header(&swapped), Err(PckError::InvalidMagic)));
    let mut bad_version = good.clone();
    bad_version[4..8].copy_from_slice(&2u32.to_ne_bytes());
    assert!(matches!(parse_texture_header(&bad_version), Err(PckError::InvalidVersion)));
    let mut bad_format = good.clone();
    bad_format[36..40].copy_from_slice(&4u32.to_ne_bytes());
    match parse_texture_header(&bad_format) {
        Err(PckError::InvalidValue(m)) => assert_eq!(m, "data_format"),
        other => panic!("{other:?}"),
    }
    let mut bad_image = good.clone();
    bad_image[48..52].copy_from_slice(&47u32.to_ne_bytes());
    match parse_texture_header(&bad_image) {
        Err(PckError::InvalidValue(m)) => assert_eq!(m, "image_format"),
        other => panic!("{other:?}"),
    }
    for cut in [0usize, 2, 6, 20, 39, 45, 51] {
        assert!(matches!(
            parse_texture_header(&good[..cut]),
            Err(PckError::Io(IoError::UnexpectedEof))
        ));
    }
}

#[test]
fn image_formats_convert() {
    assert_eq!(ImageFormat::try_from_u32(0), Some(ImageFormat::FORMAT_L8));
    assert_eq!(ImageFormat::try_from_u32(46), Some(ImageFormat::FORMAT_RGBA16I));
    assert_eq!(ImageFormat::try_from_u32(47), None);
    assert_eq!(ImageFormat::FORMAT_DXT5.to_u32(), 19);
    assert_eq!(ImageFormat::FORMAT_ASTC_8x8_HDR.to_u32(), 38);
    assert_eq!(CompressedTexture2dDataFormat::try_from_u32(3), Some(CompressedTexture2dDataFormat::BasisUniversal));
    assert_eq!(CompressedTexture2dDataFormat::WebP.to_u32(), 2);
    assert_eq!(dxgi_format(ImageFormat::FORMAT_DXT1), Some(71));
    assert_eq!(dxgi_format(ImageFormat::FORMAT_BPTC_RGBA), Some(98));
    assert_eq!(dxgi_format(ImageFormat::FORMAT_BPTC_RGBF), Some(96));
    assert_eq!(dxgi_format(ImageFormat::FORMAT_BPTC_RGBFU), Some(95));
    assert_eq!(dxgi_format(ImageFormat::FORMAT_RGBA8), None);
}

#[test]
fn dds_header_layout() {
    let h = dds_header(64, 32, 1000, 7, 0x40_0008, 77);
    assert_eq!(h.len(), 148);
    assert_eq!(&h[0..4], b"DDS ");
    let word = |i: usize| u32::from_le_bytes([h[i], h[i + 1], h[i + 2], h[i + 3]]);
    assert_eq!(word(4), 124);
    assert_eq!(word(8), 0x1 | 0x2 | 0x4 | 0x1000 | 0x20000);
    assert_eq!(word(12), 32);
    assert_eq!(word(16), 64);
    assert_eq!(word(20), 1000);
    assert_eq!(word(24), 0);
    assert_eq!(word(28), 7);
    assert!(h[32..76].iter().all(|b| *b == 0));
    assert_eq!(word(76), 32);
    assert_eq!(word(80), 4);
    assert_eq!(&h[84..88], b"DX10");
    assert!(h[88..108].iter().all(|b| *b == 0));
    assert_eq!(word(108), 0x8 | 0x400000);
    assert_eq!(word(112), 0);
    assert!(h[116..128].iter().all(|b| *b == 0));
    assert_eq!(word(128), 77);
    assert_eq!(word(132), 3);
    assert_eq!(word(136), 0);
    assert_eq!(word(140), 1);
    assert_eq!(word(144), 0);
}

#[test]
fn png_texture_decodes_one_image_per_level() {
    let mut d = texture_header(2, 1, 1, 1, ImageFormat::FORMAT_RGBA8 as u32);
    for (w, h) in [(2, 1), (1, 1)] {
        let png = png_bytes(w, h);
        d.extend_from_slice(&(png.len() as u32).to_ne_bytes());
        d.extend_from_slice(&png);
    }
    let t = CompressedTexture2d::load(&d).unwrap();
    assert_eq!(t.images.len(), 2);
    assert_eq!(t.images[0].width(), 2);
    assert_eq!(t.images[1].width(), 1);
    assert_eq!(t.images[0].to_rgba8().get_pixel(1, 0).0, [10, 20, 30, 255]);
    assert_eq!(t.header.mipmaps, 1);
}

#[test]
fn png_chunk_with_trailing_padding_is_skipped_to_its_end() {
    let mut d = texture_header(1, 1, 2, 1, ImageFormat::FORMAT_RGBA8 as u32);
    let png = png_bytes(1, 1);
    // first chunk declares four more bytes than the image holds
    d.extend_from_slice(&(png.len() as u32 + 4).to_ne_bytes());
    d.extend_from_slice(&png);
    d.extend_from_slice(&[0, 0, 0, 0]);
    d.extend_from_slice(&(png.len() as u32).to_ne_bytes());
    d.extend_from_slice(&png);
    let t = CompressedTexture2d::load(&d).unwrap();
    assert_eq!(t.images.len(), 2);
}

#[test]
fn missing_png_chunk_is_unexpected_eof() {
    let mut d = texture_header(1, 1, 1, 1, ImageFormat::FORMAT_RGBA8 as u32);
    let png = png_bytes(1, 1);
    d.extend_from_slice(&(png.len() as u32).to_ne_bytes());
    d.extend_from_slice(&png);
    assert!(matches!(
        CompressedTexture2d::load(&d),
        Err(PckError::Io(IoError::UnexpectedEof))
    ));
}

#[test]
fn undecodable_chunk_is_an_image_error() {
    let mut d = texture_header(1, 1, 1, 0, ImageFormat::FORMAT_RGBA8 as u32);
    d.extend_from_slice(&4u32.to_ne_bytes());
    d.extend_from_slice(b"junk");
    assert!(matches!(CompressedTexture2d::load(&d), Err(PckError::Image(_))));
}

#[test]
fn bc1_texture_decodes_through_dds() {
    // a 4x4 texture with two mipmap levels below it: three BC1 blocks
    let mut d = texture_header(4, 4, 0, 2, ImageFormat::FORMAT_DXT1 as u32);
    for _ in 0..3 {
        d.extend_from_slice(&[0x00, 0xf8, 0x00, 0xf8, 0, 0, 0, 0]);
    }
    let t = CompressedTexture2d::load(&d).unwrap();
    assert_eq!(t.images.len(), 3);
    assert_eq!(t.images[0].width(), 4);
    assert_eq!(t.images[1].width(), 2);
    assert_eq!(t.images[2].width(), 1);
    let px = t.images[0].to_rgba8().get_pixel(0, 0).0;
    assert_eq!(px[3], 255);
    assert!(px[0] > 200 && px[1] < 10 && px[2] < 10);
}

#[test]
fn bc_texture_with_missing_data_is_a_dds_error() {
    let mut d = texture_header(4, 4, 0, 0, ImageFormat::FORMAT_BPTC_RGBA as u32);
    d.extend_from_slice(&[0u8; 3]);
    assert!(matches!(CompressedTexture2d::load(&d), Err(PckError::DdsDecode(_))));
}

#[test]
fn uncompressed_image_format_is_not_implemented() {
    let d = texture_header(4, 4, 0, 0, ImageFormat::FORMAT_RGBA8 as u32);
    match CompressedTexture2d::load(&d) {
        Err(PckError::NotImplemented(m)) => {
            assert!(m.starts_with("CompressedTexture2d: image_format ("));
            assert!(m.ends_with(")"));
        }
        other => panic!("{other:?}"),
    }
}

#[test]
fn basis_universal_is_not_implemented() {
    let d = texture_header(4, 4, 3, 0, ImageFormat::FORMAT_RGBA8 as u32);
    match CompressedTexture2d::load(&d) {
        Err(PckError::NotImplemented(m)) => {
            assert!(m.starts_with("CompressedTexture2d: data_format ("))
        }
        other => panic!("{other:?}"),
    }
}

#[test]
fn mipmap_count_at_the_limit_is_invalid() {
    let d = texture_header(4, 4, 0, u32::MAX, ImageFormat::FORMAT_DXT1 as u32);
    match CompressedTexture2d::load(&d) {
        Err(PckError::InvalidValue(m)) => assert_eq!(m, "mipmap_count"),
        other => panic!("{other:?}"),
    }
}

#[test]
fn surface_count_check() {
    assert!(check_surface_count(3, 3).is_ok());
    match check_surface_count(12, 7) {
        Err(PckError::InvalidValue(m)) => {
            assert_eq!(m, "surface count mismatch, expected 12 but expected 7")
        }
        other => panic!("{other:?}"),
    }
    match check_surface_count(1, 0) {
        Err(PckError::InvalidValue(m)) => {
            assert_eq!(m, "surface count mismatch, expected 1 but expected 0")
        }
        other => panic!("{other:?}"),
    }
}
