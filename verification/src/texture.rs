//! Godot `CompressedTexture2D` (`.ctex`) files.
//!
//! A file starts with a header (magic `GST2`, version, size, flags, data and
//! image format, mipmap count). Block-compressed images follow as raw DDS
//! surfaces, to which a DDS header is prepended before decoding; PNG and WebP
//! images follow as one length-prefixed chunk per mipmap level.

use crate::bytes::clamped_bytes;
use crate::bytes::le_bytes_u32;
use crate::bytes::read_u16_ne;
use crate::bytes::read_u32_be;
use crate::bytes::read_u32_ne;
use crate::bytes::slice_clamped;
use crate::bytes::u16_ne_at;
use crate::bytes::u32_be_at;
use crate::bytes::u32_be;
use crate::bytes::u32_ne_at;
use crate::bytes::u32_le;
use crate::bytes::u32_to_le_bytes;
use crate::pck::PckError;
use crate::pck::PckErrorView;
use crate::pck::eof;
use crate::pck::IoError;
use crate::text::decimal;
use crate::text::push_decimal;
use image::ImageFormat as ImageFileFormat;
use std::io::Cursor;
use vstd::prelude::*;

verus! {

/// The error type of the `image` crate; values of it are carried, not inspected.
#[verifier::external_type_specification]
#[verifier::external_body]
pub struct ExImageError(image::ImageError);

/// The error type of the `dds` crate; values of it are carried, not inspected.
#[verifier::external_type_specification]
#[verifier::external_body]
pub struct ExDecodingError(dds::DecodingError);

/// An image file format of the `image` crate.
#[verifier::external_type_specification]
#[verifier::external_body]
pub struct ExImageFileFormat(ImageFileFormat);

/// A decoded image of the `image` crate.
#[verifier::external_type_specification]
#[verifier::external_body]
pub struct ExDynamicImage(image::DynamicImage);

/// A DDS decoder of the `dds` crate over a reader.
#[verifier::external_type_specification]
#[verifier::external_body]
#[verifier::reject_recursive_types(R)]
pub struct ExDecoder<R>(dds::Decoder<R>);

/// A reader over bytes in memory.
#[verifier::external_type_specification]
#[verifier::external_body]
#[verifier::reject_recursive_types(T)]
pub struct ExCursor<T>(Cursor<T>);

#[derive(Debug, Clone, Copy, PartialEq, Eq, Structural)]
pub enum CompressedTexture2dVersion {
    V1,
}

pub open spec fn texture_version_of(v: u32) -> Option<CompressedTexture2dVersion> {
    if v == 1 {
        Some(CompressedTexture2dVersion::V1)
    } else {
        None
    }
}

impl CompressedTexture2dVersion {
    pub fn try_from_u32(v: u32) -> (r: Option<CompressedTexture2dVersion>)
        ensures
            r == texture_version_of(v),
    {
        if v == 1 {
            Some(CompressedTexture2dVersion::V1)
        } else {
            None
        }
    }

    pub fn to_u32(self) -> (r: u32)
        ensures
            texture_version_of(r) == Some(self),
    {
        1
    }
}

#[derive(Debug, Clone, Copy, PartialEq, Eq, Structural)]
pub enum CompressedTexture2dDataFormat {
    Image,
    Png,
    WebP,
    BasisUniversal,
}

pub open spec fn data_format_of(v: u32) -> Option<CompressedTexture2dDataFormat> {
    if v == 0 {
        Some(CompressedTexture2dDataFormat::Image)
    } else if v == 1 {
        Some(CompressedTexture2dDataFormat::Png)
    } else if v == 2 {
        Some(CompressedTexture2dDataFormat::WebP)
    } else if v == 3 {
        Some(CompressedTexture2dDataFormat::BasisUniversal)
    } else {
        None
    }
}

impl CompressedTexture2dDataFormat {
    pub fn try_from_u32(v: u32) -> (r: Option<CompressedTexture2dDataFormat>)
        ensures
            r == data_format_of(v),
    {
        if v == 0 {
            Some(CompressedTexture2dDataFormat::Image)
        } else if v == 1 {
            Some(CompressedTexture2dDataFormat::Png)
        } else if v == 2 {
            Some(CompressedTexture2dDataFormat::WebP)
        } else if v == 3 {
            Some(CompressedTexture2dDataFormat::BasisUniversal)
        } else {
            None
        }
    }

    pub fn to_u32(self) -> (r: u32)
        ensures
            data_format_of(r) == Some(self),
    {
        match self {
            CompressedTexture2dDataFormat::Image => 0,
            CompressedTexture2dDataFormat::Png => 1,
            CompressedTexture2dDataFormat::WebP => 2,
            CompressedTexture2dDataFormat::BasisUniversal => 3,
        }
    }
}

/// Flags of how a texture was imported.
#[derive(Debug, Clone, Copy, PartialEq, Eq, Structural)]
pub struct CompressedTexture2dDataFormatFlags {
    bits: u32,
}

impl CompressedTexture2dDataFormatFlags {
    pub const STREAM: u32 = 0x40_0000;

    pub const HAS_MIPMAPS: u32 = 0x80_0000;

    pub const DETECT_3D: u32 = 0x100_0000;

    pub const DETECT_SRGB: u32 = 0x200_0000;

    pub const DETECT_NORMAL: u32 = 0x400_0000;

    pub const DETECT_ROUGNESS: u32 = 0x800_0000;

    pub closed spec fn spec_bits(self) -> u32 {
        self.bits
    }

    /// The flags with exactly these bits.
    pub closed spec fn spec_from_bits(bits: u32) -> Self {
        CompressedTexture2dDataFormatFlags { bits }
    }

    /// The flags with exactly these bits, known or not.
    pub fn from_bits_retain(bits: u32) -> (r: Self)
        ensures
            r == Self::spec_from_bits(bits),
            r.spec_bits() == bits,
    {
        CompressedTexture2dDataFormatFlags { bits }
    }

    pub fn bits(&self) -> (r: u32)
        ensures
            r == self.spec_bits(),
    {
        self.bits
    }

    /// Whether all bits of `mask` are set.
    pub fn contains(&self, mask: u32) -> (r: bool)
        ensures
            r == (self.spec_bits() & mask == mask),
    {
        self.bits & mask == mask
    }
}

/// From Godot source
#[allow(non_camel_case_types)]
#[derive(Debug, Clone, Copy, PartialEq, Eq, Structural)]
pub enum ImageFormat {
    FORMAT_L8, // Luminance
    FORMAT_LA8, // Luminance-Alpha
    FORMAT_R8,
    FORMAT_RG8,
    FORMAT_RGB8,
    FORMAT_RGBA8,
    FORMAT_RGBA4444,
    FORMAT_RGB565,
    FORMAT_RF, // Float
    FORMAT_RGF,
    FORMAT_RGBF,
    FORMAT_RGBAF,
    FORMAT_RH, // Half
    FORMAT_RGH,
    FORMAT_RGBH,
    FORMAT_RGBAH,
    FORMAT_RGBE9995,
    FORMAT_DXT1, // BC1
    FORMAT_DXT3, // BC2
    FORMAT_DXT5, // BC3
    FORMAT_RGTC_R, // BC4
    FORMAT_RGTC_RG, // BC5
    FORMAT_BPTC_RGBA, // BC7
    FORMAT_BPTC_RGBF, // BC6 Signed
    FORMAT_BPTC_RGBFU, // BC6 Unsigned
    FORMAT_ETC, // ETC1
    FORMAT_ETC2_R11,
    FORMAT_ETC2_R11S, // Signed, NOT srgb.
    FORMAT_ETC2_RG11,
    FORMAT_ETC2_RG11S, // Signed, NOT srgb.
    FORMAT_ETC2_RGB8,
    FORMAT_ETC2_RGBA8,
    FORMAT_ETC2_RGB8A1,
    FORMAT_ETC2_RA_AS_RG, // ETC2 RGBA with a RA-RG swizzle for normal maps.
    FORMAT_DXT5_RA_AS_RG, // BC3 with a RA-RG swizzle for normal maps.
    FORMAT_ASTC_4x4,
    FORMAT_ASTC_4x4_HDR,
    FORMAT_ASTC_8x8,
    FORMAT_ASTC_8x8_HDR,
    FORMAT_R16,
    FORMAT_RG16,
    FORMAT_RGB16,
    FORMAT_RGBA16,
    FORMAT_R16I,
    FORMAT_RG16I,
    FORMAT_RGB16I,
    FORMAT_RGBA16I,
}

/// The image format with the number `v`, if there is one.
pub open spec fn image_format_of(v: u32) -> Option<ImageFormat> {
    match v {
        0u32 => Some(ImageFormat::FORMAT_L8),
        1u32 => Some(ImageFormat::FORMAT_LA8),
        2u32 => Some(ImageFormat::FORMAT_R8),
        3u32 => Some(ImageFormat::FORMAT_RG8),
        4u32 => Some(ImageFormat::FORMAT_RGB8),
        5u32 => Some(ImageFormat::FORMAT_RGBA8),
        6u32 => Some(ImageFormat::FORMAT_RGBA4444),
        7u32 => Some(ImageFormat::FORMAT_RGB565),
        8u32 => Some(ImageFormat::FORMAT_RF),
        9u32 => Some(ImageFormat::FORMAT_RGF),
        10u32 => Some(ImageFormat::FORMAT_RGBF),
        11u32 => Some(ImageFormat::FORMAT_RGBAF),
        12u32 => Some(ImageFormat::FORMAT_RH),
        13u32 => Some(ImageFormat::FORMAT_RGH),
        14u32 => Some(ImageFormat::FORMAT_RGBH),
        15u32 => Some(ImageFormat::FORMAT_RGBAH),
        16u32 => Some(ImageFormat::FORMAT_RGBE9995),
        17u32 => Some(ImageFormat::FORMAT_DXT1),
        18u32 => Some(ImageFormat::FORMAT_DXT3),
        19u32 => Some(ImageFormat::FORMAT_DXT5),
        20u32 => Some(ImageFormat::FORMAT_RGTC_R),
        21u32 => Some(ImageFormat::FORMAT_RGTC_RG),
        22u32 => Some(ImageFormat::FORMAT_BPTC_RGBA),
        23u32 => Some(ImageFormat::FORMAT_BPTC_RGBF),
        24u32 => Some(ImageFormat::FORMAT_BPTC_RGBFU),
        25u32 => Some(ImageFormat::FORMAT_ETC),
        26u32 => Some(ImageFormat::FORMAT_ETC2_R11),
        27u32 => Some(ImageFormat::FORMAT_ETC2_R11S),
        28u32 => Some(ImageFormat::FORMAT_ETC2_RG11),
        29u32 => Some(ImageFormat::FORMAT_ETC2_RG11S),
        30u32 => Some(ImageFormat::FORMAT_ETC2_RGB8),
        31u32 => Some(ImageFormat::FORMAT_ETC2_RGBA8),
        32u32 => Some(ImageFormat::FORMAT_ETC2_RGB8A1),
        33u32 => Some(ImageFormat::FORMAT_ETC2_RA_AS_RG),
        34u32 => Some(ImageFormat::FORMAT_DXT5_RA_AS_RG),
        35u32 => Some(ImageFormat::FORMAT_ASTC_4x4),
        36u32 => Some(ImageFormat::FORMAT_ASTC_4x4_HDR),
        37u32 => Some(ImageFormat::FORMAT_ASTC_8x8),
        38u32 => Some(ImageFormat::FORMAT_ASTC_8x8_HDR),
        39u32 => Some(ImageFormat::FORMAT_R16),
        40u32 => Some(ImageFormat::FORMAT_RG16),
        41u32 => Some(ImageFormat::FORMAT_RGB16),
        42u32 => Some(ImageFormat::FORMAT_RGBA16),
        43u32 => Some(ImageFormat::FORMAT_R16I),
        44u32 => Some(ImageFormat::FORMAT_RG16I),
        45u32 => Some(ImageFormat::FORMAT_RGB16I),
        46u32 => Some(ImageFormat::FORMAT_RGBA16I),
        _ => None,
    }
}

impl ImageFormat {
    /// The image format with the number `v`, if there is one.
    pub fn try_from_u32(v: u32) -> (r: Option<ImageFormat>)
        ensures
            r == image_format_of(v),
    {
        match v {
            0u32 => Some(ImageFormat::FORMAT_L8),
            1u32 => Some(ImageFormat::FORMAT_LA8),
            2u32 => Some(ImageFormat::FORMAT_R8),
            3u32 => Some(ImageFormat::FORMAT_RG8),
            4u32 => Some(ImageFormat::FORMAT_RGB8),
            5u32 => Some(ImageFormat::FORMAT_RGBA8),
            6u32 => Some(ImageFormat::FORMAT_RGBA4444),
            7u32 => Some(ImageFormat::FORMAT_RGB565),
            8u32 => Some(ImageFormat::FORMAT_RF),
            9u32 => Some(ImageFormat::FORMAT_RGF),
            10u32 => Some(ImageFormat::FORMAT_RGBF),
            11u32 => Some(ImageFormat::FORMAT_RGBAF),
            12u32 => Some(ImageFormat::FORMAT_RH),
            13u32 => Some(ImageFormat::FORMAT_RGH),
            14u32 => Some(ImageFormat::FORMAT_RGBH),
            15u32 => Some(ImageFormat::FORMAT_RGBAH),
            16u32 => Some(ImageFormat::FORMAT_RGBE9995),
            17u32 => Some(ImageFormat::FORMAT_DXT1),
            18u32 => Some(ImageFormat::FORMAT_DXT3),
            19u32 => Some(ImageFormat::FORMAT_DXT5),
            20u32 => Some(ImageFormat::FORMAT_RGTC_R),
            21u32 => Some(ImageFormat::FORMAT_RGTC_RG),
            22u32 => Some(ImageFormat::FORMAT_BPTC_RGBA),
            23u32 => Some(ImageFormat::FORMAT_BPTC_RGBF),
            24u32 => Some(ImageFormat::FORMAT_BPTC_RGBFU),
            25u32 => Some(ImageFormat::FORMAT_ETC),
            26u32 => Some(ImageFormat::FORMAT_ETC2_R11),
            27u32 => Some(ImageFormat::FORMAT_ETC2_R11S),
            28u32 => Some(ImageFormat::FORMAT_ETC2_RG11),
            29u32 => Some(ImageFormat::FORMAT_ETC2_RG11S),
            30u32 => Some(ImageFormat::FORMAT_ETC2_RGB8),
            31u32 => Some(ImageFormat::FORMAT_ETC2_RGBA8),
            32u32 => Some(ImageFormat::FORMAT_ETC2_RGB8A1),
            33u32 => Some(ImageFormat::FORMAT_ETC2_RA_AS_RG),
            34u32 => Some(ImageFormat::FORMAT_DXT5_RA_AS_RG),
            35u32 => Some(ImageFormat::FORMAT_ASTC_4x4),
            36u32 => Some(ImageFormat::FORMAT_ASTC_4x4_HDR),
            37u32 => Some(ImageFormat::FORMAT_ASTC_8x8),
            38u32 => Some(ImageFormat::FORMAT_ASTC_8x8_HDR),
            39u32 => Some(ImageFormat::FORMAT_R16),
            40u32 => Some(ImageFormat::FORMAT_RG16),
            41u32 => Some(ImageFormat::FORMAT_RGB16),
            42u32 => Some(ImageFormat::FORMAT_RGBA16),
            43u32 => Some(ImageFormat::FORMAT_R16I),
            44u32 => Some(ImageFormat::FORMAT_RG16I),
            45u32 => Some(ImageFormat::FORMAT_RGB16I),
            46u32 => Some(ImageFormat::FORMAT_RGBA16I),
            _ => None,
        }
    }

    /// The number of this image format.
    pub fn to_u32(self) -> (r: u32)
        ensures
            image_format_of(r) == Some(self),
    {
        match self {
            ImageFormat::FORMAT_L8 => 0,
            ImageFormat::FORMAT_LA8 => 1,
            ImageFormat::FORMAT_R8 => 2,
            ImageFormat::FORMAT_RG8 => 3,
            ImageFormat::FORMAT_RGB8 => 4,
            ImageFormat::FORMAT_RGBA8 => 5,
            ImageFormat::FORMAT_RGBA4444 => 6,
            ImageFormat::FORMAT_RGB565 => 7,
            ImageFormat::FORMAT_RF => 8,
            ImageFormat::FORMAT_RGF => 9,
            ImageFormat::FORMAT_RGBF => 10,
            ImageFormat::FORMAT_RGBAF => 11,
            ImageFormat::FORMAT_RH => 12,
            ImageFormat::FORMAT_RGH => 13,
            ImageFormat::FORMAT_RGBH => 14,
            ImageFormat::FORMAT_RGBAH => 15,
            ImageFormat::FORMAT_RGBE9995 => 16,
            ImageFormat::FORMAT_DXT1 => 17,
            ImageFormat::FORMAT_DXT3 => 18,
            ImageFormat::FORMAT_DXT5 => 19,
            ImageFormat::FORMAT_RGTC_R => 20,
            ImageFormat::FORMAT_RGTC_RG => 21,
            ImageFormat::FORMAT_BPTC_RGBA => 22,
            ImageFormat::FORMAT_BPTC_RGBF => 23,
            ImageFormat::FORMAT_BPTC_RGBFU => 24,
            ImageFormat::FORMAT_ETC => 25,
            ImageFormat::FORMAT_ETC2_R11 => 26,
            ImageFormat::FORMAT_ETC2_R11S => 27,
            ImageFormat::FORMAT_ETC2_RG11 => 28,
            ImageFormat::FORMAT_ETC2_RG11S => 29,
            ImageFormat::FORMAT_ETC2_RGB8 => 30,
            ImageFormat::FORMAT_ETC2_RGBA8 => 31,
            ImageFormat::FORMAT_ETC2_RGB8A1 => 32,
            ImageFormat::FORMAT_ETC2_RA_AS_RG => 33,
            ImageFormat::FORMAT_DXT5_RA_AS_RG => 34,
            ImageFormat::FORMAT_ASTC_4x4 => 35,
            ImageFormat::FORMAT_ASTC_4x4_HDR => 36,
            ImageFormat::FORMAT_ASTC_8x8 => 37,
            ImageFormat::FORMAT_ASTC_8x8_HDR => 38,
            ImageFormat::FORMAT_R16 => 39,
            ImageFormat::FORMAT_RG16 => 40,
            ImageFormat::FORMAT_RGB16 => 41,
            ImageFormat::FORMAT_RGBA16 => 42,
            ImageFormat::FORMAT_R16I => 43,
            ImageFormat::FORMAT_RG16I => 44,
            ImageFormat::FORMAT_RGB16I => 45,
            ImageFormat::FORMAT_RGBA16I => 46,
        }
    }
}

#[derive(Debug, Clone, PartialEq, Eq, Structural)]
pub struct CompressedTexture2dHeader {
    pub version: CompressedTexture2dVersion,
    pub width: u32,
    pub height: u32,
    pub format_flags: CompressedTexture2dDataFormatFlags,
    pub mipmap_limit: u32,
    pub data_format: CompressedTexture2dDataFormat,
    pub width_2: u16,
    pub height_2: u16,
    pub mipmaps: u32,
    pub image_format: ImageFormat,
}

/// GST2
pub const TEXTURE_MAGIC: u32 = 0x47535432;

/// Where the image data starts, just after the header.
pub const TEXTURE_HEADER_LEN: u64 = 52;

/// The header that starts a texture file.
pub open spec fn spec_texture_header(d: Seq<u8>) -> Result<CompressedTexture2dHeader, PckErrorView> {
    if u32_be_at(d, 0) is None {
        Err(eof())
    } else if u32_be_at(d, 0).unwrap() != TEXTURE_MAGIC {
        Err(PckErrorView::InvalidMagic)
    } else if u32_ne_at(d, 4) is None {
        Err(eof())
    } else if texture_version_of(u32_ne_at(d, 4).unwrap()) is None {
        Err(PckErrorView::InvalidVersion)
    } else if u32_ne_at(d, 36) is None {
        // width, height, flags, mipmap limit, three reserved words, data format
        Err(eof())
    } else if data_format_of(u32_ne_at(d, 36).unwrap()) is None {
        Err(PckErrorView::InvalidValue("data_format"@))
    } else if u32_ne_at(d, 48) is None {
        // two half-size words, mipmap count, image format
        Err(eof())
    } else if image_format_of(u32_ne_at(d, 48).unwrap()) is None {
        Err(PckErrorView::InvalidValue("image_format"@))
    } else {
        Ok(
            CompressedTexture2dHeader {
                version: texture_version_of(u32_ne_at(d, 4).unwrap()).unwrap(),
                width: u32_ne_at(d, 8).unwrap(),
                height: u32_ne_at(d, 12).unwrap(),
                format_flags: CompressedTexture2dDataFormatFlags::spec_from_bits(
                    u32_ne_at(d, 16).unwrap(),
                ),
                mipmap_limit: u32_ne_at(d, 20).unwrap(),
                data_format: data_format_of(u32_ne_at(d, 36).unwrap()).unwrap(),
                width_2: u16_ne_at(d, 40).unwrap(),
                height_2: u16_ne_at(d, 42).unwrap(),
                mipmaps: u32_ne_at(d, 44).unwrap(),
                image_format: image_format_of(u32_ne_at(d, 48).unwrap()).unwrap(),
            },
        )
    }
}

/// Reads the header that starts a texture file.
pub fn parse_texture_header(d: &[u8]) -> (r: Result<CompressedTexture2dHeader, PckError>)
    ensures
        match spec_texture_header(d@) {
            Ok(h) => r matches Ok(x) && x == h,
            Err(e) => r matches Err(x) && x@ == e,
        },
{
    // the call bounds the length of the data by `usize::MAX`
    let _len = d.len();
    let magic = match read_u32_be(d, 0) {
        Some(m) => m,
        None => return Err(PckError::Io(IoError::UnexpectedEof)),
    };
    if magic != TEXTURE_MAGIC {
        return Err(PckError::InvalidMagic);
    }
    let version = match read_u32_ne(d, 4) {
        Some(v) => match CompressedTexture2dVersion::try_from_u32(v) {
            Some(v) => v,
            None => return Err(PckError::InvalidVersion),
        },
        None => return Err(PckError::Io(IoError::UnexpectedEof)),
    };
    let raw_format = match read_u32_ne(d, 36) {
        Some(v) => v,
        None => return Err(PckError::Io(IoError::UnexpectedEof)),
    };
    let width = read_u32_ne(d, 8).unwrap();
    let height = read_u32_ne(d, 12).unwrap();
    let format_flags = CompressedTexture2dDataFormatFlags::from_bits_retain(
        read_u32_ne(d, 16).unwrap(),
    );
    let mipmap_limit = read_u32_ne(d, 20).unwrap();
    let data_format = match CompressedTexture2dDataFormat::try_from_u32(raw_format) {
        Some(f) => f,
        None => {
            let msg = "data_format".to_owned();
            proof {
                reveal_strlit("data_format");
            }
            return Err(PckError::InvalidValue(msg));
        },
    };
    let raw_image_format = match read_u32_ne(d, 48) {
        Some(v) => v,
        None => return Err(PckError::Io(IoError::UnexpectedEof)),
    };
    let width_2 = read_u16_ne(d, 40).unwrap();
    let height_2 = read_u16_ne(d, 42).unwrap();
    let mipmaps = read_u32_ne(d, 44).unwrap();
    let image_format = match ImageFormat::try_from_u32(raw_image_format) {
        Some(f) => f,
        None => {
            let msg = "image_format".to_owned();
            proof {
                reveal_strlit("image_format");
            }
            return Err(PckError::InvalidValue(msg));
        },
    };
    Ok(
        CompressedTexture2dHeader {
            version,
            width,
            height,
            format_flags,
            mipmap_limit,
            data_format,
            width_2,
            height_2,
            mipmaps,
            image_format,
        },
    )
}

// ---------------------------------------------------------------------------
// DDS headers for block-compressed images.

/// Whether images of this format are stored as BCn blocks that a DDS decoder reads.
pub open spec fn is_block_compressed(f: ImageFormat) -> bool {
    dxgi_format_of(f) is Some
}

/// The DXGI format number of a block-compressed image format.
pub open spec fn dxgi_format_of(f: ImageFormat) -> Option<u32> {
    match f {
        ImageFormat::FORMAT_DXT1 => Some(71u32),  // BC1
        ImageFormat::FORMAT_DXT3 => Some(74u32),  // BC2
        ImageFormat::FORMAT_DXT5 => Some(77u32),  // BC3
        ImageFormat::FORMAT_RGTC_R => Some(80u32),  // BC4
        ImageFormat::FORMAT_RGTC_RG => Some(83u32),  // BC5
        ImageFormat::FORMAT_BPTC_RGBA => Some(98u32),  // BC7
        ImageFormat::FORMAT_BPTC_RGBF => Some(96u32),  // BC6 signed
        ImageFormat::FORMAT_BPTC_RGBFU => Some(95u32),  // BC6 unsigned
        _ => None,
    }
}

/// The DXGI format number of a block-compressed image format, if it is one.
pub fn dxgi_format(f: ImageFormat) -> (r: Option<u32>)
    ensures
        r == dxgi_format_of(f),
{
    match f {
        ImageFormat::FORMAT_DXT1 => Some(71),
        ImageFormat::FORMAT_DXT3 => Some(74),
        ImageFormat::FORMAT_DXT5 => Some(77),
        ImageFormat::FORMAT_RGTC_R => Some(80),
        ImageFormat::FORMAT_RGTC_RG => Some(83),
        ImageFormat::FORMAT_BPTC_RGBA => Some(98),
        ImageFormat::FORMAT_BPTC_RGBF => Some(96),
        ImageFormat::FORMAT_BPTC_RGBFU => Some(95),
        _ => None,
    }
}

/// `n` zero bytes.
pub open spec fn zeros(n: nat) -> Seq<u8> {
    Seq::new(n, |i: int| 0u8)
}

/// The DDS header, with the DX10 extension, of a 2D texture of the given size
/// and number of surfaces, whose surfaces hold `pitch` bytes in all.
pub open spec fn spec_dds_header(
    width: u32,
    height: u32,
    pitch: u32,
    surfaces: u32,
    caps: u32,
    dxgi: u32,
) -> Seq<u8> {
    seq![0x44u8, 0x44u8, 0x53u8, 0x20u8]  // magic "DDS "
     + le_bytes_u32(124)  // header size
     + le_bytes_u32(0x21007)  // caps, height, width, pixel format, mipmap count, linear size
     + le_bytes_u32(height) + le_bytes_u32(width) + le_bytes_u32(pitch) + le_bytes_u32(0)  // depth
     + le_bytes_u32(surfaces) + zeros(44)  // reserved
     + le_bytes_u32(32)  // pixel format size
     + le_bytes_u32(4)  // pixel format flags: four character code
     + seq![0x44u8, 0x58u8, 0x31u8, 0x30u8]  // "DX10"
     + le_bytes_u32(0) + le_bytes_u32(0) + le_bytes_u32(0) + le_bytes_u32(0) + le_bytes_u32(0)  // bit count, masks
     + le_bytes_u32(caps) + le_bytes_u32(0)  // caps2
     + zeros(12)  // caps3, caps4, reserved
     + le_bytes_u32(dxgi) + le_bytes_u32(3)  // resource dimension: 2D texture
     + le_bytes_u32(0)  // misc flags
     + le_bytes_u32(1)  // array size
     + le_bytes_u32(0)  // misc flags 2
}

/// The caps word of a texture with `mipmaps` mipmap levels beyond the first.
pub open spec fn dds_caps(mipmaps: u32) -> u32 {
    if mipmaps > 0 {
        0x40_0008u32
    } else {
        0u32
    }
}

fn push_u32_le(v: &mut Vec<u8>, x: u32)
    ensures
        final(v)@ == old(v)@ + le_bytes_u32(x),
{
    let b = u32_to_le_bytes(x);
    v.push(b[0]);
    v.push(b[1]);
    v.push(b[2]);
    v.push(b[3]);
    assert(final(v)@ =~= old(v)@ + le_bytes_u32(x));
}

fn push_zeros(v: &mut Vec<u8>, n: usize)
    ensures
        final(v)@ == old(v)@ + zeros(n as nat),
{
    let ghost start = v@;
    let mut i: usize = 0;
    while i < n
        invariant
            i <= n,
            v@ =~= start + zeros(i as nat),
        decreases n - i,
    {
        v.push(0);
        i += 1;
    }
}

/// The DDS header of a 2D texture; see [`spec_dds_header`].
pub fn dds_header(width: u32, height: u32, pitch: u32, surfaces: u32, caps: u32, dxgi: u32) -> (r: Vec<u8>)
    ensures
        r@ == spec_dds_header(width, height, pitch, surfaces, caps, dxgi),
        r@.len() == 148,
{
    let mut v: Vec<u8> = Vec::new();
    v.push(0x44);
    v.push(0x44);
    v.push(0x53);
    v.push(0x20);
    assert(v@ =~= seq![0x44u8, 0x44u8, 0x53u8, 0x20u8]);
    push_u32_le(&mut v, 124);
    push_u32_le(&mut v, 0x21007);
    push_u32_le(&mut v, height);
    push_u32_le(&mut v, width);
    push_u32_le(&mut v, pitch);
    push_u32_le(&mut v, 0);
    push_u32_le(&mut v, surfaces);
    push_zeros(&mut v, 44);
    push_u32_le(&mut v, 32);
    push_u32_le(&mut v, 4);
    let ghost before = v@;
    v.push(0x44);
    v.push(0x58);
    v.push(0x31);
    v.push(0x30);
    assert(v@ =~= before + seq![0x44u8, 0x58u8, 0x31u8, 0x30u8]);
    push_u32_le(&mut v, 0);
    push_u32_le(&mut v, 0);
    push_u32_le(&mut v, 0);
    push_u32_le(&mut v, 0);
    push_u32_le(&mut v, 0);
    push_u32_le(&mut v, caps);
    push_u32_le(&mut v, 0);
    push_zeros(&mut v, 12);
    push_u32_le(&mut v, dxgi);
    push_u32_le(&mut v, 3);
    push_u32_le(&mut v, 0);
    push_u32_le(&mut v, 1);
    push_u32_le(&mut v, 0);
    v
}

/// The bytes that the DDS decoder reads for a block-compressed texture: a DDS
/// header for the texture's size, followed by everything after the texture
/// header. The header's pitch field holds the number of those bytes, cut to
/// 32 bits.
pub open spec fn spec_dds_stream(d: Seq<u8>, h: CompressedTexture2dHeader) -> Seq<u8> {
    let remaining = d.len() - TEXTURE_HEADER_LEN;
    spec_dds_header(
        h.width,
        h.height,
        (remaining % 0x1_0000_0000) as u32,
        (h.mipmaps + 1) as u32,
        dds_caps(h.mipmaps),
        dxgi_format_of(h.image_format).unwrap(),
    ) + d.subrange(TEXTURE_HEADER_LEN as int, d.len() as int)
}

/// The DDS stream of a block-compressed texture; see [`spec_dds_stream`].
pub fn dds_stream(d: &[u8], h: &CompressedTexture2dHeader) -> (r: Vec<u8>)
    requires
        d@.len() >= TEXTURE_HEADER_LEN,
        is_block_compressed(h.image_format),
        h.mipmaps < u32::MAX,
    ensures
        r@ == spec_dds_stream(d@, *h),
{
    let len = d.len();
    let remaining = len as u64 - TEXTURE_HEADER_LEN;
    let pitch = (remaining % 0x1_0000_0000) as u32;
    let caps: u32 = if h.mipmaps > 0 {
        0x40_0008
    } else {
        0
    };
    let dxgi = dxgi_format(h.image_format).unwrap();
    let mut v = dds_header(h.width, h.height, pitch, h.mipmaps + 1, caps, dxgi);
    let ghost head = v@;
    let mut i: usize = TEXTURE_HEADER_LEN as usize;
    while i < len
        invariant
            TEXTURE_HEADER_LEN <= i <= len == d@.len(),
            v@ =~= head + d@.subrange(TEXTURE_HEADER_LEN as int, i as int),
        decreases len - i,
    {
        v.push(d[i]);
        i += 1;
    }
    v
}

// ---------------------------------------------------------------------------
// Decoding.

/// Whether the `dds` crate accepts the header that starts `stream`.
pub uninterp spec fn dds_header_accepted(stream: Seq<u8>) -> bool;

/// The width and height of each surface of a DDS stream whose header the
/// `dds` crate accepts, in the order in which the decoder reads them (they
/// follow from the header alone).
pub uninterp spec fn dds_surface_sizes(stream: Seq<u8>) -> Seq<(u32, u32)>;

/// Whether the `dds` crate decodes surface `k` of the stream, once the
/// surfaces before it were decoded.
pub uninterp spec fn dds_surface_decodes(stream: Seq<u8>, k: int) -> bool;

/// The pixels of surface `k` of the stream as the `dds` crate decodes them:
/// RGBA, eight bits per channel, row by row.
pub uninterp spec fn dds_surface_rgba(stream: Seq<u8>, k: int) -> Seq<u8>;

/// The stream a DDS decoder reads.
pub uninterp spec fn dds_decoder_stream(d: dds::Decoder<Cursor<Vec<u8>>>) -> Seq<u8>;

/// How many surfaces a DDS decoder has read so far.
pub uninterp spec fn dds_surfaces_read(d: dds::Decoder<Cursor<Vec<u8>>>) -> nat;

/// Whether the `image` crate's table of signatures knows the format of the
/// file that `bytes` start.
pub uninterp spec fn image_format_known(bytes: Seq<u8>) -> bool;

/// The format that the `image` crate's table of signatures finds for `bytes`.
pub uninterp spec fn guessed_image_format(bytes: Seq<u8>) -> ImageFileFormat;

/// Whether the `image` crate's built-in decoder for `format` decodes `bytes`.
pub uninterp spec fn image_decodes(bytes: Seq<u8>, format: ImageFileFormat) -> bool;

/// The image that the `image` crate's built-in decoder for `format` decodes
/// from `bytes`.
pub uninterp spec fn decoded_image(bytes: Seq<u8>, format: ImageFileFormat) -> image::DynamicImage;

/// The RGBA image of the given size over the given pixel bytes.
pub uninterp spec fn rgba_image_of(width: u32, height: u32, pixels: Seq<u8>) -> image::DynamicImage;

/// Whether an RGBA image of `width` by `height` fits a buffer of `len`
/// bytes, computed as the `image` crate does: `4 * width`, then times
/// `height`, each without overflowing `usize`.
pub open spec fn rgba_fits(width: u32, height: u32, len: int) -> bool {
    &&& 4 * width <= usize::MAX
    &&& 4 * width * height <= usize::MAX
    &&& 4 * width * height <= len
}

/// `dds::Decoder::new` over the bytes in memory: reads and checks the DDS
/// header. Whether it succeeds depends on the bytes alone; the new decoder has
/// read no surface.
#[verifier::external_body]
fn dds_decoder_new(stream: Vec<u8>) -> (r: Result<dds::Decoder<Cursor<Vec<u8>>>, dds::DecodingError>)
    ensures
        r is Ok == dds_header_accepted(stream@),
        r matches Ok(d) ==> dds_decoder_stream(d) == stream@ && dds_surfaces_read(d) == 0,
{
    dds::Decoder::new(Cursor::new(stream))
}

/// `dds::Decoder::surface_info`: the width and height of the next surface, or
/// `None` once every surface has been read.
#[verifier::external_body]
fn dds_next_surface_size(decoder: &dds::Decoder<Cursor<Vec<u8>>>) -> (r: Option<(u32, u32)>)
    ensures
        ({
            let sizes = dds_surface_sizes(dds_decoder_stream(*decoder));
            let k = dds_surfaces_read(*decoder);
            if k < sizes.len() {
                r == Some(sizes[k as int])
            } else {
                r is None
            }
        }),
{
    decoder.surface_info().map(|info| (info.size().width, info.size().height))
}

/// `dds::Decoder::read_surface`: decodes the next surface into `buf` as RGBA
/// with eight bits per channel (the zeroed buffer is handed over as an
/// `ImageViewMut` of the surface's size). On success the buffer holds the
/// surface's pixels and the decoder moves on to the next surface; nothing is
/// stated of the decoder after a failure.
#[verifier::external_body]
fn dds_read_surface(
    decoder: &mut dds::Decoder<Cursor<Vec<u8>>>,
    buf: &mut Vec<u8>,
    width: u32,
    height: u32,
) -> (r: Result<(), dds::DecodingError>)
    requires
        old(buf)@.len() == 4 * width * height,
        forall|i: int| 0 <= i < old(buf)@.len() ==> old(buf)@[i] == 0u8,
        dds_surfaces_read(*old(decoder)) < dds_surface_sizes(dds_decoder_stream(*old(decoder))).len(),
        dds_surface_sizes(dds_decoder_stream(*old(decoder)))[dds_surfaces_read(*old(decoder)) as int]
            == (width, height),
    ensures
        final(buf)@.len() == old(buf)@.len(),
        r is Ok == dds_surface_decodes(
            dds_decoder_stream(*old(decoder)),
            dds_surfaces_read(*old(decoder)) as int,
        ),
        r is Ok ==> final(buf)@ == dds_surface_rgba(
            dds_decoder_stream(*old(decoder)),
            dds_surfaces_read(*old(decoder)) as int,
        ) && dds_decoder_stream(*final(decoder)) == dds_decoder_stream(*old(decoder))
            && dds_surfaces_read(*final(decoder)) == dds_surfaces_read(*old(decoder)) + 1,
{
    let size = dds::Size::new(width, height);
    let view = dds::ImageViewMut::new(buf.as_mut_slice(), size, dds::ColorFormat::RGBA_U8).unwrap();
    decoder.read_surface(view)
}

/// `image::RgbaImage::from_vec`, as a `DynamicImage`: succeeds exactly when
/// the image fits the buffer as the `image` crate computes it.
#[verifier::external_body]
fn rgba_image(width: u32, height: u32, buf: Vec<u8>) -> (r: Option<image::DynamicImage>)
    ensures
        r is Some == rgba_fits(width, height, buf@.len() as int),
        r matches Some(img) ==> img == rgba_image_of(width, height, buf@),
{
    image::RgbaImage::from_vec(width, height, buf).map(image::DynamicImage::from)
}

/// `image::guess_format`: the format whose signature starts the bytes, looked
/// up in the `image` crate's built-in table; an error where none matches.
#[verifier::external_body]
fn guess_image_format(bytes: &[u8]) -> (r: Result<ImageFileFormat, image::ImageError>)
    ensures
        r is Ok == image_format_known(bytes@),
        r matches Ok(f) ==> f == guessed_image_format(bytes@),
{
    image::guess_format(bytes)
}

/// `image::load_from_memory_with_format`: decodes the bytes with the `image`
/// crate's built-in decoder for `format` (no decoding hook is consulted).
/// Whether it succeeds, and the image, depend on the bytes and the format
/// alone.
#[verifier::external_body]
fn decode_image_as(bytes: &[u8], format: ImageFileFormat) -> (r: Result<image::DynamicImage, image::ImageError>)
    ensures
        r is Ok == image_decodes(bytes@, format),
        r matches Ok(img) ==> img == decoded_image(bytes@, format),
{
    image::load_from_memory_with_format(bytes, format)
}

/// Whether an image chunk decodes: its format is found from its first bytes
/// and its decoder accepts it.
pub open spec fn chunk_decodes(bytes: Seq<u8>) -> bool {
    image_format_known(bytes) && image_decodes(bytes, guessed_image_format(bytes))
}

/// The image decoded from a chunk in the format found from its first bytes.
pub open spec fn chunk_image(bytes: Seq<u8>) -> image::DynamicImage {
    decoded_image(bytes, guessed_image_format(bytes))
}

/// Decodes an image chunk, finding its format from its first bytes.
fn decode_image(bytes: &[u8]) -> (r: Result<image::DynamicImage, image::ImageError>)
    ensures
        r is Ok == chunk_decodes(bytes@),
        r matches Ok(img) ==> img == chunk_image(bytes@),
{
    let format = match guess_image_format(bytes) {
        Ok(f) => f,
        Err(e) => return Err(e),
    };
    decode_image_as(bytes, format)
}

/// Whether surface `k` of the stream has a size whose RGBA image fits `usize`
/// and decodes.
pub open spec fn dds_surface_ok(stream: Seq<u8>, k: int) -> bool {
    let size = dds_surface_sizes(stream)[k];
    rgba_fits(size.0, size.1, 4 * size.0 * size.1) && dds_surface_decodes(stream, k)
}

/// Whether the header is accepted and every surface decodes.
pub open spec fn dds_surfaces_ok(stream: Seq<u8>) -> bool {
    &&& dds_header_accepted(stream)
    &&& forall|k: int|
        0 <= k < dds_surface_sizes(stream).len() ==> #[trigger] dds_surface_ok(stream, k)
}

/// The RGBA image of surface `k` of the stream.
pub open spec fn dds_surface_image(stream: Seq<u8>, k: int) -> image::DynamicImage {
    let size = dds_surface_sizes(stream)[k];
    rgba_image_of(size.0, size.1, dds_surface_rgba(stream, k))
}

/// Whether `e` is the error of decoding the stream: `DdsDecode` for a
/// rejected header, else by the first surface that fails, `Unknown` where its
/// image would not fit `usize` and `DdsDecode` where it does not decode.
pub open spec fn dds_failure(stream: Seq<u8>, e: PckErrorView) -> bool {
    if !dds_header_accepted(stream) {
        e is DdsDecode
    } else {
        exists|k: int|
            0 <= k < dds_surface_sizes(stream).len() && (forall|j: int|
                0 <= j < k ==> #[trigger] dds_surface_ok(stream, j)) && !#[trigger] dds_surface_ok(stream, k)
                && if !rgba_fits(
                dds_surface_sizes(stream)[k].0,
                dds_surface_sizes(stream)[k].1,
                4 * dds_surface_sizes(stream)[k].0 * dds_surface_sizes(stream)[k].1,
            ) {
                e is Unknown
            } else {
                e is DdsDecode
            }
    }
}

/// Decodes every surface of a DDS stream into an RGBA image, in order.
pub fn decode_dds_surfaces(stream: Vec<u8>) -> (r: Result<Vec<image::DynamicImage>, PckError>)
    ensures
        dds_surfaces_ok(stream@) ==> (r matches Ok(v) && v@.len() == dds_surface_sizes(stream@).len()
            && forall|k: int| 0 <= k < v@.len() ==> v@[k] == dds_surface_image(stream@, k)),
        !dds_surfaces_ok(stream@) ==> (r matches Err(e) && dds_failure(stream@, e@)),
{
    let ghost bytes = stream@;
    let mut decoder = match dds_decoder_new(stream) {
        Ok(d) => d,
        Err(e) => return Err(PckError::DdsDecode(e)),
    };
    let ghost sizes = dds_surface_sizes(bytes);
    let mut images: Vec<image::DynamicImage> = Vec::new();
    loop
        invariant
            bytes == stream@,
            dds_header_accepted(bytes),
            sizes == dds_surface_sizes(bytes),
            dds_decoder_stream(decoder) == bytes,
            dds_surfaces_read(decoder) == images@.len(),
            images@.len() <= sizes.len(),
            forall|j: int| 0 <= j < images@.len() ==> #[trigger] dds_surface_ok(bytes, j),
            forall|j: int| 0 <= j < images@.len() ==> images@[j] == dds_surface_image(bytes, j),
        decreases sizes.len() - images@.len(),
    {
        let (width, height) = match dds_next_surface_size(&decoder) {
            Some(s) => s,
            None => {
                assert(dds_surfaces_ok(bytes));
                return Ok(images);
            },
        };
        let ghost k = images@.len() as int;
        let len: usize = match 4usize.checked_mul(width as usize) {
            Some(p) => match p.checked_mul(height as usize) {
                Some(l) => l,
                None => {
                    assert(!dds_surface_ok(bytes, k));
                    assert(dds_failure(bytes, PckErrorView::Unknown));
                    return Err(PckError::Unknown);
                },
            },
            None => {
                assert(!dds_surface_ok(bytes, k));
                assert(dds_failure(bytes, PckErrorView::Unknown));
                return Err(PckError::Unknown);
            },
        };
        let mut buf: Vec<u8> = vec![0u8; len];
        match dds_read_surface(&mut decoder, &mut buf, width, height) {
            Ok(()) => {},
            Err(e) => {
                assert(!dds_surface_ok(bytes, k));
                assert(dds_failure(bytes, PckError::DdsDecode(e)@));
                return Err(PckError::DdsDecode(e));
            },
        }
        let image = match rgba_image(width, height, buf) {
            Some(image) => image,
            None => return Err(PckError::Unknown),
        };
        images.push(image);
        assert(dds_surface_ok(bytes, k));
    }
}

/// The message of the error for a DDS stream with the wrong number of surfaces.
pub open spec fn surface_mismatch_message(expected: nat, found: nat) -> Seq<char> {
    "surface count mismatch, expected "@ + decimal(expected) + " but expected "@ + decimal(found)
}

/// Checks that a block-compressed texture decoded into `expected` surfaces.
pub fn check_surface_count(expected: u32, found: usize) -> (r: Result<(), PckError>)
    ensures
        expected == found ==> r is Ok,
        expected != found ==> (r matches Err(PckError::InvalidValue(m)) && m@
            == surface_mismatch_message(expected as nat, found as nat)),
{
    if expected as u64 == found as u64 {
        return Ok(());
    }
    let mut msg = "surface count mismatch, expected ".to_owned();
    push_decimal(&mut msg, expected as u64);
    msg.append(" but expected ");
    push_decimal(&mut msg, found as u64);
    proof {
        reveal_strlit("surface count mismatch, expected ");
        reveal_strlit(" but expected ");
    }
    Err(PckError::InvalidValue(msg))
}

/// The images of the chunks from `pos` on: `n` chunks, each a 32-bit length
/// followed by that many bytes (fewer where the data ends), each decoded by
/// the `image` crate; or the error of the first chunk that fails.
pub open spec fn spec_image_chunks(d: Seq<u8>, pos: int, n: nat) -> Result<Seq<image::DynamicImage>, PckErrorView>
    decreases n,
{
    if n == 0 {
        Ok(Seq::empty())
    } else {
        match u32_ne_at(d, pos) {
            None => Err(eof()),
            Some(size) => if !chunk_decodes(clamped_bytes(d, pos + 4, size as int)) {
                Err(PckErrorView::Image)
            } else if pos + 4 + size > u64::MAX {
                Err(PckErrorView::Io(IoError::InvalidSeek))
            } else {
                match spec_image_chunks(d, pos + 4 + size, (n - 1) as nat) {
                    Ok(rest) => Ok(
                        seq![chunk_image(clamped_bytes(d, pos + 4, size as int))] + rest,
                    ),
                    Err(e) => Err(e),
                }
            },
        }
    }
}

proof fn lemma_image_chunks_len(d: Seq<u8>, pos: int, n: nat)
    ensures
        spec_image_chunks(d, pos, n) matches Ok(images) ==> images.len() == n,
    decreases n,
{
    if n > 0 {
        if let Some(size) = u32_ne_at(d, pos) {
            lemma_image_chunks_len(d, pos + 4 + size, (n - 1) as nat);
        }
    }
}

/// `done` followed by what the chunks from `pos` on give.
pub open spec fn chunks_after(
    done: Seq<image::DynamicImage>,
    r: Result<Seq<image::DynamicImage>, PckErrorView>,
) -> Result<Seq<image::DynamicImage>, PckErrorView> {
    match r {
        Ok(rest) => Ok(done + rest),
        Err(e) => Err(e),
    }
}

/// Decodes the `count` image chunks that follow the header.
fn decode_image_chunks(d: &[u8], count: u64) -> (r: Result<Vec<image::DynamicImage>, PckError>)
    ensures
        match spec_image_chunks(d@, TEXTURE_HEADER_LEN as int, count as nat) {
            Ok(images) => r matches Ok(v) && v@ == images,
            Err(e) => r matches Err(x) && x@ == e,
        },
{
    let len = d.len();
    let mut images: Vec<image::DynamicImage> = Vec::new();
    let mut pos: u64 = TEXTURE_HEADER_LEN;
    let mut i: u64 = 0;
    assert(images@ + Seq::<image::DynamicImage>::empty() =~= images@);
    while i < count
        invariant
            len == d@.len(),
            i <= count,
            spec_image_chunks(d@, TEXTURE_HEADER_LEN as int, count as nat) == chunks_after(
                images@,
                spec_image_chunks(d@, pos as int, (count - i) as nat),
            ),
        decreases count - i,
    {
        let size = match read_u32_ne(d, pos) {
            Some(s) => s,
            None => return Err(PckError::Io(IoError::UnexpectedEof)),
        };
        let chunk = slice_clamped(d, pos + 4, size as u64);
        let image = match decode_image(chunk) {
            Ok(image) => image,
            Err(e) => return Err(PckError::Image(e)),
        };
        let ghost before = images@;
        images.push(image);
        pos = match (pos + 4).checked_add(size as u64) {
            Some(p) => p,
            None => return Err(PckError::Io(IoError::InvalidSeek)),
        };
        i += 1;
        proof {
            match spec_image_chunks(d@, pos as int, (count - i) as nat) {
                Ok(rest) => {
                    assert(before + (seq![image] + rest) =~= images@ + rest);
                },
                Err(_) => {},
            }
        }
    }
    assert(images@ + Seq::<image::DynamicImage>::empty() =~= images@);
    Ok(images)
}

/// `format!`: the not-implemented message for a texture, naming what is not
/// implemented and the header in its `Debug` form (which is not stated).
#[verifier::external_body]
fn not_implemented_message(what: &str, header: &CompressedTexture2dHeader) -> (r: String)
    ensures
        exists|debug: Seq<char>| r@ == "CompressedTexture2d: "@ + what@ + " ("@ + debug + ")"@,
{
    format!("CompressedTexture2d: {what} ({header:?})")
}

/// Whether `m` is a not-implemented message about `what`.
pub open spec fn is_not_implemented_message(m: Seq<char>, what: Seq<char>) -> bool {
    exists|debug: Seq<char>| m == "CompressedTexture2d: "@ + what + " ("@ + debug + ")"@
}

/// A texture: its header and its images, the full-size one first and then one
/// per mipmap level.
#[derive(Debug)]
pub struct CompressedTexture2d {
    pub header: CompressedTexture2dHeader,
    pub images: Vec<image::DynamicImage>,
}

/// What loading the data after a valid header `h` gives, as far as it does not
/// rest on how the `dds` crate decodes surfaces.
pub open spec fn texture_body_is(d: Seq<u8>, h: CompressedTexture2dHeader, r: Result<CompressedTexture2d, PckError>) -> bool {
    &&& (r matches Ok(t) ==> t.header == h && t.images.len() == h.mipmaps + 1)
    &&& match h.data_format {
        CompressedTexture2dDataFormat::Image => if !is_block_compressed(h.image_format) {
            r matches Err(PckError::NotImplemented(m)) && is_not_implemented_message(
                m@,
                "image_format"@,
            )
        } else if h.mipmaps == u32::MAX {
            r matches Err(e) && e@ == PckErrorView::InvalidValue("mipmap_count"@)
        } else {
            let s = spec_dds_stream(d, h);
            let n = dds_surface_sizes(s).len();
            if !dds_surfaces_ok(s) {
                r matches Err(e) && dds_failure(s, e@)
            } else if n != h.mipmaps + 1 {
                r matches Err(e) && e@ == PckErrorView::InvalidValue(
                    surface_mismatch_message((h.mipmaps + 1) as nat, n),
                )
            } else {
                r matches Ok(t) && forall|k: int|
                    0 <= k < n ==> t.images@[k] == dds_surface_image(s, k)
            }
        },
        CompressedTexture2dDataFormat::BasisUniversal => r matches Err(PckError::NotImplemented(m))
            && is_not_implemented_message(m@, "data_format"@),
        _ => match spec_image_chunks(d, TEXTURE_HEADER_LEN as int, (h.mipmaps + 1) as nat) {
            Ok(images) => r matches Ok(t) && t.images@ == images,
            Err(e) => r matches Err(x) && x@ == e,
        },
    }
}

impl CompressedTexture2d {
    /// Reads a texture file.
    pub fn load(d: &[u8]) -> (r: Result<Self, PckError>)
        ensures
            match spec_texture_header(d@) {
                Err(e) => r matches Err(x) && x@ == e,
                Ok(h) => texture_body_is(d@, h, r),
            },
    {
        let header = match parse_texture_header(d) {
            Ok(h) => h,
            Err(e) => return Err(e),
        };
        match header.data_format {
            CompressedTexture2dDataFormat::Image => {
                if dxgi_format(header.image_format).is_none() {
                    let msg = not_implemented_message("image_format", &header);
                    proof {
                        reveal_strlit("image_format");
                    }
                    return Err(PckError::NotImplemented(msg));
                }
                if header.mipmaps == u32::MAX {
                    let msg = "mipmap_count".to_owned();
                    proof {
                        reveal_strlit("mipmap_count");
                    }
                    return Err(PckError::InvalidValue(msg));
                }
                let stream = dds_stream(d, &header);
                let images = match decode_dds_surfaces(stream) {
                    Ok(images) => images,
                    Err(e) => return Err(e),
                };
                match check_surface_count(header.mipmaps + 1, images.len()) {
                    Ok(()) => {},
                    Err(e) => return Err(e),
                }
                Ok(CompressedTexture2d { header, images })
            },
            CompressedTexture2dDataFormat::Png | CompressedTexture2dDataFormat::WebP => {
                proof {
                    lemma_image_chunks_len(d@, TEXTURE_HEADER_LEN as int, (header.mipmaps + 1) as nat);
                }
                let images = match decode_image_chunks(d, header.mipmaps as u64 + 1) {
                    Ok(images) => images,
                    Err(e) => return Err(e),
                };
                Ok(CompressedTexture2d { header, images })
            },
            CompressedTexture2dDataFormat::BasisUniversal => {
                let msg = not_implemented_message("data_format", &header);
                proof {
                    reveal_strlit("data_format");
                }
                Err(PckError::NotImplemented(msg))
            },
        }
    }
}


proof fn lemma_le_bytes_u32(x: u32)
    ensures
        le_bytes_u32(x).len() == 4,
        u32_le(le_bytes_u32(x)) == x,
{
    let b = le_bytes_u32(x);
    assert(b[0] as int == x % 0x100);
    assert(b[1] as int == (x / 0x100) % 0x100);
    assert(b[2] as int == (x / 0x1_0000) % 0x100);
    assert(b[3] as int == x / 0x100_0000);
}

/// The fields of a DDS header read back, as little-endian words at their
/// offsets, as the values it was made from; the header is 148 bytes long.
#[verifier::rlimit(100)]
#[verifier::spinoff_prover]
pub proof fn law_dds_header_fields(
    width: u32,
    height: u32,
    pitch: u32,
    surfaces: u32,
    caps: u32,
    dxgi: u32,
)
    ensures
        ({
            let h = spec_dds_header(width, height, pitch, surfaces, caps, dxgi);
            &&& h.len() == 148
            &&& h.subrange(0, 4) == seq![0x44u8, 0x44u8, 0x53u8, 0x20u8]
            &&& u32_le(h.subrange(4, 8)) == 124
            &&& u32_le(h.subrange(12, 16)) == height
            &&& u32_le(h.subrange(16, 20)) == width
            &&& u32_le(h.subrange(20, 24)) == pitch
            &&& u32_le(h.subrange(28, 32)) == surfaces
            &&& h.subrange(84, 88) == seq![0x44u8, 0x58u8, 0x31u8, 0x30u8]
            &&& u32_le(h.subrange(108, 112)) == caps
            &&& u32_le(h.subrange(128, 132)) == dxgi
            &&& u32_le(h.subrange(140, 144)) == 1
        }),
{
    let h = spec_dds_header(width, height, pitch, surfaces, caps, dxgi);
    lemma_le_bytes_u32(124);
    lemma_le_bytes_u32(0x21007);
    lemma_le_bytes_u32(height);
    lemma_le_bytes_u32(width);
    lemma_le_bytes_u32(pitch);
    lemma_le_bytes_u32(0);
    lemma_le_bytes_u32(surfaces);
    lemma_le_bytes_u32(32);
    lemma_le_bytes_u32(4);
    lemma_le_bytes_u32(caps);
    lemma_le_bytes_u32(dxgi);
    lemma_le_bytes_u32(3);
    lemma_le_bytes_u32(1);
    assert(h.len() == 148);
    assert(h.subrange(0, 4) =~= seq![0x44u8, 0x44u8, 0x53u8, 0x20u8]);
    assert(h.subrange(4, 8) =~= le_bytes_u32(124));
    assert(h.subrange(12, 16) =~= le_bytes_u32(height));
    assert(h.subrange(16, 20) =~= le_bytes_u32(width));
    assert(h.subrange(20, 24) =~= le_bytes_u32(pitch));
    assert(h.subrange(28, 32) =~= le_bytes_u32(surfaces));
    assert(h.subrange(84, 88) =~= seq![0x44u8, 0x58u8, 0x31u8, 0x30u8]);
    assert(h.subrange(108, 112) =~= le_bytes_u32(caps));
    assert(h.subrange(128, 132) =~= le_bytes_u32(dxgi));
    assert(h.subrange(140, 144) =~= le_bytes_u32(1));
}


/// The data formats of a texture are numbered as Godot numbers them: image
/// (0), PNG (1), WebP (2), Basis Universal (3); the only texture version is 1;
/// and a texture file starts with the bytes `GST2`, read as a big-endian word.
pub proof fn law_texture_numbers(v: u32)
    ensures
        data_format_of(0u32) == Some(CompressedTexture2dDataFormat::Image),
        data_format_of(1u32) == Some(CompressedTexture2dDataFormat::Png),
        data_format_of(2u32) == Some(CompressedTexture2dDataFormat::WebP),
        data_format_of(3u32) == Some(CompressedTexture2dDataFormat::BasisUniversal),
        v >= 4 ==> data_format_of(v) is None,
        texture_version_of(v) is Some <==> v == 1,
        u32_be(seq![0x47u8, 0x53u8, 0x54u8, 0x32u8]) == TEXTURE_MAGIC,
{
}

/// Each image format has the number of its place in Godot's list of image
/// formats, counted from 0 (`FORMAT_L8`) to 46 (`FORMAT_RGBA16I`); no other
/// number names a format, and no two formats share a number.
pub proof fn law_image_format_numbers(v: u32, w: u32)
    ensures
        image_format_of(0u32) == Some(ImageFormat::FORMAT_L8),
        image_format_of(1u32) == Some(ImageFormat::FORMAT_LA8),
        image_format_of(2u32) == Some(ImageFormat::FORMAT_R8),
        image_format_of(3u32) == Some(ImageFormat::FORMAT_RG8),
        image_format_of(4u32) == Some(ImageFormat::FORMAT_RGB8),
        image_format_of(5u32) == Some(ImageFormat::FORMAT_RGBA8),
        image_format_of(6u32) == Some(ImageFormat::FORMAT_RGBA4444),
        image_format_of(7u32) == Some(ImageFormat::FORMAT_RGB565),
        image_format_of(8u32) == Some(ImageFormat::FORMAT_RF),
        image_format_of(9u32) == Some(ImageFormat::FORMAT_RGF),
        image_format_of(10u32) == Some(ImageFormat::FORMAT_RGBF),
        image_format_of(11u32) == Some(ImageFormat::FORMAT_RGBAF),
        image_format_of(12u32) == Some(ImageFormat::FORMAT_RH),
        image_format_of(13u32) == Some(ImageFormat::FORMAT_RGH),
        image_format_of(14u32) == Some(ImageFormat::FORMAT_RGBH),
        image_format_of(15u32) == Some(ImageFormat::FORMAT_RGBAH),
        image_format_of(16u32) == Some(ImageFormat::FORMAT_RGBE9995),
        image_format_of(17u32) == Some(ImageFormat::FORMAT_DXT1),
        image_format_of(18u32) == Some(ImageFormat::FORMAT_DXT3),
        image_format_of(19u32) == Some(ImageFormat::FORMAT_DXT5),
        image_format_of(20u32) == Some(ImageFormat::FORMAT_RGTC_R),
        image_format_of(21u32) == Some(ImageFormat::FORMAT_RGTC_RG),
        image_format_of(22u32) == Some(ImageFormat::FORMAT_BPTC_RGBA),
        image_format_of(23u32) == Some(ImageFormat::FORMAT_BPTC_RGBF),
        image_format_of(24u32) == Some(ImageFormat::FORMAT_BPTC_RGBFU),
        image_format_of(25u32) == Some(ImageFormat::FORMAT_ETC),
        image_format_of(26u32) == Some(ImageFormat::FORMAT_ETC2_R11),
        image_format_of(27u32) == Some(ImageFormat::FORMAT_ETC2_R11S),
        image_format_of(28u32) == Some(ImageFormat::FORMAT_ETC2_RG11),
        image_format_of(29u32) == Some(ImageFormat::FORMAT_ETC2_RG11S),
        image_format_of(30u32) == Some(ImageFormat::FORMAT_ETC2_RGB8),
        image_format_of(31u32) == Some(ImageFormat::FORMAT_ETC2_RGBA8),
        image_format_of(32u32) == Some(ImageFormat::FORMAT_ETC2_RGB8A1),
        image_format_of(33u32) == Some(ImageFormat::FORMAT_ETC2_RA_AS_RG),
        image_format_of(34u32) == Some(ImageFormat::FORMAT_DXT5_RA_AS_RG),
        image_format_of(35u32) == Some(ImageFormat::FORMAT_ASTC_4x4),
        image_format_of(36u32) == Some(ImageFormat::FORMAT_ASTC_4x4_HDR),
        image_format_of(37u32) == Some(ImageFormat::FORMAT_ASTC_8x8),
        image_format_of(38u32) == Some(ImageFormat::FORMAT_ASTC_8x8_HDR),
        image_format_of(39u32) == Some(ImageFormat::FORMAT_R16),
        image_format_of(40u32) == Some(ImageFormat::FORMAT_RG16),
        image_format_of(41u32) == Some(ImageFormat::FORMAT_RGB16),
        image_format_of(42u32) == Some(ImageFormat::FORMAT_RGBA16),
        image_format_of(43u32) == Some(ImageFormat::FORMAT_R16I),
        image_format_of(44u32) == Some(ImageFormat::FORMAT_RG16I),
        image_format_of(45u32) == Some(ImageFormat::FORMAT_RGB16I),
        image_format_of(46u32) == Some(ImageFormat::FORMAT_RGBA16I),
        v >= 47 ==> image_format_of(v) is None,
        image_format_of(v) is Some && image_format_of(v) == image_format_of(w) ==> v == w,
{
}

/// The DXGI format that the DDS header of a block-compressed texture names:
/// BC1 (71) for DXT1, BC2 (74) for DXT3, BC3 (77) for DXT5, BC4 (80) for
/// RGTC_R, BC5 (83) for RGTC_RG, BC7 (98) for BPTC_RGBA, BC6H signed (96) for
/// BPTC_RGBF and BC6H unsigned (95) for BPTC_RGBFU; no other format is
/// block-compressed.
pub proof fn law_dxgi_formats(f: ImageFormat)
    ensures
        dxgi_format_of(ImageFormat::FORMAT_DXT1) == Some(71u32),
        dxgi_format_of(ImageFormat::FORMAT_DXT3) == Some(74u32),
        dxgi_format_of(ImageFormat::FORMAT_DXT5) == Some(77u32),
        dxgi_format_of(ImageFormat::FORMAT_RGTC_R) == Some(80u32),
        dxgi_format_of(ImageFormat::FORMAT_RGTC_RG) == Some(83u32),
        dxgi_format_of(ImageFormat::FORMAT_BPTC_RGBA) == Some(98u32),
        dxgi_format_of(ImageFormat::FORMAT_BPTC_RGBF) == Some(96u32),
        dxgi_format_of(ImageFormat::FORMAT_BPTC_RGBFU) == Some(95u32),
        is_block_compressed(f) <==> (f == ImageFormat::FORMAT_DXT1 || f
            == ImageFormat::FORMAT_DXT3 || f == ImageFormat::FORMAT_DXT5 || f
            == ImageFormat::FORMAT_RGTC_R || f == ImageFormat::FORMAT_RGTC_RG || f
            == ImageFormat::FORMAT_BPTC_RGBA || f == ImageFormat::FORMAT_BPTC_RGBF || f
            == ImageFormat::FORMAT_BPTC_RGBFU),
{
}

/// The DDS stream of a block-compressed texture names its DXGI format at byte
/// 128, as a little-endian word: 77 (BC3) for a DXT5 texture.
#[verifier::spinoff_prover]
pub proof fn law_dds_stream_dxgi(d: Seq<u8>, h: CompressedTexture2dHeader)
    requires
        d.len() >= TEXTURE_HEADER_LEN,
        is_block_compressed(h.image_format),
    ensures
        u32_le(spec_dds_stream(d, h).subrange(128, 132)) == dxgi_format_of(h.image_format).unwrap(),
        h.image_format == ImageFormat::FORMAT_DXT5 ==> u32_le(
            spec_dds_stream(d, h).subrange(128, 132),
        ) == 77,
{
    let remaining = d.len() - TEXTURE_HEADER_LEN;
    let dxgi = dxgi_format_of(h.image_format).unwrap();
    let pitch = (remaining % 0x1_0000_0000) as u32;
    let hd = spec_dds_header(h.width, h.height, pitch, (h.mipmaps + 1) as u32, dds_caps(h.mipmaps), dxgi);
    law_dds_header_fields(h.width, h.height, pitch, (h.mipmaps + 1) as u32, dds_caps(h.mipmaps), dxgi);
    let st = spec_dds_stream(d, h);
    assert(st.subrange(128, 132) =~= hd.subrange(128, 132));
}

} // verus!
