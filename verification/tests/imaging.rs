use a3_paa::cfgfile::{
    construct_ident, parse_file, parse_ident, stopped_at, parse_ident_with_ws, parse_multi_line_comment,
    parse_property, parse_single_line_comment, parse_value, ConfigIdent, ConfigNode,
    ConfigProperty, ConfigValue,
};
use a3_paa::texconvert::{
    close_of, contains_text, find_hints, into_settings, name_to_suffix, prop_bool, prop_text,
    try_parse_texconvert,
};
use a3_paa::decode::PaaDecoder;
use a3_paa::dxt::{compress_blocks, decompress_blocks, BlockCodec};
use a3_paa::encode::{PaaEncoder, TextureEncodingSettings};
use a3_paa::error::PaaError;
use a3_paa::hints::{same_text, suffix_of_stem, TextureHints};
use a3_paa::image::PaaImage;
use a3_paa::mipmap::{PaaMipmap, PaaMipmapCompression};
use a3_paa::names::{same_name, TextureErrorMetrics, TextureMipmapFilter};
use a3_paa::paatype::PaaType;
use a3_paa::pixel::Bgra8888Pixel;
use a3_paa::raster::{construct_mipmap_series, hint_mipmap_count, ResizeFilter, RgbaImage};
use a3_paa::swizzle::{
    is_space, ArgbSwizzle, ChannelSwizzle, ChannelSwizzleData, ChannelSwizzleFill, ChannelSwizzleId,
};
use a3_paa::tagg::{Tagg, Transparency};

fn uniform(width: u32, height: u32, pixel: [u8; 4]) -> RgbaImage {
    let mut data = Vec::new();
    for _ in 0..width * height {
        data.extend_from_slice(&pixel);
    }
    RgbaImage::from_vec(width, height, data).unwrap()
}

fn gradient(width: u32, height: u32) -> RgbaImage {
    let mut data = Vec::new();
    for y in 0..height {
        for x in 0..width {
            data.extend_from_slice(&[(x * 17 % 256) as u8, (y * 17 % 256) as u8, 0x99, 0xFF]);
        }
    }
    RgbaImage::from_vec(width, height, data).unwrap()
}

#[test]
fn test_hint_mipmap_count() {
    assert_eq!(hint_mipmap_count((800, 1000), 6), 8);
    assert_eq!(hint_mipmap_count((1080, 2160), 30), 6);
}

#[test]
fn mipmap_count_hints_at_the_edges() {
    assert_eq!(hint_mipmap_count((1, 1), 1), 1);
    assert_eq!(hint_mipmap_count((2, 2), 1), 1);
    assert_eq!(hint_mipmap_count((3, 9), 1), 2);
    assert_eq!(hint_mipmap_count((1024, 512), 1), 9);
    assert_eq!(hint_mipmap_count((5, 5), 100), 1);
    assert_eq!(hint_mipmap_count((0, 5), 3), 1);
    assert_eq!(hint_mipmap_count((0, 0), 0), 1);
    assert_eq!(hint_mipmap_count((7, 9), 0), usize::MAX);
    assert_eq!(hint_mipmap_count((u32::MAX, u32::MAX), 1), 32);
    assert_eq!(hint_mipmap_count((u32::MAX, u32::MAX), u32::MAX), 1);
}

#[test]
fn parse_swizzle() {
    for c in ["a", "R", "G", "b"] {
        let src_pos = format!("             {}", c);
        let src_neg = format!("  1 -  {} ", c);
        assert_eq!(
            ChannelSwizzleData::from_str(&src_pos).unwrap(),
            ChannelSwizzleData::Source {
                neg_flag: false,
                source: ChannelSwizzleId::from_str(c).unwrap()
            }
        );
        assert_eq!(
            ChannelSwizzleData::from_str(&src_neg).unwrap(),
            ChannelSwizzleData::Source {
                neg_flag: true,
                source: ChannelSwizzleId::from_str(c).unwrap()
            }
        );
    }
    assert_eq!(
        ChannelSwizzleData::from_str(" 0 ").unwrap(),
        ChannelSwizzleData::Fill { value: ChannelSwizzleFill::Fill00 }
    );
    assert_eq!(
        ChannelSwizzleData::from_str("1   ").unwrap(),
        ChannelSwizzleData::Fill { value: ChannelSwizzleFill::FillFF }
    );
}

#[test]
fn swizzle_texts_that_are_no_rule() {
    for text in ["", "  ", "X", "AR", "1-", "1-X", "2", "-A", "1-AA", "1 1", "A-1", "01"] {
        assert_eq!(
            ChannelSwizzleData::from_str(text),
            Err(PaaError::InvalidSwizzleString(String::from(text)))
        );
    }
    assert_eq!(
        ChannelSwizzle::parse_data_with_target("nope", ChannelSwizzleId::Red),
        Err(PaaError::InvalidSwizzleString(String::from("nope")))
    );
    assert_eq!(
        ArgbSwizzle::parse_argb("A", "R", "?", "??"),
        Err(PaaError::InvalidSwizzleString(String::from("?")))
    );
    assert_eq!(
        ChannelSwizzleId::from_str("AR"),
        Err(PaaError::InvalidChannelSwizzleIdString(String::from("AR")))
    );
    assert_eq!(
        ChannelSwizzleId::from_str("x"),
        Err(PaaError::InvalidChannelSwizzleIdString(String::from("x")))
    );
    assert_eq!(ChannelSwizzleData::from_str("\u{a0}1\u{2003}-\tg\n").unwrap(), ChannelSwizzleData::Source {
        neg_flag: true,
        source: ChannelSwizzleId::Green
    });
    assert!(is_space(' ') && is_space('\u{3000}') && !is_space('x') && !is_space('\u{200b}'));
}

#[test]
fn swizzle_rules_map_pixels() {
    let swiz = ArgbSwizzle::parse_argb("A", "R", "1", "1-B").unwrap();
    assert!(matches!(swiz.g.data, ChannelSwizzleData::Fill { value: ChannelSwizzleFill::FillFF }));
    assert_eq!(swiz.to_rgba8_map(&[0x11, 0x22, 0x33, 0x44]), [0x11, 0xFF, 0xCC, 0x44]);

    let pix_i = [0x11u8, 0x22, 0x33, 0x44];
    assert_eq!(ArgbSwizzle::new().to_rgba8_map(&pix_i), pix_i);
    assert!(ArgbSwizzle::new().is_noop());
    assert!(ArgbSwizzle::default().is_noop());
    assert!(!swiz.is_noop());

    let sky = ArgbSwizzle::parse_argb("1-G", "R", "1-A", "B").unwrap();
    assert_eq!(sky.to_rgba8_map(&[10, 20, 30, 40]), [10, 215, 30, 235]);

    let swiz_alpha = ChannelSwizzle::parse_data_with_target("1-G", ChannelSwizzleId::Alpha).unwrap();
    assert_eq!(swiz_alpha.target, ChannelSwizzleId::Alpha);
    assert_eq!(
        swiz_alpha.data,
        ChannelSwizzleData::Source { neg_flag: true, source: ChannelSwizzleId::Green }
    );

    let pixel_in = [0x00u8, 0x00, 0x00, 0x00];
    let mut pixel_out = pixel_in;
    ChannelSwizzle::parse_data_with_target("1", ChannelSwizzleId::Green)
        .unwrap()
        .to_subpixel_map(&pixel_in, &mut pixel_out);
    assert_eq!(pixel_out[ChannelSwizzleId::Green.as_rgba_index()], 0xFF);
    assert_eq!(pixel_out, [0, 0xFF, 0, 0]);

    let data = ChannelSwizzleData::Source { neg_flag: false, source: ChannelSwizzleId::Red };
    assert!(ChannelSwizzle { target: ChannelSwizzleId::Red, data }.is_noop());
    assert!(!ChannelSwizzle { target: ChannelSwizzleId::Blue, data }.is_noop());
    assert!(ChannelSwizzle::with_target(ChannelSwizzleId::Alpha).is_noop());
}

#[test]
fn swizzle_bytes() {
    let swiz = ArgbSwizzle::parse_argb("1-R", "1-A", "G", "B").unwrap();
    assert_eq!(swiz.to_bytes(), [5, 4, 2, 3]);
    assert_eq!(ArgbSwizzle::from_bytes(&[5, 4, 2, 3]), Some(swiz));
    assert_eq!(ArgbSwizzle::new().to_bytes(), [0, 1, 2, 3]);
    let fills = ArgbSwizzle::parse_argb("0", "1", "1-B", "A").unwrap();
    assert_eq!(fills.to_bytes(), [9, 8, 7, 0]);
    assert_eq!(ArgbSwizzle::from_bytes(&[9, 8, 7, 0]), Some(fills));
    assert_eq!(ArgbSwizzle::from_bytes(&[0, 1, 2, 0x0B]), None);
    for byte in 0..=255u8 {
        if let Some(rule) = ChannelSwizzleData::from_byte(byte) {
            assert_eq!(ChannelSwizzleData::from_byte(rule.to_byte()), Some(rule));
            assert!(rule.to_byte() < 16);
        } else {
            assert!(byte % 16 >= 10 && byte % 4 >= 2);
        }
    }
    for id in [ChannelSwizzleId::Alpha, ChannelSwizzleId::Red, ChannelSwizzleId::Green, ChannelSwizzleId::Blue] {
        assert_eq!(ChannelSwizzleId::from_code(id.to_code()), id);
    }
    assert_eq!(ChannelSwizzleFill::FillFF.byte(), 0xFF);
    assert_eq!(ChannelSwizzleFill::Fill00.byte(), 0x00);
}

#[test]
fn images_hold_four_bytes_per_pixel() {
    assert!(RgbaImage::from_vec(2, 2, vec![0; 16]).is_some());
    assert!(RgbaImage::from_vec(2, 2, vec![0; 15]).is_none());
    assert!(RgbaImage::from_vec(2, 2, vec![0; 17]).is_none());
    assert!(RgbaImage::from_vec(0, 9, vec![]).is_some());
    assert!(RgbaImage::from_vec(u32::MAX, u32::MAX, vec![]).is_none());
    let image = gradient(3, 2);
    assert_eq!(image.dimensions(), (3, 2));
    assert_eq!((image.width(), image.height()), (3, 2));
    assert_eq!(image.pixel_count(), 6);
    assert_eq!(image.pixel(4), [17, 17, 0x99, 0xFF]);
    assert_eq!(image.as_raw().len(), 24);
    let copy = image.clone();
    assert_eq!(copy.as_raw(), image.as_raw());
    assert_eq!(image.first_pixel_image().into_raw(), vec![0, 0, 0x99, 0xFF]);
    let none = RgbaImage::from_vec(0, 0, vec![]).unwrap();
    assert_eq!(none.first_pixel_image().dimensions(), (0, 0));
}

#[test]
fn colour_statistics() {
    let image = RgbaImage::from_vec(2, 2, vec![
        10, 0, 255, 4,
        20, 0, 255, 3,
        30, 0, 254, 2,
        41, 1, 255, 1,
    ]).unwrap();
    let (avg, max) = image.get_avgc_maxc();
    assert_eq!(avg, Bgra8888Pixel { r: 25, g: 0, b: 254, a: 2 });
    assert_eq!(max, Bgra8888Pixel { r: 41, g: 1, b: 255, a: 4 });
    assert!(!image.is_solid_color());
    assert!(uniform(5, 3, [1, 2, 3, 4]).is_solid_color());
    assert!(RgbaImage::from_vec(0, 0, vec![]).unwrap().is_solid_color());
    let almost = RgbaImage::from_vec(2, 1, vec![1, 2, 3, 4, 1, 2, 3, 5]).unwrap();
    assert!(!almost.is_solid_color());
    let none = RgbaImage::from_vec(0, 7, vec![]).unwrap();
    assert_eq!(none.get_avgc_maxc(), (Bgra8888Pixel::default(), Bgra8888Pixel::default()));
}

#[test]
fn swizzle_is_applied_to_every_pixel() {
    let mut image = RgbaImage::from_vec(2, 1, vec![10, 20, 30, 40, 1, 2, 3, 4]).unwrap();
    let sky = ArgbSwizzle::parse_argb("1-G", "R", "1-A", "B").unwrap();
    sky.apply_to_image(&mut image);
    assert_eq!(image.dimensions(), (2, 1));
    assert_eq!(image.as_raw(), &vec![10, 215, 30, 235, 1, 251, 3, 253]);
    let before = image.clone();
    ArgbSwizzle::new().apply_to_image(&mut image);
    assert_eq!(image.as_raw(), before.as_raw());
}

#[test]
fn series_halves_down_to_the_smallest_side() {
    let series = construct_mipmap_series(gradient(20, 12), 1, ResizeFilter::Triangle);
    let dims: Vec<(u32, u32)> = series.iter().map(|i| i.dimensions()).collect();
    assert_eq!(dims, vec![(20, 12), (10, 6), (5, 3), (2, 1)]);
    assert_eq!(series[0].as_raw(), gradient(20, 12).as_raw());
    for image in &series {
        assert_eq!(image.as_raw().len() as u32, 4 * image.width() * image.height());
    }
    let series = construct_mipmap_series(gradient(20, 12), 4, ResizeFilter::Nearest);
    let dims: Vec<(u32, u32)> = series.iter().map(|i| i.dimensions()).collect();
    assert_eq!(dims, vec![(20, 12), (10, 6)]);
    assert!(construct_mipmap_series(gradient(3, 3), 4, ResizeFilter::Triangle).is_empty());
    assert!(construct_mipmap_series(RgbaImage::from_vec(0, 0, vec![]).unwrap(), 1, ResizeFilter::Triangle).is_empty());
    let flat = construct_mipmap_series(uniform(8, 8, [40, 80, 120, 255]), 1, ResizeFilter::Triangle);
    assert_eq!(flat.len(), 4);
    assert_eq!(flat[1].as_raw()[..4], [40, 80, 120, 255]);
    assert_ne!(flat[1].as_raw().len(), flat[0].as_raw().len());
}

#[test]
fn block_codec_adapter() {
    assert_eq!(BlockCodec::of(PaaType::Dxt1), Some(BlockCodec::Bc1));
    assert_eq!(BlockCodec::of(PaaType::Dxt2), Some(BlockCodec::Bc2));
    assert_eq!(BlockCodec::of(PaaType::Dxt3), Some(BlockCodec::Bc2));
    assert_eq!(BlockCodec::of(PaaType::Dxt4), Some(BlockCodec::Bc3));
    assert_eq!(BlockCodec::of(PaaType::Dxt5), Some(BlockCodec::Bc3));
    assert_eq!(BlockCodec::of(PaaType::Argb8888), None);
    assert_eq!(BlockCodec::Bc1.compressed_size(16, 32), Some(256));
    assert_eq!(BlockCodec::Bc1.compressed_size(15, 32), Some(256));
    assert_eq!(BlockCodec::Bc3.compressed_size(16, 32), Some(512));
    assert_eq!(BlockCodec::Bc2.compressed_size(1, 1), Some(16));
    assert_eq!((BlockCodec::Bc1.ratio(), BlockCodec::Bc2.ratio(), BlockCodec::Bc3.ratio()), (8, 4, 4));
    assert_eq!((BlockCodec::Bc1.block_size(), BlockCodec::Bc3.block_size()), (8, 16));

    let black = decompress_blocks(PaaType::Dxt1, &[0u8; 8], 4, 4).unwrap();
    assert_eq!(black.len(), 64);
    for pixel in black.chunks(4) {
        assert_eq!(pixel, &[0, 0, 0, 255]);
    }
    let white_block: Vec<u8> = vec![0xFF, 0xFF, 0xFF, 0xFF, 0, 0, 0, 0];
    let white = decompress_blocks(PaaType::Dxt1, &white_block, 4, 4).unwrap();
    assert_eq!(&white[..4], &[255, 255, 255, 255]);
    assert_ne!(white, white_block);

    let flat = uniform(8, 4, [255, 255, 255, 255]);
    let packed = compress_blocks(PaaType::Dxt5, flat.as_raw(), 8, 4).unwrap();
    assert_eq!(packed.len(), 32);
    assert_eq!(&decompress_blocks(PaaType::Dxt5, &packed, 8, 4).unwrap(), flat.as_raw());
    let packed = compress_blocks(PaaType::Dxt1, flat.as_raw(), 8, 4).unwrap();
    assert_eq!(packed.len(), 16);
}

#[test]
fn block_codec_adapter_errors() {
    assert_eq!(compress_blocks(PaaType::Argb4444, &[0; 64], 4, 4), Err(PaaError::UnsupportedPixelFormat));
    assert_eq!(compress_blocks(PaaType::Dxt5, &[0; 16], 2, 2), Err(PaaError::UnexpectedMipmapDimensions));
    assert_eq!(compress_blocks(PaaType::Dxt5, &[0; 192], 12, 4), Err(PaaError::UnexpectedMipmapDimensions));
    assert_eq!(compress_blocks(PaaType::Dxt5, &[], 0, 4), Err(PaaError::UnexpectedMipmapDimensions));
    assert_eq!(
        compress_blocks(PaaType::Dxt5, &[0; 63], 4, 4),
        Err(PaaError::UnexpectedMipmapDataSize(4, 4, 63))
    );
    assert_eq!(decompress_blocks(PaaType::Ai88, &[0; 16], 4, 4), Err(PaaError::UnsupportedPixelFormat));
    assert_eq!(decompress_blocks(PaaType::Dxt5, &[0; 16], 0, 4), Err(PaaError::EmptyMipmap));
    assert_eq!(
        decompress_blocks(PaaType::Dxt5, &[0; 15], 4, 4),
        Err(PaaError::UnexpectedMipmapDataSize(4, 4, 15))
    );
    assert_eq!(
        decompress_blocks(PaaType::Dxt5, &[0; 4], 2, 2),
        Err(PaaError::UnexpectedMipmapDataSize(2, 2, 4))
    );
    assert!(decompress_blocks(PaaType::Dxt5, &[0; 16], 2, 2).is_ok());
}

#[test]
fn mipmaps_decode_to_images() {
    let packed = PaaMipmap {
        width: 1,
        height: 2,
        paatype: PaaType::Argb4444,
        compression: PaaMipmapCompression::Lzss,
        data: vec![0x69, 0xF3, 0x00, 0x0F],
    };
    let image = packed.decode().unwrap();
    assert_eq!(image.dimensions(), (1, 2));
    assert_eq!(image.as_raw(), &vec![0x33, 0x66, 0x99, 0xFF, 0xFF, 0, 0, 0]);

    let wide = PaaMipmap {
        width: 2,
        height: 1,
        paatype: PaaType::Argb8888,
        compression: PaaMipmapCompression::Lzss,
        data: vec![1, 2, 3, 4, 5, 6, 7, 8],
    };
    assert_eq!(wide.decode().unwrap().as_raw(), &vec![4, 3, 2, 1, 8, 7, 6, 5]);

    let blocks = PaaMipmap {
        width: 4,
        height: 4,
        paatype: PaaType::Dxt1,
        compression: PaaMipmapCompression::Uncompressed,
        data: vec![0; 8],
    };
    assert_eq!(blocks.decode().unwrap().pixel(15), [0, 0, 0, 255]);
}

#[test]
fn mipmaps_that_do_not_decode() {
    let empty = PaaMipmap::default();
    assert_eq!(empty.decode().err(), Some(PaaError::EmptyMipmap));
    let grey = PaaMipmap {
        width: 1,
        height: 1,
        paatype: PaaType::Ai88,
        compression: PaaMipmapCompression::Lzss,
        data: vec![0, 0],
    };
    assert_eq!(grey.decode().err(), Some(PaaError::UnsupportedPixelFormat));
    let indexed = PaaMipmap { paatype: PaaType::IndexPalette, data: vec![0], ..grey.clone() };
    assert_eq!(indexed.decode().err(), Some(PaaError::UnsupportedPixelFormat));
    let short = PaaMipmap { paatype: PaaType::Argb1555, data: vec![0], ..grey.clone() };
    assert_eq!(short.decode().err(), Some(PaaError::UnexpectedMipmapDataSize(1, 1, 1)));
    let blocks = PaaMipmap {
        width: 8,
        height: 8,
        paatype: PaaType::Dxt5,
        compression: PaaMipmapCompression::Uncompressed,
        data: vec![0; 63],
    };
    assert_eq!(blocks.decode().err(), Some(PaaError::UnexpectedMipmapDataSize(8, 8, 63)));
}

#[test]
fn images_encode_to_mipmaps() {
    let image = uniform(2, 1, [0x33, 0x66, 0x99, 0xFF]);
    let m = PaaMipmap::encode(PaaType::Argb4444, &image).unwrap();
    assert_eq!(m, PaaMipmap {
        width: 2,
        height: 1,
        paatype: PaaType::Argb4444,
        compression: PaaMipmapCompression::Lzss,
        data: vec![0x69, 0xF3, 0x69, 0xF3],
    });
    let m = PaaMipmap::encode(PaaType::Argb8888, &image).unwrap();
    assert_eq!(m.data, vec![0xFF, 0x99, 0x66, 0x33, 0xFF, 0x99, 0x66, 0x33]);
    let m = PaaMipmap::encode(PaaType::Argb1555, &image).unwrap();
    assert_eq!(m.data.len(), 4);
    let big = PaaMipmap::encode(PaaType::Dxt5, &uniform(256, 256, [9, 9, 9, 255])).unwrap();
    assert_eq!(big.compression, PaaMipmapCompression::Lzo);
    assert_eq!(big.data.len(), 65536);
    assert!(big.validate().is_ok());
    let small = PaaMipmap::encode(PaaType::Dxt1, &uniform(8, 8, [9, 9, 9, 255])).unwrap();
    assert_eq!((small.compression, small.data.len()), (PaaMipmapCompression::Uncompressed, 32));
    let shaded = gradient(8, 4);
    for format in [PaaType::Dxt1, PaaType::Dxt3, PaaType::Dxt5] {
        let m = PaaMipmap::encode(format, &shaded).unwrap();
        assert_eq!(m.data, compress_blocks(format, shaded.as_raw(), 8, 4).unwrap());
        assert_ne!(&m.data[..], &shaded.as_raw()[..m.data.len()]);
    }

    assert_eq!(
        PaaMipmap::encode(PaaType::Dxt5, &uniform(2, 2, [0; 4])),
        Err(PaaError::UnexpectedMipmapDimensions)
    );
    assert_eq!(
        PaaMipmap::encode(PaaType::Ai88, &uniform(2, 2, [0; 4])),
        Err(PaaError::UnsupportedPixelFormat)
    );
    assert_eq!(
        PaaMipmap::encode(PaaType::Argb8888, &RgbaImage::from_vec(65536, 0, vec![]).unwrap()),
        Err(PaaError::MipmapTooLarge)
    );
}

#[test]
fn encoder_makes_a_container_that_decodes() {
    let source = gradient(8, 4);
    let settings = TextureEncodingSettings { format: PaaType::Argb4444, ..Default::default() };
    let paa = PaaEncoder::with_image_and_settings(source.clone(), settings).encode().unwrap();
    assert_eq!(paa.paatype, PaaType::Argb4444);
    assert!(paa.palette.is_none());
    let (avg, max) = source.get_avgc_maxc();
    assert_eq!(paa.taggs, vec![Tagg::Avgc { rgba: avg }, Tagg::Maxc { rgba: max }]);
    assert_eq!(paa.mipmaps.len(), 3);
    let dims: Vec<(u16, u16)> =
        paa.mipmaps.iter().map(|m| m.as_ref().map(|m| (m.width, m.height)).unwrap()).collect();
    assert_eq!(dims, vec![(8, 4), (4, 2), (2, 1)]);

    let bytes = paa.to_bytes().unwrap();
    let back = PaaImage::from_bytes(&bytes).unwrap();
    assert_eq!(back.mipmaps, paa.mipmaps);
    let decoder = PaaDecoder::with_paa(back);
    let first = decoder.decode_first().unwrap();
    assert_eq!(first.dimensions(), (8, 4));
    assert_eq!(first.as_raw(), source.as_raw());
    assert_eq!(decoder.decode_nth(2).unwrap().dimensions(), (2, 1));
    assert_eq!(decoder.decode_nth(3).err(), Some(PaaError::MipmapIndexOutOfRange));
}

#[test]
fn encoder_applies_settings() {
    let flat = uniform(16, 16, [10, 20, 30, 40]);
    let swizzle = ArgbSwizzle::parse_argb("1-G", "R", "1-A", "B").unwrap();
    let reduce = TextureEncodingSettings {
        format: PaaType::Argb8888,
        autoreduce: true,
        swizzle,
        ..Default::default()
    };
    let paa = PaaEncoder::with_image_and_settings(flat.clone(), reduce).encode().unwrap();
    assert_eq!(paa.mipmaps.len(), 1);
    let only = paa.mipmaps[0].as_ref().unwrap();
    assert_eq!((only.width, only.height), (1, 1));
    assert_eq!(only.data, vec![235, 30, 215, 10]);
    let colour = Bgra8888Pixel { r: 10, g: 20, b: 30, a: 40 };
    assert_eq!(paa.taggs, vec![Tagg::Avgc { rgba: colour }, Tagg::Maxc { rgba: colour }]);

    let keep = TextureEncodingSettings { autoreduce: false, ..reduce };
    let paa = PaaEncoder::with_image_and_settings(flat, keep).encode().unwrap();
    assert_eq!(paa.mipmaps.len(), 5);
    let swizzled = Bgra8888Pixel { r: 10, g: 215, b: 30, a: 235 };
    assert_eq!(paa.taggs, vec![Tagg::Avgc { rgba: swizzled }, Tagg::Maxc { rgba: swizzled }]);

    let blocks = TextureEncodingSettings::default();
    assert_eq!(blocks.format, PaaType::Dxt5);
    let paa = PaaEncoder::with_image_and_settings(uniform(8, 8, [1, 2, 3, 255]), blocks).encode().unwrap();
    assert_eq!(paa.mipmaps.len(), 4);
    assert!(paa.mipmaps[0].is_ok() && paa.mipmaps[1].is_ok());
    assert_eq!(paa.mipmaps[2], Err(PaaError::UnexpectedMipmapDimensions));
    assert_eq!(
        paa.to_bytes(),
        Err(PaaError::InputMipmapErrorWhileEncoding(2, Box::new(PaaError::UnexpectedMipmapDimensions)))
    );

    let none = RgbaImage::from_vec(0, 0, vec![]).unwrap();
    let paa = PaaEncoder::with_image_and_settings(none, reduce).encode().unwrap();
    assert!(paa.mipmaps.is_empty());

    let huge = uniform(1, 1, [0; 4]);
    let series_cap = PaaEncoder::with_image_and_settings(huge, keep).encode().unwrap();
    assert_eq!(series_cap.mipmaps.len(), 1);
}

#[test]
fn decoder_passes_slot_errors_on() {
    let paa = PaaImage {
        paatype: PaaType::Argb4444,
        taggs: vec![],
        palette: None,
        mipmaps: vec![Err(PaaError::LzssDecompressError)],
    };
    let decoder = PaaDecoder::from_paa(paa);
    assert_eq!(decoder.decode_first().err(), Some(PaaError::LzssDecompressError));
    assert_eq!(decoder.decode_nth(0).err(), Some(PaaError::LzssDecompressError));
    let none = PaaDecoder::with_paa(PaaImage::default());
    assert_eq!(none.decode_first().err(), Some(PaaError::MipmapIndexOutOfRange));
}

#[test]
fn names_match_without_regard_to_case() {
    assert_eq!(TextureMipmapFilter::from_name("FadeOut"), Some(TextureMipmapFilter::FadeOut));
    assert_eq!(TextureMipmapFilter::from_name("fadeout"), Some(TextureMipmapFilter::FadeOut));
    assert_eq!(TextureMipmapFilter::from_name("ALPHANOISE"), Some(TextureMipmapFilter::AlphaNoise));
    assert_eq!(TextureMipmapFilter::from_name("addAlphaNoise"), Some(TextureMipmapFilter::AddAlphaNoise));
    assert_eq!(
        TextureMipmapFilter::from_name("NormalizeNormalMap"),
        Some(TextureMipmapFilter::NormalizeNormalMap)
    );
    assert_eq!(
        TextureMipmapFilter::from_name("normalizenormalmapalpha"),
        Some(TextureMipmapFilter::NormalizeNormalMapAlpha)
    );
    assert_eq!(
        TextureMipmapFilter::from_name("NormalizeNormalMapNoise"),
        Some(TextureMipmapFilter::NormalizeNormalMapNoise)
    );
    assert_eq!(
        TextureMipmapFilter::from_name("NormalizeNormalMapFade"),
        Some(TextureMipmapFilter::NormalizeNormalMapFade)
    );
    assert_eq!(TextureMipmapFilter::from_name("Fade"), None);
    assert_eq!(TextureMipmapFilter::from_name(""), None);
    assert_eq!(TextureErrorMetrics::from_name("distance"), Some(TextureErrorMetrics::Distance));
    assert_eq!(TextureErrorMetrics::from_name("Distances"), None);
    assert_eq!(PaaType::from_name("DXT5"), Some(PaaType::Dxt5));
    assert_eq!(PaaType::from_name("dxt1"), Some(PaaType::Dxt1));
    assert_eq!(PaaType::from_name("ARGB8888"), Some(PaaType::Argb8888));
    assert_eq!(PaaType::from_name("argb1555"), Some(PaaType::Argb1555));
    assert_eq!(PaaType::from_name("Argb4444"), Some(PaaType::Argb4444));
    assert_eq!(PaaType::from_name("AI88"), Some(PaaType::Ai88));
    assert_eq!(PaaType::from_name("indexpalette"), Some(PaaType::IndexPalette));
    assert_eq!(PaaType::from_name("DXT6"), None);
    assert!(same_name("Dxt5", "dXT5"));
    assert!(!same_name("Dxt5", "Dxt"));
    assert!(!same_name("[", "{"));
    assert!(!same_name("@", "`"));
}

#[test]
fn hints_by_texture_kind() {
    let dxt1 = TextureEncodingSettings { format: PaaType::Dxt1, ..Default::default() };
    let argb = TextureEncodingSettings { format: PaaType::Argb4444, ..Default::default() };
    let hints = TextureHints::with_hints(vec![
        (String::from("SMDI"), dxt1),
        (String::from("CA"), dxt1),
        (String::from("CA"), argb),
    ]);
    assert_eq!(hints.get("SMDI"), Some(dxt1));
    assert_eq!(hints.get("CA"), Some(argb));
    assert_eq!(hints.get("smdi"), None);
    assert_eq!(hints.get(""), None);
    assert_eq!(TextureHints::texture_filename_to_suffix("raindrop3_smdi.paa"), Some(String::from("SMDI")));
    assert_eq!(TextureHints::texture_filename_to_suffix("a_b_co.paa"), Some(String::from("CO")));
    assert_eq!(TextureHints::texture_filename_to_suffix("plain.paa"), None);
    assert_eq!(TextureHints::texture_filename_to_suffix(""), None);
    assert_eq!(suffix_of_stem("shoreWetNormal_nohq"), Some(String::from("NOHQ")));
    assert_eq!(suffix_of_stem("trailing_"), Some(String::new()));
    assert_eq!(suffix_of_stem("none"), None);
    assert!(same_text("abc", "abc") && !same_text("abc", "abd") && !same_text("abc", "ab"));
}

#[test]
fn identifiers() {
    let id = ConfigIdent::from("dynRange");
    assert_eq!(id.inner, "dynRange");
    assert!(id.is("DYNRANGE") && id.is("dynrange") && !id.is("dynRang"));
    assert_eq!(id.clone().normalized().inner, "DYNRANGE");
    assert_eq!(construct_ident(('d', vec!['y', 'n'])), ConfigIdent::from("dyn"));
    assert_eq!(construct_ident(('x', vec![])).inner, "x");
    assert_eq!(ConfigIdent::from("stra\u{df}e").normalized().inner, "STRASSE");
}

#[test]
fn comments() {
    assert_eq!(parse_single_line_comment("// Good"), Ok((String::from(""), ())));
    assert_eq!(
        parse_single_line_comment("// comment\nnot a comment\n"),
        Ok((String::from("not a comment\n"), ()))
    );
    assert_eq!(
        parse_multi_line_comment("/* Good /* \n //*/not a comment"),
        Ok((String::from("not a comment"), ()))
    );
    assert!(parse_single_line_comment("/ Bad").is_err());
    assert!(parse_multi_line_comment("/* Bad").is_err());
    assert!(parse_multi_line_comment("Bad */").is_err());
}

#[test]
fn property() {
    assert_eq!(parse_ident("dynRange").unwrap(), (String::from(""), ConfigIdent::from("dynRange")));
    assert_eq!(
        parse_value("\"Hello\"").unwrap(),
        (String::from(""), ConfigValue::Text(String::from("Hello")))
    );
    assert_eq!(parse_value("-20").unwrap(), (String::from(""), ConfigValue::Integer(-20)));
    assert_eq!(
        parse_property("dynRange = /* comment */1").unwrap(),
        (
            String::from(""),
            (ConfigProperty { ident: ConfigIdent::from("dynRange"), value: ConfigValue::Integer(1) })
        )
    );
}

#[test]
fn with_whitespace() {
    assert_eq!(
        parse_ident_with_ws(" /* comment */ ident // another comment").unwrap(),
        (String::from(""), ConfigIdent::from("ident"))
    );
}

#[test]
fn comments_and_line_ends() {
    assert_eq!(parse_single_line_comment("//a\r\nb"), Ok((String::from("\r\nb"), ())));
    assert!(parse_single_line_comment("//a\rb").is_err());
    assert!(parse_single_line_comment("").is_err());
    assert_eq!(parse_multi_line_comment("/**/x"), Ok((String::from("x"), ())));
    assert!(parse_multi_line_comment("/*/").is_err());
    assert_eq!(parse_ident_with_ws("\t\r\n x1_y \n= 2").unwrap().0, "= 2");
    assert!(parse_ident_with_ws("  1x").is_err());
    assert!(parse_ident("_x").is_err());
    assert_eq!(parse_ident("\u{e9}t\u{e9} x").unwrap(), (String::from(" x"), ConfigIdent::from("\u{e9}t\u{e9}")));
}

#[test]
fn values() {
    assert_eq!(parse_value("+7;").unwrap(), (String::from(";"), ConfigValue::Integer(7)));
    assert_eq!(parse_value("2147483647").unwrap().1, ConfigValue::Integer(i32::MAX));
    assert_eq!(parse_value("-2147483648").unwrap().1, ConfigValue::Integer(i32::MIN));
    assert!(parse_value("2147483648").is_err());
    assert!(parse_value("-2147483649").is_err());
    assert!(parse_value("99999999999999999999999999").is_err());
    assert!(parse_value("-").is_err());
    assert!(parse_value("").is_err());
    assert!(parse_value("\"open").is_err());
    assert_eq!(parse_value("\"\" x").unwrap(), (String::from(" x"), ConfigValue::Text(String::new())));
    assert_eq!(
        parse_value("Distance;").unwrap(),
        (String::from(";"), ConfigValue::Ident(ConfigIdent::from("Distance")))
    );
    assert_eq!(parse_value("007").unwrap().1, ConfigValue::Integer(7));
    assert!(parse_property("x 1").is_err());
    assert!(parse_property("x = ").is_err());
    assert_eq!(parse_property("x=y ; z").unwrap().0, "; z");
}

#[test]
fn files_become_nodes() {
    assert_eq!(parse_file("").unwrap(), vec![]);
    assert!(matches!(parse_file(" "), Err(PaaError::TexconvertParseError(_))));
    assert!(matches!(parse_file("a = 1"), Err(PaaError::TexconvertParseError(_))));
    assert!(matches!(parse_file("class a { b = 1 };"), Err(PaaError::TexconvertParseError(_))));
    assert!(matches!(parse_file("class a : { };"), Err(PaaError::TexconvertParseError(_))));
    let nodes = parse_file("a = 1; // one\nclass B : C { d = \"e\"; class F {}; }; g = h;\n").unwrap();
    assert_eq!(nodes, vec![
        ConfigNode::Property(ConfigProperty { ident: ConfigIdent::from("a"), value: ConfigValue::Integer(1) }),
        ConfigNode::ClassOpen {
            classname: ConfigIdent::from("B"),
            inherit_classname: Some(ConfigIdent::from("C")),
        },
        ConfigNode::Property(ConfigProperty {
            ident: ConfigIdent::from("d"),
            value: ConfigValue::Text(String::from("e")),
        }),
        ConfigNode::ClassOpen { classname: ConfigIdent::from("F"), inherit_classname: None },
        ConfigNode::ClassClose,
        ConfigNode::ClassClose,
        ConfigNode::Property(ConfigProperty {
            ident: ConfigIdent::from("g"),
            value: ConfigValue::Ident(ConfigIdent::from("h")),
        }),
    ]);
    assert_eq!(close_of(&nodes, 1), 5);
    assert_eq!(close_of(&nodes, 3), 4);
    assert_eq!(find_hints(&nodes), None);
    let glued = parse_file("classfoo{};").unwrap();
    assert_eq!(glued[0], ConfigNode::ClassOpen { classname: ConfigIdent::from("foo"), inherit_classname: None });
    let named = parse_file("classy = 1;").unwrap();
    assert_eq!(named.len(), 1);
}

const SAMPLE: &str = "
// header
gamma = 2;
class TextureHints { class skipped { name = \"*_old.*\"; }; };
class textureHints {
  top = 1;
  class normalmap_hq {
    name = \"*_nohq.*\";
    format = \"DXT5\";
    /* negate is used so that the same shader can be used */
    channelSwizzleA = \"1-R\";
    channelSwizzleR = \"1-A\";
    channelSwizzleG = \"G\";
    channelSwizzleB = \"B\";
    dynRange = 0;
    errorMetrics=Distance;
    mipmapFilter = NormalizeNormalMapAlpha;
    NAME = \"*_ignored.*\";
  };
  class Detail : Normalmap_HQ {
    name = \"*_dt.*\";
    enableDXT = 0;
    autoreduce = 1;
    class nested { name = 3; };
  };
  class plain { name = \"*_co.*\"; format = \"nothing\"; mipmapFilter = \"FadeOut\"; };
};
";

#[test]
fn hints_from_configuration_text() {
    let hints = TextureHints::try_parse_from_str(SAMPLE).unwrap();
    let kinds: Vec<&str> = hints.hints.iter().map(|(k, _)| k.as_str()).collect();
    assert_eq!(kinds, vec!["NOHQ", "DT", "CO"]);
    let swizzle = ArgbSwizzle::parse_argb("1-R", "1-A", "G", "B").unwrap();
    assert_eq!(hints.get("NOHQ"), Some(TextureEncodingSettings {
        format: PaaType::Dxt5,
        dynrange: Some(false),
        autoreduce: false,
        mipmap_filter: Some(TextureMipmapFilter::NormalizeNormalMapAlpha),
        swizzle,
        error_metrics: Some(TextureErrorMetrics::Distance),
    }));
    assert_eq!(hints.get("DT"), Some(TextureEncodingSettings {
        format: PaaType::Argb8888,
        dynrange: Some(false),
        autoreduce: true,
        mipmap_filter: Some(TextureMipmapFilter::NormalizeNormalMapAlpha),
        swizzle: ArgbSwizzle::new(),
        error_metrics: Some(TextureErrorMetrics::Distance),
    }));
    assert_eq!(hints.get("CO"), Some(TextureEncodingSettings::default()));
    assert_eq!(hints.get("OLD"), None);
    assert_eq!(try_parse_texconvert(SAMPLE).unwrap(), hints.hints);
    assert!(TextureHints::try_parse_from_str("x = 1;").unwrap().hints.is_empty());
    assert!(TextureHints::try_parse_from_str("").unwrap().hints.is_empty());
}

#[test]
fn hints_that_fail() {
    assert!(matches!(
        TextureHints::try_parse_from_str("class TextureHints {"),
        Err(PaaError::TexconvertParseError(_))
    ));
    let no_name = "class TextureHints { class a { format = \"DXT1\"; }; };";
    assert_eq!(try_parse_texconvert(no_name), Err(PaaError::TexconvertNoName));
    let bad_name = "class TextureHints { class a { name = \"nohq\"; }; };";
    assert_eq!(try_parse_texconvert(bad_name), Err(PaaError::TexconvertNoName));
    let shadowed = "class TextureHints { class a { class name {}; name = \"*_x.*\"; }; };";
    assert_eq!(try_parse_texconvert(shadowed), Err(PaaError::TexconvertNoName));
    let orphan = "class TextureHints { class a : b { name = \"*_x.*\"; }; class b { name = \"*_y.*\"; }; };";
    assert_eq!(
        try_parse_texconvert(orphan),
        Err(PaaError::TexconvertInvalidInherit(String::from("B")))
    );
    let swizzle = "class TextureHints { class a { name = \"*_x.*\"; channelSwizzleG = \"2\"; }; };";
    assert_eq!(try_parse_texconvert(swizzle), Err(PaaError::InvalidSwizzleString(String::from("2"))));
    let both = "class TextureHints { class a : b { channelSwizzleG = \"2\"; }; };";
    assert_eq!(try_parse_texconvert(both), Err(PaaError::TexconvertInvalidInherit(String::from("B"))));
}

#[test]
fn settings_of_one_class() {
    let props = vec![
        ConfigProperty { ident: ConfigIdent::from("NAME"), value: ConfigValue::Text(String::from("*_.*")) },
        ConfigProperty { ident: ConfigIdent::from("FORMAT"), value: ConfigValue::Integer(1) },
        ConfigProperty { ident: ConfigIdent::from("ENABLEDXT"), value: ConfigValue::Integer(5) },
        ConfigProperty { ident: ConfigIdent::from("DYNRANGE"), value: ConfigValue::Integer(1) },
    ];
    let base = TextureEncodingSettings { format: PaaType::Argb1555, autoreduce: true, ..Default::default() };
    let siblings = vec![(String::from("BASE"), base)];
    let parent = ConfigIdent::from("BASE");
    let (suffix, settings) = into_settings(&props, Some(&parent), &siblings).unwrap();
    assert_eq!(suffix, "");
    assert_eq!(settings, TextureEncodingSettings {
        format: PaaType::Dxt5,
        dynrange: Some(true),
        autoreduce: true,
        ..Default::default()
    });
    assert_eq!(name_to_suffix("*_smdi.*"), Some(String::from("SMDI")));
    assert_eq!(name_to_suffix("*_.*"), Some(String::new()));
    assert_eq!(name_to_suffix("*_a"), None);
    assert_eq!(name_to_suffix("_a.*"), None);
    assert_eq!(name_to_suffix(""), None);
    assert_eq!(prop_bool(&props, "dynRange"), Some(true));
    assert_eq!(prop_bool(&props, "name"), None);
    assert_eq!(prop_text(&props, "Name"), Some(String::from("*_.*")));
    assert_eq!(prop_text(&props, "missing"), None);
    assert!(contains_text(&[String::from("a")].to_vec(), "a"));
    assert!(!contains_text(&[String::from("a")].to_vec(), "A"));
}

#[test]
fn parse_errors_tell_where_parsing_stopped() {
    assert_eq!(stopped_at(0), "unexpected input at character 0");
    assert_eq!(stopped_at(12045), "unexpected input at character 12045");
    assert_eq!(
        parse_file("a = 1; b"),
        Err(PaaError::TexconvertParseError(String::from("unexpected input at character 7")))
    );
    assert_eq!(
        parse_file("a = 1;\n\nclass x { y = ; };"),
        Err(PaaError::TexconvertParseError(String::from("unexpected input at character 8")))
    );
}

#[test]
fn settings_and_swizzles_as_text() {
    assert_eq!(TextureEncodingSettings::default().to_text(), "<Dxt5>");
    let swizzle = ArgbSwizzle::parse_argb("1-R", "1-A", "G", "0").unwrap();
    assert_eq!(swizzle.to_text(), "<a=1-r>, <r=1-a>, <g=g>, <b=0>");
    assert_eq!(ArgbSwizzle::new().to_text(), "(no-op)");
    assert_eq!(swizzle.a.to_text(), "<a=1-r>");
    assert_eq!(swizzle.b.data.to_text(), "0");
    assert_eq!(ChannelSwizzleFill::FillFF.digit(), "1");
    assert_eq!(ChannelSwizzleId::Green.letter(), "g");
    let full = TextureEncodingSettings {
        format: PaaType::Argb4444,
        dynrange: Some(false),
        autoreduce: true,
        mipmap_filter: Some(TextureMipmapFilter::FadeOut),
        swizzle,
        error_metrics: Some(TextureErrorMetrics::Distance),
    };
    assert_eq!(
        full.to_text(),
        "<Argb4444, dynRange=false, autoreduce, FadeOut, swizzle=<<a=1-r>, <r=1-a>, <g=g>, <b=0>>, errorMetrics=Distance>"
    );
    let some = TextureEncodingSettings { dynrange: Some(true), ..Default::default() };
    assert_eq!(some.to_text(), "<Dxt5, dynRange=true>");
    for format in [PaaType::IndexPalette, PaaType::Ai88, PaaType::Argb1555, PaaType::Dxt1, PaaType::Dxt5] {
        assert_eq!(format.name(), format!("{:?}", format));
        assert_eq!(PaaType::from_name(format.name()), Some(format));
    }
    assert_eq!(TextureMipmapFilter::from_name(TextureMipmapFilter::AddAlphaNoise.name()), Some(TextureMipmapFilter::AddAlphaNoise));
    assert_eq!(TextureErrorMetrics::Distance.name(), "Distance");
    assert_eq!(Transparency::Disabled.to_text(), "<no transparency>");
    assert_eq!(Transparency::AlphaInterpolated.to_text(), "<transparent, interpolated alpha>");
    assert_eq!(Transparency::AlphaNotInterpolated.to_text(), "<transparent, non-interpolated alpha>");
}
