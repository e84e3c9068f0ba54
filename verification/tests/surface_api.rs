use a3_paa::raster::apply_swizzle_to_rgba8;
use a3_paa::{
    ArgbSwizzle, Bgr888Pixel, Bgra8888Pixel, ChannelSwizzle, ChannelSwizzleId, ChecksumPolicy,
    PaaDecoder, PaaEncoder, PaaError, PaaImage, PaaMipmap, PaaMipmapCompression, PaaPalette,
    PaaResult, PaaType, RgbaImage, Tagg, TextureEncodingSettings, TextureErrorMetrics,
    TextureHints, TextureMacro, TextureMipmapFilter, Transparency,
};

#[test]
fn main_types_are_found_at_the_root() {
    let image = PaaImage {
        paatype: PaaType::Argb8888,
        taggs: vec![
            Tagg::Flag { transparency: Transparency::AlphaInterpolated },
            Tagg::Proc { code: TextureMacro { text: b"x".to_vec() } },
            Tagg::Avgc { rgba: Bgra8888Pixel::default() },
        ],
        palette: None,
        mipmaps: vec![Ok(PaaMipmap {
            width: 1,
            height: 1,
            paatype: PaaType::Argb8888,
            compression: PaaMipmapCompression::Lzss,
            data: vec![1, 2, 3, 4],
        })],
    };
    let bytes: PaaResult<Vec<u8>> = image.to_bytes();
    let back = PaaImage::from_bytes(&bytes.unwrap()).unwrap();
    let decoded = PaaDecoder::with_paa(back).decode_first().unwrap();
    assert_eq!(decoded.as_raw(), &vec![4, 3, 2, 1]);
    let settings = TextureEncodingSettings {
        format: PaaType::Argb8888,
        mipmap_filter: Some(TextureMipmapFilter::FadeOut),
        error_metrics: Some(TextureErrorMetrics::Distance),
        ..Default::default()
    };
    let source = RgbaImage::from_vec(1, 1, vec![4, 3, 2, 1]).unwrap();
    let encoded = PaaEncoder::with_image_and_settings(source, settings).encode().unwrap();
    assert_eq!(encoded.mipmaps, image.mipmaps);
    let hints = TextureHints::with_hints(vec![(String::from("CO"), settings)]);
    assert_eq!(hints.get("CO"), Some(settings));
    assert_eq!(PaaPalette::with_pixels(&[Bgr888Pixel::default()]).unwrap().pixels.len(), 1);
    assert_ne!(ChecksumPolicy::Strict, ChecksumPolicy::Lenient);
    assert_ne!(PaaError::EmptyMipmap, PaaError::UnexpectedEof);
}

#[test]
fn earlier_method_names_give_the_same_results() {
    let m = PaaMipmap {
        width: 4,
        height: 4,
        paatype: PaaType::Dxt5,
        compression: PaaMipmapCompression::Uncompressed,
        data: vec![7; 16],
    };
    assert_eq!(m.as_bytes(), m.to_bytes());
    let image = PaaImage { paatype: PaaType::Dxt5, taggs: vec![], palette: None, mipmaps: vec![Ok(m)] };
    assert_eq!(image.as_bytes(), image.to_bytes());
    let tagg = Tagg::Offs { offsets: vec![5, 6] };
    assert_eq!(tagg.as_bytes(), tagg.to_bytes());
    let palette = PaaPalette::with_pixels(&[Bgr888Pixel { b: 1, g: 2, r: 3 }]).unwrap();
    assert_eq!(palette.as_bytes(), palette.to_bytes());
    let swizzle = ArgbSwizzle::parse_argb("R", "G", "B", "A").unwrap();
    assert_eq!(swizzle.as_rgba8_filter(&[1, 2, 3, 4]), [2, 3, 4, 1]);
    assert_eq!(swizzle.as_rgba8_filter(&[1, 2, 3, 4]), swizzle.to_rgba8_map(&[1, 2, 3, 4]));
    let rule = ChannelSwizzle::parse_data_with_target("1-B", ChannelSwizzleId::Red).unwrap();
    let mut dst = [0u8; 4];
    rule.as_subpixel_map(&[0, 0, 0x0F, 0], &mut dst);
    assert_eq!(dst, [0xF0, 0, 0, 0]);
    let mut raster = RgbaImage::from_vec(1, 1, vec![1, 2, 3, 4]).unwrap();
    apply_swizzle_to_rgba8(&mut raster, &swizzle);
    assert_eq!(raster.as_raw(), &vec![2, 3, 4, 1]);
    assert_eq!(PaaDecoder::from_paa(image).decode_nth(0).unwrap().dimensions(), (4, 4));
}
