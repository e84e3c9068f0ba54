use a3_paa::bytes::PaaReader;
use a3_paa::error::PaaError;
use a3_paa::image::{offsets_tag, offsets_within, PaaImage, MAX_MIPMAPS};
use a3_paa::lzss::{additive_checksum, lzss_encode};
use a3_paa::mipmap::{
    is_block_side, resolve_compression, ChecksumPolicy, MipmapRecord, PaaMipmap,
    PaaMipmapCompression,
};
use a3_paa::paatype::PaaType;
use a3_paa::palette::PaaPalette;
use a3_paa::pixel::{Bgr888Pixel, Bgra8888Pixel};
use a3_paa::surface::surface_levels;
use a3_paa::swizzle::{
    ArgbSwizzle, ChannelSwizzle, ChannelSwizzleData, ChannelSwizzleFill, ChannelSwizzleId,
};
use a3_paa::tagg::{Tagg, TextureMacro, Transparency};

fn pattern(len: usize, seed: u32) -> Vec<u8> {
    let mut state = seed;
    let mut out = Vec::with_capacity(len);
    for i in 0..len {
        state = state.wrapping_mul(22695477).wrapping_add(1);
        let byte = if (i / 53) % 2 == 0 { (state >> 23) as u8 } else { (i / 7) as u8 };
        out.push(byte);
    }
    out
}

fn mipmap(paatype: PaaType, width: u16, height: u16, seed: u32) -> PaaMipmap {
    let data = pattern(paatype.predict_size(width, height), seed);
    let compression = PaaMipmap::suggest_compression(paatype, width, height);
    PaaMipmap { width, height, paatype, compression, data }
}

#[test]
fn predicted_sizes() {
    assert_eq!(PaaType::Dxt1.predict_size(8, 4), 16);
    assert_eq!(PaaType::Dxt2.predict_size(8, 4), 32);
    assert_eq!(PaaType::Dxt3.predict_size(8, 4), 32);
    assert_eq!(PaaType::Dxt4.predict_size(8, 4), 32);
    assert_eq!(PaaType::Dxt5.predict_size(8, 4), 32);
    assert_eq!(PaaType::IndexPalette.predict_size(8, 4), 32);
    assert_eq!(PaaType::Argb1555.predict_size(8, 4), 64);
    assert_eq!(PaaType::Argb4444.predict_size(8, 4), 64);
    assert_eq!(PaaType::Ai88.predict_size(8, 4), 64);
    assert_eq!(PaaType::Argb8888.predict_size(8, 4), 128);
    assert_eq!(PaaType::Dxt1.predict_size(1, 1), 0);
    assert_eq!(PaaType::Dxt1.predict_size(3, 3), 4);
    assert_eq!(PaaType::Argb8888.predict_size(0, 9), 0);
    assert_eq!(PaaType::Argb8888.predict_size(32767, 32767), 4294705156);
    assert_eq!(PaaType::Argb8888.checked_predict_size(65535, 65535), Some(17179344900));
    assert_eq!(PaaType::Dxt5.predict_size(8, 4), PaaType::Dxt5.predict_size(8, 4));
}

#[test]
fn format_codes_and_classes() {
    let all = [
        (PaaType::IndexPalette, [0x47u8, 0x47]),
        (PaaType::Ai88, [0x80, 0x80]),
        (PaaType::Argb1555, [0x55, 0x15]),
        (PaaType::Argb4444, [0x44, 0x44]),
        (PaaType::Argb8888, [0x88, 0x88]),
        (PaaType::Dxt1, [0x01, 0xFF]),
        (PaaType::Dxt2, [0x02, 0xFF]),
        (PaaType::Dxt3, [0x03, 0xFF]),
        (PaaType::Dxt4, [0x04, 0xFF]),
        (PaaType::Dxt5, [0x05, 0xFF]),
    ];
    for (format, bytes) in all {
        assert_eq!(format.to_bytes(), bytes);
        assert_eq!(PaaType::from_code(format.code()), Some(format));
    }
    assert_eq!(PaaType::from_code(0x1234), None);
    assert!(PaaType::Dxt5.is_dxtn());
    assert!(!PaaType::Argb1555.is_dxtn());
    assert!(PaaType::Argb1555.is_argb());
    assert!(!PaaType::Dxt5.is_argb());
    assert!(!PaaType::Ai88.is_argb());
    assert!(PaaType::Dxt5.has_alpha());
    assert!(!PaaType::IndexPalette.has_alpha());
    assert_eq!(PaaType::default(), PaaType::Dxt5);
}

#[test]
fn suggested_schemes() {
    assert_eq!(PaaMipmap::suggest_compression(PaaType::Dxt5, 256, 256), PaaMipmapCompression::Lzo);
    assert_eq!(PaaMipmap::suggest_compression(PaaType::Dxt1, 512, 128), PaaMipmapCompression::Lzo);
    assert_eq!(
        PaaMipmap::suggest_compression(PaaType::Dxt5, 256, 128),
        PaaMipmapCompression::Uncompressed
    );
    assert_eq!(PaaMipmap::suggest_compression(PaaType::Argb4444, 4, 4), PaaMipmapCompression::Lzss);
    assert_eq!(
        PaaMipmap::suggest_compression(PaaType::IndexPalette, 1024, 1024),
        PaaMipmapCompression::Lzss
    );
    assert!(PaaMipmap::dxtn_needs_lzo(256, 256));
    assert!(!PaaMipmap::dxtn_needs_lzo(255, 256));
    assert!(PaaMipmap::dxtn_needs_lzo(65535, 65535));
    let empty = PaaMipmap::default();
    assert!(empty.is_empty());
    assert_eq!(empty.paatype, PaaType::Dxt5);
    assert_eq!(empty.compression, PaaMipmapCompression::Uncompressed);
}

#[test]
fn cues_resolve_to_schemes() {
    let lzo = PaaMipmapCompression::Lzo;
    let lzss = PaaMipmapCompression::Lzss;
    let rle = PaaMipmapCompression::RleBlocks;
    let plain = PaaMipmapCompression::Uncompressed;
    assert_eq!(resolve_compression(PaaType::IndexPalette, true, false, 10, 10), lzss);
    assert_eq!(resolve_compression(PaaType::IndexPalette, false, false, 10, 10), rle);
    assert_eq!(resolve_compression(PaaType::IndexPalette, false, false, 3, 10), rle);
    assert_eq!(resolve_compression(PaaType::Dxt5, false, true, 3, 16), lzo);
    assert_eq!(resolve_compression(PaaType::Dxt5, false, false, 16, 16), plain);
    assert_eq!(resolve_compression(PaaType::Dxt5, false, false, 9, 16), lzss);
    assert_eq!(resolve_compression(PaaType::Argb4444, false, true, 32, 32), plain);
    assert_eq!(resolve_compression(PaaType::Argb4444, false, false, 31, 32), lzss);
    assert_eq!(resolve_compression(PaaType::Argb8888, false, false, 64, 64), plain);
}

#[test]
fn block_sides_are_powers_of_two_from_four() {
    for d in [4u16, 8, 16, 32, 64, 128, 256, 512, 1024, 2048, 4096, 8192, 16384] {
        assert!(is_block_side(d));
    }
    for d in [0u16, 1, 2, 3, 5, 12, 100, 32768, 65535] {
        assert!(!is_block_side(d));
    }
}

#[test]
fn mipmap_round_trip_dictionary() {
    for (format, w, h) in [
        (PaaType::Argb4444, 16u16, 8u16),
        (PaaType::Argb1555, 5, 3),
        (PaaType::Argb8888, 7, 9),
        (PaaType::Ai88, 1, 1),
    ] {
        let m = mipmap(format, w, h, 7);
        assert_eq!(m.compression, PaaMipmapCompression::Lzss);
        let bytes = m.to_bytes().unwrap();
        assert_eq!(PaaMipmap::from_bytes(&bytes, format).unwrap(), m);
    }
}

#[test]
fn mipmap_round_trip_blocks() {
    let small = mipmap(PaaType::Dxt5, 64, 32, 3);
    assert_eq!(small.compression, PaaMipmapCompression::Uncompressed);
    let bytes = small.to_bytes().unwrap();
    assert_eq!(bytes.len(), 4 + 3 + 64 * 32);
    assert_eq!(&bytes[..7], &[64, 0, 32, 0, 0, 8, 0]);
    assert_eq!(PaaMipmap::from_bytes(&bytes, PaaType::Dxt5).unwrap(), small);

    let large = mipmap(PaaType::Dxt1, 256, 256, 4);
    assert_eq!(large.compression, PaaMipmapCompression::Lzo);
    let bytes = large.to_bytes().unwrap();
    assert_eq!(&bytes[..4], &[0x00, 0x81, 0x00, 0x01]);
    let back = PaaMipmap::from_bytes(&bytes, PaaType::Dxt1).unwrap();
    assert_eq!(back, large);
    assert_eq!(back.width, 256);
}

#[test]
fn mipmap_round_trip_indexed() {
    let data = pattern(40 * 30, 21);
    let sentinel = PaaMipmap {
        width: 40,
        height: 30,
        paatype: PaaType::IndexPalette,
        compression: PaaMipmapCompression::Lzss,
        data: data.clone(),
    };
    let bytes = sentinel.to_bytes().unwrap();
    assert_eq!(&bytes[..8], &[0xD2, 0x04, 0x3D, 0x22, 40, 0, 30, 0]);
    assert_eq!(PaaMipmap::from_bytes(&bytes, PaaType::IndexPalette).unwrap(), sentinel);
    assert_eq!(PaaMipmap::from_bytes(&bytes, PaaType::Dxt5).unwrap(), sentinel);

    let runs = PaaMipmap {
        width: 40,
        height: 30,
        paatype: PaaType::IndexPalette,
        compression: PaaMipmapCompression::RleBlocks,
        data,
    };
    let bytes = runs.to_bytes().unwrap();
    assert_eq!(&bytes[..4], &[40, 0, 30, 0]);
    assert_eq!(PaaMipmap::from_bytes(&bytes, PaaType::IndexPalette).unwrap(), runs);
}

#[test]
fn scheme_chosen_at_encode_time_is_detected() {
    for (format, w, h) in [
        (PaaType::Dxt5, 256u16, 256u16),
        (PaaType::Dxt3, 8, 8),
        (PaaType::Argb1555, 32, 32),
        (PaaType::IndexPalette, 9, 9),
    ] {
        let m = mipmap(format, w, h, 99);
        let bytes = m.to_bytes().unwrap();
        let mut reader = PaaReader::new(&bytes);
        let record = MipmapRecord::read_from(&mut reader, format).unwrap();
        assert_eq!(record.compression, m.compression);
        assert_eq!(record.width, w);
        assert_eq!(record.height, h);
        assert_eq!(record.predicted, m.data.len());
        assert_eq!(reader.position(), bytes.len());
    }
}

#[test]
fn literal_example_mipmap() {
    let m = PaaMipmap {
        width: 2,
        height: 2,
        paatype: PaaType::Argb4444,
        compression: PaaMipmapCompression::Lzss,
        data: vec![0u8; 8],
    };
    let payload = m.pack().unwrap();
    let n = payload.len();
    assert_eq!(&payload[n - 4..], &[0u8, 0, 0, 0]);
    assert_ne!(n, m.data.len());
    let bytes = m.to_bytes().unwrap();
    assert_eq!(
        bytes,
        vec![2, 0, 2, 0, 13, 0, 0, 0xFF, 0, 0, 0, 0, 0, 0, 0, 0, 0, 0, 0, 0]
    );
    let back = PaaMipmap::from_bytes(&bytes, PaaType::Argb4444).unwrap();
    assert_eq!(back.compression, PaaMipmapCompression::Lzss);
    assert_eq!(back.data, vec![0u8; 8]);
    assert_eq!(back, m);
}

#[test]
fn literal_example_mipmap_of_sixteen_bytes() {
    let m = PaaMipmap {
        width: 2,
        height: 4,
        paatype: PaaType::Argb4444,
        compression: PaaMipmapCompression::Lzss,
        data: vec![0u8; 16],
    };
    let bytes = m.to_bytes().unwrap();
    assert_eq!(bytes, vec![2, 0, 4, 0, 8, 0, 0, 0x01, 0x00, 0x01, 0x0C, 0, 0, 0, 0]);
    assert_eq!(PaaMipmap::from_bytes(&bytes, PaaType::Argb4444).unwrap(), m);
}

#[test]
fn sixteen_bytes_do_not_fit_two_by_two() {
    let m = PaaMipmap {
        width: 2,
        height: 2,
        paatype: PaaType::Argb4444,
        compression: PaaMipmapCompression::Lzss,
        data: vec![0u8; 16],
    };
    assert_eq!(m.to_bytes(), Err(PaaError::UnexpectedMipmapDataSize(2, 2, 16)));
}

#[test]
fn dictionary_payload_is_never_as_long_as_the_data() {
    for len in 4..200usize {
        for fill in [0u8, 7, 255] {
            let data = vec![fill; len];
            let m = PaaMipmap {
                width: len as u16,
                height: 1,
                paatype: PaaType::IndexPalette,
                compression: PaaMipmapCompression::Lzss,
                data,
            };
            assert_ne!(m.pack().unwrap().len(), len);
        }
    }
    for (w, h) in [(1u16, 4u16), (2, 2), (4, 1), (2, 3), (3, 3), (16, 16)] {
        for format in [PaaType::Argb4444, PaaType::Argb1555, PaaType::Ai88, PaaType::Argb8888] {
            let m = PaaMipmap {
                width: w,
                height: h,
                paatype: format,
                compression: PaaMipmapCompression::Lzss,
                data: vec![0u8; format.predict_size(w, h)],
            };
            let bytes = m.to_bytes().unwrap();
            assert_eq!(PaaMipmap::from_bytes(&bytes, format).unwrap(), m);
        }
    }
}

#[test]
fn replacing_the_checksum_changes_nothing_when_lenient() {
    for data in [vec![0u8; 8], vec![9u8; 8], pattern(8, 5)] {
        let m = PaaMipmap {
            width: 2,
            height: 2,
            paatype: PaaType::Argb1555,
            compression: PaaMipmapCompression::Lzss,
            data,
        };
        let mut bytes = m.to_bytes().unwrap();
        let n = bytes.len();
        bytes[n - 4..].copy_from_slice(&[0xDE, 0xAD, 0xBE, 0xEF]);
        assert_eq!(PaaMipmap::from_bytes(&bytes, PaaType::Argb1555).unwrap(), m);
    }
}

#[test]
fn sentinel_collision_guard() {
    let data = vec![1u8, 2, 3, 4];
    let mut payload = lzss_encode(&data);
    payload.extend_from_slice(&additive_checksum(&data).to_le_bytes());
    let mut bytes: Vec<u8> = vec![0xD2, 0x04, 0x3D, 0x22, 2, 0, 2, 0];
    bytes.extend_from_slice(&[payload.len() as u8, 0, 0]);
    bytes.extend_from_slice(&payload);
    for declared in [PaaType::Argb4444, PaaType::Dxt5, PaaType::Argb8888] {
        let m = PaaMipmap::from_bytes(&bytes, declared).unwrap();
        assert_eq!(m.paatype, PaaType::IndexPalette);
        assert_eq!(m.compression, PaaMipmapCompression::Lzss);
        assert_eq!((m.width, m.height), (2, 2));
        assert_eq!(m.data, data);
    }
}

#[test]
fn mipmap_with_sentinel_dimensions_does_not_read_back() {
    let m = PaaMipmap {
        width: 1234,
        height: 8765,
        paatype: PaaType::IndexPalette,
        compression: PaaMipmapCompression::RleBlocks,
        data: vec![0u8; 1234 * 8765],
    };
    let bytes = m.to_bytes().unwrap();
    assert_eq!(&bytes[..4], &[0xD2, 0x04, 0x3D, 0x22]);
    let back = PaaMipmap::from_bytes(&bytes, PaaType::IndexPalette);
    assert!(back != Ok(m));
}

#[test]
fn oversized_dimension_rejection() {
    let wide = PaaMipmap {
        width: 32768,
        height: 1,
        paatype: PaaType::Argb8888,
        compression: PaaMipmapCompression::Lzss,
        data: vec![0u8; 32768 * 4],
    };
    assert_eq!(wide.to_bytes(), Err(PaaError::MipmapTooLarge));
    assert_eq!(wide.validate(), Err(PaaError::MipmapTooLarge));
    let tall = PaaMipmap {
        width: 4,
        height: 40000,
        paatype: PaaType::Dxt5,
        compression: PaaMipmapCompression::Lzo,
        data: vec![],
    };
    assert_eq!(tall.to_bytes(), Err(PaaError::MipmapTooLarge));
    let fits = PaaMipmap {
        width: 32767,
        height: 1,
        paatype: PaaType::Argb8888,
        compression: PaaMipmapCompression::Uncompressed,
        data: vec![0u8; 32767 * 4],
    };
    assert!(fits.to_bytes().is_ok());
}

#[test]
fn mipmap_validation_errors() {
    let odd = PaaMipmap {
        width: 12,
        height: 8,
        paatype: PaaType::Dxt5,
        compression: PaaMipmapCompression::Uncompressed,
        data: vec![0u8; 96],
    };
    assert_eq!(odd.to_bytes(), Err(PaaError::UnexpectedMipmapDimensions));
    let tiny = PaaMipmap {
        width: 2,
        height: 2,
        paatype: PaaType::Dxt1,
        compression: PaaMipmapCompression::Uncompressed,
        data: vec![0u8; 2],
    };
    assert_eq!(tiny.to_bytes(), Err(PaaError::UnexpectedMipmapDimensions));
    let short = PaaMipmap {
        width: 4,
        height: 4,
        paatype: PaaType::Argb1555,
        compression: PaaMipmapCompression::Lzss,
        data: vec![0u8; 31],
    };
    assert_eq!(short.to_bytes(), Err(PaaError::UnexpectedMipmapDataSize(4, 4, 31)));
    let long = PaaMipmap {
        width: 2048,
        height: 2048,
        paatype: PaaType::Argb8888,
        compression: PaaMipmapCompression::Uncompressed,
        data: vec![0u8; 2048 * 2048 * 4],
    };
    assert_eq!(long.to_bytes(), Err(PaaError::MipmapTooLarge));
}

#[test]
fn empty_mipmap_is_four_bytes_and_ends_a_sequence() {
    let empty = PaaMipmap {
        width: 0,
        height: 7,
        paatype: PaaType::Argb8888,
        compression: PaaMipmapCompression::Lzss,
        data: vec![],
    };
    let bytes = empty.to_bytes().unwrap();
    assert_eq!(bytes, vec![0, 0, 7, 0]);
    assert_eq!(PaaMipmap::from_bytes(&bytes, PaaType::Argb8888), Err(PaaError::EmptyMipmap));
    assert_eq!(PaaMipmap::from_bytes(&[5, 0, 0, 0], PaaType::Dxt5), Err(PaaError::EmptyMipmap));
}

#[test]
fn truncated_mipmaps_fail_with_end_of_input() {
    let m = mipmap(PaaType::Argb4444, 8, 8, 5);
    let bytes = m.to_bytes().unwrap();
    for (cut, left_at) in [(0usize, 0usize), (1, 0), (2, 2), (3, 2), (4, 4), (6, 4), (7, 7), (bytes.len() - 1, 7)] {
        let mut reader = PaaReader::new(&bytes[..cut]);
        assert_eq!(PaaMipmap::read_from(&mut reader, PaaType::Argb4444), Err(PaaError::UnexpectedEof));
        assert_eq!(reader.position(), left_at);
    }
    let indexed: Vec<u8> = vec![0xD2, 0x04, 0x3D, 0x22, 2, 0, 2, 0, 1, 0];
    for (cut, left_at) in [(4usize, 4usize), (5, 4), (6, 6), (7, 6), (8, 8), (10, 8)] {
        let mut reader = PaaReader::new(&indexed[..cut]);
        assert_eq!(PaaMipmap::read_from(&mut reader, PaaType::Dxt5), Err(PaaError::UnexpectedEof));
        assert_eq!(reader.position(), left_at);
    }
}

#[test]
fn an_empty_mipmap_takes_its_four_bytes() {
    for bytes in [vec![0u8, 0, 7, 0, 9, 9], vec![5, 0, 0, 0], vec![0, 0, 0, 0, 1]] {
        for format in [PaaType::Dxt5, PaaType::Argb8888, PaaType::IndexPalette] {
            let mut reader = PaaReader::new(&bytes);
            assert_eq!(PaaMipmap::read_from(&mut reader, format), Err(PaaError::EmptyMipmap));
            assert_eq!(reader.position(), 4);
            let mut reader = PaaReader::new(&bytes);
            assert_eq!(MipmapRecord::read_from(&mut reader, format).err(), Some(PaaError::EmptyMipmap));
            assert_eq!(reader.position(), 4);
        }
    }
}

#[test]
fn damaged_payloads_fail_in_their_slot() {
    let short: Vec<u8> = vec![4, 0, 4, 0, 3, 0, 0, 1, 2, 3];
    assert_eq!(PaaMipmap::from_bytes(&short, PaaType::Argb4444), Err(PaaError::ArithmeticOverflow));
    let wrong_length: Vec<u8> = vec![4, 0, 4, 0, 6, 0, 0, 0xFF, 1, 0, 0, 0, 0];
    assert_eq!(
        PaaMipmap::from_bytes(&wrong_length, PaaType::Argb4444),
        Err(PaaError::LzssDecompressError)
    );
    let cut_run: Vec<u8> = vec![4, 0, 4, 0, 1, 0, 0, 0x85];
    assert_eq!(PaaMipmap::from_bytes(&cut_run, PaaType::IndexPalette), Err(PaaError::RleError));
    let packed: Vec<u8> = vec![0x04, 0x80, 4, 0, 3, 0, 0, 1, 2, 3];
    assert!(matches!(PaaMipmap::from_bytes(&packed, PaaType::Dxt5), Err(PaaError::LzoError(_))));
    let mut reader = PaaReader::new(&packed);
    let _ = PaaMipmap::read_from(&mut reader, PaaType::Dxt5);
    assert_eq!(reader.position(), packed.len());
}

#[test]
fn checksum_policy() {
    let m = mipmap(PaaType::Argb1555, 6, 6, 31);
    let mut bytes = m.to_bytes().unwrap();
    let mut strict = PaaReader::new(&bytes);
    assert_eq!(
        PaaMipmap::read_from_with_policy(&mut strict, PaaType::Argb1555, ChecksumPolicy::Strict).unwrap(),
        m
    );
    let last = bytes.len() - 1;
    bytes[last] ^= 0x40;
    let mut lenient = PaaReader::new(&bytes);
    assert_eq!(PaaMipmap::read_from(&mut lenient, PaaType::Argb1555).unwrap(), m);
    let mut strict = PaaReader::new(&bytes);
    assert_eq!(
        PaaMipmap::read_from_with_policy(&mut strict, PaaType::Argb1555, ChecksumPolicy::Strict),
        Err(PaaError::LzssWrongChecksum)
    );
    let mut reader = PaaReader::new(&bytes);
    let record = MipmapRecord::read_from(&mut reader, PaaType::Argb1555).unwrap();
    assert_eq!(record.into_mipmap(ChecksumPolicy::Lenient).unwrap(), m);
}

#[test]
fn mipmaps_are_read_until_no_record_is_found() {
    let a = mipmap(PaaType::Argb4444, 8, 8, 1);
    let b = mipmap(PaaType::Argb4444, 4, 4, 2);
    let mut bytes = a.to_bytes().unwrap();
    bytes.extend_from_slice(&b.to_bytes().unwrap());
    bytes.extend_from_slice(&[0u8; 6]);
    let mut reader = PaaReader::new(&bytes);
    let slots = PaaMipmap::read_from_until_eof(&mut reader, PaaType::Argb4444);
    assert_eq!(slots, vec![Ok(a.clone()), Ok(b.clone()), Err(PaaError::EmptyMipmap)]);

    let mut cut = a.to_bytes().unwrap();
    cut.extend_from_slice(&b.to_bytes().unwrap()[..9]);
    let mut reader = PaaReader::new(&cut);
    let slots = PaaMipmap::read_from_until_eof(&mut reader, PaaType::Argb4444);
    assert_eq!(slots, vec![Ok(a), Err(PaaError::UnexpectedEof)]);
}

#[test]
fn mipmaps_are_read_at_offsets() {
    let a = mipmap(PaaType::Argb4444, 8, 8, 1);
    let b = mipmap(PaaType::Argb4444, 4, 4, 2);
    let first = a.to_bytes().unwrap();
    let mut bytes = vec![0xEEu8; 5];
    bytes.extend_from_slice(&first);
    bytes.extend_from_slice(&b.to_bytes().unwrap());
    let second_at = (5 + first.len()) as u32;
    let end = bytes.len() as u32;
    let mut reader = PaaReader::new(&bytes);
    let slots = PaaMipmap::read_from_with_offsets(
        &mut reader,
        &[second_at, 5, end, end - 1],
        PaaType::Argb4444,
    );
    assert_eq!(
        slots,
        vec![Ok(b), Ok(a), Err(PaaError::MipmapOffsetBeyondEof), Err(PaaError::UnexpectedEof)]
    );
}

#[test]
fn tagg_round_trip() {
    let swizzle = ArgbSwizzle::parse_argb("1-R", "1-A", "G", "0").unwrap();
    let taggs = vec![
        Tagg::Avgc { rgba: Bgra8888Pixel { b: 1, g: 2, r: 3, a: 4 } },
        Tagg::Maxc { rgba: Bgra8888Pixel { b: 255, g: 254, r: 253, a: 252 } },
        Tagg::Flag { transparency: Transparency::Disabled },
        Tagg::Flag { transparency: Transparency::AlphaInterpolated },
        Tagg::Flag { transparency: Transparency::AlphaNotInterpolated },
        Tagg::Swiz { swizzle },
        Tagg::Swiz { swizzle: ArgbSwizzle::new() },
        Tagg::Proc { code: TextureMacro { text: b"x = 1 + \xFF;".to_vec() } },
        Tagg::Proc { code: TextureMacro { text: vec![] } },
        Tagg::Offs { offsets: vec![] },
        Tagg::Offs { offsets: vec![0x80, 0x1234, 0xFFFF_FFFF] },
        Tagg::Offs { offsets: (1..=16).collect() },
    ];
    for tagg in taggs {
        let payload = tagg.payload();
        assert_eq!(Tagg::from_name_and_payload(tagg.as_taggname(), &payload).unwrap(), tagg);
        assert_eq!(
            Tagg::from_name_bytes_and_payload(&tagg.name_bytes(), &payload).unwrap(),
            tagg
        );
        let bytes = tagg.to_bytes();
        assert_eq!(&bytes[..4], b"GGAT");
        assert_eq!(&bytes[4..8], tagg.as_taggname().as_bytes());
        assert_eq!(&bytes[8..12], &(payload.len() as u32).to_le_bytes());
        assert_eq!(&bytes[12..], &payload[..]);
        let mut reader = PaaReader::new(&bytes);
        assert_eq!(Tagg::read_tagg_from(&mut reader).unwrap(), tagg);
        assert_eq!(reader.position(), bytes.len());
    }
}

#[test]
fn tagg_wire_examples() {
    let avgc = Tagg::Avgc { rgba: Bgra8888Pixel { b: 1, g: 2, r: 3, a: 4 } };
    assert_eq!(avgc.to_bytes(), b"GGATCGVA\x04\x00\x00\x00\x01\x02\x03\x04".to_vec());
    let flag = Tagg::Flag { transparency: Transparency::AlphaNotInterpolated };
    assert_eq!(flag.to_bytes(), b"GGATGALF\x04\x00\x00\x00\x02\x00\x00\x00".to_vec());
    let swizzle = ArgbSwizzle::parse_argb("1-R", "1-A", "G", "B").unwrap();
    let swiz = Tagg::Swiz { swizzle };
    assert_eq!(swiz.to_bytes(), b"GGATZIWS\x04\x00\x00\x00\x05\x04\x02\x03".to_vec());
    let offs = Tagg::Offs { offsets: vec![0x0102_0304] };
    let bytes = offs.to_bytes();
    assert_eq!(bytes.len(), 76);
    assert_eq!(&bytes[..16], b"GGATSFFO\x40\x00\x00\x00\x04\x03\x02\x01");
    assert!(bytes[16..].iter().all(|b| *b == 0));
    let many = Tagg::Offs { offsets: (1..=20).collect() };
    let bytes = many.to_bytes();
    assert_eq!(bytes.len(), 76);
    assert_eq!(&bytes[72..], &[16, 0, 0, 0]);
}

#[test]
fn tagg_head_is_checked() {
    let offsdata = Tagg::Offs { offsets: vec![] }.to_bytes();
    let headdata: [u8; 12] = offsdata[..12].try_into().unwrap();
    let (taggname, payload_size) = Tagg::try_head_from(&headdata).unwrap();
    assert_eq!(taggname, "SFFO");
    assert_eq!(payload_size as usize, offsdata[12..].len());
    assert_eq!(Tagg::head_from(&headdata).unwrap(), (*b"SFFO", 64));

    let bad_signature: [u8; 12] = *b"TAGGSFFO\x40\x00\x00\x00";
    assert_eq!(Tagg::try_head_from(&bad_signature), Err(PaaError::UnexpectedTaggSignature));
    let bad_name: [u8; 12] = *b"GGATXXXX\x40\x00\x00\x00";
    assert_eq!(Tagg::try_head_from(&bad_name), Err(PaaError::UnknownTaggType(*b"XXXX")));
    let not_text: [u8; 12] = *b"GGAT\xFF\xFE\x00\x01\x40\x00\x00\x00";
    assert_eq!(
        Tagg::try_head_from(&not_text),
        Err(PaaError::UnknownTaggType([0xFF, 0xFE, 0x00, 0x01]))
    );
    assert!(Tagg::is_valid_taggname(Tagg::Maxc { rgba: Bgra8888Pixel::default() }.as_taggname()));
    for name in ["CGVA", "CXAM", "GALF", "ZIWS", "CORP", "SFFO"] {
        assert!(Tagg::is_valid_taggname(name));
    }
    for name in ["AVGC", "cgva", "SFF", "SFFOO", ""] {
        assert!(!Tagg::is_valid_taggname(name));
    }
}

#[test]
fn tagg_payload_errors() {
    assert_eq!(Tagg::from_name_and_payload("AVG", &[0; 4]), Err(PaaError::UnexpectedTaggSignature));
    assert_eq!(Tagg::from_name_and_payload("AVGCC", &[0; 4]), Err(PaaError::UnexpectedTaggSignature));
    assert_eq!(Tagg::from_name_and_payload("AVGC", &[0; 4]), Err(PaaError::UnknownTaggType(*b"AVGC")));
    for name in ["CGVA", "CXAM", "GALF", "ZIWS"] {
        assert_eq!(Tagg::from_name_and_payload(name, &[0; 3]), Err(PaaError::UnexpectedTaggDataSize));
        assert_eq!(Tagg::from_name_and_payload(name, &[0; 5]), Err(PaaError::UnexpectedTaggDataSize));
    }
    assert_eq!(Tagg::from_name_and_payload("SFFO", &[0; 6]), Err(PaaError::UnexpectedTaggDataSize));
    assert_eq!(
        Tagg::from_name_and_payload("GALF", &[3, 0, 0, 0]),
        Err(PaaError::UnknownTransparencyValue(3))
    );
    assert_eq!(
        Tagg::from_name_and_payload("GALF", &[1, 9, 9, 9]).unwrap(),
        Tagg::Flag { transparency: Transparency::AlphaInterpolated }
    );
    assert_eq!(
        Tagg::from_name_and_payload("ZIWS", &[0, 1, 0x0A, 3]),
        Err(PaaError::UnknownSwizzleValues([0, 1, 0x0A, 3]))
    );
    assert_eq!(
        Tagg::from_name_and_payload("ZIWS", &[0xF5, 0x0C, 0x09, 0x13]).unwrap(),
        Tagg::Swiz {
            swizzle: ArgbSwizzle {
                a: ChannelSwizzle {
                    target: ChannelSwizzleId::Alpha,
                    data: ChannelSwizzleData::Source { neg_flag: true, source: ChannelSwizzleId::Red },
                },
                r: ChannelSwizzle {
                    target: ChannelSwizzleId::Red,
                    data: ChannelSwizzleData::Fill { value: ChannelSwizzleFill::FillFF },
                },
                g: ChannelSwizzle {
                    target: ChannelSwizzleId::Green,
                    data: ChannelSwizzleData::Fill { value: ChannelSwizzleFill::Fill00 },
                },
                b: ChannelSwizzle {
                    target: ChannelSwizzleId::Blue,
                    data: ChannelSwizzleData::Source { neg_flag: false, source: ChannelSwizzleId::Blue },
                },
            }
        }
    );
}

#[test]
fn offsets_truncation() {
    let mut payload = Vec::new();
    for (i, v) in [
        0x100u32, 0x200, 0x300, 0, 0x500, 0x600, 0, 0x800, 9, 10, 11, 12, 13, 14, 15, 16,
    ]
        .iter()
        .enumerate()
    {
        assert!(i < 16);
        payload.extend_from_slice(&v.to_le_bytes());
    }
    let tagg = Tagg::from_name_and_payload("SFFO", &payload).unwrap();
    assert_eq!(tagg, Tagg::Offs { offsets: vec![0x100, 0x200, 0x300] });
    let none = Tagg::from_name_and_payload("SFFO", &[0u8; 64]).unwrap();
    assert_eq!(none, Tagg::Offs { offsets: vec![] });
    let short = Tagg::from_name_and_payload("SFFO", &[7, 0, 0, 0, 8, 0, 0, 0]).unwrap();
    assert_eq!(short, Tagg::Offs { offsets: vec![7, 8] });
    let empty = Tagg::from_name_and_payload("SFFO", &[]).unwrap();
    assert_eq!(empty, Tagg::Offs { offsets: vec![] });
}

#[test]
fn taggs_are_read_until_one_fails() {
    let a = Tagg::Avgc { rgba: Bgra8888Pixel { b: 1, g: 2, r: 3, a: 4 } };
    let f = Tagg::Flag { transparency: Transparency::Disabled };
    let mut bytes = a.to_bytes();
    bytes.extend_from_slice(&f.to_bytes());
    let tags_end = bytes.len();
    bytes.extend_from_slice(&[0u8; 12]);
    let mut reader = PaaReader::new(&bytes);
    let (taggs, stop) = Tagg::read_taggs_from(&mut reader).unwrap();
    assert_eq!(taggs, vec![a.clone(), f.clone()]);
    assert_eq!(stop, PaaError::UnexpectedTaggSignature);
    assert_eq!(reader.position(), tags_end);

    let mut unknown = a.to_bytes();
    unknown.extend_from_slice(b"GGATXXXX\x00\x00\x00\x00");
    let mut reader = PaaReader::new(&unknown);
    let (taggs, stop) = Tagg::read_taggs_from(&mut reader).unwrap();
    assert_eq!(taggs, vec![a.clone()]);
    assert_eq!(stop, PaaError::UnknownTaggType(*b"XXXX"));
    assert_eq!(reader.position(), 16);

    let mut cut = a.to_bytes();
    cut.extend_from_slice(&f.to_bytes()[..15]);
    let mut reader = PaaReader::new(&cut);
    let (taggs, stop) = Tagg::read_taggs_from(&mut reader).unwrap();
    assert_eq!(taggs, vec![a]);
    assert_eq!(stop, PaaError::UnexpectedEof);
    assert_eq!(reader.position(), 16);
    assert_eq!(Tagg::read_tagg_from(&mut reader), Err(PaaError::UnexpectedEof));
    assert_eq!(reader.position(), 16);
}

#[test]
fn palette_blocks() {
    let colours = vec![Bgr888Pixel { b: 1, g: 2, r: 3 }, Bgr888Pixel { b: 4, g: 5, r: 6 }];
    let palette = PaaPalette::with_pixels(&colours).unwrap();
    assert_eq!(palette.get(1), Ok(&Bgr888Pixel { b: 4, g: 5, r: 6 }));
    assert_eq!(palette.get(2), Err(PaaError::PaletteTooLarge));
    let bytes = palette.to_bytes().unwrap();
    assert_eq!(bytes, vec![2, 0, 1, 2, 3, 4, 5, 6]);
    let mut reader = PaaReader::new(&bytes);
    let back = PaaPalette::read_from(&mut reader).unwrap().unwrap();
    assert_eq!(back.pixels, colours);
    assert_eq!(reader.position(), 8);

    let mut reader = PaaReader::new(&[0, 0, 9]);
    assert!(PaaPalette::read_from(&mut reader).unwrap().is_none());
    assert_eq!(reader.position(), 2);
    let mut reader = PaaReader::new(&[2, 0, 1, 2, 3, 4, 5]);
    assert!(matches!(PaaPalette::read_from(&mut reader), Err(PaaError::UnexpectedEof)));
    assert_eq!(reader.position(), 0);
    let mut reader = PaaReader::new(&[2]);
    assert!(matches!(PaaPalette::read_from(&mut reader), Err(PaaError::UnexpectedEof)));

    let many = vec![Bgr888Pixel::default(); 65536];
    assert!(matches!(PaaPalette::with_pixels(&many), Err(PaaError::PaletteTooLarge)));
    let most = PaaPalette::with_pixels(&many[..65535]).unwrap();
    assert_eq!(most.to_bytes().unwrap().len(), 2 + 3 * 65535);
    let too_many = PaaPalette { pixels: many };
    assert_eq!(too_many.to_bytes(), Err(PaaError::PaletteTooLarge));
    assert_eq!(PaaPalette::default().to_bytes().unwrap(), vec![0, 0]);
}

fn sample_image() -> PaaImage {
    PaaImage {
        paatype: PaaType::Argb4444,
        taggs: vec![
            Tagg::Avgc { rgba: Bgra8888Pixel { b: 1, g: 2, r: 3, a: 4 } },
            Tagg::Offs { offsets: vec![1, 2, 3] },
            Tagg::Maxc { rgba: Bgra8888Pixel { b: 5, g: 6, r: 7, a: 8 } },
            Tagg::Flag { transparency: Transparency::AlphaInterpolated },
        ],
        palette: None,
        mipmaps: vec![
            Ok(mipmap(PaaType::Argb4444, 8, 8, 1)),
            Ok(mipmap(PaaType::Argb4444, 4, 4, 2)),
            Ok(mipmap(PaaType::Argb4444, 2, 2, 3)),
        ],
    }
}

#[test]
fn image_round_trip() {
    let image = sample_image();
    let bytes = image.to_bytes().unwrap();
    let back = PaaImage::from_bytes(&bytes).unwrap();
    assert_eq!(back.paatype, PaaType::Argb4444);
    assert!(back.palette.is_none());
    assert_eq!(back.mipmaps, image.mipmaps);
    assert_eq!(back.taggs.len(), 4);
    assert_eq!(back.taggs[0], image.taggs[0]);
    assert_eq!(back.taggs[1], image.taggs[2]);
    assert_eq!(back.taggs[2], image.taggs[3]);
    let again = back.to_bytes().unwrap();
    assert_eq!(again, bytes);
}

#[test]
fn image_layout_and_regenerated_offsets() {
    let image = sample_image();
    let bytes = image.to_bytes().unwrap();
    assert_eq!(&bytes[..2], &[0x44, 0x44]);
    let kept = 3 * 16;
    assert_eq!(&bytes[2 + kept..2 + kept + 12], b"GGATSFFO\x40\x00\x00\x00");
    let first = (2 + kept + 76 + 2) as u32;
    let blocks: Vec<Vec<u8>> =
        image.mipmaps.iter().map(|m| m.as_ref().unwrap().to_bytes().unwrap()).collect();
    let expected = vec![
        first,
        first + blocks[0].len() as u32,
        first + (blocks[0].len() + blocks[1].len()) as u32,
    ];
    let back = PaaImage::from_bytes(&bytes).unwrap();
    assert_eq!(back.taggs[3], Tagg::Offs { offsets: expected.clone() });
    assert_eq!(offsets_tag(&back.taggs), expected);
    assert_eq!(&bytes[2 + kept + 76..2 + kept + 78], &[0, 0]);
    assert_eq!(&bytes[first as usize..first as usize + blocks[0].len()], &blocks[0][..]);
    assert_eq!(&bytes[bytes.len() - 6..], &[0u8; 6]);
    assert_eq!(bytes.len(), first as usize + blocks.iter().map(|b| b.len()).sum::<usize>() + 6);
    assert_eq!(blocks, image.mipmap_blocks().unwrap());
}

#[test]
fn image_without_offsets_is_read_in_sequence() {
    let a = mipmap(PaaType::Dxt5, 8, 8, 1);
    let b = mipmap(PaaType::Dxt5, 4, 4, 2);
    let mut bytes: Vec<u8> = vec![0x05, 0xFF];
    let flag = Tagg::Flag { transparency: Transparency::AlphaInterpolated };
    bytes.extend_from_slice(&flag.to_bytes());
    bytes.extend_from_slice(&[0, 0]);
    bytes.extend_from_slice(&a.to_bytes().unwrap());
    bytes.extend_from_slice(&b.to_bytes().unwrap());
    bytes.extend_from_slice(&[0u8; 6]);
    let image = PaaImage::from_bytes(&bytes).unwrap();
    assert_eq!(image.paatype, PaaType::Dxt5);
    assert_eq!(image.taggs, vec![flag]);
    assert_eq!(image.mipmaps, vec![Ok(a), Ok(b), Err(PaaError::EmptyMipmap)]);
    assert_eq!(
        image.to_bytes(),
        Err(PaaError::InputMipmapErrorWhileEncoding(2, Box::new(PaaError::EmptyMipmap)))
    );
}

#[test]
fn image_read_errors() {
    assert_eq!(PaaImage::from_bytes(&[]).err(), Some(PaaError::UnexpectedEof));
    assert_eq!(PaaImage::from_bytes(&[0x05]).err(), Some(PaaError::UnexpectedEof));
    assert_eq!(
        PaaImage::from_bytes(&[0x12, 0x34, 0, 0]).err(),
        Some(PaaError::UnknownPaaType([0x12, 0x34]))
    );
    let short = PaaImage::from_bytes(&[0x05, 0xFF, 0, 0]).unwrap();
    assert!(short.taggs.is_empty());
    assert_eq!(short.mipmaps, vec![Err(PaaError::UnexpectedEof)]);
    assert_eq!(PaaImage::from_bytes(&[0x05, 0xFF, 0]).err(), Some(PaaError::UnexpectedEof));

    let mut cut_tagg: Vec<u8> = vec![0x05, 0xFF];
    cut_tagg.extend_from_slice(b"GGATCGVA\x04\x00\x00\x00\x01\x02");
    assert_eq!(PaaImage::from_bytes(&cut_tagg).err(), Some(PaaError::UnexpectedEof));

    let mut bad_size: Vec<u8> = vec![0x05, 0xFF];
    bad_size.extend_from_slice(b"GGATCGVA\x03\x00\x00\x00\x01\x02\x03");
    bad_size.extend_from_slice(&[0u8; 20]);
    assert_eq!(PaaImage::from_bytes(&bad_size).err(), Some(PaaError::UnexpectedTaggDataSize));

    let mut with_palette: Vec<u8> = vec![0x47, 0x47];
    with_palette.extend_from_slice(&[1, 0, 9, 9, 9]);
    with_palette.extend_from_slice(&[0u8; 12]);
    assert_eq!(
        PaaImage::from_bytes(&with_palette).err(),
        Some(PaaError::UnknownPaaType([0x47, 0x47]))
    );

    let mut cut_palette: Vec<u8> = vec![0x05, 0xFF];
    cut_palette.extend_from_slice(&[200, 0, 9, 9, 9]);
    cut_palette.extend_from_slice(&[0u8; 12]);
    assert_eq!(PaaImage::from_bytes(&cut_palette).err(), Some(PaaError::UnexpectedEof));

    let mut beyond: Vec<u8> = vec![0x05, 0xFF];
    beyond.extend_from_slice(&Tagg::Offs { offsets: vec![90, 96] }.to_bytes());
    beyond.extend_from_slice(&[0, 0]);
    beyond.extend_from_slice(&[0u8; 16]);
    assert_eq!(beyond.len(), 96);
    assert_eq!(PaaImage::from_bytes(&beyond).err(), Some(PaaError::MipmapOffsetBeyondEof));
    assert!(offsets_within(&[0, 95], 96));
    assert!(!offsets_within(&[0, 96], 96));
    assert!(offsets_within(&[], 0));
}

#[test]
fn image_with_a_damaged_mipmap_keeps_the_others() {
    let image = sample_image();
    let mut bytes = image.to_bytes().unwrap();
    let back = PaaImage::from_bytes(&bytes).unwrap();
    let offsets = offsets_tag(&back.taggs);
    let second = offsets[1] as usize;
    let payload_len = bytes[second + 4] as usize;
    for b in &mut bytes[second + 7..second + 7 + payload_len - 4] {
        *b = 0;
    }
    let damaged = PaaImage::from_bytes(&bytes).unwrap();
    assert_eq!(damaged.mipmaps.len(), 3);
    assert_eq!(damaged.mipmaps[0], image.mipmaps[0]);
    assert!(damaged.mipmaps[1].is_err());
    assert_eq!(damaged.mipmaps[2], image.mipmaps[2]);
}

#[test]
fn image_write_errors() {
    let mut image = sample_image();
    image.mipmaps[1] = Err(PaaError::LzssDecompressError);
    image.mipmaps[2] = Err(PaaError::RleError);
    assert_eq!(
        image.to_bytes(),
        Err(PaaError::InputMipmapErrorWhileEncoding(1, Box::new(PaaError::LzssDecompressError)))
    );

    let mut image = sample_image();
    if let Ok(m) = &mut image.mipmaps[2] {
        m.data.push(0);
    }
    assert_eq!(
        image.to_bytes(),
        Err(PaaError::MipmapErrorWhileSerializing(Box::new(PaaError::UnexpectedMipmapDataSize(
            2, 2, 9
        ))))
    );
    assert_eq!(image.mipmap_blocks(), image.to_bytes().map(|_| vec![]));

    let mut image = sample_image();
    image.mipmaps.clear();
    for i in 0..16u32 {
        image.mipmaps.push(Ok(mipmap(PaaType::Argb4444, 3, 3, i)));
    }
    assert_eq!(MAX_MIPMAPS, 15);
    assert_eq!(image.to_bytes(), Err(PaaError::TooManyMipmaps));
    image.mipmaps.pop();
    let bytes = image.to_bytes().unwrap();
    assert_eq!(PaaImage::from_bytes(&bytes).unwrap().mipmaps, image.mipmaps);

    let mut image = sample_image();
    image.palette = Some(PaaPalette { pixels: vec![Bgr888Pixel::default(); 70000] });
    assert_eq!(image.to_bytes(), Err(PaaError::PaletteTooLarge));
}

#[test]
fn image_copies_and_defaults() {
    let image = sample_image();
    let copy = image.clone();
    assert_eq!(copy.paatype, image.paatype);
    assert_eq!(copy.taggs, image.taggs);
    assert_eq!(copy.mipmaps, image.mipmaps);
    assert_eq!(copy.to_bytes(), image.to_bytes());
    let empty = PaaImage::default();
    assert_eq!(empty.paatype, PaaType::Dxt5);
    assert!(empty.taggs.is_empty() && empty.mipmaps.is_empty() && empty.palette.is_none());
    let bytes = empty.to_bytes().unwrap();
    assert_eq!(bytes.len(), 2 + 76 + 2 + 6);
    let mut expected: Vec<u8> = vec![0x05, 0xFF];
    expected.extend_from_slice(b"GGATSFFO");
    expected.extend_from_slice(&[0x40, 0, 0, 0]);
    expected.extend_from_slice(&[0u8; 64]);
    expected.extend_from_slice(&[0, 0]);
    expected.extend_from_slice(&[0u8; 6]);
    assert_eq!(bytes, expected);
    let back = PaaImage::from_bytes(&bytes).unwrap();
    assert_eq!(back.paatype, PaaType::Dxt5);
    assert_eq!(back.taggs, vec![Tagg::Offs { offsets: vec![] }]);
    assert_eq!(back.mipmaps, vec![Err(PaaError::EmptyMipmap)]);
}

#[test]
fn a_container_without_tags_and_mipmaps_is_read() {
    let bytes: Vec<u8> = vec![0x05, 0xFF, 0, 0, 0, 0, 0, 0, 0, 0];
    let image = PaaImage::from_bytes(&bytes).unwrap();
    assert_eq!(image.paatype, PaaType::Dxt5);
    assert!(image.taggs.is_empty());
    assert!(image.palette.is_none());
    assert_eq!(image.mipmaps, vec![Err(PaaError::EmptyMipmap)]);
}

#[test]
fn container_round_trip_for_every_scheme() {
    let formats = [
        (PaaType::Argb4444, vec![(8u16, 8u16), (4, 4), (2, 2), (1, 1)]),
        (PaaType::Argb8888, vec![(2, 2), (1, 1)]),
        (PaaType::Dxt5, vec![(256, 256), (128, 128), (4, 4)]),
        (PaaType::Dxt1, vec![(512, 128), (8, 4)]),
    ];
    for (format, sides) in formats {
        for fill in [None, Some(0u8)] {
            let mipmaps: Vec<_> = sides
                .iter()
                .enumerate()
                .map(|(i, (w, h))| {
                    let mut m = mipmap(format, *w, *h, i as u32);
                    if let Some(b) = fill {
                        m.data = vec![b; m.data.len()];
                    }
                    Ok(m)
                })
                .collect();
            let image = PaaImage {
                paatype: format,
                taggs: vec![Tagg::Flag { transparency: Transparency::AlphaInterpolated }],
                palette: None,
                mipmaps,
            };
            let bytes = image.to_bytes().unwrap();
            let back = PaaImage::from_bytes(&bytes).unwrap();
            assert_eq!(back.paatype, format);
            assert_eq!(back.mipmaps, image.mipmaps);
            assert_eq!(back.taggs[0], image.taggs[0]);
            assert_eq!(back.taggs.len(), 2);
            assert_eq!(&bytes[bytes.len() - 6..], &[0u8; 6]);
        }
    }
}

#[test]
fn surfaces_split_into_levels() {
    let data = pattern(64 * 32 + 32 * 16 + 16 * 8 + 8 * 4 + 5, 77);
    let levels = surface_levels(PaaType::Dxt5, 64, 32, 10, &data).unwrap();
    let dims: Vec<(u16, u16, usize)> = levels.iter().map(|m| (m.width, m.height, m.data.len())).collect();
    assert_eq!(dims, vec![(64, 32, 2048), (32, 16, 512), (16, 8, 128), (8, 4, 32)]);
    assert_eq!(levels[1].data, data[2048..2560].to_vec());
    assert_eq!(levels[3].data, data[2688..2720].to_vec());
    for level in &levels {
        assert_eq!(level.paatype, PaaType::Dxt5);
        assert_eq!(level.compression, PaaMipmapCompression::Uncompressed);
        assert!(level.validate().is_ok());
    }
    let two = surface_levels(PaaType::Dxt1, 64, 32, 2, &data).unwrap();
    assert_eq!(two.len(), 2);
    assert_eq!(two[1].data.len(), 256);
    assert!(surface_levels(PaaType::Dxt1, 64, 32, 0, &data).unwrap().is_empty());
    assert!(surface_levels(PaaType::Dxt1, 2, 32, 3, &data).unwrap().is_empty());
    let big = pattern(512 * 512, 3);
    let packed = surface_levels(PaaType::Dxt3, 512, 512, 1, &big).unwrap();
    assert_eq!(packed[0].compression, PaaMipmapCompression::Lzo);
}

#[test]
fn surfaces_that_do_not_split() {
    let data = pattern(4000, 78);
    assert_eq!(surface_levels(PaaType::Argb8888, 8, 8, 1, &data), Err(PaaError::UnsupportedPixelFormat));
    assert_eq!(
        surface_levels(PaaType::Dxt5, 10, 8, 1, &data),
        Err(PaaError::DxtMipmapDimensionsNotMultipleOf4(10, 8))
    );
    assert_eq!(
        surface_levels(PaaType::Dxt5, 24, 24, 3, &data),
        Err(PaaError::DxtMipmapDimensionsNotMultipleOf4(6, 6))
    );
    assert_eq!(surface_levels(PaaType::Dxt5, 64, 64, 1, &data), Err(PaaError::MipmapDataBeyondEof));
    assert_eq!(surface_levels(PaaType::Dxt5, 64, 32, 9, &data[..2559]), Err(PaaError::MipmapDataBeyondEof));
    let err = PaaError::DxtMipmapDimensionsNotMultipleOf4(6, 6);
    assert_eq!(err.duplicate(), err);
}
