use a3_paa::bytes::{extend_with_uint, Endian, PaaReader};
use a3_paa::error::PaaError;
use a3_paa::lzss::{additive_checksum, lzss_decode, lzss_encode, lzss_encode_literals};
use a3_paa::mipmap::{accept_block, same_bytes};
use a3_paa::mipmap::PaaMipmapCompression;
use a3_paa::paatype::PaaType;
use a3_paa::pixel::{
    convert_u8, from_canonical, reverse_quads, to_canonical, Argb1555Pixel, Argb4444Pixel,
    ArgbPixel, Bgr888Pixel, Bgra8888Pixel, PackedLayout,
};
use a3_paa::rle::{rle_decode, rle_encode};

fn sample(len: usize, seed: u32) -> Vec<u8> {
    let mut state = seed;
    let mut out = Vec::with_capacity(len);
    for i in 0..len {
        state = state.wrapping_mul(1664525).wrapping_add(1013904223);
        let byte = if (i / 37) % 3 == 0 { (state >> 24) as u8 } else { (i / 11) as u8 };
        out.push(byte);
    }
    out
}

#[test]
fn test_extend_with_uint() {
    let mut dest: Vec<u8> = vec![];

    extend_with_uint(&mut dest, Endian::Little, 1234, 2);
    assert_eq!(dest, vec![0xD2, 0x04]);

    extend_with_uint(&mut dest, Endian::Little, 1234, 3);
    assert_eq!(dest, vec![0xD2, 0x04, 0xD2, 0x04, 0x00]);

    extend_with_uint(&mut dest, Endian::Big, 5678, 4);
    assert_eq!(dest, vec![0xD2, 0x04, 0xD2, 0x04, 0x00, 0x00, 0x00, 0x16, 0x2E]);
}

#[test]
fn test_read_exact_buffered() {
    let data = vec![0x41u8, 0x42, 0x43, 0x44, 0x45, 0x46];
    let mut input = PaaReader::new(&data);
    assert_eq!(input.read_exact_buffered(1).unwrap(), vec![0x41u8]);
    assert_eq!(input.read_exact_buffered(2).unwrap(), vec![0x42u8, 0x43]);
    assert_eq!(input.read_exact_buffered(3).unwrap(), vec![0x44u8, 0x45, 0x46]);
}

#[test]
fn read_past_the_end_fails_and_keeps_the_position() {
    let data = vec![1u8, 2, 3];
    let mut input = PaaReader::new(&data);
    assert_eq!(input.read_exact_buffered(2).unwrap(), vec![1u8, 2]);
    assert_eq!(input.read_exact_buffered(2), Err(PaaError::UnexpectedEof));
    assert_eq!(input.position(), 2);
    assert_eq!(input.read_u16(), Err(PaaError::UnexpectedEof));
    assert_eq!(input.read_exact_buffered(1).unwrap(), vec![3u8]);
    assert_eq!(input.read_exact_buffered(0).unwrap(), Vec::<u8>::new());
    input.seek(10);
    assert_eq!(input.read_exact_buffered(1), Err(PaaError::UnexpectedEof));
}

#[test]
fn reader_reads_little_endian_fields() {
    let data = vec![0xD2u8, 0x04, 0x56, 0x34, 0x12];
    let mut input = PaaReader::new(&data);
    assert_eq!(input.read_u16(), Ok(1234));
    assert_eq!(input.read_u24(), Ok(0x123456));
    assert_eq!(input.position(), 5);
}

#[test]
fn argb1555pixel_bytes() {
    let purple_rgba = vec![0x6B, 0x00, 0x94, 0xFF];
    let purple_1555 = vec![0x12, 0xB4];
    assert_eq!(Argb1555Pixel::convert_from_rgba8_slice(&purple_rgba).unwrap(), purple_1555);
    assert_eq!(Argb1555Pixel::convert_to_rgba8_slice(&purple_1555).unwrap(), purple_rgba);

    let manual_1555 = vec![0x12, 0x34];
    let manual_rgba = vec![0x6B, 0x00, 0x94, 0x00];
    assert_eq!(Argb1555Pixel::convert_from_rgba8_slice(&manual_rgba).unwrap(), manual_1555);
    assert_eq!(Argb1555Pixel::convert_to_rgba8_slice(&manual_1555).unwrap(), manual_rgba);
}

#[test]
fn argb4444_pixels_convert_both_ways() {
    let rgba = vec![0x33, 0x66, 0x99, 0xFF];
    let packed = vec![0x69, 0xF3];
    assert_eq!(Argb4444Pixel::convert_from_rgba8_slice(&rgba).unwrap(), packed);
    assert_eq!(Argb4444Pixel::convert_to_rgba8_slice(&packed).unwrap(), rgba);
}

#[test]
fn rounding_rule_has_the_documented_bias() {
    assert_eq!(convert_u8(13, 5, 8), 107);
    assert_eq!(convert_u8(18, 5, 8), 148);
    assert_eq!(convert_u8(107, 8, 5), 13);
    assert_eq!(convert_u8(0x94, 8, 5), 18);
    assert_eq!(convert_u8(7, 4, 8), 119);
    assert_eq!(convert_u8(128, 8, 4), 8);
    assert_eq!(convert_u8(127, 8, 1), 0);
    assert_eq!(convert_u8(128, 8, 1), 1);
    assert_eq!(convert_u8(1, 1, 8), 255);
}

#[test]
fn zero_and_full_scale_round_trip_exactly() {
    for width in [1u8, 4, 5] {
        let full = ((1u16 << width) - 1) as u8;
        assert_eq!(convert_u8(0, 8, width), 0);
        assert_eq!(convert_u8(0, width, 8), 0);
        assert_eq!(convert_u8(255, 8, width), full);
        assert_eq!(convert_u8(full, width, 8), 255);
    }
    let extremes = vec![0u8, 255, 0, 255, 255, 0, 255, 0];
    for format in [PaaType::Argb1555, PaaType::Argb4444, PaaType::Argb8888] {
        let packed = from_canonical(format, &extremes).unwrap();
        assert_eq!(to_canonical(format, &packed).unwrap(), extremes);
    }
}

#[test]
fn packed_pixels_survive_the_way_to_rgba_and_back() {
    let mut packed = Vec::new();
    for word in (0u32..65536).step_by(7) {
        packed.push((word % 256) as u8);
        packed.push((word / 256) as u8);
    }
    for format in [PaaType::Argb1555, PaaType::Argb4444] {
        let rgba = to_canonical(format, &packed).unwrap();
        assert_eq!(rgba.len(), packed.len() * 2);
        assert_eq!(from_canonical(format, &rgba).unwrap(), packed);
    }
    let quads = sample(64, 5);
    let rgba = to_canonical(PaaType::Argb8888, &quads).unwrap();
    assert_eq!(from_canonical(PaaType::Argb8888, &rgba).unwrap(), quads);
}

#[test]
fn conversion_to_a_format_settles_after_one_pass() {
    let rgba = sample(400, 11);
    for format in [PaaType::Argb1555, PaaType::Argb4444, PaaType::Argb8888] {
        let packed = from_canonical(format, &rgba).unwrap();
        let back = to_canonical(format, &packed).unwrap();
        assert_eq!(from_canonical(format, &back).unwrap(), packed);
    }
}

#[test]
fn pixel_conversion_rejects_odd_lengths_and_other_formats() {
    assert_eq!(to_canonical(PaaType::Argb1555, &[1, 2, 3]), Err(PaaError::PixelReadError));
    assert_eq!(to_canonical(PaaType::Argb8888, &[1, 2]), Err(PaaError::PixelReadError));
    assert_eq!(from_canonical(PaaType::Argb4444, &[1, 2, 3, 4, 5]), Err(PaaError::PixelReadError));
    assert_eq!(from_canonical(PaaType::Argb8888, &[1, 2, 3]), Err(PaaError::PixelReadError));
    assert_eq!(to_canonical(PaaType::Dxt5, &[0; 16]), Err(PaaError::UnsupportedPixelFormat));
    assert_eq!(from_canonical(PaaType::Ai88, &[0; 4]), Err(PaaError::UnsupportedPixelFormat));
    assert_eq!(to_canonical(PaaType::IndexPalette, &[]), Err(PaaError::UnsupportedPixelFormat));
    assert_eq!(to_canonical(PaaType::Argb4444, &[]).unwrap(), Vec::<u8>::new());
}

#[test]
fn reverse_quads_swaps_channel_order() {
    assert_eq!(reverse_quads(&[1, 2, 3, 4, 5, 6, 7, 8]).unwrap(), vec![4, 3, 2, 1, 8, 7, 6, 5]);
}

#[test]
fn packed_layouts_pack_and_unpack_words() {
    let p = PackedLayout::Argb1555.unpack(0x12, 0xB4);
    assert_eq!(p, ArgbPixel { a: 1, r: 13, g: 0, b: 18 });
    assert_eq!(PackedLayout::Argb1555.pack(p), [0x12, 0xB4]);
    let q = PackedLayout::Argb4444.unpack(0x69, 0xF3);
    assert_eq!(q, ArgbPixel { a: 15, r: 3, g: 6, b: 9 });
    assert_eq!(PackedLayout::Argb4444.pack(q), [0x69, 0xF3]);
    assert_eq!(PackedLayout::Argb4444.widen(q), [0x33, 0x66, 0x99, 0xFF]);
    assert_eq!(PackedLayout::Argb4444.narrow([0x33, 0x66, 0x99, 0xFF]), q);
    assert_eq!(PackedLayout::Argb1555.alpha_width(), 1);
    assert_eq!(PackedLayout::Argb1555.color_width(), 5);
}

#[test]
fn colour_pixels_have_their_wire_order() {
    let c = Bgra8888Pixel::from_rgba([1, 2, 3, 4]);
    assert_eq!(c, Bgra8888Pixel { b: 3, g: 2, r: 1, a: 4 });
    assert_eq!(c.to_bytes(), [3, 2, 1, 4]);
    assert_eq!(Bgra8888Pixel::from_bytes([3, 2, 1, 4]), c);
    assert_eq!(Bgra8888Pixel::default(), Bgra8888Pixel { b: 0, g: 0, r: 0, a: 0 });
    let p = Bgr888Pixel::from_bytes([9, 8, 7]);
    assert_eq!(p, Bgr888Pixel { b: 9, g: 8, r: 7 });
    assert_eq!(p.to_bytes(), [9, 8, 7]);
}

#[test]
fn run_length_round_trip() {
    let mut inputs: Vec<Vec<u8>> = vec![
        vec![],
        vec![7],
        vec![7, 7],
        vec![7, 7, 7],
        vec![1, 2, 3, 4, 5],
        vec![0; 128],
        vec![0; 129],
        vec![0; 1000],
        (0..=255u8).collect(),
    ];
    inputs.push(sample(5000, 1));
    inputs.push(sample(777, 2));
    let mut long_literal: Vec<u8> = Vec::new();
    for i in 0..300u32 {
        long_literal.push((i % 2) as u8);
    }
    inputs.push(long_literal);
    for input in inputs {
        let packed = rle_encode(&input);
        assert_eq!(rle_decode(&packed).unwrap(), input);
    }
}

#[test]
fn run_length_groups_runs_of_three() {
    assert_eq!(rle_encode(&[1, 1, 1, 2, 3]), vec![0x82, 1, 0x01, 2, 3]);
    assert_eq!(rle_encode(&[5, 5, 6, 6]), vec![0x03, 5, 5, 6, 6]);
    assert_eq!(rle_encode(&[]), Vec::<u8>::new());
    assert_eq!(rle_encode(&[9; 130]), vec![0xFF, 9, 0x01, 9, 9]);
    let mut literal = Vec::new();
    for i in 0..129u32 {
        literal.push((i % 2) as u8);
    }
    let packed = rle_encode(&literal);
    assert_eq!(packed.len(), 131);
    assert_eq!(packed[0], 127);
    assert_eq!(packed[129], 0);
}

#[test]
fn run_length_decodes_blocks() {
    assert_eq!(rle_decode(&[0x82, 9]).unwrap(), vec![9, 9, 9]);
    assert_eq!(rle_decode(&[0x01, 4, 5, 0x80, 6]).unwrap(), vec![4, 5, 6]);
    assert_eq!(rle_decode(&[]).unwrap(), Vec::<u8>::new());
}

#[test]
fn run_length_rejects_truncated_streams() {
    assert_eq!(rle_decode(&[0x82]), Err(PaaError::RleError));
    assert_eq!(rle_decode(&[0x02, 1, 2]), Err(PaaError::RleError));
    assert_eq!(rle_decode(&[0x00]), Err(PaaError::RleError));
    assert_eq!(rle_decode(&[0x00, 1, 0x85]), Err(PaaError::RleError));
}

#[test]
fn dictionary_round_trip() {
    let mut inputs: Vec<Vec<u8>> = vec![
        vec![],
        vec![1],
        vec![1, 2],
        vec![0; 16],
        vec![0; 5000],
        (0..=255u8).collect(),
    ];
    inputs.push(sample(20000, 3));
    inputs.push(sample(4097, 4));
    let mut periodic = Vec::new();
    for i in 0..10000u32 {
        periodic.push((i % 5) as u8);
    }
    inputs.push(periodic);
    for input in inputs {
        let packed = lzss_encode(&input);
        assert!(packed.len() <= input.len() + input.len() / 8 + 1);
        assert_eq!(lzss_decode(&packed).unwrap(), input);
    }
}

#[test]
fn dictionary_stream_of_zeroes() {
    assert_eq!(lzss_encode(&[0; 16]), vec![0x01, 0x00, 0x01, 0x0C]);
    assert_eq!(lzss_decode(&[0x01, 0x00, 0x01, 0x0C]).unwrap(), vec![0u8; 16]);
}

#[test]
fn dictionary_stream_points_back_to_where_three_bytes_were_seen() {
    assert_eq!(lzss_encode(&[]), Vec::<u8>::new());
    assert_eq!(lzss_encode(&[1, 2]), vec![0x03, 1, 2]);
    assert_eq!(lzss_encode(b"abcabcabc"), vec![0x07, b'a', b'b', b'c', 0x03, 0x03]);
    assert_eq!(
        lzss_encode(&[1, 2, 3, 4, 5, 6, 7, 8, 9]),
        vec![0xFF, 1, 2, 3, 4, 5, 6, 7, 8, 0x01, 9]
    );
    assert_eq!(
        lzss_encode(b"abcdefgh-abcd"),
        vec![0xFF, b'a', b'b', b'c', b'd', b'e', b'f', b'g', b'h', 0x01, b'-', 0x09, 0x01]
    );
    let mut apart = vec![7u8, 8, 9];
    apart.extend(std::iter::repeat(0u8).take(4096));
    apart.extend([7u8, 8, 9]);
    let packed = lzss_encode(&apart);
    assert_eq!(&packed[packed.len() - 4..], &[0x07, 7, 8, 9]);
}

#[test]
fn a_block_is_accepted_where_it_expands_to_the_data() {
    let data = sample(70000, 11);
    let block = PaaMipmapCompression::Lzo.compress_slice(&data).unwrap();
    assert_eq!(accept_block(block.clone(), &data), Ok(block.clone()));
    let mut other = data.clone();
    other[69999] ^= 0xFF;
    assert!(matches!(accept_block(block.clone(), &other), Err(PaaError::LzoError(_))));
    assert!(matches!(accept_block(block.clone(), &data[..100]), Err(PaaError::LzoError(_))));
    assert!(matches!(accept_block(vec![0x11, 0x22, 0x33], &data), Err(PaaError::LzoError(_))));
}

#[test]
fn dictionary_decodes_literals_and_pointers() {
    assert_eq!(lzss_decode(&[0xFF, 1, 2, 3]).unwrap(), vec![1, 2, 3]);
    assert_eq!(lzss_decode(&[0x03, 7, 8, 0x02, 0x01]).unwrap(), vec![7, 8, 7, 8, 7, 8]);
    assert_eq!(lzss_decode(&[0x00, 0x05, 0x00]).unwrap(), vec![0x20, 0x20, 0x20]);
    assert_eq!(lzss_decode(&[0x01, 9, 0x03, 0x02]).unwrap(), vec![9, 0x20, 0x20, 9, 0x20, 0x20]);
    assert_eq!(lzss_decode(&[0x55]).unwrap(), Vec::<u8>::new());
    let nine: Vec<u8> = vec![0xFF, 1, 2, 3, 4, 5, 6, 7, 8, 0x01, 9];
    assert_eq!(lzss_decode(&nine).unwrap(), vec![1, 2, 3, 4, 5, 6, 7, 8, 9]);
}

#[test]
fn dictionary_rejects_malformed_pointers() {
    assert_eq!(lzss_decode(&[0x00, 0x01]), Err(PaaError::LzssDecompressError));
    assert_eq!(lzss_decode(&[0x00, 0x00, 0x00]), Err(PaaError::LzssDecompressError));
    assert_eq!(lzss_decode(&[0x01, 5, 0x00, 0x0F]), Err(PaaError::LzssDecompressError));
}

#[test]
fn additive_checksum_wraps_to_signed() {
    assert_eq!(additive_checksum(&[]), 0);
    assert_eq!(additive_checksum(&[0; 16]), 0);
    assert_eq!(additive_checksum(&[1, 2, 3]), 6);
    assert_eq!(additive_checksum(&[255; 4]), 1020);
    let big = vec![255u8; 8421505];
    assert_eq!(additive_checksum(&big), i32::MIN + 127);
    let wrap = vec![255u8; 16843010];
    assert_eq!(additive_checksum(&wrap), 254);
}

#[test]
fn literal_example_dictionary_codec() {
    let data = vec![0u8; 16];
    let mut block = PaaMipmapCompression::Lzss.compress_slice(&data).unwrap();
    let sum = additive_checksum(&data);
    block.extend_from_slice(&sum.to_le_bytes());
    let n = block.len();
    assert_eq!(&block[n - 4..], &[0u8, 0, 0, 0]);
    let back = PaaMipmapCompression::Lzss.decompress_slice(&block[..n - 4], 16).unwrap();
    assert_eq!(back, data);
}

#[test]
fn schemes_round_trip_through_their_slices() {
    let data = sample(3000, 9);
    for scheme in [
        PaaMipmapCompression::Uncompressed,
        PaaMipmapCompression::Lzss,
        PaaMipmapCompression::RleBlocks,
        PaaMipmapCompression::Lzo,
    ] {
        let packed = scheme.compress_slice(&data).unwrap();
        assert_eq!(scheme.decompress_slice(&packed, data.len()).unwrap(), data);
    }
    assert_eq!(PaaMipmapCompression::Uncompressed.compress_slice(&data).unwrap(), data);
}

#[test]
fn block_codec_packs_and_unpacks() {
    let data = vec![0x5Au8; 70000];
    let packed = PaaMipmapCompression::Lzo.compress_slice(&data).unwrap();
    assert!(packed.len() < 2000);
    assert_ne!(packed, data);
    assert_eq!(PaaMipmapCompression::Lzo.decompress_slice(&packed, 70000).unwrap(), data);
    let broken = PaaMipmapCompression::Lzo.decompress_slice(&[0x11, 0x22, 0x33], 64);
    assert!(matches!(broken, Err(PaaError::LzoError(_))));
}

#[test]
fn errors_are_copied_with_their_contents() {
    let inner = PaaError::UnexpectedMipmapDataSize(2, 3, 4);
    let outer = PaaError::InputMipmapErrorWhileEncoding(5, Box::new(inner));
    assert_eq!(outer.duplicate(), outer);
    assert_eq!(outer.clone(), outer);
    let text = PaaError::LzoError(String::from("InputOverrun"));
    assert_eq!(text.duplicate(), text);
    assert_ne!(PaaError::UnknownPaaType([1, 2]).duplicate(), PaaError::UnknownPaaType([1, 3]));
}

#[test]
fn channel_values_move_by_at_most_half_a_step() {
    for (width, slack) in [(1u8, 127i32), (4, 8), (5, 4)] {
        let mut worst = 0;
        for v in 0..=255u8 {
            let back = convert_u8(convert_u8(v, 8, width), width, 8);
            let moved = (back as i32 - v as i32).abs();
            assert!(moved <= slack);
            worst = worst.max(moved);
        }
        assert_eq!(worst, slack);
        let full = ((1u16 << width) - 1) as u8;
        for n in 0..=full {
            assert_eq!(convert_u8(convert_u8(n, width, 8), 8, width), n);
        }
    }
    let rgba: Vec<u8> = (0..=255u8).flat_map(|v| [v, 255 - v, v / 2, v]).collect();
    let back = to_canonical(PaaType::Argb1555, &from_canonical(PaaType::Argb1555, &rgba).unwrap()).unwrap();
    assert_eq!(back.len(), rgba.len());
    for (i, (a, b)) in rgba.iter().zip(back.iter()).enumerate() {
        let slack = if i % 4 == 3 { 127 } else { 4 };
        assert!((*a as i32 - *b as i32).abs() <= slack);
    }
    let back = to_canonical(PaaType::Argb4444, &from_canonical(PaaType::Argb4444, &rgba).unwrap()).unwrap();
    for (a, b) in rgba.iter().zip(back.iter()) {
        assert!((*a as i32 - *b as i32).abs() <= 8);
    }
}

#[test]
fn dictionary_stream_of_literals() {
    assert_eq!(lzss_encode_literals(&[]), Vec::<u8>::new());
    assert_eq!(lzss_encode_literals(&[5]), vec![0x01, 5]);
    assert_eq!(lzss_encode_literals(&[0; 8]), vec![0xFF, 0, 0, 0, 0, 0, 0, 0, 0]);
    assert_eq!(lzss_encode_literals(&[1, 2, 3, 4, 5, 6, 7, 8, 9]), vec![0xFF, 1, 2, 3, 4, 5, 6, 7, 8, 0x01, 9]);
    for len in [0usize, 1, 7, 8, 9, 16, 17, 1000] {
        let data = sample(len, 12);
        let packed = lzss_encode_literals(&data);
        assert_eq!(packed.len(), len + (len + 7) / 8);
        assert_eq!(lzss_decode(&packed).unwrap(), data);
    }
}

#[test]
fn slices_are_held_against_each_other() {
    assert!(same_bytes(&[], &[]));
    assert!(same_bytes(&[1, 2, 3], &[1, 2, 3]));
    assert!(!same_bytes(&[1, 2, 3], &[1, 2, 4]));
    assert!(!same_bytes(&[1, 2, 3], &[1, 2]));
    assert!(!same_bytes(&[], &[0]));
}
