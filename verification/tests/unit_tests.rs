// Unit tests of the component layers: bit readers, palettes, per-variant
// block decoders, swizzling, partial-block clipping, and the BC6H numeric
// helpers.
use bcndecode::bc6h::{bc6_sign_extend, bc6_unquantize, half_to_float_bits};
use bcndecode::bcndecode as legacy;
use bcndecode::bits::{get_bit, get_bits, load_16, load_32};
use bcndecode::palette::decode_565;
use bcndecode::{decode, BcnDecoderFormat, BcnEncoding, Error};

#[test]
fn decode_565_extremes_and_primaries() {
    let black = decode_565(0x0000);
    assert_eq!((black.r, black.g, black.b, black.a), (0, 0, 0, 255));
    let white = decode_565(0xFFFF);
    assert_eq!((white.r, white.g, white.b, white.a), (255, 255, 255, 255));
    let red = decode_565(0xF800);
    assert_eq!((red.r, red.g, red.b, red.a), (255, 0, 0, 255));
    let green = decode_565(0x07E0);
    assert_eq!((green.r, green.g, green.b, green.a), (0, 255, 0, 255));
    let blue = decode_565(0x001F);
    assert_eq!((blue.r, blue.g, blue.b, blue.a), (0, 0, 255, 255));
}

#[test]
fn loads_and_bit_reads() {
    let data = [0x12u8, 0x34, 0x56, 0x78, 0xAB];
    assert_eq!(load_16(&data, 0), 0x3412);
    assert_eq!(load_16(&data, 2), 0x7856);
    assert_eq!(load_32(&data, 0), 0x78563412);
    assert_eq!(load_32(&data, 1), 0xAB785634);
    // 0x12 = 0b00010010
    assert_eq!(get_bit(&data, 0), 0);
    assert_eq!(get_bit(&data, 1), 1);
    assert_eq!(get_bit(&data, 4), 1);
    assert_eq!(get_bits(&data, 0, 0), 0);
    assert_eq!(get_bits(&data, 0, 4), 0x2);
    assert_eq!(get_bits(&data, 4, 4), 0x1);
    // a read spanning two bytes: bits 6..11 of 0x3412
    assert_eq!(get_bits(&data, 6, 5), (0x3412 >> 6) as u8 & 0x1F);
}

#[test]
fn bc3_alpha_equal_endpoints_palette() {
    // endpoints equal: the four interpolated entries all equal the endpoint,
    // and the decoder's two-endpoint rule pins entries 6 and 7 to 0 and 255.
    // the lookup table walks indices 0..7 over the first eight pixels
    let block: [u8; 8] = [0x40, 0x40, 0x88, 0xC6, 0xFA, 0x00, 0x00, 0x00];
    let decoded = decode(&block, 4, 4, BcnEncoding::Bc4, BcnDecoderFormat::LUM).unwrap();
    assert_eq!(decoded.len(), 16);
    assert_eq!(
        &decoded[0..8],
        &[0x40, 0x40, 0x40, 0x40, 0x40, 0x40, 0x00, 0xFF]
    );
    assert_eq!(&decoded[8..16], &[0x40; 8]);
}

#[test]
fn bc3_alpha_interpolation_truncates() {
    // a0 = 200 > a1 = 100: the palette interpolates in sevenths, truncating
    let block: [u8; 16] = [
        200, 100, 0x88, 0xC6, 0xFA, 0x00, 0x00, 0x00, 0x00, 0xF8, 0x1F, 0x00, 0x00, 0x00, 0x00,
        0x00,
    ];
    let decoded = decode(&block, 4, 4, BcnEncoding::Bc3, BcnDecoderFormat::RGBA).unwrap();
    let alphas: Vec<u8> = (0..8).map(|n| decoded[4 * n + 3]).collect();
    assert_eq!(alphas, vec![200, 100, 185, 171, 157, 142, 128, 114]);
    // color channels still come from the BC1 color block
    assert_eq!(&decoded[0..3], &[255, 0, 0]);
}

#[test]
fn bc1_half_blend_and_transparent_black() {
    // c0 <= c1: palette entry 2 is the half blend, entry 3 transparent black;
    // the lookup table picks indices 0, 1, 2, 3 for the first four pixels
    let block: [u8; 8] = [0x1F, 0x00, 0x00, 0xF8, 0xE4, 0x00, 0x00, 0x00];
    let decoded = decode(&block, 4, 4, BcnEncoding::Bc1, BcnDecoderFormat::RGBA).unwrap();
    assert_eq!(&decoded[0..4], &[0, 0, 255, 255]);
    assert_eq!(&decoded[4..8], &[255, 0, 0, 255]);
    assert_eq!(&decoded[8..12], &[127, 0, 127, 255]);
    assert_eq!(&decoded[12..16], &[0, 0, 0, 0]);
}

#[test]
fn bc1_thirds_blend() {
    // c0 > c1: palette entries 2 and 3 are the thirds blends
    let block: [u8; 8] = [0x00, 0xF8, 0x1F, 0x00, 0xE4, 0x00, 0x00, 0x00];
    let decoded = decode(&block, 4, 4, BcnEncoding::Bc1, BcnDecoderFormat::RGBA).unwrap();
    assert_eq!(&decoded[0..4], &[255, 0, 0, 255]);
    assert_eq!(&decoded[4..8], &[0, 0, 255, 255]);
    assert_eq!(&decoded[8..12], &[170, 0, 85, 255]);
    assert_eq!(&decoded[12..16], &[85, 0, 170, 255]);
}

#[test]
fn bc2_explicit_alpha_nibbles() {
    // alpha nibbles 0x0 and 0x1 for the first two pixels, replicated to
    // 0x00 and 0x11
    let block: [u8; 16] = [
        0x10, 0x32, 0x54, 0x76, 0x98, 0xBA, 0xDC, 0xFE, 0x00, 0xF8, 0x1F, 0x00, 0x00, 0x00, 0x00,
        0x00,
    ];
    let decoded = decode(&block, 4, 4, BcnEncoding::Bc2, BcnDecoderFormat::RGBA).unwrap();
    let alphas: Vec<u8> = (0..16).map(|n| decoded[4 * n + 3]).collect();
    let expected: Vec<u8> = (0..16).map(|n| (n | (n << 4)) as u8).collect();
    assert_eq!(alphas, expected);
}

#[test]
fn swizzle_permutes_channels() {
    // one red BC1 block decoded to each layout; source red is (255,0,0,255)
    let block: [u8; 8] = [0x00, 0xF8, 0x1F, 0x00, 0x00, 0x00, 0x00, 0x00];
    let rgba = decode(&block, 4, 4, BcnEncoding::Bc1, BcnDecoderFormat::RGBA).unwrap();
    let bgra = decode(&block, 4, 4, BcnEncoding::Bc1, BcnDecoderFormat::BGRA).unwrap();
    let argb = decode(&block, 4, 4, BcnEncoding::Bc1, BcnDecoderFormat::ARGB).unwrap();
    let abgr = decode(&block, 4, 4, BcnEncoding::Bc1, BcnDecoderFormat::ABGR).unwrap();
    assert_eq!(&rgba[0..4], &[255, 0, 0, 255]);
    assert_eq!(&bgra[0..4], &[0, 0, 255, 255]);
    assert_eq!(&abgr[0..4], &[255, 0, 0, 255]);
    // each source channel lands in the channel its 2-bit swizzle field names
    for (out, swizzle) in [(&bgra, 0xC6u8), (&argb, 0x93), (&abgr, 0x1B)] {
        for p in 0..16 {
            for c in 0..4 {
                let dest = ((swizzle >> (2 * c)) & 3) as usize;
                assert_eq!(out[4 * p + dest], rgba[4 * p + c as usize]);
            }
        }
    }
}

#[test]
fn partial_block_mode_six_by_six() {
    // a 6x6 BC1 image: 2x2 blocks of four solid colors; rows are written
    // bottom-up (pre-flip row sy lands on destination row 5 - sy) and the
    // out-of-bounds pixels of the right and bottom blocks are clipped
    let red: [u8; 8] = [0x00, 0xF8, 0x00, 0xF8, 0x00, 0x00, 0x00, 0x00];
    let green: [u8; 8] = [0xE0, 0x07, 0xE0, 0x07, 0x00, 0x00, 0x00, 0x00];
    let blue: [u8; 8] = [0x1F, 0x00, 0x1F, 0x00, 0x00, 0x00, 0x00, 0x00];
    let white: [u8; 8] = [0xFF, 0xFF, 0xFF, 0xFF, 0x00, 0x00, 0x00, 0x00];
    let mut compressed = Vec::new();
    compressed.extend_from_slice(&red);
    compressed.extend_from_slice(&green);
    compressed.extend_from_slice(&blue);
    compressed.extend_from_slice(&white);
    let decoded = decode(&compressed, 6, 6, BcnEncoding::Bc1, BcnDecoderFormat::RGBA).unwrap();
    assert_eq!(decoded.len(), 144);
    for y in 0..6usize {
        for x in 0..6usize {
            let sy = 5 - y;
            let color: [u8; 4] = match (sy / 4, x / 4) {
                (0, 0) => [255, 0, 0, 255],
                (0, 1) => [0, 255, 0, 255],
                (1, 0) => [0, 0, 255, 255],
                _ => [255, 255, 255, 255],
            };
            assert_eq!(&decoded[4 * (6 * y + x)..4 * (6 * y + x) + 4], &color);
        }
    }
}

#[test]
fn error_on_empty_dimensions() {
    let data = [0u8; 64];
    assert_eq!(
        decode(&data, 0, 4, BcnEncoding::Bc1, BcnDecoderFormat::RGBA),
        Err(Error::InvalidImageSize)
    );
    assert_eq!(
        decode(&data, 4, 0, BcnEncoding::Bc3, BcnDecoderFormat::RGBA),
        Err(Error::InvalidImageSize)
    );
}

#[test]
fn error_on_lum_without_bc4() {
    let data = [0u8; 64];
    assert_eq!(
        decode(&data, 4, 4, BcnEncoding::Bc1, BcnDecoderFormat::LUM),
        Err(Error::InvalidPixelFormat)
    );
    assert_eq!(
        decode(&data, 4, 4, BcnEncoding::Bc6H, BcnDecoderFormat::LUM),
        Err(Error::InvalidPixelFormat)
    );
    assert!(decode(&data, 4, 4, BcnEncoding::Bc4, BcnDecoderFormat::LUM).is_ok());
}

#[test]
fn half_to_float_bit_patterns() {
    assert_eq!(half_to_float_bits(0x0000), 0x00000000);
    assert_eq!(half_to_float_bits(0x8000), 0x80000000);
    assert_eq!(half_to_float_bits(0x3C00), 0x3F800000); // 1.0
    assert_eq!(half_to_float_bits(0x7BFF), 0x477FE000); // 65504.0
    assert_eq!(half_to_float_bits(0x0400), 0x38800000); // smallest normal
    assert_eq!(half_to_float_bits(0x0001), 0x33800000); // smallest subnormal
    assert_eq!(half_to_float_bits(0x7C00), 0x7F800000); // infinity
    assert_eq!(half_to_float_bits(0x7C01), 0x7F802000); // NaN keeps payload
    assert_eq!(half_to_float_bits(0x3555), 0x3EAAA000); // about one third
}

#[test]
fn unquantize_values_and_monotonicity() {
    assert_eq!(bc6_unquantize(0, 10, false), 0);
    assert_eq!(bc6_unquantize(1, 10, false), 96);
    assert_eq!(bc6_unquantize(512, 10, false), 32800);
    assert_eq!(bc6_unquantize(1023, 10, false), 0xFFFF);
    assert_eq!(bc6_unquantize(0x1234, 15, false), 0x1234);
    assert_eq!(bc6_unquantize(700, 10, true), 0x7FFF);
    assert_eq!(bc6_unquantize(0xBEEF, 16, true), 0xBEEF);
    for prec in [6u16, 10, 14] {
        let mut last = 0u64;
        for v in 0..(1u16 << prec) {
            let q = bc6_unquantize(v, prec, false);
            assert!(q >= last);
            last = q;
        }
    }
}

#[test]
fn sign_extend_replicates_top_bit() {
    let mut v: u16 = 0x20;
    bc6_sign_extend(&mut v, 6);
    assert_eq!(v, 0xFFE0);
    let mut w: u16 = 0x1F;
    bc6_sign_extend(&mut w, 6);
    assert_eq!(w, 0x1F);
}

#[test]
fn legacy_surface_maps_errors_and_decodes() {
    let block: [u8; 8] = [0x00, 0xF8, 0x1F, 0x00, 0x00, 0x00, 0x00, 0x00];
    let decoded = legacy::decode_rust(
        &block,
        4,
        4,
        legacy::BcnEncoding::Bc1,
        legacy::BcnDecoderFormat::RGBA,
    )
    .unwrap();
    assert_eq!(&decoded[0..4], &[255, 0, 0, 255]);
    assert_eq!(
        legacy::decode_rust(
            &block,
            4,
            4,
            legacy::BcnEncoding::Raw,
            legacy::BcnDecoderFormat::RGBA,
        ),
        Err(legacy::Error::new(legacy::ErrorKind::NotImplemented))
    );
    assert_eq!(
        legacy::decode_rust(
            &block,
            4,
            4,
            legacy::BcnEncoding::Bc7,
            legacy::BcnDecoderFormat::RGBA,
        ),
        Err(legacy::Error::new(legacy::ErrorKind::NotImplemented))
    );
    assert_eq!(
        legacy::decode_rust(
            &block,
            0,
            4,
            legacy::BcnEncoding::Bc1,
            legacy::BcnDecoderFormat::RGBA,
        ),
        Err(legacy::Error::new(legacy::ErrorKind::InvalidImageSize))
    );
    assert_eq!(
        legacy::ErrorKind::NotImplemented.as_str(),
        "Feature is not implemented"
    );
    assert_eq!(
        legacy::ErrorKind::InvalidImageSize.as_str(),
        "Size of the image is invalid"
    );
    assert_eq!(
        legacy::ErrorKind::ImageDecodingError.as_str(),
        "Failed to decode image"
    );
    assert_eq!(Error::InvalidImageSize.description(), "Size of the image is invalid");
}

#[test]
fn bc4_with_rgba_format_copies_single_bytes() {
    // BC4 also decodes under RGBA: the identity swizzle degenerates to a
    // one-byte copy per pixel
    let block: [u8; 8] = [0x42, 0x40, 0x00, 0x00, 0x00, 0x00, 0x00, 0x00];
    let decoded = decode(&block, 4, 4, BcnEncoding::Bc4, BcnDecoderFormat::RGBA).unwrap();
    assert_eq!(decoded.len(), 16);
    assert!(decoded.iter().all(|&b| b == 0x42));
}
