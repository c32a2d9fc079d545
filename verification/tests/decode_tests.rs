// End-to-end decodes of full-size images built from repeating blocks with
// known contents, since each block decodes independently of its neighbours.
use bcndecode::{decode, BcnDecoderFormat, BcnEncoding};

/// A red BC1 block: endpoints 0xF800 (red) and 0x001F (blue), all lookup
/// indices 0, so every pixel decodes to (255, 0, 0, 255).
const RED_BC1_BLOCK: [u8; 8] = [0x00, 0xF8, 0x1F, 0x00, 0x00, 0x00, 0x00, 0x00];

fn repeat_blocks(block: &[u8], total_len: usize) -> Vec<u8> {
    assert_eq!(total_len % block.len(), 0);
    let mut data = Vec::with_capacity(total_len);
    while data.len() < total_len {
        data.extend_from_slice(block);
    }
    data
}

#[test]
fn decode_rust_bc1() {
    let compressed = repeat_blocks(&RED_BC1_BLOCK, 2796216);
    assert_eq!(compressed.len(), 2796216);
    let decoded = decode(
        &compressed,
        2048,
        2048,
        BcnEncoding::Bc1,
        BcnDecoderFormat::RGBA,
    )
    .unwrap();
    assert_eq!(decoded.len(), 16777216);
    let mut expected = Vec::with_capacity(16777216);
    for _ in 0..2048 * 2048 {
        expected.extend_from_slice(&[255, 0, 0, 255]);
    }
    assert_eq!(decoded, expected);
}

#[test]
fn decode_rust_bc3() {
    // alpha block with both endpoints 0x55 and zero lookup bits, then the
    // red color block: every pixel decodes to (255, 0, 0, 0x55)
    let block: [u8; 16] = [
        0x55, 0x55, 0x00, 0x00, 0x00, 0x00, 0x00, 0x00, 0x00, 0xF8, 0x1F, 0x00, 0x00, 0x00, 0x00,
        0x00,
    ];
    let compressed = repeat_blocks(&block, 5592432);
    assert_eq!(compressed.len(), 5592432);
    let decoded = decode(
        &compressed,
        2048,
        2048,
        BcnEncoding::Bc3,
        BcnDecoderFormat::RGBA,
    )
    .unwrap();
    assert_eq!(decoded.len(), 16777216);
    let mut expected = Vec::with_capacity(16777216);
    for _ in 0..2048 * 2048 {
        expected.extend_from_slice(&[255, 0, 0, 0x55]);
    }
    assert_eq!(decoded, expected);
}

#[test]
fn decode_rust_bc4() {
    // one alpha block with a0 > a1 and zero lookup bits: every LUM byte is a0
    let block: [u8; 8] = [0x42, 0x40, 0x00, 0x00, 0x00, 0x00, 0x00, 0x00];
    let compressed = repeat_blocks(&block, 2796216);
    assert_eq!(compressed.len(), 2796216);
    let decoded = decode(
        &compressed,
        2048,
        2048,
        BcnEncoding::Bc4,
        BcnDecoderFormat::LUM,
    )
    .unwrap();
    assert_eq!(decoded.len(), 4194304);
    assert!(decoded.iter().all(|&b| b == 0x42));
}

#[test]
fn decode_rust_bc5() {
    // two alpha blocks: 0x11 into the R slot, 0x99 into the G slot
    let block: [u8; 16] = [
        0x11, 0x10, 0x00, 0x00, 0x00, 0x00, 0x00, 0x00, 0x99, 0x90, 0x00, 0x00, 0x00, 0x00, 0x00,
        0x00,
    ];
    let compressed = repeat_blocks(&block, 5592432);
    assert_eq!(compressed.len(), 5592432);
    let decoded = decode(
        &compressed,
        2048,
        2048,
        BcnEncoding::Bc5,
        BcnDecoderFormat::RGBA,
    )
    .unwrap();
    assert_eq!(decoded.len(), 16777216);
    let mut expected = Vec::with_capacity(16777216);
    for _ in 0..2048 * 2048 {
        expected.extend_from_slice(&[0x11, 0x99, 0x00, 0x00]);
    }
    assert_eq!(decoded, expected);
}

#[test]
fn compare_decode_bc5() {
    // decoding is deterministic, and the two public entry points agree
    let block: [u8; 16] = [
        0x20, 0x10, 0x12, 0x34, 0x56, 0x78, 0x9a, 0xbc, 0x7f, 0x3f, 0xfe, 0xdc, 0xba, 0x98, 0x76,
        0x54,
    ];
    let compressed = repeat_blocks(&block, 2048 / 4 * 2048 / 4 * 16);
    let a = decode(
        &compressed,
        2048,
        2048,
        BcnEncoding::Bc5,
        BcnDecoderFormat::RGBA,
    )
    .unwrap();
    let b = decode(
        &compressed,
        2048,
        2048,
        BcnEncoding::Bc5,
        BcnDecoderFormat::RGBA,
    )
    .unwrap();
    let c = bcndecode::decode::decode_rust(
        &compressed,
        2048,
        2048,
        BcnEncoding::Bc5,
        BcnDecoderFormat::RGBA,
    )
    .unwrap();
    assert_eq!(a.len(), 16777216);
    assert_eq!(a, b);
    assert_eq!(a, c);
}

#[test]
fn compare_decode_bc6h() {
    // a mode-10 block whose first endpoint is the all-ones red component and
    // whose weight indices are all zero: every pixel interpolates to the
    // largest finite half value in R and zero in G and B
    let block: [u8; 16] = [
        0xE3, 0x7F, 0x00, 0x00, 0xF8, 0x1F, 0x00, 0x00, 0x00, 0x00, 0x00, 0x00, 0x00, 0x00, 0x00,
        0x00,
    ];
    let compressed = repeat_blocks(&block, 2048 / 4 * 2048 / 4 * 16);
    let a = decode(
        &compressed,
        2048,
        2048,
        BcnEncoding::Bc6H,
        BcnDecoderFormat::RGBA,
    )
    .unwrap();
    let b = decode(
        &compressed,
        2048,
        2048,
        BcnEncoding::Bc6H,
        BcnDecoderFormat::RGBA,
    )
    .unwrap();
    assert_eq!(a.len(), 16 * 2048 * 2048);
    assert_eq!(a, b);
    // pixels are packed at 12 bytes each: three little-endian float32s
    for p in [0usize, 1, 4095, 2048 * 2048 - 1] {
        let r = f32::from_le_bytes([a[12 * p], a[12 * p + 1], a[12 * p + 2], a[12 * p + 3]]);
        let g = f32::from_le_bytes([a[12 * p + 4], a[12 * p + 5], a[12 * p + 6], a[12 * p + 7]]);
        let bl = f32::from_le_bytes([a[12 * p + 8], a[12 * p + 9], a[12 * p + 10], a[12 * p + 11]]);
        assert!(r.is_finite() && g.is_finite() && bl.is_finite());
        assert_eq!(r, 65504.0);
        assert_eq!(g, 0.0);
        assert_eq!(bl, 0.0);
    }
    // the buffer beyond the 12-byte-per-pixel grid stays zero
    assert!(a[12 * 2048 * 2048..].iter().all(|&x| x == 0));
}

#[test]
fn decode_bc6h_delta_mode() {
    // a mode-13 block (delta-coded endpoints, 16-bit components): the first
    // endpoint's red component is 0x8000 and all deltas are zero, so both
    // endpoints agree and every pixel decodes to R = 1.5
    let block: [u8; 16] = [
        0x0F, 0x00, 0x00, 0x00, 0x80, 0x00, 0x00, 0x00, 0x00, 0x00, 0x00, 0x00, 0x00, 0x00, 0x00,
        0x00,
    ];
    let decoded = decode(&block, 4, 4, BcnEncoding::Bc6H, BcnDecoderFormat::RGBA).unwrap();
    for p in 0..16 {
        let r = f32::from_le_bytes([
            decoded[12 * p],
            decoded[12 * p + 1],
            decoded[12 * p + 2],
            decoded[12 * p + 3],
        ]);
        assert_eq!(r, 1.5);
        assert!(decoded[12 * p + 4..12 * p + 12].iter().all(|&x| x == 0));
    }
}

#[test]
fn decode_bc6h_invalid_mode_leaves_zeros() {
    // low five mode bits 0b11111 name mode 17, which is reserved: the block
    // decodes to zeros and no error is raised
    let mut block = [0xFFu8; 16];
    block[0] = 0x1F;
    let decoded = decode(&block, 4, 4, BcnEncoding::Bc6H, BcnDecoderFormat::RGBA).unwrap();
    assert_eq!(decoded.len(), 16 * 16);
    assert!(decoded.iter().all(|&x| x == 0));
}

#[test]
fn decode_stops_when_source_runs_out() {
    // one BC1 block for an 8x8 image: only the first block's pixels are
    // written, the rest of the buffer stays zero
    let decoded = decode(
        &RED_BC1_BLOCK,
        8,
        8,
        BcnEncoding::Bc1,
        BcnDecoderFormat::RGBA,
    )
    .unwrap();
    assert_eq!(decoded.len(), 256);
    for y in 0..8 {
        for x in 0..8 {
            let px = &decoded[4 * (8 * y + x)..4 * (8 * y + x) + 4];
            if x < 4 && y < 4 {
                assert_eq!(px, &[255, 0, 0, 255]);
            } else {
                assert_eq!(px, &[0, 0, 0, 0]);
            }
        }
    }
}
