//! Decoder for BCn (DXTn / S3TC / BPTC) block-compressed texture data.
//!
//! The decoder accepts a contiguous byte buffer of compressed 4x4 blocks plus
//! image dimensions, a declared block-encoding variant, and a target
//! pixel-channel layout; it returns a contiguous byte buffer of decoded
//! pixels.
//!
//! Supported encodings:
//!
//! * Bc1: 565 color, 1-bit alpha (dxt1)
//! * Bc2: 565 color, 4-bit alpha (dxt3)
//! * Bc3: 565 color, 2-endpoint 8-bit interpolated alpha (dxt5)
//! * Bc4: 1-channel 8-bit via 1 BC3 alpha block
//! * Bc5: 2-channel 8-bit via 2 BC3 alpha blocks
//! * Bc6H: 3-channel 16-bit float, written out as 32-bit float bit patterns
use vstd::prelude::*;

pub mod bc6h;
pub mod bcndecode;
pub mod bits;
pub mod blocks;
pub mod decode;
pub mod laws;
pub mod tables;
pub mod palette;

verus! {

/// The error type for all BCn decoding operations.
#[derive(Debug, Clone, Copy, PartialEq, Eq, Structural)]
pub enum Error {
    /// Decoding failed due to incorrect source data.
    ImageDecodingError,
    /// Size of the image is invalid.
    InvalidImageSize,
    /// Requested feature is not implemented.
    FeatureNotImplemented,
    /// Pixel format is invalid for the given decoding
    InvalidPixelFormat,
}

/// Encoding type of the source data.
#[derive(Debug, Clone, Copy, PartialEq, Eq, Structural)]
pub enum BcnEncoding {
    /// BC1: 565 color, 1-bit alpha (dxt1)
    Bc1,
    /// BC2: 565 color, 4-bit alpha (dxt3)
    Bc2,
    /// BC3: 565 color, 2-endpoint 8-bit interpolated alpha (dxt5)
    Bc3,
    /// BC4: 1-channel 8-bit via 1 BC3 alpha block
    Bc4,
    /// BC5: 2-channel 8-bit via 2 BC3 alpha blocks
    Bc5,
    /// BC6: Three color channels (16 bits each) in "half" floating point
    Bc6H,
}

/// Specifies the pixel format of the output data
#[derive(Debug, Clone, Copy, PartialEq, Eq, Structural)]
pub enum BcnDecoderFormat {
    RGBA,
    BGRA,
    ARGB,
    ABGR,
    /// Format only used for BC4 decompression
    LUM,
}

impl Error {
    /// A short description of the error, in place of a `Display` impl.
    pub fn description(&self) -> (r: &'static str)
        ensures
            self is ImageDecodingError ==> r@ == "Failed to decode image"@,
            self is InvalidImageSize ==> r@ == "Size of the image is invalid"@,
            self is FeatureNotImplemented ==> r@ == "Feature is not implemented"@,
            self is InvalidPixelFormat ==> r@ == "Pixel format is invalid for the given decoding"@,
    {
        match *self {
            Error::ImageDecodingError => "Failed to decode image",
            Error::InvalidImageSize => "Size of the image is invalid",
            Error::FeatureNotImplemented => "Feature is not implemented",
            Error::InvalidPixelFormat => "Pixel format is invalid for the given decoding",
        }
    }
}

/// Bytes per compressed 4x4 block of the given encoding.
pub open spec fn spec_block_bytes(encoding: BcnEncoding) -> int {
    match encoding {
        BcnEncoding::Bc1 => 8,
        BcnEncoding::Bc2 => 16,
        BcnEncoding::Bc3 => 16,
        BcnEncoding::Bc4 => 8,
        BcnEncoding::Bc5 => 16,
        BcnEncoding::Bc6H => 16,
    }
}

/// Bytes per decoded pixel as laid out in the destination buffer: 4 for the
/// RGBA8 encodings, 1 for BC4 (LUM8), 12 for BC6H (three 32-bit floats).
pub open spec fn spec_element_bytes(encoding: BcnEncoding) -> int {
    match encoding {
        BcnEncoding::Bc4 => 1,
        BcnEncoding::Bc6H => 12,
        _ => 4,
    }
}

/// Size in bytes of the destination buffer: `4 * width * height`, divided by
/// 4 for BC4, multiplied by 4 for BC6H.
pub open spec fn spec_dst_size(width: int, height: int, encoding: BcnEncoding) -> int {
    match encoding {
        BcnEncoding::Bc4 => width * height,
        BcnEncoding::Bc6H => 16 * width * height,
        _ => 4 * width * height,
    }
}

/// Whether the decoder runs in partial-block mode with vertically flipped
/// rows: so whenever either dimension is not a multiple of 4.
pub open spec fn spec_flip(width: int, height: int) -> bool {
    !(width % 4 == 0 && height % 4 == 0)
}

/// The swizzle byte selected for a target pixel layout: four 2-bit fields
/// giving the destination channel of the source R, G, B, A channels.
pub open spec fn spec_swizzle_of(format: BcnDecoderFormat) -> u8 {
    match format {
        BcnDecoderFormat::RGBA => 0xe4,
        BcnDecoderFormat::BGRA => 0xc6,
        BcnDecoderFormat::ARGB => 0x93,
        BcnDecoderFormat::ABGR => 0x1b,
        BcnDecoderFormat::LUM => 0,
    }
}


/// Decodes the given BCN encoded image data. On success, the decoded data
/// as a byte vector is returned.
///
/// * `source` - a byte slice that holds the data of the compressed image
/// * `width` - width of the encoded image in pixels
/// * `height` - height of the encoded image in pixels
/// * `encoding` - encoding type of the image
/// * `format` - requested pixel format of the output
///
/// Every byte of the result is pinned down: byte `k` equals
/// `spec_decoded_byte` of the source and parameters, which names the decoded
/// and swizzled value of the unique block pixel covering it, or 0 where the
/// source ran out of blocks.
pub fn decode(
    source: &[u8],
    width: usize,
    height: usize,
    encoding: BcnEncoding,
    format: BcnDecoderFormat,
) -> (r: Result<Vec<u8>, Error>)
    requires
        4 * width * height <= usize::MAX,
        encoding is Bc6H ==> 16 * width * height <= usize::MAX,
    ensures
        r is Err <==> (width == 0 || height == 0 || (format is LUM && !(encoding is Bc4))),
        (width == 0 || height == 0) ==> r == Err::<Vec<u8>, Error>(Error::InvalidImageSize),
        (width != 0 && height != 0 && format is LUM && !(encoding is Bc4)) ==> r == Err::<
            Vec<u8>,
            Error,
        >(Error::InvalidPixelFormat),
        r is Ok ==> r->Ok_0@.len() == spec_dst_size(width as int, height as int, encoding),
        r is Ok ==> forall|k: int|
            0 <= k < r->Ok_0@.len() ==> r->Ok_0@[k] == decode::spec_decoded_byte(
                0,
                source@,
                width as int,
                height as int,
                encoding,
                spec_swizzle_of(format),
                spec_flip(width as int, height as int),
                false,
                k,
            ),
{
    decode::decode_rust(source, width, height, encoding, format)
}

} // verus!
