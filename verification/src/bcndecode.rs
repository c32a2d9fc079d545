//! The older call surface of the decoder, kept for its callers: a struct
//! error type with an error-kind enum, and encoding names that include the
//! undecoded and unimplemented variants.
use vstd::prelude::*;
use crate::decode::{decode_rust as core_decode_rust, spec_decoded_byte};
use crate::{spec_dst_size, spec_flip, spec_swizzle_of};

verus! {

/// The error type for all BCN decoding operations of this call surface.
#[derive(Debug, Clone, Copy, PartialEq, Eq, Structural)]
pub struct Error {
    kind: ErrorKind,
}

/// A list specifying the category of the error.
///
/// It is used with the [`Error`] type.
#[derive(Debug, Clone, Copy, PartialEq, Eq, Structural)]
pub enum ErrorKind {
    /// Decoding failed due to incorrect source data.
    ImageDecodingError,
    /// Size of the image is invalid
    InvalidImageSize,
    NotImplemented,
}

impl ErrorKind {
    /// A short description of the error kind, in place of a `Display` impl.
    pub fn as_str(&self) -> (r: &'static str)
        ensures
            self is ImageDecodingError ==> r@ == "Failed to decode image"@,
            self is InvalidImageSize ==> r@ == "Size of the image is invalid"@,
            self is NotImplemented ==> r@ == "Feature is not implemented"@,
    {
        match *self {
            ErrorKind::ImageDecodingError => "Failed to decode image",
            ErrorKind::InvalidImageSize => "Size of the image is invalid",
            ErrorKind::NotImplemented => "Feature is not implemented",
        }
    }
}

impl Error {
    /// The category of this error.
    pub closed spec fn spec_kind(&self) -> ErrorKind {
        self.kind
    }

    /// Wraps an error kind.
    pub fn new(kind: ErrorKind) -> (r: Error)
        ensures
            r.spec_kind() == kind,
    {
        Error { kind: kind }
    }
}

/// Encoding type of the source data.
#[derive(Debug, Clone, Copy, PartialEq, Eq, Structural)]
pub enum BcnEncoding {
    /// Raw data (will not be decoded)
    Raw,
    /// BC1: 565 color, 1-bit alpha (dxt1)
    Bc1,
    /// BC2: 565 color, 4-bit alpha (dxt3)
    Bc2,
    /// BC3: 565 color, 2-endpoint 8-bit interpolated alpha (dxt5)
    Bc3,
    /// BC4: 1-channel 8-bit via 1 BC3 alpha block
    Bc4,
    /// BC5: 2-channel 8-bit via 2 BC3 alpha blocks
    Bc5,
    /// BC6: 3-channel 16-bit float
    Bc6,
    /// BC7: 4-channel 8-bit via everything (not implemented)
    Bc7,
}

/// Specifies the pixel format of the output data
#[derive(Debug, Clone, Copy, PartialEq, Eq, Structural)]
pub enum BcnDecoderFormat {
    RGBA,
    BGRA,
    ARGB,
    ABGR,
}

/// The encoding of the core decoder that an encoding name of this surface
/// selects; `Raw` and `Bc7` select nothing and are rejected before decoding.
pub open spec fn spec_core_encoding(encoding: BcnEncoding) -> crate::BcnEncoding {
    match encoding {
        BcnEncoding::Bc2 => crate::BcnEncoding::Bc2,
        BcnEncoding::Bc3 => crate::BcnEncoding::Bc3,
        BcnEncoding::Bc4 => crate::BcnEncoding::Bc4,
        BcnEncoding::Bc5 => crate::BcnEncoding::Bc5,
        BcnEncoding::Bc6 => crate::BcnEncoding::Bc6H,
        _ => crate::BcnEncoding::Bc1,
    }
}

/// The pixel format of the core decoder that a format name of this surface
/// selects.
pub open spec fn spec_core_format(format: BcnDecoderFormat) -> crate::BcnDecoderFormat {
    match format {
        BcnDecoderFormat::RGBA => crate::BcnDecoderFormat::RGBA,
        BcnDecoderFormat::BGRA => crate::BcnDecoderFormat::BGRA,
        BcnDecoderFormat::ARGB => crate::BcnDecoderFormat::ARGB,
        BcnDecoderFormat::ABGR => crate::BcnDecoderFormat::ABGR,
    }
}

/// Decodes the given BCN encoded image data through this call surface: the
/// raw and BC7 encodings are rejected as not implemented, everything else
/// decodes as the core decoder does.
pub fn decode_rust(
    source: &[u8],
    width: usize,
    height: usize,
    encoding: BcnEncoding,
    format: BcnDecoderFormat,
) -> (r: Result<Vec<u8>, Error>)
    requires
        4 * width * height <= usize::MAX,
        encoding is Bc6 ==> 16 * width * height <= usize::MAX,
    ensures
        (encoding is Raw || encoding is Bc7) <==> (r is Err && r->Err_0.spec_kind()
            is NotImplemented),
        (!(encoding is Raw || encoding is Bc7) && (width == 0 || height == 0)) <==> (r is Err
            && r->Err_0.spec_kind() is InvalidImageSize),
        r is Err <==> (encoding is Raw || encoding is Bc7 || width == 0 || height == 0),
        r is Ok ==> r->Ok_0@.len() == spec_dst_size(
            width as int,
            height as int,
            spec_core_encoding(encoding),
        ),
        r is Ok ==> forall|k: int|
            0 <= k < r->Ok_0@.len() ==> r->Ok_0@[k] == spec_decoded_byte(
                0,
                source@,
                width as int,
                height as int,
                spec_core_encoding(encoding),
                spec_swizzle_of(spec_core_format(format)),
                spec_flip(width as int, height as int),
                false,
                k,
            ),
{
    let core_encoding: crate::BcnEncoding = match encoding {
        BcnEncoding::Bc1 => crate::BcnEncoding::Bc1,
        BcnEncoding::Bc2 => crate::BcnEncoding::Bc2,
        BcnEncoding::Bc3 => crate::BcnEncoding::Bc3,
        BcnEncoding::Bc4 => crate::BcnEncoding::Bc4,
        BcnEncoding::Bc5 => crate::BcnEncoding::Bc5,
        BcnEncoding::Bc6 => crate::BcnEncoding::Bc6H,
        _ => {
            return Err(Error::new(ErrorKind::NotImplemented));
        },
    };
    let core_format: crate::BcnDecoderFormat = match format {
        BcnDecoderFormat::RGBA => crate::BcnDecoderFormat::RGBA,
        BcnDecoderFormat::BGRA => crate::BcnDecoderFormat::BGRA,
        BcnDecoderFormat::ARGB => crate::BcnDecoderFormat::ARGB,
        BcnDecoderFormat::ABGR => crate::BcnDecoderFormat::ABGR,
    };
    match core_decode_rust(source, width, height, core_encoding, core_format) {
        Ok(buffer) => Ok(buffer),
        Err(_) => Err(Error::new(ErrorKind::InvalidImageSize)),
    }
}

} // verus!
