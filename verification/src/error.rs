//! The error type shared by every codec of the crate.

use vstd::prelude::*;

verus! {

/// What can go wrong while reading or writing a PAA container.
#[derive(Debug, PartialEq, Eq)]
pub enum PaaError {
    /// The input ended before a field or payload was complete.
    UnexpectedEof,
    /// The two leading bytes name no known pixel format.
    UnknownPaaType([u8; 2]),
    /// A tag record does not start with the tag signature.
    UnexpectedTaggSignature,
    /// A tag record carries a name that is not one of the six known names.
    UnknownTaggType([u8; 4]),
    /// A tag payload has a length its kind does not allow.
    UnexpectedTaggDataSize,
    /// A transparency tag holds a value that is no transparency mode.
    UnknownTransparencyValue(u8),
    /// A swizzle tag holds bytes that are no swizzle rule.
    UnknownSwizzleValues([u8; 4]),
    /// A swizzle rule in text form could not be parsed.
    InvalidSwizzleString(String),
    /// A channel name in text form is none of A, R, G, B.
    InvalidChannelSwizzleIdString(String),
    /// A palette holds, or is indexed past, more colours than fit 16 bits.
    PaletteTooLarge,
    /// A mipmap record announces a zero width or height.
    EmptyMipmap,
    /// A recorded mipmap offset lies at or past the end of the input.
    MipmapOffsetBeyondEof,
    /// A mipmap payload extends past the end of the input.
    MipmapDataBeyondEof,
    /// A dimension of 32768 or more, or a payload too long for its length field.
    MipmapTooLarge,
    /// A container holds more mipmaps than the offsets table has room for.
    TooManyMipmaps,
    /// A block-compressed mipmap whose sides are not powers of two of at least 4.
    UnexpectedMipmapDimensions,
    /// A level of a block-compressed surface whose sides are not multiples
    /// of 4: its width and height.
    DxtMipmapDimensionsNotMultipleOf4(u16, u16),
    /// Pixel data whose length disagrees with the size predicted from the
    /// dimensions: width, height and the length found.
    UnexpectedMipmapDataSize(u16, u16, usize),
    /// A mipmap slot of the container held an error: its index and the error.
    InputMipmapErrorWhileEncoding(usize, Box<PaaError>),
    /// Serializing a mipmap of the container failed.
    MipmapErrorWhileSerializing(Box<PaaError>),
    /// An offset or size computation left the range of its integer type.
    ArithmeticOverflow,
    /// A run-length stream ended inside a run.
    RleError,
    /// The block codec for large block-compressed mipmaps failed.
    LzoError(String),
    /// A dictionary stream is malformed or expanded to an unexpected length.
    LzssDecompressError,
    /// The checksum stored after a dictionary stream differs from the one
    /// computed, under the strict policy.
    LzssWrongChecksum,
    /// A mipmap index past the last slot of the container.
    MipmapIndexOutOfRange,
    /// A pixel format that has no conversion to or from RGBA.
    UnsupportedPixelFormat,
    /// Pixel data whose length is no multiple of the pixel width.
    PixelReadError,
    /// A configuration class without a usable `name` entry.
    TexconvertNoName,
    /// A configuration class that inherits from a class not seen before it.
    TexconvertInvalidInherit(String),
    /// Configuration text that does not follow the grammar.
    TexconvertParseError(String),
}

impl PaaError {
    /// A copy of the error, equal to it in every field.
    pub fn duplicate(&self) -> (r: PaaError)
        ensures
            r == *self,
        decreases self,
    {
        match self {
            PaaError::UnexpectedEof => PaaError::UnexpectedEof,
            PaaError::UnknownPaaType(b) => PaaError::UnknownPaaType(*b),
            PaaError::UnexpectedTaggSignature => PaaError::UnexpectedTaggSignature,
            PaaError::UnknownTaggType(b) => PaaError::UnknownTaggType(*b),
            PaaError::UnexpectedTaggDataSize => PaaError::UnexpectedTaggDataSize,
            PaaError::UnknownTransparencyValue(v) => PaaError::UnknownTransparencyValue(*v),
            PaaError::UnknownSwizzleValues(b) => PaaError::UnknownSwizzleValues(*b),
            PaaError::InvalidSwizzleString(s) => PaaError::InvalidSwizzleString(s.clone()),
            PaaError::InvalidChannelSwizzleIdString(s) => PaaError::InvalidChannelSwizzleIdString(
                s.clone(),
            ),
            PaaError::PaletteTooLarge => PaaError::PaletteTooLarge,
            PaaError::EmptyMipmap => PaaError::EmptyMipmap,
            PaaError::MipmapOffsetBeyondEof => PaaError::MipmapOffsetBeyondEof,
            PaaError::MipmapDataBeyondEof => PaaError::MipmapDataBeyondEof,
            PaaError::MipmapTooLarge => PaaError::MipmapTooLarge,
            PaaError::TooManyMipmaps => PaaError::TooManyMipmaps,
            PaaError::UnexpectedMipmapDimensions => PaaError::UnexpectedMipmapDimensions,
            PaaError::DxtMipmapDimensionsNotMultipleOf4(w, h) => {
                PaaError::DxtMipmapDimensionsNotMultipleOf4(*w, *h)
            },
            PaaError::UnexpectedMipmapDataSize(w, h, n) => PaaError::UnexpectedMipmapDataSize(
                *w,
                *h,
                *n,
            ),
            PaaError::InputMipmapErrorWhileEncoding(i, e) => {
                let inner = e.duplicate();
                PaaError::InputMipmapErrorWhileEncoding(*i, Box::new(inner))
            },
            PaaError::MipmapErrorWhileSerializing(e) => {
                let inner = e.duplicate();
                PaaError::MipmapErrorWhileSerializing(Box::new(inner))
            },
            PaaError::ArithmeticOverflow => PaaError::ArithmeticOverflow,
            PaaError::RleError => PaaError::RleError,
            PaaError::LzoError(s) => PaaError::LzoError(s.clone()),
            PaaError::LzssDecompressError => PaaError::LzssDecompressError,
            PaaError::LzssWrongChecksum => PaaError::LzssWrongChecksum,
            PaaError::MipmapIndexOutOfRange => PaaError::MipmapIndexOutOfRange,
            PaaError::UnsupportedPixelFormat => PaaError::UnsupportedPixelFormat,
            PaaError::PixelReadError => PaaError::PixelReadError,
            PaaError::TexconvertNoName => PaaError::TexconvertNoName,
            PaaError::TexconvertInvalidInherit(s) => PaaError::TexconvertInvalidInherit(s.clone()),
            PaaError::TexconvertParseError(s) => PaaError::TexconvertParseError(s.clone()),
        }
    }
}

impl Clone for PaaError {
    fn clone(&self) -> (r: Self)
        ensures
            r == *self,
    {
        self.duplicate()
    }
}

/// A result whose error is a [`PaaError`].
pub type PaaResult<T> = Result<T, PaaError>;

} // verus!
