//! Codec for the PAA tiled-texture container: metadata tags, mipmap records
//! with their compression schemes, and the pixel formats they carry.
//!
//! A file is a format code, a run of metadata records, a palette block, the
//! mipmap records and a trailer. [`image`] reads and writes the whole,
//! [`tagg`] the metadata records, [`palette`] the palette block and
//! [`mipmap`] the mipmap records, whose compression scheme is not stored but
//! found from cues in the record's header. The schemes are the run-length
//! codec of [`rle`], the dictionary codec of [`lzss`] and the block codec
//! behind [`lzo`]. [`pixel`] and [`dxt`] convert pixel data to and from plain
//! RGBA, [`decode`] and [`encode`] go from mipmaps to the images of [`raster`]
//! and back, and [`cfgfile`], [`texconvert`] and [`hints`] read the settings
//! by texture kind from a configuration file. [`lzss_proofs`] states what
//! the dictionary encoder's stream expands to, [`mipmap_proofs`] and
//! [`image_proofs`] what reading makes of what was written.
//!
//! Every function states what it returns over the mathematical content of
//! its arguments, and is proved to meet that statement and not to panic.
//! What this crate takes from other crates it takes through small functions
//! whose statements are believed, not proved; each names the function it
//! calls and says what is claimed of it.

pub mod bytes;
pub mod error;
pub mod paatype;
pub mod pixel;
pub mod rle;
pub mod swizzle;
pub mod tagg;
pub mod palette;
pub mod lzss;
pub mod lzss_proofs;
pub mod lzo;
pub mod mipmap;
pub mod mipmap_proofs;
pub mod image;
pub mod image_proofs;
pub mod dxt;
pub mod surface;
pub mod raster;
pub mod names;
pub mod decode;
pub mod encode;
pub mod hints;
pub mod cfgfile;
pub mod texconvert;

pub use crate::decode::PaaDecoder;
pub use crate::encode::{PaaEncoder, TextureEncodingSettings};
pub use crate::error::{PaaError, PaaResult};
pub use crate::hints::TextureHints;
pub use crate::image::PaaImage;
pub use crate::mipmap::{ChecksumPolicy, PaaMipmap, PaaMipmapCompression};
pub use crate::names::{TextureErrorMetrics, TextureMipmapFilter};
pub use crate::paatype::PaaType;
pub use crate::palette::PaaPalette;
pub use crate::pixel::{Bgr888Pixel, Bgra8888Pixel};
pub use crate::raster::RgbaImage;
pub use crate::swizzle::{
    ArgbSwizzle, ChannelSwizzle, ChannelSwizzleData, ChannelSwizzleFill, ChannelSwizzleId,
};
pub use crate::tagg::{Tagg, TextureMacro, Transparency};
