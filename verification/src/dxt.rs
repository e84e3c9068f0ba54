//! The adapter to the block codec of the block-compressed formats.

use vstd::prelude::*;
use crate::error::{PaaError, PaaResult};
use crate::mipmap::{is_block_side, spec_block_side};
use crate::paatype::PaaType;

verus! {

/// The three block codecs behind the five block-compressed formats.
#[derive(Debug, Clone, Copy, PartialEq, Eq, Structural)]
pub enum BlockCodec {
    /// 8 bytes per block of 4 by 4 pixels.
    Bc1,
    /// 16 bytes per block, explicit alpha.
    Bc2,
    /// 16 bytes per block, interpolated alpha.
    Bc3,
}

/// What `Format::decompress` of texpresso writes for a codec (1, 2 or 3),
/// compressed data and the dimensions of the image, into a buffer of zeroes
/// with four bytes per pixel.
pub uninterp spec fn bc_decompressed(codec: u8, data: Seq<u8>, width: nat, height: nat) -> Seq<u8>;

/// What `Format::compress` of texpresso writes for a codec (1, 2 or 3), pixels
/// of four bytes each and the dimensions of the image, with the iterative
/// cluster fit and the other parameters at their defaults, into a buffer of
/// the compressed size.
pub uninterp spec fn bc_compressed(codec: u8, rgba: Seq<u8>, width: nat, height: nat) -> Seq<u8>;

impl BlockCodec {
    /// The number that stands for the codec in [`bc_decompressed`] and
    /// [`bc_compressed`].
    pub open spec fn spec_number(self) -> u8 {
        match self {
            BlockCodec::Bc1 => 1,
            BlockCodec::Bc2 => 2,
            BlockCodec::Bc3 => 3,
        }
    }

    /// Bytes of one compressed block.
    pub open spec fn spec_block_size(self) -> nat {
        match self {
            BlockCodec::Bc1 => 8,
            BlockCodec::Bc2 => 16,
            BlockCodec::Bc3 => 16,
        }
    }

    /// Bytes of a compressed image: one block for every 4 by 4 pixels, the
    /// sides rounded up.
    pub open spec fn spec_compressed_size(self, width: nat, height: nat) -> nat {
        ((width + 3) / 4) * ((height + 3) / 4) * self.spec_block_size()
    }

    /// The codec of a block-compressed format.
    pub open spec fn spec_of(paatype: PaaType) -> Option<BlockCodec> {
        match paatype {
            PaaType::Dxt1 => Some(BlockCodec::Bc1),
            PaaType::Dxt2 | PaaType::Dxt3 => Some(BlockCodec::Bc2),
            PaaType::Dxt4 | PaaType::Dxt5 => Some(BlockCodec::Bc3),
            _ => None,
        }
    }

    /// The codec of a block-compressed format: two pairs of formats share
    /// one codec each.
    pub fn of(paatype: PaaType) -> (c: Option<BlockCodec>)
        ensures
            c == Self::spec_of(paatype),
            c is Some == paatype.spec_is_dxtn(),
    {
        match paatype {
            PaaType::Dxt1 => Some(BlockCodec::Bc1),
            PaaType::Dxt2 | PaaType::Dxt3 => Some(BlockCodec::Bc2),
            PaaType::Dxt4 | PaaType::Dxt5 => Some(BlockCodec::Bc3),
            _ => None,
        }
    }

    /// Bytes of one compressed block.
    pub fn block_size(self) -> (n: usize)
        ensures
            n == self.spec_block_size(),
    {
        match self {
            BlockCodec::Bc1 => 8,
            BlockCodec::Bc2 => 16,
            BlockCodec::Bc3 => 16,
        }
    }

    /// How many bytes of RGBA one compressed byte stands for.
    pub fn ratio(self) -> (n: usize)
        ensures
            n == 64nat / self.spec_block_size(),
    {
        match self {
            BlockCodec::Bc1 => 8,
            BlockCodec::Bc2 => 4,
            BlockCodec::Bc3 => 4,
        }
    }

    /// Bytes of a compressed image of the given dimensions, or `None` where
    /// they exceed the machine's `usize`.
    pub fn compressed_size(self, width: u16, height: u16) -> (n: Option<usize>)
        ensures
            match n {
                Some(v) => v == self.spec_compressed_size(width as nat, height as nat),
                None => self.spec_compressed_size(width as nat, height as nat) > usize::MAX,
            },
    {
        let bw: usize = (width as usize + 3) / 4;
        let bh: usize = (height as usize + 3) / 4;
        assert(bw * bh <= 16384 * 16384) by (nonlinear_arith)
            requires
                bw <= 16384,
                bh <= 16384,
        ;
        (bw * bh).checked_mul(self.block_size())
    }
}

/// For sides that are multiples of 4 the compressed size is the size
/// predicted for the format.
pub proof fn lemma_compressed_size_is_predicted(paatype: PaaType, width: u16, height: u16)
    requires
        paatype.spec_is_dxtn(),
        width % 4 == 0,
        height % 4 == 0,
    ensures
        BlockCodec::spec_of(paatype)->Some_0.spec_compressed_size(width as nat, height as nat)
            == paatype.spec_predict_size(width, height),
{
    let w = width as nat;
    let h = height as nat;
    let bw = w / 4;
    let bh = h / 4;
    assert((w + 3) / 4 == bw);
    assert((h + 3) / 4 == bh);
    assert(w == 4 * bw);
    assert(h == 4 * bh);
    assert(w * h == 16 * (bw * bh)) by (nonlinear_arith)
        requires
            w == 4 * bw,
            h == 4 * bh,
    ;
    assert(bw * bh * 8 == 8 * (bw * bh)) by (nonlinear_arith);
    assert(bw * bh * 16 == 16 * (bw * bh)) by (nonlinear_arith);
}

/// `Format::decompress` of texpresso into a buffer of `len` zeroes, four
/// bytes per pixel. The call panics for a width of zero and for data shorter
/// than one block for every 4 by 4 pixels, and its arithmetic on the sides
/// stays in range for sides that fit sixteen bits.
#[verifier::external_body]
fn bc_decompress(codec: BlockCodec, data: &[u8], width: usize, height: usize, len: usize) -> (out:
    Vec<u8>)
    requires
        1 <= width <= 65535,
        1 <= height <= 65535,
        len == 4 * width * height,
        data@.len() >= codec.spec_compressed_size(width as nat, height as nat),
    ensures
        out@ == bc_decompressed(codec.spec_number(), data@, width as nat, height as nat),
        out@.len() == len,
{
    let format = match codec {
        BlockCodec::Bc1 => texpresso::Format::Bc1,
        BlockCodec::Bc2 => texpresso::Format::Bc2,
        BlockCodec::Bc3 => texpresso::Format::Bc3,
    };
    let mut out = vec![0u8; len];
    format.decompress(data, width, height, &mut out);
    out
}

/// `Format::compress` of texpresso with the iterative cluster fit, into a
/// buffer of `len` bytes, the compressed size. The codec computes each block
/// from its sixteen pixels alone, in single precision with a software
/// library for the rounding functions, so the bytes are a function of the
/// codec, the pixels and the dimensions: they get a name, and their number is
/// that of the buffer. The call panics for a width of zero, for fewer than
/// four bytes of input per pixel and for a buffer below the compressed size,
/// and its arithmetic on the sides stays in range for sides that fit sixteen
/// bits.
#[verifier::external_body]
fn bc_compress(codec: BlockCodec, rgba: &[u8], width: usize, height: usize, len: usize) -> (out:
    Vec<u8>)
    requires
        1 <= width <= 65535,
        1 <= height <= 65535,
        rgba@.len() >= 4 * width * height,
        len == codec.spec_compressed_size(width as nat, height as nat),
    ensures
        out@ == bc_compressed(codec.spec_number(), rgba@, width as nat, height as nat),
        out@.len() == len,
{
    let format = match codec {
        BlockCodec::Bc1 => texpresso::Format::Bc1,
        BlockCodec::Bc2 => texpresso::Format::Bc2,
        BlockCodec::Bc3 => texpresso::Format::Bc3,
    };
    let params = texpresso::Params {
        algorithm: texpresso::Algorithm::IterativeClusterFit,
        ..Default::default()
    };
    let mut out = vec![0u8; len];
    format.compress(rgba, width, height, params, &mut out);
    out
}

/// What block-compressed data of a format expands to: four bytes per pixel.
pub open spec fn spec_decompress_blocks(
    paatype: PaaType,
    data: Seq<u8>,
    width: u16,
    height: u16,
) -> Result<Seq<u8>, PaaError> {
    match BlockCodec::spec_of(paatype) {
        None => Err(PaaError::UnsupportedPixelFormat),
        Some(codec) => if width == 0 || height == 0 {
            Err(PaaError::EmptyMipmap)
        } else if data.len() != codec.spec_compressed_size(width as nat, height as nat) {
            Err(PaaError::UnexpectedMipmapDataSize(width, height, data.len() as usize))
        } else if 4 * width * height > usize::MAX {
            Err(PaaError::MipmapTooLarge)
        } else {
            Ok(bc_decompressed(codec.spec_number(), data, width as nat, height as nat))
        },
    }
}

/// Expands block-compressed data of a format to RGBA.
///
/// Fails with `UnsupportedPixelFormat` for a format that is not
/// block-compressed, with `EmptyMipmap` for a side of zero, with
/// `UnexpectedMipmapDataSize` for data that is not one block for every 4 by 4
/// pixels, and with `MipmapTooLarge` where the pixels do not fit the machine.
pub fn decompress_blocks(paatype: PaaType, data: &[u8], width: u16, height: u16) -> (res: PaaResult<
    Vec<u8>,
>)
    ensures
        crate::pixel::seq_result(res) == spec_decompress_blocks(paatype, data@, width, height),
        res is Ok ==> res->Ok_0@.len() == 4 * width * height,
{
    let codec = match BlockCodec::of(paatype) {
        Some(c) => c,
        None => {
            return Err(PaaError::UnsupportedPixelFormat);
        },
    };
    if width == 0 || height == 0 {
        return Err(PaaError::EmptyMipmap);
    }
    match codec.compressed_size(width, height) {
        Some(n) => {
            if data.len() != n {
                return Err(PaaError::UnexpectedMipmapDataSize(width, height, data.len()));
            }
        },
        None => {
            return Err(PaaError::UnexpectedMipmapDataSize(width, height, data.len()));
        },
    }
    assert((width as nat) * (height as nat) <= 65535 * 65535) by (nonlinear_arith)
        requires
            width <= 65535,
            height <= 65535,
    ;
    let area: usize = (width as usize) * (height as usize);
    assert(4 * width * height == 4 * area) by (nonlinear_arith)
        requires
            area == width * height,
    ;
    if area > usize::MAX / 4 {
        return Err(PaaError::MipmapTooLarge);
    }
    assert(4 * (width as usize) * (height as usize) == 4 * area) by (nonlinear_arith)
        requires
            area == (width as usize) * (height as usize),
    ;
    Ok(bc_decompress(codec, data, width as usize, height as usize, 4 * area))
}

/// What compressing RGBA pixels to a block-compressed format gives.
pub open spec fn spec_compress_blocks(
    paatype: PaaType,
    rgba: Seq<u8>,
    width: u16,
    height: u16,
) -> Result<Seq<u8>, PaaError> {
    match BlockCodec::spec_of(paatype) {
        None => Err(PaaError::UnsupportedPixelFormat),
        Some(codec) => if !(spec_block_side(width) && spec_block_side(height)) {
            Err(PaaError::UnexpectedMipmapDimensions)
        } else if rgba.len() != 4 * width * height {
            Err(PaaError::UnexpectedMipmapDataSize(width, height, rgba.len() as usize))
        } else {
            Ok(bc_compressed(codec.spec_number(), rgba, width as nat, height as nat))
        },
    }
}

/// Compresses RGBA pixels to a block-compressed format: the bytes are what
/// the block codec gives for the pixels, as many as the size predicted for
/// the format.
///
/// Fails with `UnsupportedPixelFormat` for a format that is not
/// block-compressed, with `UnexpectedMipmapDimensions` for a side that is no
/// power of two of at least 4, and with `UnexpectedMipmapDataSize` for input
/// that is not four bytes per pixel.
pub fn compress_blocks(paatype: PaaType, rgba: &[u8], width: u16, height: u16) -> (res: PaaResult<
    Vec<u8>,
>)
    ensures
        crate::pixel::seq_result(res) == spec_compress_blocks(paatype, rgba@, width, height),
        res is Ok ==> res->Ok_0@.len() == paatype.spec_predict_size(width, height),
{
    let codec = match BlockCodec::of(paatype) {
        Some(c) => c,
        None => {
            return Err(PaaError::UnsupportedPixelFormat);
        },
    };
    if !(is_block_side(width) && is_block_side(height)) {
        return Err(PaaError::UnexpectedMipmapDimensions);
    }
    assert((width as nat) * (height as nat) <= 16384 * 16384) by (nonlinear_arith)
        requires
            width <= 16384,
            height <= 16384,
    ;
    let area: usize = (width as usize) * (height as usize);
    assert(4 * width * height == 4 * area) by (nonlinear_arith)
        requires
            area == width * height,
    ;
    assert(4 * (width as usize) * (height as usize) == 4 * area) by (nonlinear_arith)
        requires
            area == (width as usize) * (height as usize),
    ;
    if rgba.len() != 4 * area {
        return Err(PaaError::UnexpectedMipmapDataSize(width, height, rgba.len()));
    }
    proof {
        lemma_compressed_size_is_predicted(paatype, width, height);
    }
    let len = match paatype.checked_predict_size(width, height) {
        Some(n) => n,
        None => {
            return Err(PaaError::MipmapTooLarge);
        },
    };
    Ok(bc_compress(codec, rgba, width as usize, height as usize, len))
}

} // verus!
