//! From mipmaps to plain RGBA images.

use vstd::prelude::*;
use crate::dxt::{decompress_blocks, spec_decompress_blocks};
use crate::error::{PaaError, PaaResult};
use crate::image::PaaImage;
use crate::mipmap::{spec_is_empty, MipmapView, PaaMipmap};
use crate::paatype::PaaType;
use crate::pixel::{
    lemma_packed_round_trip, lemma_reverse_quads_twice, spec_to_canonical, to_canonical,
    PackedLayout,
};
use crate::raster::{spec_raw_len, RasterView, RgbaImage};

verus! {

/// The image a mipmap shows, or the reason it shows none.
pub open spec fn spec_decode(m: MipmapView) -> Result<RasterView, PaaError> {
    if spec_is_empty(m.width, m.height) {
        Err(PaaError::EmptyMipmap)
    } else if m.paatype.spec_is_dxtn() {
        match spec_decompress_blocks(m.paatype, m.data, m.width, m.height) {
            Err(e) => Err(e),
            Ok(d) => Ok(RasterView { width: m.width as u32, height: m.height as u32, data: d }),
        }
    } else if m.paatype == PaaType::Argb1555 || m.paatype == PaaType::Argb4444 || m.paatype
        == PaaType::Argb8888 {
        if m.data.len() != m.paatype.spec_predict_size(m.width, m.height) {
            Err(PaaError::UnexpectedMipmapDataSize(m.width, m.height, m.data.len() as usize))
        } else {
            Ok(
                RasterView {
                    width: m.width as u32,
                    height: m.height as u32,
                    data: spec_to_canonical(m.paatype, m.data)->Ok_0,
                },
            )
        }
    } else {
        Err(PaaError::UnsupportedPixelFormat)
    }
}

/// Whether `res` is what `expected` describes.
pub open spec fn raster_matches(res: PaaResult<RgbaImage>, expected: Result<RasterView, PaaError>) -> bool {
    match expected {
        Ok(v) => res is Ok && res->Ok_0@ == v,
        Err(e) => res is Err && res->Err_0 == e,
    }
}

impl PaaMipmap {
    /// Decodes the mipmap into an RGBA image.
    ///
    /// Fails with `EmptyMipmap` for a side of zero, with
    /// `UnexpectedMipmapDataSize` where the data is not as long as the
    /// dimensions ask for, with `MipmapTooLarge` where the pixels do not fit
    /// the machine, and with `UnsupportedPixelFormat` for the indexed and the
    /// grey formats.
    pub fn decode(&self) -> (res: PaaResult<RgbaImage>)
        ensures
            raster_matches(res, spec_decode(self@)),
    {
        if self.is_empty() {
            return Err(PaaError::EmptyMipmap);
        }
        let width = self.width as u32;
        let height = self.height as u32;
        if self.paatype.is_dxtn() {
            let data = match decompress_blocks(
                self.paatype,
                self.data.as_slice(),
                self.width,
                self.height,
            ) {
                Ok(d) => d,
                Err(e) => {
                    return Err(e);
                },
            };
            assert(4 * self.width * self.height == spec_raw_len(width, height)) by (nonlinear_arith)
                requires
                    width == self.width,
                    height == self.height,
            ;
            match RgbaImage::from_vec(width, height, data) {
                Some(image) => Ok(image),
                None => Err(PaaError::MipmapTooLarge),
            }
        } else if self.paatype.is_argb() {
            match self.paatype.checked_predict_size(self.width, self.height) {
                Some(n) => {
                    if n != self.data.len() {
                        return Err(
                            PaaError::UnexpectedMipmapDataSize(
                                self.width,
                                self.height,
                                self.data.len(),
                            ),
                        );
                    }
                },
                None => {
                    return Err(
                        PaaError::UnexpectedMipmapDataSize(
                            self.width,
                            self.height,
                            self.data.len(),
                        ),
                    );
                },
            }
            let data = match to_canonical(self.paatype, self.data.as_slice()) {
                Ok(d) => d,
                Err(e) => {
                    return Err(e);
                },
            };
            proof {
                match self.paatype {
                    PaaType::Argb1555 => lemma_packed_round_trip(PackedLayout::Argb1555, self.data@),
                    PaaType::Argb4444 => lemma_packed_round_trip(PackedLayout::Argb4444, self.data@),
                    _ => lemma_reverse_quads_twice(self.data@),
                }
            }
            match RgbaImage::from_vec(width, height, data) {
                Some(image) => Ok(image),
                None => Err(PaaError::MipmapTooLarge),
            }
        } else {
            Err(PaaError::UnsupportedPixelFormat)
        }
    }
}

/// Decodes the mipmaps of a container into RGBA images.
#[derive(Debug)]
pub struct PaaDecoder {
    pub paa: PaaImage,
}

impl PaaDecoder {
    /// A decoder for the mipmaps of `paa`.
    pub fn with_paa(paa: PaaImage) -> (d: Self)
        ensures
            d.paa == paa,
    {
        PaaDecoder { paa }
    }

    /// A decoder for the mipmaps of `paa`.
    pub fn from_paa(paa: PaaImage) -> (d: Self)
        ensures
            d.paa == paa,
    {
        PaaDecoder { paa }
    }

    /// Decodes the mipmap in slot `index`.
    ///
    /// Fails with `MipmapIndexOutOfRange` for an index past the last slot,
    /// with the error of a slot that holds one, and as [`PaaMipmap::decode`]
    /// does.
    pub fn decode_nth(&self, index: usize) -> (res: PaaResult<RgbaImage>)
        ensures
            index >= self.paa.mipmaps@.len() ==> res is Err && res->Err_0
                == PaaError::MipmapIndexOutOfRange,
            index < self.paa.mipmaps@.len() ==> match self.paa.mipmaps@[index as int] {
                Err(e) => res is Err && res->Err_0 == e,
                Ok(m) => raster_matches(res, spec_decode(m@)),
            },
    {
        if index >= self.paa.mipmaps.len() {
            return Err(PaaError::MipmapIndexOutOfRange);
        }
        match &self.paa.mipmaps[index] {
            Err(e) => Err(e.duplicate()),
            Ok(m) => m.decode(),
        }
    }

    /// Decodes the first and largest mipmap.
    pub fn decode_first(&self) -> (res: PaaResult<RgbaImage>)
        ensures
            self.paa.mipmaps@.len() == 0 ==> res is Err && res->Err_0
                == PaaError::MipmapIndexOutOfRange,
            self.paa.mipmaps@.len() > 0 ==> match self.paa.mipmaps@[0] {
                Err(e) => res is Err && res->Err_0 == e,
                Ok(m) => raster_matches(res, spec_decode(m@)),
            },
    {
        self.decode_nth(0)
    }
}

} // verus!
