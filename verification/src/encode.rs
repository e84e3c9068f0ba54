//! From plain RGBA images to containers.

use vstd::prelude::*;
use vstd::string::StringExecFns;
use crate::dxt::{compress_blocks, spec_compress_blocks};
use crate::error::{PaaError, PaaResult};
use crate::image::{PaaImage, MAX_MIPMAPS};
use crate::mipmap::{spec_suggest_compression, MipmapView, PaaMipmap};
use crate::names::{TextureErrorMetrics, TextureMipmapFilter};
use crate::paatype::PaaType;
use crate::pixel::{
    from_canonical, lemma_from_rgba8_len, lemma_reverse_quads_twice, spec_from_canonical,
    PackedLayout,
};
use crate::raster::{
    construct_mipmap_series, spec_avgc, spec_is_solid, spec_maxc, spec_pixel, spec_raw_len,
    spec_series_dims, spec_swizzled, RasterView, ResizeFilter, RgbaImage,
};
use crate::swizzle::ArgbSwizzle;
use crate::tagg::{taggs_view, Tagg, TaggView};

verus! {

/// What is done to an RGBA image on its way into a container.
#[derive(Debug, PartialEq, Eq, Clone, Copy)]
pub struct TextureEncodingSettings {
    /// Format of the container.
    pub format: PaaType,
    /// Dynamic range hint. Accepted and not applied.
    pub dynrange: Option<bool>,
    /// Reduce an image of one colour to a single pixel.
    pub autoreduce: bool,
    /// Mipmap filter hint. Accepted and not applied.
    pub mipmap_filter: Option<TextureMipmapFilter>,
    /// Swizzle applied to the image before it is encoded.
    pub swizzle: ArgbSwizzle,
    /// Error metric hint. Accepted and not applied.
    pub error_metrics: Option<TextureErrorMetrics>,
}

impl Default for TextureEncodingSettings {
    fn default() -> (s: Self)
        ensures
            s == TextureEncodingSettings::spec_default(),
    {
        TextureEncodingSettings {
            format: PaaType::Dxt5,
            dynrange: None,
            autoreduce: false,
            mipmap_filter: None,
            swizzle: ArgbSwizzle::new(),
            error_metrics: None,
        }
    }
}

impl TextureEncodingSettings {
    /// The settings as text: between angle brackets and separated by commas,
    /// the name of the format and then, each only where it is set, the
    /// dynamic range, `autoreduce`, the mipmap filter, the swizzle unless it
    /// changes nothing, and the error metric.
    pub open spec fn spec_text(self) -> Seq<char> {
        "<"@ + self.format.spec_name() + (match self.dynrange {
            Some(true) => ", dynRange=true"@,
            Some(false) => ", dynRange=false"@,
            None => ""@,
        }) + (if self.autoreduce {
            ", autoreduce"@
        } else {
            ""@
        }) + (match self.mipmap_filter {
            Some(f) => ", "@ + f.spec_name(),
            None => ""@,
        }) + (if self.swizzle.spec_is_noop() {
            ""@
        } else {
            ", swizzle=<"@ + self.swizzle.spec_text() + ">"@
        }) + (match self.error_metrics {
            Some(m) => ", errorMetrics="@ + m.spec_name(),
            None => ""@,
        }) + ">"@
    }

    /// The settings as text.
    pub fn to_text(&self) -> (t: String)
        ensures
            t@ == self.spec_text(),
    {
        let mut t = String::from_str("<");
        t.append(self.format.name());
        match self.dynrange {
            Some(true) => {
                t.append(", dynRange=true");
            },
            Some(false) => {
                t.append(", dynRange=false");
            },
            None => {
                t.append("");
            },
        }
        if self.autoreduce {
            t.append(", autoreduce");
        } else {
            t.append("");
        }
        match self.mipmap_filter {
            Some(f) => {
                let mut part = String::from_str(", ");
                part.append(f.name());
                t.append(part.as_str());
            },
            None => {
                t.append("");
            },
        }
        if self.swizzle.is_noop() {
            t.append("");
        } else {
            let mut part = String::from_str(", swizzle=<");
            let swizzle = self.swizzle.to_text();
            part.append(swizzle.as_str());
            part.append(">");
            t.append(part.as_str());
        }
        match self.error_metrics {
            Some(m) => {
                let mut part = String::from_str(", errorMetrics=");
                part.append(m.name());
                t.append(part.as_str());
            },
            None => {
                t.append("");
            },
        }
        t.append(">");
        t
    }

    /// The settings to start from: the default format, no hints, no swizzle.
    pub open spec fn spec_default() -> TextureEncodingSettings {
        TextureEncodingSettings {
            format: PaaType::Dxt5,
            dynrange: None,
            autoreduce: false,
            mipmap_filter: None,
            swizzle: ArgbSwizzle::spec_new(),
            error_metrics: None,
        }
    }
}

/// The result of encoding an image of the given content as a mipmap of a
/// format: the error, or the mipmap with the suggested scheme, whose data
/// are what the block codec gives for the pixels where the format is
/// block-compressed, and the converted pixels else.
pub open spec fn spec_encode_outcome(paatype: PaaType, image: RasterView) -> Result<
    MipmapView,
    PaaError,
> {
    if image.width > 65535 || image.height > 65535 {
        Err(PaaError::MipmapTooLarge)
    } else {
        let width = image.width as u16;
        let height = image.height as u16;
        let compression = spec_suggest_compression(paatype, width, height);
        let data = if paatype.spec_is_dxtn() {
            spec_compress_blocks(paatype, image.data, width, height)
        } else {
            spec_from_canonical(paatype, image.data)
        };
        match data {
            Err(e) => Err(e),
            Ok(d) => Ok(MipmapView { width, height, paatype, compression, data: d }),
        }
    }
}

/// Whether `slot` is the result of encoding `image` as a mipmap of a format:
/// the error, or the mipmap, which holds as much data as predicted for the
/// format and the dimensions.
pub open spec fn spec_encoded_as(slot: PaaResult<PaaMipmap>, paatype: PaaType, image: RasterView) -> bool {
    match spec_encode_outcome(paatype, image) {
        Err(e) => slot is Err && slot->Err_0 == e,
        Ok(m) => slot is Ok && slot->Ok_0@ == m && m.data.len() == paatype.spec_predict_size(
            m.width,
            m.height,
        ),
    }
}

impl PaaMipmap {
    /// Encodes an RGBA image as a mipmap of a format, with the scheme
    /// suggested for the format and the dimensions.
    ///
    /// Fails with `MipmapTooLarge` for a side of more than 65535 pixels, with
    /// `UnexpectedMipmapDimensions` for a block-compressed format and a side
    /// that is no power of two of at least 4, and with
    /// `UnsupportedPixelFormat` for the indexed and the grey formats.
    pub fn encode(paatype: PaaType, image: &RgbaImage) -> (res: PaaResult<PaaMipmap>)
        ensures
            spec_encoded_as(res, paatype, image@),
    {
        let (w, h) = image.dimensions();
        if w > 65535 || h > 65535 {
            return Err(PaaError::MipmapTooLarge);
        }
        let width = w as u16;
        let height = h as u16;
        let compression = PaaMipmap::suggest_compression(paatype, width, height);
        let raw = image.as_raw();
        assert(4 * width * height == spec_raw_len(w, h)) by (nonlinear_arith)
            requires
                w == width,
                h == height,
        ;
        assert(raw@.len() % 4 == 0);
        if paatype.is_dxtn() {
            let data = match compress_blocks(paatype, raw.as_slice(), width, height) {
                Ok(d) => d,
                Err(e) => {
                    return Err(e);
                },
            };
            Ok(PaaMipmap { width, height, paatype, compression, data })
        } else {
            let data = match from_canonical(paatype, raw.as_slice()) {
                Ok(d) => d,
                Err(e) => {
                    return Err(e);
                },
            };
            proof {
                let area = (w as nat) * (h as nat);
                assert(width as nat * height as nat == area);
                match paatype {
                    PaaType::Argb1555 => lemma_from_rgba8_len(PackedLayout::Argb1555, raw@),
                    PaaType::Argb4444 => lemma_from_rgba8_len(PackedLayout::Argb4444, raw@),
                    _ => lemma_reverse_quads_twice(raw@),
                }
            }
            Ok(PaaMipmap { width, height, paatype, compression, data })
        }
    }
}

/// Encodes an RGBA image into a container under given settings.
#[derive(Debug)]
pub struct PaaEncoder {
    pub image: RgbaImage,
    pub settings: TextureEncodingSettings,
}

/// The image the mipmaps are made from: the swizzled image, or its first
/// pixel alone where the settings ask to reduce an image of one colour and
/// the swizzled image is one.
pub open spec fn spec_encoder_source(image: RasterView, settings: TextureEncodingSettings) -> RasterView {
    let swizzled = spec_swizzled(settings.swizzle, image.data);
    if settings.autoreduce && spec_is_solid(swizzled) && swizzled.len() >= 4 {
        RasterView { width: 1, height: 1, data: spec_pixel(swizzled, 0) }
    } else {
        RasterView { width: image.width, height: image.height, data: swizzled }
    }
}

/// The image the colour tags are computed from: the image as given where it
/// is reduced to one pixel, else the swizzled image.
pub open spec fn spec_encoder_colors_from(image: RasterView, settings: TextureEncodingSettings) -> Seq<
    u8,
> {
    let swizzled = spec_swizzled(settings.swizzle, image.data);
    if settings.autoreduce && spec_is_solid(swizzled) {
        image.data
    } else {
        swizzled
    }
}

/// Whether the slots hold the images of a series encoded as mipmaps of a
/// format: the images have the dimensions of the series made by halving the
/// source, the first is the source, and each slot is the result of encoding
/// the image of its index.
pub open spec fn spec_encoded_series(
    slots: Seq<PaaResult<PaaMipmap>>,
    paatype: PaaType,
    source: RasterView,
    images: Seq<RasterView>,
) -> bool {
    let dims = spec_series_dims(source.width, source.height, 1);
    &&& images.len() == slots.len()
    &&& slots.len() <= dims.len()
    &&& slots.len() > 0 ==> images[0] == source
    &&& forall|k: int|
        0 <= k < slots.len() ==> (#[trigger] images[k]).width == dims[k].0 && images[k].height
            == dims[k].1 && spec_encoded_as(slots[k], paatype, images[k])
}

impl PaaEncoder {
    /// An encoder for `image` under `settings`.
    pub fn with_image_and_settings(image: RgbaImage, settings: TextureEncodingSettings) -> (e: Self)
        ensures
            e.image == image,
            e.settings == settings,
    {
        PaaEncoder { image, settings }
    }

    /// Encodes the image: the container has the format of the settings, an
    /// average-colour and a maximum-colour record, no palette, and one slot
    /// for each image of the series made by halving the source down to one
    /// pixel, at most fifteen of them. Each slot holds the image of its
    /// index encoded as a mipmap; the first image is the source, the others
    /// come from resampling.
    pub fn encode(&self) -> (res: PaaResult<PaaImage>)
        ensures
            res is Ok,
            res->Ok_0.paatype == self.settings.format,
            res->Ok_0.palette is None,
            taggs_view(res->Ok_0.taggs@) == seq![
                TaggView::Avgc { rgba: spec_avgc(spec_encoder_colors_from(self.image@, self.settings)) },
                TaggView::Maxc { rgba: spec_maxc(spec_encoder_colors_from(self.image@, self.settings)) },
            ],
            ({
                let source = spec_encoder_source(self.image@, self.settings);
                let levels = spec_series_dims(source.width, source.height, 1).len();
                &&& res->Ok_0.mipmaps@.len() == (if levels > MAX_MIPMAPS {
                    MAX_MIPMAPS as nat
                } else {
                    levels
                })
                &&& exists|images: Seq<RasterView>| #[trigger]
                    spec_encoded_series(
                        res->Ok_0.mipmaps@,
                        self.settings.format,
                        source,
                        images,
                    )
            }),
    {
        let mut img = self.image.clone();
        let (mut avgc, mut maxc) = img.get_avgc_maxc();
        self.settings.swizzle.apply_to_image(&mut img);
        let solid = self.settings.autoreduce && img.is_solid_color();
        if solid {
            img = img.first_pixel_image();
        } else {
            let colors = img.get_avgc_maxc();
            avgc = colors.0;
            maxc = colors.1;
        }
        let paatype = self.settings.format;
        let mut taggs: Vec<Tagg> = Vec::new();
        taggs.push(Tagg::Avgc { rgba: avgc });
        taggs.push(Tagg::Maxc { rgba: maxc });
        assert(taggs_view(taggs@) =~= seq![
            TaggView::Avgc { rgba: avgc },
            TaggView::Maxc { rgba: maxc },
        ]);
        let ghost source = img@;
        assert(source == spec_encoder_source(self.image@, self.settings));
        let series = construct_mipmap_series(img, 1, ResizeFilter::Triangle);
        let ghost dims = spec_series_dims(source.width, source.height, 1);
        let mut mipmaps: Vec<PaaResult<PaaMipmap>> = Vec::new();
        let mut i: usize = 0;
        while i < series.len() && i < MAX_MIPMAPS
            invariant
                i <= series@.len(),
                i <= MAX_MIPMAPS,
                mipmaps@.len() == i,
                forall|k: int|
                    0 <= k < i ==> spec_encoded_as(#[trigger] mipmaps@[k], paatype, series@[k]@),
            decreases series@.len() - i,
        {
            let slot = PaaMipmap::encode(paatype, &series[i]);
            mipmaps.push(slot);
            i = i + 1;
        }
        proof {
            let images = Seq::new(mipmaps@.len(), |k: int| series@[k]@);
            assert(series@.len() == dims.len());
            assert(mipmaps@.len() == (if dims.len() > MAX_MIPMAPS {
                MAX_MIPMAPS as nat
            } else {
                dims.len()
            }));
            assert(spec_encoded_series(mipmaps@, paatype, source, images));
        }
        let ghost slots = mipmaps@;
        let ghost records = taggs_view(taggs@);
        let image = PaaImage { paatype, taggs, palette: None, mipmaps };
        proof {
            assert(image.mipmaps@ == slots);
            assert(taggs_view(image.taggs@) == records);
            assert(exists|images: Seq<RasterView>| #[trigger]
                spec_encoded_series(
                    image.mipmaps@,
                    self.settings.format,
                    spec_encoder_source(self.image@, self.settings),
                    images,
                ));
        }
        Ok(image)
    }
}

} // verus!
