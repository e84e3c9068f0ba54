//! Plain RGBA images, and what the encoder asks of them: colour statistics,
//! swizzling and the series of halved images.

use vstd::prelude::*;
use crate::pixel::Bgra8888Pixel;
use crate::swizzle::ArgbSwizzle;

verus! {

/// An image of `width` by `height` pixels with four bytes per pixel: red,
/// green, blue, alpha. The rows follow each other from the top.
#[derive(Debug)]
pub struct RgbaImage {
    width: u32,
    height: u32,
    data: Vec<u8>,
}

/// The mathematical content of an [`RgbaImage`].
pub struct RasterView {
    pub width: u32,
    pub height: u32,
    pub data: Seq<u8>,
}

/// The filter used when an image is halved.
#[derive(Debug, Clone, Copy, PartialEq, Eq, Structural)]
pub enum ResizeFilter {
    /// The box filter: every pixel under the window counts the same.
    Nearest,
    /// The triangle filter: a pixel counts the less the farther it is from
    /// the sampled position.
    Triangle,
}

impl View for RgbaImage {
    type V = RasterView;

    closed spec fn view(&self) -> RasterView {
        RasterView { width: self.width, height: self.height, data: self.data@ }
    }
}

/// Bytes of an RGBA image of the given dimensions.
pub open spec fn spec_raw_len(width: u32, height: u32) -> nat {
    4 * ((width as nat) * (height as nat))
}

/// Pixel `i` of RGBA data.
pub open spec fn spec_pixel(data: Seq<u8>, i: int) -> Seq<u8> {
    data.subrange(4 * i, 4 * i + 4)
}

/// Whether every pixel of RGBA data equals the first.
pub open spec fn spec_is_solid(data: Seq<u8>) -> bool {
    forall|i: int| 0 <= i < data.len() / 4 ==> #[trigger] spec_pixel(data, i) == spec_pixel(data, 0)
}

/// Sum of channel `c` over the first `n` pixels.
pub open spec fn spec_channel_sum(data: Seq<u8>, c: int, n: nat) -> nat
    decreases n,
{
    if n == 0 {
        0
    } else {
        spec_channel_sum(data, c, (n - 1) as nat) + data[4 * (n - 1) + c] as nat
    }
}

/// Largest value of channel `c` over the first `n` pixels, zero for none.
pub open spec fn spec_channel_max(data: Seq<u8>, c: int, n: nat) -> u8
    decreases n,
{
    if n == 0 {
        0
    } else {
        let before = spec_channel_max(data, c, (n - 1) as nat);
        if data[4 * (n - 1) + c] > before {
            data[4 * (n - 1) + c]
        } else {
            before
        }
    }
}

/// The average colour of RGBA data: each channel's sum divided by the
/// number of pixels, rounded down; the default colour where there is no
/// pixel.
pub open spec fn spec_avgc(data: Seq<u8>) -> Bgra8888Pixel {
    let n = (data.len() / 4) as nat;
    if n == 0 {
        Bgra8888Pixel { b: 0, g: 0, r: 0, a: 0 }
    } else {
        Bgra8888Pixel {
            r: (spec_channel_sum(data, 0, n) / n) as u8,
            g: (spec_channel_sum(data, 1, n) / n) as u8,
            b: (spec_channel_sum(data, 2, n) / n) as u8,
            a: (spec_channel_sum(data, 3, n) / n) as u8,
        }
    }
}

/// The maximum colour of RGBA data: the largest value of each channel.
pub open spec fn spec_maxc(data: Seq<u8>) -> Bgra8888Pixel {
    let n = (data.len() / 4) as nat;
    Bgra8888Pixel {
        r: spec_channel_max(data, 0, n),
        g: spec_channel_max(data, 1, n),
        b: spec_channel_max(data, 2, n),
        a: spec_channel_max(data, 3, n),
    }
}

/// RGBA data with the swizzle applied to every pixel.
pub open spec fn spec_swizzled(swizzle: ArgbSwizzle, data: Seq<u8>) -> Seq<u8> {
    Seq::new(data.len(), |i: int| swizzle.spec_map(spec_pixel(data, i / 4))[i % 4])
}

/// The least `k` from `k0` on with `min_dimension * 2^k >= smaller`, for a
/// `min_dimension` of at least 1 and a `reach` of `min_dimension * 2^k0`.
pub open spec fn spec_doublings(smaller: nat, reach: nat, k0: nat) -> nat
    decreases
            (if reach < smaller {
                smaller - reach
            } else {
                0
            }),
{
    if reach >= smaller || reach == 0 {
        k0
    } else {
        spec_doublings(smaller, 2 * reach, k0 + 1)
    }
}

/// How many mipmaps to expect for an image whose smaller side is `smaller`
/// when halving stops at `min_dimension`: the least `k` with `min_dimension *
/// 2^k >= smaller`, and at least 1. With a `min_dimension` of zero there is
/// no such `k` unless the image has a side of zero, and the count is the
/// largest there is.
pub open spec fn spec_hint_mipmap_count(smaller: u32, min_dimension: u32) -> nat {
    if min_dimension == 0 {
        if smaller == 0 {
            1
        } else {
            usize::MAX as nat
        }
    } else {
        let k = spec_doublings(smaller as nat, min_dimension as nat, 0);
        if k < 1 {
            1
        } else {
            k
        }
    }
}

/// The dimensions of the series of images made by halving both sides until
/// one falls below `min_dimension`, which is at least 1.
pub open spec fn spec_series_dims(width: u32, height: u32, min_dimension: u32) -> Seq<(u32, u32)>
    decreases width,
{
    if width < min_dimension || height < min_dimension || min_dimension == 0 {
        Seq::<(u32, u32)>::empty()
    } else {
        seq![(width, height)] + spec_series_dims(width / 2, height / 2, min_dimension)
    }
}

/// How many mipmaps to expect for an image of the given dimensions when
/// halving stops at `min_dimension`.
pub fn hint_mipmap_count(dimensions: (u32, u32), min_dimension: u32) -> (count: usize)
    ensures
        count == spec_hint_mipmap_count(
            if dimensions.0 < dimensions.1 {
                dimensions.0
            } else {
                dimensions.1
            },
            min_dimension,
        ),
{
    let smaller: u32 = if dimensions.0 < dimensions.1 {
        dimensions.0
    } else {
        dimensions.1
    };
    if min_dimension == 0 {
        if smaller == 0 {
            return 1;
        }
        return usize::MAX;
    }
    let mut reach: u64 = min_dimension as u64;
    let mut k: usize = 0;
    proof {
        reveal_with_fuel(pow2_bound, 2);
    }
    while reach < smaller as u64
        invariant
            1 <= reach,
            reach < 0x2_0000_0000,
            k <= 32,
            spec_doublings(smaller as nat, reach as nat, k as nat) == spec_doublings(
                smaller as nat,
                min_dimension as nat,
                0,
            ),
            reach as nat >= pow2_bound(k as nat),
        decreases
                (if reach < smaller {
                    smaller - reach
                } else {
                    0
                }),
    {
        proof {
            lemma_pow2_bound_grows(k as nat);
        }
        reach = reach * 2;
        k = k + 1;
    }
    if k < 1 {
        1
    } else {
        k
    }
}

/// `2^k`, used to bound the number of doublings.
pub open spec fn pow2_bound(k: nat) -> nat
    decreases k,
{
    if k == 0 {
        1
    } else {
        2 * pow2_bound((k - 1) as nat)
    }
}

proof fn lemma_pow2_bound_grows(k: nat)
    ensures
        pow2_bound(k + 1) == 2 * pow2_bound(k),
        k >= 32 ==> pow2_bound(k) >= 0x1_0000_0000,
    decreases k,
{
    reveal_with_fuel(pow2_bound, 2);
    if k >= 32 {
        if k == 32 {
            assert(pow2_bound(32) == 0x1_0000_0000) by {
                reveal_with_fuel(pow2_bound, 34);
            }
        } else {
            lemma_pow2_bound_grows((k - 1) as nat);
        }
    }
}

/// `image::imageops::resize` of the image crate on an RGBA image. The
/// pixels it gives depend on floating-point arithmetic, so only their number
/// is claimed: the function returns a buffer made for the new dimensions.
/// It panics where that buffer, or the one it makes on the way with the old
/// width and the new height, has more elements than `usize` can count. It
/// divides the weights of the pixels under its window by their sum and
/// panics on a pixel that is not a number; with the two filters here no
/// weight is negative and the pixel that holds the sampled position has a
/// positive one, so the sum is not zero.
#[verifier::external_body]
fn resize_rgba(
    data: &Vec<u8>,
    width: u32,
    height: u32,
    nwidth: u32,
    nheight: u32,
    filter: ResizeFilter,
) -> (out: Vec<u8>)
    requires
        data@.len() == spec_raw_len(width, height),
        width >= 1,
        height >= 1,
        nwidth >= 1,
        nheight >= 1,
        spec_raw_len(nwidth, nheight) <= usize::MAX,
        spec_raw_len(width, nheight) <= usize::MAX,
    ensures
        out@.len() == spec_raw_len(nwidth, nheight),
{
    let kind = match filter {
        ResizeFilter::Nearest => image::imageops::FilterType::Nearest,
        ResizeFilter::Triangle => image::imageops::FilterType::Triangle,
    };
    let source = image::RgbaImage::from_raw(width, height, data.clone()).unwrap();
    image::imageops::resize(&source, nwidth, nheight, kind).into_raw()
}

impl Clone for RgbaImage {
    fn clone(&self) -> (c: Self)
        ensures
            c@ == self@,
    {
        proof {
            use_type_invariant(self);
        }
        RgbaImage {
            width: self.width,
            height: self.height,
            data: vstd::slice::slice_to_vec(self.data.as_slice()),
        }
    }
}

impl RgbaImage {
    #[verifier::type_invariant]
    closed spec fn well_formed(&self) -> bool {
        self.data@.len() == spec_raw_len(self.width, self.height)
    }

    /// An image of the given dimensions over `data`, or `None` unless `data`
    /// holds four bytes per pixel.
    pub fn from_vec(width: u32, height: u32, data: Vec<u8>) -> (res: Option<Self>)
        ensures
            data@.len() == spec_raw_len(width, height) ==> res is Some && res->Some_0@
                == (RasterView { width, height, data: data@ }),
            data@.len() != spec_raw_len(width, height) ==> res is None,
    {
        assert((width as nat) * (height as nat) <= 0xFFFF_FFFF * 0xFFFF_FFFF) by (nonlinear_arith)
            requires
                width <= 0xFFFF_FFFF,
                height <= 0xFFFF_FFFF,
        ;
        let area: u64 = (width as u64) * (height as u64);
        let len = data.len();
        if area > 0x3FFF_FFFF_FFFF_FFFF {
            return None;
        }
        if len as u64 != 4 * area {
            return None;
        }
        Some(RgbaImage { width, height, data })
    }

    /// Width in pixels.
    pub fn width(&self) -> (w: u32)
        ensures
            w == self@.width,
    {
        self.width
    }

    /// Height in pixels.
    pub fn height(&self) -> (h: u32)
        ensures
            h == self@.height,
    {
        self.height
    }

    /// Width and height in pixels.
    pub fn dimensions(&self) -> (d: (u32, u32))
        ensures
            d == (self@.width, self@.height),
    {
        (self.width, self.height)
    }

    /// The bytes of the image, four per pixel.
    pub fn as_raw(&self) -> (data: &Vec<u8>)
        ensures
            data@ == self@.data,
            data@.len() == spec_raw_len(self@.width, self@.height),
    {
        proof {
            use_type_invariant(self);
        }
        &self.data
    }

    /// The bytes of the image, four per pixel.
    pub fn into_raw(self) -> (data: Vec<u8>)
        ensures
            data@ == self@.data,
            data@.len() == spec_raw_len(self@.width, self@.height),
    {
        proof {
            use_type_invariant(&self);
        }
        self.data
    }

    /// Number of pixels.
    pub fn pixel_count(&self) -> (n: usize)
        ensures
            n == self@.data.len() / 4,
            n == self@.width * self@.height,
            self@.data.len() == 4 * n,
    {
        proof {
            use_type_invariant(self);
        }
        self.data.len() / 4
    }

    /// Pixel `i`, counted along the rows from the top left.
    pub fn pixel(&self, i: usize) -> (p: [u8; 4])
        requires
            i < self@.data.len() / 4,
        ensures
            p@ == spec_pixel(self@.data, i as int),
    {
        let len = self.data.len();
        assert(4 * i + 3 < len);
        let p = [self.data[4 * i], self.data[4 * i + 1], self.data[4 * i + 2], self.data[4 * i + 3]];
        assert(p@ =~= spec_pixel(self@.data, i as int));
        p
    }

    /// The image of one pixel that holds the top left pixel of this image,
    /// or a copy of the image where it has no pixel.
    pub fn first_pixel_image(&self) -> (out: Self)
        ensures
            self@.data.len() >= 4 ==> out@ == (RasterView {
                width: 1,
                height: 1,
                data: spec_pixel(self@.data, 0),
            }),
            self@.data.len() < 4 ==> out@ == self@,
    {
        proof {
            use_type_invariant(self);
        }
        if self.data.len() < 4 {
            return self.clone();
        }
        let p = self.pixel(0);
        let data = vstd::slice::slice_to_vec(p.as_slice());
        RgbaImage { width: 1, height: 1, data }
    }

    /// True if every pixel equals the first, and so for an image without
    /// pixels.
    pub fn is_solid_color(&self) -> (r: bool)
        ensures
            r == spec_is_solid(self@.data),
    {
        let n = self.pixel_count();
        if n == 0 {
            return true;
        }
        let first = self.pixel(0);
        let mut i: usize = 1;
        while i < n
            invariant
                1 <= i <= n,
                n == self@.data.len() / 4,
                first@ == spec_pixel(self@.data, 0),
                forall|j: int| 0 <= j < i ==> #[trigger] spec_pixel(self@.data, j) == first@,
            decreases n - i,
        {
            let p = self.pixel(i);
            if !(p[0] == first[0] && p[1] == first[1] && p[2] == first[2] && p[3] == first[3]) {
                assert(spec_pixel(self@.data, i as int) != spec_pixel(self@.data, 0)) by {
                    if spec_pixel(self@.data, i as int) == spec_pixel(self@.data, 0) {
                        assert(p@ == first@);
                        assert(p@[0] == first@[0] && p@[1] == first@[1] && p@[2] == first@[2]
                            && p@[3] == first@[3]);
                    }
                }
                return false;
            }
            assert(p@ =~= first@);
            i = i + 1;
        }
        true
    }

    /// The average and the maximum colour of the image.
    pub fn get_avgc_maxc(&self) -> (colors: (Bgra8888Pixel, Bgra8888Pixel))
        ensures
            colors.0 == spec_avgc(self@.data),
            colors.1 == spec_maxc(self@.data),
    {
        let n = self.pixel_count();
        if n == 0 {
            return (Bgra8888Pixel::default(), Bgra8888Pixel::default());
        }
        let ghost data = self@.data;
        let mut sr: u128 = 0;
        let mut sg: u128 = 0;
        let mut sb: u128 = 0;
        let mut sa: u128 = 0;
        let mut mr: u8 = 0;
        let mut mg: u8 = 0;
        let mut mb: u8 = 0;
        let mut ma: u8 = 0;
        let mut i: usize = 0;
        while i < n
            invariant
                i <= n,
                n == data.len() / 4,
                data == self@.data,
                sr == spec_channel_sum(data, 0, i as nat),
                sg == spec_channel_sum(data, 1, i as nat),
                sb == spec_channel_sum(data, 2, i as nat),
                sa == spec_channel_sum(data, 3, i as nat),
                sr <= 255 * i,
                sg <= 255 * i,
                sb <= 255 * i,
                sa <= 255 * i,
                mr == spec_channel_max(data, 0, i as nat),
                mg == spec_channel_max(data, 1, i as nat),
                mb == spec_channel_max(data, 2, i as nat),
                ma == spec_channel_max(data, 3, i as nat),
            decreases n - i,
        {
            let p = self.pixel(i);
            assert(p@[0] == data[4 * i + 0] && p@[1] == data[4 * i + 1] && p@[2] == data[4 * i + 2]
                && p@[3] == data[4 * i + 3]);
            sr = sr + p[0] as u128;
            sg = sg + p[1] as u128;
            sb = sb + p[2] as u128;
            sa = sa + p[3] as u128;
            if p[0] > mr {
                mr = p[0];
            }
            if p[1] > mg {
                mg = p[1];
            }
            if p[2] > mb {
                mb = p[2];
            }
            if p[3] > ma {
                ma = p[3];
            }
            i = i + 1;
        }
        let count: u128 = n as u128;
        assert(sr / count <= 255 && sg / count <= 255 && sb / count <= 255 && sa / count <= 255)
            by (nonlinear_arith)
            requires
                count >= 1,
                sr <= 255 * count,
                sg <= 255 * count,
                sb <= 255 * count,
                sa <= 255 * count,
        ;
        let avg = Bgra8888Pixel {
            r: (sr / count) as u8,
            g: (sg / count) as u8,
            b: (sb / count) as u8,
            a: (sa / count) as u8,
        };
        let max = Bgra8888Pixel { r: mr, g: mg, b: mb, a: ma };
        (avg, max)
    }

    /// Replaces every pixel by what the swizzle makes of it.
    pub fn apply_swizzle(&mut self, swizzle: &ArgbSwizzle)
        ensures
            final(self)@.width == old(self)@.width,
            final(self)@.height == old(self)@.height,
            final(self)@.data == spec_swizzled(*swizzle, old(self)@.data),
    {
        proof {
            use_type_invariant(&*self);
        }
        let n = self.data.len() / 4;
        let ghost before = self.data@;
        let ghost target = spec_swizzled(*swizzle, before);
        assert(before.len() % 4 == 0);
        let mut out: Vec<u8> = Vec::new();
        let mut i: usize = 0;
        while i < n
            invariant
                i <= n,
                n == before.len() / 4,
                before.len() % 4 == 0,
                before.len() <= usize::MAX,
                before == self.data@,
                target == spec_swizzled(*swizzle, before),
                out@.len() == 4 * i,
                forall|j: int| 0 <= j < 4 * i ==> #[trigger] out@[j] == target[j],
            decreases n - i,
        {
            assert(4 * i + 3 < self.data@.len());
            let src = [self.data[4 * i], self.data[4 * i + 1], self.data[4 * i + 2], self.data[4 * i + 3]];
            assert(src@ =~= spec_pixel(before, i as int));
            let dst = swizzle.to_rgba8_map(&src);
            out.push(dst[0]);
            out.push(dst[1]);
            out.push(dst[2]);
            out.push(dst[3]);
            proof {
                assert forall|j: int| 0 <= j < 4 * (i + 1) implies #[trigger] out@[j]
                    == target[j] by {
                    if j >= 4 * i {
                        assert(j / 4 == i);
                        assert(j % 4 == j - 4 * i);
                    }
                }
            }
            i = i + 1;
        }
        assert(out@ =~= target);
        self.data = out;
    }

    /// The image resized to the given dimensions, both at least 1, of an
    /// image with pixels. The pixels come from the image crate's resampling
    /// and are not specified here.
    pub fn resized(&self, nwidth: u32, nheight: u32, filter: ResizeFilter) -> (out: Self)
        requires
            self@.width >= 1,
            self@.height >= 1,
            nwidth >= 1,
            nheight >= 1,
            spec_raw_len(nwidth, nheight) <= usize::MAX,
            spec_raw_len(self@.width, nheight) <= usize::MAX,
        ensures
            out@.width == nwidth,
            out@.height == nheight,
            out@.data.len() == spec_raw_len(nwidth, nheight),
    {
        proof {
            use_type_invariant(self);
        }
        let data = resize_rgba(&self.data, self.width, self.height, nwidth, nheight, filter);
        RgbaImage { width: nwidth, height: nheight, data }
    }
}

impl ArgbSwizzle {
    /// Applies the swizzle to every pixel of `image`.
    pub fn apply_to_image(&self, image: &mut RgbaImage)
        ensures
            final(image)@.width == old(image)@.width,
            final(image)@.height == old(image)@.height,
            final(image)@.data == spec_swizzled(*self, old(image)@.data),
    {
        image.apply_swizzle(self);
    }
}

/// Applies a swizzle to every pixel of `image`.
pub fn apply_swizzle_to_rgba8(image: &mut RgbaImage, swizzle: &ArgbSwizzle)
    ensures
        final(image)@.width == old(image)@.width,
        final(image)@.height == old(image)@.height,
        final(image)@.data == spec_swizzled(*swizzle, old(image)@.data),
{
    image.apply_swizzle(swizzle);
}

/// The views of the images of `images`.
pub open spec fn rasters_view(images: Seq<RgbaImage>) -> Seq<RasterView> {
    Seq::new(images.len(), |i: int| images[i]@)
}

/// The series of images made by halving both sides of `image`, rounding
/// down, until a side falls below `min_dimension`: the first is `image`
/// itself, and each has the dimensions the halving gives. What the smaller
/// images show comes from the image crate's resampling.
pub fn construct_mipmap_series(image: RgbaImage, min_dimension: u32, filter: ResizeFilter) -> (series:
    Vec<RgbaImage>)
    requires
        min_dimension >= 1,
    ensures
        series@.len() == spec_series_dims(image@.width, image@.height, min_dimension).len(),
        forall|i: int|
            0 <= i < series@.len() ==> ((#[trigger] series@[i])@.width, series@[i]@.height)
                == spec_series_dims(image@.width, image@.height, min_dimension)[i],
        series@.len() > 0 ==> series@[0]@ == image@,
{
    let ghost dims = spec_series_dims(image@.width, image@.height, min_dimension);
    let ghost given = image@;
    let mut series: Vec<RgbaImage> = Vec::new();
    let mut current = image;
    let mut done = false;
    while !done
        invariant
            min_dimension >= 1,
            dims == spec_series_dims(given.width, given.height, min_dimension),
            !done ==> dims =~= Seq::new(series@.len(), |i: int| dims[i]) + spec_series_dims(
                current@.width,
                current@.height,
                min_dimension,
            ),
            done ==> series@.len() == dims.len(),
            series@.len() <= dims.len(),
            forall|i: int|
                0 <= i < series@.len() ==> ((#[trigger] series@[i])@.width, series@[i]@.height)
                    == dims[i],
            series@.len() > 0 ==> series@[0]@ == given,
            series@.len() == 0 ==> current@ == given,
        decreases if done { 0int } else { current@.width as int + 1 },
    {
        let (width, height) = current.dimensions();
        if width < min_dimension || height < min_dimension {
            done = true;
        } else {
            let ghost rest = spec_series_dims(width / 2, height / 2, min_dimension);
            let ghost seen = series@.len();
            let half_w = width / 2;
            let half_h = height / 2;
            if half_w < min_dimension || half_h < min_dimension {
                series.push(current.clone());
                proof {
                    assert(rest =~= Seq::<(u32, u32)>::empty());
                    assert(dims.len() == seen + 1);
                    assert(dims[seen as int] == (width, height));
                }
                done = true;
            } else {
                assert((half_w as nat) * (half_h as nat) <= (width as nat) * (height as nat))
                    by (nonlinear_arith)
                    requires
                        half_w <= width,
                        half_h <= height,
                ;
                let bytes = current.as_raw().len();
                assert(spec_raw_len(half_w, half_h) <= bytes);
                assert((width as nat) * (half_h as nat) <= (width as nat) * (height as nat))
                    by (nonlinear_arith)
                    requires
                        half_h <= height,
                ;
                let next = current.resized(half_w, half_h, filter);
                series.push(current);
                proof {
                    assert(dims[seen as int] == (width, height));
                    assert(dims =~= Seq::new(series@.len(), |i: int| dims[i]) + rest);
                }
                current = next;
            }
        }
    }
    series
}

} // verus!
