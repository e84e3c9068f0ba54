//! Pixels of the colour tags and the palette, and the conversion between the
//! packed 16-bit and 32-bit pixel formats and plain RGBA with 8 bits per
//! channel.

use vstd::prelude::*;
use crate::error::{PaaError, PaaResult};
use crate::paatype::PaaType;

verus! {

/// A palette colour; its bytes on the wire are blue, green, red.
#[derive(Debug, Clone, Copy, PartialEq, Eq, Structural)]
pub struct Bgr888Pixel {
    pub b: u8,
    pub g: u8,
    pub r: u8,
}

impl Default for Bgr888Pixel {
    fn default() -> (p: Self)
        ensures
            p == (Bgr888Pixel { b: 0, g: 0, r: 0 }),
    {
        Bgr888Pixel { b: 0, g: 0, r: 0 }
    }
}

impl Bgr888Pixel {
    pub open spec fn spec_bytes(self) -> Seq<u8> {
        seq![self.b, self.g, self.r]
    }

    /// The three bytes of the colour on the wire.
    pub fn to_bytes(&self) -> (out: [u8; 3])
        ensures
            out@ == self.spec_bytes(),
    {
        let out = [self.b, self.g, self.r];
        assert(out@ =~= self.spec_bytes());
        out
    }

    /// The colour stored in three bytes.
    pub fn from_bytes(bytes: [u8; 3]) -> (p: Self)
        ensures
            p == (Bgr888Pixel { b: bytes[0], g: bytes[1], r: bytes[2] }),
    {
        Bgr888Pixel { b: bytes[0], g: bytes[1], r: bytes[2] }
    }
}

/// The colour of an average-colour or maximum-colour tag; its bytes on the
/// wire are blue, green, red, alpha.
#[derive(Debug, Clone, Copy, PartialEq, Eq, Structural)]
pub struct Bgra8888Pixel {
    pub b: u8,
    pub g: u8,
    pub r: u8,
    pub a: u8,
}

impl Default for Bgra8888Pixel {
    fn default() -> (p: Self)
        ensures
            p == (Bgra8888Pixel { b: 0, g: 0, r: 0, a: 0 }),
    {
        Bgra8888Pixel { b: 0, g: 0, r: 0, a: 0 }
    }
}

impl Bgra8888Pixel {
    pub open spec fn spec_bytes(self) -> Seq<u8> {
        seq![self.b, self.g, self.r, self.a]
    }

    /// The four bytes of the colour on the wire.
    pub fn to_bytes(&self) -> (out: [u8; 4])
        ensures
            out@ == self.spec_bytes(),
    {
        let out = [self.b, self.g, self.r, self.a];
        assert(out@ =~= self.spec_bytes());
        out
    }

    /// The colour stored in four bytes.
    pub fn from_bytes(bytes: [u8; 4]) -> (p: Self)
        ensures
            p == (Bgra8888Pixel { b: bytes[0], g: bytes[1], r: bytes[2], a: bytes[3] }),
    {
        Bgra8888Pixel { b: bytes[0], g: bytes[1], r: bytes[2], a: bytes[3] }
    }

    /// The colour of an RGBA pixel.
    pub fn from_rgba(rgba: [u8; 4]) -> (p: Self)
        ensures
            p == (Bgra8888Pixel { b: rgba[2], g: rgba[1], r: rgba[0], a: rgba[3] }),
    {
        Bgra8888Pixel { b: rgba[2], g: rgba[1], r: rgba[0], a: rgba[3] }
    }
}

/// The two packed 16-bit layouts: alpha in the high bits, then red, green
/// and blue. The word is stored little-endian.
#[derive(Debug, Clone, Copy, PartialEq, Eq, Structural)]
pub enum PackedLayout {
    /// 1 bit alpha, 5 bits per colour.
    Argb1555,
    /// 4 bits per channel.
    Argb4444,
}

/// Channel values of one packed pixel, each within the range of its width.
#[derive(Debug, Clone, Copy, PartialEq, Eq, Structural)]
pub struct ArgbPixel {
    pub a: u8,
    pub r: u8,
    pub g: u8,
    pub b: u8,
}

/// Largest value of `width` bits, for widths from 1 to 8.
pub open spec fn spec_uint_range(width: u8) -> nat {
    if width == 1 {
        1
    } else if width == 2 {
        3
    } else if width == 3 {
        7
    } else if width == 4 {
        15
    } else if width == 5 {
        31
    } else if width == 6 {
        63
    } else if width == 7 {
        127
    } else if width == 8 {
        255
    } else {
        0
    }
}

/// `value`, which is at most the largest value of `from_width` bits, scaled
/// to `into_width` bits: multiplied by the target range, biased by half the
/// source range, divided by the source range.
#[verifier::opaque]
pub open spec fn spec_convert_u8(value: u8, from_width: u8, into_width: u8) -> nat {
    (value as nat * spec_uint_range(into_width) + spec_uint_range(from_width) / 2)
        / spec_uint_range(from_width)
}

/// Largest value of `width` bits.
pub fn uint_range(width: u8) -> (r: u8)
    requires
        1 <= width <= 8,
    ensures
        r == spec_uint_range(width),
        r >= 1,
{
    if width == 1 {
        1
    } else if width == 2 {
        3
    } else if width == 3 {
        7
    } else if width == 4 {
        15
    } else if width == 5 {
        31
    } else if width == 6 {
        63
    } else if width == 7 {
        127
    } else {
        255
    }
}

/// Scales a channel value from one bit width to another with symmetric
/// rounding.
pub fn convert_u8(value: u8, from_width: u8, into_width: u8) -> (r: u8)
    requires
        1 <= from_width <= 8,
        1 <= into_width <= 8,
        value <= spec_uint_range(from_width),
    ensures
        r == spec_convert_u8(value, from_width, into_width),
        r <= spec_uint_range(into_width),
{
    proof {
        reveal(spec_convert_u8);
    }
    let range_from: u16 = uint_range(from_width) as u16;
    let range_into: u16 = uint_range(into_width) as u16;
    let bias: u16 = range_from / 2;
    assert(value as int * range_into as int <= range_from as int * range_into as int)
        by (nonlinear_arith)
        requires
            value <= range_from,
            range_into >= 0,
    ;
    assert(range_from as int * range_into as int <= 255 * 255) by (nonlinear_arith)
        requires
            0 <= range_from <= 255,
            0 <= range_into <= 255,
    ;
    let num: u16 = (value as u16) * range_into + bias;
    assert(num as int / range_from as int <= range_into as int) by (nonlinear_arith)
        requires
            num < range_from as int * (range_into as int + 1),
            range_from >= 1,
    ;
    (num / range_from) as u8
}

impl PackedLayout {
    pub open spec fn spec_alpha_width(self) -> u8 {
        match self {
            PackedLayout::Argb1555 => 1,
            PackedLayout::Argb4444 => 4,
        }
    }

    pub open spec fn spec_color_width(self) -> u8 {
        match self {
            PackedLayout::Argb1555 => 5,
            PackedLayout::Argb4444 => 4,
        }
    }

    /// Whether each channel of `p` is within the range of its width.
    pub open spec fn spec_in_range(self, p: ArgbPixel) -> bool {
        &&& p.a <= spec_uint_range(self.spec_alpha_width())
        &&& p.r <= spec_uint_range(self.spec_color_width())
        &&& p.g <= spec_uint_range(self.spec_color_width())
        &&& p.b <= spec_uint_range(self.spec_color_width())
    }

    /// The 16-bit word that holds `p`.
    pub open spec fn spec_word(self, p: ArgbPixel) -> nat {
        match self {
            PackedLayout::Argb1555 => p.a as nat * 32768 + p.r as nat * 1024 + p.g as nat * 32
                + p.b as nat,
            PackedLayout::Argb4444 => p.a as nat * 4096 + p.r as nat * 256 + p.g as nat * 16
                + p.b as nat,
        }
    }

    /// The pixel held by a 16-bit word.
    pub open spec fn spec_pixel(self, word: nat) -> ArgbPixel {
        match self {
            PackedLayout::Argb1555 => ArgbPixel {
                a: (word / 32768 % 2) as u8,
                r: (word / 1024 % 32) as u8,
                g: (word / 32 % 32) as u8,
                b: (word % 32) as u8,
            },
            PackedLayout::Argb4444 => ArgbPixel {
                a: (word / 4096 % 16) as u8,
                r: (word / 256 % 16) as u8,
                g: (word / 16 % 16) as u8,
                b: (word % 16) as u8,
            },
        }
    }

    /// The pixel stored in two bytes.
    #[verifier::opaque]
    pub open spec fn spec_unpack(self, b0: u8, b1: u8) -> ArgbPixel {
        self.spec_pixel(b0 as nat + 256 * b1 as nat)
    }

    /// The two bytes that store `p`.
    #[verifier::opaque]
    pub open spec fn spec_pack(self, p: ArgbPixel) -> Seq<u8> {
        seq![(self.spec_word(p) % 256) as u8, (self.spec_word(p) / 256) as u8]
    }

    /// The RGBA pixel for packed channel values.
    pub open spec fn spec_widen(self, p: ArgbPixel) -> Seq<u8> {
        seq![
            spec_convert_u8(p.r, self.spec_color_width(), 8) as u8,
            spec_convert_u8(p.g, self.spec_color_width(), 8) as u8,
            spec_convert_u8(p.b, self.spec_color_width(), 8) as u8,
            spec_convert_u8(p.a, self.spec_alpha_width(), 8) as u8,
        ]
    }

    /// The packed channel values for an RGBA pixel.
    pub open spec fn spec_narrow(self, r: u8, g: u8, b: u8, a: u8) -> ArgbPixel {
        ArgbPixel {
            a: spec_convert_u8(a, 8, self.spec_alpha_width()) as u8,
            r: spec_convert_u8(r, 8, self.spec_color_width()) as u8,
            g: spec_convert_u8(g, 8, self.spec_color_width()) as u8,
            b: spec_convert_u8(b, 8, self.spec_color_width()) as u8,
        }
    }

    /// The RGBA bytes for packed data of an even length.
    pub open spec fn spec_to_rgba8(self, packed: Seq<u8>) -> Seq<u8>
        decreases packed.len(),
    {
        if packed.len() < 2 {
            Seq::<u8>::empty()
        } else {
            let n = packed.len() - 2;
            self.spec_to_rgba8(packed.take(n)) + self.spec_widen(
                self.spec_unpack(packed[n], packed[n + 1]),
            )
        }
    }

    /// The packed bytes for RGBA data whose length is a multiple of 4.
    pub open spec fn spec_from_rgba8(self, rgba: Seq<u8>) -> Seq<u8>
        decreases rgba.len(),
    {
        if rgba.len() < 4 {
            Seq::<u8>::empty()
        } else {
            let n = rgba.len() - 4;
            self.spec_from_rgba8(rgba.take(n)) + self.spec_pack(
                self.spec_narrow(rgba[n], rgba[n + 1], rgba[n + 2], rgba[n + 3]),
            )
        }
    }

    /// Bits of the alpha channel.
    pub fn alpha_width(self) -> (w: u8)
        ensures
            w == self.spec_alpha_width(),
    {
        match self {
            PackedLayout::Argb1555 => 1,
            PackedLayout::Argb4444 => 4,
        }
    }

    /// Bits of each colour channel.
    pub fn color_width(self) -> (w: u8)
        ensures
            w == self.spec_color_width(),
    {
        match self {
            PackedLayout::Argb1555 => 5,
            PackedLayout::Argb4444 => 4,
        }
    }

    /// The pixel stored in two bytes.
    pub fn unpack(self, b0: u8, b1: u8) -> (p: ArgbPixel)
        ensures
            p == self.spec_unpack(b0, b1),
            self.spec_in_range(p),
    {
        proof {
            reveal(PackedLayout::spec_unpack);
        }
        let word: u16 = b0 as u16 + 256 * (b1 as u16);
        match self {
            PackedLayout::Argb1555 => ArgbPixel {
                a: (word / 32768 % 2) as u8,
                r: (word / 1024 % 32) as u8,
                g: (word / 32 % 32) as u8,
                b: (word % 32) as u8,
            },
            PackedLayout::Argb4444 => ArgbPixel {
                a: (word / 4096 % 16) as u8,
                r: (word / 256 % 16) as u8,
                g: (word / 16 % 16) as u8,
                b: (word % 16) as u8,
            },
        }
    }

    /// The two bytes that store the pixel.
    pub fn pack(self, p: ArgbPixel) -> (out: [u8; 2])
        requires
            self.spec_in_range(p),
        ensures
            out@ == self.spec_pack(p),
            out@.len() == 2,
    {
        proof {
            reveal(PackedLayout::spec_pack);
        }
        let word: u16 = match self {
            PackedLayout::Argb1555 => (p.a as u16) * 32768 + (p.r as u16) * 1024 + (p.g as u16) * 32
                + (p.b as u16),
            PackedLayout::Argb4444 => (p.a as u16) * 4096 + (p.r as u16) * 256 + (p.g as u16) * 16
                + (p.b as u16),
        };
        let out = [(word % 256) as u8, (word / 256) as u8];
        assert(out@ =~= self.spec_pack(p));
        out
    }

    /// The RGBA pixel for packed channel values.
    pub fn widen(self, p: ArgbPixel) -> (out: [u8; 4])
        requires
            self.spec_in_range(p),
        ensures
            out@ == self.spec_widen(p),
    {
        let cw = self.color_width();
        let aw = self.alpha_width();
        let out = [
            convert_u8(p.r, cw, 8),
            convert_u8(p.g, cw, 8),
            convert_u8(p.b, cw, 8),
            convert_u8(p.a, aw, 8),
        ];
        assert(out@ =~= self.spec_widen(p));
        out
    }

    /// The packed channel values for an RGBA pixel.
    pub fn narrow(self, rgba: [u8; 4]) -> (p: ArgbPixel)
        ensures
            p == self.spec_narrow(rgba[0], rgba[1], rgba[2], rgba[3]),
            self.spec_in_range(p),
    {
        let cw = self.color_width();
        let aw = self.alpha_width();
        ArgbPixel {
            a: convert_u8(rgba[3], 8, aw),
            r: convert_u8(rgba[0], 8, cw),
            g: convert_u8(rgba[1], 8, cw),
            b: convert_u8(rgba[2], 8, cw),
        }
    }

    /// Converts packed pixels to RGBA. Fails with `PixelReadError` where the
    /// length is odd.
    pub fn convert_to_rgba8_slice(self, data: &[u8]) -> (res: PaaResult<Vec<u8>>)
        ensures
            data@.len() % 2 == 0 ==> res is Ok && res->Ok_0@ == self.spec_to_rgba8(data@),
            data@.len() % 2 != 0 ==> res == Err::<Vec<u8>, PaaError>(PaaError::PixelReadError),
    {
        let n = data.len();
        if n % 2 != 0 {
            return Err(PaaError::PixelReadError);
        }
        let mut out: Vec<u8> = Vec::new();
        let mut i: usize = 0;
        assert(data@.take(0) =~= Seq::<u8>::empty());
        while i < n
            invariant
                i <= n,
                i % 2 == 0,
                n % 2 == 0,
                n == data@.len(),
                out@ == self.spec_to_rgba8(data@.take(i as int)),
            decreases n - i,
        {
            let p = self.unpack(data[i], data[i + 1]);
            let rgba = self.widen(p);
            out.extend_from_slice(rgba.as_slice());
            proof {
                let next = data@.take(i + 2);
                assert(next.take(next.len() - 2) =~= data@.take(i as int));
                assert(next[i as int] == data@[i as int]);
                assert(next[i + 1] == data@[i + 1]);
                assert(self.spec_to_rgba8(next) == self.spec_to_rgba8(data@.take(i as int))
                    + self.spec_widen(self.spec_unpack(data@[i as int], data@[i + 1])));
            }
            i = i + 2;
        }
        assert(data@.take(n as int) =~= data@);
        Ok(out)
    }

    /// Converts RGBA pixels to packed ones. Fails with `PixelReadError`
    /// where the length is no multiple of 4.
    pub fn convert_from_rgba8_slice(self, data: &[u8]) -> (res: PaaResult<Vec<u8>>)
        ensures
            data@.len() % 4 == 0 ==> res is Ok && res->Ok_0@ == self.spec_from_rgba8(data@),
            data@.len() % 4 != 0 ==> res == Err::<Vec<u8>, PaaError>(PaaError::PixelReadError),
    {
        let n = data.len();
        if n % 4 != 0 {
            return Err(PaaError::PixelReadError);
        }
        let mut out: Vec<u8> = Vec::new();
        let mut i: usize = 0;
        assert(data@.take(0) =~= Seq::<u8>::empty());
        while i < n
            invariant
                i <= n,
                i % 4 == 0,
                n % 4 == 0,
                n == data@.len(),
                out@ == self.spec_from_rgba8(data@.take(i as int)),
            decreases n - i,
        {
            let p = self.narrow([data[i], data[i + 1], data[i + 2], data[i + 3]]);
            let bytes = self.pack(p);
            out.extend_from_slice(bytes.as_slice());
            proof {
                let next = data@.take(i + 4);
                assert(next.take(next.len() - 4) =~= data@.take(i as int));
                assert(next[i as int] == data@[i as int]);
                assert(next[i + 1] == data@[i + 1]);
                assert(next[i + 2] == data@[i + 2]);
                assert(next[i + 3] == data@[i + 3]);
                assert(self.spec_from_rgba8(next) == self.spec_from_rgba8(data@.take(i as int))
                    + self.spec_pack(
                    self.spec_narrow(
                        data@[i as int],
                        data@[i + 1],
                        data@[i + 2],
                        data@[i + 3],
                    ),
                ));
            }
            i = i + 4;
        }
        assert(data@.take(n as int) =~= data@);
        Ok(out)
    }
}

/// The bytes of `data` with each group of four reversed.
pub open spec fn spec_reverse_quads(data: Seq<u8>) -> Seq<u8>
    decreases data.len(),
{
    if data.len() < 4 {
        Seq::<u8>::empty()
    } else {
        let n = data.len() - 4;
        spec_reverse_quads(data.take(n)) + seq![data[n + 3], data[n + 2], data[n + 1], data[n]]
    }
}

/// Reverses each group of four bytes: the conversion between the 32-bit
/// format and RGBA, in either direction. Fails with `PixelReadError` where
/// the length is no multiple of 4.
pub fn reverse_quads(data: &[u8]) -> (res: PaaResult<Vec<u8>>)
    ensures
        data@.len() % 4 == 0 ==> res is Ok && res->Ok_0@ == spec_reverse_quads(data@),
        data@.len() % 4 != 0 ==> res == Err::<Vec<u8>, PaaError>(PaaError::PixelReadError),
{
    let n = data.len();
    if n % 4 != 0 {
        return Err(PaaError::PixelReadError);
    }
    let mut out: Vec<u8> = Vec::new();
    let mut i: usize = 0;
    assert(data@.take(0) =~= Seq::<u8>::empty());
    while i < n
        invariant
            i <= n,
            i % 4 == 0,
            n % 4 == 0,
            n == data@.len(),
            out@ == spec_reverse_quads(data@.take(i as int)),
        decreases n - i,
    {
        let ghost before = out@;
        out.push(data[i + 3]);
        out.push(data[i + 2]);
        out.push(data[i + 1]);
        out.push(data[i]);
        proof {
            let next = data@.take(i + 4);
            assert(next.take(next.len() - 4) =~= data@.take(i as int));
            assert(out@ =~= before + seq![next[i + 3], next[i + 2], next[i + 1], next[i as int]]);
        }
        i = i + 4;
    }
    assert(data@.take(n as int) =~= data@);
    Ok(out)
}

/// The layout of a packed 16-bit format, if `paatype` is one.
pub open spec fn spec_layout_of(paatype: PaaType) -> Option<PackedLayout> {
    match paatype {
        PaaType::Argb1555 => Some(PackedLayout::Argb1555),
        PaaType::Argb4444 => Some(PackedLayout::Argb4444),
        _ => None,
    }
}

/// What pixel data of a format is in RGBA, where the format is one of the
/// two 16-bit colour formats or the 32-bit one and the length fits.
pub open spec fn spec_to_canonical(paatype: PaaType, data: Seq<u8>) -> Result<Seq<u8>, PaaError> {
    match paatype {
        PaaType::Argb1555 | PaaType::Argb4444 => if data.len() % 2 == 0 {
            Ok(spec_layout_of(paatype)->Some_0.spec_to_rgba8(data))
        } else {
            Err(PaaError::PixelReadError)
        },
        PaaType::Argb8888 => if data.len() % 4 == 0 {
            Ok(spec_reverse_quads(data))
        } else {
            Err(PaaError::PixelReadError)
        },
        _ => Err(PaaError::UnsupportedPixelFormat),
    }
}

/// What RGBA data is in a format, where the format is one of the two 16-bit
/// colour formats or the 32-bit one and the length is a multiple of 4.
pub open spec fn spec_from_canonical(paatype: PaaType, rgba: Seq<u8>) -> Result<
    Seq<u8>,
    PaaError,
> {
    match paatype {
        PaaType::Argb1555 | PaaType::Argb4444 => if rgba.len() % 4 == 0 {
            Ok(spec_layout_of(paatype)->Some_0.spec_from_rgba8(rgba))
        } else {
            Err(PaaError::PixelReadError)
        },
        PaaType::Argb8888 => if rgba.len() % 4 == 0 {
            Ok(spec_reverse_quads(rgba))
        } else {
            Err(PaaError::PixelReadError)
        },
        _ => Err(PaaError::UnsupportedPixelFormat),
    }
}

/// The bytes of a result, where it has any.
pub open spec fn seq_result(res: PaaResult<Vec<u8>>) -> Result<Seq<u8>, PaaError> {
    match res {
        Ok(v) => Ok(v@),
        Err(e) => Err(e),
    }
}

/// Converts pixel data of one of the packed formats to RGBA.
pub fn to_canonical(paatype: PaaType, data: &[u8]) -> (res: PaaResult<Vec<u8>>)
    ensures
        seq_result(res) == spec_to_canonical(paatype, data@),
{
    match paatype {
        PaaType::Argb1555 => PackedLayout::Argb1555.convert_to_rgba8_slice(data),
        PaaType::Argb4444 => PackedLayout::Argb4444.convert_to_rgba8_slice(data),
        PaaType::Argb8888 => reverse_quads(data),
        _ => Err(PaaError::UnsupportedPixelFormat),
    }
}

/// Converts RGBA data to pixel data of one of the packed formats.
pub fn from_canonical(paatype: PaaType, rgba: &[u8]) -> (res: PaaResult<Vec<u8>>)
    ensures
        seq_result(res) == spec_from_canonical(paatype, rgba@),
{
    match paatype {
        PaaType::Argb1555 => PackedLayout::Argb1555.convert_from_rgba8_slice(rgba),
        PaaType::Argb4444 => PackedLayout::Argb4444.convert_from_rgba8_slice(rgba),
        PaaType::Argb8888 => reverse_quads(rgba),
        _ => Err(PaaError::UnsupportedPixelFormat),
    }
}

/// Conversions of the 1-5-5-5 format.
pub struct Argb1555Pixel {}

impl Argb1555Pixel {
    /// Converts RGBA pixels to 1-5-5-5 pixels.
    pub fn convert_from_rgba8_slice(data: &[u8]) -> (res: PaaResult<Vec<u8>>)
        ensures
            seq_result(res) == spec_from_canonical(PaaType::Argb1555, data@),
    {
        PackedLayout::Argb1555.convert_from_rgba8_slice(data)
    }

    /// Converts 1-5-5-5 pixels to RGBA pixels.
    pub fn convert_to_rgba8_slice(data: &[u8]) -> (res: PaaResult<Vec<u8>>)
        ensures
            seq_result(res) == spec_to_canonical(PaaType::Argb1555, data@),
    {
        PackedLayout::Argb1555.convert_to_rgba8_slice(data)
    }
}

/// Conversions of the 4-4-4-4 format.
pub struct Argb4444Pixel {}

impl Argb4444Pixel {
    /// Converts RGBA pixels to 4-4-4-4 pixels.
    pub fn convert_from_rgba8_slice(data: &[u8]) -> (res: PaaResult<Vec<u8>>)
        ensures
            seq_result(res) == spec_from_canonical(PaaType::Argb4444, data@),
    {
        PackedLayout::Argb4444.convert_from_rgba8_slice(data)
    }

    /// Converts 4-4-4-4 pixels to RGBA pixels.
    pub fn convert_to_rgba8_slice(data: &[u8]) -> (res: PaaResult<Vec<u8>>)
        ensures
            seq_result(res) == spec_to_canonical(PaaType::Argb4444, data@),
    {
        PackedLayout::Argb4444.convert_to_rgba8_slice(data)
    }
}

/// Scaling a value up to 8 bits and back down gives the value: widths 1, 4
/// and 5.
pub proof fn lemma_convert_up_down(value: u8, width: u8)
    requires
        width == 1 || width == 4 || width == 5,
        value <= spec_uint_range(width),
    ensures
        spec_convert_u8(value, width, 8) <= 255,
        spec_convert_u8(spec_convert_u8(value, width, 8) as u8, 8, width) == value,
{
    reveal(spec_convert_u8);
    if width == 1 {
        assert(value == 0 || value == 1);
    } else if width == 4 {
        let up = (value as nat * 255 + 7) / 15;
        assert(up == value * 17);
        assert((up * 15 + 127) / 255 == value);
    } else {
        let up = (value as nat * 255 + 15) / 31;
        assert(value as nat * 255 + 15 <= 31 * 255 + 15);
        assert(up <= 255);
        assert(31 * up <= value * 255 + 15);
        assert(31 * up + 31 > value * 255 + 15);
        assert((up * 31 + 127) / 255 == value);
    }
}

/// Zero and full scale convert to zero and full scale, in both directions.
pub proof fn lemma_convert_extremes(width: u8)
    requires
        1 <= width <= 8,
    ensures
        spec_convert_u8(0, width, 8) == 0,
        spec_convert_u8(spec_uint_range(width) as u8, width, 8) == 255,
        spec_convert_u8(0, 8, width) == 0,
        spec_convert_u8(255, 8, width) == spec_uint_range(width),
{
    reveal(spec_convert_u8);
}

proof fn lemma_word_1555(w: u32, a: u32, r: u32, g: u32, b: u32)
    ensures
        w < 65536 ==> (w / 32768 % 2) * 32768 + (w / 1024 % 32) * 1024 + (w / 32 % 32) * 32 + w % 32
            == w,
        a <= 1 && r <= 31 && g <= 31 && b <= 31 ==> ({
            let v = a * 32768 + r * 1024 + g * 32 + b;
            v < 65536 && v / 32768 % 2 == a && v / 1024 % 32 == r && v / 32 % 32 == g && v % 32 == b
        }),
{
    assert(w < 65536 ==> (w / 32768 % 2) * 32768 + (w / 1024 % 32) * 1024 + (w / 32 % 32) * 32 + w
        % 32 == w) by (bit_vector);
    assert(a <= 1 && r <= 31 && g <= 31 && b <= 31 ==> ({
        let v = a * 32768 + r * 1024 + g * 32 + b;
        v < 65536 && v / 32768 % 2 == a && v / 1024 % 32 == r && v / 32 % 32 == g && v % 32 == b
    })) by (bit_vector);
}

proof fn lemma_word_4444(w: u32, a: u32, r: u32, g: u32, b: u32)
    ensures
        w < 65536 ==> (w / 4096 % 16) * 4096 + (w / 256 % 16) * 256 + (w / 16 % 16) * 16 + w % 16
            == w,
        a <= 15 && r <= 15 && g <= 15 && b <= 15 ==> ({
            let v = a * 4096 + r * 256 + g * 16 + b;
            v < 65536 && v / 4096 % 16 == a && v / 256 % 16 == r && v / 16 % 16 == g && v % 16 == b
        }),
{
    assert(w < 65536 ==> (w / 4096 % 16) * 4096 + (w / 256 % 16) * 256 + (w / 16 % 16) * 16 + w % 16
        == w) by (bit_vector);
    assert(a <= 15 && r <= 15 && g <= 15 && b <= 15 ==> ({
        let v = a * 4096 + r * 256 + g * 16 + b;
        v < 65536 && v / 4096 % 16 == a && v / 256 % 16 == r && v / 16 % 16 == g && v % 16 == b
    })) by (bit_vector);
}

/// Unpacking the bytes of a pixel gives the pixel, and packing the pixel of
/// two bytes gives the bytes.
pub proof fn lemma_pack_unpack(layout: PackedLayout, p: ArgbPixel, b0: u8, b1: u8)
    ensures
        layout.spec_in_range(p) ==> layout.spec_unpack(layout.spec_pack(p)[0], layout.spec_pack(p)[1])
            == p,
        layout.spec_pack(layout.spec_unpack(b0, b1)) =~= seq![b0, b1],
        layout.spec_pack(p).len() == 2,
        layout.spec_in_range(layout.spec_unpack(b0, b1)),
{
    reveal(PackedLayout::spec_unpack);
    reveal(PackedLayout::spec_pack);
    let word = b0 as nat + 256 * b1 as nat;
    let w = layout.spec_word(p);
    match layout {
        PackedLayout::Argb1555 => {
            lemma_word_1555(word as u32, p.a as u32, p.r as u32, p.g as u32, p.b as u32);
        },
        PackedLayout::Argb4444 => {
            lemma_word_4444(word as u32, p.a as u32, p.r as u32, p.g as u32, p.b as u32);
        },
    }
    let q = layout.spec_pixel(word);
    assert(layout.spec_word(q) == word);
    assert(word % 256 == b0);
    assert(word / 256 == b1);
    if layout.spec_in_range(p) {
        assert(w < 65536);
        assert((w % 256) + 256 * (w / 256) == w);
        assert(layout.spec_pixel(w) == p);
    }
}

/// Packed pixels converted to RGBA and back are the packed pixels: the
/// conversion loses nothing in this direction.
pub proof fn lemma_packed_round_trip(layout: PackedLayout, packed: Seq<u8>)
    requires
        packed.len() % 2 == 0,
    ensures
        layout.spec_to_rgba8(packed).len() == 2 * packed.len(),
        layout.spec_from_rgba8(layout.spec_to_rgba8(packed)) == packed,
    decreases packed.len(),
{
    if packed.len() >= 2 {
        let n = packed.len() - 2;
        let front = packed.take(n);
        lemma_packed_round_trip(layout, front);
        let p = layout.spec_unpack(packed[n], packed[n + 1]);
        lemma_pack_unpack(layout, p, packed[n], packed[n + 1]);
        let wide = layout.spec_widen(p);
        let rgba = layout.spec_to_rgba8(packed);
        assert(rgba =~= layout.spec_to_rgba8(front) + wide);
        let m = rgba.len() - 4;
        assert(rgba.take(m) =~= layout.spec_to_rgba8(front));
        lemma_convert_up_down(p.a, layout.spec_alpha_width());
        lemma_convert_up_down(p.r, layout.spec_color_width());
        lemma_convert_up_down(p.g, layout.spec_color_width());
        lemma_convert_up_down(p.b, layout.spec_color_width());
        assert(rgba[m] == wide[0]);
        assert(rgba[m + 1] == wide[1]);
        assert(rgba[m + 2] == wide[2]);
        assert(rgba[m + 3] == wide[3]);
        assert(layout.spec_narrow(rgba[m], rgba[m + 1], rgba[m + 2], rgba[m + 3]) == p);
        lemma_pack_unpack(layout, p, packed[n], packed[n + 1]);
        assert(front + seq![packed[n], packed[n + 1]] =~= packed);
    } else {
        assert(packed =~= Seq::<u8>::empty());
    }
}

/// Reversing the groups of four twice gives the data back.
pub proof fn lemma_reverse_quads_twice(data: Seq<u8>)
    requires
        data.len() % 4 == 0,
    ensures
        spec_reverse_quads(data).len() == data.len(),
        spec_reverse_quads(spec_reverse_quads(data)) == data,
    decreases data.len(),
{
    if data.len() >= 4 {
        let n = data.len() - 4;
        let front = data.take(n);
        lemma_reverse_quads_twice(front);
        let once = spec_reverse_quads(data);
        assert(once =~= spec_reverse_quads(front) + seq![
            data[n + 3],
            data[n + 2],
            data[n + 1],
            data[n],
        ]);
        assert(once.take(n) =~= spec_reverse_quads(front));
        assert(front + seq![data[n], data[n + 1], data[n + 2], data[n + 3]] =~= data);
    } else {
        assert(data =~= Seq::<u8>::empty());
    }
}

/// Pixel data of a convertible format, taken to RGBA and back, is the pixel
/// data it was.
pub proof fn lemma_pixel_round_trip(paatype: PaaType, data: Seq<u8>)
    requires
        spec_to_canonical(paatype, data) is Ok,
    ensures
        spec_from_canonical(paatype, spec_to_canonical(paatype, data)->Ok_0) == Ok::<
            Seq<u8>,
            PaaError,
        >(data),
{
    match paatype {
        PaaType::Argb1555 => lemma_layout_round_trip(PackedLayout::Argb1555, data),
        PaaType::Argb4444 => lemma_layout_round_trip(PackedLayout::Argb4444, data),
        PaaType::Argb8888 => lemma_reverse_quads_twice(data),
        _ => {},
    }
}

proof fn lemma_layout_round_trip(layout: PackedLayout, data: Seq<u8>)
    requires
        data.len() % 2 == 0,
    ensures
        layout.spec_to_rgba8(data).len() % 4 == 0,
        layout.spec_from_rgba8(layout.spec_to_rgba8(data)) == data,
{
    lemma_packed_round_trip(layout, data);
    let n = data.len();
    let m = layout.spec_to_rgba8(data).len();
    assert(m % 4 == 0) by (nonlinear_arith)
        requires
            m == 2 * n,
            n % 2 == 0,
    ;
}

/// RGBA data that came out of a conversion survives the way into the format
/// and back unchanged: taking RGBA to a format and back is exact on every
/// buffer the format can express, and so settles after one pass.
pub proof fn lemma_canonical_round_trip_settles(paatype: PaaType, rgba: Seq<u8>)
    requires
        spec_from_canonical(paatype, rgba) is Ok,
    ensures
        ({
            let packed = spec_from_canonical(paatype, rgba)->Ok_0;
            let back = spec_to_canonical(paatype, packed);
            back is Ok && spec_from_canonical(paatype, back->Ok_0) == Ok::<Seq<u8>, PaaError>(
                packed,
            )
        }),
{
    let packed = spec_from_canonical(paatype, rgba)->Ok_0;
    match paatype {
        PaaType::Argb1555 => {
            lemma_from_rgba8_len(PackedLayout::Argb1555, rgba);
            lemma_packed_round_trip(PackedLayout::Argb1555, packed);
        },
        PaaType::Argb4444 => {
            lemma_from_rgba8_len(PackedLayout::Argb4444, rgba);
            lemma_packed_round_trip(PackedLayout::Argb4444, packed);
        },
        PaaType::Argb8888 => {
            lemma_reverse_quads_twice(rgba);
            lemma_reverse_quads_twice(packed);
        },
        _ => {},
    }
}

/// How far a channel value of 8 bits can move on its way through `width`
/// bits and back: half a step of the narrower scale, which is 255 divided
/// by twice the largest value of `width` bits, rounded down.
pub open spec fn spec_round_trip_slack(width: u8) -> int {
    if width == 1 {
        127
    } else if width == 2 {
        42
    } else if width == 3 {
        18
    } else if width == 4 {
        8
    } else if width == 5 {
        4
    } else if width == 6 {
        2
    } else if width == 7 {
        1
    } else {
        0
    }
}

/// A value of 8 bits scaled down to 1, 4 or 5 bits and back up moves by at
/// most half a step of the narrower scale.
pub proof fn lemma_convert_down_up(value: u8, width: u8)
    requires
        width == 1 || width == 4 || width == 5,
    ensures
        spec_convert_u8(value, 8, width) <= spec_uint_range(width),
        spec_convert_u8(spec_convert_u8(value, 8, width) as u8, width, 8) <= 255,
        spec_convert_u8(spec_convert_u8(value, 8, width) as u8, width, 8) - value
            <= spec_round_trip_slack(width),
        value - spec_convert_u8(spec_convert_u8(value, 8, width) as u8, width, 8)
            <= spec_round_trip_slack(width),
{
    reveal(spec_convert_u8);
    let v = value as u32;
    if width == 1 {
        assert(v <= 255 ==> ({
            let n = (v * 1 + 127) / 255;
            let b = (n * 255 + 0) / 1;
            n <= 1 && b <= 255 && b <= v + 127 && v <= b + 127
        })) by (bit_vector);
        let n = (v * 1 + 127) / 255;
        assert(spec_uint_range(1) == 1 && spec_uint_range(8) == 255);
        assert(spec_convert_u8(value, 8, 1) == n);
        assert(spec_convert_u8(n as u8, 1, 8) == (n * 255 + 0) / 1);
        assert(spec_round_trip_slack(1) == 127);
    } else if width == 4 {
        assert(v <= 255 ==> ({
            let n = (v * 15 + 127) / 255;
            let b = (n * 255 + 7) / 15;
            n <= 15 && b <= 255 && b <= v + 8 && v <= b + 8
        })) by (bit_vector);
        let n = (v * 15 + 127) / 255;
        assert(spec_uint_range(4) == 15 && spec_uint_range(8) == 255);
        assert(spec_convert_u8(value, 8, 4) == n);
        assert(spec_convert_u8(n as u8, 4, 8) == (n * 255 + 7) / 15);
        assert(spec_round_trip_slack(4) == 8);
    } else {
        assert(v <= 255 ==> ({
            let n = (v * 31 + 127) / 255;
            let b = (n * 255 + 15) / 31;
            n <= 31 && b <= 255 && b <= v + 4 && v <= b + 4
        })) by (bit_vector);
        let n = (v * 31 + 127) / 255;
        assert(spec_uint_range(5) == 31 && spec_uint_range(8) == 255);
        assert(spec_convert_u8(value, 8, 5) == n);
        assert(spec_convert_u8(n as u8, 5, 8) == (n * 255 + 15) / 31);
        assert(spec_round_trip_slack(5) == 4);
    }
}

/// RGBA data is twice as long as the packed data it was made from.
pub proof fn lemma_to_rgba8_len(layout: PackedLayout, packed: Seq<u8>)
    requires
        packed.len() % 2 == 0,
    ensures
        layout.spec_to_rgba8(packed).len() == 2 * packed.len(),
    decreases packed.len(),
{
    if packed.len() >= 2 {
        lemma_to_rgba8_len(layout, packed.take(packed.len() - 2));
    }
}

/// An RGBA pixel taken to packed channel values and back: the channel values
/// are within their ranges, and channel `c` of the pixel moves by at most
/// half a step of its scale.
pub proof fn lemma_pixel_round_trip_error(layout: PackedLayout, pixel: Seq<u8>, c: int)
    requires
        pixel.len() == 4,
        0 <= c < 4,
    ensures
        ({
            let p = layout.spec_narrow(pixel[0], pixel[1], pixel[2], pixel[3]);
            let width = if c == 3 {
                layout.spec_alpha_width()
            } else {
                layout.spec_color_width()
            };
            &&& layout.spec_in_range(p)
            &&& layout.spec_widen(p)[c] - pixel[c] <= spec_round_trip_slack(width)
            &&& pixel[c] - layout.spec_widen(p)[c] <= spec_round_trip_slack(width)
        }),
{
    lemma_convert_down_up(pixel[0], layout.spec_color_width());
    lemma_convert_down_up(pixel[1], layout.spec_color_width());
    lemma_convert_down_up(pixel[2], layout.spec_color_width());
    lemma_convert_down_up(pixel[3], layout.spec_alpha_width());
}

/// Byte `4 * k + c` of the RGBA data made from packed data comes from packed
/// pixel `k`.
pub proof fn lemma_to_rgba8_index(layout: PackedLayout, packed: Seq<u8>, k: int, c: int)
    requires
        packed.len() % 2 == 0,
        0 <= k < packed.len() / 2,
        0 <= c < 4,
    ensures
        layout.spec_to_rgba8(packed).len() == 2 * packed.len(),
        layout.spec_to_rgba8(packed)[4 * k + c] == layout.spec_widen(
            layout.spec_unpack(packed[2 * k], packed[2 * k + 1]),
        )[c],
    decreases packed.len(),
{
    lemma_to_rgba8_len(layout, packed);
    let n = packed.len() - 2;
    let front = packed.take(n);
    lemma_to_rgba8_len(layout, front);
    let last = layout.spec_widen(layout.spec_unpack(packed[n], packed[n + 1]));
    let whole = layout.spec_to_rgba8(packed);
    let head = layout.spec_to_rgba8(front);
    assert(whole == head + last);
    assert(last.len() == 4);
    if 2 * k < n {
        lemma_to_rgba8_index(layout, front, k, c);
        assert(front[2 * k] == packed[2 * k]);
        assert(front[2 * k + 1] == packed[2 * k + 1]);
        assert(whole[4 * k + c] == head[4 * k + c]);
    } else {
        assert(2 * k == n);
        assert(whole[4 * k + c] == last[c]);
    }
}

/// Bytes `2 * k` and `2 * k + 1` of the packed data made from RGBA data come
/// from RGBA pixel `k`.
pub proof fn lemma_from_rgba8_index(layout: PackedLayout, rgba: Seq<u8>, k: int)
    requires
        rgba.len() % 4 == 0,
        0 <= k < rgba.len() / 4,
    ensures
        2 * layout.spec_from_rgba8(rgba).len() == rgba.len(),
        layout.spec_from_rgba8(rgba).subrange(2 * k, 2 * k + 2) == layout.spec_pack(
            layout.spec_narrow(rgba[4 * k], rgba[4 * k + 1], rgba[4 * k + 2], rgba[4 * k + 3]),
        ),
    decreases rgba.len(),
{
    lemma_from_rgba8_len(layout, rgba);
    let n = rgba.len() - 4;
    let front = rgba.take(n);
    lemma_from_rgba8_len(layout, front);
    let last = layout.spec_pack(
        layout.spec_narrow(rgba[n], rgba[n + 1], rgba[n + 2], rgba[n + 3]),
    );
    let whole = layout.spec_from_rgba8(rgba);
    assert(whole =~= layout.spec_from_rgba8(front) + last);
    if 4 * k < n {
        lemma_from_rgba8_index(layout, front, k);
        assert(front[4 * k] == rgba[4 * k]);
        assert(front[4 * k + 1] == rgba[4 * k + 1]);
        assert(front[4 * k + 2] == rgba[4 * k + 2]);
        assert(front[4 * k + 3] == rgba[4 * k + 3]);
        assert(whole.subrange(2 * k, 2 * k + 2) =~= layout.spec_from_rgba8(front).subrange(
            2 * k,
            2 * k + 2,
        ));
    } else {
        assert(whole.subrange(2 * k, 2 * k + 2) =~= last);
    }
}

/// RGBA data taken to a packed 16-bit format and back keeps its length, and
/// each of its bytes moves by at most half a step of the scale of its
/// channel: 4 for a colour and 127 for alpha in the 1-5-5-5 format, 8 for
/// every channel in the 4-4-4-4 format.
pub proof fn lemma_canonical_round_trip_error(layout: PackedLayout, rgba: Seq<u8>, i: int)
    requires
        rgba.len() % 4 == 0,
        0 <= i < rgba.len(),
    ensures
        ({
            let back = layout.spec_to_rgba8(layout.spec_from_rgba8(rgba));
            let width = if i % 4 == 3 {
                layout.spec_alpha_width()
            } else {
                layout.spec_color_width()
            };
            &&& back.len() == rgba.len()
            &&& back[i] - rgba[i] <= spec_round_trip_slack(width)
            &&& rgba[i] - back[i] <= spec_round_trip_slack(width)
        }),
{
    let k = i / 4;
    let c = i % 4;
    let packed = layout.spec_from_rgba8(rgba);
    let pixel = rgba.subrange(4 * k, 4 * k + 4);
    let p = layout.spec_narrow(pixel[0], pixel[1], pixel[2], pixel[3]);
    lemma_from_rgba8_index(layout, rgba, k);
    let two = packed.subrange(2 * k, 2 * k + 2);
    assert(two == layout.spec_pack(p));
    assert(two[0] == packed[2 * k]);
    assert(two[1] == packed[2 * k + 1]);
    lemma_to_rgba8_index(layout, packed, k, c);
    lemma_pixel_round_trip_error(layout, pixel, c);
    lemma_pack_unpack(layout, p, 0, 0);
    assert(layout.spec_unpack(packed[2 * k], packed[2 * k + 1]) == p);
    assert(pixel[c] == rgba[i]);
}

/// Packed data is half as long as the RGBA data it was made from.
pub proof fn lemma_from_rgba8_len(layout: PackedLayout, rgba: Seq<u8>)
    requires
        rgba.len() % 4 == 0,
    ensures
        2 * layout.spec_from_rgba8(rgba).len() == rgba.len(),
    decreases rgba.len(),
{
    if rgba.len() >= 4 {
        let n = rgba.len() - 4;
        lemma_from_rgba8_len(layout, rgba.take(n));
        lemma_pack_unpack(
            layout,
            layout.spec_narrow(rgba[n], rgba[n + 1], rgba[n + 2], rgba[n + 3]),
            0,
            0,
        );
    }
}

} // verus!
