//! The pixel formats a container can hold.

use vstd::prelude::*;

verus! {

/// Encoding of the bitmap data of every mipmap of one container.
#[derive(Debug, Clone, Copy, PartialEq, Eq, Structural)]
pub enum PaaType {
    /// One byte per pixel, an index into the palette.
    IndexPalette,
    /// 8 bits alpha, 8 bits grey.
    Ai88,
    /// 1 bit alpha and 5 bits per colour, in a little-endian 16-bit word.
    Argb1555,
    /// 4 bits per channel, in a little-endian 16-bit word.
    Argb4444,
    /// 8 bits per channel.
    Argb8888,
    /// Block compression with 4 bits per pixel.
    Dxt1,
    /// Block compression with explicit premultiplied alpha.
    Dxt2,
    /// Block compression with explicit alpha.
    Dxt3,
    /// Block compression with interpolated premultiplied alpha.
    Dxt4,
    /// Block compression with interpolated alpha.
    Dxt5,
}

impl Default for PaaType {
    /// The format of current textures, `Dxt5`.
    fn default() -> (t: Self)
        ensures
            t == PaaType::Dxt5,
    {
        PaaType::Dxt5
    }
}

impl PaaType {
    /// The 16-bit code that opens a container of the format.
    pub open spec fn spec_code(self) -> u16 {
        match self {
            PaaType::IndexPalette => 0x4747,
            PaaType::Ai88 => 0x8080,
            PaaType::Argb1555 => 0x1555,
            PaaType::Argb4444 => 0x4444,
            PaaType::Argb8888 => 0x8888,
            PaaType::Dxt1 => 0xFF01,
            PaaType::Dxt2 => 0xFF02,
            PaaType::Dxt3 => 0xFF03,
            PaaType::Dxt4 => 0xFF04,
            PaaType::Dxt5 => 0xFF05,
        }
    }

    /// The format a 16-bit code stands for.
    pub open spec fn spec_from_code(code: u16) -> Option<PaaType> {
        if code == 0x4747 {
            Some(PaaType::IndexPalette)
        } else if code == 0x8080 {
            Some(PaaType::Ai88)
        } else if code == 0x1555 {
            Some(PaaType::Argb1555)
        } else if code == 0x4444 {
            Some(PaaType::Argb4444)
        } else if code == 0x8888 {
            Some(PaaType::Argb8888)
        } else if code == 0xFF01 {
            Some(PaaType::Dxt1)
        } else if code == 0xFF02 {
            Some(PaaType::Dxt2)
        } else if code == 0xFF03 {
            Some(PaaType::Dxt3)
        } else if code == 0xFF04 {
            Some(PaaType::Dxt4)
        } else if code == 0xFF05 {
            Some(PaaType::Dxt5)
        } else {
            None
        }
    }

    /// The 16-bit code that opens a container of the format.
    pub fn code(&self) -> (c: u16)
        ensures
            c == self.spec_code(),
            Self::spec_from_code(c) == Some(*self),
    {
        match self {
            PaaType::IndexPalette => 0x4747,
            PaaType::Ai88 => 0x8080,
            PaaType::Argb1555 => 0x1555,
            PaaType::Argb4444 => 0x4444,
            PaaType::Argb8888 => 0x8888,
            PaaType::Dxt1 => 0xFF01,
            PaaType::Dxt2 => 0xFF02,
            PaaType::Dxt3 => 0xFF03,
            PaaType::Dxt4 => 0xFF04,
            PaaType::Dxt5 => 0xFF05,
        }
    }

    /// The format a 16-bit code stands for.
    pub fn from_code(code: u16) -> (t: Option<PaaType>)
        ensures
            t == Self::spec_from_code(code),
    {
        if code == 0x4747 {
            Some(PaaType::IndexPalette)
        } else if code == 0x8080 {
            Some(PaaType::Ai88)
        } else if code == 0x1555 {
            Some(PaaType::Argb1555)
        } else if code == 0x4444 {
            Some(PaaType::Argb4444)
        } else if code == 0x8888 {
            Some(PaaType::Argb8888)
        } else if code == 0xFF01 {
            Some(PaaType::Dxt1)
        } else if code == 0xFF02 {
            Some(PaaType::Dxt2)
        } else if code == 0xFF03 {
            Some(PaaType::Dxt3)
        } else if code == 0xFF04 {
            Some(PaaType::Dxt4)
        } else if code == 0xFF05 {
            Some(PaaType::Dxt5)
        } else {
            None
        }
    }

    /// The two bytes that open a container of the format: the code,
    /// little-endian.
    pub fn to_bytes(&self) -> (out: [u8; 2])
        ensures
            out@ == crate::bytes::u16_le(self.spec_code()),
    {
        let c = self.code();
        let out = [(c % 256) as u8, (c / 256) as u8];
        assert(out@ =~= crate::bytes::u16_le(self.spec_code()));
        out
    }

    /// True for the three colour formats with separate channels.
    pub fn is_argb(&self) -> (r: bool)
        ensures
            r == (*self == PaaType::Argb1555 || *self == PaaType::Argb4444 || *self
                == PaaType::Argb8888),
    {
        matches!(self, PaaType::Argb1555 | PaaType::Argb4444 | PaaType::Argb8888)
    }

    /// True for every format but the indexed one.
    pub fn has_alpha(&self) -> (r: bool)
        ensures
            r == (*self != PaaType::IndexPalette),
    {
        !matches!(self, PaaType::IndexPalette)
    }

    /// Whether the format is one of the five block-compressed ones.
    pub open spec fn spec_is_dxtn(self) -> bool {
        self == PaaType::Dxt1 || self == PaaType::Dxt2 || self == PaaType::Dxt3 || self
            == PaaType::Dxt4 || self == PaaType::Dxt5
    }

    /// Bytes of uncompressed data of a `width` by `height` mipmap.
    pub open spec fn spec_predict_size(self, width: u16, height: u16) -> nat {
        let area = (width as nat) * (height as nat);
        match self {
            PaaType::Dxt1 => area / 2,
            PaaType::IndexPalette | PaaType::Dxt2 | PaaType::Dxt3 | PaaType::Dxt4
            | PaaType::Dxt5 => area,
            PaaType::Argb4444 | PaaType::Argb1555 | PaaType::Ai88 => area * 2,
            PaaType::Argb8888 => area * 4,
        }
    }

    /// Size in bytes of the uncompressed data of a mipmap of the given
    /// dimensions, which has to fit the machine's `usize`.
    pub fn predict_size(&self, width: u16, height: u16) -> (size: usize)
        requires
            self.spec_predict_size(width, height) <= usize::MAX,
        ensures
            size == self.spec_predict_size(width, height),
    {
        assert((width as nat) * (height as nat) <= 65535 * 65535) by (nonlinear_arith)
            requires
                width <= 65535,
                height <= 65535,
        ;
        let area: usize = (width as usize) * (height as usize);
        match self {
            PaaType::Dxt1 => area / 2,
            PaaType::IndexPalette | PaaType::Dxt2 | PaaType::Dxt3 | PaaType::Dxt4
            | PaaType::Dxt5 => area,
            PaaType::Argb4444 | PaaType::Argb1555 | PaaType::Ai88 => area * 2,
            PaaType::Argb8888 => area * 4,
        }
    }

    /// The predicted size, or `None` where it exceeds the machine's `usize`.
    pub fn checked_predict_size(&self, width: u16, height: u16) -> (size: Option<usize>)
        ensures
            match size {
                Some(n) => n == self.spec_predict_size(width, height),
                None => self.spec_predict_size(width, height) > usize::MAX,
            },
    {
        assert((width as nat) * (height as nat) <= 65535 * 65535) by (nonlinear_arith)
            requires
                width <= 65535,
                height <= 65535,
        ;
        let area: usize = (width as usize) * (height as usize);
        match self {
            PaaType::Dxt1 => Some(area / 2),
            PaaType::IndexPalette | PaaType::Dxt2 | PaaType::Dxt3 | PaaType::Dxt4
            | PaaType::Dxt5 => Some(area),
            PaaType::Argb4444 | PaaType::Argb1555 | PaaType::Ai88 => area.checked_mul(2),
            PaaType::Argb8888 => area.checked_mul(4),
        }
    }

    /// True for the five block-compressed formats.
    pub fn is_dxtn(&self) -> (r: bool)
        ensures
            r == self.spec_is_dxtn(),
    {
        matches!(self, PaaType::Dxt1 | PaaType::Dxt2 | PaaType::Dxt3 | PaaType::Dxt4 | PaaType::Dxt5)
    }
}

} // verus!
