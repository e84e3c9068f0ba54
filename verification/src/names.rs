//! Names of formats and hints as configuration files spell them, matched
//! without regard to the case of ASCII letters.

use vstd::prelude::*;
use vstd::string::StrSliceExecFns;
use crate::paatype::PaaType;

verus! {

/// `c` with an ASCII capital letter turned to lower case.
pub open spec fn spec_ascii_lower(c: char) -> u32 {
    if 0x41 <= c as u32 <= 0x5A {
        (c as u32 + 32) as u32
    } else {
        c as u32
    }
}

/// Whether two texts are equal up to the case of their ASCII letters.
pub open spec fn spec_same_name(a: Seq<char>, b: Seq<char>) -> bool {
    a.len() == b.len() && forall|i: int|
        0 <= i < a.len() ==> spec_ascii_lower(#[trigger] a[i]) == spec_ascii_lower(b[i])
}

/// `c` with an ASCII capital letter turned to lower case.
pub fn ascii_lower(c: char) -> (r: u32)
    ensures
        r == spec_ascii_lower(c),
{
    let u: u32 = c as u32;
    if 0x41 <= u && u <= 0x5A {
        u + 32
    } else {
        u
    }
}

/// Whether two texts are equal up to the case of their ASCII letters.
pub fn same_name(a: &str, b: &str) -> (r: bool)
    ensures
        r == spec_same_name(a@, b@),
{
    let n = a.unicode_len();
    if n != b.unicode_len() {
        return false;
    }
    let mut i: usize = 0;
    while i < n
        invariant
            i <= n,
            n == a@.len(),
            n == b@.len(),
            forall|j: int| 0 <= j < i ==> spec_ascii_lower(#[trigger] a@[j]) == spec_ascii_lower(b@[j]),
        decreases n - i,
    {
        if ascii_lower(a.get_char(i)) != ascii_lower(b.get_char(i)) {
            return false;
        }
        i = i + 1;
    }
    true
}

/// A filter applied when mipmaps are made. Accepted in settings and not
/// applied.
#[derive(Debug, Clone, Copy, PartialEq, Eq, Structural)]
pub enum TextureMipmapFilter {
    AlphaNoise,
    FadeOut,
    AddAlphaNoise,
    NormalizeNormalMap,
    NormalizeNormalMapAlpha,
    NormalizeNormalMapNoise,
    NormalizeNormalMapFade,
}

/// An error metric for block compression. Accepted in settings and not
/// applied.
#[derive(Debug, Clone, Copy, PartialEq, Eq, Structural)]
pub enum TextureErrorMetrics {
    Distance,
}

impl TextureMipmapFilter {
    /// The name of the filter.
    pub open spec fn spec_name(self) -> Seq<char> {
        match self {
            TextureMipmapFilter::AlphaNoise => "AlphaNoise"@,
            TextureMipmapFilter::FadeOut => "FadeOut"@,
            TextureMipmapFilter::AddAlphaNoise => "AddAlphaNoise"@,
            TextureMipmapFilter::NormalizeNormalMap => "NormalizeNormalMap"@,
            TextureMipmapFilter::NormalizeNormalMapAlpha => "NormalizeNormalMapAlpha"@,
            TextureMipmapFilter::NormalizeNormalMapNoise => "NormalizeNormalMapNoise"@,
            TextureMipmapFilter::NormalizeNormalMapFade => "NormalizeNormalMapFade"@,
        }
    }

    /// The name of the filter.
    pub fn name(&self) -> (t: &'static str)
        ensures
            t@ == self.spec_name(),
    {
        match self {
            TextureMipmapFilter::AlphaNoise => "AlphaNoise",
            TextureMipmapFilter::FadeOut => "FadeOut",
            TextureMipmapFilter::AddAlphaNoise => "AddAlphaNoise",
            TextureMipmapFilter::NormalizeNormalMap => "NormalizeNormalMap",
            TextureMipmapFilter::NormalizeNormalMapAlpha => "NormalizeNormalMapAlpha",
            TextureMipmapFilter::NormalizeNormalMapNoise => "NormalizeNormalMapNoise",
            TextureMipmapFilter::NormalizeNormalMapFade => "NormalizeNormalMapFade",
        }
    }

    /// The filter a name stands for, whatever the case of its letters.
    pub open spec fn spec_from_name(s: Seq<char>) -> Option<TextureMipmapFilter> {
        if spec_same_name(s, "AlphaNoise"@) {
            Some(TextureMipmapFilter::AlphaNoise)
        } else if spec_same_name(s, "FadeOut"@) {
            Some(TextureMipmapFilter::FadeOut)
        } else if spec_same_name(s, "AddAlphaNoise"@) {
            Some(TextureMipmapFilter::AddAlphaNoise)
        } else if spec_same_name(s, "NormalizeNormalMap"@) {
            Some(TextureMipmapFilter::NormalizeNormalMap)
        } else if spec_same_name(s, "NormalizeNormalMapAlpha"@) {
            Some(TextureMipmapFilter::NormalizeNormalMapAlpha)
        } else if spec_same_name(s, "NormalizeNormalMapNoise"@) {
            Some(TextureMipmapFilter::NormalizeNormalMapNoise)
        } else if spec_same_name(s, "NormalizeNormalMapFade"@) {
            Some(TextureMipmapFilter::NormalizeNormalMapFade)
        } else {
            None
        }
    }

    /// The filter a name stands for, whatever the case of its letters.
    pub fn from_name(s: &str) -> (r: Option<Self>)
        ensures
            r == Self::spec_from_name(s@),
    {
        if same_name(s, "AlphaNoise") {
            Some(TextureMipmapFilter::AlphaNoise)
        } else if same_name(s, "FadeOut") {
            Some(TextureMipmapFilter::FadeOut)
        } else if same_name(s, "AddAlphaNoise") {
            Some(TextureMipmapFilter::AddAlphaNoise)
        } else if same_name(s, "NormalizeNormalMap") {
            Some(TextureMipmapFilter::NormalizeNormalMap)
        } else if same_name(s, "NormalizeNormalMapAlpha") {
            Some(TextureMipmapFilter::NormalizeNormalMapAlpha)
        } else if same_name(s, "NormalizeNormalMapNoise") {
            Some(TextureMipmapFilter::NormalizeNormalMapNoise)
        } else if same_name(s, "NormalizeNormalMapFade") {
            Some(TextureMipmapFilter::NormalizeNormalMapFade)
        } else {
            None
        }
    }
}

impl TextureErrorMetrics {
    /// The name of the metric.
    pub open spec fn spec_name(self) -> Seq<char> {
        match self {
            TextureErrorMetrics::Distance => "Distance"@,
        }
    }

    /// The name of the metric.
    pub fn name(&self) -> (t: &'static str)
        ensures
            t@ == self.spec_name(),
    {
        match self {
            TextureErrorMetrics::Distance => "Distance",
        }
    }

    /// The metric a name stands for, whatever the case of its letters.
    pub open spec fn spec_from_name(s: Seq<char>) -> Option<TextureErrorMetrics> {
        if spec_same_name(s, "Distance"@) {
            Some(TextureErrorMetrics::Distance)
        } else {
            None
        }
    }

    /// The metric a name stands for, whatever the case of its letters.
    pub fn from_name(s: &str) -> (r: Option<Self>)
        ensures
            r == Self::spec_from_name(s@),
    {
        if same_name(s, "Distance") {
            Some(TextureErrorMetrics::Distance)
        } else {
            None
        }
    }
}

impl PaaType {
    /// The name of the format.
    pub open spec fn spec_name(self) -> Seq<char> {
        match self {
            PaaType::IndexPalette => "IndexPalette"@,
            PaaType::Ai88 => "Ai88"@,
            PaaType::Argb1555 => "Argb1555"@,
            PaaType::Argb4444 => "Argb4444"@,
            PaaType::Argb8888 => "Argb8888"@,
            PaaType::Dxt1 => "Dxt1"@,
            PaaType::Dxt2 => "Dxt2"@,
            PaaType::Dxt3 => "Dxt3"@,
            PaaType::Dxt4 => "Dxt4"@,
            PaaType::Dxt5 => "Dxt5"@,
        }
    }

    /// The name of the format.
    pub fn name(&self) -> (t: &'static str)
        ensures
            t@ == self.spec_name(),
    {
        match self {
            PaaType::IndexPalette => "IndexPalette",
            PaaType::Ai88 => "Ai88",
            PaaType::Argb1555 => "Argb1555",
            PaaType::Argb4444 => "Argb4444",
            PaaType::Argb8888 => "Argb8888",
            PaaType::Dxt1 => "Dxt1",
            PaaType::Dxt2 => "Dxt2",
            PaaType::Dxt3 => "Dxt3",
            PaaType::Dxt4 => "Dxt4",
            PaaType::Dxt5 => "Dxt5",
        }
    }

    /// The format a name stands for, whatever the case of its letters.
    pub open spec fn spec_from_name(s: Seq<char>) -> Option<PaaType> {
        if spec_same_name(s, "IndexPalette"@) {
            Some(PaaType::IndexPalette)
        } else if spec_same_name(s, "Ai88"@) {
            Some(PaaType::Ai88)
        } else if spec_same_name(s, "Argb1555"@) {
            Some(PaaType::Argb1555)
        } else if spec_same_name(s, "Argb4444"@) {
            Some(PaaType::Argb4444)
        } else if spec_same_name(s, "Argb8888"@) {
            Some(PaaType::Argb8888)
        } else if spec_same_name(s, "Dxt1"@) {
            Some(PaaType::Dxt1)
        } else if spec_same_name(s, "Dxt2"@) {
            Some(PaaType::Dxt2)
        } else if spec_same_name(s, "Dxt3"@) {
            Some(PaaType::Dxt3)
        } else if spec_same_name(s, "Dxt4"@) {
            Some(PaaType::Dxt4)
        } else if spec_same_name(s, "Dxt5"@) {
            Some(PaaType::Dxt5)
        } else {
            None
        }
    }

    /// The format a name stands for, whatever the case of its letters.
    pub fn from_name(s: &str) -> (r: Option<Self>)
        ensures
            r == Self::spec_from_name(s@),
    {
        if same_name(s, "IndexPalette") {
            Some(PaaType::IndexPalette)
        } else if same_name(s, "Ai88") {
            Some(PaaType::Ai88)
        } else if same_name(s, "Argb1555") {
            Some(PaaType::Argb1555)
        } else if same_name(s, "Argb4444") {
            Some(PaaType::Argb4444)
        } else if same_name(s, "Argb8888") {
            Some(PaaType::Argb8888)
        } else if same_name(s, "Dxt1") {
            Some(PaaType::Dxt1)
        } else if same_name(s, "Dxt2") {
            Some(PaaType::Dxt2)
        } else if same_name(s, "Dxt3") {
            Some(PaaType::Dxt3)
        } else if same_name(s, "Dxt4") {
            Some(PaaType::Dxt4)
        } else if same_name(s, "Dxt5") {
            Some(PaaType::Dxt5)
        } else {
            None
        }
    }
}

} // verus!
