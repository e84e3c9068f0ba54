//! The metadata records that open a container.
//!
//! A record is the four-byte signature, a four-byte name, the payload length
//! in four little-endian bytes and the payload.

use vstd::prelude::*;
use vstd::string::StringExecFns;
use vstd::string::StringSliceAdditionalSpecFns;
use crate::bytes::{
    le32_at, push_u32_le, read_u32_le, read_u32s_le, u32_le, u32s_le, write_u32s_le, PaaReader,
};
use crate::error::{PaaError, PaaResult};
use crate::pixel::Bgra8888Pixel;
use crate::swizzle::ArgbSwizzle;

verus! {

/// How the alpha channel is treated when the texture is drawn.
#[derive(Debug, Clone, Copy, PartialEq, Eq, Structural)]
pub enum Transparency {
    /// No transparency.
    Disabled,
    /// Transparency with interpolated alpha.
    AlphaInterpolated,
    /// Transparency without interpolation of alpha.
    AlphaNotInterpolated,
}

impl Default for Transparency {
    fn default() -> (t: Self)
        ensures
            t == Transparency::AlphaInterpolated,
    {
        Transparency::AlphaInterpolated
    }
}

impl Transparency {
    /// The byte that stands for the mode on the wire.
    pub open spec fn spec_byte(self) -> u8 {
        match self {
            Transparency::Disabled => 0,
            Transparency::AlphaInterpolated => 1,
            Transparency::AlphaNotInterpolated => 2,
        }
    }

    /// The mode a byte stands for.
    pub open spec fn spec_from_byte(b: u8) -> Option<Transparency> {
        if b == 0 {
            Some(Transparency::Disabled)
        } else if b == 1 {
            Some(Transparency::AlphaInterpolated)
        } else if b == 2 {
            Some(Transparency::AlphaNotInterpolated)
        } else {
            None
        }
    }

    /// The mode as text.
    pub open spec fn spec_text(self) -> Seq<char> {
        match self {
            Transparency::Disabled => "<no transparency>"@,
            Transparency::AlphaInterpolated => "<transparent, interpolated alpha>"@,
            Transparency::AlphaNotInterpolated => "<transparent, non-interpolated alpha>"@,
        }
    }

    /// The mode as text.
    pub fn to_text(&self) -> (t: &'static str)
        ensures
            t@ == self.spec_text(),
    {
        match self {
            Transparency::Disabled => "<no transparency>",
            Transparency::AlphaInterpolated => "<transparent, interpolated alpha>",
            Transparency::AlphaNotInterpolated => "<transparent, non-interpolated alpha>",
        }
    }

    /// The byte that stands for the mode on the wire.
    pub fn to_byte(&self) -> (b: u8)
        ensures
            b == self.spec_byte(),
    {
        match self {
            Transparency::Disabled => 0,
            Transparency::AlphaInterpolated => 1,
            Transparency::AlphaNotInterpolated => 2,
        }
    }

    /// The mode a byte stands for.
    pub fn from_byte(b: u8) -> (t: Option<Self>)
        ensures
            t == Self::spec_from_byte(b),
    {
        if b == 0 {
            Some(Transparency::Disabled)
        } else if b == 1 {
            Some(Transparency::AlphaInterpolated)
        } else if b == 2 {
            Some(Transparency::AlphaNotInterpolated)
        } else {
            None
        }
    }
}

/// The text of a procedural texture, kept as the bytes it came in.
#[derive(Debug, PartialEq, Eq)]
pub struct TextureMacro {
    pub text: Vec<u8>,
}

impl Clone for TextureMacro {
    fn clone(&self) -> (c: Self)
        ensures
            c.text@ == self.text@,
    {
        TextureMacro { text: vstd::slice::slice_to_vec(self.text.as_slice()) }
    }
}

/// A metadata record.
#[derive(Debug, PartialEq, Eq)]
pub enum Tagg {
    /// Average colour.
    Avgc { rgba: Bgra8888Pixel },
    /// Maximum colour.
    Maxc { rgba: Bgra8888Pixel },
    /// Flags, of which the transparency mode is known.
    Flag { transparency: Transparency },
    /// The swizzle the texture was encoded with.
    Swiz { swizzle: ArgbSwizzle },
    /// Procedural texture code.
    Proc { code: TextureMacro },
    /// Byte offsets of the mipmaps in the file.
    Offs { offsets: Vec<u32> },
}

/// The mathematical content of a [`Tagg`].
pub enum TaggView {
    Avgc { rgba: Bgra8888Pixel },
    Maxc { rgba: Bgra8888Pixel },
    Flag { transparency: Transparency },
    Swiz { swizzle: ArgbSwizzle },
    Proc { text: Seq<u8> },
    Offs { offsets: Seq<u32> },
}

impl View for Tagg {
    type V = TaggView;

    open spec fn view(&self) -> TaggView {
        match self {
            Tagg::Avgc { rgba } => TaggView::Avgc { rgba: *rgba },
            Tagg::Maxc { rgba } => TaggView::Maxc { rgba: *rgba },
            Tagg::Flag { transparency } => TaggView::Flag { transparency: *transparency },
            Tagg::Swiz { swizzle } => TaggView::Swiz { swizzle: *swizzle },
            Tagg::Proc { code } => TaggView::Proc { text: code.text@ },
            Tagg::Offs { offsets } => TaggView::Offs { offsets: offsets@ },
        }
    }
}

/// The views of the tags of `taggs`.
pub open spec fn taggs_view(taggs: Seq<Tagg>) -> Seq<TaggView> {
    Seq::new(taggs.len(), |i: int| taggs[i]@)
}

/// The signature that opens every record: `GGAT`.
pub open spec fn spec_signature() -> Seq<u8> {
    seq![0x47u8, 0x47u8, 0x41u8, 0x54u8]
}

pub open spec fn name_avgc() -> Seq<u8> {
    seq![0x43u8, 0x47u8, 0x56u8, 0x41u8]
}

pub open spec fn name_maxc() -> Seq<u8> {
    seq![0x43u8, 0x58u8, 0x41u8, 0x4Du8]
}

pub open spec fn name_flag() -> Seq<u8> {
    seq![0x47u8, 0x41u8, 0x4Cu8, 0x46u8]
}

pub open spec fn name_swiz() -> Seq<u8> {
    seq![0x5Au8, 0x49u8, 0x57u8, 0x53u8]
}

pub open spec fn name_proc() -> Seq<u8> {
    seq![0x43u8, 0x4Fu8, 0x52u8, 0x50u8]
}

pub open spec fn name_offs() -> Seq<u8> {
    seq![0x53u8, 0x46u8, 0x46u8, 0x4Fu8]
}

/// Whether four bytes are one of the six names.
pub open spec fn spec_is_valid_name(name: Seq<u8>) -> bool {
    name == name_avgc() || name == name_maxc() || name == name_flag() || name == name_swiz()
        || name == name_proc() || name == name_offs()
}

/// The name of a record on the wire.
pub open spec fn spec_name(t: TaggView) -> Seq<u8> {
    match t {
        TaggView::Avgc { .. } => name_avgc(),
        TaggView::Maxc { .. } => name_maxc(),
        TaggView::Flag { .. } => name_flag(),
        TaggView::Swiz { .. } => name_swiz(),
        TaggView::Proc { .. } => name_proc(),
        TaggView::Offs { .. } => name_offs(),
    }
}

/// The offsets cut or filled with zeroes to the sixteen of the wire.
pub open spec fn spec_pad16(offsets: Seq<u32>) -> Seq<u32> {
    Seq::new(
        16,
        |i: int|
            if i < offsets.len() {
                offsets[i]
            } else {
                0u32
            },
    )
}

/// The payload of a record.
pub open spec fn spec_payload(t: TaggView) -> Seq<u8> {
    match t {
        TaggView::Avgc { rgba } => rgba.spec_bytes(),
        TaggView::Maxc { rgba } => rgba.spec_bytes(),
        TaggView::Flag { transparency } => seq![transparency.spec_byte(), 0u8, 0u8, 0u8],
        TaggView::Swiz { swizzle } => swizzle.spec_bytes(),
        TaggView::Proc { text } => text,
        TaggView::Offs { offsets } => u32s_le(spec_pad16(offsets)),
    }
}

/// The record on the wire.
pub open spec fn spec_tagg_bytes(t: TaggView) -> Seq<u8> {
    spec_signature() + spec_name(t) + u32_le(spec_payload(t).len() as u32) + spec_payload(t)
}

/// The index of the first zero of `vals` from `from` on, or the length of
/// `vals` where there is none.
pub open spec fn spec_first_zero(vals: Seq<u32>, from: int) -> int
    decreases vals.len() - from,
{
    if from >= vals.len() {
        vals.len() as int
    } else if vals[from] == 0 {
        from
    } else {
        spec_first_zero(vals, from + 1)
    }
}

/// The little-endian 32-bit values stored in `data`.
pub open spec fn spec_words(data: Seq<u8>) -> Seq<u32> {
    Seq::new((data.len() / 4) as nat, |i: int| le32_at(data, 4 * i))
}

/// The offsets a payload holds: its values up to the first zero.
pub open spec fn spec_offsets_of(data: Seq<u8>) -> Seq<u32> {
    spec_words(data).take(spec_first_zero(spec_words(data), 0))
}

/// The record with the given name and payload, or the reason there is none.
pub open spec fn spec_from_name_and_payload(name: Seq<u8>, data: Seq<u8>) -> Result<
    TaggView,
    PaaError,
> {
    if name.len() != 4 {
        Err(PaaError::UnexpectedTaggSignature)
    } else if name == name_avgc() {
        if data.len() != 4 {
            Err(PaaError::UnexpectedTaggDataSize)
        } else {
            Ok(
                TaggView::Avgc {
                    rgba: Bgra8888Pixel { b: data[0], g: data[1], r: data[2], a: data[3] },
                },
            )
        }
    } else if name == name_maxc() {
        if data.len() != 4 {
            Err(PaaError::UnexpectedTaggDataSize)
        } else {
            Ok(
                TaggView::Maxc {
                    rgba: Bgra8888Pixel { b: data[0], g: data[1], r: data[2], a: data[3] },
                },
            )
        }
    } else if name == name_flag() {
        if data.len() != 4 {
            Err(PaaError::UnexpectedTaggDataSize)
        } else {
            match Transparency::spec_from_byte(data[0]) {
                Some(transparency) => Ok(TaggView::Flag { transparency }),
                None => Err(PaaError::UnknownTransparencyValue(data[0])),
            }
        }
    } else if name == name_swiz() {
        if data.len() != 4 {
            Err(PaaError::UnexpectedTaggDataSize)
        } else {
            match ArgbSwizzle::spec_from_bytes(data) {
                Some(swizzle) => Ok(TaggView::Swiz { swizzle }),
                None => Err(PaaError::UnknownSwizzleValues([data[0], data[1], data[2], data[3]])),
            }
        }
    } else if name == name_proc() {
        Ok(TaggView::Proc { text: data })
    } else if name == name_offs() {
        if data.len() % 4 != 0 {
            Err(PaaError::UnexpectedTaggDataSize)
        } else {
            Ok(TaggView::Offs { offsets: spec_offsets_of(data) })
        }
    } else {
        Err(PaaError::UnknownTaggType([name[0], name[1], name[2], name[3]]))
    }
}

/// The name and payload length announced by the twelve bytes of a head.
pub open spec fn spec_head(head: Seq<u8>) -> Result<(Seq<u8>, u32), PaaError> {
    if head.subrange(0, 4) != spec_signature() {
        Err(PaaError::UnexpectedTaggSignature)
    } else if !spec_is_valid_name(head.subrange(4, 8)) {
        Err(PaaError::UnknownTaggType([head[4], head[5], head[6], head[7]]))
    } else {
        Ok((head.subrange(4, 8), le32_at(head, 8)))
    }
}

/// The record at `pos` in `data` and the position after it.
pub open spec fn spec_read_tagg(data: Seq<u8>, pos: int) -> Result<(TaggView, int), PaaError> {
    if pos + 12 > data.len() {
        Err(PaaError::UnexpectedEof)
    } else {
        match spec_head(data.subrange(pos, pos + 12)) {
            Err(e) => Err(e),
            Ok((name, len)) => if pos + 12 + len > data.len() {
                Err(PaaError::UnexpectedEof)
            } else {
                match spec_from_name_and_payload(name, data.subrange(pos + 12, pos + 12 + len)) {
                    Err(e) => Err(e),
                    Ok(t) => Ok((t, pos + 12 + len)),
                }
            },
        }
    }
}

/// The records from `pos` on up to the first that cannot be read, the
/// reason it cannot, and the position it starts at.
pub open spec fn spec_read_taggs(data: Seq<u8>, pos: int) -> (Seq<TaggView>, PaaError, int)
    decreases data.len() - pos,
{
    match spec_read_tagg(data, pos) {
        Err(e) => (Seq::<TaggView>::empty(), e, pos),
        Ok((t, end)) => if end > pos {
            let (rest, e, stop) = spec_read_taggs(data, end);
            (seq![t] + rest, e, stop)
        } else {
            (seq![t], PaaError::UnexpectedEof, end)
        },
    }
}

fn same_four(a: &[u8], b0: u8, b1: u8, b2: u8, b3: u8) -> (r: bool)
    requires
        a@.len() == 4,
    ensures
        r == (a@ == seq![b0, b1, b2, b3]),
{
    let r = a[0] == b0 && a[1] == b1 && a[2] == b2 && a[3] == b3;
    proof {
        let s = seq![b0, b1, b2, b3];
        if r {
            assert(a@ =~= s);
        } else {
            assert(s[0] == b0 && s[1] == b1 && s[2] == b2 && s[3] == b3);
        }
    }
    r
}

impl Clone for Tagg {
    fn clone(&self) -> (c: Self)
        ensures
            c@ == self@,
    {
        match self {
            Tagg::Avgc { rgba } => Tagg::Avgc { rgba: *rgba },
            Tagg::Maxc { rgba } => Tagg::Maxc { rgba: *rgba },
            Tagg::Flag { transparency } => Tagg::Flag { transparency: *transparency },
            Tagg::Swiz { swizzle } => Tagg::Swiz { swizzle: *swizzle },
            Tagg::Proc { code } => Tagg::Proc { code: code.clone() },
            Tagg::Offs { offsets } => Tagg::Offs {
                offsets: vstd::slice::slice_to_vec(offsets.as_slice()),
            },
        }
    }
}

impl Tagg {
    /// The four-letter name of the record as the file spells it.
    pub fn as_taggname(&self) -> (name: &'static str)
        ensures
            name@ == (match self@ {
                TaggView::Avgc { .. } => "CGVA"@,
                TaggView::Maxc { .. } => "CXAM"@,
                TaggView::Flag { .. } => "GALF"@,
                TaggView::Swiz { .. } => "ZIWS"@,
                TaggView::Proc { .. } => "CORP"@,
                TaggView::Offs { .. } => "SFFO"@,
            }),
    {
        match self {
            Tagg::Avgc { .. } => "CGVA",
            Tagg::Maxc { .. } => "CXAM",
            Tagg::Flag { .. } => "GALF",
            Tagg::Swiz { .. } => "ZIWS",
            Tagg::Proc { .. } => "CORP",
            Tagg::Offs { .. } => "SFFO",
        }
    }

    /// The four bytes of the record's name.
    pub fn name_bytes(&self) -> (name: [u8; 4])
        ensures
            name@ == spec_name(self@),
    {
        let name: [u8; 4] = match self {
            Tagg::Avgc { .. } => [0x43, 0x47, 0x56, 0x41],
            Tagg::Maxc { .. } => [0x43, 0x58, 0x41, 0x4D],
            Tagg::Flag { .. } => [0x47, 0x41, 0x4C, 0x46],
            Tagg::Swiz { .. } => [0x5A, 0x49, 0x57, 0x53],
            Tagg::Proc { .. } => [0x43, 0x4F, 0x52, 0x50],
            Tagg::Offs { .. } => [0x53, 0x46, 0x46, 0x4F],
        };
        assert(name@ =~= spec_name(self@));
        name
    }

    /// Whether the bytes of `name` are one of the six names.
    pub fn is_valid_taggname(name: &str) -> (r: bool)
        ensures
            r == spec_is_valid_name(name.spec_bytes()),
    {
        let b = name.as_bytes();
        if b.len() != 4 {
            proof {
                assert(name_avgc().len() == 4 && name_maxc().len() == 4 && name_flag().len() == 4
                    && name_swiz().len() == 4 && name_proc().len() == 4 && name_offs().len() == 4);
            }
            return false;
        }
        Self::is_valid_name(b)
    }

    /// Whether four bytes are one of the six names.
    pub fn is_valid_name(name: &[u8]) -> (r: bool)
        requires
            name@.len() == 4,
        ensures
            r == spec_is_valid_name(name@),
    {
        same_four(name, 0x43, 0x47, 0x56, 0x41) || same_four(name, 0x43, 0x58, 0x41, 0x4D)
            || same_four(name, 0x47, 0x41, 0x4C, 0x46) || same_four(name, 0x5A, 0x49, 0x57, 0x53)
            || same_four(name, 0x43, 0x4F, 0x52, 0x50) || same_four(name, 0x53, 0x46, 0x46, 0x4F)
    }

    /// Whether the record can be written: its payload length fits the four
    /// bytes of the length field.
    pub open spec fn spec_writable(&self) -> bool {
        match self {
            Tagg::Proc { code } => code.text@.len() <= u32::MAX,
            _ => true,
        }
    }

    /// The payload of the record.
    pub fn payload(&self) -> (out: Vec<u8>)
        ensures
            out@ == spec_payload(self@),
    {
        match self {
            Tagg::Avgc { rgba } => vstd::slice::slice_to_vec(rgba.to_bytes().as_slice()),
            Tagg::Maxc { rgba } => vstd::slice::slice_to_vec(rgba.to_bytes().as_slice()),
            Tagg::Flag { transparency } => {
                let out: Vec<u8> = vec![transparency.to_byte(), 0u8, 0u8, 0u8];
                assert(out@ =~= spec_payload(self@));
                out
            },
            Tagg::Swiz { swizzle } => vstd::slice::slice_to_vec(swizzle.to_bytes().as_slice()),
            Tagg::Proc { code } => vstd::slice::slice_to_vec(code.text.as_slice()),
            Tagg::Offs { offsets } => {
                let mut padded: Vec<u32> = Vec::new();
                let mut i: usize = 0;
                while i < 16
                    invariant
                        i <= 16,
                        padded@.len() == i,
                        forall|j: int| 0 <= j < i ==> #[trigger] padded@[j] == spec_pad16(offsets@)[j],
                    decreases 16 - i,
                {
                    let v: u32 = if i < offsets.len() {
                        offsets[i]
                    } else {
                        0
                    };
                    padded.push(v);
                    i = i + 1;
                }
                assert(padded@ =~= spec_pad16(offsets@));
                write_u32s_le(padded.as_slice(), 64)
            },
        }
    }

    /// The record on the wire. The offsets table is always written with
    /// sixteen entries.
    pub fn to_bytes(&self) -> (out: Vec<u8>)
        requires
            self.spec_writable(),
        ensures
            out@ == spec_tagg_bytes(self@),
    {
        let mut bytes: Vec<u8> = vec![0x47u8, 0x47u8, 0x41u8, 0x54u8];
        assert(bytes@ =~= spec_signature());
        let name = self.name_bytes();
        bytes.extend_from_slice(name.as_slice());
        let payload = self.payload();
        proof {
            lemma_u32s_le_len(spec_pad16(self@->Offs_offsets));
        }
        push_u32_le(&mut bytes, payload.len() as u32);
        bytes.extend_from_slice(payload.as_slice());
        bytes
    }

    /// The record on the wire, as [`Tagg::to_bytes`] gives it.
    pub fn as_bytes(&self) -> (out: Vec<u8>)
        requires
            self.spec_writable(),
        ensures
            out@ == spec_tagg_bytes(self@),
    {
        self.to_bytes()
    }

    /// Checks the head of a record: the signature and the name. Gives the
    /// name and the announced payload length.
    ///
    /// Fails with `UnexpectedTaggSignature` where the signature is wrong and
    /// with `UnknownTaggType`, which holds the four bytes found, where the
    /// name is none of the six.
    pub fn head_from(data: &[u8; 12]) -> (res: PaaResult<([u8; 4], u32)>)
        ensures
            match spec_head(data@) {
                Ok((name, len)) => res is Ok && res->Ok_0.0@ == name && res->Ok_0.1 == len,
                Err(e) => res is Err && res->Err_0 == e,
            },
    {
        let bytes = data.as_slice();
        let sig = vstd::slice::slice_subrange(bytes, 0, 4);
        if !same_four(sig, 0x47, 0x47, 0x41, 0x54) {
            return Err(PaaError::UnexpectedTaggSignature);
        }
        let name = vstd::slice::slice_subrange(bytes, 4, 8);
        let name_array: [u8; 4] = [data[4], data[5], data[6], data[7]];
        assert(name_array@ =~= name@);
        if !Self::is_valid_name(name) {
            return Err(PaaError::UnknownTaggType(name_array));
        }
        let len_bytes = vstd::slice::slice_subrange(bytes, 8, 12);
        let len = read_u32_le(len_bytes);
        Ok((name_array, len))
    }

    /// Checks the head of a record and gives its name as text with the
    /// announced payload length.
    pub fn try_head_from(data: &[u8; 12]) -> (res: PaaResult<(String, u32)>)
        ensures
            match spec_head(data@) {
                Ok((name, len)) => res is Ok && res->Ok_0.1 == len && res->Ok_0.0@ == (if name
                    == name_avgc() {
                    "CGVA"@
                } else if name == name_maxc() {
                    "CXAM"@
                } else if name == name_flag() {
                    "GALF"@
                } else if name == name_swiz() {
                    "ZIWS"@
                } else if name == name_proc() {
                    "CORP"@
                } else {
                    "SFFO"@
                }),
                Err(e) => res is Err && res->Err_0 == e,
            },
    {
        match Self::head_from(data) {
            Err(e) => Err(e),
            Ok((name, len)) => {
                let n = name.as_slice();
                let text = if same_four(n, 0x43, 0x47, 0x56, 0x41) {
                    "CGVA"
                } else if same_four(n, 0x43, 0x58, 0x41, 0x4D) {
                    "CXAM"
                } else if same_four(n, 0x47, 0x41, 0x4C, 0x46) {
                    "GALF"
                } else if same_four(n, 0x5A, 0x49, 0x57, 0x53) {
                    "ZIWS"
                } else if same_four(n, 0x43, 0x4F, 0x52, 0x50) {
                    "CORP"
                } else {
                    "SFFO"
                };
                Ok((String::from_str(text), len))
            },
        }
    }

    /// The record with the name spelled by the bytes of `taggname` and the
    /// given payload.
    ///
    /// Fails with `UnexpectedTaggSignature` for a name that is not four bytes
    /// long, with `UnknownTaggType` for four bytes that are no known name,
    /// with `UnexpectedTaggDataSize` for a payload whose length the kind does
    /// not allow, and with `UnknownTransparencyValue` or
    /// `UnknownSwizzleValues` for a payload that holds no such value.
    pub fn from_name_and_payload(taggname: &str, data: &[u8]) -> (res: PaaResult<Self>)
        ensures
            match spec_from_name_and_payload(taggname.spec_bytes(), data@) {
                Ok(t) => res is Ok && res->Ok_0@ == t,
                Err(e) => res is Err && res->Err_0 == e,
            },
    {
        let name = taggname.as_bytes();
        if name.len() != 4 {
            return Err(PaaError::UnexpectedTaggSignature);
        }
        Self::from_name_bytes_and_payload(name, data)
    }

    /// The record with the given four-byte name and payload.
    pub fn from_name_bytes_and_payload(name: &[u8], data: &[u8]) -> (res: PaaResult<Self>)
        requires
            name@.len() == 4,
        ensures
            match spec_from_name_and_payload(name@, data@) {
                Ok(t) => res is Ok && res->Ok_0@ == t,
                Err(e) => res is Err && res->Err_0 == e,
            },
    {
        if same_four(name, 0x43, 0x47, 0x56, 0x41) {
            if data.len() != 4 {
                return Err(PaaError::UnexpectedTaggDataSize);
            }
            Ok(Tagg::Avgc { rgba: Bgra8888Pixel::from_bytes([data[0], data[1], data[2], data[3]]) })
        } else if same_four(name, 0x43, 0x58, 0x41, 0x4D) {
            if data.len() != 4 {
                return Err(PaaError::UnexpectedTaggDataSize);
            }
            Ok(Tagg::Maxc { rgba: Bgra8888Pixel::from_bytes([data[0], data[1], data[2], data[3]]) })
        } else if same_four(name, 0x47, 0x41, 0x4C, 0x46) {
            if data.len() != 4 {
                return Err(PaaError::UnexpectedTaggDataSize);
            }
            match Transparency::from_byte(data[0]) {
                Some(transparency) => Ok(Tagg::Flag { transparency }),
                None => Err(PaaError::UnknownTransparencyValue(data[0])),
            }
        } else if same_four(name, 0x5A, 0x49, 0x57, 0x53) {
            if data.len() != 4 {
                return Err(PaaError::UnexpectedTaggDataSize);
            }
            let raw: [u8; 4] = [data[0], data[1], data[2], data[3]];
            assert(raw@ =~= data@);
            match ArgbSwizzle::from_bytes(&raw) {
                Some(swizzle) => Ok(Tagg::Swiz { swizzle }),
                None => Err(PaaError::UnknownSwizzleValues(raw)),
            }
        } else if same_four(name, 0x43, 0x4F, 0x52, 0x50) {
            Ok(Tagg::Proc { code: TextureMacro { text: vstd::slice::slice_to_vec(data) } })
        } else if same_four(name, 0x53, 0x46, 0x46, 0x4F) {
            if data.len() % 4 != 0 {
                return Err(PaaError::UnexpectedTaggDataSize);
            }
            let mut offsets = read_u32s_le(data, data.len() / 4);
            assert(offsets@ =~= spec_words(data@));
            let n = offsets.len();
            let mut i: usize = 0;
            while i < n && offsets[i] != 0
                invariant
                    i <= n,
                    n == offsets@.len(),
                    spec_first_zero(offsets@, i as int) == spec_first_zero(offsets@, 0),
                decreases n - i,
            {
                i = i + 1;
            }
            offsets.truncate(i);
            Ok(Tagg::Offs { offsets })
        } else {
            let raw: [u8; 4] = [name[0], name[1], name[2], name[3]];
            Err(PaaError::UnknownTaggType(raw))
        }
    }

    /// Reads one record at the position of `input`. On failure the position
    /// is left where it was.
    pub fn read_tagg_from(input: &mut PaaReader) -> (res: PaaResult<Self>)
        ensures
            final(input).data == old(input).data,
            match spec_read_tagg(old(input).data@, old(input).pos as int) {
                Ok((t, end)) => res is Ok && res->Ok_0@ == t && final(input).pos == end,
                Err(e) => res is Err && res->Err_0 == e && final(input).pos == old(input).pos,
            },
    {
        let start = input.position();
        let head = match input.read_exact_buffered(12) {
            Ok(v) => v,
            Err(e) => {
                return Err(e);
            },
        };
        let head_array: [u8; 12] = [
            head[0],
            head[1],
            head[2],
            head[3],
            head[4],
            head[5],
            head[6],
            head[7],
            head[8],
            head[9],
            head[10],
            head[11],
        ];
        assert(head_array@ =~= head@);
        let (name, len) = match Self::head_from(&head_array) {
            Ok(h) => h,
            Err(e) => {
                input.seek(start);
                return Err(e);
            },
        };
        let payload = match input.read_exact_buffered(len as usize) {
            Ok(v) => v,
            Err(e) => {
                input.seek(start);
                return Err(e);
            },
        };
        match Self::from_name_bytes_and_payload(name.as_slice(), payload.as_slice()) {
            Ok(t) => Ok(t),
            Err(e) => {
                input.seek(start);
                Err(e)
            },
        }
    }

    /// Reads records until one cannot be read, and gives the records with
    /// the reason the last attempt failed. The position is left at the
    /// start of what could not be read. In a well-formed file the reason is
    /// `UnexpectedTaggSignature` or `UnknownTaggType`.
    pub fn read_taggs_from(input: &mut PaaReader) -> (res: PaaResult<(Vec<Self>, PaaError)>)
        ensures
            final(input).data == old(input).data,
            res is Ok,
            taggs_view(res->Ok_0.0@) == spec_read_taggs(old(input).data@, old(input).pos as int).0,
            res->Ok_0.1 == spec_read_taggs(old(input).data@, old(input).pos as int).1,
            final(input).pos == spec_read_taggs(old(input).data@, old(input).pos as int).2,
    {
        let mut taggs: Vec<Tagg> = Vec::new();
        let ghost data = input.data@;
        let ghost start = input.pos as int;
        let mut stop: PaaError = PaaError::UnexpectedEof;
        assert(taggs_view(taggs@) =~= Seq::<TaggView>::empty());
        assert(taggs_view(taggs@) + spec_read_taggs(data, start).0 =~= spec_read_taggs(data, start).0);
        loop
            invariant_except_break
                taggs_view(taggs@) + spec_read_taggs(data, input.pos as int).0 == spec_read_taggs(
                    data,
                    start,
                ).0,
                spec_read_taggs(data, input.pos as int).1 == spec_read_taggs(data, start).1,
                spec_read_taggs(data, input.pos as int).2 == spec_read_taggs(data, start).2,
            invariant
                input.data == old(input).data,
                data == input.data@,
            ensures
                taggs_view(taggs@) == spec_read_taggs(data, start).0,
                stop == spec_read_taggs(data, start).1,
                input.pos == spec_read_taggs(data, start).2,
            decreases data.len() - input.pos,
        {
            let before = input.position();
            let ghost seen = taggs_view(taggs@);
            match Self::read_tagg_from(input) {
                Ok(t) => {
                    let ghost tv = t@;
                    taggs.push(t);
                    let after = input.position();
                    proof {
                        assert(taggs_view(taggs@) =~= seen.push(tv));
                        if after > before {
                            assert(seen + (seq![tv] + spec_read_taggs(data, after as int).0)
                                =~= seen.push(tv) + spec_read_taggs(data, after as int).0);
                        } else {
                            assert(seen + seq![tv] =~= seen.push(tv));
                        }
                    }
                    if after <= before {
                        stop = PaaError::UnexpectedEof;
                        break ;
                    }
                },
                Err(e) => {
                    proof {
                        assert(seen + Seq::<TaggView>::empty() =~= seen);
                    }
                    stop = e;
                    break ;
                },
            }
        }
        Ok((taggs, stop))
    }
}

/// Sixteen values take sixty-four bytes, and `n` values four times `n`.
pub proof fn lemma_u32s_le_len(vals: Seq<u32>)
    ensures
        u32s_le(vals).len() == 4 * vals.len(),
    decreases vals.len(),
{
    if vals.len() > 0 {
        lemma_u32s_le_len(vals.drop_last());
    }
}

/// The value at index `i` is read back from the bytes written for `vals`.
pub proof fn lemma_u32s_le_index(vals: Seq<u32>, i: int)
    requires
        0 <= i < vals.len(),
    ensures
        u32s_le(vals).len() == 4 * vals.len(),
        le32_at(u32s_le(vals), 4 * i) == vals[i],
    decreases vals.len(),
{
    lemma_u32s_le_len(vals);
    let front = vals.drop_last();
    lemma_u32s_le_len(front);
    let bytes = u32s_le(vals);
    assert(bytes =~= u32s_le(front) + u32_le(vals.last()));
    if i < vals.len() - 1 {
        lemma_u32s_le_index(front, i);
        assert(bytes[4 * i] == u32s_le(front)[4 * i]);
        assert(bytes[4 * i + 1] == u32s_le(front)[4 * i + 1]);
        assert(bytes[4 * i + 2] == u32s_le(front)[4 * i + 2]);
        assert(bytes[4 * i + 3] == u32s_le(front)[4 * i + 3]);
        assert(front[i] == vals[i]);
    } else {
        crate::bytes::lemma_le_round_trip(vals.last());
        let tail = u32_le(vals.last());
        assert(bytes[4 * i] == tail[0]);
        assert(bytes[4 * i + 1] == tail[1]);
        assert(bytes[4 * i + 2] == tail[2]);
        assert(bytes[4 * i + 3] == tail[3]);
    }
}

/// The first zero of values of which the first `n` are not zero and the
/// others are.
proof fn lemma_first_zero_of_padded(vals: Seq<u32>, n: int, from: int)
    requires
        0 <= from <= n <= vals.len(),
        forall|i: int| 0 <= i < n ==> #[trigger] vals[i] != 0,
        forall|i: int| n <= i < vals.len() ==> #[trigger] vals[i] == 0,
    ensures
        spec_first_zero(vals, from) == n,
    decreases n - from,
{
    if from < n {
        lemma_first_zero_of_padded(vals, n, from + 1);
    }
}

/// Whether a record read back from its name and payload is the record: any
/// colour, flag or code record; a swizzle whose rules target the channels of
/// their fields; an offsets table of at most sixteen offsets, none of them
/// zero.
pub open spec fn spec_survives_wire(t: TaggView) -> bool {
    match t {
        TaggView::Swiz { swizzle } => swizzle.spec_targets_in_place(),
        TaggView::Offs { offsets } => offsets.len() <= 16 && forall|i: int|
            0 <= i < offsets.len() ==> #[trigger] offsets[i] != 0,
        _ => true,
    }
}

/// A record made from the name and the payload of a record is that record,
/// for each of the six kinds.
pub proof fn lemma_tagg_round_trip(t: TaggView)
    requires
        spec_survives_wire(t),
    ensures
        spec_from_name_and_payload(spec_name(t), spec_payload(t)) == Ok::<TaggView, PaaError>(t),
{
    let name = spec_name(t);
    let data = spec_payload(t);
    assert(name_avgc()[1] == 0x47 && name_maxc()[1] == 0x58 && name_flag()[1] == 0x41
        && name_swiz()[1] == 0x49 && name_proc()[1] == 0x4F && name_offs()[1] == 0x46);
    assert(name_avgc()[0] == 0x43 && name_flag()[0] == 0x47);
    match t {
        TaggView::Avgc { rgba } => {},
        TaggView::Maxc { rgba } => {},
        TaggView::Flag { transparency } => {},
        TaggView::Swiz { swizzle } => {
            crate::swizzle::lemma_swizzle_round_trip(swizzle);
        },
        TaggView::Proc { text } => {},
        TaggView::Offs { offsets } => {
            let padded = spec_pad16(offsets);
            lemma_u32s_le_len(padded);
            assert(spec_words(data) =~= padded) by {
                assert forall|i: int| 0 <= i < 16 implies #[trigger] spec_words(data)[i]
                    == padded[i] by {
                    lemma_u32s_le_index(padded, i);
                }
            }
            lemma_first_zero_of_padded(padded, offsets.len() as int, 0);
            assert(padded.take(offsets.len() as int) =~= offsets);
        },
    }
}

} // verus!
