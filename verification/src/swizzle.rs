//! Channel swizzle: for each channel of the output, the rule that says where
//! its value comes from.

use vstd::prelude::*;
use vstd::string::{StrSliceExecFns, StringExecFns};
use crate::error::{PaaError, PaaResult};

verus! {

/// A colour channel.
#[derive(Debug, Clone, Copy, PartialEq, Eq, Structural)]
pub enum ChannelSwizzleId {
    Alpha,
    Red,
    Green,
    Blue,
}

/// The constant a channel is filled with.
#[derive(Debug, Clone, Copy, PartialEq, Eq, Structural)]
pub enum ChannelSwizzleFill {
    /// All ones.
    FillFF,
    /// All zeroes.
    Fill00,
}

/// The rule for one channel, without the channel it applies to.
#[derive(Debug, Clone, Copy, PartialEq, Eq, Structural)]
pub enum ChannelSwizzleData {
    /// Copy the value of a source channel, inverted if `neg_flag` is set.
    Source { neg_flag: bool, source: ChannelSwizzleId },
    /// Fill with a constant.
    Fill { value: ChannelSwizzleFill },
}

/// The rule for one channel.
#[derive(Debug, Clone, Copy, PartialEq, Eq, Structural)]
pub struct ChannelSwizzle {
    /// The channel that is written.
    pub target: ChannelSwizzleId,
    /// What is written to it.
    pub data: ChannelSwizzleData,
}

/// The rules for the four channels.
#[derive(Debug, Clone, Copy, PartialEq, Eq, Structural)]
pub struct ArgbSwizzle {
    pub a: ChannelSwizzle,
    pub r: ChannelSwizzle,
    pub g: ChannelSwizzle,
    pub b: ChannelSwizzle,
}

/// Whether `c` is white space.
pub open spec fn spec_is_space(c: char) -> bool {
    let u = c as u32;
    (0x9 <= u <= 0xd) || u == 0x20 || u == 0x85 || u == 0xa0 || u == 0x1680 || (0x2000 <= u
        <= 0x200a) || u == 0x2028 || u == 0x2029 || u == 0x202f || u == 0x205f || u == 0x3000
}

/// `c` with the lower-case channel letters turned to upper case.
pub open spec fn spec_fold_letter(c: char) -> char {
    if c == 'a' {
        'A'
    } else if c == 'r' {
        'R'
    } else if c == 'g' {
        'G'
    } else if c == 'b' {
        'B'
    } else {
        c
    }
}

/// The text of a rule without its white space and with its channel letters
/// in upper case.
pub open spec fn spec_normalize(s: Seq<char>) -> Seq<char>
    decreases s.len(),
{
    if s.len() == 0 {
        Seq::<char>::empty()
    } else if spec_is_space(s.last()) {
        spec_normalize(s.drop_last())
    } else {
        spec_normalize(s.drop_last()).push(spec_fold_letter(s.last()))
    }
}

/// The channel a letter names.
pub open spec fn spec_channel_of(c: char) -> Option<ChannelSwizzleId> {
    if c == 'A' {
        Some(ChannelSwizzleId::Alpha)
    } else if c == 'R' {
        Some(ChannelSwizzleId::Red)
    } else if c == 'G' {
        Some(ChannelSwizzleId::Green)
    } else if c == 'B' {
        Some(ChannelSwizzleId::Blue)
    } else {
        None
    }
}

/// The rule a normalized text stands for: a channel letter, `1-` and a
/// channel letter, `0` or `1`.
pub open spec fn spec_parse_normalized(t: Seq<char>) -> Option<ChannelSwizzleData> {
    if t.len() == 1 && spec_channel_of(t[0]) is Some {
        Some(ChannelSwizzleData::Source { neg_flag: false, source: spec_channel_of(t[0])->Some_0 })
    } else if t.len() == 3 && t[0] == '1' && t[1] == '-' && spec_channel_of(t[2]) is Some {
        Some(ChannelSwizzleData::Source { neg_flag: true, source: spec_channel_of(t[2])->Some_0 })
    } else if t.len() == 1 && t[0] == '0' {
        Some(ChannelSwizzleData::Fill { value: ChannelSwizzleFill::Fill00 })
    } else if t.len() == 1 && t[0] == '1' {
        Some(ChannelSwizzleData::Fill { value: ChannelSwizzleFill::FillFF })
    } else {
        None
    }
}

/// The rule a text stands for.
pub open spec fn spec_parse_data(s: Seq<char>) -> Option<ChannelSwizzleData> {
    spec_parse_normalized(spec_normalize(s))
}

/// Whether `res` is the rule that `s` stands for, or the error that holds
/// `s` where it stands for none.
pub open spec fn parsed_as(res: PaaResult<ChannelSwizzleData>, s: Seq<char>) -> bool {
    match spec_parse_data(s) {
        Some(d) => res == Ok::<ChannelSwizzleData, PaaError>(d),
        None => res is Err && res->Err_0 is InvalidSwizzleString
            && res->Err_0->InvalidSwizzleString_0@ == s,
    }
}

/// Whether `c` is white space.
pub fn is_space(c: char) -> (r: bool)
    ensures
        r == spec_is_space(c),
{
    let u: u32 = c as u32;
    (0x9 <= u && u <= 0xd) || u == 0x20 || u == 0x85 || u == 0xa0 || u == 0x1680 || (0x2000 <= u
        && u <= 0x200a) || u == 0x2028 || u == 0x2029 || u == 0x202f || u == 0x205f || u == 0x3000
}

impl ChannelSwizzleId {
    /// Index of the channel in an RGBA pixel.
    pub open spec fn spec_rgba_index(self) -> int {
        match self {
            ChannelSwizzleId::Alpha => 3,
            ChannelSwizzleId::Red => 0,
            ChannelSwizzleId::Green => 1,
            ChannelSwizzleId::Blue => 2,
        }
    }

    /// The two bits that name the channel on the wire.
    pub open spec fn spec_code(self) -> u8 {
        match self {
            ChannelSwizzleId::Alpha => 0,
            ChannelSwizzleId::Red => 1,
            ChannelSwizzleId::Green => 2,
            ChannelSwizzleId::Blue => 3,
        }
    }

    /// The channel named by two bits.
    pub open spec fn spec_from_code(code: u8) -> ChannelSwizzleId {
        if code == 0 {
            ChannelSwizzleId::Alpha
        } else if code == 1 {
            ChannelSwizzleId::Red
        } else if code == 2 {
            ChannelSwizzleId::Green
        } else {
            ChannelSwizzleId::Blue
        }
    }

    /// Index of the channel in an RGBA pixel.
    pub fn as_rgba_index(&self) -> (i: usize)
        ensures
            i == self.spec_rgba_index(),
    {
        match self {
            ChannelSwizzleId::Alpha => 3,
            ChannelSwizzleId::Red => 0,
            ChannelSwizzleId::Green => 1,
            ChannelSwizzleId::Blue => 2,
        }
    }

    /// The two bits that name the channel on the wire.
    pub fn to_code(&self) -> (c: u8)
        ensures
            c == self.spec_code(),
    {
        match self {
            ChannelSwizzleId::Alpha => 0,
            ChannelSwizzleId::Red => 1,
            ChannelSwizzleId::Green => 2,
            ChannelSwizzleId::Blue => 3,
        }
    }

    /// The channel named by the two low bits of `code`.
    pub fn from_code(code: u8) -> (id: Self)
        ensures
            id == Self::spec_from_code(code % 4),
    {
        let low: u8 = code % 4;
        if low == 0 {
            ChannelSwizzleId::Alpha
        } else if low == 1 {
            ChannelSwizzleId::Red
        } else if low == 2 {
            ChannelSwizzleId::Green
        } else {
            ChannelSwizzleId::Blue
        }
    }

    /// The channel a letter names, in either case.
    pub fn from_letter(c: char) -> (id: Option<Self>)
        ensures
            id == spec_channel_of(spec_fold_letter(c)),
    {
        if c == 'A' || c == 'a' {
            Some(ChannelSwizzleId::Alpha)
        } else if c == 'R' || c == 'r' {
            Some(ChannelSwizzleId::Red)
        } else if c == 'G' || c == 'g' {
            Some(ChannelSwizzleId::Green)
        } else if c == 'B' || c == 'b' {
            Some(ChannelSwizzleId::Blue)
        } else {
            None
        }
    }

    /// The channel named by a text of one letter, in either case. Any other
    /// text fails with `InvalidChannelSwizzleIdString`, which holds the text.
    pub fn from_str(s: &str) -> (res: PaaResult<Self>)
        ensures
            s@.len() == 1 && spec_channel_of(spec_fold_letter(s@[0])) is Some ==> res == Ok::<
                ChannelSwizzleId,
                PaaError,
            >(spec_channel_of(spec_fold_letter(s@[0]))->Some_0),
            !(s@.len() == 1 && spec_channel_of(spec_fold_letter(s@[0])) is Some) ==> res is Err
                && res->Err_0 is InvalidChannelSwizzleIdString
                && res->Err_0->InvalidChannelSwizzleIdString_0@ == s@,
    {
        if s.unicode_len() == 1 {
            match Self::from_letter(s.get_char(0)) {
                Some(id) => {
                    return Ok(id);
                },
                None => {},
            }
        }
        Err(PaaError::InvalidChannelSwizzleIdString(String::from_str(s)))
    }
}

impl ChannelSwizzleFill {
    /// The byte the channel is filled with.
    pub open spec fn spec_byte(self) -> u8 {
        match self {
            ChannelSwizzleFill::FillFF => 0xFF,
            ChannelSwizzleFill::Fill00 => 0x00,
        }
    }

    /// The two bits that name the constant on the wire.
    pub open spec fn spec_code(self) -> u8 {
        match self {
            ChannelSwizzleFill::FillFF => 0,
            ChannelSwizzleFill::Fill00 => 1,
        }
    }

    /// The byte the channel is filled with.
    pub fn byte(&self) -> (b: u8)
        ensures
            b == self.spec_byte(),
    {
        match self {
            ChannelSwizzleFill::FillFF => 0xFF,
            ChannelSwizzleFill::Fill00 => 0x00,
        }
    }
}

impl ChannelSwizzleData {
    /// The byte that holds the rule on the wire: the high nibble is zero,
    /// bit 3 tells a fill from a copy, bit 2 of a copy is its inversion flag,
    /// the two low bits name the source channel or the fill constant.
    pub open spec fn spec_byte(self) -> u8 {
        match self {
            ChannelSwizzleData::Source { neg_flag, source } => if neg_flag {
                (4 + source.spec_code()) as u8
            } else {
                source.spec_code()
            },
            ChannelSwizzleData::Fill { value } => (8 + value.spec_code()) as u8,
        }
    }

    /// The rule a byte holds. The high nibble is ignored, and so is bit 2 of
    /// a fill; a fill with a constant other than the two known ones is no
    /// rule.
    pub open spec fn spec_from_byte(b: u8) -> Option<ChannelSwizzleData> {
        let n = b % 16;
        if n < 8 {
            Some(
                ChannelSwizzleData::Source {
                    neg_flag: n >= 4,
                    source: ChannelSwizzleId::spec_from_code(n % 4),
                },
            )
        } else if n % 4 == 0 {
            Some(ChannelSwizzleData::Fill { value: ChannelSwizzleFill::FillFF })
        } else if n % 4 == 1 {
            Some(ChannelSwizzleData::Fill { value: ChannelSwizzleFill::Fill00 })
        } else {
            None
        }
    }

    /// The value the rule gives for the source pixel `src`.
    pub open spec fn spec_value(self, src: Seq<u8>) -> u8 {
        match self {
            ChannelSwizzleData::Source { neg_flag, source } => if neg_flag {
                (0xFF - src[source.spec_rgba_index()]) as u8
            } else {
                src[source.spec_rgba_index()]
            },
            ChannelSwizzleData::Fill { value } => value.spec_byte(),
        }
    }

    /// The byte that holds the rule on the wire.
    pub fn to_byte(&self) -> (b: u8)
        ensures
            b == self.spec_byte(),
    {
        match self {
            ChannelSwizzleData::Source { neg_flag, source } => if *neg_flag {
                4 + source.to_code()
            } else {
                source.to_code()
            },
            ChannelSwizzleData::Fill { value } => match value {
                ChannelSwizzleFill::FillFF => 8,
                ChannelSwizzleFill::Fill00 => 9,
            },
        }
    }

    /// The rule a byte holds, if it holds one.
    pub fn from_byte(b: u8) -> (d: Option<Self>)
        ensures
            d == Self::spec_from_byte(b),
    {
        let n: u8 = b % 16;
        if n < 8 {
            Some(ChannelSwizzleData::Source { neg_flag: n >= 4, source: ChannelSwizzleId::from_code(n) })
        } else if n % 4 == 0 {
            Some(ChannelSwizzleData::Fill { value: ChannelSwizzleFill::FillFF })
        } else if n % 4 == 1 {
            Some(ChannelSwizzleData::Fill { value: ChannelSwizzleFill::Fill00 })
        } else {
            None
        }
    }

    /// The value the rule gives for the source pixel `src`.
    pub fn value(&self, src: &[u8; 4]) -> (v: u8)
        ensures
            v == self.spec_value(src@),
    {
        match self {
            ChannelSwizzleData::Source { neg_flag, source } => {
                let s = src[source.as_rgba_index()];
                if *neg_flag {
                    0xFF - s
                } else {
                    s
                }
            },
            ChannelSwizzleData::Fill { value } => value.byte(),
        }
    }

    /// The rule a normalized text stands for.
    pub fn parse_normalized(t: &Vec<char>) -> (d: Option<Self>)
        ensures
            d == spec_parse_normalized(t@),
    {
        if t.len() == 1 {
            let c = t[0];
            match ChannelSwizzleId::from_letter(c) {
                Some(source) => if c == 'A' || c == 'R' || c == 'G' || c == 'B' {
                    Some(ChannelSwizzleData::Source { neg_flag: false, source })
                } else {
                    None
                },
                None => if c == '0' {
                    Some(ChannelSwizzleData::Fill { value: ChannelSwizzleFill::Fill00 })
                } else if c == '1' {
                    Some(ChannelSwizzleData::Fill { value: ChannelSwizzleFill::FillFF })
                } else {
                    None
                },
            }
        } else if t.len() == 3 && t[0] == '1' && t[1] == '-' {
            let c = t[2];
            match ChannelSwizzleId::from_letter(c) {
                Some(source) => if c == 'A' || c == 'R' || c == 'G' || c == 'B' {
                    Some(ChannelSwizzleData::Source { neg_flag: true, source })
                } else {
                    None
                },
                None => None,
            }
        } else {
            None
        }
    }

    /// Parses a rule as configuration files write it: a channel letter for a
    /// copy, `1-` and a channel letter for an inverted copy, `0` or `1` for a
    /// fill. White space and the case of the letters do not count. Any other
    /// text fails with `InvalidSwizzleString`, which holds the text.
    pub fn from_str(s: &str) -> (res: PaaResult<Self>)
        ensures
            parsed_as(res, s@),
    {
        let n = s.unicode_len();
        let mut t: Vec<char> = Vec::new();
        let mut i: usize = 0;
        assert(s@.take(0) =~= Seq::<char>::empty());
        while i < n
            invariant
                i <= n,
                n == s@.len(),
                t@ == spec_normalize(s@.take(i as int)),
            decreases n - i,
        {
            let c = s.get_char(i);
            proof {
                let next = s@.take(i + 1);
                assert(next.drop_last() =~= s@.take(i as int));
                assert(next.last() == c);
            }
            if !is_space(c) {
                let folded = if c == 'a' {
                    'A'
                } else if c == 'r' {
                    'R'
                } else if c == 'g' {
                    'G'
                } else if c == 'b' {
                    'B'
                } else {
                    c
                };
                t.push(folded);
            }
            i = i + 1;
        }
        assert(s@.take(n as int) =~= s@);
        match Self::parse_normalized(&t) {
            Some(d) => Ok(d),
            None => Err(PaaError::InvalidSwizzleString(String::from_str(s))),
        }
    }
}

impl ChannelSwizzle {
    /// The destination pixel after the rule has written its channel.
    pub open spec fn spec_apply(self, src: Seq<u8>, dst: Seq<u8>) -> Seq<u8> {
        dst.update(self.target.spec_rgba_index(), self.data.spec_value(src))
    }

    pub open spec fn spec_is_noop(self) -> bool {
        self.data == (ChannelSwizzleData::Source { neg_flag: false, source: self.target })
    }

    /// The rule that copies a channel to itself.
    pub fn with_target(target: ChannelSwizzleId) -> (s: Self)
        ensures
            s.target == target,
            s.spec_is_noop(),
    {
        ChannelSwizzle { target, data: ChannelSwizzleData::Source { neg_flag: false, source: target } }
    }

    /// Parses the text of a rule and combines it with its target channel.
    pub fn parse_data_with_target(data: &str, target: ChannelSwizzleId) -> (res: PaaResult<Self>)
        ensures
            match spec_parse_data(data@) {
                Some(d) => res == Ok::<ChannelSwizzle, PaaError>(ChannelSwizzle { target, data: d }),
                None => res is Err && res->Err_0 is InvalidSwizzleString
                    && res->Err_0->InvalidSwizzleString_0@ == data@,
            },
    {
        match ChannelSwizzleData::from_str(data) {
            Ok(d) => Ok(ChannelSwizzle { target, data: d }),
            Err(e) => Err(e),
        }
    }

    /// Writes the target channel of `dst` from the source pixel `src`.
    pub fn to_subpixel_map(&self, src: &[u8; 4], dst: &mut [u8; 4])
        ensures
            final(dst)@ == self.spec_apply(src@, old(dst)@),
    {
        let v = self.data.value(src);
        dst[self.target.as_rgba_index()] = v;
    }

    /// Writes the target channel of `dst` from the source pixel `src`, as
    /// [`ChannelSwizzle::to_subpixel_map`] does.
    pub fn as_subpixel_map(&self, src: &[u8; 4], dst: &mut [u8; 4])
        ensures
            final(dst)@ == self.spec_apply(src@, old(dst)@),
    {
        self.to_subpixel_map(src, dst);
    }

    /// True if the rule copies its target channel to itself.
    pub fn is_noop(&self) -> (r: bool)
        ensures
            r == self.spec_is_noop(),
    {
        match self.data {
            ChannelSwizzleData::Source { neg_flag, source } => !neg_flag && source == self.target,
            ChannelSwizzleData::Fill { .. } => false,
        }
    }
}

impl Default for ArgbSwizzle {
    fn default() -> (s: Self)
        ensures
            s == ArgbSwizzle::spec_new(),
    {
        ArgbSwizzle::new()
    }
}

impl ArgbSwizzle {
    /// The swizzle that copies every channel to itself.
    pub open spec fn spec_new() -> ArgbSwizzle {
        ArgbSwizzle {
            a: ChannelSwizzle {
                target: ChannelSwizzleId::Alpha,
                data: ChannelSwizzleData::Source {
                    neg_flag: false,
                    source: ChannelSwizzleId::Alpha,
                },
            },
            r: ChannelSwizzle {
                target: ChannelSwizzleId::Red,
                data: ChannelSwizzleData::Source { neg_flag: false, source: ChannelSwizzleId::Red },
            },
            g: ChannelSwizzle {
                target: ChannelSwizzleId::Green,
                data: ChannelSwizzleData::Source {
                    neg_flag: false,
                    source: ChannelSwizzleId::Green,
                },
            },
            b: ChannelSwizzle {
                target: ChannelSwizzleId::Blue,
                data: ChannelSwizzleData::Source { neg_flag: false, source: ChannelSwizzleId::Blue },
            },
        }
    }

    /// Whether each rule targets the channel of its field.
    pub open spec fn spec_targets_in_place(self) -> bool {
        &&& self.a.target == ChannelSwizzleId::Alpha
        &&& self.r.target == ChannelSwizzleId::Red
        &&& self.g.target == ChannelSwizzleId::Green
        &&& self.b.target == ChannelSwizzleId::Blue
    }

    /// The four bytes of the swizzle on the wire: the rules for alpha, red,
    /// green and blue.
    pub open spec fn spec_bytes(self) -> Seq<u8> {
        seq![
            self.a.data.spec_byte(),
            self.r.data.spec_byte(),
            self.g.data.spec_byte(),
            self.b.data.spec_byte(),
        ]
    }

    /// The swizzle four bytes hold, if each holds a rule.
    pub open spec fn spec_from_bytes(b: Seq<u8>) -> Option<ArgbSwizzle> {
        if ChannelSwizzleData::spec_from_byte(b[0]) is Some && ChannelSwizzleData::spec_from_byte(
            b[1],
        ) is Some && ChannelSwizzleData::spec_from_byte(b[2]) is Some
            && ChannelSwizzleData::spec_from_byte(b[3]) is Some {
            Some(
                ArgbSwizzle {
                    a: ChannelSwizzle {
                        target: ChannelSwizzleId::Alpha,
                        data: ChannelSwizzleData::spec_from_byte(b[0])->Some_0,
                    },
                    r: ChannelSwizzle {
                        target: ChannelSwizzleId::Red,
                        data: ChannelSwizzleData::spec_from_byte(b[1])->Some_0,
                    },
                    g: ChannelSwizzle {
                        target: ChannelSwizzleId::Green,
                        data: ChannelSwizzleData::spec_from_byte(b[2])->Some_0,
                    },
                    b: ChannelSwizzle {
                        target: ChannelSwizzleId::Blue,
                        data: ChannelSwizzleData::spec_from_byte(b[3])->Some_0,
                    },
                },
            )
        } else {
            None
        }
    }

    /// The pixel the swizzle makes of `src`: the rules for alpha, red, green
    /// and blue write in turn into a copy of `src`, each reading `src`.
    pub open spec fn spec_map(self, src: Seq<u8>) -> Seq<u8> {
        self.b.spec_apply(
            src,
            self.g.spec_apply(src, self.r.spec_apply(src, self.a.spec_apply(src, src))),
        )
    }

    pub open spec fn spec_is_noop(self) -> bool {
        self.a.spec_is_noop() && self.r.spec_is_noop() && self.g.spec_is_noop()
            && self.b.spec_is_noop()
    }

    /// The swizzle that copies every channel to itself.
    pub fn new() -> (s: Self)
        ensures
            s == Self::spec_new(),
    {
        ArgbSwizzle {
            a: ChannelSwizzle::with_target(ChannelSwizzleId::Alpha),
            r: ChannelSwizzle::with_target(ChannelSwizzleId::Red),
            g: ChannelSwizzle::with_target(ChannelSwizzleId::Green),
            b: ChannelSwizzle::with_target(ChannelSwizzleId::Blue),
        }
    }

    /// Parses the rules for alpha, red, green and blue. The first text that
    /// is no rule fails the call with `InvalidSwizzleString`.
    pub fn parse_argb(a: &str, r: &str, g: &str, b: &str) -> (res: PaaResult<Self>)
        ensures
            spec_parse_data(a@) is Some && spec_parse_data(r@) is Some && spec_parse_data(g@) is Some
                && spec_parse_data(b@) is Some ==> res == Ok::<ArgbSwizzle, PaaError>(
                ArgbSwizzle {
                    a: ChannelSwizzle {
                        target: ChannelSwizzleId::Alpha,
                        data: spec_parse_data(a@)->Some_0,
                    },
                    r: ChannelSwizzle {
                        target: ChannelSwizzleId::Red,
                        data: spec_parse_data(r@)->Some_0,
                    },
                    g: ChannelSwizzle {
                        target: ChannelSwizzleId::Green,
                        data: spec_parse_data(g@)->Some_0,
                    },
                    b: ChannelSwizzle {
                        target: ChannelSwizzleId::Blue,
                        data: spec_parse_data(b@)->Some_0,
                    },
                },
            ),
            !(spec_parse_data(a@) is Some && spec_parse_data(r@) is Some && spec_parse_data(g@) is Some
                && spec_parse_data(b@) is Some) ==> res is Err && res->Err_0 is InvalidSwizzleString
                && res->Err_0->InvalidSwizzleString_0@ == (if spec_parse_data(a@) is None {
                a@
            } else if spec_parse_data(r@) is None {
                r@
            } else if spec_parse_data(g@) is None {
                g@
            } else {
                b@
            }),
    {
        let a = match ChannelSwizzle::parse_data_with_target(a, ChannelSwizzleId::Alpha) {
            Ok(s) => s,
            Err(e) => {
                return Err(e);
            },
        };
        let r = match ChannelSwizzle::parse_data_with_target(r, ChannelSwizzleId::Red) {
            Ok(s) => s,
            Err(e) => {
                return Err(e);
            },
        };
        let g = match ChannelSwizzle::parse_data_with_target(g, ChannelSwizzleId::Green) {
            Ok(s) => s,
            Err(e) => {
                return Err(e);
            },
        };
        let b = match ChannelSwizzle::parse_data_with_target(b, ChannelSwizzleId::Blue) {
            Ok(s) => s,
            Err(e) => {
                return Err(e);
            },
        };
        Ok(ArgbSwizzle { a, r, g, b })
    }

    /// The pixel the swizzle makes of `src`.
    pub fn to_rgba8_map(&self, src: &[u8; 4]) -> (dst: [u8; 4])
        ensures
            dst@ == self.spec_map(src@),
    {
        let mut dst: [u8; 4] = *src;
        self.a.to_subpixel_map(src, &mut dst);
        self.r.to_subpixel_map(src, &mut dst);
        self.g.to_subpixel_map(src, &mut dst);
        self.b.to_subpixel_map(src, &mut dst);
        dst
    }

    /// The pixel the swizzle makes of `src`, as [`ArgbSwizzle::to_rgba8_map`]
    /// gives it.
    pub fn as_rgba8_filter(&self, src: &[u8; 4]) -> (dst: [u8; 4])
        ensures
            dst@ == self.spec_map(src@),
    {
        self.to_rgba8_map(src)
    }

    /// True if every rule copies its target channel to itself.
    pub fn is_noop(&self) -> (r: bool)
        ensures
            r == self.spec_is_noop(),
    {
        self.a.is_noop() && self.r.is_noop() && self.g.is_noop() && self.b.is_noop()
    }

    /// The four bytes of the swizzle on the wire.
    pub fn to_bytes(&self) -> (out: [u8; 4])
        ensures
            out@ == self.spec_bytes(),
    {
        let out = [
            self.a.data.to_byte(),
            self.r.data.to_byte(),
            self.g.data.to_byte(),
            self.b.data.to_byte(),
        ];
        assert(out@ =~= self.spec_bytes());
        out
    }

    /// The swizzle four bytes hold, if each holds a rule.
    pub fn from_bytes(bytes: &[u8; 4]) -> (s: Option<Self>)
        ensures
            s == Self::spec_from_bytes(bytes@),
    {
        let a = match ChannelSwizzleData::from_byte(bytes[0]) {
            Some(d) => d,
            None => {
                return None;
            },
        };
        let r = match ChannelSwizzleData::from_byte(bytes[1]) {
            Some(d) => d,
            None => {
                return None;
            },
        };
        let g = match ChannelSwizzleData::from_byte(bytes[2]) {
            Some(d) => d,
            None => {
                return None;
            },
        };
        let b = match ChannelSwizzleData::from_byte(bytes[3]) {
            Some(d) => d,
            None => {
                return None;
            },
        };
        Some(
            ArgbSwizzle {
                a: ChannelSwizzle { target: ChannelSwizzleId::Alpha, data: a },
                r: ChannelSwizzle { target: ChannelSwizzleId::Red, data: r },
                g: ChannelSwizzle { target: ChannelSwizzleId::Green, data: g },
                b: ChannelSwizzle { target: ChannelSwizzleId::Blue, data: b },
            },
        )
    }
}

impl ChannelSwizzleId {
    /// The letter that stands for the channel in texts.
    pub open spec fn spec_letter(self) -> Seq<char> {
        match self {
            ChannelSwizzleId::Alpha => "a"@,
            ChannelSwizzleId::Red => "r"@,
            ChannelSwizzleId::Green => "g"@,
            ChannelSwizzleId::Blue => "b"@,
        }
    }

    /// The letter that stands for the channel in texts.
    pub fn letter(&self) -> (t: &'static str)
        ensures
            t@ == self.spec_letter(),
    {
        match self {
            ChannelSwizzleId::Alpha => "a",
            ChannelSwizzleId::Red => "r",
            ChannelSwizzleId::Green => "g",
            ChannelSwizzleId::Blue => "b",
        }
    }
}

impl ChannelSwizzleFill {
    /// The digit that stands for the constant in texts.
    pub open spec fn spec_digit(self) -> Seq<char> {
        match self {
            ChannelSwizzleFill::FillFF => "1"@,
            ChannelSwizzleFill::Fill00 => "0"@,
        }
    }

    /// The digit that stands for the constant in texts.
    pub fn digit(&self) -> (t: &'static str)
        ensures
            t@ == self.spec_digit(),
    {
        match self {
            ChannelSwizzleFill::FillFF => "1",
            ChannelSwizzleFill::Fill00 => "0",
        }
    }
}

impl ChannelSwizzleData {
    /// The rule as text: the letter of the source channel, after `1-` where
    /// it is inverted, or the digit of the constant.
    pub open spec fn spec_text(self) -> Seq<char> {
        match self {
            ChannelSwizzleData::Source { neg_flag, source } => if neg_flag {
                "1-"@ + source.spec_letter()
            } else {
                source.spec_letter()
            },
            ChannelSwizzleData::Fill { value } => value.spec_digit(),
        }
    }

    /// The rule as text.
    pub fn to_text(&self) -> (t: String)
        ensures
            t@ == self.spec_text(),
    {
        match self {
            ChannelSwizzleData::Source { neg_flag, source } => {
                if *neg_flag {
                    let mut t = String::from_str("1-");
                    t.append(source.letter());
                    t
                } else {
                    String::from_str(source.letter())
                }
            },
            ChannelSwizzleData::Fill { value } => String::from_str(value.digit()),
        }
    }
}

impl ChannelSwizzle {
    /// The rule with its target as text: `<target=rule>`.
    pub open spec fn spec_text(self) -> Seq<char> {
        "<"@ + self.target.spec_letter() + "="@ + self.data.spec_text() + ">"@
    }

    /// The rule with its target as text.
    pub fn to_text(&self) -> (t: String)
        ensures
            t@ == self.spec_text(),
    {
        let mut t = String::from_str("<");
        t.append(self.target.letter());
        t.append("=");
        let rule = self.data.to_text();
        t.append(rule.as_str());
        t.append(">");
        t
    }
}

impl ArgbSwizzle {
    /// The swizzle as text: `(no-op)` where it changes nothing, else its
    /// four rules.
    pub open spec fn spec_text(self) -> Seq<char> {
        if self.spec_is_noop() {
            "(no-op)"@
        } else {
            self.a.spec_text() + ", "@ + self.r.spec_text() + ", "@ + self.g.spec_text() + ", "@
                + self.b.spec_text()
        }
    }

    /// The swizzle as text.
    pub fn to_text(&self) -> (t: String)
        ensures
            t@ == self.spec_text(),
    {
        if self.is_noop() {
            return String::from_str("(no-op)");
        }
        let mut t = self.a.to_text();
        t.append(", ");
        let r = self.r.to_text();
        t.append(r.as_str());
        t.append(", ");
        let g = self.g.to_text();
        t.append(g.as_str());
        t.append(", ");
        let b = self.b.to_text();
        t.append(b.as_str());
        t
    }
}

/// A rule read back from its byte is the rule.
pub proof fn lemma_swizzle_byte_round_trip(d: ChannelSwizzleData)
    ensures
        ChannelSwizzleData::spec_from_byte(d.spec_byte()) == Some(d),
{
}

/// A swizzle whose rules target the channels of their fields, read back
/// from its bytes, is the swizzle.
pub proof fn lemma_swizzle_round_trip(s: ArgbSwizzle)
    requires
        s.spec_targets_in_place(),
    ensures
        ArgbSwizzle::spec_from_bytes(s.spec_bytes()) == Some(s),
{
    lemma_swizzle_byte_round_trip(s.a.data);
    lemma_swizzle_byte_round_trip(s.r.data);
    lemma_swizzle_byte_round_trip(s.g.data);
    lemma_swizzle_byte_round_trip(s.b.data);
}

/// The swizzle that copies every channel to itself changes no pixel.
pub proof fn lemma_noop_swizzle_keeps_pixel(s: ArgbSwizzle, src: Seq<u8>)
    requires
        s.spec_is_noop(),
        src.len() == 4,
    ensures
        s.spec_map(src) == src,
{
    assert(s.spec_map(src) =~= src);
}

} // verus!
