//! Encoding settings by texture kind, where the kind is the suffix of the
//! texture's file name.

use vstd::prelude::*;
use vstd::string::StrSliceExecFns;
use crate::encode::TextureEncodingSettings;

verus! {

/// What `str::to_uppercase` of the standard library makes of a text.
pub uninterp spec fn spec_uppercase(s: Seq<char>) -> Seq<char>;

/// `str::to_uppercase` of the standard library: the upper-case equivalent of
/// the text as a new string.
#[verifier::external_body]
pub(crate) fn str_to_uppercase(s: &str) -> (r: String)
    ensures
        r@ == spec_uppercase(s@),
{
    s.to_uppercase()
}

/// `String::push` of the standard library: appends the character.
#[verifier::external_body]
pub(crate) fn string_push(s: &mut String, c: char)
    ensures
        final(s)@ == old(s)@.push(c),
{
    s.push(c)
}

/// `Path::file_stem` of the standard library on the path spelled by `path`,
/// where the stem is valid text. What counts as a separator depends on the
/// platform, so nothing is claimed of the result. The stem comes as a string
/// of the platform, a type that only this body can name, so the steps from
/// text to path and from the stem back to text stand beside the call.
#[verifier::external_body]
pub(crate) fn path_file_stem(path: &str) -> (stem: Option<String>)
{
    match std::path::Path::new(path).file_stem() {
        Some(stem) => match stem.to_str() {
            Some(text) => Some(text.to_string()),
            None => None,
        },
        None => None,
    }
}

/// The index of the last `_` among the first `n` characters of `s`, or -1.
pub open spec fn spec_last_underscore(s: Seq<char>, n: int) -> int
    decreases n,
{
    if n <= 0 {
        -1
    } else if s[n - 1] == '_' {
        n - 1
    } else {
        spec_last_underscore(s, n - 1)
    }
}

/// The texture kind a file stem names: what follows its last `_`, in upper
/// case; none without a `_`.
pub open spec fn spec_suffix_of_stem(stem: Seq<char>) -> Option<Seq<char>> {
    let k = spec_last_underscore(stem, stem.len() as int);
    if k < 0 {
        None
    } else {
        Some(spec_uppercase(stem.skip(k + 1)))
    }
}

/// The texture kind a file stem names.
pub fn suffix_of_stem(stem: &str) -> (res: Option<String>)
    ensures
        match spec_suffix_of_stem(stem@) {
            Some(s) => res is Some && res->Some_0@ == s,
            None => res is None,
        },
{
    let n = stem.unicode_len();
    let mut i: usize = n;
    while i > 0
        invariant
            i <= n,
            n == stem@.len(),
            spec_last_underscore(stem@, i as int) == spec_last_underscore(stem@, n as int),
        decreases i,
    {
        if stem.get_char(i - 1) == '_' {
            let tail = stem.substring_char(i, n);
            assert(tail@ =~= stem@.skip(i as int));
            return Some(str_to_uppercase(tail));
        }
        i = i - 1;
    }
    None
}

/// The settings of each texture kind, in the order they were given. Where a
/// kind occurs twice the later entry counts.
#[derive(Debug)]
pub struct TextureHints {
    pub hints: Vec<(String, TextureEncodingSettings)>,
}

/// The settings the entries hold for a kind: those of the last entry with
/// that kind.
pub open spec fn spec_lookup(
    entries: Seq<(String, TextureEncodingSettings)>,
    suffix: Seq<char>,
) -> Option<TextureEncodingSettings>
    decreases entries.len(),
{
    if entries.len() == 0 {
        None
    } else if entries.last().0@ == suffix {
        Some(entries.last().1)
    } else {
        spec_lookup(entries.drop_last(), suffix)
    }
}

impl TextureHints {
    /// The hints made of the given entries.
    pub fn with_hints(hints: Vec<(String, TextureEncodingSettings)>) -> (h: Self)
        ensures
            h.hints == hints,
    {
        TextureHints { hints }
    }

    /// The settings for a texture kind, if there are any.
    pub fn get(&self, suffix: &str) -> (res: Option<TextureEncodingSettings>)
        ensures
            res == spec_lookup(self.hints@, suffix@),
    {
        let mut i: usize = self.hints.len();
        assert(self.hints@.take(i as int) =~= self.hints@);
        while i > 0
            invariant
                i <= self.hints@.len(),
                spec_lookup(self.hints@.take(i as int), suffix@) == spec_lookup(self.hints@, suffix@),
            decreases i,
        {
            assert(self.hints@.take(i as int).last() == self.hints@[i - 1]);
            assert(self.hints@.take(i as int).drop_last() =~= self.hints@.take(i - 1));
            if same_text(self.hints[i - 1].0.as_str(), suffix) {
                return Some(self.hints[i - 1].1);
            }
            i = i - 1;
        }
        assert(self.hints@.take(0) =~= Seq::<(String, TextureEncodingSettings)>::empty());
        None
    }

    /// The texture kind of a file: what follows the last `_` of its file
    /// stem, in upper case.
    pub fn texture_filename_to_suffix(path: &str) -> (res: Option<String>)
        ensures
            res is Some ==> exists|stem: Seq<char>| #[trigger]
                spec_suffix_of_stem(stem) == Some(res->Some_0@),
    {
        match path_file_stem(path) {
            Some(stem) => {
                let res = suffix_of_stem(stem.as_str());
                assert(res is Some ==> spec_suffix_of_stem(stem@) == Some(res->Some_0@));
                res
            },
            None => None,
        }
    }
}

/// Whether two texts are equal.
pub fn same_text(a: &str, b: &str) -> (r: bool)
    ensures
        r == (a@ == b@),
{
    let n = a.unicode_len();
    if n != b.unicode_len() {
        return false;
    }
    let mut i: usize = 0;
    while i < n
        invariant
            i <= n,
            n == a@.len(),
            n == b@.len(),
            forall|j: int| 0 <= j < i ==> a@[j] == b@[j],
        decreases n - i,
    {
        if a.get_char(i) != b.get_char(i) {
            return false;
        }
        i = i + 1;
    }
    assert(a@ =~= b@);
    true
}

} // verus!
