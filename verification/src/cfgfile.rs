//! The grammar of the configuration file that maps texture kinds to
//! settings: properties and classes in a C-like syntax, with comments.
//!
//! ```text
//! file     = { item ";" }
//! item     = property | class
//! property = ident "=" value
//! class    = "class" ident [ ":" ident ] "{" { item ";" } "}"
//! value    = integer | '"' text '"' | ident
//! ```
//!
//! White space and comments may stand around every token. A parsed file is
//! kept as the sequence of its properties and of the openings and closings
//! of its classes, in file order.

use vstd::prelude::*;
use vstd::string::{StrSliceExecFns, StringExecFns};
use unicode_xid::UnicodeXID;
use crate::error::{PaaError, PaaResult};
use crate::hints::{spec_uppercase, str_to_uppercase, string_push};

verus! {

/// Whether `UnicodeXID::is_xid_start` of unicode-xid holds of a character.
pub uninterp spec fn spec_xid_start(c: char) -> bool;

/// Whether `UnicodeXID::is_xid_continue` of unicode-xid holds of a character.
pub uninterp spec fn spec_xid_continue(c: char) -> bool;

/// `UnicodeXID::is_xid_start` of unicode-xid: whether the character may
/// start an identifier.
#[verifier::external_body]
pub(crate) fn is_xid_start(c: char) -> (r: bool)
    ensures
        r == spec_xid_start(c),
{
    UnicodeXID::is_xid_start(c)
}

/// `UnicodeXID::is_xid_continue` of unicode-xid: whether the character may
/// continue an identifier.
#[verifier::external_body]
pub(crate) fn is_xid_continue(c: char) -> (r: bool)
    ensures
        r == spec_xid_continue(c),
{
    UnicodeXID::is_xid_continue(c)
}

/// An identifier as the file spells it.
#[derive(Debug, PartialEq, Eq, Hash)]
pub struct ConfigIdent {
    pub inner: String,
}

/// The value of a property.
#[derive(Debug, PartialEq, Eq)]
pub enum ConfigValue {
    Integer(i32),
    Text(String),
    Ident(ConfigIdent),
}

/// A property: an identifier and its value.
#[derive(Debug, PartialEq, Eq)]
pub struct ConfigProperty {
    pub ident: ConfigIdent,
    pub value: ConfigValue,
}

/// One step through a parsed file.
#[derive(Debug, PartialEq, Eq)]
pub enum ConfigNode {
    /// A property of the class that is open, or of the file.
    Property(ConfigProperty),
    /// A class opens: its name and the name of the class it inherits from.
    ClassOpen { classname: ConfigIdent, inherit_classname: Option<ConfigIdent> },
    /// The class opened last closes.
    ClassClose,
}

/// The mathematical content of a [`ConfigValue`].
pub enum ValueView {
    Integer(i32),
    Text(Seq<char>),
    Ident(Seq<char>),
}

/// The mathematical content of a [`ConfigProperty`].
pub struct PropertyView {
    pub ident: Seq<char>,
    pub value: ValueView,
}

/// The mathematical content of a [`ConfigNode`].
pub enum NodeView {
    Property(PropertyView),
    ClassOpen { name: Seq<char>, parent: Option<Seq<char>> },
    ClassClose,
}

impl View for ConfigValue {
    type V = ValueView;

    open spec fn view(&self) -> ValueView {
        match self {
            ConfigValue::Integer(v) => ValueView::Integer(*v),
            ConfigValue::Text(t) => ValueView::Text(t@),
            ConfigValue::Ident(i) => ValueView::Ident(i.inner@),
        }
    }
}

impl View for ConfigProperty {
    type V = PropertyView;

    open spec fn view(&self) -> PropertyView {
        PropertyView { ident: self.ident.inner@, value: self.value@ }
    }
}

impl View for ConfigNode {
    type V = NodeView;

    open spec fn view(&self) -> NodeView {
        match self {
            ConfigNode::Property(p) => NodeView::Property(p@),
            ConfigNode::ClassOpen { classname, inherit_classname } => NodeView::ClassOpen {
                name: classname.inner@,
                parent: match inherit_classname {
                    Some(p) => Some(p.inner@),
                    None => None,
                },
            },
            ConfigNode::ClassClose => NodeView::ClassClose,
        }
    }
}

/// The views of the nodes of `nodes`.
pub open spec fn nodes_view(nodes: Seq<ConfigNode>) -> Seq<NodeView> {
    Seq::new(nodes.len(), |i: int| nodes[i]@)
}

/// Whether `c` is a blank: a space, a tab, a carriage return or a line feed.
pub open spec fn spec_is_blank(c: char) -> bool {
    c == ' ' || c == '\t' || c == '\r' || c == '\n'
}

/// The first index from `j` on that holds a carriage return or a line feed,
/// or the length of `s`.
pub open spec fn spec_line_end(s: Seq<char>, j: int) -> int
    decreases s.len() - j,
{
    if j >= s.len() {
        s.len() as int
    } else if s[j] == '\r' || s[j] == '\n' {
        j
    } else {
        spec_line_end(s, j + 1)
    }
}

/// The end of the line comment that starts at `i`: two slashes and the rest
/// of the line with its line feed. A carriage return ends the comment only
/// before a line feed; alone it spoils it.
pub open spec fn spec_line_comment(s: Seq<char>, i: int) -> Option<int> {
    if 0 <= i && i + 2 <= s.len() && s[i] == '/' && s[i + 1] == '/' {
        let e = spec_line_end(s, i + 2);
        if e >= s.len() {
            Some(s.len() as int)
        } else if s[e] == '\n' {
            Some(e + 1)
        } else if e + 1 < s.len() && s[e + 1] == '\n' {
            Some(e)
        } else {
            None
        }
    } else {
        None
    }
}

/// The first index from `j` on at which `*/` stands, or -1.
pub open spec fn spec_find_close(s: Seq<char>, j: int) -> int
    decreases s.len() - j,
{
    if j + 1 >= s.len() {
        -1
    } else if s[j] == '*' && s[j + 1] == '/' {
        j
    } else {
        spec_find_close(s, j + 1)
    }
}

/// The end of the block comment that starts at `i`: `/*`, anything, `*/`.
pub open spec fn spec_block_comment(s: Seq<char>, i: int) -> Option<int> {
    if 0 <= i && i + 2 <= s.len() && s[i] == '/' && s[i + 1] == '*' {
        let k = spec_find_close(s, i + 2);
        if k < 0 {
            None
        } else {
            Some(k + 2)
        }
    } else {
        None
    }
}

/// The position after the white space and comments that start at `i`.
pub open spec fn spec_skip(s: Seq<char>, i: int) -> int
    decreases s.len() - i,
{
    if i < 0 || i >= s.len() {
        i
    } else {
        match spec_line_comment(s, i) {
            Some(e) => if i < e <= s.len() {
                spec_skip(s, e)
            } else {
                i
            },
            None => match spec_block_comment(s, i) {
                Some(e) => if i < e <= s.len() {
                    spec_skip(s, e)
                } else {
                    i
                },
                None => if spec_is_blank(s[i]) {
                    spec_skip(s, i + 1)
                } else {
                    i
                },
            },
        }
    }
}

/// The first index from `j` on that holds no identifier character.
pub open spec fn spec_ident_end(s: Seq<char>, j: int) -> int
    decreases s.len() - j,
{
    if 0 <= j < s.len() && spec_xid_continue(s[j]) {
        spec_ident_end(s, j + 1)
    } else {
        j
    }
}

/// The identifier that starts at `i` and the position after it.
pub open spec fn spec_ident(s: Seq<char>, i: int) -> Option<(Seq<char>, int)> {
    if 0 <= i < s.len() && spec_xid_start(s[i]) {
        let e = spec_ident_end(s, i + 1);
        if i < e <= s.len() {
            Some((s.subrange(i, e), e))
        } else {
            None
        }
    } else {
        None
    }
}

/// Whether `c` is a decimal digit.
pub open spec fn spec_is_digit(c: char) -> bool {
    0x30 <= c as u32 <= 0x39
}

/// The first index from `j` on that holds no digit.
pub open spec fn spec_digits_end(s: Seq<char>, j: int) -> int
    decreases s.len() - j,
{
    if 0 <= j < s.len() && spec_is_digit(s[j]) {
        spec_digits_end(s, j + 1)
    } else {
        j
    }
}

/// The number that the digits `d` spell.
pub open spec fn spec_decimal(d: Seq<char>) -> nat
    decreases d.len(),
{
    if d.len() == 0 {
        0
    } else {
        10 * spec_decimal(d.drop_last()) + (d.last() as u32 - 0x30) as nat
    }
}

/// The integer that starts at `i`, with an optional sign, and the position
/// after it; none where there is no digit or the number does not fit 32
/// bits.
pub open spec fn spec_integer(s: Seq<char>, i: int) -> Option<(i32, int)> {
    if 0 <= i < s.len() {
        let signed = s[i] == '+' || s[i] == '-';
        let j = if signed {
            i + 1
        } else {
            i
        };
        let e = spec_digits_end(s, j);
        if j < e <= s.len() {
            let magnitude = spec_decimal(s.subrange(j, e)) as int;
            let v = if s[i] == '-' {
                -magnitude
            } else {
                magnitude
            };
            if -0x8000_0000 <= v <= 0x7FFF_FFFF {
                Some((v as i32, e))
            } else {
                None
            }
        } else {
            None
        }
    } else {
        None
    }
}

/// The first index from `j` on that holds a double quote, or -1.
pub open spec fn spec_find_quote(s: Seq<char>, j: int) -> int
    decreases s.len() - j,
{
    if j < 0 || j >= s.len() {
        -1
    } else if s[j] == '"' {
        j
    } else {
        spec_find_quote(s, j + 1)
    }
}

/// The quoted text that starts at `i` and the position after it.
pub open spec fn spec_quoted(s: Seq<char>, i: int) -> Option<(Seq<char>, int)> {
    if 0 <= i < s.len() && s[i] == '"' {
        let k = spec_find_quote(s, i + 1);
        if i < k < s.len() {
            Some((s.subrange(i + 1, k), k + 1))
        } else {
            None
        }
    } else {
        None
    }
}

/// The value that starts at `i` and the position after it: an integer, else
/// a quoted text, else an identifier.
pub open spec fn spec_value(s: Seq<char>, i: int) -> Option<(ValueView, int)> {
    match spec_integer(s, i) {
        Some((v, e)) => Some((ValueView::Integer(v), e)),
        None => match spec_quoted(s, i) {
            Some((t, e)) => Some((ValueView::Text(t), e)),
            None => match spec_ident(s, i) {
                Some((t, e)) => Some((ValueView::Ident(t), e)),
                None => None,
            },
        },
    }
}

/// The property that starts at `i` and the position after it and the white
/// space that follows it.
pub open spec fn spec_property(s: Seq<char>, i: int) -> Option<(PropertyView, int)> {
    match spec_ident(s, i) {
        None => None,
        Some((ident, a)) => {
            let b = spec_skip(s, a);
            if 0 <= b < s.len() && s[b] == '=' {
                let c = spec_skip(s, spec_skip(s, b + 1));
                match spec_value(s, c) {
                    Some((value, d)) => Some((PropertyView { ident, value }, spec_skip(s, d))),
                    None => None,
                }
            } else {
                None
            }
        },
    }
}

/// Whether the word `class` stands at `i`.
pub open spec fn spec_class_word(s: Seq<char>, i: int) -> bool {
    0 <= i && i + 5 <= s.len() && s[i] == 'c' && s[i + 1] == 'l' && s[i + 2] == 'a' && s[i + 3]
        == 's' && s[i + 4] == 's'
}

/// The name of the parent class announced at `c`, after a colon, and the
/// position after it; none and `c` where none is announced.
pub open spec fn spec_parent(s: Seq<char>, c: int) -> (Option<Seq<char>>, int) {
    let c1 = spec_skip(s, c);
    if 0 <= c1 < s.len() && s[c1] == ':' {
        match spec_ident(s, spec_skip(s, spec_skip(s, c1 + 1))) {
            Some((name, q)) => (Some(name), spec_skip(s, q)),
            None => (None, c),
        }
    } else {
        (None, c)
    }
}

/// The nodes of the item that starts at `i` and the position after it.
pub open spec fn spec_item(s: Seq<char>, i: int) -> Option<(Seq<NodeView>, int)>
    decreases s.len() - i, 1int,
{
    match spec_property(s, i) {
        Some((p, e)) => Some((seq![NodeView::Property(p)], e)),
        None => spec_class(s, i),
    }
}

/// The nodes of the class that starts at `i` and the position after it.
pub open spec fn spec_class(s: Seq<char>, i: int) -> Option<(Seq<NodeView>, int)>
    decreases s.len() - i, 0int,
{
    if spec_class_word(s, i) {
        match spec_ident(s, spec_skip(s, i + 5)) {
            None => None,
            Some((name, b)) => {
                let (parent, d) = spec_parent(s, spec_skip(s, b));
                let e = spec_skip(s, d);
                if i < e < s.len() && s[e] == '{' {
                    let (children, g) = spec_items(s, spec_skip(s, e + 1), e + 1);
                    if 0 <= g < s.len() && s[g] == '}' {
                        Some(
                            (
                                seq![NodeView::ClassOpen { name, parent }] + children
                                    + seq![NodeView::ClassClose],
                                g + 1,
                            ),
                        )
                    } else {
                        None
                    }
                } else {
                    None
                }
            },
        }
    } else {
        None
    }
}

/// The nodes of the items that start at `i`, each followed by a semicolon,
/// and the position after the last of them. `floor` is a position at or
/// before `i` that every item lies after.
pub open spec fn spec_items(s: Seq<char>, i: int, floor: int) -> (Seq<NodeView>, int)
    decreases s.len() - floor, 2int,
{
    let a = spec_skip(s, i);
    if 0 <= floor <= i <= a <= s.len() {
        match spec_item(s, a) {
            None => (Seq::<NodeView>::empty(), i),
            Some((nodes, b)) => {
                let c = spec_skip(s, spec_skip(s, b));
                if a < c < s.len() && s[c] == ';' {
                    let d = spec_skip(s, c + 1);
                    let (rest, e) = spec_items(s, d, c + 1);
                    (nodes + rest, e)
                } else {
                    (Seq::<NodeView>::empty(), i)
                }
            },
        }
    } else {
        (Seq::<NodeView>::empty(), i)
    }
}

/// The nodes of a whole file, where it follows the grammar to its end.
pub open spec fn spec_file(s: Seq<char>) -> Option<Seq<NodeView>> {
    let (nodes, e) = spec_items(s, 0, 0);
    if e == s.len() {
        Some(nodes)
    } else {
        None
    }
}

impl Clone for ConfigIdent {
    fn clone(&self) -> (c: Self)
        ensures
            c.inner@ == self.inner@,
    {
        ConfigIdent { inner: self.inner.clone() }
    }
}

impl Clone for ConfigValue {
    fn clone(&self) -> (c: Self)
        ensures
            c@ == self@,
    {
        match self {
            ConfigValue::Integer(v) => ConfigValue::Integer(*v),
            ConfigValue::Text(t) => ConfigValue::Text(t.clone()),
            ConfigValue::Ident(i) => ConfigValue::Ident(i.clone()),
        }
    }
}

impl Clone for ConfigProperty {
    fn clone(&self) -> (c: Self)
        ensures
            c@ == self@,
    {
        ConfigProperty { ident: self.ident.clone(), value: self.value.clone() }
    }
}

impl ConfigIdent {
    /// The identifier spelled `inner`.
    pub fn from(inner: &str) -> (id: Self)
        ensures
            id.inner@ == inner@,
    {
        ConfigIdent { inner: String::from_str(inner) }
    }

    /// The identifier in upper case.
    pub fn normalized(self) -> (id: Self)
        ensures
            id.inner@ == spec_uppercase(self.inner@),
    {
        ConfigIdent { inner: str_to_uppercase(self.inner.as_str()) }
    }

    /// Whether the identifier is `other` up to case.
    pub fn is(&self, other: &str) -> (r: bool)
        ensures
            r == (spec_uppercase(self.inner@) == spec_uppercase(other@)),
    {
        let a = str_to_uppercase(self.inner.as_str());
        let b = str_to_uppercase(other);
        crate::hints::same_text(a.as_str(), b.as_str())
    }
}

impl ConfigValue {
    /// The value with an identifier in upper case.
    pub fn normalized(self) -> (v: Self)
        ensures
            v@ == (match self@ {
                ValueView::Ident(t) => ValueView::Ident(spec_uppercase(t)),
                other => other,
            }),
    {
        match self {
            ConfigValue::Ident(i) => ConfigValue::Ident(i.normalized()),
            other => other,
        }
    }
}

impl ConfigProperty {
    /// The property with its identifier, and a value that is an identifier,
    /// in upper case.
    pub fn normalized(self) -> (p: Self)
        ensures
            p@.ident == spec_uppercase(self@.ident),
            p@.value == (match self@.value {
                ValueView::Ident(t) => ValueView::Ident(spec_uppercase(t)),
                other => other,
            }),
    {
        ConfigProperty { ident: self.ident.normalized(), value: self.value.normalized() }
    }

    /// The text of the value, if it is a quoted text.
    pub fn try_into_string(&self) -> (r: Option<String>)
        ensures
            match self@.value {
                ValueView::Text(t) => r is Some && r->Some_0@ == t,
                _ => r is None,
            },
    {
        match &self.value {
            ConfigValue::Text(s) => Some(s.clone()),
            _ => None,
        }
    }

    /// The identifier of the value, if it is one.
    pub fn try_into_ident(&self) -> (r: Option<ConfigIdent>)
        ensures
            match self@.value {
                ValueView::Ident(t) => r is Some && r->Some_0.inner@ == t,
                _ => r is None,
            },
    {
        match &self.value {
            ConfigValue::Ident(i) => Some(i.clone()),
            _ => None,
        }
    }

    /// Whether the value is an integer other than zero, if it is an integer.
    pub fn try_into_bool(&self) -> (r: Option<bool>)
        ensures
            r == (match self@.value {
                ValueView::Integer(v) => Some(v != 0),
                _ => None,
            }),
    {
        match &self.value {
            ConfigValue::Integer(i) => Some(*i != 0),
            _ => None,
        }
    }
}

/// The identifier made of a first character and those that follow it.
pub fn construct_ident(args: (char, Vec<char>)) -> (id: ConfigIdent)
    ensures
        id.inner@ == seq![args.0] + args.1@,
{
    let (start, cont) = args;
    let mut inner = String::new();
    string_push(&mut inner, start);
    let mut i: usize = 0;
    assert(inner@ =~= seq![start] + cont@.take(0));
    while i < cont.len()
        invariant
            i <= cont@.len(),
            inner@ == seq![start] + cont@.take(i as int),
        decreases cont@.len() - i,
    {
        string_push(&mut inner, cont[i]);
        assert(inner@ =~= seq![start] + cont@.take(i + 1));
        i = i + 1;
    }
    assert(cont@.take(cont@.len() as int) =~= cont@);
    ConfigIdent { inner }
}

/// The characters of a text.
pub fn chars_of(text: &str) -> (chars: Vec<char>)
    ensures
        chars@ == text@,
{
    let n = text.unicode_len();
    let mut chars: Vec<char> = Vec::new();
    let mut i: usize = 0;
    while i < n
        invariant
            i <= n,
            n == text@.len(),
            chars@ == text@.take(i as int),
        decreases n - i,
    {
        chars.push(text.get_char(i));
        assert(chars@ =~= text@.take(i + 1));
        i = i + 1;
    }
    assert(text@.take(n as int) =~= text@);
    chars
}

/// The text made of the characters of `s` from `from` to `to`.
pub fn text_of(s: &Vec<char>, from: usize, to: usize) -> (text: String)
    requires
        from <= to <= s@.len(),
    ensures
        text@ == s@.subrange(from as int, to as int),
{
    let mut text = String::new();
    let mut i: usize = from;
    assert(text@ =~= s@.subrange(from as int, from as int));
    while i < to
        invariant
            from <= i <= to,
            to <= s@.len(),
            text@ == s@.subrange(from as int, i as int),
        decreases to - i,
    {
        string_push(&mut text, s[i]);
        assert(text@ =~= s@.subrange(from as int, i + 1));
        i = i + 1;
    }
    text
}

/// The end of the line comment that starts at `i`, if one does.
pub fn line_comment(s: &Vec<char>, i: usize) -> (r: Option<usize>)
    ensures
        match spec_line_comment(s@, i as int) {
            Some(e) => r is Some && r->Some_0 == e && i < e <= s@.len(),
            None => r is None,
        },
{
    let n = s.len();
    if !(n >= 2 && i <= n - 2 && s[i] == '/' && s[i + 1] == '/') {
        return None;
    }
    let mut j: usize = i + 2;
    while j < n && s[j] != '\r' && s[j] != '\n'
        invariant
            i + 2 <= j <= n,
            n == s@.len(),
            spec_line_end(s@, j as int) == spec_line_end(s@, i + 2),
        decreases n - j,
    {
        j = j + 1;
    }
    if j >= n {
        Some(n)
    } else if s[j] == '\n' {
        Some(j + 1)
    } else if j + 1 < n && s[j + 1] == '\n' {
        Some(j)
    } else {
        None
    }
}

/// The end of the block comment that starts at `i`, if one does.
pub fn block_comment(s: &Vec<char>, i: usize) -> (r: Option<usize>)
    ensures
        match spec_block_comment(s@, i as int) {
            Some(e) => r is Some && r->Some_0 == e && i < e <= s@.len(),
            None => r is None,
        },
{
    let n = s.len();
    if !(n >= 2 && i <= n - 2 && s[i] == '/' && s[i + 1] == '*') {
        return None;
    }
    let mut j: usize = i + 2;
    while n - j > 1 && !(s[j] == '*' && s[j + 1] == '/')
        invariant
            i + 2 <= j <= n,
            n == s@.len(),
            spec_find_close(s@, j as int) == spec_find_close(s@, i + 2),
        decreases n - j,
    {
        j = j + 1;
    }
    if n - j > 1 {
        Some(j + 2)
    } else {
        None
    }
}

/// Whether `c` is a blank.
pub fn is_blank(c: char) -> (r: bool)
    ensures
        r == spec_is_blank(c),
{
    c == ' ' || c == '\t' || c == '\r' || c == '\n'
}

/// The position after the white space and comments that start at `i`.
pub fn skip(s: &Vec<char>, i: usize) -> (e: usize)
    requires
        i <= s@.len(),
    ensures
        e == spec_skip(s@, i as int),
        i <= e <= s@.len(),
{
    let n = s.len();
    let mut j: usize = i;
    loop
        invariant_except_break
            spec_skip(s@, j as int) == spec_skip(s@, i as int),
        invariant
            i <= j <= n,
            n == s@.len(),
        ensures
            j == spec_skip(s@, i as int),
        decreases n - j,
    {
        if j >= n {
            break ;
        }
        match line_comment(s, j) {
            Some(e) => {
                j = e;
            },
            None => match block_comment(s, j) {
                Some(e) => {
                    j = e;
                },
                None => {
                    if is_blank(s[j]) {
                        j = j + 1;
                    } else {
                        break ;
                    }
                },
            },
        }
    }
    j
}

/// The identifier that starts at `i` and the position after it.
pub fn ident_at(s: &Vec<char>, i: usize) -> (r: Option<(ConfigIdent, usize)>)
    ensures
        match spec_ident(s@, i as int) {
            Some((t, e)) => r is Some && r->Some_0.0.inner@ == t && r->Some_0.1 == e && i < e
                <= s@.len(),
            None => r is None,
        },
{
    let n = s.len();
    if !(i < n && is_xid_start(s[i])) {
        return None;
    }
    let mut j: usize = i + 1;
    while j < n && is_xid_continue(s[j])
        invariant
            i < j <= n,
            n == s@.len(),
            spec_ident_end(s@, j as int) == spec_ident_end(s@, i + 1),
        decreases n - j,
    {
        j = j + 1;
    }
    Some((ConfigIdent { inner: text_of(s, i, j) }, j))
}

/// Whether `c` is a decimal digit.
pub fn is_digit(c: char) -> (r: bool)
    ensures
        r == spec_is_digit(c),
{
    let u: u32 = c as u32;
    0x30 <= u && u <= 0x39
}

/// The integer that starts at `i` and the position after it.
pub fn integer_at(s: &Vec<char>, i: usize) -> (r: Option<(i32, usize)>)
    ensures
        match spec_integer(s@, i as int) {
            Some((v, e)) => r is Some && r->Some_0.0 == v && r->Some_0.1 == e && i < e <= s@.len(),
            None => r is None,
        },
{
    let n = s.len();
    if i >= n {
        return None;
    }
    let negative = s[i] == '-';
    let start: usize = if s[i] == '+' || s[i] == '-' {
        i + 1
    } else {
        i
    };
    let mut j: usize = start;
    let mut acc: u64 = 0;
    let mut over = false;
    assert(s@.subrange(start as int, start as int) =~= Seq::<char>::empty());
    while j < n && is_digit(s[j])
        invariant
            start <= j <= n,
            n == s@.len(),
            spec_digits_end(s@, j as int) == spec_digits_end(s@, start as int),
            !over ==> acc == spec_decimal(s@.subrange(start as int, j as int)) && acc
                <= 0x8000_0000,
            over ==> spec_decimal(s@.subrange(start as int, j as int)) > 0x8000_0000,
        decreases n - j,
    {
        let digit: u64 = (s[j] as u32 - 0x30) as u64;
        proof {
            let next = s@.subrange(start as int, j + 1);
            assert(next.drop_last() =~= s@.subrange(start as int, j as int));
            assert(next.last() == s@[j as int]);
        }
        if !over {
            acc = acc * 10 + digit;
            if acc > 0x8000_0000 {
                over = true;
            }
        }
        j = j + 1;
    }
    if j == start || over {
        return None;
    }
    if negative {
        let v: i64 = -(acc as i64);
        Some((v as i32, j))
    } else {
        if acc > 0x7FFF_FFFF {
            return None;
        }
        Some((acc as i32, j))
    }
}

/// The quoted text that starts at `i` and the position after it.
pub fn quoted_at(s: &Vec<char>, i: usize) -> (r: Option<(String, usize)>)
    ensures
        match spec_quoted(s@, i as int) {
            Some((t, e)) => r is Some && r->Some_0.0@ == t && r->Some_0.1 == e && i < e <= s@.len(),
            None => r is None,
        },
{
    let n = s.len();
    if !(i < n && s[i] == '"') {
        return None;
    }
    let mut j: usize = i + 1;
    while j < n && s[j] != '"'
        invariant
            i < j <= n,
            n == s@.len(),
            spec_find_quote(s@, j as int) == spec_find_quote(s@, i + 1),
        decreases n - j,
    {
        j = j + 1;
    }
    if j >= n {
        return None;
    }
    Some((text_of(s, i + 1, j), j + 1))
}

/// The value that starts at `i` and the position after it.
pub fn value_at(s: &Vec<char>, i: usize) -> (r: Option<(ConfigValue, usize)>)
    ensures
        match spec_value(s@, i as int) {
            Some((v, e)) => r is Some && r->Some_0.0@ == v && r->Some_0.1 == e && i < e <= s@.len(),
            None => r is None,
        },
{
    match integer_at(s, i) {
        Some((v, e)) => {
            Some((ConfigValue::Integer(v), e))
        },
        None => match quoted_at(s, i) {
            Some((t, e)) => {
                Some((ConfigValue::Text(t), e))
            },
            None => match ident_at(s, i) {
                Some((id, e)) => {
                    Some((ConfigValue::Ident(id), e))
                },
                None => None,
            },
        },
    }
}

/// The property that starts at `i` and the position after it and the white
/// space that follows it.
pub fn property_at(s: &Vec<char>, i: usize) -> (r: Option<(ConfigProperty, usize)>)
    ensures
        match spec_property(s@, i as int) {
            Some((p, e)) => r is Some && r->Some_0.0@ == p && r->Some_0.1 == e && i < e <= s@.len(),
            None => r is None,
        },
{
    let (ident, a) = match ident_at(s, i) {
        Some(found) => found,
        None => {
            return None;
        },
    };
    let b = skip(s, a);
    if !(b < s.len() && s[b] == '=') {
        return None;
    }
    let c = skip(s, skip(s, b + 1));
    match value_at(s, c) {
        Some((value, d)) => Some((ConfigProperty { ident, value }, skip(s, d))),
        None => None,
    }
}

/// The name of the parent class announced at `c` and the position after it.
fn parent_at(s: &Vec<char>, c: usize) -> (r: (Option<ConfigIdent>, usize))
    requires
        c <= s@.len(),
    ensures
        r.1 == spec_parent(s@, c as int).1,
        c <= r.1 <= s@.len(),
        match spec_parent(s@, c as int).0 {
            Some(t) => r.0 is Some && r.0->Some_0.inner@ == t,
            None => r.0 is None,
        },
{
    let c1 = skip(s, c);
    if c1 < s.len() && s[c1] == ':' {
        match ident_at(s, skip(s, skip(s, c1 + 1))) {
            Some((name, q)) => (Some(name), skip(s, q)),
            None => (None, c),
        }
    } else {
        (None, c)
    }
}

/// The nodes of the item that starts at `i` and the position after it.
pub fn item_at(s: &Vec<char>, i: usize) -> (r: Option<(Vec<ConfigNode>, usize)>)
    requires
        i <= s@.len(),
    ensures
        match spec_item(s@, i as int) {
            Some((nodes, e)) => r is Some && nodes_view(r->Some_0.0@) == nodes && r->Some_0.1 == e
                && i < e <= s@.len(),
            None => r is None,
        },
    decreases s@.len() - i, 1int,
{
    match property_at(s, i) {
        Some((p, e)) => {
            let ghost pv = p@;
            let nodes: Vec<ConfigNode> = vec![ConfigNode::Property(p)];
            assert(nodes_view(nodes@) =~= seq![NodeView::Property(pv)]);
            Some((nodes, e))
        },
        None => class_at(s, i),
    }
}

/// The nodes of the class that starts at `i` and the position after it.
pub fn class_at(s: &Vec<char>, i: usize) -> (r: Option<(Vec<ConfigNode>, usize)>)
    requires
        i <= s@.len(),
    ensures
        match spec_class(s@, i as int) {
            Some((nodes, e)) => r is Some && nodes_view(r->Some_0.0@) == nodes && r->Some_0.1 == e
                && i < e <= s@.len(),
            None => r is None,
        },
    decreases s@.len() - i, 0int,
{
    let n = s.len();
    if !(n >= 5 && i <= n - 5 && s[i] == 'c' && s[i + 1] == 'l' && s[i + 2] == 'a' && s[i + 3] == 's'
        && s[i + 4] == 's') {
        return None;
    }
    let (classname, b) = match ident_at(s, skip(s, i + 5)) {
        Some(found) => found,
        None => {
            return None;
        },
    };
    let (inherit_classname, d) = parent_at(s, skip(s, b));
    let e = skip(s, d);
    if !(e < n && s[e] == '{') {
        return None;
    }
    let (children, g) = items_at(s, skip(s, e + 1), e + 1);
    if !(g < n && s[g] == '}') {
        return None;
    }
    let ghost open = (ConfigNode::ClassOpen { classname, inherit_classname })@;
    let ghost inner = nodes_view(children@);
    let mut nodes: Vec<ConfigNode> = vec![ConfigNode::ClassOpen { classname, inherit_classname }];
    let mut children = children;
    nodes.append(&mut children);
    nodes.push(ConfigNode::ClassClose);
    assert(nodes_view(nodes@) =~= seq![open] + inner + seq![NodeView::ClassClose]);
    Some((nodes, g + 1))
}

/// The nodes of the items that start at `i`, each followed by a semicolon,
/// and the position after the last of them.
pub fn items_at(s: &Vec<char>, i: usize, floor: usize) -> (r: (Vec<ConfigNode>, usize))
    requires
        floor <= i <= s@.len(),
    ensures
        nodes_view(r.0@) == spec_items(s@, i as int, floor as int).0,
        r.1 == spec_items(s@, i as int, floor as int).1,
        i <= r.1 <= s@.len(),
    decreases s@.len() - floor, 2int,
{
    let a = skip(s, i);
    match item_at(s, a) {
        None => {
            let nodes: Vec<ConfigNode> = Vec::new();
            assert(nodes_view(nodes@) =~= Seq::<NodeView>::empty());
            (nodes, i)
        },
        Some((first, b)) => {
            let c = skip(s, skip(s, b));
            if c < s.len() && s[c] == ';' {
                let d = skip(s, c + 1);
                let ghost head = nodes_view(first@);
                let (rest, e) = items_at(s, d, c + 1);
                let ghost tail = nodes_view(rest@);
                let mut nodes = first;
                let mut rest = rest;
                nodes.append(&mut rest);
                assert(nodes_view(nodes@) =~= head + tail);
                (nodes, e)
            } else {
                let nodes: Vec<ConfigNode> = Vec::new();
                assert(nodes_view(nodes@) =~= Seq::<NodeView>::empty());
                (nodes, i)
            }
        },
    }
}

/// Parses a whole file into its nodes. Fails with `TexconvertParseError`,
/// which tells the character at which the grammar was left, where the text
/// does not follow the grammar to its end.
pub fn parse_file(text: &str) -> (res: PaaResult<Vec<ConfigNode>>)
    ensures
        match spec_file(text@) {
            Some(nodes) => res is Ok && nodes_view(res->Ok_0@) == nodes,
            None => res is Err && res->Err_0 is TexconvertParseError
                && res->Err_0->TexconvertParseError_0@ == "unexpected input at character "@
                + spec_digits(spec_items(text@, 0, 0).1 as nat),
        },
{
    let chars = chars_of(text);
    let (nodes, e) = items_at(&chars, 0, 0);
    if e == chars.len() {
        Ok(nodes)
    } else {
        Err(PaaError::TexconvertParseError(stopped_at(e)))
    }
}

/// The decimal digits of `n`, most significant first.
pub open spec fn spec_digits(n: nat) -> Seq<char>
    decreases n,
{
    if n < 10 {
        seq![(0x30 + n) as char]
    } else {
        spec_digits(n / 10).push((0x30 + n % 10) as char)
    }
}

/// Appends the decimal digits of `n` to `text`.
pub fn push_digits(text: &mut String, n: usize)
    ensures
        final(text)@ == old(text)@ + spec_digits(n as nat),
    decreases n,
{
    if n < 10 {
        let c = (0x30u8 + n as u8) as char;
        string_push(text, c);
        assert(text@ =~= old(text)@ + spec_digits(n as nat));
    } else {
        push_digits(text, n / 10);
        let c = (0x30u8 + (n % 10) as u8) as char;
        string_push(text, c);
        assert(text@ =~= old(text)@ + spec_digits(n as nat));
    }
}

/// The text that tells where parsing stopped.
pub fn stopped_at(position: usize) -> (text: String)
    ensures
        text@ == "unexpected input at character "@ + spec_digits(position as nat),
{
    let mut text = String::from_str("unexpected input at character ");
    push_digits(&mut text, position);
    text
}

/// The rest of `text` after the line comment it starts with.
pub fn parse_single_line_comment(text: &str) -> (res: PaaResult<(String, ())>)
    ensures
        match spec_line_comment(text@, 0) {
            Some(e) => res is Ok && res->Ok_0.0@ == text@.skip(e),
            None => res is Err && res->Err_0 is TexconvertParseError,
        },
{
    let chars = chars_of(text);
    match line_comment(&chars, 0) {
        Some(e) => {
            let rest = text_of(&chars, e, chars.len());
            assert(text@.skip(e as int) =~= text@.subrange(e as int, text@.len() as int));
            Ok((rest, ()))
        },
        None => Err(PaaError::TexconvertParseError(stopped_at(0))),
    }
}

/// The rest of `text` after the block comment it starts with.
pub fn parse_multi_line_comment(text: &str) -> (res: PaaResult<(String, ())>)
    ensures
        match spec_block_comment(text@, 0) {
            Some(e) => res is Ok && res->Ok_0.0@ == text@.skip(e),
            None => res is Err && res->Err_0 is TexconvertParseError,
        },
{
    let chars = chars_of(text);
    match block_comment(&chars, 0) {
        Some(e) => {
            let rest = text_of(&chars, e, chars.len());
            assert(text@.skip(e as int) =~= text@.subrange(e as int, text@.len() as int));
            Ok((rest, ()))
        },
        None => Err(PaaError::TexconvertParseError(stopped_at(0))),
    }
}

/// The identifier `text` starts with, and the rest of `text`.
pub fn parse_ident(text: &str) -> (res: PaaResult<(String, ConfigIdent)>)
    ensures
        match spec_ident(text@, 0) {
            Some((t, e)) => res is Ok && res->Ok_0.0@ == text@.skip(e) && res->Ok_0.1.inner@ == t,
            None => res is Err && res->Err_0 is TexconvertParseError,
        },
{
    let chars = chars_of(text);
    match ident_at(&chars, 0) {
        Some((id, e)) => {
            let rest = text_of(&chars, e, chars.len());
            assert(text@.skip(e as int) =~= text@.subrange(e as int, text@.len() as int));
            Ok((rest, id))
        },
        None => Err(PaaError::TexconvertParseError(stopped_at(0))),
    }
}

/// The identifier that follows the white space and comments `text` starts
/// with, and the rest of `text` after the white space and comments that
/// follow the identifier.
pub fn parse_ident_with_ws(text: &str) -> (res: PaaResult<(String, ConfigIdent)>)
    ensures
        match spec_ident(text@, spec_skip(text@, 0)) {
            Some((t, e)) => res is Ok && res->Ok_0.0@ == text@.skip(spec_skip(text@, e))
                && res->Ok_0.1.inner@ == t,
            None => res is Err && res->Err_0 is TexconvertParseError,
        },
{
    let chars = chars_of(text);
    let a = skip(&chars, 0);
    match ident_at(&chars, a) {
        Some((id, e)) => {
            let b = skip(&chars, e);
            let rest = text_of(&chars, b, chars.len());
            assert(text@.skip(b as int) =~= text@.subrange(b as int, text@.len() as int));
            Ok((rest, id))
        },
        None => Err(PaaError::TexconvertParseError(stopped_at(a))),
    }
}

/// The value `text` starts with, and the rest of `text`.
pub fn parse_value(text: &str) -> (res: PaaResult<(String, ConfigValue)>)
    ensures
        match spec_value(text@, 0) {
            Some((v, e)) => res is Ok && res->Ok_0.0@ == text@.skip(e) && res->Ok_0.1@ == v,
            None => res is Err && res->Err_0 is TexconvertParseError,
        },
{
    let chars = chars_of(text);
    match value_at(&chars, 0) {
        Some((v, e)) => {
            let rest = text_of(&chars, e, chars.len());
            assert(text@.skip(e as int) =~= text@.subrange(e as int, text@.len() as int));
            Ok((rest, v))
        },
        None => Err(PaaError::TexconvertParseError(stopped_at(0))),
    }
}

/// The property `text` starts with, and the rest of `text` after the white
/// space and comments that follow the property.
pub fn parse_property(text: &str) -> (res: PaaResult<(String, ConfigProperty)>)
    ensures
        match spec_property(text@, 0) {
            Some((p, e)) => res is Ok && res->Ok_0.0@ == text@.skip(e) && res->Ok_0.1@ == p,
            None => res is Err && res->Err_0 is TexconvertParseError,
        },
{
    let chars = chars_of(text);
    match property_at(&chars, 0) {
        Some((p, e)) => {
            let rest = text_of(&chars, e, chars.len());
            assert(text@.skip(e as int) =~= text@.subrange(e as int, text@.len() as int));
            Ok((rest, p))
        },
        None => Err(PaaError::TexconvertParseError(stopped_at(0))),
    }
}

} // verus!
