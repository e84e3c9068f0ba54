//! From a parsed configuration file to the settings of each texture kind.
//!
//! The settings stand in the classes inside the last class of the file that
//! is named `TextureHints`. Each of those classes names the texture kind it
//! is for, may inherit the settings of a class before it, and overrides what
//! its properties say. Names compare without regard to case, and of two
//! entries of a class with the same name the first counts.

use vstd::prelude::*;
use vstd::string::{StrSliceExecFns, StringExecFns};
use crate::cfgfile::{
    nodes_view, parse_file, spec_file, ConfigIdent, ConfigNode, ConfigProperty, NodeView,
    PropertyView, ValueView,
};
use crate::encode::TextureEncodingSettings;
use crate::error::{PaaError, PaaResult};
use crate::hints::{same_text, spec_uppercase, str_to_uppercase, TextureHints};
use crate::names::{TextureErrorMetrics, TextureMipmapFilter};
use crate::paatype::PaaType;
use crate::swizzle::{spec_parse_data, ArgbSwizzle, ChannelSwizzle, ChannelSwizzleId};

verus! {

/// Why a class gives no settings.
pub enum HintsError {
    /// The class has no usable `name` property.
    NoName,
    /// The class inherits from a class that does not stand before it.
    InvalidInherit(Seq<char>),
    /// A swizzle rule of the class is no rule.
    InvalidSwizzle(Seq<char>),
}

/// Whether `e` reports what `h` describes.
pub open spec fn reports(e: PaaError, h: HintsError) -> bool {
    match h {
        HintsError::NoName => e == PaaError::TexconvertNoName,
        HintsError::InvalidInherit(t) => e is TexconvertInvalidInherit
            && e->TexconvertInvalidInherit_0@ == t,
        HintsError::InvalidSwizzle(t) => e is InvalidSwizzleString && e->InvalidSwizzleString_0@
            == t,
    }
}

/// The texts of `texts`.
pub open spec fn texts_view(texts: Seq<String>) -> Seq<Seq<char>> {
    Seq::new(texts.len(), |i: int| texts[i]@)
}

/// The views of the properties of `props`.
pub open spec fn props_view(props: Seq<ConfigProperty>) -> Seq<PropertyView> {
    Seq::new(props.len(), |i: int| props[i]@)
}

/// The entries of `entries` with their keys as texts.
pub open spec fn entries_view(entries: Seq<(String, TextureEncodingSettings)>) -> Seq<
    (Seq<char>, TextureEncodingSettings),
> {
    Seq::new(entries.len(), |i: int| (entries[i].0@, entries[i].1))
}

/// The index of the node that closes the class whose inside starts at `j`,
/// where `depth` classes are open; the number of nodes where none does.
pub open spec fn spec_close_of(nodes: Seq<NodeView>, j: int, depth: int) -> int
    decreases nodes.len() - j,
{
    if j < 0 || j >= nodes.len() || depth < 1 {
        nodes.len() as int
    } else {
        match nodes[j] {
            NodeView::ClassOpen { .. } => spec_close_of(nodes, j + 1, depth + 1),
            NodeView::ClassClose => if depth == 1 {
                j
            } else {
                spec_close_of(nodes, j + 1, depth - 1)
            },
            NodeView::Property(_) => spec_close_of(nodes, j + 1, depth),
        }
    }
}

/// Whether a class name is `TextureHints` up to case.
pub open spec fn spec_is_hints(name: Seq<char>) -> bool {
    spec_uppercase(name) == spec_uppercase("TextureHints"@)
}

/// The index of the last class named `TextureHints` among the items of the
/// file from node `j` on, or `found` where there is none.
pub open spec fn spec_find_hints(nodes: Seq<NodeView>, j: int, found: int) -> int
    decreases nodes.len() - j,
{
    if j < 0 || j >= nodes.len() {
        found
    } else {
        match nodes[j] {
            NodeView::ClassOpen { name, .. } => {
                let c = spec_close_of(nodes, j + 1, 1);
                let hit = if spec_is_hints(name) {
                    j
                } else {
                    found
                };
                if j < c < nodes.len() {
                    spec_find_hints(nodes, c + 1, hit)
                } else {
                    hit
                }
            },
            _ => spec_find_hints(nodes, j + 1, found),
        }
    }
}

/// A value with an identifier in upper case.
pub open spec fn spec_normal_value(v: ValueView) -> ValueView {
    match v {
        ValueView::Ident(t) => ValueView::Ident(spec_uppercase(t)),
        other => other,
    }
}

/// The properties among the entries of a class from node `j` to node `end`,
/// with their names in upper case, without those whose name an entry before
/// them has; `seen` holds the names of the entries before `j`.
pub open spec fn spec_class_props(
    nodes: Seq<NodeView>,
    j: int,
    end: int,
    seen: Seq<Seq<char>>,
) -> Seq<PropertyView>
    decreases end - j,
{
    if j < 0 || j >= end || end > nodes.len() {
        Seq::<PropertyView>::empty()
    } else {
        match nodes[j] {
            NodeView::Property(p) => {
                let name = spec_uppercase(p.ident);
                if seen.contains(name) {
                    spec_class_props(nodes, j + 1, end, seen)
                } else {
                    seq![PropertyView { ident: name, value: spec_normal_value(p.value) }]
                        + spec_class_props(nodes, j + 1, end, seen.push(name))
                }
            },
            NodeView::ClassOpen { name, .. } => {
                let c = spec_close_of(nodes, j + 1, 1);
                let upper = spec_uppercase(name);
                let next = if seen.contains(upper) {
                    seen
                } else {
                    seen.push(upper)
                };
                if j < c < end {
                    spec_class_props(nodes, c + 1, end, next)
                } else {
                    Seq::<PropertyView>::empty()
                }
            },
            NodeView::ClassClose => spec_class_props(nodes, j + 1, end, seen),
        }
    }
}

/// The first of `props` from index `j` on whose name is `name` up to case.
pub open spec fn spec_prop(props: Seq<PropertyView>, name: Seq<char>, j: int) -> Option<
    PropertyView,
>
    decreases props.len() - j,
{
    if j < 0 || j >= props.len() {
        None
    } else if spec_uppercase(props[j].ident) == spec_uppercase(name) {
        Some(props[j])
    } else {
        spec_prop(props, name, j + 1)
    }
}

/// The text of the property named `name`, if it is a quoted text.
pub open spec fn spec_prop_text(props: Seq<PropertyView>, name: Seq<char>) -> Option<Seq<char>> {
    match spec_prop(props, name, 0) {
        Some(p) => match p.value {
            ValueView::Text(t) => Some(t),
            _ => None,
        },
        None => None,
    }
}

/// The identifier of the property named `name`, if it is one.
pub open spec fn spec_prop_ident(props: Seq<PropertyView>, name: Seq<char>) -> Option<Seq<char>> {
    match spec_prop(props, name, 0) {
        Some(p) => match p.value {
            ValueView::Ident(t) => Some(t),
            _ => None,
        },
        None => None,
    }
}

/// Whether the integer of the property named `name` is not zero, if it is an
/// integer.
pub open spec fn spec_prop_bool(props: Seq<PropertyView>, name: Seq<char>) -> Option<bool> {
    match spec_prop(props, name, 0) {
        Some(p) => match p.value {
            ValueView::Integer(v) => Some(v != 0),
            _ => None,
        },
        None => None,
    }
}

/// The texture kind a `name` pattern is for: what stands between `*_` and
/// `.*`, in upper case.
pub open spec fn spec_name_to_suffix(name: Seq<char>) -> Option<Seq<char>> {
    if name.len() >= 4 && name[0] == '*' && name[1] == '_' && name[name.len() - 2] == '.'
        && name[name.len() - 1] == '*' {
        Some(spec_uppercase(name.subrange(2, name.len() - 2)))
    } else {
        None
    }
}

/// The settings the last of `entries` with the key `key` holds.
pub open spec fn spec_entry(
    entries: Seq<(Seq<char>, TextureEncodingSettings)>,
    key: Seq<char>,
) -> Option<TextureEncodingSettings>
    decreases entries.len(),
{
    if entries.len() == 0 {
        None
    } else if entries.last().0 == key {
        Some(entries.last().1)
    } else {
        spec_entry(entries.drop_last(), key)
    }
}

/// The format a class asks for: that of its `format` text, else block
/// compression or plain colours as its `enableDXT` says, if that names a
/// format.
pub open spec fn spec_wanted_format(props: Seq<PropertyView>) -> Option<PaaType> {
    let text = match spec_prop_text(props, "format"@) {
        Some(t) => Some(t),
        None => match spec_prop_bool(props, "enableDXT"@) {
            Some(on) => Some(
                if on {
                    "DXT5"@
                } else {
                    "ARGB8888"@
                },
            ),
            None => None,
        },
    };
    match text {
        Some(t) => PaaType::spec_from_name(t),
        None => None,
    }
}

/// The text of a swizzle rule of a class, or the letter of the channel.
pub open spec fn spec_swizzle_text(
    props: Seq<PropertyView>,
    name: Seq<char>,
    letter: Seq<char>,
) -> Seq<char> {
    match spec_prop_text(props, name) {
        Some(t) => t,
        None => letter,
    }
}

/// The swizzle of a class, or the first of its rules that is none.
pub open spec fn spec_wanted_swizzle(props: Seq<PropertyView>) -> Result<ArgbSwizzle, HintsError> {
    let a = spec_swizzle_text(props, "channelSwizzleA"@, "A"@);
    let r = spec_swizzle_text(props, "channelSwizzleR"@, "R"@);
    let g = spec_swizzle_text(props, "channelSwizzleG"@, "G"@);
    let b = spec_swizzle_text(props, "channelSwizzleB"@, "B"@);
    if spec_parse_data(a) is None {
        Err(HintsError::InvalidSwizzle(a))
    } else if spec_parse_data(r) is None {
        Err(HintsError::InvalidSwizzle(r))
    } else if spec_parse_data(g) is None {
        Err(HintsError::InvalidSwizzle(g))
    } else if spec_parse_data(b) is None {
        Err(HintsError::InvalidSwizzle(b))
    } else {
        Ok(
            ArgbSwizzle {
                a: ChannelSwizzle {
                    target: ChannelSwizzleId::Alpha,
                    data: spec_parse_data(a)->Some_0,
                },
                r: ChannelSwizzle { target: ChannelSwizzleId::Red, data: spec_parse_data(r)->Some_0 },
                g: ChannelSwizzle {
                    target: ChannelSwizzleId::Green,
                    data: spec_parse_data(g)->Some_0,
                },
                b: ChannelSwizzle {
                    target: ChannelSwizzleId::Blue,
                    data: spec_parse_data(b)->Some_0,
                },
            },
        )
    }
}

/// The texture kind and the settings of a class with the properties `props`
/// that inherits from `parent`, where `siblings` holds the settings of the
/// classes before it by name.
///
/// The settings start from those of the parent, or from the default ones.
/// The format, the dynamic range, the reduction of images of one colour, the
/// mipmap filter and the error metric are overridden where the class names
/// them; the swizzle is always the one the class names, and none where it
/// names none.
pub open spec fn spec_settings(
    props: Seq<PropertyView>,
    parent: Option<Seq<char>>,
    siblings: Seq<(Seq<char>, TextureEncodingSettings)>,
) -> Result<(Seq<char>, TextureEncodingSettings), HintsError> {
    let base = match parent {
        Some(p) => spec_entry(siblings, p),
        None => Some(TextureEncodingSettings::spec_default()),
    };
    if base is None {
        Err(HintsError::InvalidInherit(parent->Some_0))
    } else {
        let suffix = match spec_prop_text(props, "name"@) {
            Some(t) => spec_name_to_suffix(t),
            None => None,
        };
        if suffix is None {
            Err(HintsError::NoName)
        } else {
            match spec_wanted_swizzle(props) {
                Err(e) => Err(e),
                Ok(swizzle) => {
                    let from = base->Some_0;
                    let mipmap_filter = match spec_prop_ident(props, "mipmapFilter"@) {
                        Some(t) => TextureMipmapFilter::spec_from_name(t),
                        None => None,
                    };
                    let error_metrics = match spec_prop_ident(props, "errorMetrics"@) {
                        Some(t) => TextureErrorMetrics::spec_from_name(t),
                        None => None,
                    };
                    Ok(
                        (
                            suffix->Some_0,
                            TextureEncodingSettings {
                                format: match spec_wanted_format(props) {
                                    Some(f) => f,
                                    None => from.format,
                                },
                                dynrange: match spec_prop_bool(props, "dynrange"@) {
                                    Some(d) => Some(d),
                                    None => from.dynrange,
                                },
                                autoreduce: match spec_prop_bool(props, "autoreduce"@) {
                                    Some(a) => a,
                                    None => from.autoreduce,
                                },
                                mipmap_filter: match mipmap_filter {
                                    Some(f) => Some(f),
                                    None => from.mipmap_filter,
                                },
                                swizzle,
                                error_metrics: match error_metrics {
                                    Some(m) => Some(m),
                                    None => from.error_metrics,
                                },
                            },
                        ),
                    )
                },
            }
        }
    }
}

/// The settings by texture kind that the classes among the entries of a
/// class give, from node `j` to node `end`; `siblings` holds the settings of
/// the classes before `j` by name, `acc` those by texture kind. The first
/// class that gives no settings fails the whole.
pub open spec fn spec_hint_entries(
    nodes: Seq<NodeView>,
    j: int,
    end: int,
    siblings: Seq<(Seq<char>, TextureEncodingSettings)>,
    acc: Seq<(Seq<char>, TextureEncodingSettings)>,
) -> Result<Seq<(Seq<char>, TextureEncodingSettings)>, HintsError>
    decreases end - j,
{
    if j < 0 || j >= end || end > nodes.len() {
        Ok(acc)
    } else {
        match nodes[j] {
            NodeView::ClassOpen { name, parent } => {
                let c = spec_close_of(nodes, j + 1, 1);
                if j < c <= end {
                    let props = spec_class_props(nodes, j + 1, c, Seq::<Seq<char>>::empty());
                    let inherits = match parent {
                        Some(p) => Some(spec_uppercase(p)),
                        None => None,
                    };
                    match spec_settings(props, inherits, siblings) {
                        Err(e) => Err(e),
                        Ok((suffix, settings)) => if c < end {
                            spec_hint_entries(
                                nodes,
                                c + 1,
                                end,
                                siblings.push((spec_uppercase(spec_uppercase(name)), settings)),
                                acc.push((suffix, settings)),
                            )
                        } else {
                            Ok(acc.push((suffix, settings)))
                        },
                    }
                } else {
                    Ok(acc)
                }
            },
            _ => spec_hint_entries(nodes, j + 1, end, siblings, acc),
        }
    }
}

/// The settings by texture kind that a parsed file gives: those of the
/// classes inside its last class named `TextureHints`, and none without
/// such a class.
pub open spec fn spec_texconvert(nodes: Seq<NodeView>) -> Result<
    Seq<(Seq<char>, TextureEncodingSettings)>,
    HintsError,
> {
    let at = spec_find_hints(nodes, 0, -1);
    if at < 0 {
        Ok(Seq::<(Seq<char>, TextureEncodingSettings)>::empty())
    } else {
        spec_hint_entries(
            nodes,
            at + 1,
            spec_close_of(nodes, at + 1, 1),
            Seq::<(Seq<char>, TextureEncodingSettings)>::empty(),
            Seq::<(Seq<char>, TextureEncodingSettings)>::empty(),
        )
    }
}

/// The index of the node that closes the class opened at `open`.
pub fn close_of(nodes: &Vec<ConfigNode>, open: usize) -> (c: usize)
    requires
        open < nodes@.len(),
    ensures
        c == spec_close_of(nodes_view(nodes@), open + 1, 1),
        open < c <= nodes@.len(),
{
    let ghost views = nodes_view(nodes@);
    let n = nodes.len();
    let mut j: usize = open + 1;
    let mut depth: usize = 1;
    loop
        invariant_except_break
            spec_close_of(views, j as int, depth as int) == spec_close_of(views, open + 1, 1),
            depth >= 1,
        invariant
            open < j <= n,
            n == nodes@.len(),
            views == nodes_view(nodes@),
            depth <= j,
        ensures
            j == spec_close_of(views, open + 1, 1),
            open < j <= n,
        decreases n - j,
    {
        if j >= n {
            break ;
        }
        match &nodes[j] {
            ConfigNode::ClassOpen { .. } => {
                depth = depth + 1;
            },
            ConfigNode::ClassClose => {
                if depth == 1 {
                    break ;
                }
                depth = depth - 1;
            },
            ConfigNode::Property(_) => {},
        }
        j = j + 1;
    }
    j
}

/// The index of the last class named `TextureHints` among the items of the
/// file, if there is one.
pub fn find_hints(nodes: &Vec<ConfigNode>) -> (at: Option<usize>)
    ensures
        match at {
            Some(i) => i == spec_find_hints(nodes_view(nodes@), 0, -1) && i < nodes@.len()
                && nodes@[i as int] is ClassOpen,
            None => spec_find_hints(nodes_view(nodes@), 0, -1) < 0,
        },
{
    let ghost views = nodes_view(nodes@);
    let n = nodes.len();
    let mut found: Option<usize> = None;
    let mut j: usize = 0;
    while j < n
        invariant
            j <= n,
            n == nodes@.len(),
            views == nodes_view(nodes@),
            match found {
                Some(i) => i < n && nodes@[i as int] is ClassOpen && spec_find_hints(
                    views,
                    j as int,
                    i as int,
                ) == spec_find_hints(views, 0, -1),
                None => spec_find_hints(views, j as int, -1) == spec_find_hints(views, 0, -1),
            },
        decreases n - j,
    {
        match &nodes[j] {
            ConfigNode::ClassOpen { classname, .. } => {
                let c = close_of(nodes, j);
                if classname.is("TextureHints") {
                    found = Some(j);
                }
                if c >= n {
                    j = n;
                } else {
                    j = c + 1;
                }
            },
            _ => {
                j = j + 1;
            },
        }
    }
    found
}

/// Whether `texts` holds `t`.
pub fn contains_text(texts: &Vec<String>, t: &str) -> (r: bool)
    ensures
        r == texts_view(texts@).contains(t@),
{
    let ghost views = texts_view(texts@);
    let mut i: usize = 0;
    while i < texts.len()
        invariant
            i <= texts@.len(),
            views == texts_view(texts@),
            forall|k: int| 0 <= k < i ==> views[k] != t@,
        decreases texts@.len() - i,
    {
        if same_text(texts[i].as_str(), t) {
            assert(views[i as int] == t@);
            return true;
        }
        i = i + 1;
    }
    false
}

/// The properties among the entries of the class opened at `open` and
/// closed at `close`, with their names in upper case, without those whose
/// name an entry before them has.
pub fn class_props(nodes: &Vec<ConfigNode>, open: usize, close: usize) -> (props: Vec<
    ConfigProperty,
>)
    requires
        open < close <= nodes@.len(),
    ensures
        props_view(props@) == spec_class_props(
            nodes_view(nodes@),
            open + 1,
            close as int,
            Seq::<Seq<char>>::empty(),
        ),
{
    let ghost views = nodes_view(nodes@);
    let ghost whole = spec_class_props(views, open + 1, close as int, Seq::<Seq<char>>::empty());
    let mut props: Vec<ConfigProperty> = Vec::new();
    let mut seen: Vec<String> = Vec::new();
    let mut j: usize = open + 1;
    assert(texts_view(seen@) =~= Seq::<Seq<char>>::empty());
    assert(props_view(props@) =~= Seq::<PropertyView>::empty());
    while j < close
        invariant
            open < j,
            close <= nodes@.len(),
            views == nodes_view(nodes@),
            props_view(props@) + spec_class_props(views, j as int, close as int, texts_view(seen@))
                == whole,
        decreases close - j,
    {
        let ghost before = props_view(props@);
        let ghost seen_before = texts_view(seen@);
        match &nodes[j] {
            ConfigNode::Property(p) => {
                let normal = p.clone().normalized();
                if contains_text(&seen, normal.ident.inner.as_str()) {
                    j = j + 1;
                } else {
                    let ghost pv = normal@;
                    seen.push(normal.ident.inner.clone());
                    props.push(normal);
                    proof {
                        assert(texts_view(seen@) =~= seen_before.push(pv.ident));
                        assert(props_view(props@) =~= before.push(pv));
                        assert(before + (seq![pv] + spec_class_props(
                            views,
                            j + 1,
                            close as int,
                            seen_before.push(pv.ident),
                        )) =~= before.push(pv) + spec_class_props(
                            views,
                            j + 1,
                            close as int,
                            seen_before.push(pv.ident),
                        ));
                    }
                    j = j + 1;
                }
            },
            ConfigNode::ClassOpen { classname, .. } => {
                let c = close_of(nodes, j);
                let upper = str_to_uppercase(classname.inner.as_str());
                if !contains_text(&seen, upper.as_str()) {
                    let ghost name = upper@;
                    seen.push(upper);
                    assert(texts_view(seen@) =~= seen_before.push(name));
                }
                if c >= close {
                    j = close;
                } else {
                    j = c + 1;
                }
            },
            ConfigNode::ClassClose => {
                j = j + 1;
            },
        }
    }
    assert(props_view(props@) + Seq::<PropertyView>::empty() =~= props_view(props@));
    props
}

/// The first of `props` whose name is `name` up to case.
pub fn prop<'a>(props: &'a Vec<ConfigProperty>, name: &str) -> (r: Option<&'a ConfigProperty>)
    ensures
        match spec_prop(props_view(props@), name@, 0) {
            Some(p) => r is Some && r->Some_0@ == p,
            None => r is None,
        },
{
    let ghost views = props_view(props@);
    let mut j: usize = 0;
    while j < props.len()
        invariant
            j <= props@.len(),
            views == props_view(props@),
            spec_prop(views, name@, j as int) == spec_prop(views, name@, 0),
        decreases props@.len() - j,
    {
        if props[j].ident.is(name) {
            return Some(&props[j]);
        }
        j = j + 1;
    }
    None
}

/// The text of the property named `name`, if it is a quoted text.
pub fn prop_text(props: &Vec<ConfigProperty>, name: &str) -> (r: Option<String>)
    ensures
        match spec_prop_text(props_view(props@), name@) {
            Some(t) => r is Some && r->Some_0@ == t,
            None => r is None,
        },
{
    match prop(props, name) {
        Some(p) => p.try_into_string(),
        None => None,
    }
}

/// The identifier of the property named `name`, if it is one.
pub fn prop_ident(props: &Vec<ConfigProperty>, name: &str) -> (r: Option<ConfigIdent>)
    ensures
        match spec_prop_ident(props_view(props@), name@) {
            Some(t) => r is Some && r->Some_0.inner@ == t,
            None => r is None,
        },
{
    match prop(props, name) {
        Some(p) => p.try_into_ident(),
        None => None,
    }
}

/// Whether the integer of the property named `name` is not zero, if it is an
/// integer.
pub fn prop_bool(props: &Vec<ConfigProperty>, name: &str) -> (r: Option<bool>)
    ensures
        r == spec_prop_bool(props_view(props@), name@),
{
    match prop(props, name) {
        Some(p) => p.try_into_bool(),
        None => None,
    }
}

/// The texture kind a `name` pattern is for.
pub fn name_to_suffix(name: &str) -> (r: Option<String>)
    ensures
        match spec_name_to_suffix(name@) {
            Some(t) => r is Some && r->Some_0@ == t,
            None => r is None,
        },
{
    let n = name.unicode_len();
    if n >= 4 && name.get_char(0) == '*' && name.get_char(1) == '_' && name.get_char(n - 2) == '.'
        && name.get_char(n - 1) == '*' {
        Some(str_to_uppercase(name.substring_char(2, n - 2)))
    } else {
        None
    }
}

/// The settings the last of `entries` with the key `key` holds.
pub fn entry(entries: &Vec<(String, TextureEncodingSettings)>, key: &str) -> (r: Option<
    TextureEncodingSettings,
>)
    ensures
        r == spec_entry(entries_view(entries@), key@),
{
    let ghost views = entries_view(entries@);
    let mut i: usize = entries.len();
    assert(views.take(i as int) =~= views);
    while i > 0
        invariant
            i <= entries@.len(),
            views == entries_view(entries@),
            spec_entry(views.take(i as int), key@) == spec_entry(views, key@),
        decreases i,
    {
        assert(views.take(i as int).last() == views[i - 1]);
        assert(views.take(i as int).drop_last() =~= views.take(i - 1));
        if same_text(entries[i - 1].0.as_str(), key) {
            return Some(entries[i - 1].1);
        }
        i = i - 1;
    }
    assert(views.take(0) =~= Seq::<(Seq<char>, TextureEncodingSettings)>::empty());
    None
}

/// The format a class asks for.
fn wanted_format(props: &Vec<ConfigProperty>) -> (r: Option<PaaType>)
    ensures
        r == spec_wanted_format(props_view(props@)),
{
    let text: Option<String> = match prop_text(props, "format") {
        Some(t) => Some(t),
        None => match prop_bool(props, "enableDXT") {
            Some(on) => Some(
                String::from_str(
                    if on {
                        "DXT5"
                    } else {
                        "ARGB8888"
                    },
                ),
            ),
            None => None,
        },
    };
    match text {
        Some(t) => PaaType::from_name(t.as_str()),
        None => None,
    }
}

/// The text of a swizzle rule of a class, or the letter of the channel.
fn swizzle_text(props: &Vec<ConfigProperty>, name: &str, letter: &str) -> (r: String)
    ensures
        r@ == spec_swizzle_text(props_view(props@), name@, letter@),
{
    match prop_text(props, name) {
        Some(t) => t,
        None => String::from_str(letter),
    }
}

/// The swizzle of a class.
fn wanted_swizzle(props: &Vec<ConfigProperty>) -> (res: PaaResult<ArgbSwizzle>)
    ensures
        match spec_wanted_swizzle(props_view(props@)) {
            Ok(s) => res == Ok::<ArgbSwizzle, PaaError>(s),
            Err(h) => res is Err && reports(res->Err_0, h),
        },
{
    let a = swizzle_text(props, "channelSwizzleA", "A");
    let r = swizzle_text(props, "channelSwizzleR", "R");
    let g = swizzle_text(props, "channelSwizzleG", "G");
    let b = swizzle_text(props, "channelSwizzleB", "B");
    ArgbSwizzle::parse_argb(a.as_str(), r.as_str(), g.as_str(), b.as_str())
}

/// The texture kind and the settings of a class with the properties `props`
/// that inherits from `parent`, where `siblings` holds the settings of the
/// classes before it by name.
///
/// Fails with `TexconvertInvalidInherit` for a parent that is not among the
/// siblings, with `TexconvertNoName` for a class without a `name` text of
/// the form `*_kind.*`, and with `InvalidSwizzleString` for a swizzle rule
/// that is none, in this order.
pub fn into_settings(
    props: &Vec<ConfigProperty>,
    parent: Option<&ConfigIdent>,
    siblings: &Vec<(String, TextureEncodingSettings)>,
) -> (res: PaaResult<(String, TextureEncodingSettings)>)
    ensures
        match spec_settings(
            props_view(props@),
            match parent {
                Some(p) => Some(p.inner@),
                None => None,
            },
            entries_view(siblings@),
        ) {
            Ok((suffix, settings)) => res is Ok && res->Ok_0.0@ == suffix && res->Ok_0.1
                == settings,
            Err(h) => res is Err && reports(res->Err_0, h),
        },
{
    let from = match parent {
        Some(p) => match entry(siblings, p.inner.as_str()) {
            Some(s) => s,
            None => {
                return Err(PaaError::TexconvertInvalidInherit(p.inner.clone()));
            },
        },
        None => TextureEncodingSettings::default(),
    };
    let suffix = match prop_text(props, "name") {
        Some(t) => match name_to_suffix(t.as_str()) {
            Some(s) => s,
            None => {
                return Err(PaaError::TexconvertNoName);
            },
        },
        None => {
            return Err(PaaError::TexconvertNoName);
        },
    };
    let format = wanted_format(props);
    let dynrange = prop_bool(props, "dynrange");
    let autoreduce = prop_bool(props, "autoreduce");
    let mipmap_filter = match prop_ident(props, "mipmapFilter") {
        Some(i) => TextureMipmapFilter::from_name(i.inner.as_str()),
        None => None,
    };
    let error_metrics = match prop_ident(props, "errorMetrics") {
        Some(i) => TextureErrorMetrics::from_name(i.inner.as_str()),
        None => None,
    };
    let swizzle = match wanted_swizzle(props) {
        Ok(s) => s,
        Err(e) => {
            return Err(e);
        },
    };
    let settings = TextureEncodingSettings {
        format: match format {
            Some(f) => f,
            None => from.format,
        },
        dynrange: match dynrange {
            Some(d) => Some(d),
            None => from.dynrange,
        },
        autoreduce: match autoreduce {
            Some(a) => a,
            None => from.autoreduce,
        },
        mipmap_filter: match mipmap_filter {
            Some(f) => Some(f),
            None => from.mipmap_filter,
        },
        swizzle,
        error_metrics: match error_metrics {
            Some(m) => Some(m),
            None => from.error_metrics,
        },
    };
    Ok((suffix, settings))
}

/// The settings by texture kind that a parsed file gives.
pub fn texconvert_of_nodes(nodes: &Vec<ConfigNode>) -> (res: PaaResult<
    Vec<(String, TextureEncodingSettings)>,
>)
    ensures
        match spec_texconvert(nodes_view(nodes@)) {
            Ok(entries) => res is Ok && entries_view(res->Ok_0@) == entries,
            Err(h) => res is Err && reports(res->Err_0, h),
        },
{
    let ghost views = nodes_view(nodes@);
    let mut result: Vec<(String, TextureEncodingSettings)> = Vec::new();
    let at = match find_hints(nodes) {
        Some(i) => i,
        None => {
            assert(entries_view(result@) =~= Seq::<(Seq<char>, TextureEncodingSettings)>::empty());
            return Ok(result);
        },
    };
    let end = close_of(nodes, at);
    let mut siblings: Vec<(String, TextureEncodingSettings)> = Vec::new();
    let mut j: usize = at + 1;
    let ghost whole = spec_texconvert(views);
    assert(entries_view(result@) =~= Seq::<(Seq<char>, TextureEncodingSettings)>::empty());
    assert(entries_view(siblings@) =~= Seq::<(Seq<char>, TextureEncodingSettings)>::empty());
    while j < end
        invariant
            at < j,
            end <= nodes@.len(),
            views == nodes_view(nodes@),
            whole == spec_texconvert(views),
            spec_hint_entries(
                views,
                j as int,
                end as int,
                entries_view(siblings@),
                entries_view(result@),
            ) == whole,
        decreases end - j,
    {
        match &nodes[j] {
            ConfigNode::ClassOpen { classname, inherit_classname } => {
                let c = close_of(nodes, j);
                if c > end {
                    j = end;
                } else {
                    let props = class_props(nodes, j, c);
                    let parent: Option<ConfigIdent> = match inherit_classname {
                        Some(p) => Some(p.clone().normalized()),
                        None => None,
                    };
                    let made = match &parent {
                        Some(p) => into_settings(&props, Some(p), &siblings),
                        None => into_settings(&props, None, &siblings),
                    };
                    let (suffix, settings) = match made {
                        Ok(found) => found,
                        Err(e) => {
                            return Err(e);
                        },
                    };
                    let key = classname.clone().normalized().normalized().inner;
                    let ghost siblings_before = entries_view(siblings@);
                    let ghost result_before = entries_view(result@);
                    let ghost key_view = key@;
                    let ghost suffix_view = suffix@;
                    siblings.push((key, settings));
                    result.push((suffix, settings));
                    proof {
                        assert(entries_view(siblings@) =~= siblings_before.push(
                            (key_view, settings),
                        ));
                        assert(entries_view(result@) =~= result_before.push(
                            (suffix_view, settings),
                        ));
                    }
                    if c >= end {
                        j = end;
                    } else {
                        j = c + 1;
                    }
                }
            },
            _ => {
                j = j + 1;
            },
        }
    }
    Ok(result)
}

/// The settings by texture kind that the text of a configuration file gives.
///
/// Fails with `TexconvertParseError` for a text that does not follow the
/// grammar, and as [`into_settings`] does for the first class that gives no
/// settings.
pub fn try_parse_texconvert(input: &str) -> (res: PaaResult<Vec<(String, TextureEncodingSettings)>>)
    ensures
        match spec_file(input@) {
            None => res is Err && res->Err_0 is TexconvertParseError,
            Some(nodes) => match spec_texconvert(nodes) {
                Ok(entries) => res is Ok && entries_view(res->Ok_0@) == entries,
                Err(h) => res is Err && reports(res->Err_0, h),
            },
        },
{
    let nodes = match parse_file(input) {
        Ok(n) => n,
        Err(e) => {
            return Err(e);
        },
    };
    texconvert_of_nodes(&nodes)
}

impl TextureHints {
    /// The hints that the text of a configuration file gives.
    pub fn try_parse_from_str(input: &str) -> (res: PaaResult<TextureHints>)
        ensures
            match spec_file(input@) {
                None => res is Err && res->Err_0 is TexconvertParseError,
                Some(nodes) => match spec_texconvert(nodes) {
                    Ok(entries) => res is Ok && entries_view(res->Ok_0.hints@) == entries,
                    Err(h) => res is Err && reports(res->Err_0, h),
                },
            },
    {
        match try_parse_texconvert(input) {
            Ok(hints) => Ok(TextureHints { hints }),
            Err(e) => Err(e),
        }
    }
}

} // verus!
