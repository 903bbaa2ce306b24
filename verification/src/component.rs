//! Matching one path segment against one segment of a pattern.

use crate::text::{chars_of, ends_with, same_chars, starts_with};
use vstd::prelude::*;

verus! {

/// How one segment of a pattern matches a name.
#[derive(Debug, PartialEq, Eq)]
pub enum Component {
    /// The name equals the text.
    Full(String),
    /// The name starts with the text.
    Prefix(String),
    /// The name ends with the text.
    Suffix(String),
    /// Any name.
    Everything,
    /// No name at all.
    Nothing,
}

/// A [`Component`] with its texts as character sequences.
pub ghost enum ComponentView {
    Full(Seq<char>),
    Prefix(Seq<char>),
    Suffix(Seq<char>),
    Everything,
    Nothing,
}

impl ComponentView {
    /// Whether the component accepts the name `s`.
    pub open spec fn matches(self, s: Seq<char>) -> bool {
        match self {
            ComponentView::Full(full) => s == full,
            ComponentView::Prefix(prefix) => prefix.is_prefix_of(s),
            ComponentView::Suffix(suffix) => suffix.is_suffix_of(s),
            ComponentView::Everything => true,
            ComponentView::Nothing => false,
        }
    }
}

impl View for Component {
    type V = ComponentView;

    open spec fn view(&self) -> ComponentView {
        match self {
            Component::Full(full) => ComponentView::Full(full@),
            Component::Prefix(prefix) => ComponentView::Prefix(prefix@),
            Component::Suffix(suffix) => ComponentView::Suffix(suffix@),
            Component::Everything => ComponentView::Everything,
            Component::Nothing => ComponentView::Nothing,
        }
    }
}

impl Clone for Component {
    fn clone(&self) -> (copy: Component)
        ensures
            copy@ == self@,
    {
        match self {
            Component::Full(full) => Component::Full(full.clone()),
            Component::Prefix(prefix) => Component::Prefix(prefix.clone()),
            Component::Suffix(suffix) => Component::Suffix(suffix.clone()),
            Component::Everything => Component::Everything,
            Component::Nothing => Component::Nothing,
        }
    }
}

/// The component that a segment's text stands for. The tests are made in this
/// order: empty text, a lone `*`, a leading `*`, a trailing `*`; so a text
/// with a `*` at both ends is a suffix match on everything after the first.
pub open spec fn component_of(text: Seq<char>) -> ComponentView {
    if text.len() == 0 {
        ComponentView::Nothing
    } else if text[0] == '*' {
        if text.len() == 1 {
            ComponentView::Everything
        } else {
            ComponentView::Suffix(text.subrange(1, text.len() as int))
        }
    } else if text.last() == '*' {
        ComponentView::Prefix(text.drop_last())
    } else {
        ComponentView::Full(text)
    }
}

impl Component {
    /// Tests the name `s` against this component.
    pub fn matches(&self, s: &str) -> (b: bool)
        ensures
            b == self@.matches(s@),
    {
        match self {
            Component::Full(full) => {
                let name = chars_of(s);
                let text = chars_of(full.as_str());
                same_chars(name.as_slice(), text.as_slice())
            },
            Component::Prefix(prefix) => {
                let name = chars_of(s);
                let text = chars_of(prefix.as_str());
                starts_with(name.as_slice(), text.as_slice())
            },
            Component::Suffix(suffix) => {
                let name = chars_of(s);
                let text = chars_of(suffix.as_str());
                ends_with(name.as_slice(), text.as_slice())
            },
            Component::Everything => true,
            Component::Nothing => false,
        }
    }

    /// Reads one segment of a pattern.
    pub fn parse(component: &str) -> (c: Component)
        ensures
            c@ == component_of(component@),
    {
        let n: usize = component.unicode_len();
        if n == 0 {
            return Component::Nothing;
        }
        if component.get_char(0) == '*' {
            if n == 1 {
                Component::Everything
            } else {
                Component::Suffix(component.substring_char(1, n).to_owned())
            }
        } else if component.get_char(n - 1) == '*' {
            Component::Prefix(component.substring_char(0, n - 1).to_owned())
        } else {
            Component::Full(component.to_owned())
        }
    }
}

/// A text without `*` that is not empty matches the names equal to it, and
/// no other.
pub proof fn literal_matches_itself_only(t: Seq<char>, s: Seq<char>)
    requires
        t.len() > 0,
        !t.contains('*'),
    ensures
        component_of(t).matches(s) <==> s == t,
{
    assert(t.contains(t[0]));
    assert(t.contains(t.last()));
}

/// A `*` followed by `t` matches the names that end in `t`, whatever `t` is.
pub proof fn leading_star_matches_suffixes(t: Seq<char>, s: Seq<char>)
    ensures
        component_of(seq!['*'] + t).matches(s) <==> t.is_suffix_of(s),
{
    let text = seq!['*'] + t;
    assert(text[0] == '*');
    if t.len() == 0 {
        assert(s.subrange(s.len() - t.len(), s.len() as int) =~= t);
    } else {
        assert(text.subrange(1, text.len() as int) =~= t);
    }
}

/// `t` followed by a `*` matches the names that start with `t`, where `t`
/// does not itself begin with `*`.
pub proof fn trailing_star_matches_prefixes(t: Seq<char>, s: Seq<char>)
    requires
        t.len() == 0 || t[0] != '*',
    ensures
        component_of(t + seq!['*']).matches(s) <==> t.is_prefix_of(s),
{
    let text = t + seq!['*'];
    assert(text.last() == '*');
    if t.len() == 0 {
        assert(text[0] == '*');
        assert(s.subrange(0, t.len() as int) =~= t);
    } else {
        assert(text[0] == t[0]);
        assert(text.drop_last() =~= t);
    }
}

/// A lone `*` matches every name.
pub proof fn lone_star_matches_everything(s: Seq<char>)
    ensures
        component_of(seq!['*']).matches(s),
{
}

/// The empty text matches no name.
pub proof fn empty_text_matches_nothing(s: Seq<char>)
    ensures
        !component_of(Seq::<char>::empty()).matches(s),
{
}

} // verus!
