//! The pattern tree and its parser.

use crate::component::{component_of, Component, ComponentView};
use crate::lexer::{lex_spec, token_views, Lexer, Token, TokenView};
use vstd::prelude::*;

verus! {

/// A parsed pattern.
#[derive(Debug, PartialEq, Eq)]
pub enum Pattern {
    /// A directory whose name the component accepts, and what is matched
    /// below it.
    Dir(Component, Box<Pattern>),
    /// The last segment of a path.
    File(Component),
    /// Any number of directory levels, none included, before what follows.
    Recurse(Box<Pattern>),
}

/// A [`Pattern`] over character sequences.
pub ghost enum PatternView {
    Dir(ComponentView, Box<PatternView>),
    File(ComponentView),
    Recurse(Box<PatternView>),
}

impl PatternView {
    /// No `Recurse` node holds another `Recurse` node directly, here or
    /// further down.
    pub open spec fn well_formed(self) -> bool
        decreases self,
    {
        match self {
            PatternView::Dir(_, next) => next.well_formed(),
            PatternView::File(_) => true,
            PatternView::Recurse(next) => !(*next is Recurse) && next.well_formed(),
        }
    }
}

impl PatternView {
    /// The number of nodes of the pattern.
    pub open spec fn size(self) -> nat
        decreases self,
    {
        match self {
            PatternView::Dir(_, next) => 1 + next.size(),
            PatternView::File(_) => 1,
            PatternView::Recurse(next) => 1 + next.size(),
        }
    }
}

impl View for Pattern {
    type V = PatternView;

    open spec fn view(&self) -> PatternView {
        self.tree()
    }
}

impl Clone for Pattern {
    fn clone(&self) -> (copy: Pattern)
        ensures
            copy@ == self@,
        decreases self,
    {
        match self {
            Pattern::Dir(component, next) => {
                let below = Self::clone(next);
                Pattern::Dir(component.clone(), Box::new(below))
            },
            Pattern::File(component) => Pattern::File(component.clone()),
            Pattern::Recurse(next) => {
                let below = Self::clone(next);
                Pattern::Recurse(Box::new(below))
            },
        }
    }
}

/// Why a text is no pattern.
#[derive(Debug, PartialEq, Eq, Clone, Copy)]
pub enum MalformedPattern {
    /// The tokens end where a segment is still due: the text is empty, holds
    /// separators only, or ends in a recurse marker.
    UnexpectedEnd,
    /// A recurse marker follows another directly.
    NestedRecurse,
}

/// The pattern that a row of tokens stands for.
///
/// A marker opens a `Recurse` node around what the rest stands for, the last
/// segment is a `File`, every earlier one a `Dir`. A row that ends too early
/// is refused before a doubled marker in it is.
pub open spec fn parse_tokens(tokens: Seq<TokenView>) -> Result<PatternView, MalformedPattern>
    decreases tokens.len(),
{
    if tokens.len() == 0 {
        Err(MalformedPattern::UnexpectedEnd)
    } else {
        match tokens[0] {
            TokenView::Ellipsis => match parse_tokens(tokens.skip(1)) {
                Ok(next) => if next is Recurse {
                    Err(MalformedPattern::NestedRecurse)
                } else {
                    Ok(PatternView::Recurse(Box::new(next)))
                },
                Err(e) => Err(e),
            },
            TokenView::Elem(text) => if tokens.len() == 1 {
                Ok(PatternView::File(component_of(text)))
            } else {
                match parse_tokens(tokens.skip(1)) {
                    Ok(next) => Ok(PatternView::Dir(component_of(text), Box::new(next))),
                    Err(e) => Err(e),
                }
            },
        }
    }
}

/// What a pattern's text stands for.
pub open spec fn parse_spec(text: Seq<char>) -> Result<PatternView, MalformedPattern> {
    parse_tokens(lex_spec(text))
}

/// The outcome of a parse, with the pattern taken by its view.
pub open spec fn parsed(r: Result<Pattern, MalformedPattern>) -> Result<
    PatternView,
    MalformedPattern,
> {
    match r {
        Ok(pattern) => Ok(pattern@),
        Err(e) => Err(e),
    }
}

impl MalformedPattern {
    /// The error in words.
    pub fn message(&self) -> (text: String)
        ensures
            text@ == match self {
                MalformedPattern::UnexpectedEnd => "unexpected end of pattern"@,
                MalformedPattern::NestedRecurse => "recurse marker directly inside another"@,
            },
    {
        match self {
            MalformedPattern::UnexpectedEnd => "unexpected end of pattern".to_owned(),
            MalformedPattern::NestedRecurse => "recurse marker directly inside another".to_owned(),
        }
    }
}

impl Pattern {
    /// The pattern with its texts as character sequences; `self@` is this.
    pub open spec fn tree(&self) -> PatternView
        decreases self,
    {
        match self {
            Pattern::Dir(component, next) => PatternView::Dir(component@, Box::new(next.tree())),
            Pattern::File(component) => PatternView::File(component@),
            Pattern::Recurse(next) => PatternView::Recurse(Box::new(next.tree())),
        }
    }

    /// Parses the text of a pattern.
    pub fn parse(pat: &str) -> (r: Result<Pattern, MalformedPattern>)
        ensures
            parsed(r) == parse_spec(pat@),
            r is Ok ==> r->Ok_0@.well_formed(),
    {
        let tokens = Lexer::new(pat).collect();
        proof {
            assert(token_views(tokens@).skip(0) =~= token_views(tokens@));
            parsed_is_well_formed(lex_spec(pat@));
        }
        Self::parse_pattern(&tokens, 0)
    }

    /// Parses the tokens from `from` on; past the last token there is
    /// nothing to parse.
    pub fn parse_pattern(tokens: &Vec<Token<'_>>, from: usize) -> (r: Result<
        Pattern,
        MalformedPattern,
    >)
        ensures
            parsed(r) == if from <= tokens@.len() {
                parse_tokens(token_views(tokens@).skip(from as int))
            } else {
                Err(MalformedPattern::UnexpectedEnd)
            },
        decreases tokens@.len() - from,
    {
        let ghost rest = token_views(tokens@).skip(from as int);
        if from >= tokens.len() {
            return Err(MalformedPattern::UnexpectedEnd);
        }
        proof {
            assert(rest.skip(1) =~= token_views(tokens@).skip(from + 1));
            assert(rest[0] == tokens@[from as int]@);
        }
        match tokens[from] {
            Token::Ellipsis => match Self::parse_pattern(tokens, from + 1) {
                Ok(next) => {
                    if next.is_recurse() {
                        Err(MalformedPattern::NestedRecurse)
                    } else {
                        Ok(Pattern::Recurse(Box::new(next)))
                    }
                },
                Err(e) => Err(e),
            },
            Token::Elem(text) => {
                let component = Component::parse(text);
                if from + 1 == tokens.len() {
                    Ok(Pattern::File(component))
                } else {
                    match Self::parse_pattern(tokens, from + 1) {
                        Ok(next) => Ok(Pattern::Dir(component, Box::new(next))),
                        Err(e) => Err(e),
                    }
                }
            },
        }
    }

    /// Whether this node is a `Recurse` node.
    pub fn is_recurse(&self) -> (b: bool)
        ensures
            b == (self@ is Recurse),
    {
        match self {
            Pattern::Recurse(_) => true,
            _ => false,
        }
    }

    /// Whether no `Recurse` node of this pattern holds another directly.
    pub fn is_well_formed(&self) -> (b: bool)
        ensures
            b == self@.well_formed(),
        decreases self,
    {
        match self {
            Pattern::Dir(_, next) => next.is_well_formed(),
            Pattern::File(_) => true,
            Pattern::Recurse(next) => !next.is_recurse() && next.is_well_formed(),
        }
    }
}

/// Whatever a row of tokens parses to is well formed.
pub proof fn parsed_is_well_formed(tokens: Seq<TokenView>)
    ensures
        parse_tokens(tokens) is Ok ==> parse_tokens(tokens)->Ok_0.well_formed(),
    decreases tokens.len(),
{
    if tokens.len() > 0 {
        parsed_is_well_formed(tokens.skip(1));
    }
}

/// Whether a recurse marker stands at `i` with another directly after it.
pub open spec fn doubled_at(tokens: Seq<TokenView>, i: int) -> bool {
    &&& 0 <= i
    &&& i + 1 < tokens.len()
    &&& tokens[i] is Ellipsis
    &&& tokens[i + 1] is Ellipsis
}

/// A row of tokens in which a recurse marker follows another directly is
/// refused.
pub proof fn doubled_marker_is_refused(tokens: Seq<TokenView>, i: int)
    requires
        doubled_at(tokens, i),
    ensures
        parse_tokens(tokens) is Err,
    decreases tokens.len(),
{
    let rest = tokens.skip(1);
    if i == 0 {
        assert(rest[0] == tokens[1]);
        if parse_tokens(rest) is Ok {
            assert(parse_tokens(rest)->Ok_0 is Recurse);
        }
    } else {
        assert(rest[i - 1] == tokens[i]);
        assert(rest[i] == tokens[i + 1]);
        doubled_marker_is_refused(rest, i - 1);
    }
}

/// A row of tokens is a pattern exactly when it is not empty, ends in a
/// segment, and holds no recurse marker directly after another. What it
/// parses to is a `Recurse` node exactly when the row begins with a marker.
pub proof fn accepted_rows(tokens: Seq<TokenView>)
    ensures
        parse_tokens(tokens) is Ok <==> {
            &&& tokens.len() > 0
            &&& tokens.last() is Elem
            &&& forall|i: int| !doubled_at(tokens, i)
        },
        parse_tokens(tokens) is Ok ==> (parse_tokens(tokens)->Ok_0 is Recurse <==> tokens[0] is Ellipsis),
    decreases tokens.len(),
{
    if tokens.len() > 0 {
        let rest = tokens.skip(1);
        accepted_rows(rest);
        if tokens.len() > 1 {
            assert(rest.last() == tokens.last());
            assert(rest[0] == tokens[1]);
            assert forall|i: int| 0 <= i implies doubled_at(rest, i) == doubled_at(
                tokens,
                i + 1,
            ) by {
                if i + 1 < rest.len() {
                    assert(rest[i] == tokens[i + 1]);
                    assert(rest[i + 1] == tokens[i + 2]);
                }
            }
            if exists|i: int| doubled_at(tokens, i) {
                let i = choose|i: int| doubled_at(tokens, i);
                doubled_marker_is_refused(tokens, i);
            } else {
                assert forall|i: int| !doubled_at(rest, i) by {
                    assert(!doubled_at(tokens, i + 1));
                }
                if tokens[0] is Ellipsis {
                    assert(!doubled_at(tokens, 0));
                }
            }
        }
    }
}

} // verus!
