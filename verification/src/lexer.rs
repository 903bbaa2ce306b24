//! Splitting a pattern's text into pieces, and the pieces into tokens.

use crate::text::{chars_of, has_at, occurs_at, same_text};
use std::collections::VecDeque;
use vstd::prelude::*;

verus! {

/// The texts of a row of string slices.
pub open spec fn texts(items: Seq<&str>) -> Seq<Seq<char>> {
    Seq::new(items.len(), |i: int| items[i]@)
}

/// The texts of a row of character vectors.
pub open spec fn rows(items: Seq<Vec<char>>) -> Seq<Seq<char>> {
    Seq::new(items.len(), |i: int| items[i]@)
}

/// The first delimiter, counted from `k` on, that stands in `s` at `at`.
pub open spec fn delim_from(s: Seq<char>, delims: Seq<Seq<char>>, at: int, k: int) -> Option<int>
    decreases delims.len() - k,
{
    if k < 0 || k >= delims.len() {
        None
    } else if occurs_at(s, delims[k], at) {
        Some(k)
    } else {
        delim_from(s, delims, at, k + 1)
    }
}

/// The delimiter that stands in `s` at `at`: of several, the one that comes
/// first in `delims`.
pub open spec fn delim_at(s: Seq<char>, delims: Seq<Seq<char>>, at: int) -> Option<int> {
    delim_from(s, delims, at, 0)
}

/// How many characters of `s`, from `at` on, come before the next delimiter
/// or the end of `s`.
pub open spec fn run_len(s: Seq<char>, delims: Seq<Seq<char>>, at: int) -> nat
    decreases s.len() - at,
{
    if at < 0 || at >= s.len() || delim_at(s, delims, at) is Some {
        0
    } else {
        1 + run_len(s, delims, at + 1)
    }
}

/// The length of the piece of `s` that begins at `at`: that of the delimiter
/// standing there, or else that of the run up to the next delimiter.
pub open spec fn piece_len(s: Seq<char>, delims: Seq<Seq<char>>, at: int) -> nat {
    match delim_at(s, delims, at) {
        Some(k) => delims[k].len(),
        None => run_len(s, delims, at),
    }
}

/// The pieces of `s` from `at` on.
pub open spec fn chop_from(s: Seq<char>, delims: Seq<Seq<char>>, at: int) -> Seq<Seq<char>>
    decreases s.len() - at,
{
    let n = piece_len(s, delims, at);
    if at < 0 || n == 0 || at + n > s.len() {
        Seq::empty()
    } else {
        seq![s.subrange(at, at + n)] + chop_from(s, delims, at + n)
    }
}

/// The pieces that `s` falls into: every delimiter is a piece of its own, and
/// so is every longest stretch between two of them. No piece is empty, and
/// the pieces in a row give `s` again.
pub open spec fn chop_spec(s: Seq<char>, delims: Seq<Seq<char>>) -> Seq<Seq<char>> {
    chop_from(s, delims, 0)
}

/// Looks for a delimiter standing in `hay` at `at`.
fn find_delim(hay: &[char], delims: &Vec<Vec<char>>, at: usize) -> (r: Option<usize>)
    ensures
        match r {
            Some(k) => {
                &&& k < delims@.len()
                &&& occurs_at(hay@, delims@[k as int]@, at as int)
                &&& delim_at(hay@, rows(delims@), at as int) == Some(k as int)
            },
            None => delim_at(hay@, rows(delims@), at as int) is None,
        },
{
    let mut k: usize = 0;
    while k < delims.len()
        invariant
            k <= delims@.len(),
            delim_from(hay@, rows(delims@), at as int, k as int) == delim_at(
                hay@,
                rows(delims@),
                at as int,
            ),
        decreases delims@.len() - k,
    {
        if has_at(hay, delims[k].as_slice(), at) {
            return Some(k);
        }
        k += 1;
    }
    None
}

/// Finds where the run that begins at `at` ends.
fn run_end(hay: &[char], delims: &Vec<Vec<char>>, at: usize) -> (end: usize)
    requires
        at <= hay@.len(),
    ensures
        end == at + run_len(hay@, rows(delims@), at as int),
        end <= hay@.len(),
{
    let len: usize = hay.len();
    let mut end: usize = at;
    while end < len
        invariant
            len == hay@.len(),
            at <= end <= len,
            at + run_len(hay@, rows(delims@), at as int) == end + run_len(
                hay@,
                rows(delims@),
                end as int,
            ),
        decreases len - end,
    {
        match find_delim(hay, delims, end) {
            Some(_) => {
                return end;
            },
            None => {
                end += 1;
            },
        }
    }
    end
}

/// Splits `s` at every delimiter, keeping the delimiters as pieces.
///
/// Where two delimiters stand at one position, the one that comes first in
/// `delims` is taken. An empty delimiter would stand everywhere and is not
/// admitted.
pub fn chop<'a>(s: &'a str, delims: &[&str]) -> (out: Vec<&'a str>)
    requires
        forall|k: int| 0 <= k < delims@.len() ==> (#[trigger] delims@[k])@.len() > 0,
    ensures
        texts(out@) == chop_spec(s@, texts(delims@)),
{
    let hay = chars_of(s);
    let mut marks: Vec<Vec<char>> = Vec::new();
    let mut k: usize = 0;
    while k < delims.len()
        invariant
            k <= delims@.len(),
            marks@.len() == k,
            forall|j: int| 0 <= j < k ==> (#[trigger] marks@[j])@ == delims@[j]@,
        decreases delims@.len() - k,
    {
        marks.push(chars_of(delims[k]));
        k += 1;
    }
    assert(rows(marks@) =~= texts(delims@));
    let len: usize = hay.len();
    let mut out: Vec<&'a str> = Vec::new();
    let mut at: usize = 0;
    while at < len
        invariant
            hay@ == s@,
            len == hay@.len(),
            at <= len,
            rows(marks@) == texts(delims@),
            forall|j: int| 0 <= j < marks@.len() ==> (#[trigger] marks@[j])@.len() > 0,
            texts(out@) + chop_from(s@, texts(delims@), at as int) == chop_spec(
                s@,
                texts(delims@),
            ),
        decreases len - at,
    {
        let end: usize = match find_delim(hay.as_slice(), &marks, at) {
            Some(k) => at + marks[k].len(),
            None => run_end(hay.as_slice(), &marks, at),
        };
        let piece = s.substring_char(at, end);
        let ghost before = texts(out@);
        out.push(piece);
        proof {
            let rest = chop_from(s@, texts(delims@), end as int);
            assert(texts(out@) =~= before + seq![piece@]);
            assert(chop_from(s@, texts(delims@), at as int) == seq![piece@] + rest);
            assert((before + seq![piece@]) + rest =~= before + (seq![piece@] + rest));
        }
        at = end;
    }
    assert(texts(out@) + Seq::<Seq<char>>::empty() =~= texts(out@));
    out
}

/// What `delim_from` finds stands at `at`, and no delimiter between `k` and
/// it does; where it finds none, none from `k` on stands there.
pub proof fn found_delim_is_first(s: Seq<char>, delims: Seq<Seq<char>>, at: int, k: int)
    requires
        0 <= k,
    ensures
        match delim_from(s, delims, at, k) {
            Some(j) => {
                &&& k <= j < delims.len()
                &&& occurs_at(s, delims[j], at)
                &&& forall|i: int| k <= i < j ==> !occurs_at(s, #[trigger] delims[i], at)
            },
            None => forall|i: int| k <= i < delims.len() ==> !occurs_at(s, #[trigger] delims[i], at),
        },
    decreases delims.len() - k,
{
    if k < delims.len() && !occurs_at(s, delims[k], at) {
        found_delim_is_first(s, delims, at, k + 1);
    }
}

/// A run holds no place at which a delimiter stands, and ends at the end of
/// the text or where a delimiter stands.
pub proof fn run_is_free_of_delimiters(s: Seq<char>, delims: Seq<Seq<char>>, at: int)
    requires
        0 <= at <= s.len(),
    ensures
        at + run_len(s, delims, at) <= s.len(),
        forall|j: int|
            at <= j < at + run_len(s, delims, at) ==> (#[trigger] delim_at(s, delims, j)) is None,
        at + run_len(s, delims, at) == s.len() || delim_at(
            s,
            delims,
            at + run_len(s, delims, at),
        ) is Some,
    decreases s.len() - at,
{
    if at < s.len() && delim_at(s, delims, at) is None {
        run_is_free_of_delimiters(s, delims, at + 1);
    }
}

/// Where no delimiter is empty, no piece is empty, and the pieces from `at`
/// on, one after the other, are the text from `at` on.
pub proof fn pieces_give_the_text_again(s: Seq<char>, delims: Seq<Seq<char>>, at: int)
    requires
        0 <= at <= s.len(),
        forall|k: int| 0 <= k < delims.len() ==> (#[trigger] delims[k]).len() > 0,
    ensures
        chop_from(s, delims, at).flatten() == s.skip(at),
        forall|i: int|
            0 <= i < chop_from(s, delims, at).len() ==> (#[trigger] chop_from(s, delims, at)[i]).len()
                > 0,
    decreases s.len() - at,
{
    let n = piece_len(s, delims, at);
    let pieces = chop_from(s, delims, at);
    found_delim_is_first(s, delims, at, 0);
    run_is_free_of_delimiters(s, delims, at);
    if at == s.len() {
        assert(pieces =~= Seq::<Seq<char>>::empty());
        assert(s.skip(at) =~= Seq::<char>::empty());
    } else {
        assert(n > 0 && at + n <= s.len());
        let head = s.subrange(at, at + n);
        let rest = chop_from(s, delims, at + n);
        pieces_give_the_text_again(s, delims, at + n);
        assert(pieces == seq![head] + rest);
        assert(pieces.first() == head);
        assert(pieces.drop_first() =~= rest);
        assert(head + s.skip(at + n) =~= s.skip(at));
        assert forall|i: int| 0 <= i < pieces.len() implies (#[trigger] pieces[i]).len() > 0 by {
            if i > 0 {
                assert(pieces[i] == rest[i - 1]);
            }
        }
    }
}

/// Whether some delimiter stands somewhere in `piece`.
pub open spec fn holds_delim(piece: Seq<char>, delims: Seq<Seq<char>>) -> bool {
    exists|k: int, j: int| 0 <= k < delims.len() && #[trigger] occurs_at(piece, delims[k], j)
}

/// Where no delimiter is empty, every piece is a delimiter or holds none.
pub proof fn pieces_are_delimiters_or_runs(s: Seq<char>, delims: Seq<Seq<char>>, at: int, i: int)
    requires
        0 <= at <= s.len(),
        forall|k: int| 0 <= k < delims.len() ==> (#[trigger] delims[k]).len() > 0,
        0 <= i < chop_from(s, delims, at).len(),
    ensures
        delims.contains(chop_from(s, delims, at)[i]) || !holds_delim(
            chop_from(s, delims, at)[i],
            delims,
        ),
    decreases s.len() - at,
{
    let n = piece_len(s, delims, at);
    let head = s.subrange(at, at + n);
    let rest = chop_from(s, delims, at + n);
    found_delim_is_first(s, delims, at, 0);
    run_is_free_of_delimiters(s, delims, at);
    assert(chop_from(s, delims, at) == seq![head] + rest);
    if i > 0 {
        assert(chop_from(s, delims, at)[i] == rest[i - 1]);
        pieces_are_delimiters_or_runs(s, delims, at + n, i - 1);
    } else {
        match delim_at(s, delims, at) {
            Some(k) => {
                assert(head == delims[k]);
            },
            None => {
                if holds_delim(head, delims) {
                    let (k, j) = choose|k: int, j: int|
                        0 <= k < delims.len() && #[trigger] occurs_at(head, delims[k], j);
                    assert(delims[k].len() > 0);
                    assert(s.subrange(at + j, at + j + delims[k].len()) =~= head.subrange(
                        j,
                        j + delims[k].len(),
                    ));
                    assert(occurs_at(s, delims[k], at + j));
                    assert(delim_at(s, delims, at + j) is None);
                    found_delim_is_first(s, delims, at + j, 0);
                }
            },
        }
    }
}

/// The text of the segment separator, `/`.
pub open spec fn separator() -> Seq<char> {
    seq!['/']
}

/// The text of the recurse marker, `...`.
pub open spec fn ellipsis() -> Seq<char> {
    seq!['.', '.', '.']
}

/// The two delimiters of a pattern, the separator first.
pub open spec fn pattern_delims() -> Seq<Seq<char>> {
    seq![separator(), ellipsis()]
}

/// The separator and the recurse marker never stand at the same place, so
/// it does not matter which of the two is looked for first.
pub proof fn delimiters_never_meet(s: Seq<char>, at: int)
    ensures
        !(occurs_at(s, separator(), at) && occurs_at(s, ellipsis(), at)),
{
    if occurs_at(s, separator(), at) && occurs_at(s, ellipsis(), at) {
        assert(s.subrange(at, at + 1)[0] == '/');
        assert(s.subrange(at, at + 3)[0] == '.');
    }
}

/// One token of a pattern.
#[derive(Debug, PartialEq, Eq, Clone, Copy)]
pub enum Token<'a> {
    /// The text of one segment.
    Elem(&'a str),
    /// The recurse marker.
    Ellipsis,
}

/// A [`Token`] with its text as a character sequence.
pub ghost enum TokenView {
    Elem(Seq<char>),
    Ellipsis,
}

impl<'a> View for Token<'a> {
    type V = TokenView;

    open spec fn view(&self) -> TokenView {
        match self {
            Token::Elem(text) => TokenView::Elem(text@),
            Token::Ellipsis => TokenView::Ellipsis,
        }
    }
}

/// The views of a row of tokens.
pub open spec fn token_views(tokens: Seq<Token<'_>>) -> Seq<TokenView> {
    Seq::new(tokens.len(), |i: int| tokens[i]@)
}

/// The token that a piece stands for; the separator stands for none.
pub open spec fn token_of(piece: Seq<char>) -> Option<TokenView> {
    if piece == separator() {
        None
    } else if piece == ellipsis() {
        Some(TokenView::Ellipsis)
    } else {
        Some(TokenView::Elem(piece))
    }
}

/// The tokens of a row of pieces, in order.
pub open spec fn tokens_of(pieces: Seq<Seq<char>>) -> Seq<TokenView>
    decreases pieces.len(),
{
    if pieces.len() == 0 {
        Seq::empty()
    } else {
        match token_of(pieces[0]) {
            Some(token) => seq![token] + tokens_of(pieces.skip(1)),
            None => tokens_of(pieces.skip(1)),
        }
    }
}

/// The tokens of a pattern's text.
pub open spec fn lex_spec(pattern: Seq<char>) -> Seq<TokenView> {
    tokens_of(chop_spec(pattern, pattern_delims()))
}

/// Hands out the tokens of a pattern one by one.
pub struct Lexer<'a> {
    tokens: VecDeque<&'a str>,
}

impl<'a> Lexer<'a> {
    /// The pieces that have not been read yet.
    pub closed spec fn pieces(&self) -> Seq<Seq<char>> {
        texts(self.tokens@)
    }

    /// The tokens that are still to come.
    pub open spec fn remaining(&self) -> Seq<TokenView> {
        tokens_of(self.pieces())
    }

    /// A lexer at the start of `pattern`.
    pub fn new(pattern: &'a str) -> (lexer: Lexer<'a>)
        ensures
            lexer.pieces() == chop_spec(pattern@, pattern_delims()),
            lexer.remaining() == lex_spec(pattern@),
    {
        let delims: [&str; 2] = ["/", "..."];
        proof {
            reveal_strlit("/");
            reveal_strlit("...");
            assert("/"@ =~= separator());
            assert("..."@ =~= ellipsis());
            assert(texts(delims@) =~= pattern_delims());
        }
        let pieces = chop(pattern, delims.as_slice());
        let mut tokens: VecDeque<&'a str> = VecDeque::new();
        let mut i: usize = 0;
        while i < pieces.len()
            invariant
                i <= pieces@.len(),
                tokens@ == pieces@.take(i as int),
            decreases pieces@.len() - i,
        {
            tokens.push_back(pieces[i]);
            i += 1;
            assert(tokens@ =~= pieces@.take(i as int));
        }
        assert(tokens@ =~= pieces@);
        Lexer { tokens }
    }

    /// The next token, or `None` when the pattern is at its end.
    pub fn next(&mut self) -> (token: Option<Token<'a>>)
        ensures
            old(self).remaining() == match token {
                Some(t) => seq![t@] + final(self).remaining(),
                None => Seq::empty(),
            },
            token is None ==> final(self).remaining().len() == 0,
    {
        loop
            invariant
                self.remaining() == old(self).remaining(),
            decreases self.tokens@.len(),
        {
            let ghost before = self.tokens@;
            match self.tokens.pop_front() {
                None => {
                    return None;
                },
                Some(piece) => {
                    proof {
                        reveal_strlit("/");
                        reveal_strlit("...");
                        assert("/"@ =~= separator());
                        assert("..."@ =~= ellipsis());
                        assert(texts(before).skip(1) =~= texts(self.tokens@));
                    }
                    if same_text(piece, "/") {
                    } else if same_text(piece, "...") {
                        return Some(Token::Ellipsis);
                    } else {
                        return Some(Token::Elem(piece));
                    }
                },
            }
        }
    }

    /// All the tokens that are still to come.
    pub fn collect(self) -> (tokens: Vec<Token<'a>>)
        ensures
            token_views(tokens@) == self.remaining(),
    {
        let mut lexer = self;
        let mut tokens: Vec<Token<'a>> = Vec::new();
        loop
            invariant
                token_views(tokens@) + lexer.remaining() == self.remaining(),
            decreases lexer.remaining().len(),
        {
            let ghost before = token_views(tokens@);
            match lexer.next() {
                None => {
                    assert(before + Seq::<TokenView>::empty() =~= before);
                    return tokens;
                },
                Some(token) => {
                    tokens.push(token);
                    proof {
                        let rest = lexer.remaining();
                        assert(token_views(tokens@) =~= before + seq![token@]);
                        assert((before + seq![token@]) + rest =~= before + (seq![token@] + rest));
                    }
                },
            }
        }
    }
}

} // verus!
