//! The list of directories in which a search starts.

use crate::lexer::{
    chop, chop_spec, pieces_are_delimiters_or_runs, pieces_give_the_text_again, texts,
};
use crate::text::{occurs_at, same_text};
use vstd::prelude::*;

verus! {

/// The text that parts one root from the next, `:`.
pub open spec fn root_separator() -> Seq<char> {
    seq![':']
}

/// The root that is searched where no list is given, `.`.
pub open spec fn default_root() -> Seq<char> {
    seq!['.']
}

/// The roots that a list names: what stands between its separators, in
/// order, without the empty stretches that a leading, trailing or doubled
/// separator leaves.
pub open spec fn roots_of(list: Seq<char>) -> Seq<Seq<char>> {
    chop_spec(list, seq![root_separator()]).filter(|piece: Seq<char>| piece != root_separator())
}

/// No root that a list names is empty, and none holds a separator.
pub proof fn roots_are_whole_names(list: Seq<char>, i: int)
    requires
        0 <= i < roots_of(list).len(),
    ensures
        roots_of(list)[i].len() > 0,
        !roots_of(list)[i].contains(':'),
{
    let delims = seq![root_separator()];
    let pieces = chop_spec(list, delims);
    let keep = |piece: Seq<char>| piece != root_separator();
    let root = roots_of(list)[i];
    pieces.lemma_filter_pred(keep, i);
    pieces.lemma_filter_contains_rev(keep, root);
    let j = choose|j: int| 0 <= j < pieces.len() && pieces[j] == root;
    assert(delims[0].len() > 0);
    pieces_give_the_text_again(list, delims, 0);
    pieces_are_delimiters_or_runs(list, delims, 0, j);
    assert(pieces[j].len() > 0);
    if root.contains(':') {
        let at = choose|at: int| 0 <= at < root.len() && root[at] == ':';
        assert(root.subrange(at, at + 1) =~= root_separator());
        assert(occurs_at(root, delims[0], at));
    }
}

/// The roots of a search: those that `list` names, or the current directory
/// alone where there is no list. An empty list names no root.
pub fn search_roots<'a>(list: Option<&'a str>) -> (roots: Vec<&'a str>)
    ensures
        texts(roots@) == match list {
            Some(text) => roots_of(text@),
            None => seq![default_root()],
        },
{
    let mut roots: Vec<&'a str> = Vec::new();
    match list {
        None => {
            proof {
                reveal_strlit(".");
                assert("."@ =~= default_root());
            }
            roots.push(".");
            assert(texts(roots@) =~= seq![default_root()]);
        },
        Some(text) => {
            let delims: [&str; 1] = [":"];
            proof {
                reveal_strlit(":");
                assert(":"@ =~= root_separator());
                assert(texts(delims@) =~= seq![root_separator()]);
            }
            let pieces = chop(text, delims.as_slice());
            let ghost keep = |piece: Seq<char>| piece != root_separator();
            let mut i: usize = 0;
            proof {
                reveal(Seq::filter);
                assert(texts(pieces@).take(0) =~= Seq::<Seq<char>>::empty());
                assert(texts(roots@) =~= Seq::<Seq<char>>::empty());
            }
            while i < pieces.len()
                invariant
                    i <= pieces@.len(),
                    ":"@ == root_separator(),
                    keep == |piece: Seq<char>| piece != root_separator(),
                    texts(roots@) == texts(pieces@).take(i as int).filter(keep),
                decreases pieces@.len() - i,
            {
                let piece = pieces[i];
                let ghost before = texts(roots@);
                let ghost seen = texts(pieces@).take(i + 1);
                proof {
                    reveal(Seq::filter);
                    assert(seen.drop_last() =~= texts(pieces@).take(i as int));
                    assert(seen.last() == piece@);
                }
                if !same_text(piece, ":") {
                    roots.push(piece);
                    assert(texts(roots@) =~= before.push(piece@));
                }
                i += 1;
            }
            assert(texts(pieces@).take(i as int) =~= texts(pieces@));
        },
    }
    roots
}

} // verus!
