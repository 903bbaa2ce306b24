//! Evaluating a pattern against a file system, one step at a time.
//!
//! The library never touches the file system. A context says what it needs
//! to know next ([`Eval::lookup`]); the caller finds that out and hands each
//! answer back as an [`Event`]; [`Eval::step`] decides what the answer means:
//! a result, a new context to go on with, or nothing.

use crate::component::{Component, ComponentView};
use crate::pattern::{Pattern, PatternView};
use vstd::prelude::*;

verus! {

/// A place in the file system together with the pattern still to be matched
/// below it.
#[derive(Debug)]
pub struct Eval<'a> {
    path: String,
    pattern: &'a Pattern,
}

/// An [`Eval`] over character sequences.
pub ghost struct EvalView {
    pub path: Seq<char>,
    pub pattern: PatternView,
}

/// What a context needs to know of the file system.
#[derive(Debug, PartialEq, Eq, Clone, Copy)]
pub enum Lookup<'e> {
    /// What the entry `name` directly under `dir` is.
    Stat { dir: &'e str, name: &'e str },
    /// The entries directly under `dir`.
    List { dir: &'e str },
    /// Every entry of the tree below `root`, `root` itself included.
    Walk { root: &'e str },
}

/// A [`Lookup`] over character sequences.
pub ghost enum LookupView {
    Stat { dir: Seq<char>, name: Seq<char> },
    List { dir: Seq<char> },
    Walk { root: Seq<char> },
}

impl<'e> View for Lookup<'e> {
    type V = LookupView;

    open spec fn view(&self) -> LookupView {
        match self {
            Lookup::Stat { dir, name } => LookupView::Stat { dir: dir@, name: name@ },
            Lookup::List { dir } => LookupView::List { dir: dir@ },
            Lookup::Walk { root } => LookupView::Walk { root: root@ },
        }
    }
}

/// What an entry of the file system is.
#[derive(Debug, PartialEq, Eq, Clone, Copy)]
pub enum Kind {
    /// A directory.
    Dir,
    /// A regular file.
    File,
    /// Anything else.
    Other,
}

/// How a lookup went wrong.
#[derive(Debug, PartialEq, Eq, Clone, Copy)]
pub enum Failure {
    /// There is no such entry.
    NotFound,
    /// Any other error.
    Other,
}

/// One answer of the file system.
#[derive(Debug, PartialEq, Eq, Clone, Copy)]
pub enum Event<'e> {
    /// The entry asked for exists at `path` and is of this kind.
    Stat { path: &'e str, kind: Kind },
    /// A listing holds the entry `name`, which is at `path`.
    Child { name: &'e str, path: &'e str },
    /// A walk came by the entry `name`, which is at `path`.
    Visited { name: &'e str, path: &'e str, is_dir: bool },
    /// The lookup, or one entry of it, could not be had.
    Failed(Failure),
}

/// An [`Event`] over character sequences.
pub ghost enum EventView {
    Stat { path: Seq<char>, kind: Kind },
    Child { name: Seq<char>, path: Seq<char> },
    Visited { name: Seq<char>, path: Seq<char>, is_dir: bool },
    Failed(Failure),
}

impl<'e> View for Event<'e> {
    type V = EventView;

    open spec fn view(&self) -> EventView {
        match self {
            Event::Stat { path, kind } => EventView::Stat { path: path@, kind: *kind },
            Event::Child { name, path } => EventView::Child { name: name@, path: path@ },
            Event::Visited { name, path, is_dir } => EventView::Visited {
                name: name@,
                path: path@,
                is_dir: *is_dir,
            },
            Event::Failed(failure) => EventView::Failed(*failure),
        }
    }
}

/// What one answer of the file system means for the search.
#[derive(Debug)]
pub enum Verdict<'a> {
    /// The path is a result.
    Found(String),
    /// The search goes on in this context.
    Descend(Eval<'a>),
    /// Nothing comes of it, and nothing is to be said.
    Skip,
    /// Nothing comes of it, and the caller should say so.
    Report,
}

/// A [`Verdict`] over character sequences.
pub ghost enum VerdictView {
    Found(Seq<char>),
    Descend(EvalView),
    Skip,
    Report,
}

impl<'a> View for Verdict<'a> {
    type V = VerdictView;

    open spec fn view(&self) -> VerdictView {
        match self {
            Verdict::Found(path) => VerdictView::Found(path@),
            Verdict::Descend(eval) => VerdictView::Descend(eval@),
            Verdict::Skip => VerdictView::Skip,
            Verdict::Report => VerdictView::Report,
        }
    }
}

impl EvalView {
    /// What this context needs to know: a literal segment is looked up by
    /// its name, any other is sought in a listing, and a `Recurse` node in a
    /// walk of the whole tree.
    pub open spec fn lookup(self) -> LookupView {
        match self.pattern {
            PatternView::Dir(ComponentView::Full(name), _) => LookupView::Stat {
                dir: self.path,
                name,
            },
            PatternView::File(ComponentView::Full(name)) => LookupView::Stat {
                dir: self.path,
                name,
            },
            PatternView::Dir(_, _) => LookupView::List { dir: self.path },
            PatternView::File(_) => LookupView::List { dir: self.path },
            PatternView::Recurse(_) => LookupView::Walk { root: self.path },
        }
    }

    /// What `event` means in this context.
    ///
    /// A missing entry is passed over in silence, any other failure is
    /// reported. An entry looked up by name counts only if it is of the kind
    /// the pattern asks for. An entry of a listing counts if its name
    /// matches, whatever it is. An entry of a walk counts if its name
    /// matches and, where more segments follow, it is a directory. An event
    /// that does not answer this context's lookup means nothing.
    pub open spec fn step(self, event: EventView) -> VerdictView {
        match event {
            EventView::Failed(Failure::NotFound) => VerdictView::Skip,
            EventView::Failed(Failure::Other) => VerdictView::Report,
            EventView::Stat { path, kind } => match self.pattern {
                PatternView::Dir(component, next) => if component is Full && kind is Dir {
                    VerdictView::Descend(EvalView { path, pattern: *next })
                } else {
                    VerdictView::Skip
                },
                PatternView::File(component) => if component is Full && kind is File {
                    VerdictView::Found(path)
                } else {
                    VerdictView::Skip
                },
                PatternView::Recurse(_) => VerdictView::Skip,
            },
            EventView::Child { name, path } => match self.pattern {
                PatternView::Dir(component, next) => if !(component is Full) && component.matches(
                    name,
                ) {
                    VerdictView::Descend(EvalView { path, pattern: *next })
                } else {
                    VerdictView::Skip
                },
                PatternView::File(component) => if !(component is Full) && component.matches(
                    name,
                ) {
                    VerdictView::Found(path)
                } else {
                    VerdictView::Skip
                },
                PatternView::Recurse(_) => VerdictView::Skip,
            },
            EventView::Visited { name, path, is_dir } => match self.pattern {
                PatternView::Recurse(next) => match *next {
                    PatternView::File(component) => if component.matches(name) {
                        VerdictView::Found(path)
                    } else {
                        VerdictView::Skip
                    },
                    PatternView::Dir(component, rest) => if is_dir && component.matches(name) {
                        VerdictView::Descend(EvalView { path, pattern: *rest })
                    } else {
                        VerdictView::Skip
                    },
                    PatternView::Recurse(_) => VerdictView::Skip,
                },
                _ => VerdictView::Skip,
            },
        }
    }
}

impl<'a> View for Eval<'a> {
    type V = EvalView;

    closed spec fn view(&self) -> EvalView {
        EvalView { path: self.path@, pattern: self.pattern@ }
    }
}

impl<'a> Eval<'a> {
    /// Every context holds a well-formed pattern.
    #[verifier::type_invariant]
    spec fn holds_well_formed_pattern(self) -> bool {
        self.pattern@.well_formed()
    }

    /// A context at `path` with the whole of `pattern` still to be matched.
    ///
    /// The pattern has to be well formed, as every parsed pattern is; one
    /// built by hand can be tested with [`Pattern::is_well_formed`].
    pub fn new(path: &str, pattern: &'a Pattern) -> (eval: Eval<'a>)
        requires
            pattern@.well_formed(),
        ensures
            eval@ == (EvalView { path: path@, pattern: pattern@ }),
    {
        Eval { path: path.to_owned(), pattern }
    }

    /// Where this context stands.
    pub fn path(&self) -> (path: &str)
        ensures
            path@ == self@.path,
    {
        self.path.as_str()
    }

    /// The pattern still to be matched.
    pub fn pattern(&self) -> (pattern: &'a Pattern)
        ensures
            pattern@ == self@.pattern,
            pattern@.well_formed(),
    {
        proof {
            use_type_invariant(self);
        }
        self.pattern
    }

    /// What this context needs to know of the file system.
    pub fn lookup(&self) -> (lookup: Lookup<'_>)
        ensures
            lookup@ == self@.lookup(),
    {
        match self.pattern {
            Pattern::Dir(Component::Full(name), _) => Lookup::Stat {
                dir: self.path.as_str(),
                name: name.as_str(),
            },
            Pattern::File(Component::Full(name)) => Lookup::Stat {
                dir: self.path.as_str(),
                name: name.as_str(),
            },
            Pattern::Dir(_, _) => Lookup::List { dir: self.path.as_str() },
            Pattern::File(_) => Lookup::List { dir: self.path.as_str() },
            Pattern::Recurse(_) => Lookup::Walk { root: self.path.as_str() },
        }
    }

    /// Decides what one answer of the file system means.
    pub fn step(&self, event: &Event<'_>) -> (verdict: Verdict<'a>)
        ensures
            verdict@ == self@.step(event@),
    {
        proof {
            use_type_invariant(self);
            reveal_with_fuel(Pattern::tree, 2);
            reveal_with_fuel(PatternView::well_formed, 2);
        }
        match event {
            Event::Failed(Failure::NotFound) => Verdict::Skip,
            Event::Failed(Failure::Other) => Verdict::Report,
            Event::Stat { path, kind } => match self.pattern {
                Pattern::Dir(Component::Full(_), next) => match kind {
                    Kind::Dir => Verdict::Descend(Eval::new(path, next)),
                    _ => Verdict::Skip,
                },
                Pattern::File(Component::Full(_)) => match kind {
                    Kind::File => Verdict::Found((*path).to_owned()),
                    _ => Verdict::Skip,
                },
                _ => Verdict::Skip,
            },
            Event::Child { name, path } => match self.pattern {
                Pattern::Dir(Component::Full(_), _) => Verdict::Skip,
                Pattern::File(Component::Full(_)) => Verdict::Skip,
                Pattern::Dir(component, next) => if component.matches(name) {
                    Verdict::Descend(Eval::new(path, next))
                } else {
                    Verdict::Skip
                },
                Pattern::File(component) => if component.matches(name) {
                    Verdict::Found((*path).to_owned())
                } else {
                    Verdict::Skip
                },
                Pattern::Recurse(_) => Verdict::Skip,
            },
            Event::Visited { name, path, is_dir } => match self.pattern {
                Pattern::Recurse(next) => match &**next {
                    Pattern::File(component) => if component.matches(name) {
                        Verdict::Found((*path).to_owned())
                    } else {
                        Verdict::Skip
                    },
                    Pattern::Dir(component, rest) => if *is_dir && component.matches(name) {
                        Verdict::Descend(Eval::new(path, rest))
                    } else {
                        Verdict::Skip
                    },
                    Pattern::Recurse(_) => Verdict::Skip,
                },
                _ => Verdict::Skip,
            },
        }
    }
}

/// A step asks for a report on a failure other than a missing entry, and
/// on nothing else.
pub proof fn only_other_failures_are_reported(eval: EvalView, event: EventView)
    ensures
        eval.step(event) is Report <==> event == EventView::Failed(Failure::Other),
{
}

/// A result, and the place of a context to go on with, is the path that the
/// event brought.
pub proof fn paths_come_from_events(eval: EvalView, event: EventView)
    ensures
        match eval.step(event) {
            VerdictView::Found(path) => match event {
                EventView::Stat { path: at, .. } => path == at,
                EventView::Child { path: at, .. } => path == at,
                EventView::Visited { path: at, .. } => path == at,
                EventView::Failed(_) => false,
            },
            VerdictView::Descend(next) => match event {
                EventView::Stat { path: at, .. } => next.path == at,
                EventView::Child { path: at, .. } => next.path == at,
                EventView::Visited { path: at, .. } => next.path == at,
                EventView::Failed(_) => false,
            },
            _ => true,
        },
{
}

/// Only an event that answers the context's lookup brings a result or a
/// context to go on with.
pub proof fn only_answers_count(eval: EvalView, event: EventView)
    requires
        eval.step(event) is Found || eval.step(event) is Descend,
    ensures
        match eval.lookup() {
            LookupView::Stat { .. } => event is Stat,
            LookupView::List { .. } => event is Child,
            LookupView::Walk { .. } => event is Visited,
        },
{
}

/// The context that a step goes on with holds a smaller pattern, which is
/// well formed where the pattern of the context before it was: a search
/// goes no deeper into contexts than its pattern has nodes.
pub proof fn descent_shortens_the_pattern(eval: EvalView, event: EventView)
    requires
        eval.step(event) is Descend,
    ensures
        eval.step(event)->Descend_0.pattern.size() < eval.pattern.size(),
        eval.pattern.well_formed() ==> eval.step(event)->Descend_0.pattern.well_formed(),
{
    reveal_with_fuel(PatternView::size, 3);
    reveal_with_fuel(PatternView::well_formed, 3);
}

} // verus!
