use editx::component::Component;
use editx::eval::{Eval, Event, Failure, Kind, Lookup, Verdict};
use editx::pattern::Pattern;
use std::path::Path;

#[test]
fn test_path() {
    let path = Path::new("x");

    let base = Path::new("blah");
    let path = base.join(path);
    assert_eq!(path, Path::new("blah/x"));
}

/// A file system as a list of paths, each marked as a directory or not.
fn kind_of(fs: &[(&str, bool)], path: &str) -> Option<bool> {
    fs.iter().find(|(p, _)| *p == path).map(|(_, is_dir)| *is_dir)
}

fn name_of(path: &str) -> &str {
    match path.rfind('/') {
        Some(at) => &path[at + 1..],
        None => path,
    }
}

fn apply(fs: &[(&str, bool)], verdict: Verdict, found: &mut Vec<String>, reports: &mut usize) {
    match verdict {
        Verdict::Found(path) => found.push(path),
        Verdict::Descend(eval) => search(fs, &eval, found, reports),
        Verdict::Skip => {}
        Verdict::Report => *reports += 1,
    }
}

/// Answers the lookups of `eval` from `fs` until the search is done.
fn search(fs: &[(&str, bool)], eval: &Eval, found: &mut Vec<String>, reports: &mut usize) {
    match eval.lookup() {
        Lookup::Stat { dir, name } => {
            let path = format!("{}/{}", dir, name);
            let event = match kind_of(fs, &path) {
                Some(true) => Event::Stat { path: &path, kind: Kind::Dir },
                Some(false) => Event::Stat { path: &path, kind: Kind::File },
                None => Event::Failed(Failure::NotFound),
            };
            apply(fs, eval.step(&event), found, reports);
        }
        Lookup::List { dir } => match kind_of(fs, dir) {
            None => apply(fs, eval.step(&Event::Failed(Failure::NotFound)), found, reports),
            Some(false) => apply(fs, eval.step(&Event::Failed(Failure::Other)), found, reports),
            Some(true) => {
                for (path, _) in fs {
                    if path.len() > dir.len() && path.starts_with(dir) && name_of(path).len() + dir.len() + 1 == path.len() {
                        let event = Event::Child { name: name_of(path), path };
                        apply(fs, eval.step(&event), found, reports);
                    }
                }
            }
        },
        Lookup::Walk { root } => match kind_of(fs, root) {
            None => apply(fs, eval.step(&Event::Failed(Failure::NotFound)), found, reports),
            Some(_) => {
                for (path, is_dir) in fs {
                    if *path == root || (path.starts_with(root) && path[root.len()..].starts_with('/')) {
                        let event = Event::Visited { name: name_of(path), path, is_dir: *is_dir };
                        apply(fs, eval.step(&event), found, reports);
                    }
                }
            }
        },
    }
}

fn run(fs: &[(&str, bool)], root: &str, pattern: &str) -> (Vec<String>, usize) {
    let pattern = Pattern::parse(pattern).unwrap();
    let mut found = Vec::new();
    let mut reports = 0;
    search(fs, &Eval::new(root, &pattern), &mut found, &mut reports);
    found.sort();
    (found, reports)
}

const TARGETS: [(&str, bool); 6] = [
    ("root", true),
    ("root/a", true),
    ("root/a/b", true),
    ("root/a/b/target.txt", false),
    ("root/x", true),
    ("root/x/target.txt", false),
];

const FOO_BAR: [(&str, bool); 5] = [
    ("root", true),
    ("root/foo", true),
    ("root/foo/inner", false),
    ("root/bar", true),
    ("root/bar/inner", false),
];

#[test]
fn recurse_finds_the_file_at_every_depth() {
    let (found, reports) = run(&TARGETS, "root", "...target.txt");
    assert_eq!(found, vec!["root/a/b/target.txt", "root/x/target.txt"]);
    assert_eq!(reports, 0);
}

#[test]
fn recurse_below_a_directory_stays_below_it() {
    let (found, reports) = run(&TARGETS, "root", "a...target.txt");
    assert_eq!(found, vec!["root/a/b/target.txt"]);
    assert_eq!(reports, 0);
}

#[test]
fn recurse_into_directories_matches_at_depth_zero_and_deeper() {
    let (found, _) = run(&TARGETS, "root", "...a/b/target.txt");
    assert_eq!(found, vec!["root/a/b/target.txt"]);
    let (found, _) = run(&TARGETS, "root", "...b/target.txt");
    assert_eq!(found, vec!["root/a/b/target.txt"]);
    let (found, _) = run(&TARGETS, "root", "...*/target.txt");
    assert_eq!(found, vec!["root/a/b/target.txt", "root/x/target.txt"]);
}

#[test]
fn prefix_component_selects_the_directory() {
    let (found, reports) = run(&FOO_BAR, "root", "fo*/inner");
    assert_eq!(found, vec!["root/foo/inner"]);
    assert_eq!(reports, 0);
    let (found, _) = run(&FOO_BAR, "root", "*oo/inner");
    assert_eq!(found, vec!["root/foo/inner"]);
    let (found, _) = run(&FOO_BAR, "root", "*/inner");
    assert_eq!(found, vec!["root/bar/inner", "root/foo/inner"]);
}

#[test]
fn wildcard_file_lists_the_directory() {
    let (found, _) = run(&FOO_BAR, "root", "foo/*");
    assert_eq!(found, vec!["root/foo/inner"]);
    let (found, _) = run(&FOO_BAR, "root", "*");
    assert_eq!(found, vec!["root/bar", "root/foo"]);
}

#[test]
fn literal_segments_ask_for_the_kind() {
    let (found, reports) = run(&FOO_BAR, "root", "foo/inner");
    assert_eq!(found, vec!["root/foo/inner"]);
    assert_eq!(reports, 0);
    let (found, reports) = run(&FOO_BAR, "root", "foo");
    assert_eq!(found, Vec::<String>::new());
    assert_eq!(reports, 0);
    let (found, reports) = run(&FOO_BAR, "root", "foo/inner/deeper");
    assert_eq!(found, Vec::<String>::new());
    assert_eq!(reports, 0);
}

#[test]
fn missing_root_gives_nothing_and_no_report() {
    for pattern in ["a/b", "a", "*/a", "*", "...a", "...a/b"] {
        let (found, reports) = run(&TARGETS, "nowhere", pattern);
        assert_eq!(found, Vec::<String>::new());
        assert_eq!(reports, 0);
    }
}

#[test]
fn unreadable_root_gives_nothing_and_one_report() {
    let pattern = Pattern::parse("*").unwrap();
    let eval = Eval::new("root", &pattern);
    assert_eq!(eval.lookup(), Lookup::List { dir: "root" });
    assert!(matches!(eval.step(&Event::Failed(Failure::Other)), Verdict::Report));
    let (found, reports) = run(&[("root/foo", false)], "root/foo", "*");
    assert_eq!(found, Vec::<String>::new());
    assert_eq!(reports, 1);
}

#[test]
fn same_pattern_and_same_tree_give_the_same_results() {
    let first = run(&TARGETS, "root", "...target.txt");
    let second = run(&TARGETS, "root", "...target.txt");
    assert_eq!(first, second);
}

#[test]
fn lookup_depends_on_the_node() {
    let literal_dir = Pattern::parse("a/b").unwrap();
    assert_eq!(Eval::new("r", &literal_dir).lookup(), Lookup::Stat { dir: "r", name: "a" });
    let literal_file = Pattern::parse("a").unwrap();
    assert_eq!(Eval::new("r", &literal_file).lookup(), Lookup::Stat { dir: "r", name: "a" });
    let wild_dir = Pattern::parse("a*/b").unwrap();
    assert_eq!(Eval::new("r", &wild_dir).lookup(), Lookup::List { dir: "r" });
    let wild_file = Pattern::parse("*a").unwrap();
    assert_eq!(Eval::new("r", &wild_file).lookup(), Lookup::List { dir: "r" });
    let recurse = Pattern::parse("...a").unwrap();
    assert_eq!(Eval::new("r", &recurse).lookup(), Lookup::Walk { root: "r" });
}

#[test]
fn eval_keeps_its_place_and_pattern() {
    let pattern = Pattern::parse("a/b").unwrap();
    let eval = Eval::new("some/where", &pattern);
    assert_eq!(eval.path(), "some/where");
    assert_eq!(eval.pattern(), &pattern);
}

#[test]
fn step_on_a_stat() {
    let pattern = Pattern::parse("a/b").unwrap();
    let eval = Eval::new("r", &pattern);
    match eval.step(&Event::Stat { path: "r/a", kind: Kind::Dir }) {
        Verdict::Descend(next) => {
            assert_eq!(next.path(), "r/a");
            assert_eq!(next.pattern(), &Pattern::File(Component::Full("b".into())));
            assert!(matches!(
                next.step(&Event::Stat { path: "r/a/b", kind: Kind::File }),
                Verdict::Found(path) if path == "r/a/b"
            ));
            assert!(matches!(next.step(&Event::Stat { path: "r/a/b", kind: Kind::Dir }), Verdict::Skip));
            assert!(matches!(next.step(&Event::Stat { path: "r/a/b", kind: Kind::Other }), Verdict::Skip));
        }
        other => panic!("{:?}", other),
    }
    assert!(matches!(eval.step(&Event::Stat { path: "r/a", kind: Kind::File }), Verdict::Skip));
    assert!(matches!(eval.step(&Event::Stat { path: "r/a", kind: Kind::Other }), Verdict::Skip));
    assert!(matches!(eval.step(&Event::Failed(Failure::NotFound)), Verdict::Skip));
    assert!(matches!(eval.step(&Event::Failed(Failure::Other)), Verdict::Report));
}

#[test]
fn step_on_a_child_does_not_ask_for_the_kind() {
    let pattern = Pattern::parse("*.d/x").unwrap();
    let eval = Eval::new("r", &pattern);
    assert!(matches!(
        eval.step(&Event::Child { name: "conf.d", path: "r/conf.d" }),
        Verdict::Descend(next) if next.path() == "r/conf.d"
    ));
    assert!(matches!(eval.step(&Event::Child { name: "conf", path: "r/conf" }), Verdict::Skip));
    let pattern = Pattern::parse("*.rs").unwrap();
    let eval = Eval::new("r", &pattern);
    assert!(matches!(
        eval.step(&Event::Child { name: "a.rs", path: "r/a.rs" }),
        Verdict::Found(path) if path == "r/a.rs"
    ));
    assert!(matches!(eval.step(&Event::Child { name: "a.c", path: "r/a.c" }), Verdict::Skip));
}

#[test]
fn step_on_a_visited_entry() {
    let pattern = Pattern::parse("...src/*").unwrap();
    let eval = Eval::new("r", &pattern);
    assert!(matches!(
        eval.step(&Event::Visited { name: "src", path: "r/x/src", is_dir: true }),
        Verdict::Descend(next) if next.path() == "r/x/src"
    ));
    assert!(matches!(
        eval.step(&Event::Visited { name: "src", path: "r/x/src", is_dir: false }),
        Verdict::Skip
    ));
    assert!(matches!(
        eval.step(&Event::Visited { name: "lib", path: "r/x/lib", is_dir: true }),
        Verdict::Skip
    ));
    let pattern = Pattern::parse("...src").unwrap();
    let eval = Eval::new("r", &pattern);
    assert!(matches!(
        eval.step(&Event::Visited { name: "src", path: "r/x/src", is_dir: true }),
        Verdict::Found(path) if path == "r/x/src"
    ));
    assert!(matches!(
        eval.step(&Event::Visited { name: "src", path: "r/src", is_dir: false }),
        Verdict::Found(path) if path == "r/src"
    ));
}

#[test]
fn step_on_an_event_that_answers_another_lookup() {
    let literal = Pattern::parse("a/b").unwrap();
    let eval = Eval::new("r", &literal);
    assert!(matches!(eval.step(&Event::Child { name: "a", path: "r/a" }), Verdict::Skip));
    assert!(matches!(
        eval.step(&Event::Visited { name: "a", path: "r/a", is_dir: true }),
        Verdict::Skip
    ));
    let wild = Pattern::parse("*/b").unwrap();
    let eval = Eval::new("r", &wild);
    assert!(matches!(eval.step(&Event::Stat { path: "r/a", kind: Kind::Dir }), Verdict::Skip));
    let recurse = Pattern::parse("...a").unwrap();
    let eval = Eval::new("r", &recurse);
    assert!(matches!(eval.step(&Event::Stat { path: "r/a", kind: Kind::File }), Verdict::Skip));
    assert!(matches!(eval.step(&Event::Child { name: "a", path: "r/a" }), Verdict::Skip));
}
