use fixture_fs::error::FixtureError;
use fixture_fs::glob::compile_patterns;
use fixture_fs::path::{ChildPath, TempDirChildExt};
use fixture_fs::plan::{plan_copy, plan_entry, CopyAction, Entry, EntryKind};

fn segs(parts: &[&str]) -> Vec<String> {
    parts.iter().map(|s| s.to_string()).collect()
}

fn entry(src: &ChildPath, rel: &str, kind: EntryKind) -> Entry {
    Entry { path: src.child(rel), kind }
}

#[test]
fn pattern_or_selects_exactly_the_matching_files() {
    let dest = ChildPath::new("dest");
    let src = ChildPath::new("src");
    let entries = vec![
        entry(&src, "a.txt", EntryKind::File),
        entry(&src, "b.md", EntryKind::File),
        entry(&src, "c.rs", EntryKind::File),
    ];
    let acts = plan_copy(&dest, &src, &entries, &segs(&["*.txt", "*.md"])).unwrap();
    assert_eq!(acts.len(), 3);
    assert_eq!(
        acts[0],
        CopyAction::CopyFile { source: src.child("a.txt"), target: dest.child("a.txt") }
    );
    assert_eq!(
        acts[1],
        CopyAction::CopyFile { source: src.child("b.md"), target: dest.child("b.md") }
    );
    assert_eq!(acts[2], CopyAction::Skip);
}

#[test]
fn copy_preserves_relative_structure() {
    let dest = ChildPath::new("out");
    let src = ChildPath::new("tree");
    let entries = vec![
        entry(&src, "sub", EntryKind::Directory),
        entry(&src, "sub/inner.txt", EntryKind::File),
    ];
    let acts = plan_copy(&dest, &src, &entries, &segs(&["**"])).unwrap();
    assert_eq!(acts[0], CopyAction::CreateDir { target: dest.child("sub") });
    assert_eq!(
        acts[1],
        CopyAction::CopyFile {
            source: src.child("sub/inner.txt"),
            target: dest.child("sub/inner.txt"),
        }
    );
}

#[test]
fn every_target_stays_under_the_destination() {
    let dest = ChildPath::new("safe/dest");
    let src = ChildPath::new("src");
    let pats = compile_patterns(&segs(&["**"])).unwrap();
    let odd_names = ["we ird name", "..hidden", "a*b", "[x]"];
    for name in odd_names.iter() {
        let e = entry(&src, name, EntryKind::File);
        match plan_entry(&dest, &src, &e, &pats) {
            CopyAction::CopyFile { target, .. } => {
                let t = target.path();
                let d = dest.path();
                assert!(t.len() >= d.len());
                assert_eq!(&t[..d.len()], &d[..]);
            },
            other => panic!("expected a file copy, got {:?}", other),
        }
    }
}

#[test]
fn entries_that_are_neither_file_nor_directory_are_skipped() {
    let dest = ChildPath::new("dest");
    let src = ChildPath::new("src");
    let pats = compile_patterns(&segs(&["**"])).unwrap();
    let e = entry(&src, "strange", EntryKind::Other);
    assert_eq!(plan_entry(&dest, &src, &e, &pats), CopyAction::Skip);
}

#[test]
fn unmatched_directory_is_skipped() {
    let dest = ChildPath::new("dest");
    let src = ChildPath::new("src");
    let pats = compile_patterns(&segs(&["*.txt"])).unwrap();
    let e = entry(&src, "sub", EntryKind::Directory);
    assert_eq!(plan_entry(&dest, &src, &e, &pats), CopyAction::Skip);
}

#[test]
fn malformed_pattern_aborts_the_whole_plan() {
    let dest = ChildPath::new("dest");
    let src = ChildPath::new("src");
    let entries = vec![entry(&src, "a.txt", EntryKind::File)];
    let r = plan_copy(&dest, &src, &entries, &segs(&["[broken"]));
    assert_eq!(r, Err(FixtureError::Pattern { index: 0 }));
}

#[test]
fn planning_twice_gives_the_same_plan() {
    let dest = ChildPath::new("dest");
    let src = ChildPath::new("src");
    let entries = vec![
        entry(&src, "sub", EntryKind::Directory),
        entry(&src, "sub/a.txt", EntryKind::File),
        entry(&src, "b.rs", EntryKind::File),
    ];
    let pats = segs(&["**/*.txt", "sub"]);
    let first = plan_copy(&dest, &src, &entries, &pats).unwrap();
    let second = plan_copy(&dest, &src, &entries, &pats).unwrap();
    assert_eq!(first, second);
}

#[test]
fn matching_is_against_the_path_relative_to_the_source_root() {
    let dest = ChildPath::new("dest");
    let src = ChildPath::new("deep/src");
    // The pattern sees "a.txt", not "deep/src/a.txt".
    let pats = compile_patterns(&segs(&["a.txt"])).unwrap();
    let e = entry(&src, "a.txt", EntryKind::File);
    assert_eq!(
        plan_entry(&dest, &src, &e, &pats),
        CopyAction::CopyFile { source: src.child("a.txt"), target: dest.child("a.txt") }
    );
    let deep = compile_patterns(&segs(&["deep/src/a.txt"])).unwrap();
    assert_eq!(plan_entry(&dest, &src, &e, &deep), CopyAction::Skip);
}
