use fixture_fs::path::{split_path, ChildPath, TempDirChildExt};

fn segs(parts: &[&str]) -> Vec<String> {
    parts.iter().map(|s| s.to_string()).collect()
}

#[test]
fn child_joins_lexically() {
    let root = ChildPath::new("root");
    let c = root.child("foo/bar.txt");
    assert_eq!(c.path(), &segs(&["root", "foo", "bar.txt"]));
}

#[test]
fn child_of_child_joins_again() {
    let root = ChildPath::new("work");
    let c = root.child("a").child("b/c");
    assert_eq!(c.path(), &segs(&["work", "a", "b", "c"]));
}

#[test]
fn child_needs_nothing_on_disk() {
    let root = ChildPath::new("no/such/directory/anywhere");
    let c = root.child("still/fine.txt");
    assert_eq!(
        c.path(),
        &segs(&["no", "such", "directory", "anywhere", "still", "fine.txt"])
    );
}

#[test]
fn new_splits_on_separators() {
    let p = ChildPath::new("a/b/c.txt");
    assert_eq!(p.path(), &segs(&["a", "b", "c.txt"]));
}

#[test]
fn new_drops_empty_segments() {
    assert_eq!(ChildPath::new("a//b/").path(), &segs(&["a", "b"]));
    assert_eq!(ChildPath::new("/lead").path(), &segs(&["lead"]));
    assert_eq!(ChildPath::new("").path(), &segs(&[]));
    assert_eq!(ChildPath::new("///").path(), &segs(&[]));
}

#[test]
fn from_segments_keeps_segments() {
    let p = ChildPath::from_segments(segs(&["x", "y"]));
    assert_eq!(p.path(), &segs(&["x", "y"]));
}

#[test]
fn split_path_matches_new() {
    assert_eq!(split_path("one/two"), segs(&["one", "two"]));
    assert_eq!(split_path("single"), segs(&["single"]));
    assert_eq!(ChildPath::new("one/two"), ChildPath::from_segments(split_path("one/two")));
}

#[test]
fn encode_text_gives_exactly_the_text_bytes() {
    assert_eq!(fixture_fs::path::encode_text(""), Vec::<u8>::new());
    assert_eq!(fixture_fs::path::encode_text("To be"), b"To be".to_vec());
    let multibyte = "na\u{00ef}ve \u{2713}";
    assert_eq!(fixture_fs::path::encode_text(multibyte), multibyte.as_bytes().to_vec());
}

#[test]
fn child_with_empty_relative_path_is_same_location() {
    let root = ChildPath::new("base/dir");
    assert_eq!(root.child(""), root);
}
