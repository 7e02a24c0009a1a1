//! Planning a pattern-filtered tree copy.
//!
//! A traversal of the source tree (performed outside this library) yields
//! entries; for each one the planner decides the filesystem action that
//! mirrors it under the destination root: a matched directory is created, a
//! matched file is copied over its target after its missing ancestor
//! directories are created, and everything else is skipped. Every target is
//! the destination root joined with the entry's path relative to the source
//! root, so no target ever escapes the destination.

use vstd::prelude::*;

use crate::error::FixtureError;
use crate::glob::{
    any_matches, matches_any, compile_patterns, parse_pattern, pats_view, Pattern, SpecPatSeg,
};
use crate::path::{clone_segs, ChildPath};

verus! {

/// What kind of entity a traversal entry is. Entries that are neither
/// directories nor regular files (broken links, special devices) are
/// `Other` and are skipped, never an error.
#[derive(Debug, Clone, Copy, PartialEq, Eq, Structural)]
pub enum EntryKind {
    Directory,
    File,
    Other,
}

/// One entry yielded by walking a source tree: its full path and its kind.
#[derive(Debug, Clone, PartialEq, Eq)]
pub struct Entry {
    pub path: ChildPath,
    pub kind: EntryKind,
}

/// One filesystem action of a copy plan.
#[derive(Debug, Clone, PartialEq, Eq)]
pub enum CopyAction {
    /// Create the directory at `target` and any missing ancestors of it;
    /// one already there is kept, not an error.
    CreateDir { target: ChildPath },
    /// Create any missing ancestors of `target`, then copy the full byte
    /// content of the file at `source` over it, overwriting if present.
    CopyFile { source: ChildPath, target: ChildPath },
    /// Leave the entry alone.
    Skip,
}

/// The path of `entry` relative to the source root `src`: the strict suffix
/// left once the root's segments are stripped off the front.
pub open spec fn rel_of(src: Seq<Seq<char>>, entry: Seq<Seq<char>>) -> Seq<Seq<char>> {
    entry.skip(src.len() as int)
}

/// What a plan owes for one traversal entry: a matched directory is created
/// at, and a matched file copied to, the destination joined with the entry's
/// relative path; everything else is skipped.
pub open spec fn entry_action_ok(
    a: CopyAction,
    dest: Seq<Seq<char>>,
    src: Seq<Seq<char>>,
    entry: Seq<Seq<char>>,
    kind: EntryKind,
    pats: Seq<Seq<SpecPatSeg>>,
) -> bool {
    let rel = rel_of(src, entry);
    let m = any_matches(pats, rel);
    match a {
        CopyAction::CreateDir { target } => kind == EntryKind::Directory && m && target@ == dest
            + rel,
        CopyAction::CopyFile { source, target } => kind == EntryKind::File && m && source@ == entry
            && target@ == dest + rel,
        CopyAction::Skip => !m || kind == EntryKind::Other,
    }
}

/// Decide the action for one traversal entry. The traversal guarantees that
/// every entry lies under the source root, so stripping the root is owed to
/// succeed; a target is produced only for a matched directory or file, and
/// always lies under `dest`.
pub fn plan_entry(
    dest: &ChildPath,
    source_root: &ChildPath,
    entry: &Entry,
    patterns: &Vec<Pattern>,
) -> (r: CopyAction)
    requires
        source_root@.is_prefix_of(entry.path@),
    ensures
        entry_action_ok(r, dest@, source_root@, entry.path@, entry.kind, pats_view(patterns@)),
        match r {
            CopyAction::CreateDir { target } => dest@.is_prefix_of(target@),
            CopyAction::CopyFile { source, target } => dest@.is_prefix_of(target@),
            CopyAction::Skip => true,
        },
{
    let src_segs = source_root.path();
    let ent_segs = entry.path.path();
    let mut rel: Vec<String> = Vec::new();
    let mut j: usize = src_segs.len();
    while j < ent_segs.len()
        invariant
            src_segs.deep_view() == source_root@,
            ent_segs.deep_view() == entry.path@,
            source_root@.is_prefix_of(entry.path@),
            src_segs@.len() <= j <= ent_segs@.len(),
            rel.deep_view() =~= entry.path@.subrange(src_segs@.len() as int, j as int),
        decreases ent_segs@.len() - j,
    {
        let ghost prev = rel.deep_view();
        rel.push(ent_segs[j].clone());
        proof {
            assert(rel.deep_view() =~= prev.push(entry.path@[j as int]));
        }
        j = j + 1;
    }
    proof {
        assert(rel.deep_view() =~= rel_of(source_root@, entry.path@));
    }
    let matched = matches_any(patterns, &rel);
    if !matched {
        return CopyAction::Skip;
    }
    match entry.kind {
        EntryKind::Other => CopyAction::Skip,
        EntryKind::Directory => {
            let target = join_target(dest, &rel);
            CopyAction::CreateDir { target }
        },
        EntryKind::File => {
            let target = join_target(dest, &rel);
            let source = ChildPath::from_segments(clone_segs(entry.path.path()));
            CopyAction::CopyFile { source, target }
        },
    }
}

/// The destination root joined with a relative path; the result keeps the
/// root as a prefix.
fn join_target(dest: &ChildPath, rel: &Vec<String>) -> (r: ChildPath)
    ensures
        r@ == dest@ + rel.deep_view(),
        dest@.is_prefix_of(r@),
{
    let mut segs = clone_segs(dest.path());
    let ghost base = segs.deep_view();
    let mut tail = clone_segs(rel);
    let ghost tail_dv = tail.deep_view();
    segs.append(&mut tail);
    proof {
        assert(segs.deep_view() =~= base + tail_dv);
        assert(base.is_prefix_of(base + tail_dv)) by {
            assert((base + tail_dv).subrange(0, base.len() as int) =~= base);
        }
    }
    ChildPath::from_segments(segs)
}

/// The parsed forms of a pattern list, meaningful where every pattern of the
/// list compiles.
pub open spec fn parsed_patterns(ps: Seq<Seq<char>>) -> Seq<Seq<SpecPatSeg>> {
    Seq::new(
        ps.len(),
        |k: int|
            match parse_pattern(ps[k]) {
                Option::Some(p) => p,
                Option::None => Seq::empty(),
            },
    )
}

/// Plan a whole copy: compile the patterns, then decide every entry of the
/// traversal listing, in order. Succeeds exactly when every pattern
/// compiles; a malformed pattern aborts the whole plan and names the first
/// offender, and no action is produced.
pub fn plan_copy(
    dest: &ChildPath,
    source_root: &ChildPath,
    entries: &Vec<Entry>,
    patterns: &Vec<String>,
) -> (r: Result<Vec<CopyAction>, FixtureError>)
    requires
        forall|i: int|
            0 <= i < entries@.len() ==> source_root@.is_prefix_of(#[trigger] entries@[i].path@),
    ensures
        (r is Ok) <==> (forall|k: int|
            0 <= k < patterns@.len() ==> parse_pattern(#[trigger] patterns.deep_view()[k]) is Some),
        match r {
            Result::Ok(acts) => {
                &&& acts@.len() == entries@.len()
                &&& forall|i: int|
                    0 <= i < entries@.len() ==> entry_action_ok(
                        #[trigger] acts@[i],
                        dest@,
                        source_root@,
                        entries@[i].path@,
                        entries@[i].kind,
                        parsed_patterns(patterns.deep_view()),
                    )
            },
            Result::Err(e) => {
                &&& e matches FixtureError::Pattern { index }
                &&& e matches FixtureError::Pattern { index } ==> 0 <= (index as int)
                    < patterns@.len() && parse_pattern(patterns.deep_view()[index as int]) is None
                    && forall|k: int|
                    0 <= k < index as int ==> parse_pattern(
                        #[trigger] patterns.deep_view()[k],
                    ) is Some
            },
        },
{
    let pats = match compile_patterns(patterns) {
        Result::Ok(pats) => pats,
        Result::Err(e) => {
            return Result::Err(e);
        },
    };
    proof {
        assert(pats_view(pats@) =~= parsed_patterns(patterns.deep_view()));
    }
    let mut acts: Vec<CopyAction> = Vec::new();
    let mut i: usize = 0;
    while i < entries.len()
        invariant
            acts@.len() == i <= entries@.len(),
            forall|k: int|
                0 <= k < patterns@.len() ==> parse_pattern(
                    #[trigger] patterns.deep_view()[k],
                ) is Some,
            pats_view(pats@) == parsed_patterns(patterns.deep_view()),
            forall|j: int|
                0 <= j < entries@.len() ==> source_root@.is_prefix_of(
                    #[trigger] entries@[j].path@,
                ),
            forall|j: int|
                0 <= j < i as int ==> entry_action_ok(
                    #[trigger] acts@[j],
                    dest@,
                    source_root@,
                    entries@[j].path@,
                    entries@[j].kind,
                    parsed_patterns(patterns.deep_view()),
                ),
        decreases entries@.len() - i,
    {
        let a = plan_entry(dest, source_root, &entries[i], &pats);
        acts.push(a);
        i = i + 1;
    }
    Result::Ok(acts)
}

/// Copy preserves relative structure: in a plan kept to `entry_action_ok`,
/// every entry that matches the pattern set is recreated at the destination
/// root joined with its path relative to the source root — a matched
/// directory by creating that target, a matched file by copying the entry's
/// content to it.
pub proof fn lemma_copy_preserves_structure(
    acts: Seq<CopyAction>,
    dest: Seq<Seq<char>>,
    src: Seq<Seq<char>>,
    entries: Seq<Entry>,
    pats: Seq<Seq<SpecPatSeg>>,
    i: int,
)
    requires
        acts.len() == entries.len(),
        forall|j: int|
            0 <= j < entries.len() ==> entry_action_ok(
                #[trigger] acts[j],
                dest,
                src,
                entries[j].path@,
                entries[j].kind,
                pats,
            ),
        0 <= i < entries.len(),
        any_matches(pats, rel_of(src, entries[i].path@)),
    ensures
        entries[i].kind == EntryKind::Directory ==> (acts[i] matches CopyAction::CreateDir {
            target,
        } && target@ == dest + rel_of(src, entries[i].path@)),
        entries[i].kind == EntryKind::File ==> (acts[i] matches CopyAction::CopyFile {
            source,
            target,
        } && source@ == entries[i].path@ && target@ == dest + rel_of(src, entries[i].path@)),
{
    assert(entry_action_ok(acts[i], dest, src, entries[i].path@, entries[i].kind, pats));
}

/// No escape: an action kept to `entry_action_ok` only ever targets a path
/// that has the destination root as an ancestor, whatever the entry's name.
pub proof fn lemma_no_escape(
    a: CopyAction,
    dest: Seq<Seq<char>>,
    src: Seq<Seq<char>>,
    entry: Seq<Seq<char>>,
    kind: EntryKind,
    pats: Seq<Seq<SpecPatSeg>>,
)
    requires
        entry_action_ok(a, dest, src, entry, kind, pats),
    ensures
        match a {
            CopyAction::CreateDir { target } => dest.is_prefix_of(target@),
            CopyAction::CopyFile { source, target } => dest.is_prefix_of(target@),
            CopyAction::Skip => true,
        },
{
    let rel = rel_of(src, entry);
    assert((dest + rel).subrange(0, dest.len() as int) =~= dest);
}

/// Directory idempotence, at the planning level: two plans made for the same
/// destination, source, entry and patterns decide the entry alike — the same
/// action with the same paths — so repeating a copy re-creates and re-copies
/// exactly what the first run did. (That the filesystem then holds identical
/// final content also needs directory creation to tolerate directories that
/// exist and file copy to overwrite, which the actions' contracts state.)
pub proof fn lemma_plan_idempotent(
    a1: CopyAction,
    a2: CopyAction,
    dest: Seq<Seq<char>>,
    src: Seq<Seq<char>>,
    entry: Seq<Seq<char>>,
    kind: EntryKind,
    pats: Seq<Seq<SpecPatSeg>>,
)
    requires
        entry_action_ok(a1, dest, src, entry, kind, pats),
        entry_action_ok(a2, dest, src, entry, kind, pats),
    ensures
        match (a1, a2) {
            (CopyAction::CreateDir { target: t1 }, CopyAction::CreateDir { target: t2 }) => t1@
                == t2@,
            (
                CopyAction::CopyFile { source: s1, target: t1 },
                CopyAction::CopyFile { source: s2, target: t2 },
            ) => s1@ == s2@ && t1@ == t2@,
            (CopyAction::Skip, CopyAction::Skip) => true,
            _ => false,
        },
{
}

/// Extend a directory location so that a filtered mirror of a source tree
/// can be copied beneath it.
pub trait TempDirCopyExt {
    /// Walk `source`, following symbolic links, and mirror under the current
    /// location every entry whose path relative to `source` matches at least
    /// one of `patterns`, keeping relative structure. Any traversal failure,
    /// malformed pattern, or I/O failure aborts the copy at once, leaving
    /// whatever partial state was already produced.
    fn copy_from(&self, source: &str, patterns: &Vec<String>) -> Result<(), FixtureError>;
}

} // verus!
