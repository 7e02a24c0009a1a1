//! Lexical path locations.
//!
//! A location is modelled as the sequence of its path segments. Splitting a
//! path string on `/` discards empty segments, so `"a//b"` and `"a/b/"`
//! denote the same location as `"a/b"`. Joining is concatenation of segment
//! sequences and never consults the filesystem.

use vstd::prelude::*;
use vstd::string::*;

use crate::error::IoError;

verus! {

/// Segments of `s` after the characters `rem` are appended to the partial
/// segment `cur`: splits on `/`, discarding empty segments.
pub open spec fn split_acc(rem: Seq<char>, cur: Seq<char>) -> Seq<Seq<char>>
    decreases rem.len(),
{
    if rem.len() == 0 {
        if cur.len() == 0 {
            Seq::empty()
        } else {
            seq![cur]
        }
    } else if rem[0] == '/' {
        if cur.len() == 0 {
            split_acc(rem.drop_first(), Seq::empty())
        } else {
            seq![cur] + split_acc(rem.drop_first(), Seq::empty())
        }
    } else {
        split_acc(rem.drop_first(), cur.push(rem[0]))
    }
}

/// The segments of a path string: the non-empty pieces between `/` separators.
pub open spec fn segments_of(s: Seq<char>) -> Seq<Seq<char>> {
    split_acc(s, Seq::empty())
}

fn split_rec(s: &str, i: usize, cur: String) -> (r: Vec<String>)
    requires
        i <= s@.len(),
    ensures
        r.deep_view() == split_acc(s@.skip(i as int), cur@),
    decreases s@.len() - i,
{
    let n = s.unicode_len();
    if i == n {
        proof {
            assert(s@.skip(i as int) =~= Seq::<char>::empty());
        }
        if cur.as_str().is_empty() {
            proof {
                assert(cur@ =~= Seq::<char>::empty());
            }
            let r: Vec<String> = Vec::new();
            proof {
                assert(r.deep_view() =~= split_acc(s@.skip(i as int), cur@));
            }
            r
        } else {
            let ghost cur_v = cur@;
            let mut r: Vec<String> = Vec::new();
            r.push(cur);
            proof {
                assert(r.deep_view() =~= seq![cur_v]);
            }
            r
        }
    } else {
        let c = s.get_char(i);
        proof {
            assert(s@.skip(i as int).drop_first() =~= s@.skip(i as int + 1));
            assert(s@.skip(i as int)[0] == s@[i as int]);
        }
        if c == '/' {
            if cur.as_str().is_empty() {
                proof {
                    assert(cur@ =~= Seq::<char>::empty());
                }
                split_rec(s, i + 1, cur)
            } else {
                let mut rest = split_rec(s, i + 1, String::new());
                let ghost rest_dv = rest.deep_view();
                let ghost cur_v = cur@;
                let mut r: Vec<String> = Vec::new();
                r.push(cur);
                r.append(&mut rest);
                proof {
                    assert(r.deep_view() =~= seq![cur_v] + rest_dv);
                }
                r
            }
        } else {
            let ghost cur_v = cur@;
            let mut cur2 = cur;
            let piece = s.substring_char(i, i + 1);
            cur2.append(piece);
            proof {
                assert(cur2@ =~= cur_v.push(s@[i as int]));
            }
            split_rec(s, i + 1, cur2)
        }
    }
}

/// Split a path string into its segments.
pub fn split_path(path: &str) -> (r: Vec<String>)
    ensures
        r.deep_view() == segments_of(path@),
{
    proof {
        assert(path@.skip(0) =~= path@);
    }
    split_rec(path, 0, String::new())
}

/// Copy a segment sequence.
pub fn clone_segs(v: &Vec<String>) -> (r: Vec<String>)
    ensures
        r.deep_view() == v.deep_view(),
{
    let mut r: Vec<String> = Vec::new();
    let mut i: usize = 0;
    while i < v.len()
        invariant
            i <= v.len(),
            r.deep_view() =~= v.deep_view().subrange(0, i as int),
        decreases v.len() - i,
    {
        let ghost prev = r.deep_view();
        r.push(v[i].clone());
        proof {
            assert(r.deep_view() =~= prev.push(v.deep_view()[i as int]));
            assert(v.deep_view().subrange(0, i as int + 1) =~= prev.push(
                v.deep_view()[i as int],
            ));
        }
        i = i + 1;
    }
    proof {
        assert(r.deep_view() =~= v.deep_view());
    }
    r
}

/// A location within a working directory: a path value with no claim that
/// anything exists there.
#[derive(Debug, Clone, PartialEq, Eq)]
pub struct ChildPath {
    segs: Vec<String>,
}

impl View for ChildPath {
    type V = Seq<Seq<char>>;

    closed spec fn view(&self) -> Seq<Seq<char>> {
        self.segs.deep_view()
    }
}

impl ChildPath {
    /// Wrap a path for use with the extension traits.
    pub fn new(path: &str) -> (r: Self)
        ensures
            r@ == segments_of(path@),
    {
        ChildPath { segs: split_path(path) }
    }

    /// Wrap an already-split path.
    pub fn from_segments(segs: Vec<String>) -> (r: Self)
        ensures
            r@ == segs.deep_view(),
    {
        ChildPath { segs }
    }

    /// Access the path, as its segments.
    pub fn path(&self) -> (r: &Vec<String>)
        ensures
            r.deep_view() == self@,
    {
        &self.segs
    }
}

/// Extend a directory location so that relative paths within it can be
/// addressed.
pub trait TempDirChildExt {
    /// The location's path, as the sequence of its segments.
    spec fn location(&self) -> Seq<Seq<char>>;

    /// Create a location for `path` within this one. The join is purely
    /// lexical — nothing need exist on disk — and always succeeds.
    fn child(&self, path: &str) -> (r: ChildPath)
        ensures
            r@ == self.location() + segments_of(path@),
    ;
}

impl TempDirChildExt for ChildPath {
    open spec fn location(&self) -> Seq<Seq<char>> {
        self@
    }

    fn child(&self, path: &str) -> (r: ChildPath) {
        let mut segs = clone_segs(&self.segs);
        let ghost base = segs.deep_view();
        let mut rest = split_path(path);
        let ghost rest_dv = rest.deep_view();
        segs.append(&mut rest);
        proof {
            assert(segs.deep_view() =~= base + rest_dv);
        }
        ChildPath { segs }
    }
}

/// Extend `ChildPath` so that an empty file can be created at it.
pub trait ChildPathTouchExt {
    /// Create an empty file at the location, truncating any file already
    /// there. Fails with the underlying platform error if the parent
    /// directory is missing or permissions are insufficient.
    fn touch(&self) -> Result<(), IoError>;
}

/// Extend `ChildPath` so that binary content can be written to it.
pub trait ChildPathWriteBinExt {
    /// Create or truncate the file at the location and write `data` to it in
    /// full. Fails with the underlying platform error if the parent
    /// directory is missing, permissions are insufficient, or the write is
    /// cut short.
    fn write_binary(&self, data: &[u8]) -> Result<(), IoError>;
}

/// The byte payload that a text write stores: the UTF-8 encoding of the
/// text, so that reading the file back yields exactly the text's bytes.
pub fn encode_text(data: &str) -> (r: Vec<u8>)
    ensures
        r@ == vstd::utf8::encode_utf8(data@),
{
    data.as_bytes_vec()
}

/// Extend `ChildPath` so that text content can be written to it.
pub trait ChildPathWriteStrExt {
    /// Write the bytes `encode_text` gives for `data`, as `write_binary`
    /// would — delegation that guarantees identical failure modes for the
    /// two write variants.
    fn write_str(&self, data: &str) -> Result<(), IoError>;
}

} // verus!
