//! Glob patterns over relative paths.
//!
//! A pattern is split into segments on `/`. The segment `**` matches any
//! number of whole path segments, including none. Within any other segment,
//! `*` matches a run of characters, `?` matches one character, `[...]` is a
//! character class (`!` right after `[` negates it; `a-z` is an inclusive
//! range; `]` as the first member stands for itself), and every other
//! character matches itself. A class that is never closed, or a range whose
//! ends are out of order, makes the pattern malformed.
//!
//! A pattern set matches a path when at least one of its patterns does:
//! inclusion is a logical OR over the set, never an AND.

use vstd::prelude::*;
use vstd::string::*;

use crate::error::FixtureError;
use crate::path::{segments_of, split_path};

verus! {

/// One member of a character class.
#[derive(Debug, Clone, Copy, PartialEq, Eq)]
pub enum ClassItem {
    /// A single character.
    Single(char),
    /// An inclusive range of characters.
    Span(char, char),
}

/// A character class `[...]`, negated when written `[!...]`.
#[derive(Debug, Clone, PartialEq, Eq)]
pub struct CharClass {
    pub negated: bool,
    pub items: Vec<ClassItem>,
}

/// One token of a parsed pattern segment.
#[derive(Debug, Clone, PartialEq, Eq)]
pub enum Tok {
    /// Matches exactly this character.
    Lit(char),
    /// `?`: matches any one character.
    AnyChar,
    /// `*`: matches any run of characters within a segment.
    Star,
    /// A character class.
    Class(CharClass),
}

/// The mathematical form of a token.
pub enum SpecTok {
    Lit(char),
    AnyChar,
    Star,
    Class { negated: bool, items: Seq<ClassItem> },
}

impl View for Tok {
    type V = SpecTok;

    open spec fn view(&self) -> SpecTok {
        match self {
            Tok::Lit(c) => SpecTok::Lit(*c),
            Tok::AnyChar => SpecTok::AnyChar,
            Tok::Star => SpecTok::Star,
            Tok::Class(cc) => SpecTok::Class { negated: cc.negated, items: cc.items@ },
        }
    }
}

pub open spec fn toks_view(ts: Seq<Tok>) -> Seq<SpecTok> {
    Seq::new(ts.len(), |i: int| ts[i]@)
}

/// The segment parser, one character at a time. `cls` is the state inside a
/// character class: its negation flag, the members read so far, and whether
/// the position is right after the opening bracket, where `]` is a literal
/// member. `None` means the whole segment parsed and the class never closed.
pub open spec fn parse_from(
    s: Seq<char>,
    i: int,
    cls: Option<(bool, Seq<ClassItem>, bool)>,
) -> Option<Seq<SpecTok>>
    decreases s.len() - i,
    when 0 <= i <= s.len()
{
    if i >= s.len() {
        match cls {
            Option::None => Option::Some(Seq::empty()),
            Option::Some(_) => Option::None,
        }
    } else {
        let c = s[i];
        match cls {
            Option::None => {
                if c == '[' {
                    let negated = i + 1 < s.len() && s[i + 1] == '!';
                    parse_from(
                        s,
                        if negated {
                            i + 2
                        } else {
                            i + 1
                        },
                        Option::Some((negated, Seq::empty(), true)),
                    )
                } else {
                    let t = if c == '*' {
                        SpecTok::Star
                    } else if c == '?' {
                        SpecTok::AnyChar
                    } else {
                        SpecTok::Lit(c)
                    };
                    match parse_from(s, i + 1, Option::None) {
                        Option::Some(ts) => Option::Some(seq![t] + ts),
                        Option::None => Option::None,
                    }
                }
            },
            Option::Some((neg, items, first)) => {
                if c == ']' && !first {
                    match parse_from(s, i + 1, Option::None) {
                        Option::Some(ts) => Option::Some(
                            seq![SpecTok::Class { negated: neg, items }] + ts,
                        ),
                        Option::None => Option::None,
                    }
                } else if i + 2 < s.len() && s[i + 1] == '-' && s[i + 2] != ']' {
                    if (c as u32) <= (s[i + 2] as u32) {
                        parse_from(
                            s,
                            i + 3,
                            Option::Some((neg, items.push(ClassItem::Span(c, s[i + 2])), false)),
                        )
                    } else {
                        Option::None
                    }
                } else {
                    parse_from(s, i + 1, Option::Some((neg, items.push(ClassItem::Single(c)), false)))
                }
            },
        }
    }
}

/// The parsed form of one pattern segment, or `None` if a character class in
/// it is malformed.
pub open spec fn parse_segment(s: Seq<char>) -> Option<Seq<SpecTok>> {
    parse_from(s, 0, Option::None)
}

/// One parsed segment of a pattern.
#[derive(Debug, Clone, PartialEq, Eq)]
pub enum PatSeg {
    /// `**`: matches any number of whole path segments, including none.
    AnySegs,
    /// Tokens that must match one whole path segment.
    Literal(Vec<Tok>),
}

/// The mathematical form of a pattern segment.
pub enum SpecPatSeg {
    AnySegs,
    Literal(Seq<SpecTok>),
}

impl View for PatSeg {
    type V = SpecPatSeg;

    open spec fn view(&self) -> SpecPatSeg {
        match self {
            PatSeg::AnySegs => SpecPatSeg::AnySegs,
            PatSeg::Literal(ts) => SpecPatSeg::Literal(toks_view(ts@)),
        }
    }
}

pub open spec fn segs_view(ps: Seq<PatSeg>) -> Seq<SpecPatSeg> {
    Seq::new(ps.len(), |i: int| ps[i]@)
}

/// The text of the segment that spans whole path segments.
pub open spec fn globstar_text() -> Seq<char> {
    seq!['*', '*']
}

pub open spec fn parse_segs(segs: Seq<Seq<char>>) -> Option<Seq<SpecPatSeg>>
    decreases segs.len(),
{
    if segs.len() == 0 {
        Option::Some(Seq::empty())
    } else {
        let first = if segs[0] == globstar_text() {
            Option::Some(SpecPatSeg::AnySegs)
        } else {
            match parse_segment(segs[0]) {
                Option::Some(ts) => Option::Some(SpecPatSeg::Literal(ts)),
                Option::None => Option::None,
            }
        };
        match (first, parse_segs(segs.drop_first())) {
            (Option::Some(f), Option::Some(r)) => Option::Some(seq![f] + r),
            _ => Option::None,
        }
    }
}

/// The parsed form of a pattern string, or `None` if a character class in it
/// is malformed (unclosed, or a range whose ends are out of order).
pub open spec fn parse_pattern(s: Seq<char>) -> Option<Seq<SpecPatSeg>> {
    parse_segs(segments_of(s))
}

/// Whether one class member admits `c`.
pub open spec fn item_matches(it: ClassItem, c: char) -> bool {
    match it {
        ClassItem::Single(m) => m == c,
        ClassItem::Span(lo, hi) => (lo as u32) <= (c as u32) && (c as u32) <= (hi as u32),
    }
}

/// Whether a character class admits `c`.
pub open spec fn class_matches(negated: bool, items: Seq<ClassItem>, c: char) -> bool {
    (exists|k: int| 0 <= k < items.len() && item_matches(items[k], c)) != negated
}

/// Whether one non-`*` token admits `c`. `Star` is handled by the segment
/// matcher, never against a single character.
pub open spec fn tok_matches(t: SpecTok, c: char) -> bool {
    match t {
        SpecTok::Lit(m) => m == c,
        SpecTok::AnyChar => true,
        SpecTok::Star => false,
        SpecTok::Class { negated, items } => class_matches(negated, items, c),
    }
}

/// Whether the tokens from `ti` on match the characters from `si` on, in
/// full: `*` consumes any run of characters.
pub open spec fn toks_match_from(ts: Seq<SpecTok>, s: Seq<char>, ti: int, si: int) -> bool
    decreases ts.len() - ti, s.len() - si,
    when 0 <= ti <= ts.len() && 0 <= si <= s.len()
{
    if ti == ts.len() {
        si == s.len()
    } else if ts[ti] is Star {
        toks_match_from(ts, s, ti + 1, si) || (si < s.len() && toks_match_from(ts, s, ti, si + 1))
    } else {
        si < s.len() && tok_matches(ts[ti], s[si]) && toks_match_from(ts, s, ti + 1, si + 1)
    }
}

/// Whether one pattern segment matches one path segment in full.
pub open spec fn seg_matches(ts: Seq<SpecTok>, s: Seq<char>) -> bool {
    toks_match_from(ts, s, 0, 0)
}

/// Whether the pattern segments from `pi` on match the path segments from
/// `si` on, in full: `**` consumes any run of whole segments.
pub open spec fn segs_match_from(
    ps: Seq<SpecPatSeg>,
    path: Seq<Seq<char>>,
    pi: int,
    si: int,
) -> bool
    decreases ps.len() - pi, path.len() - si,
    when 0 <= pi <= ps.len() && 0 <= si <= path.len()
{
    if pi == ps.len() {
        si == path.len()
    } else {
        match ps[pi] {
            SpecPatSeg::AnySegs => segs_match_from(ps, path, pi + 1, si) || (si < path.len()
                && segs_match_from(ps, path, pi, si + 1)),
            SpecPatSeg::Literal(ts) => si < path.len() && seg_matches(ts, path[si])
                && segs_match_from(ps, path, pi + 1, si + 1),
        }
    }
}

/// Whether a parsed pattern matches a relative path, given as segments.
pub open spec fn pattern_matches(ps: Seq<SpecPatSeg>, path: Seq<Seq<char>>) -> bool {
    segs_match_from(ps, path, 0, 0)
}

/// Whether at least one pattern of the set matches `path`: inclusion is a
/// logical OR over the set, so the order of the patterns never affects it.
pub open spec fn any_matches(ps: Seq<Seq<SpecPatSeg>>, path: Seq<Seq<char>>) -> bool {
    exists|k: int| 0 <= k < ps.len() && pattern_matches(ps[k], path)
}

fn item_match(it: &ClassItem, c: char) -> (r: bool)
    ensures
        r == item_matches(*it, c),
{
    match it {
        ClassItem::Single(m) => *m == c,
        ClassItem::Span(lo, hi) => (*lo as u32) <= (c as u32) && (c as u32) <= (*hi as u32),
    }
}

fn class_match(cc: &CharClass, c: char) -> (r: bool)
    ensures
        r == class_matches(cc.negated, cc.items@, c),
{
    let mut k: usize = 0;
    let mut found = false;
    while k < cc.items.len()
        invariant
            k <= cc.items.len(),
            found == exists|j: int| 0 <= j < k && item_matches(cc.items@[j], c),
        decreases cc.items.len() - k,
    {
        if item_match(&cc.items[k], c) {
            found = true;
            proof {
                assert(item_matches(cc.items@[k as int], c));
            }
        }
        k = k + 1;
    }
    found != cc.negated
}

fn tok_match(t: &Tok, c: char) -> (r: bool)
    ensures
        r == tok_matches(t@, c),
{
    match t {
        Tok::Lit(m) => *m == c,
        Tok::AnyChar => true,
        Tok::Star => false,
        Tok::Class(cc) => class_match(cc, c),
    }
}

fn toks_match_rec(ts: &Vec<Tok>, s: &str, ti: usize, si: usize) -> (r: bool)
    requires
        ti <= ts@.len(),
        si <= s@.len(),
    ensures
        r == toks_match_from(toks_view(ts@), s@, ti as int, si as int),
    decreases ts@.len() - ti, s@.len() - si,
{
    let n = s.unicode_len();
    if ti == ts.len() {
        si == n
    } else {
        let star = match &ts[ti] {
            Tok::Star => true,
            _ => false,
        };
        if star {
            if toks_match_rec(ts, s, ti + 1, si) {
                true
            } else if si < n {
                toks_match_rec(ts, s, ti, si + 1)
            } else {
                false
            }
        } else {
            if si < n {
                let c = s.get_char(si);
                if tok_match(&ts[ti], c) {
                    toks_match_rec(ts, s, ti + 1, si + 1)
                } else {
                    false
                }
            } else {
                false
            }
        }
    }
}

/// A compiled glob pattern.
#[derive(Debug, Clone, PartialEq, Eq)]
pub struct Pattern {
    segs: Vec<PatSeg>,
}

impl View for Pattern {
    type V = Seq<SpecPatSeg>;

    closed spec fn view(&self) -> Seq<SpecPatSeg> {
        segs_view(self.segs@)
    }
}

fn segs_match_rec(ps: &Vec<PatSeg>, path: &Vec<String>, pi: usize, si: usize) -> (r: bool)
    requires
        pi <= ps@.len(),
        si <= path@.len(),
    ensures
        r == segs_match_from(segs_view(ps@), path.deep_view(), pi as int, si as int),
    decreases ps@.len() - pi, path@.len() - si,
{
    if pi == ps.len() {
        si == path.len()
    } else {
        match &ps[pi] {
            PatSeg::AnySegs => {
                if segs_match_rec(ps, path, pi + 1, si) {
                    true
                } else if si < path.len() {
                    segs_match_rec(ps, path, pi, si + 1)
                } else {
                    false
                }
            },
            PatSeg::Literal(ts) => {
                if si < path.len() {
                    if toks_match_rec(ts, path[si].as_str(), 0, 0) {
                        segs_match_rec(ps, path, pi + 1, si + 1)
                    } else {
                        false
                    }
                } else {
                    false
                }
            },
        }
    }
}

fn is_globstar(seg: &String) -> (r: bool)
    ensures
        r == (seg@ == globstar_text()),
{
    let s = seg.as_str();
    let r = s.unicode_len() == 2 && s.get_char(0) == '*' && s.get_char(1) == '*';
    proof {
        if r {
            assert(seg@ =~= globstar_text());
        }
    }
    r
}

fn parse_rec(s: &str, i: usize, cls: Option<(bool, Vec<ClassItem>, bool)>) -> (r: Option<Vec<Tok>>)
    requires
        i <= s@.len(),
    ensures
        ({
            let sr = parse_from(s@, i as int, cls_view(cls));
            match r {
                Option::Some(v) => sr == Option::Some(toks_view(v@)),
                Option::None => sr is None,
            }
        }),
    decreases s@.len() - i,
{
    let n = s.unicode_len();
    if i == n {
        match cls {
            Option::None => {
                let v: Vec<Tok> = Vec::new();
                proof {
                    assert(toks_view(v@) =~= Seq::<SpecTok>::empty());
                }
                Option::Some(v)
            },
            Option::Some(_) => Option::None,
        }
    } else {
        let c = s.get_char(i);
        match cls {
            Option::None => {
                if c == '[' {
                    let negated = i + 1 < n && s.get_char(i + 1) == '!';
                    let empty_items: Vec<ClassItem> = Vec::new();
                    proof {
                        assert(empty_items@ =~= Seq::<ClassItem>::empty());
                    }
                    parse_rec(
                        s,
                        if negated {
                            i + 2
                        } else {
                            i + 1
                        },
                        Option::Some((negated, empty_items, true)),
                    )
                } else {
                    let t = if c == '*' {
                        Tok::Star
                    } else if c == '?' {
                        Tok::AnyChar
                    } else {
                        Tok::Lit(c)
                    };
                    match parse_rec(s, i + 1, Option::None) {
                        Option::Some(mut v) => {
                            let ghost rest = v@;
                            v.insert(0, t);
                            proof {
                                assert(toks_view(v@) =~= seq![t@] + toks_view(rest));
                            }
                            Option::Some(v)
                        },
                        Option::None => Option::None,
                    }
                }
            },
            Option::Some((neg, items, first)) => {
                if c == ']' && !first {
                    match parse_rec(s, i + 1, Option::None) {
                        Option::Some(mut v) => {
                            let ghost rest = v@;
                            let ghost items_v = items@;
                            let t = Tok::Class(CharClass { negated: neg, items });
                            v.insert(0, t);
                            proof {
                                assert(toks_view(v@) =~= seq![
                                    SpecTok::Class { negated: neg, items: items_v },
                                ] + toks_view(rest));
                            }
                            Option::Some(v)
                        },
                        Option::None => Option::None,
                    }
                } else if n - i > 2 && s.get_char(i + 1) == '-' && s.get_char(i + 2) != ']' {
                    let hi = s.get_char(i + 2);
                    if (c as u32) <= (hi as u32) {
                        let mut items2 = items;
                        items2.push(ClassItem::Span(c, hi));
                        parse_rec(s, i + 3, Option::Some((neg, items2, false)))
                    } else {
                        Option::None
                    }
                } else {
                    let mut items2 = items;
                    items2.push(ClassItem::Single(c));
                    parse_rec(s, i + 1, Option::Some((neg, items2, false)))
                }
            },
        }
    }
}

/// The exec parser state, seen mathematically.
spec fn cls_view(c: Option<(bool, Vec<ClassItem>, bool)>) -> Option<
    (bool, Seq<ClassItem>, bool),
> {
    match c {
        Option::None => Option::None,
        Option::Some((neg, items, first)) => Option::Some((neg, items@, first)),
    }
}

fn compile_segs(segs: &Vec<String>, i: usize) -> (r: Option<Vec<PatSeg>>)
    requires
        i <= segs@.len(),
    ensures
        ({
            let sr = parse_segs(segs.deep_view().skip(i as int));
            match r {
                Option::Some(v) => sr == Option::Some(segs_view(v@)),
                Option::None => sr is None,
            }
        }),
    decreases segs@.len() - i,
{
    if i == segs.len() {
        let v: Vec<PatSeg> = Vec::new();
        proof {
            assert(segs.deep_view().skip(i as int) =~= Seq::<Seq<char>>::empty());
            assert(segs_view(v@) =~= Seq::<SpecPatSeg>::empty());
        }
        Option::Some(v)
    } else {
        proof {
            assert(segs.deep_view().skip(i as int).drop_first() =~= segs.deep_view().skip(
                i as int + 1,
            ));
            assert(segs.deep_view().skip(i as int)[0] == segs.deep_view()[i as int]);
        }
        let seg = &segs[i];
        let first: Option<PatSeg> = if is_globstar(seg) {
            Option::Some(PatSeg::AnySegs)
        } else {
            match parse_rec(seg.as_str(), 0, Option::None) {
                Option::Some(ts) => Option::Some(PatSeg::Literal(ts)),
                Option::None => Option::None,
            }
        };
        match first {
            Option::None => Option::None,
            Option::Some(f) => {
                match compile_segs(segs, i + 1) {
                    Option::None => Option::None,
                    Option::Some(mut v) => {
                        let ghost rest = v@;
                        let ghost f_v = f@;
                        v.insert(0, f);
                        proof {
                            assert(segs_view(v@) =~= seq![f_v] + segs_view(rest));
                        }
                        Option::Some(v)
                    },
                }
            },
        }
    }
}

impl Pattern {
    /// Compile one pattern string. Returns `None` exactly when a character
    /// class in it is malformed: left unclosed, or holding a range whose
    /// ends are out of order.
    pub fn compile(pattern: &str) -> (r: Option<Pattern>)
        ensures
            match r {
                Option::Some(p) => parse_pattern(pattern@) == Option::Some(p@),
                Option::None => parse_pattern(pattern@) is None,
            },
    {
        let segs = split_path(pattern);
        proof {
            assert(segs.deep_view().skip(0) =~= segs.deep_view());
        }
        match compile_segs(&segs, 0) {
            Option::Some(v) => Option::Some(Pattern { segs: v }),
            Option::None => Option::None,
        }
    }

    /// Whether this pattern matches the relative path `path`, given as its
    /// segments.
    pub fn matches(&self, path: &Vec<String>) -> (r: bool)
        ensures
            r == pattern_matches(self@, path.deep_view()),
    {
        segs_match_rec(&self.segs, path, 0, 0)
    }
}

pub open spec fn pats_view(ps: Seq<Pattern>) -> Seq<Seq<SpecPatSeg>> {
    Seq::new(ps.len(), |i: int| ps[i]@)
}

/// Whether at least one compiled pattern of the set matches `path`:
/// inclusion is a logical OR across the set.
pub fn matches_any(pats: &Vec<Pattern>, path: &Vec<String>) -> (r: bool)
    ensures
        r == any_matches(pats_view(pats@), path.deep_view()),
{
    let mut k: usize = 0;
    let mut found = false;
    while k < pats.len()
        invariant
            k <= pats.len(),
            found == exists|j: int|
                0 <= j < k && pattern_matches(pats_view(pats@)[j], path.deep_view()),
        decreases pats.len() - k,
    {
        if pats[k].matches(path) {
            found = true;
            proof {
                assert(pattern_matches(pats_view(pats@)[k as int], path.deep_view()));
            }
        }
        k = k + 1;
    }
    found
}

/// Compile a pattern list in order. Fails with `FixtureError::Pattern`
/// naming the first pattern that does not compile; succeeds exactly when
/// every pattern compiles.
pub fn compile_patterns(patterns: &Vec<String>) -> (r: Result<Vec<Pattern>, FixtureError>)
    ensures
        match r {
            Result::Ok(v) => {
                &&& v@.len() == patterns@.len()
                &&& forall|k: int|
                    0 <= k < v@.len() ==> parse_pattern(patterns.deep_view()[k]) == Option::Some(
                        #[trigger] pats_view(v@)[k],
                    )
            },
            Result::Err(e) => {
                &&& e matches FixtureError::Pattern { index }
                &&& e matches FixtureError::Pattern { index } ==> 0 <= (index as int)
                    < patterns@.len() && parse_pattern(patterns.deep_view()[index as int]) is None
                    && forall|k: int|
                    0 <= k < index as int ==> parse_pattern(
                        #[trigger] patterns.deep_view()[k],
                    ) is Some
            },
        },
        (r is Ok) <==> (forall|k: int|
            0 <= k < patterns@.len() ==> parse_pattern(#[trigger] patterns.deep_view()[k]) is Some),
{
    let mut out: Vec<Pattern> = Vec::new();
    let mut k: usize = 0;
    while k < patterns.len()
        invariant
            k <= patterns.len(),
            out@.len() == k,
            forall|j: int|
                0 <= j < k as int ==> parse_pattern(patterns.deep_view()[j]) == Option::Some(
                    #[trigger] pats_view(out@)[j],
                ),
        decreases patterns.len() - k,
    {
        proof {
            assert(patterns.deep_view()[k as int] == patterns@[k as int]@);
        }
        match Pattern::compile(patterns[k].as_str()) {
            Option::Some(p) => {
                let ghost prev = out@;
                out.push(p);
                proof {
                    assert forall|j: int| 0 <= j < (k + 1) as int implies parse_pattern(
                        patterns.deep_view()[j],
                    ) == Option::Some(#[trigger] pats_view(out@)[j]) by {
                        if j < k as int {
                            assert(pats_view(out@)[j] == pats_view(prev)[j]);
                        } else {
                            assert(pats_view(out@)[j] == p@);
                        }
                    }
                }
            },
            Option::None => {
                proof {
                    assert(parse_pattern(patterns.deep_view()[k as int]) is None);
                    assert forall|j: int| 0 <= j < k as int implies parse_pattern(
                        #[trigger] patterns.deep_view()[j],
                    ) is Some by {
                        assert(parse_pattern(patterns.deep_view()[j]) == Option::Some(
                            pats_view(out@)[j],
                        ));
                    }
                }
                return Result::Err(FixtureError::Pattern { index: k });
            },
        }
        k = k + 1;
    }
    proof {
        assert forall|j: int| 0 <= j < patterns@.len() implies parse_pattern(
            #[trigger] patterns.deep_view()[j],
        ) is Some by {
            assert(parse_pattern(patterns.deep_view()[j]) == Option::Some(pats_view(out@)[j]));
        }
    }
    Result::Ok(out)
}

} // verus!
