//! Route patterns: literal, named (`:name`) and catch-all (`*name`) segments.
use vstd::prelude::*;
use crate::path::{segments, split_segments, views};

verus! {

/// One segment of a route pattern.
#[derive(Debug)]
pub enum Segment {
    /// Matches exactly this text.
    Literal(String),
    /// Matches one non-empty path segment and binds it to this name.
    Named(String),
    /// Matches the rest of the path and binds it, joined, to this name.
    CatchAll(String),
}

pub enum SegmentView {
    Literal(Seq<char>),
    Named(Seq<char>),
    CatchAll(Seq<char>),
}

impl View for Segment {
    type V = SegmentView;

    open spec fn view(&self) -> SegmentView {
        match self {
            Segment::Literal(t) => SegmentView::Literal(t@),
            Segment::Named(t) => SegmentView::Named(t@),
            Segment::CatchAll(t) => SegmentView::CatchAll(t@),
        }
    }
}

/// Why a pattern text is not a valid pattern.
#[derive(Clone, Copy, Debug, PartialEq, Eq, Structural)]
pub enum PatternError {
    /// Two separators with nothing between them.
    EmptySegment,
    /// A catch-all segment that is not the last one.
    CatchAllNotLast,
    /// Two named or catch-all segments with the same name.
    DuplicateName,
}

pub open spec fn segment_of(f: Seq<char>) -> SegmentView {
    if f.len() > 0 && f[0] == ':' {
        SegmentView::Named(f.drop_first())
    } else if f.len() > 0 && f[0] == '*' {
        SegmentView::CatchAll(f.drop_first())
    } else {
        SegmentView::Literal(f)
    }
}

/// Whether the segment binds a parameter.
pub open spec fn binds(s: SegmentView) -> bool {
    !(s is Literal)
}

/// The literal text, or the name that the segment binds.
pub open spec fn text_of(s: SegmentView) -> Seq<char> {
    match s {
        SegmentView::Literal(t) => t,
        SegmentView::Named(t) => t,
        SegmentView::CatchAll(t) => t,
    }
}

pub open spec fn pattern_view(v: Seq<Segment>) -> Seq<SegmentView> {
    v.map_values(|x: Segment| x@)
}

/// The segments that the fields of a pattern text stand for.
pub open spec fn pattern_of(f: Seq<Seq<char>>) -> Seq<SegmentView> {
    f.map_values(|x: Seq<char>| segment_of(x))
}

pub open spec fn has_empty_field(f: Seq<Seq<char>>) -> bool {
    exists|i: int| 0 <= i < f.len() && #[trigger] f[i].len() == 0
}

pub open spec fn catch_all_before_end(p: Seq<SegmentView>) -> bool {
    exists|i: int| 0 <= i < p.len() - 1 && #[trigger] p[i] is CatchAll
}

pub open spec fn same_binding(a: SegmentView, b: SegmentView) -> bool {
    binds(a) && binds(b) && text_of(a) == text_of(b)
}

pub open spec fn repeated_name(p: Seq<SegmentView>) -> bool {
    exists|i: int, j: int| 0 <= i < j < p.len() && #[trigger] same_binding(p[i], p[j])
}

/// A pattern that can be registered: no empty literal, a catch-all only at
/// the end, and each parameter name bound once.
pub open spec fn well_formed(p: Seq<SegmentView>) -> bool {
    &&& forall|i: int| 0 <= i < p.len() && #[trigger] p[i] is Literal ==> text_of(p[i]).len() > 0
    &&& !catch_all_before_end(p)
    &&& !repeated_name(p)
}

/// What a pattern text denotes: its segments, or the first of the errors
/// in the order empty segment, misplaced catch-all, repeated name.
pub open spec fn parse_spec(s: Seq<char>) -> Result<Seq<SegmentView>, PatternError> {
    let f = segments(s);
    let p = pattern_of(f);
    if has_empty_field(f) {
        Err(PatternError::EmptySegment)
    } else if catch_all_before_end(p) {
        Err(PatternError::CatchAllNotLast)
    } else if repeated_name(p) {
        Err(PatternError::DuplicateName)
    } else {
        Ok(p)
    }
}

/// Every pattern that parses is well formed.
pub proof fn lemma_parsed_well_formed(s: Seq<char>)
    requires
        parse_spec(s) is Ok,
    ensures
        well_formed(parse_spec(s)->Ok_0),
{
    let f = segments(s);
    let p = pattern_of(f);
    assert forall|i: int| 0 <= i < p.len() && #[trigger] p[i] is Literal implies text_of(p[i]).len() > 0 by {
        assert(f[i].len() != 0);
    }
}

/// Reads one segment of a pattern.
pub fn parse_segment(f: &str) -> (r: Segment)
    ensures
        r@ == segment_of(f@),
{
    let n = f.unicode_len();
    if n > 0 {
        let c = f.get_char(0);
        if c == ':' || c == '*' {
            let rest = String::from_str(f.substring_char(1, n));
            assert(rest@ =~= f@.drop_first());
            if c == ':' {
                return Segment::Named(rest);
            } else {
                return Segment::CatchAll(rest);
            }
        }
    }
    Segment::Literal(String::from_str(f))
}

/// Whether two segments bind the same name.
pub fn binds_same_name(a: &Segment, b: &Segment) -> (r: bool)
    ensures
        r == same_binding(a@, b@),
{
    let x = match a {
        Segment::Literal(_) => {
            return false;
        },
        Segment::Named(x) => x,
        Segment::CatchAll(x) => x,
    };
    let y = match b {
        Segment::Literal(_) => {
            return false;
        },
        Segment::Named(y) => y,
        Segment::CatchAll(y) => y,
    };
    x.eq(y)
}

/// Parses and checks a pattern text such as `/form/:field` or `/files/*rest`.
pub fn parse_pattern(s: &str) -> (r: Result<Vec<Segment>, PatternError>)
    ensures
        match r {
            Ok(v) => parse_spec(s@) == Ok::<Seq<SegmentView>, PatternError>(pattern_view(v@)),
            Err(e) => parse_spec(s@) == Err::<Seq<SegmentView>, PatternError>(e),
        },
{
    let fields = split_segments(s);
    let ghost f = segments(s@);
    let ghost p = pattern_of(f);
    let n = fields.len();
    assert(views(fields@).len() == n);
    let mut i: usize = 0;
    while i < n
        invariant
            n == fields@.len(),
            views(fields@) == f,
            f == segments(s@),
            p == pattern_of(f),
            i <= n,
            forall|k: int| 0 <= k < i ==> f[k].len() != 0,
        decreases n - i,
    {
        assert(f[i as int] == fields@[i as int]@);
        if fields[i].unicode_len() == 0 {
            assert(has_empty_field(f));
            return Err(PatternError::EmptySegment);
        }
        i = i + 1;
    }
    assert(!has_empty_field(f));
    let mut segs: Vec<Segment> = Vec::new();
    let mut i: usize = 0;
    while i < n
        invariant
            n == fields@.len(),
            views(fields@) == f,
            f == segments(s@),
            p == pattern_of(f),
            i <= n,
            p.len() == n,
            segs@.len() == i,
            forall|k: int| 0 <= k < i ==> #[trigger] segs@[k]@ == p[k],
        decreases n - i,
    {
        assert(f[i as int] == fields@[i as int]@);
        segs.push(parse_segment(fields[i].as_str()));
        assert(p[i as int] == segment_of(f[i as int]));
        i = i + 1;
    }
    assert(pattern_view(segs@) =~= p);
    let mut i: usize = 0;
    while i < n
        invariant
            segs@.len() == n,
            pattern_view(segs@) == p,
            f == segments(s@),
            p == pattern_of(f),
            !has_empty_field(f),
            i <= n,
            forall|k: int| 0 <= k < i && k < n - 1 ==> !(#[trigger] p[k] is CatchAll),
        decreases n - i,
    {
        assert(p[i as int] == segs@[i as int]@);
        if i + 1 < n && matches!(segs[i], Segment::CatchAll(_)) {
            assert(catch_all_before_end(p));
            return Err(PatternError::CatchAllNotLast);
        }
        i = i + 1;
    }
    assert(!catch_all_before_end(p));
    let mut i: usize = 0;
    while i < n
        invariant
            segs@.len() == n,
            pattern_view(segs@) == p,
            i <= n,
            f == segments(s@),
            p == pattern_of(f),
            !has_empty_field(f),
            !catch_all_before_end(p),
            forall|a: int, b: int| 0 <= a < i && a < b < n ==> !#[trigger] same_binding(p[a], p[b]),
        decreases n - i,
    {
        let mut j: usize = i + 1;
        while j < n
            invariant
                segs@.len() == n,
                pattern_view(segs@) == p,
                f == segments(s@),
                i < n,
                i < j <= n,
                p == pattern_of(f),
                !has_empty_field(f),
                !catch_all_before_end(p),
                forall|a: int, b: int| 0 <= a < i && a < b < n ==> !#[trigger] same_binding(p[a], p[b]),
                forall|b: int| i < b < j ==> !#[trigger] same_binding(p[i as int], p[b]),
            decreases n - j,
        {
            assert(p[i as int] == segs@[i as int]@ && p[j as int] == segs@[j as int]@);
            if binds_same_name(&segs[i], &segs[j]) {
                assert(repeated_name(p));
                return Err(PatternError::DuplicateName);
            }
            j = j + 1;
        }
        i = i + 1;
    }
    assert(!repeated_name(p));
    Ok(segs)
}

} // verus!
