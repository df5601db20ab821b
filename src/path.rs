//! Splitting a request path or a route pattern into segments.
use vstd::prelude::*;

verus! {

/// The fields of `s` between separators, as `str::split('/')` gives them:
/// always at least one, possibly empty.
pub open spec fn fields(s: Seq<char>) -> Seq<Seq<char>>
    decreases s.len(),
{
    if s.len() == 0 {
        seq![Seq::empty()]
    } else {
        let f = fields(s.drop_last());
        if s.last() == '/' {
            f.push(Seq::empty())
        } else {
            f.update(f.len() - 1, f.last().push(s.last()))
        }
    }
}

/// `s` without one leading and one trailing separator.
pub open spec fn trimmed(s: Seq<char>) -> Seq<char> {
    let a = if s.len() > 0 && s[0] == '/' { s.drop_first() } else { s };
    if a.len() > 0 && a.last() == '/' { a.drop_last() } else { a }
}

/// The segments of a path: `/` and the empty path have none; `/a/b/` has `a` and `b`.
pub open spec fn segments(s: Seq<char>) -> Seq<Seq<char>> {
    let t = trimmed(s);
    if t.len() == 0 { Seq::empty() } else { fields(t) }
}

pub open spec fn views(v: Seq<String>) -> Seq<Seq<char>> {
    v.map_values(|x: String| x@)
}

pub proof fn lemma_fields_nonempty(s: Seq<char>)
    ensures
        fields(s).len() >= 1,
    decreases s.len(),
{
    if s.len() > 0 {
        lemma_fields_nonempty(s.drop_last());
    }
}

/// Splits `s` on every `/`, keeping empty fields.
pub fn split_fields(s: &str) -> (r: Vec<String>)
    ensures
        views(r@) == fields(s@),
{
    let n = s.unicode_len();
    let mut out: Vec<String> = Vec::new();
    let mut start: usize = 0;
    let mut i: usize = 0;
    assert(s@.take(0) =~= Seq::<char>::empty());
    while i < n
        invariant
            n == s@.len(),
            start <= i <= n,
            fields(s@.take(i as int)) == views(out@).push(s@.subrange(start as int, i as int)),
        decreases n - i,
    {
        let c = s.get_char(i);
        let ghost prev = s@.take(i as int);
        let ghost next = s@.take(i + 1);
        assert(next.drop_last() =~= prev);
        assert(next.last() == c);
        proof {
            lemma_fields_nonempty(prev);
        }
        if c == '/' {
            let piece = String::from_str(s.substring_char(start, i));
            let ghost before = out@;
            out.push(piece);
            assert(views(out@) =~= views(before).push(s@.subrange(start as int, i as int)));
            start = i + 1;
            assert(fields(next) == fields(prev).push(Seq::empty()));
            assert(s@.subrange(start as int, i + 1) =~= Seq::<char>::empty());
            assert(fields(next) =~= views(out@).push(s@.subrange(start as int, i + 1)));
        } else {
            assert(s@.subrange(start as int, i as int).push(c) =~= s@.subrange(start as int, i + 1));
            assert(fields(next) =~= views(out@).push(s@.subrange(start as int, i + 1)));
        }
        i = i + 1;
    }
    let last = String::from_str(s.substring_char(start, n));
    let ghost before = out@;
    out.push(last);
    assert(s@.take(n as int) =~= s@);
    assert(views(out@) =~= views(before).push(s@.subrange(start as int, n as int)));
    out
}

/// Splits a request path or a pattern into its segments, ignoring one
/// leading and one trailing separator.
pub fn split_segments(s: &str) -> (r: Vec<String>)
    ensures
        views(r@) == segments(s@),
{
    let n = s.unicode_len();
    let mut lo: usize = 0;
    if n > 0 && s.get_char(0) == '/' {
        lo = 1;
    }
    let mut hi: usize = n;
    if hi > lo && s.get_char(hi - 1) == '/' {
        hi = hi - 1;
    }
    let t = s.substring_char(lo, hi);
    proof {
        let a = if s@.len() > 0 && s@[0] == '/' { s@.drop_first() } else { s@ };
        assert(a =~= s@.subrange(lo as int, n as int));
        if a.len() > 0 && a.last() == '/' {
            assert(a.drop_last() =~= t@);
        } else {
            assert(a =~= t@);
        }
    }
    if hi == lo {
        let r: Vec<String> = Vec::new();
        assert(views(r@) =~= Seq::<Seq<char>>::empty());
        r
    } else {
        split_fields(t)
    }
}

} // verus!
