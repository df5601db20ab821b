//! Matching the segments of a request path against a pattern.
use vstd::prelude::*;
use crate::path::views;
use crate::pattern::{Segment, SegmentView};

verus! {

/// One captured parameter: the name bound in the pattern and the text of the path.
#[derive(Debug)]
pub struct Param {
    pub name: String,
    pub value: String,
}

impl View for Param {
    type V = (Seq<char>, Seq<char>);

    open spec fn view(&self) -> (Seq<char>, Seq<char>) {
        (self.name@, self.value@)
    }
}

pub open spec fn params_view(v: Seq<Param>) -> Seq<(Seq<char>, Seq<char>)> {
    v.map_values(|x: Param| x@)
}

/// The value of the first parameter named `name`.
pub open spec fn lookup(ps: Seq<(Seq<char>, Seq<char>)>, name: Seq<char>) -> Option<Seq<char>>
    decreases ps.len(),
{
    if ps.len() == 0 {
        None
    } else if ps[0].0 == name {
        Some(ps[0].1)
    } else {
        lookup(ps.drop_first(), name)
    }
}

pub open spec fn text_option(o: Option<String>) -> Option<Seq<char>> {
    match o {
        Some(s) => Some(s@),
        None => None,
    }
}

/// The value captured for the parameter `name`, if any.
pub fn param_value(params: &Vec<Param>, name: &str) -> (r: Option<String>)
    ensures
        text_option(r) == lookup(params_view(params@), name@),
{
    let wanted = String::from_str(name);
    let ghost all = params_view(params@);
    let n = params.len();
    let mut i: usize = 0;
    assert(all.skip(0) =~= all);
    while i < n
        invariant
            n == params@.len(),
            all == params_view(params@),
            wanted@ == name@,
            i <= n,
            lookup(all, name@) == lookup(all.skip(i as int), name@),
        decreases n - i,
    {
        assert(all.skip(i as int).drop_first() =~= all.skip(i + 1));
        assert(all.skip(i as int)[0] == params@[i as int]@);
        if params[i].name.eq(&wanted) {
            return Some(params[i].value.clone());
        }
        i = i + 1;
    }
    None
}

/// Path segments joined back with the separator.
pub open spec fn join(s: Seq<Seq<char>>) -> Seq<char>
    decreases s.len(),
{
    if s.len() == 0 {
        Seq::empty()
    } else if s.len() == 1 {
        s[0]
    } else {
        join(s.drop_last()) + seq!['/'] + s.last()
    }
}

/// The outcome of matching the pattern from segment `i` on against the path
/// from segment `i` on: the parameters captured there, or `None`.
pub open spec fn match_from(p: Seq<SegmentView>, path: Seq<Seq<char>>, i: int) -> Option<
    Seq<(Seq<char>, Seq<char>)>,
>
    decreases p.len() - i,
{
    if i < 0 || i >= p.len() {
        if i == path.len() {
            Some(Seq::empty())
        } else {
            None
        }
    } else {
        match p[i] {
            SegmentView::CatchAll(n) => if i <= path.len() {
                Some(seq![(n, join(path.subrange(i, path.len() as int)))])
            } else {
                None
            },
            SegmentView::Literal(t) => if i < path.len() && path[i] == t {
                match_from(p, path, i + 1)
            } else {
                None
            },
            SegmentView::Named(n) => if i < path.len() && path[i].len() > 0 {
                match match_from(p, path, i + 1) {
                    Some(rest) => Some(seq![(n, path[i])] + rest),
                    None => None,
                }
            } else {
                None
            },
        }
    }
}

/// Whether the pattern matches the path segments, and with which parameters.
pub open spec fn match_spec(p: Seq<SegmentView>, path: Seq<Seq<char>>) -> Option<
    Seq<(Seq<char>, Seq<char>)>,
> {
    match_from(p, path, 0)
}

pub open spec fn prepend(
    a: Seq<(Seq<char>, Seq<char>)>,
    o: Option<Seq<(Seq<char>, Seq<char>)>>,
) -> Option<Seq<(Seq<char>, Seq<char>)>> {
    match o {
        Some(r) => Some(a + r),
        None => None,
    }
}

/// Joins the segments of `path` from `start` on with `/`.
pub fn join_from(path: &Vec<String>, start: usize) -> (r: String)
    requires
        start <= path@.len(),
    ensures
        r@ == join(views(path@).subrange(start as int, path@.len() as int)),
{
    let n = path.len();
    let ghost v = views(path@);
    let mut acc = String::new();
    let mut k: usize = start;
    proof {
        reveal_strlit("/");
        assert(v.subrange(start as int, start as int) =~= Seq::<Seq<char>>::empty());
    }
    while k < n
        invariant
            n == path@.len(),
            v == views(path@),
            start <= k <= n,
            acc@ == join(v.subrange(start as int, k as int)),
        decreases n - k,
    {
        let ghost next = v.subrange(start as int, k + 1);
        assert(next.drop_last() =~= v.subrange(start as int, k as int));
        assert(next.last() == path@[k as int]@);
        if k == start {
            acc = path[k].clone();
            assert(next =~= seq![path@[k as int]@]);
        } else {
            let ghost prev = acc@;
            acc.append("/");
            acc.append(path[k].as_str());
            proof {
                reveal_strlit("/");
                assert(join(next) == join(next.drop_last()) + seq!['/'] + next.last());
                assert(acc@ =~= prev + seq!['/'] + path@[k as int]@);
            }
        }
        k = k + 1;
    }
    acc
}

/// Matches a pattern against the segments of a request path. A literal
/// matches equal text, a named segment any one non-empty segment, and a
/// catch-all the rest of the path, joined with `/`.
pub fn match_segments(pattern: &Vec<Segment>, path: &Vec<String>) -> (r: Option<Vec<Param>>)
    ensures
        r is Some <==> match_spec(pattern@.map_values(|x: Segment| x@), views(path@)) is Some,
        r is Some ==> params_view(r->Some_0@) == match_spec(
            pattern@.map_values(|x: Segment| x@),
            views(path@),
        )->Some_0,
{
    let ghost p = pattern@.map_values(|x: Segment| x@);
    let ghost s = views(path@);
    let np = pattern.len();
    let ns = path.len();
    let mut acc: Vec<Param> = Vec::new();
    let mut i: usize = 0;
    assert(params_view(acc@) + Seq::empty() =~= Seq::<(Seq<char>, Seq<char>)>::empty());
    while i < np
        invariant
            np == pattern@.len(),
            ns == path@.len(),
            p == pattern@.map_values(|x: Segment| x@),
            s == views(path@),
            i <= np,
            i <= ns,
            match_spec(p, s) == prepend(params_view(acc@), match_from(p, s, i as int)),
        decreases np - i,
    {
        assert(p[i as int] == pattern@[i as int]@);
        match &pattern[i] {
            Segment::CatchAll(n) => {
                let value = join_from(path, i);
                let ghost before = acc@;
                acc.push(Param { name: n.clone(), value });
                assert(params_view(acc@) =~= params_view(before) + match_from(p, s, i as int)->Some_0);
                return Some(acc);
            },
            Segment::Literal(t) => {
                if i >= ns {
                    return None;
                }
                assert(s[i as int] == path@[i as int]@);
                if !path[i].eq(t) {
                    return None;
                }
            },
            Segment::Named(n) => {
                if i >= ns {
                    return None;
                }
                assert(s[i as int] == path@[i as int]@);
                if path[i].unicode_len() == 0 {
                    return None;
                }
                let ghost before = acc@;
                acc.push(Param { name: n.clone(), value: path[i].clone() });
                assert(params_view(acc@) =~= params_view(before) + seq![(n@, s[i as int])]);
                proof {
                    let o = match_from(p, s, i + 1);
                    if o is Some {
                        assert(params_view(before) + (seq![(n@, s[i as int])] + o->Some_0)
                            =~= params_view(acc@) + o->Some_0);
                    }
                }
            },
        }
        i = i + 1;
    }
    if i < ns {
        return None;
    }
    assert(params_view(acc@) + Seq::empty() =~= params_view(acc@));
    Some(acc)
}

} // verus!
