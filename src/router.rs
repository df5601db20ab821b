//! The route table: bindings of (method, pattern) to a handler, searched in
//! registration order.
use vstd::prelude::*;
use crate::matcher::{match_segments, match_spec, params_view, Param};
use crate::path::{segments, split_segments, views};
use crate::pattern::{
    lemma_parsed_well_formed, parse_pattern, parse_spec, pattern_view, well_formed, PatternError,
    Segment, SegmentView,
};

verus! {

/// An HTTP request method.
#[derive(Clone, Copy, Debug, PartialEq, Eq, Structural)]
pub enum Method {
    Get,
    Head,
    Post,
    Put,
    Patch,
    Delete,
    Options,
    Connect,
    Trace,
    Report,
}

/// The methods that a binding answers: one, or any.
#[derive(Clone, Copy, Debug, PartialEq, Eq, Structural)]
pub enum MethodFilter {
    Any,
    Only(Method),
}

/// Why a binding could not be registered.
#[derive(Clone, Copy, Debug, PartialEq, Eq, Structural)]
pub enum RouteError {
    /// The pattern text is not a valid pattern.
    Malformed(PatternError),
    /// The same method and pattern are bound already.
    Duplicate,
}

/// A binding as the contracts see it: method filter, pattern, handler.
pub type BindingView<H> = (MethodFilter, Seq<SegmentView>, H);

pub open spec fn accepts(f: MethodFilter, m: Method) -> bool {
    match f {
        MethodFilter::Any => true,
        MethodFilter::Only(x) => x == m,
    }
}

pub open spec fn binding_matches<H>(b: BindingView<H>, m: Method, path: Seq<Seq<char>>) -> bool {
    accepts(b.0, m) && match_spec(b.1, path) is Some
}

/// Binding `i` matches, and no binding registered before it does.
pub open spec fn is_first_match<H>(
    rs: Seq<BindingView<H>>,
    m: Method,
    path: Seq<Seq<char>>,
    i: int,
) -> bool {
    &&& 0 <= i < rs.len()
    &&& binding_matches(rs[i], m, path)
    &&& forall|j: int| 0 <= j < i ==> !binding_matches(#[trigger] rs[j], m, path)
}

pub open spec fn no_match<H>(rs: Seq<BindingView<H>>, m: Method, path: Seq<Seq<char>>) -> bool {
    forall|j: int| 0 <= j < rs.len() ==> !binding_matches(#[trigger] rs[j], m, path)
}

pub open spec fn is_registered<H>(rs: Seq<BindingView<H>>, m: MethodFilter, p: Seq<SegmentView>) -> bool {
    exists|j: int| 0 <= j < rs.len() && (#[trigger] rs[j]).0 == m && rs[j].1 == p
}

/// Two bindings that both match a request: the first match is never the
/// one registered later, and never after the earlier one.
pub proof fn lemma_earlier_binding_wins<H>(
    rs: Seq<BindingView<H>>,
    m: Method,
    path: Seq<Seq<char>>,
    i: int,
    j: int,
    k: int,
)
    requires
        0 <= i < j < rs.len(),
        binding_matches(rs[i], m, path),
        binding_matches(rs[j], m, path),
        is_first_match(rs, m, path, k),
    ensures
        k <= i,
        k != j,
{
}

/// A request has at most one first match.
pub proof fn lemma_first_match_unique<H>(
    rs: Seq<BindingView<H>>,
    m: Method,
    path: Seq<Seq<char>>,
    i: int,
    k: int,
)
    requires
        is_first_match(rs, m, path, i),
        is_first_match(rs, m, path, k),
    ensures
        i == k,
{
    if i < k {
        assert(!binding_matches(rs[i], m, path));
    } else if k < i {
        assert(!binding_matches(rs[k], m, path));
    }
}

/// The match of one pattern against one path is determined by the two:
/// two outcomes of matching the same pattern against the same path are equal.
pub proof fn lemma_match_is_function(
    p: Seq<SegmentView>,
    path: Seq<char>,
    a: Option<Seq<(Seq<char>, Seq<char>)>>,
    b: Option<Seq<(Seq<char>, Seq<char>)>>,
)
    requires
        a == match_spec(p, segments(path)),
        b == match_spec(p, segments(path)),
    ensures
        a == b,
{
}

pub fn method_accepts(f: MethodFilter, m: Method) -> (r: bool)
    ensures
        r == accepts(f, m),
{
    match f {
        MethodFilter::Any => true,
        MethodFilter::Only(x) => x == m,
    }
}

/// Whether two segments are the same.
pub fn same_segment(a: &Segment, b: &Segment) -> (r: bool)
    ensures
        r == (a@ == b@),
{
    match (a, b) {
        (Segment::Literal(x), Segment::Literal(y)) => x.eq(y),
        (Segment::Named(x), Segment::Named(y)) => x.eq(y),
        (Segment::CatchAll(x), Segment::CatchAll(y)) => x.eq(y),
        _ => false,
    }
}

/// Whether two patterns are the same, segment by segment.
pub fn same_pattern(a: &Vec<Segment>, b: &Vec<Segment>) -> (r: bool)
    ensures
        r == (pattern_view(a@) == pattern_view(b@)),
{
    if a.len() != b.len() {
        assert(pattern_view(a@).len() != pattern_view(b@).len());
        return false;
    }
    let n = a.len();
    let mut i: usize = 0;
    while i < n
        invariant
            n == a@.len(),
            n == b@.len(),
            i <= n,
            forall|k: int| 0 <= k < i ==> #[trigger] a@[k]@ == b@[k]@,
        decreases n - i,
    {
        if !same_segment(&a[i], &b[i]) {
            assert(pattern_view(a@)[i as int] != pattern_view(b@)[i as int]);
            return false;
        }
        i = i + 1;
    }
    assert(pattern_view(a@) =~= pattern_view(b@));
    true
}

/// Matches a pattern against a request path.
pub fn match_path(pattern: &Vec<Segment>, path: &str) -> (r: Option<Vec<Param>>)
    ensures
        r is Some <==> match_spec(pattern_view(pattern@), segments(path@)) is Some,
        r is Some ==> params_view(r->Some_0@) == match_spec(
            pattern_view(pattern@),
            segments(path@),
        )->Some_0,
{
    let parts = split_segments(path);
    match_segments(pattern, &parts)
}

/// One registered binding.
pub struct Route<H> {
    pub method: MethodFilter,
    pub pattern: Vec<Segment>,
    pub handler: H,
}

/// The found binding: its position in registration order and the captured parameters.
pub struct RouteMatch {
    pub index: usize,
    pub params: Vec<Param>,
}

/// An ordered table of bindings, fixed once registration is over.
pub struct Router<H> {
    routes: Vec<Route<H>>,
}

pub open spec fn binding_of<H>(r: Route<H>) -> BindingView<H> {
    (r.method, pattern_view(r.pattern@), r.handler)
}

impl<H> View for Router<H> {
    type V = Seq<BindingView<H>>;

    closed spec fn view(&self) -> Seq<BindingView<H>> {
        self.routes@.map_values(|r: Route<H>| binding_of(r))
    }
}

impl<H> Router<H> {
    /// An empty table.
    pub fn new() -> (r: Self)
        ensures
            r@ == Seq::<BindingView<H>>::empty(),
    {
        let r = Router { routes: Vec::new() };
        assert(r@ =~= Seq::<BindingView<H>>::empty());
        r
    }

    /// The number of bindings.
    pub fn len(&self) -> (r: usize)
        ensures
            r == self@.len(),
    {
        self.routes.len()
    }

    /// The handler of binding `i`.
    pub fn handler(&self, i: usize) -> (r: &H)
        requires
            i < self@.len(),
        ensures
            *r == self@[i as int].2,
    {
        &self.routes[i].handler
    }

    fn position_of(&self, method: MethodFilter, pattern: &Vec<Segment>) -> (r: Option<usize>)
        ensures
            r is None <==> !is_registered(self@, method, pattern_view(pattern@)),
    {
        let n = self.routes.len();
        let mut i: usize = 0;
        while i < n
            invariant
                n == self.routes@.len(),
                self@ == self.routes@.map_values(|r: Route<H>| binding_of(r)),
                i <= n,
                forall|k: int|
                    0 <= k < i ==> !((#[trigger] self@[k]).0 == method && self@[k].1 == pattern_view(
                        pattern@,
                    )),
            decreases n - i,
        {
            let r = &self.routes[i];
            assert(self@[i as int] == binding_of(self.routes@[i as int]));
            if r.method == method && same_pattern(&r.pattern, pattern) {
                return Some(i);
            }
            i = i + 1;
        }
        None
    }

    /// Adds a binding after those there. Fails, leaving the table as it was,
    /// where the pattern is malformed or the method and pattern are bound already.
    pub fn register(&mut self, method: MethodFilter, pattern: &str, handler: H) -> (r: Result<
        (),
        RouteError,
    >)
        ensures
            match parse_spec(pattern@) {
                Err(e) => r == Err::<(), RouteError>(RouteError::Malformed(e)) && final(self)@ == old(
                    self,
                )@,
                Ok(p) => if is_registered(old(self)@, method, p) {
                    r == Err::<(), RouteError>(RouteError::Duplicate) && final(self)@ == old(self)@
                } else {
                    r == Ok::<(), RouteError>(()) && final(self)@ == old(self)@.push(
                        (method, p, handler),
                    )
                },
            },
    {
        let segs = match parse_pattern(pattern) {
            Ok(segs) => segs,
            Err(e) => {
                return Err(RouteError::Malformed(e));
            },
        };
        proof {
            lemma_parsed_well_formed(pattern@);
        }
        self.add(method, segs, handler)
    }

    /// Adds a binding of an already parsed pattern after those there. Fails,
    /// leaving the table as it was, where the method and pattern are bound already.
    pub fn add(&mut self, method: MethodFilter, pattern: Vec<Segment>, handler: H) -> (r: Result<
        (),
        RouteError,
    >)
        requires
            well_formed(pattern_view(pattern@)),
        ensures
            if is_registered(old(self)@, method, pattern_view(pattern@)) {
                r == Err::<(), RouteError>(RouteError::Duplicate) && final(self)@ == old(self)@
            } else {
                r == Ok::<(), RouteError>(()) && final(self)@ == old(self)@.push(
                    (method, pattern_view(pattern@), handler),
                )
            },
    {
        if self.position_of(method, &pattern).is_some() {
            return Err(RouteError::Duplicate);
        }
        let ghost before = self.routes@;
        let ghost p = pattern_view(pattern@);
        self.routes.push(Route { method, pattern, handler });
        assert(self.routes@.map_values(|r: Route<H>| binding_of(r)) =~= before.map_values(
            |r: Route<H>| binding_of(r),
        ).push((method, p, handler)));
        Ok(())
    }

    /// Finds the first binding, in registration order, whose method filter
    /// accepts `method` and whose pattern matches `path`.
    pub fn find(&self, method: Method, path: &str) -> (r: Option<RouteMatch>)
        ensures
            r is None <==> no_match(self@, method, segments(path@)),
            r is Some ==> is_first_match(self@, method, segments(path@), r->Some_0.index as int),
            r is Some ==> params_view(r->Some_0.params@) == match_spec(
                self@[r->Some_0.index as int].1,
                segments(path@),
            )->Some_0,
    {
        let parts = split_segments(path);
        let ghost s = segments(path@);
        let n = self.routes.len();
        let mut i: usize = 0;
        while i < n
            invariant
                n == self.routes@.len(),
                self@ == self.routes@.map_values(|r: Route<H>| binding_of(r)),
                views(parts@) == s,
                s == segments(path@),
                i <= n,
                forall|k: int| 0 <= k < i ==> !binding_matches(#[trigger] self@[k], method, s),
            decreases n - i,
        {
            let r = &self.routes[i];
            assert(self@[i as int] == binding_of(self.routes@[i as int]));
            if method_accepts(r.method, method) {
                match match_segments(&r.pattern, &parts) {
                    Some(params) => {
                        return Some(RouteMatch { index: i, params });
                    },
                    None => {},
                }
            }
            i = i + 1;
        }
        None
    }
}

} // verus!
