//! The worker's route table and the step that a request leads to.
use vstd::prelude::*;
use crate::handlers::{not_found, Response};
use crate::matcher::{lookup, match_spec, param_value, text_option};
use crate::path::segments;
use crate::pattern::{pattern_view, well_formed, Segment, SegmentView};
use crate::router::{
    is_first_match, lemma_first_match_unique, no_match, BindingView, Method, MethodFilter, Router,
};

verus! {

/// The endpoints of the worker.
#[derive(Clone, Copy, Debug, PartialEq, Eq, Structural)]
pub enum Endpoint {
    /// `GET /`: a lucky number from the database.
    LuckyNumber,
    /// `POST /form/:field`: one field of the submitted form.
    FormField,
    /// `GET /worker-version`: the configured version.
    WorkerVersion,
}

/// What serving a request takes next.
#[derive(Debug)]
pub enum Step {
    /// Send this reply; no handler runs.
    Reply(Response),
    /// Query the database for a lucky number.
    QueryLuckyNumber,
    /// Read the form and look up the field of this name, if the path gave one.
    ReadFormField(Option<String>),
    /// Read the configuration value of this name.
    ReadVar(String),
}

pub open spec fn form_pattern() -> Seq<SegmentView> {
    seq![SegmentView::Literal("form"@), SegmentView::Named("field"@)]
}

pub open spec fn version_pattern() -> Seq<SegmentView> {
    seq![SegmentView::Literal("worker-version"@)]
}

/// `GET /`, `POST /form/:field` and `GET /worker-version`, in this order.
pub open spec fn worker_bindings() -> Seq<BindingView<Endpoint>> {
    seq![
        (MethodFilter::Only(Method::Get), Seq::<SegmentView>::empty(), Endpoint::LuckyNumber),
        (MethodFilter::Only(Method::Post), form_pattern(), Endpoint::FormField),
        (MethodFilter::Only(Method::Get), version_pattern(), Endpoint::WorkerVersion),
    ]
}

/// The step for endpoint `e`, reached with the captured parameters `params`.
pub open spec fn step_for(r: Step, e: Endpoint, params: Seq<(Seq<char>, Seq<char>)>) -> bool {
    match e {
        Endpoint::LuckyNumber => r is QueryLuckyNumber,
        Endpoint::FormField => r is ReadFormField && text_option(r->ReadFormField_0) == lookup(
            params,
            "field"@,
        ),
        Endpoint::WorkerVersion => r is ReadVar && r->ReadVar_0@ == "WORKERS_RS_VERSION"@,
    }
}

/// The worker's route table.
pub fn worker_routes() -> (r: Router<Endpoint>)
    ensures
        r@ == worker_bindings(),
{
    let mut r: Router<Endpoint> = Router::new();
    let root: Vec<Segment> = Vec::new();
    assert(pattern_view(root@) =~= Seq::<SegmentView>::empty());
    let _ = r.add(MethodFilter::Only(Method::Get), root, Endpoint::LuckyNumber);

    let mut form: Vec<Segment> = Vec::new();
    form.push(Segment::Literal(String::from_str("form")));
    form.push(Segment::Named(String::from_str("field")));
    proof {
        reveal_strlit("form");
    }
    assert(pattern_view(form@) =~= form_pattern());
    assert(well_formed(form_pattern()));
    let _ = r.add(MethodFilter::Only(Method::Post), form, Endpoint::FormField);

    let mut version: Vec<Segment> = Vec::new();
    version.push(Segment::Literal(String::from_str("worker-version")));
    proof {
        reveal_strlit("worker-version");
    }
    assert(pattern_view(version@) =~= version_pattern());
    assert(well_formed(version_pattern()));
    let _ = r.add(MethodFilter::Only(Method::Get), version, Endpoint::WorkerVersion);
    assert(r@ =~= worker_bindings());
    r
}

/// Decides what a request leads to: the not-found reply where no binding
/// matches, else the step of the first matching binding's endpoint.
pub fn plan(routes: &Router<Endpoint>, method: Method, path: &str) -> (r: Step)
    ensures
        no_match(routes@, method, segments(path@)) ==> (r matches Step::Reply(reply) && reply.status
            == 404 && reply.body@ == "Not Found"@),
        forall|k: int|
            is_first_match(routes@, method, segments(path@), k) ==> step_for(
                r,
                #[trigger] routes@[k].2,
                match_spec(routes@[k].1, segments(path@))->Some_0,
            ),
{
    match routes.find(method, path) {
        None => Step::Reply(not_found()),
        Some(found) => {
            let ghost i = found.index as int;
            proof {
                assert forall|k: int| is_first_match(routes@, method, segments(path@), k) implies k
                    == i by {
                    lemma_first_match_unique(routes@, method, segments(path@), i, k);
                }
            }
            match *routes.handler(found.index) {
                Endpoint::LuckyNumber => Step::QueryLuckyNumber,
                Endpoint::FormField => Step::ReadFormField(param_value(&found.params, "field")),
                Endpoint::WorkerVersion => Step::ReadVar(String::from_str("WORKERS_RS_VERSION")),
            }
        },
    }
}

} // verus!
