//! Route and Router: an ordered collection of request specifications, each
//! bound to a handler, and the dispatch decision over them.
//!
//! The router is built once, before any traffic, and is read-only
//! afterwards: every dispatch is an independent, pure evaluation over the
//! fixed route table, so the decision for a request is a function of the
//! router value and that request alone, whatever other requests are being
//! dispatched at the same time.  Routes are evaluated in registration order
//! and the first full match wins, which makes registration order a
//! precedence rule.  The handler type is opaque to the router: invoking the
//! selected handler (the per-request suspension point) belongs to the
//! surrounding application.

use vstd::prelude::*;

use crate::request_spec::{
    HttpRequestParts, Match, RequestSpec, RequestSpecView, query_view, spec_matches,
};

verus! {

/// One route: a request specification bound to one handler.  Cloning a
/// route clones its specification and its handler; a handler that shares
/// its resources (a function, or a shared pointer) keeps sharing them.
#[derive(Clone)]
pub struct Route<H> {
    pub request_spec: RequestSpec,
    pub handler: H,
}

impl<H> Route<H> {
    /// Bind a handler to a request specification.
    pub fn new(handler: H, request_spec: RequestSpec) -> (r: Route<H>)
        ensures
            r.request_spec == request_spec,
            r.handler == handler,
    {
        Route { request_spec, handler }
    }

    /// Match one request against this route's specification.
    pub fn matches(&self, req: &HttpRequestParts) -> (r: Match)
        ensures
            r == spec_matches(self.request_spec@, req.method@, req.path@, query_view(req.query)),
    {
        self.request_spec.matches(req)
    }
}

/// What the router decides for one request: dispatch to the route at the
/// given index, answer `405 Method Not Allowed`, or answer `404 Not Found`.
#[derive(Debug, Clone, Copy, PartialEq, Eq)]
pub enum RoutingDecision {
    /// The first route whose specification fully matched, by index in
    /// registration order.
    Matched(usize),
    /// No route fully matched, but for at least one the path and query
    /// matched and only the method differed.
    MethodNotAllowed,
    /// No route's path and query matched at all.
    NotFound,
}

/// An ordered collection of routes, assembled once and then read-only.
#[derive(Clone)]
pub struct Router<H> {
    pub routes: Vec<Route<H>>,
}

/// The specifications of a route table, in registration order.
pub open spec fn specs_of<H>(routes: Seq<Route<H>>) -> Seq<RequestSpecView> {
    routes.map_values(|r: Route<H>| r.request_spec@)
}

/// The dispatch decision over `rs[i..]`, `seen_mna` carrying whether an
/// earlier route answered `MethodNotAllowed`: the first `Yes` wins; with no
/// `Yes`, a remembered `MethodNotAllowed` beats `NotFound`.
pub open spec fn spec_dispatch_from(
    rs: Seq<RequestSpecView>,
    i: int,
    method: Seq<char>,
    path: Seq<char>,
    query: Option<Seq<char>>,
    seen_mna: bool,
) -> RoutingDecision
    decreases rs.len() - i,
{
    if i < 0 || i >= rs.len() {
        if seen_mna {
            RoutingDecision::MethodNotAllowed
        } else {
            RoutingDecision::NotFound
        }
    } else {
        match spec_matches(rs[i], method, path, query) {
            Match::Yes => RoutingDecision::Matched(i as usize),
            Match::MethodNotAllowed => spec_dispatch_from(rs, i + 1, method, path, query, true),
            Match::No => spec_dispatch_from(rs, i + 1, method, path, query, seen_mna),
        }
    }
}

/// The dispatch decision for one request over a route table.
pub open spec fn spec_dispatch(
    rs: Seq<RequestSpecView>,
    method: Seq<char>,
    path: Seq<char>,
    query: Option<Seq<char>>,
) -> RoutingDecision {
    spec_dispatch_from(rs, 0, method, path, query, false)
}

impl<H> Router<H> {
    /// An empty router: every request is answered `404 Not Found`.
    pub fn new() -> (r: Router<H>)
        ensures
            r.routes@.len() == 0,
    {
        Router { routes: Vec::new() }
    }

    /// Register one more route, after all previously registered ones.
    pub fn route(self, request_spec: RequestSpec, handler: H) -> (r: Router<H>)
        ensures
            r.routes@ == self.routes@.push(Route { request_spec, handler }),
    {
        let mut routes = self.routes;
        routes.push(Route { request_spec, handler });
        Router { routes }
    }

    /// The number of registered routes.
    pub fn len(&self) -> (r: usize)
        ensures
            r == self.routes@.len(),
    {
        self.routes.len()
    }

    /// The route at index `i`, in registration order.
    pub fn route_at(&self, i: usize) -> (r: &Route<H>)
        requires
            i < self.routes@.len(),
        ensures
            r == self.routes@[i as int],
    {
        &self.routes[i]
    }

    /// Decide what to do with one request: evaluate every route's
    /// specification in registration order, dispatch to the first full
    /// match, and otherwise distinguish "wrong method on a matching
    /// resource" from "nothing matched".
    #[verifier::loop_isolation(false)]
    pub fn find_route(&self, req: &HttpRequestParts) -> (r: RoutingDecision)
        ensures
            r == spec_dispatch(
                specs_of(self.routes@),
                req.method@,
                req.path@,
                query_view(req.query),
            ),
    {
        let ghost rs = specs_of(self.routes@);
        let ghost q = query_view(req.query);
        let mut seen_mna = false;
        let mut i: usize = 0;
        while i < self.routes.len()
            invariant
                i <= self.routes@.len(),
                spec_dispatch(rs, req.method@, req.path@, q) == spec_dispatch_from(
                    rs,
                    i as int,
                    req.method@,
                    req.path@,
                    q,
                    seen_mna,
                ),
            decreases self.routes@.len() - i,
        {
            proof {
                assert(rs[i as int] == self.routes@[i as int].request_spec@);
            }
            match self.routes[i].matches(req) {
                Match::Yes => {
                    return RoutingDecision::Matched(i);
                },
                Match::MethodNotAllowed => {
                    seen_mna = true;
                },
                Match::No => {},
            }
            i = i + 1;
        }
        if seen_mna {
            RoutingDecision::MethodNotAllowed
        } else {
            RoutingDecision::NotFound
        }
    }
}

/// A router that knows no routes; it stands in where a handler collection
/// has not been assembled yet.
#[derive(Debug, Clone, Copy)]
pub struct EmptyRouter;

impl EmptyRouter {
    /// Every request is answered `404 Not Found`.
    pub fn find_route(&self, _req: &HttpRequestParts) -> (r: RoutingDecision)
        ensures
            r == RoutingDecision::NotFound,
    {
        RoutingDecision::NotFound
    }
}

/// The dispatch decision obeys the declared precedence, stated over the
/// verdicts of the individual routes:
/// - a `Matched(i)` names a route whose verdict is `Yes`, and no
///   earlier-registered route's verdict is `Yes`, so registration order is a
///   precedence rule;
/// - `MethodNotAllowed` is answered exactly when no route's verdict is `Yes`
///   and some route's verdict is `MethodNotAllowed`;
/// - `NotFound` is answered exactly when every route's verdict is `No`.
pub proof fn lemma_dispatch_properties(
    rs: Seq<RequestSpecView>,
    method: Seq<char>,
    path: Seq<char>,
    query: Option<Seq<char>>,
)
    requires
        rs.len() <= usize::MAX,
    ensures
        match spec_dispatch(rs, method, path, query) {
            RoutingDecision::Matched(i) => 0 <= i < rs.len() && spec_matches(
                rs[i as int],
                method,
                path,
                query,
            ) == Match::Yes && (forall|j: int|
                0 <= j < i ==> spec_matches(rs[j], method, path, query) != Match::Yes),
            RoutingDecision::MethodNotAllowed => (forall|j: int|
                0 <= j < rs.len() ==> spec_matches(rs[j], method, path, query) != Match::Yes) && (
            exists|j: int|
                0 <= j < rs.len() && spec_matches(rs[j], method, path, query)
                    == Match::MethodNotAllowed),
            RoutingDecision::NotFound => forall|j: int|
                0 <= j < rs.len() ==> spec_matches(rs[j], method, path, query) == Match::No,
        },
{
    lemma_dispatch_from_properties(rs, 0, method, path, query, false);
}

/// The inductive form of [`lemma_dispatch_properties`], over the routes from
/// `i` on.
proof fn lemma_dispatch_from_properties(
    rs: Seq<RequestSpecView>,
    i: int,
    method: Seq<char>,
    path: Seq<char>,
    query: Option<Seq<char>>,
    seen_mna: bool,
)
    requires
        0 <= i <= rs.len(),
        rs.len() <= usize::MAX,
    ensures
        match spec_dispatch_from(rs, i, method, path, query, seen_mna) {
            RoutingDecision::Matched(m) => i <= m < rs.len() && spec_matches(
                rs[m as int],
                method,
                path,
                query,
            ) == Match::Yes && (forall|j: int|
                i <= j < m ==> spec_matches(rs[j], method, path, query) != Match::Yes),
            RoutingDecision::MethodNotAllowed => (forall|j: int|
                i <= j < rs.len() ==> spec_matches(rs[j], method, path, query) != Match::Yes) && (
            seen_mna || exists|j: int|
                i <= j < rs.len() && spec_matches(rs[j], method, path, query)
                    == Match::MethodNotAllowed),
            RoutingDecision::NotFound => !seen_mna && (forall|j: int|
                i <= j < rs.len() ==> spec_matches(rs[j], method, path, query) == Match::No),
        },
    decreases rs.len() - i,
{
    if i < rs.len() {
        match spec_matches(rs[i], method, path, query) {
            Match::Yes => {},
            Match::MethodNotAllowed => {
                lemma_dispatch_from_properties(rs, i + 1, method, path, query, true);
            },
            Match::No => {
                lemma_dispatch_from_properties(rs, i + 1, method, path, query, seen_mna);
            },
        }
    }
}

} // verus!
