//! Structured request specifications: the data model for URI patterns
//! (path segments, query constraints), the specification a request is
//! matched against, and the three-way match verdict.

use vstd::prelude::*;

use crate::path_matcher::{path_matches, path_spec_matches, views_of};
use crate::query::{all_constraints_hold, parse_query_pairs, query_constraints_met, urlencoded_of};

verus! {

/// One component of a URI path pattern.
///
/// `Literal` matches one exact path component, `Label` matches exactly one
/// non-empty component, and `Greedy` absorbs all remaining trailing
/// characters of the path, embedded slashes included.
#[derive(Debug, Clone, PartialEq, Eq)]
pub enum PathSegment {
    Literal(String),
    Label,
    Greedy,
}

/// One query string constraint.
///
/// `Key` requires the key to be present with any value; `KeyValue` requires
/// the key to be present with exactly the given value.
#[derive(Debug, Clone, PartialEq, Eq)]
pub enum QuerySegment {
    Key(String),
    KeyValue(String, String),
}

/// One component of a host prefix pattern.  Declared by the data model but
/// never evaluated during matching.
#[derive(Debug, Clone, PartialEq, Eq)]
pub enum HostPrefixSegment {
    Literal(String),
    Label,
}

/// An ordered sequence of path segments.
#[derive(Debug, Clone, PartialEq, Eq)]
pub struct PathSpec(pub Vec<PathSegment>);

/// The set of query constraints; all of them must hold for a match.
pub type QuerySpec = Vec<QuerySegment>;

/// A path pattern together with its query constraints.
#[derive(Debug, Clone, PartialEq, Eq)]
pub struct PathAndQuerySpec {
    pub path_segments: PathSpec,
    pub query_segments: QuerySpec,
}

/// An optional host prefix constraint plus a path-and-query specification.
/// The host prefix is carried but not evaluated.
#[derive(Debug, Clone)]
pub struct UriSpec {
    pub host_prefix: Option<Vec<HostPrefixSegment>>,
    pub path_and_query: PathAndQuerySpec,
}

/// The verdict of matching one request against one request specification.
#[derive(Debug, Clone, Copy, PartialEq, Eq)]
pub enum Match {
    /// The request matches the URI pattern spec.
    Yes,
    /// The request matches the URI pattern spec, but the wrong HTTP method
    /// was used. `405 Method Not Allowed` should be returned in the response.
    MethodNotAllowed,
    /// The request does not match the URI pattern spec. `404 Not Found`
    /// should be returned in the response.
    No,
}

/// The plain values of a request that matching inspects: its method, its
/// URI path, its raw query string (when one is present), and its headers.
#[derive(Debug, Clone)]
pub struct HttpRequestParts {
    pub method: String,
    pub path: String,
    pub query: Option<String>,
    pub headers: Vec<(String, String)>,
}

/// The mathematical shape of a path segment.
pub ghost enum SegView {
    Literal(Seq<char>),
    Label,
    Greedy,
}

/// The mathematical shape of a query constraint.
pub ghost enum QuerySegView {
    Key(Seq<char>),
    KeyValue(Seq<char>, Seq<char>),
}

/// The mathematical shape of a path-and-query specification.
pub ghost struct PathAndQueryView {
    pub path_segments: Seq<SegView>,
    pub query_segments: Seq<QuerySegView>,
}

impl View for PathSegment {
    type V = SegView;

    open spec fn view(&self) -> SegView {
        match self {
            PathSegment::Literal(t) => SegView::Literal(t@),
            PathSegment::Label => SegView::Label,
            PathSegment::Greedy => SegView::Greedy,
        }
    }
}

impl View for QuerySegment {
    type V = QuerySegView;

    open spec fn view(&self) -> QuerySegView {
        match self {
            QuerySegment::Key(k) => QuerySegView::Key(k@),
            QuerySegment::KeyValue(k, v) => QuerySegView::KeyValue(k@, v@),
        }
    }
}

impl View for PathSpec {
    type V = Seq<SegView>;

    open spec fn view(&self) -> Seq<SegView> {
        self.0@.map_values(|s: PathSegment| s@)
    }
}

impl View for PathAndQuerySpec {
    type V = PathAndQueryView;

    open spec fn view(&self) -> PathAndQueryView {
        PathAndQueryView {
            path_segments: self.path_segments@,
            query_segments: self.query_segments@.map_values(|q: QuerySegment| q@),
        }
    }
}

/// The reasons a textual URI pattern is rejected.
#[derive(Debug, PartialEq, Eq, Clone)]
pub enum PathAndQuerySpecParseError {
    /// The pattern must start with `/`.
    DoesNotStartWithForwardSlash,
    /// The pattern must not end with `?`.
    EndsWithQuestionMark,
    /// The pattern must not contain empty path segments; a trailing forward
    /// slash creates an empty path segment.
    ContainsEmptyPathSegment,
    /// The pattern must not contain a fragment (`#`).
    ContainsFragment,
    /// The pattern must not contain dot segments.
    ContainsDotSegment,
    /// A path segment ends with `}` but its opening `{` is missing.
    UnopenedLabel(String),
    /// A path segment starts with `{` but its closing `}` is missing.
    UnclosedLabel(String),
    /// The query part of the pattern could not be decoded; the payload holds
    /// the decoder's message.
    InvalidQuerySpec(String),
}

/// The mathematical shape of a pattern parse error.
pub ghost enum ParseErrView {
    DoesNotStartWithForwardSlash,
    EndsWithQuestionMark,
    ContainsEmptyPathSegment,
    ContainsFragment,
    ContainsDotSegment,
    UnopenedLabel(Seq<char>),
    UnclosedLabel(Seq<char>),
    InvalidQuerySpec(Seq<char>),
}

impl View for PathAndQuerySpecParseError {
    type V = ParseErrView;

    open spec fn view(&self) -> ParseErrView {
        match self {
            PathAndQuerySpecParseError::DoesNotStartWithForwardSlash => ParseErrView::DoesNotStartWithForwardSlash,
            PathAndQuerySpecParseError::EndsWithQuestionMark => ParseErrView::EndsWithQuestionMark,
            PathAndQuerySpecParseError::ContainsEmptyPathSegment => ParseErrView::ContainsEmptyPathSegment,
            PathAndQuerySpecParseError::ContainsFragment => ParseErrView::ContainsFragment,
            PathAndQuerySpecParseError::ContainsDotSegment => ParseErrView::ContainsDotSegment,
            PathAndQuerySpecParseError::UnopenedLabel(t) => ParseErrView::UnopenedLabel(t@),
            PathAndQuerySpecParseError::UnclosedLabel(t) => ParseErrView::UnclosedLabel(t@),
            PathAndQuerySpecParseError::InvalidQuerySpec(m) => ParseErrView::InvalidQuerySpec(m@),
        }
    }
}

/// A compiled request specification: an HTTP method plus a URI
/// specification.  Matching interprets the path segments directly; the
/// specification is immutable once constructed and is reused, unmodified,
/// for every request evaluated against it.
#[derive(Debug, Clone)]
pub struct RequestSpec {
    pub method: String,
    pub uri_spec: UriSpec,
}

/// The mathematical shape of a request specification, as matching sees it.
/// The host prefix is declared but never evaluated, so it has no part here.
pub ghost struct RequestSpecView {
    pub method: Seq<char>,
    pub path_segments: Seq<SegView>,
    pub query_segments: Seq<QuerySegView>,
}

impl View for RequestSpec {
    type V = RequestSpecView;

    open spec fn view(&self) -> RequestSpecView {
        RequestSpecView {
            method: self.method@,
            path_segments: self.uri_spec.path_and_query.path_segments@,
            query_segments: self.uri_spec.path_and_query@.query_segments,
        }
    }
}

/// The view of an optional query string.
pub open spec fn query_view(q: Option<String>) -> Option<Seq<char>> {
    match q {
        Some(s) => Some(s@),
        None => None,
    }
}

/// The verdict of matching one request against one specification.
///
/// The path is the primary discriminator: a request whose path does not
/// match is `No`, whatever its method or query.  When the path matches and
/// the declared query constraints (if any) hold of the request's decoded
/// query pairs, the verdict is `Yes` on a method match and
/// `MethodNotAllowed` otherwise.  A request without a query string, or whose
/// query string does not decode, is `No` whenever query constraints are
/// declared.
pub open spec fn spec_matches(
    spec: RequestSpecView,
    method: Seq<char>,
    path: Seq<char>,
    query: Option<Seq<char>>,
) -> Match {
    if !path_spec_matches(spec.path_segments, path) {
        Match::No
    } else if spec.query_segments.len() == 0 {
        if method == spec.method {
            Match::Yes
        } else {
            Match::MethodNotAllowed
        }
    } else {
        match query {
            None => Match::No,
            Some(q) => match urlencoded_of(q) {
                Err(_) => Match::No,
                Ok(pairs) => if all_constraints_hold(spec.query_segments, pairs) {
                    if method == spec.method {
                        Match::Yes
                    } else {
                        Match::MethodNotAllowed
                    }
                } else {
                    Match::No
                },
            },
        }
    }
}

impl RequestSpec {
    /// Bind a method to a URI specification.
    pub fn new(method: String, uri_spec: UriSpec) -> (r: RequestSpec)
        ensures
            r.method == method,
            r.uri_spec == uri_spec,
    {
        RequestSpec { method, uri_spec }
    }

    /// A specification that matches every path, with method `GET` and no
    /// host prefix or query constraints.
    pub fn always_get() -> (r: RequestSpec)
        ensures
            r@.method == "GET"@,
            r@.path_segments == Seq::<SegView>::empty(),
            r@.query_segments == Seq::<QuerySegView>::empty(),
            r.uri_spec.host_prefix is None,
    {
        let r = RequestSpec {
            method: String::from_str("GET"),
            uri_spec: UriSpec {
                host_prefix: None,
                path_and_query: PathAndQuerySpec {
                    path_segments: PathSpec(Vec::new()),
                    query_segments: Vec::new(),
                },
            },
        };
        proof {
            assert(r@.path_segments =~= Seq::<SegView>::empty());
            assert(r@.query_segments =~= Seq::<QuerySegView>::empty());
        }
        r
    }

    /// Match one request against this specification.
    ///
    /// A declared host prefix is carried but not evaluated.
    pub fn matches(&self, req: &HttpRequestParts) -> (r: Match)
        ensures
            r == spec_matches(self@, req.method@, req.path@, query_view(req.query)),
    {
        let path_ok = path_matches(&self.uri_spec.path_and_query.path_segments.0, req.path.as_str());
        proof {
            assert(views_of(self.uri_spec.path_and_query.path_segments.0@)
                == self@.path_segments);
        }
        if !path_ok {
            return Match::No;
        }
        if self.uri_spec.path_and_query.query_segments.len() == 0 {
            if self.method == req.method {
                return Match::Yes;
            } else {
                return Match::MethodNotAllowed;
            }
        }
        match &req.query {
            None => Match::No,
            Some(q) => {
                match parse_query_pairs(q.as_str()) {
                    Err(_) => Match::No,
                    Ok(pairs) => {
                        if query_constraints_met(
                            &self.uri_spec.path_and_query.query_segments,
                            &pairs,
                        ) {
                            if self.method == req.method {
                                Match::Yes
                            } else {
                                Match::MethodNotAllowed
                            }
                        } else {
                            Match::No
                        }
                    },
                }
            },
        }
    }
}

} // verus!
