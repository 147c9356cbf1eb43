//! The operation registry: the user supplies one implementation per
//! operation of the service, and the registry compiles into a router whose
//! routes carry the operations' declared request specifications.

use vstd::prelude::*;

use crate::request_spec::{
    PathAndQuerySpec, PathSegment, PathSpec, QuerySegView, QuerySegment, RequestSpec, SegView,
    UriSpec,
};
use crate::routing::Router;

verus! {

/// One implementation for every operation of the service.
pub struct SimpleServiceOperationRegistry<C1, C2> {
    pub health_check: C1,
    pub register_service: C2,
}

/// Why building a registry failed: an operation was left without an
/// implementation; the payload names the field.
#[derive(Debug, PartialEq, Eq)]
pub enum SimpleServiceOperationRegistryBuilderError {
    UninitializedField(String),
}

/// Collects the operation implementations one by one; `build` checks that
/// none is missing.
pub struct SimpleServiceOperationRegistryBuilder<C1, C2> {
    pub health_check: Option<C1>,
    pub register_service: Option<C2>,
}

impl<C1, C2> SimpleServiceOperationRegistryBuilder<C1, C2> {
    /// An empty builder: no operation has an implementation yet.
    pub fn new() -> (r: SimpleServiceOperationRegistryBuilder<C1, C2>)
        ensures
            r.health_check is None,
            r.register_service is None,
    {
        SimpleServiceOperationRegistryBuilder { health_check: None, register_service: None }
    }

    /// Supply the health check implementation.
    pub fn health_check(self, value: C1) -> (r: SimpleServiceOperationRegistryBuilder<C1, C2>)
        ensures
            r.health_check == Some(value),
            r.register_service == self.register_service,
    {
        SimpleServiceOperationRegistryBuilder {
            health_check: Some(value),
            register_service: self.register_service,
        }
    }

    /// Supply the service registration implementation.
    pub fn register_service(self, value: C2) -> (r: SimpleServiceOperationRegistryBuilder<C1, C2>)
        ensures
            r.register_service == Some(value),
            r.health_check == self.health_check,
    {
        SimpleServiceOperationRegistryBuilder {
            health_check: self.health_check,
            register_service: Some(value),
        }
    }

    /// The registry, when every operation has an implementation; otherwise
    /// the error names the first missing one.
    pub fn build(self) -> (r: Result<
        SimpleServiceOperationRegistry<C1, C2>,
        SimpleServiceOperationRegistryBuilderError,
    >)
        ensures
            match r {
                Ok(reg) => self.health_check == Some(reg.health_check) && self.register_service
                    == Some(reg.register_service),
                Err(e) => (self.health_check is None || self.register_service is None) && (match e {
                    SimpleServiceOperationRegistryBuilderError::UninitializedField(f) => if self
                        .health_check is None {
                        f@ == "health_check"@
                    } else {
                        f@ == "register_service"@
                    },
                }),
            },
    {
        let health_check = match self.health_check {
            Some(v) => v,
            None => {
                return Err(
                    SimpleServiceOperationRegistryBuilderError::UninitializedField(
                        String::from_str("health_check"),
                    ),
                );
            },
        };
        let register_service = match self.register_service {
            Some(v) => v,
            None => {
                return Err(
                    SimpleServiceOperationRegistryBuilderError::UninitializedField(
                        String::from_str("register_service"),
                    ),
                );
            },
        };
        Ok(SimpleServiceOperationRegistry { health_check, register_service })
    }
}

impl<C1, C2> Default for SimpleServiceOperationRegistryBuilder<C1, C2> {
    /// An empty builder: no operation has an implementation yet.
    fn default() -> (r: SimpleServiceOperationRegistryBuilder<C1, C2>)
        ensures
            r.health_check is None,
            r.register_service is None,
    {
        SimpleServiceOperationRegistryBuilder::new()
    }
}

/// The type-erased handler a route of this service carries: one variant per
/// operation.
pub enum SimpleServiceOperation<C1, C2> {
    HealthCheck(C1),
    RegisterService(C2),
}

impl<C1, C2> SimpleServiceOperationRegistry<C1, C2> {
    /// Compile the registry into a router: the health check operation
    /// answers `GET /path/to/{label}/healthcheck`, and the service
    /// registration operation answers
    /// `POST /register-service/{greedy+}/suffix?key&foo=bar`, in that
    /// registration order.
    pub fn into_router(self) -> (r: Router<SimpleServiceOperation<C1, C2>>)
        ensures
            r.routes@.len() == 2,
            r.routes@[0].handler == SimpleServiceOperation::<C1, C2>::HealthCheck(
                self.health_check,
            ),
            r.routes@[0].request_spec@.method == "GET"@,
            r.routes@[0].request_spec@.path_segments == seq![
                SegView::Literal("path"@),
                SegView::Literal("to"@),
                SegView::Label,
                SegView::Literal("healthcheck"@),
            ],
            r.routes@[0].request_spec@.query_segments == Seq::<QuerySegView>::empty(),
            r.routes@[1].handler == SimpleServiceOperation::<C1, C2>::RegisterService(
                self.register_service,
            ),
            r.routes@[1].request_spec@.method == "POST"@,
            r.routes@[1].request_spec@.path_segments == seq![
                SegView::Literal("register-service"@),
                SegView::Greedy,
                SegView::Literal("suffix"@),
            ],
            r.routes@[1].request_spec@.query_segments == seq![
                QuerySegView::Key("key"@),
                QuerySegView::KeyValue("foo"@, "bar"@),
            ],
    {
        let mut health_check_segments: Vec<PathSegment> = Vec::new();
        health_check_segments.push(PathSegment::Literal(String::from_str("path")));
        health_check_segments.push(PathSegment::Literal(String::from_str("to")));
        health_check_segments.push(PathSegment::Label);
        health_check_segments.push(PathSegment::Literal(String::from_str("healthcheck")));
        let health_check_request_spec = RequestSpec::new(
            String::from_str("GET"),
            UriSpec {
                host_prefix: None,
                path_and_query: PathAndQuerySpec {
                    path_segments: PathSpec(health_check_segments),
                    query_segments: Vec::new(),
                },
            },
        );

        let mut register_service_segments: Vec<PathSegment> = Vec::new();
        register_service_segments.push(PathSegment::Literal(String::from_str("register-service")));
        register_service_segments.push(PathSegment::Greedy);
        register_service_segments.push(PathSegment::Literal(String::from_str("suffix")));
        let mut register_service_query: Vec<QuerySegment> = Vec::new();
        register_service_query.push(QuerySegment::Key(String::from_str("key")));
        register_service_query.push(
            QuerySegment::KeyValue(String::from_str("foo"), String::from_str("bar")),
        );
        let register_service_request_spec = RequestSpec::new(
            String::from_str("POST"),
            UriSpec {
                host_prefix: None,
                path_and_query: PathAndQuerySpec {
                    path_segments: PathSpec(register_service_segments),
                    query_segments: register_service_query,
                },
            },
        );

        let r = Router::new().route(
            health_check_request_spec,
            SimpleServiceOperation::HealthCheck(self.health_check),
        ).route(
            register_service_request_spec,
            SimpleServiceOperation::RegisterService(self.register_service),
        );
        proof {
            assert(r.routes@[0].request_spec@.path_segments =~= seq![
                SegView::Literal("path"@),
                SegView::Literal("to"@),
                SegView::Label,
                SegView::Literal("healthcheck"@),
            ]);
            assert(r.routes@[0].request_spec@.query_segments =~= Seq::<QuerySegView>::empty());
            assert(r.routes@[1].request_spec@.path_segments =~= seq![
                SegView::Literal("register-service"@),
                SegView::Greedy,
                SegView::Literal("suffix"@),
            ]);
            assert(r.routes@[1].request_spec@.query_segments =~= seq![
                QuerySegView::Key("key"@),
                QuerySegView::KeyValue("foo"@, "bar"@),
            ]);
        }
        r
    }
}

} // verus!
