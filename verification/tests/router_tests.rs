use smithy_router::request_spec::{HttpRequestParts, PathAndQuerySpec, RequestSpec, UriSpec};
use smithy_router::routing::{EmptyRouter, Router, RoutingDecision};
use smithy_router::operation_registry::{
    SimpleServiceOperation, SimpleServiceOperationRegistryBuilder,
};

fn request(method: &str, path: &str, query: Option<&str>) -> HttpRequestParts {
    HttpRequestParts {
        method: String::from(method),
        path: String::from(path),
        query: query.map(String::from),
        headers: Vec::new(),
    }
}

fn spec_for(method: &str, pattern: &str) -> RequestSpec {
    let path_and_query = PathAndQuerySpec::parse(pattern).unwrap();
    RequestSpec::new(
        String::from(method),
        UriSpec { host_prefix: None, path_and_query },
    )
}

#[test]
fn it_works() {
    let val: i32 = 4;
    assert_eq!(val, 4);
}

#[test]
fn method_not_allowed_beats_not_found() {
    // Two routes for the same path with different methods: a third method
    // finds the path but not the verb.
    let router: Router<u32> = Router::new()
        .route(spec_for("GET", "/a"), 1)
        .route(spec_for("POST", "/a"), 2);
    assert_eq!(
        router.find_route(&request("DELETE", "/a", None)),
        RoutingDecision::MethodNotAllowed
    );
    assert_eq!(
        router.find_route(&request("GET", "/a", None)),
        RoutingDecision::Matched(0)
    );
    assert_eq!(
        router.find_route(&request("POST", "/a", None)),
        RoutingDecision::Matched(1)
    );
}

#[test]
fn registration_order_is_precedence() {
    // `/fixed` is registered before `/{label}`; a request to `/fixed`
    // dispatches to the first route, never the label route.
    let router: Router<u32> = Router::new()
        .route(spec_for("GET", "/fixed"), 1)
        .route(spec_for("GET", "/{label}"), 2);
    assert_eq!(
        router.find_route(&request("GET", "/fixed", None)),
        RoutingDecision::Matched(0)
    );
    assert_eq!(
        router.find_route(&request("GET", "/other", None)),
        RoutingDecision::Matched(1)
    );

    // Registered the other way round, the label route shadows the literal.
    let shadowing: Router<u32> = Router::new()
        .route(spec_for("GET", "/{label}"), 2)
        .route(spec_for("GET", "/fixed"), 1);
    assert_eq!(
        shadowing.find_route(&request("GET", "/fixed", None)),
        RoutingDecision::Matched(0)
    );
}

#[test]
fn nothing_matches_is_not_found() {
    let router: Router<u32> = Router::new().route(spec_for("GET", "/a"), 1);
    assert_eq!(
        router.find_route(&request("GET", "/b", None)),
        RoutingDecision::NotFound
    );
}

#[test]
fn empty_router_answers_not_found() {
    let router = EmptyRouter;
    assert_eq!(
        router.find_route(&request("GET", "/", None)),
        RoutingDecision::NotFound
    );
}

#[test]
fn shared_router_dispatches_requests_independently() {
    // One router instance, many distinct requests through one shared
    // reference: each decision equals the decision the request gets on its
    // own, so no dispatch disturbs another.
    let router: Router<u32> = Router::new()
        .route(spec_for("GET", "/a"), 1)
        .route(spec_for("POST", "/a"), 2)
        .route(spec_for("GET", "/{label}"), 3);
    let shared = &router;
    let requests = [
        ("GET", "/a", RoutingDecision::Matched(0)),
        ("POST", "/a", RoutingDecision::Matched(1)),
        ("GET", "/b", RoutingDecision::Matched(2)),
        ("DELETE", "/a", RoutingDecision::MethodNotAllowed),
        ("DELETE", "/nope/", RoutingDecision::NotFound),
    ];
    for (method, path, expected) in requests {
        assert_eq!(shared.find_route(&request(method, path, None)), expected);
        // A second dispatch of the same request answers the same.
        assert_eq!(shared.find_route(&request(method, path, None)), expected);
    }
}

#[test]
fn registry_builds_router_with_declared_specs() {
    let registry = SimpleServiceOperationRegistryBuilder::new()
        .health_check(11u32)
        .register_service(22u32)
        .build()
        .unwrap();
    let router = registry.into_router();

    assert_eq!(
        router.find_route(&request("GET", "/path/to/anything/healthcheck", None)),
        RoutingDecision::Matched(0)
    );
    assert_eq!(
        router.find_route(&request(
            "POST",
            "/register-service/gre/ee/dy/suffix",
            Some("key&foo=bar")
        )),
        RoutingDecision::Matched(1)
    );
    assert_eq!(
        router.find_route(&request(
            "DELETE",
            "/path/to/anything/healthcheck",
            None
        )),
        RoutingDecision::MethodNotAllowed
    );
    assert_eq!(
        router.find_route(&request("GET", "/unknown", None)),
        RoutingDecision::NotFound
    );

    let handler = &router.route_at(0).handler;
    assert!(matches!(handler, SimpleServiceOperation::HealthCheck(11)));
}

#[test]
fn registry_builder_reports_missing_operations() {
    let builder: SimpleServiceOperationRegistryBuilder<u32, u32> =
        SimpleServiceOperationRegistryBuilder::new();
    assert!(builder.build().is_err());

    let builder: SimpleServiceOperationRegistryBuilder<u32, u32> =
        SimpleServiceOperationRegistryBuilder::new().health_check(1);
    assert!(builder.build().is_err());
}

fn assert_send<T: Send>() {}

#[test]
fn traits() {
    assert_send::<smithy_router::routing::Route<()>>();
}

#[test]
fn error_carries_message() {
    let e = smithy_router::error::Error::new("boom".to_owned());
    assert_eq!(e.message(), "boom");
}

#[test]
fn operation_wraps_handler() {
    let h = smithy_router::operation_handler::operation(5u32);
    assert_eq!(h.handler, 5);
    let m = smithy_router::method_router::operation(7u32);
    assert_eq!(m.handler, 7);
}
