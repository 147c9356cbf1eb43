use smithy_router::protocol_helpers::{
    forbid_headers, forbid_query_params, normalized_header, require_headers, require_query_params,
    validate_body, validate_headers, validate_query_string, MediaType, ProtocolTestFailure,
    QueryParam,
};
use smithy_router::runtime::json_content_type;

fn strings(xs: &[&str]) -> Vec<String> {
    xs.iter().map(|s| String::from(*s)).collect()
}

fn header_pairs(xs: &[(&str, &str)]) -> Vec<(String, String)> {
    xs.iter().map(|(k, v)| (String::from(*k), String::from(*v))).collect()
}

#[test]
fn test_validate_empty_query_string() {
    validate_query_string(None, &strings(&[])).expect("no required params should pass");
    validate_query_string(None, &strings(&["a"]))
        .err()
        .expect("no params provided");
}

#[test]
fn test_validate_query_string() {
    let query = Some("a=b&c&d=efg&hello=a%20b");
    validate_query_string(query, &strings(&["a=b"])).expect("a=b is in the query string");
    validate_query_string(query, &strings(&["c", "a=b"]))
        .expect("both params are in the query string");
    validate_query_string(query, &strings(&["a=b", "c", "d=efg", "hello=a%20b"]))
        .expect("all params are in the query string");
    validate_query_string(query, &strings(&[])).expect("no required params should pass");

    validate_query_string(query, &strings(&["a"])).expect_err("no parameter should match");
    validate_query_string(query, &strings(&["a=bc"])).expect_err("no parameter should match");
    validate_query_string(query, &strings(&["a=bc"])).expect_err("no parameter should match");
    validate_query_string(query, &strings(&["hell=a%20"])).expect_err("no parameter should match");
}

#[test]
fn test_forbid_query_param() {
    let query = Some("a=b&c&d=efg&hello=a%20b");
    forbid_query_params(query, &strings(&["a"])).expect_err("a is a query param");
    forbid_query_params(query, &strings(&["not_included"])).expect("query param not included");
    forbid_query_params(query, &strings(&["a=b"])).expect("should be matching against keys");
    forbid_query_params(query, &strings(&["c"])).expect_err("c is a query param");
}

#[test]
fn test_require_query_param() {
    let query = Some("a=b&c&d=efg&hello=a%20b");
    require_query_params(query, &strings(&["a"])).expect("a is a query param");
    require_query_params(query, &strings(&["not_included"])).expect_err("query param not included");
    require_query_params(query, &strings(&["a=b"])).expect_err("should be matching against keys");
    require_query_params(query, &strings(&["c"])).expect("c is a query param");
}

#[test]
fn test_validate_headers() {
    let headers = header_pairs(&[
        ("X-Foo", "foo"),
        ("X-Foo-List", "foo"),
        ("X-Foo-List", "bar"),
        ("X-Inline", "inline, other"),
    ]);

    validate_headers(&headers, &header_pairs(&[("X-Foo", "foo")])).expect("header present");
    validate_headers(&headers, &header_pairs(&[("X-Foo", "Foo")])).expect_err("case sensitive");
    validate_headers(&headers, &header_pairs(&[("x-foo-list", "foo, bar")])).expect("list concat");
    validate_headers(&headers, &header_pairs(&[("X-Foo-List", "foo")]))
        .expect_err("all list members must be specified");
    validate_headers(&headers, &header_pairs(&[("X-Inline", "inline, other")]))
        .expect("inline header lists also work");
    assert_eq!(
        validate_headers(&headers, &header_pairs(&[("missing", "value")])),
        Err(ProtocolTestFailure::MissingHeader {
            expected: "missing".to_owned()
        })
    );
}

#[test]
fn test_forbidden_headers() {
    let headers = header_pairs(&[("X-Foo", "foo")]);
    assert_eq!(
        forbid_headers(&headers, &strings(&["X-Foo"])).expect_err("should be error"),
        ProtocolTestFailure::ForbiddenHeader {
            forbidden: "X-Foo".to_string(),
            found: "X-Foo: foo".to_string()
        }
    );
    forbid_headers(&headers, &strings(&["X-Bar"])).expect("header not present");
}

#[test]
fn test_required_headers() {
    let headers = header_pairs(&[("X-Foo", "foo")]);
    require_headers(&headers, &strings(&["X-Foo"])).expect("header present");
    require_headers(&headers, &strings(&["X-Bar"])).expect_err("header not present");
}

#[test]
fn test_validate_json_body() {
    let expected = r#"{"abc": 5 }"#;
    let actual = r#"   {"abc":   5 }"#;
    validate_body(&actual.as_bytes().to_vec(), expected, MediaType::Json)
        .expect("inputs matched as JSON");

    let expected = r#"{"abc": 5 }"#;
    let actual = r#"   {"abc":   6 }"#;
    validate_body(&actual.as_bytes().to_vec(), expected, MediaType::Json)
        .expect_err("bodies do not match");
}

#[test]
fn test_validate_non_json_body() {
    let expected = r#"asdf"#;
    let actual = r#"asdf "#;
    validate_body(
        &actual.as_bytes().to_vec(),
        expected,
        MediaType::of("something/else"),
    )
    .expect_err("bodies do not match");

    validate_body(
        &expected.as_bytes().to_vec(),
        expected,
        MediaType::of("something/else"),
    )
    .expect("inputs matched exactly")
}

#[test]
fn invalid_utf8_json_body_is_rejected() {
    let body: Vec<u8> = vec![0xff, 0xfe];
    assert_eq!(
        validate_body(&body, "{}", MediaType::Json),
        Err(ProtocolTestFailure::InvalidBodyFormat {
            expected: "json".to_owned(),
            found: "input was not valid UTF-8".to_owned()
        })
    );
}

#[test]
fn media_type_of_classifies_json() {
    assert!(matches!(MediaType::of("application/json"), MediaType::Json));
    assert!(matches!(MediaType::of("text/plain"), MediaType::Other(_)));
}

#[test]
fn query_param_splits_at_first_equals() {
    let qp = QueryParam::parse("a=b=c");
    assert_eq!(qp.key, "a");
    assert_eq!(qp.value, Some("b".to_owned()));

    let qp = QueryParam::parse("justakey");
    assert_eq!(qp.key, "justakey");
    assert_eq!(qp.value, None);
}

#[test]
fn normalized_header_joins_repeated_values() {
    let headers = header_pairs(&[("X-A", "1"), ("X-B", "2"), ("x-a", "3")]);
    assert_eq!(normalized_header(&headers, "X-A"), Some("1, 3".to_owned()));
    assert_eq!(normalized_header(&headers, "x-b"), Some("2".to_owned()));
    assert_eq!(normalized_header(&headers, "X-C"), None);
}

#[test]
fn json_content_type_classification() {
    assert!(json_content_type(Some("application/json")));
    assert!(json_content_type(Some("application/json; charset=utf-8")));
    assert!(json_content_type(Some("application/vnd.api+json")));
    assert!(!json_content_type(Some("text/json")));
    assert!(!json_content_type(Some("application/xml")));
    assert!(!json_content_type(Some("not a media type at all ///")));
    assert!(!json_content_type(None));
}
