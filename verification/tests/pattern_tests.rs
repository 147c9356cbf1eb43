use smithy_router::request_spec::{PathAndQuerySpecParseError, PathSegment, QuerySegment};
use smithy_router::request_spec::PathAndQuerySpec;

#[test]
fn parse_valid_uri_patterns() {
    let patterns = [
        // Literals.
        "/",
        "/path",
        "/小路/💙/طريق",
        // Query strings.
        "/resource?key=value",
        "/resource?key",
        // Labels.
        "/{label1}/{label2}",
        "/{greedy+}",
        "/{greedy+}/suffix",
        // Complex.
        "/path/{label}/literal",
        "/{小路}/path/{greedy+}",
        "/path/{label}/{greedy+}/suffix",
        "/{label}/path/{greedy+}/suffix?key=小路",
    ];

    for pattern in patterns {
        if PathAndQuerySpec::parse(pattern).is_err() {
            panic!(
                "pattern `{}` was expected to be valid but it failed to parse into a `PathAndQuerySpec`",
                pattern
            );
        }
    }
}

#[test]
fn parse_invalid_uri_patterns() {
    let patterns = [
        (
            "path",
            PathAndQuerySpecParseError::DoesNotStartWithForwardSlash,
        ),
        ("//", PathAndQuerySpecParseError::ContainsEmptyPathSegment),
        (
            "/my/path?",
            PathAndQuerySpecParseError::EndsWithQuestionMark,
        ),
        (
            "/path#fragment",
            PathAndQuerySpecParseError::ContainsFragment,
        ),
        ("/pa.th..to", PathAndQuerySpecParseError::ContainsDotSegment),
        (
            "/{label",
            PathAndQuerySpecParseError::UnclosedLabel(String::from("{label")),
        ),
        (
            "/label}",
            PathAndQuerySpecParseError::UnopenedLabel(String::from("label}")),
        ),
    ];

    for (pattern, expected_error) in patterns {
        assert_eq!(expected_error, PathAndQuerySpec::parse(pattern).unwrap_err());
    }
}

#[test]
fn parse_structure_literals_and_labels() {
    let spec = PathAndQuerySpec::parse("/path/{label}/literal").unwrap();
    assert_eq!(
        spec.path_segments.0,
        vec![
            PathSegment::Literal(String::from("path")),
            PathSegment::Label,
            PathSegment::Literal(String::from("literal")),
        ]
    );
    assert!(spec.query_segments.is_empty());
}

#[test]
fn parse_structure_greedy_last() {
    let spec = PathAndQuerySpec::parse("/path/{label}/{greedy+}/suffix").unwrap();
    assert_eq!(
        spec.path_segments.0,
        vec![
            PathSegment::Literal(String::from("path")),
            PathSegment::Label,
            PathSegment::Greedy,
            PathSegment::Literal(String::from("suffix")),
        ]
    );
}

#[test]
fn parse_structure_root_pattern_is_empty() {
    let spec = PathAndQuerySpec::parse("/").unwrap();
    assert!(spec.path_segments.0.is_empty());
    assert!(spec.query_segments.is_empty());
}

#[test]
fn parse_structure_query_key_and_key_value() {
    let spec = PathAndQuerySpec::parse("/resource?key&foo=bar").unwrap();
    assert_eq!(
        spec.path_segments.0,
        vec![PathSegment::Literal(String::from("resource"))]
    );
    assert_eq!(
        spec.query_segments,
        vec![
            QuerySegment::Key(String::from("key")),
            QuerySegment::KeyValue(String::from("foo"), String::from("bar")),
        ]
    );
}

#[test]
fn parse_empty_pattern_is_rejected() {
    assert_eq!(
        PathAndQuerySpec::parse("").unwrap_err(),
        PathAndQuerySpecParseError::DoesNotStartWithForwardSlash
    );
}

#[test]
fn parse_trailing_slash_is_empty_segment() {
    assert_eq!(
        PathAndQuerySpec::parse("/a/").unwrap_err(),
        PathAndQuerySpecParseError::ContainsEmptyPathSegment
    );
}
