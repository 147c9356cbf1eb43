use smithy_router::request_spec::{
    HttpRequestParts, Match, PathAndQuerySpec, RequestSpec, UriSpec,
};

fn request(method: &str, path: &str, query: Option<&str>) -> HttpRequestParts {
    HttpRequestParts {
        method: String::from(method),
        path: String::from(path),
        query: query.map(String::from),
        headers: Vec::new(),
    }
}

fn spec_for(method: &str, pattern: &str) -> RequestSpec {
    let path_and_query = PathAndQuerySpec::parse(pattern).unwrap();
    RequestSpec::new(
        String::from(method),
        UriSpec { host_prefix: None, path_and_query },
    )
}

#[test]
fn test_always_get() {
    let request_spec = RequestSpec::always_get();
    request_spec.matches(&request("GET", "/", None));
}

#[test]
fn always_get_matches_every_path() {
    let request_spec = RequestSpec::always_get();
    assert_eq!(request_spec.matches(&request("GET", "/", None)), Match::Yes);
    assert_eq!(
        request_spec.matches(&request("GET", "/a/b/c", Some("x=y"))),
        Match::Yes
    );
    assert_eq!(
        request_spec.matches(&request("POST", "/", None)),
        Match::MethodNotAllowed
    );
}

#[test]
fn query_spec_matching() {
    let spec = spec_for("GET", "/resource?key=value");
    assert_eq!(
        spec.matches(&request("GET", "/resource", Some("key=value"))),
        Match::Yes
    );
    assert_eq!(
        spec.matches(&request("GET", "/resource", Some("key=other"))),
        Match::No
    );
    assert_eq!(spec.matches(&request("GET", "/resource", None)), Match::No);
    assert_eq!(
        spec.matches(&request("POST", "/resource", Some("key=value"))),
        Match::MethodNotAllowed
    );
}

#[test]
fn greedy_label_absorbs_middle_segments() {
    let spec = spec_for("GET", "/{label}/path/{greedy+}/suffix");
    assert_eq!(
        spec.matches(&request("GET", "/a/path/b/c/suffix", None)),
        Match::Yes
    );
    assert_eq!(
        spec.matches(&request("GET", "/a/path/suffix", None)),
        Match::No
    );
}

#[test]
fn key_only_query_constraint() {
    let spec = spec_for("GET", "/resource?key");
    assert_eq!(
        spec.matches(&request("GET", "/resource", Some("key=anything"))),
        Match::Yes
    );
    assert_eq!(
        spec.matches(&request("GET", "/resource", Some("key"))),
        Match::Yes
    );
    assert_eq!(
        spec.matches(&request("GET", "/resource", Some("other=1"))),
        Match::No
    );
}

#[test]
fn percent_encoding_decodes_before_comparison() {
    let spec = spec_for("GET", "/resource?key=a%20b");
    assert_eq!(
        spec.matches(&request("GET", "/resource", Some("key=a%20b"))),
        Match::Yes
    );
    assert_eq!(
        spec.matches(&request("GET", "/resource", Some("key=a+b"))),
        Match::Yes
    );
    assert_eq!(
        spec.matches(&request("GET", "/resource", Some("key=aexb"))),
        Match::No
    );
}

#[test]
fn duplicate_slashes_are_tolerated() {
    let spec = spec_for("GET", "/a/{label}");
    assert_eq!(spec.matches(&request("GET", "//a///b", None)), Match::Yes);
}

#[test]
fn matching_is_anchored_at_the_end_only() {
    // The compiled pattern is anchored at the end of the path, so a matching
    // suffix suffices.
    let spec = spec_for("GET", "/a");
    assert_eq!(spec.matches(&request("GET", "/prefix/a", None)), Match::Yes);
    assert_eq!(spec.matches(&request("GET", "/a/suffix", None)), Match::No);
}

#[test]
fn label_requires_nonempty_segment() {
    let spec = spec_for("GET", "/{label}");
    assert_eq!(spec.matches(&request("GET", "/x", None)), Match::Yes);
    assert_eq!(spec.matches(&request("GET", "/", None)), Match::No);
}

#[test]
fn path_disqualifies_before_method() {
    // The path is the primary discriminator: a wrong path is `No` even when
    // the method differs too.
    let spec = spec_for("GET", "/a");
    assert_eq!(spec.matches(&request("POST", "/b", None)), Match::No);
}
