//! Protocol runtime support: the marker wrapper for inputs carried under
//! the REST-JSON protocol, and the binary JSON/non-JSON classification of a
//! request's content type.

use vstd::prelude::*;

use crate::request_spec::query_view;
use crate::strutil::str_eq;

verus! {

/// Marks a value as carried under the REST-JSON protocol.
#[derive(Debug, Clone, Copy)]
pub struct AwsRestJson1<T>(pub T);

/// What the `mime` crate reads out of a content type string: its top-level
/// type, its subtype and its suffix, or nothing when the string is not a
/// well-formed media type.
pub uninterp spec fn mime_essence(s: Seq<char>) -> Option<
    (Seq<char>, Seq<char>, Option<Seq<char>>),
>;

/// Relies on `mime::Mime`: `str::parse::<Mime>` and the accessors `type_`,
/// `subtype` and `suffix`, which read the parts of the parsed media type.
#[verifier::external_body]
fn parse_content_type(s: &str) -> (r: Option<(String, String, Option<String>)>)
    ensures
        match r {
            Some(t) => mime_essence(s@) == Some((t.0@, t.1@, query_view(t.2))),
            None => mime_essence(s@) is None,
        },
{
    match s.parse::<mime::Mime>() {
        Err(_) => None,
        Ok(m) => Some(
            (
                m.type_().as_str().to_owned(),
                m.subtype().as_str().to_owned(),
                m.suffix().map(|n| n.as_str().to_owned()),
            ),
        ),
    }
}

/// Is a media type a JSON one: top-level type `application`, and either
/// subtype `json` or suffix `json`?
pub open spec fn is_json_essence(e: Option<(Seq<char>, Seq<char>, Option<Seq<char>>)>) -> bool {
    match e {
        None => false,
        Some(t) => t.0 == "application"@ && (t.1 == "json"@ || t.2 == Some("json"@)),
    }
}

/// Classify a request's content type header value: `true` exactly when it
/// names a JSON media type.  A missing or unparseable content type is not
/// JSON.
pub fn json_content_type(content_type: Option<&str>) -> (r: bool)
    ensures
        r == match content_type {
            Some(s) => is_json_essence(mime_essence(s@)),
            None => false,
        },
{
    let s = match content_type {
        None => {
            return false;
        },
        Some(s) => s,
    };
    match parse_content_type(s) {
        None => false,
        Some(t) => {
            if !str_eq(t.0.as_str(), "application") {
                return false;
            }
            if str_eq(t.1.as_str(), "json") {
                return true;
            }
            match &t.2 {
                Some(suffix) => str_eq(suffix.as_str(), "json"),
                None => false,
            }
        },
    }
}

} // verus!
