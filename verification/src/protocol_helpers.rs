//! Helpers for protocol tests: checking a request's query string and
//! headers against expectations, and comparing a response body with an
//! expected one, literally or as JSON documents.
//!
//! Query strings are compared over their raw `&`-separated parameters;
//! header names compare case-insensitively (ASCII), and repeated headers
//! compare as their comma-joined value list.  JSON bodies are parsed and
//! structurally compared by `serde_json` and `assert_json_diff`; everything
//! decided about the outcome is verified here.

use vstd::prelude::*;
use vstd::string::StrSliceExecFns;
use vstd::utf8::{decode_utf8, valid_utf8};

use crate::query::pair_views;
use crate::strutil::{chars_of, chars_to_string, opt_str_view, seq_views, split_char, split_on, str_eq};

verus! {

/// How a protocol expectation failed.
#[derive(Debug, PartialEq, Eq)]
pub enum ProtocolTestFailure {
    MissingQueryParam { expected: String, found: Vec<String> },
    ForbiddenQueryParam { expected: String },
    RequiredQueryParam { expected: String },
    InvalidHeader { key: String, expected: String, found: String },
    MissingHeader { expected: String },
    ForbiddenHeader { forbidden: String, found: String },
    BodyDidNotMatch { expected: String, found: String, hint: String },
    InvalidBodyFormat { expected: String, found: String },
}

/// The mathematical shape of a protocol test failure.
pub ghost enum PtfView {
    MissingQueryParam { expected: Seq<char>, found: Seq<Seq<char>> },
    ForbiddenQueryParam { expected: Seq<char> },
    RequiredQueryParam { expected: Seq<char> },
    InvalidHeader { key: Seq<char>, expected: Seq<char>, found: Seq<char> },
    MissingHeader { expected: Seq<char> },
    ForbiddenHeader { forbidden: Seq<char>, found: Seq<char> },
    BodyDidNotMatch { expected: Seq<char>, found: Seq<char>, hint: Seq<char> },
    InvalidBodyFormat { expected: Seq<char>, found: Seq<char> },
}

impl View for ProtocolTestFailure {
    type V = PtfView;

    open spec fn view(&self) -> PtfView {
        match self {
            ProtocolTestFailure::MissingQueryParam { expected, found } => PtfView::MissingQueryParam {
                expected: expected@,
                found: found@.map_values(|s: String| s@),
            },
            ProtocolTestFailure::ForbiddenQueryParam { expected } => PtfView::ForbiddenQueryParam {
                expected: expected@,
            },
            ProtocolTestFailure::RequiredQueryParam { expected } => PtfView::RequiredQueryParam {
                expected: expected@,
            },
            ProtocolTestFailure::InvalidHeader { key, expected, found } => PtfView::InvalidHeader {
                key: key@,
                expected: expected@,
                found: found@,
            },
            ProtocolTestFailure::MissingHeader { expected } => PtfView::MissingHeader {
                expected: expected@,
            },
            ProtocolTestFailure::ForbiddenHeader { forbidden, found } => PtfView::ForbiddenHeader {
                forbidden: forbidden@,
                found: found@,
            },
            ProtocolTestFailure::BodyDidNotMatch { expected, found, hint } => PtfView::BodyDidNotMatch {
                expected: expected@,
                found: found@,
                hint: hint@,
            },
            ProtocolTestFailure::InvalidBodyFormat { expected, found } => PtfView::InvalidBodyFormat {
                expected: expected@,
                found: found@,
            },
        }
    }
}

/// The view of a protocol check's outcome.
pub open spec fn ptf_result_view(r: Result<(), ProtocolTestFailure>) -> Result<(), PtfView> {
    match r {
        Ok(()) => Ok(()),
        Err(e) => Err(e@),
    }
}

/// The raw `&`-separated parameters of a query string; a missing query
/// string behaves as the empty one.
pub open spec fn params_of(q: Option<Seq<char>>) -> Seq<Seq<char>> {
    match q {
        Some(s) => split_on(s, '&'),
        None => split_on(Seq::empty(), '&'),
    }
}

/// `xs` holds `x`.
pub open spec fn seq_contains(xs: Seq<Seq<char>>, x: Seq<char>) -> bool {
    exists|i: int| 0 <= i < xs.len() && xs[i] == x
}

/// The key of one raw query parameter: everything before the first `=`.
pub open spec fn key_of(p: Seq<char>) -> Seq<char> {
    split_on(p, '=')[0]
}

/// The keys of raw query parameters.
pub open spec fn keys_of(params: Seq<Seq<char>>) -> Seq<Seq<char>> {
    params.map_values(|p: Seq<char>| key_of(p))
}

/// Case-folding of one ASCII letter's codepoint.
pub open spec fn lower32(v: u32) -> int {
    if 65 <= v <= 90 {
        v + 32
    } else {
        v as int
    }
}

/// Case-insensitive (ASCII) character equality.
pub open spec fn char_eq_ci(a: char, b: char) -> bool {
    lower32(a as u32) == lower32(b as u32)
}

/// Case-insensitive (ASCII) string equality.
pub open spec fn seq_eq_ci(a: Seq<char>, b: Seq<char>) -> bool {
    a.len() == b.len() && (forall|i: int| 0 <= i < a.len() ==> char_eq_ci(a[i], b[i]))
}

/// The values of the headers named `key` (case-insensitively), from `j` on,
/// in order.
pub open spec fn matching_from(
    hs: Seq<(Seq<char>, Seq<char>)>,
    key: Seq<char>,
    j: int,
) -> Seq<Seq<char>>
    decreases hs.len() - j,
{
    if j < 0 || j >= hs.len() {
        Seq::empty()
    } else if seq_eq_ci(hs[j].0, key) {
        seq![hs[j].1] + matching_from(hs, key, j + 1)
    } else {
        matching_from(hs, key, j + 1)
    }
}

/// All values of the headers named `key`, in order.
pub open spec fn matching_values(hs: Seq<(Seq<char>, Seq<char>)>, key: Seq<char>) -> Seq<
    Seq<char>,
> {
    matching_from(hs, key, 0)
}

/// `", "`-prefixed concatenation of `vals[j..]`.
pub open spec fn join_rest(vals: Seq<Seq<char>>, j: int) -> Seq<char>
    decreases vals.len() - j,
{
    if j < 0 || j >= vals.len() {
        Seq::empty()
    } else {
        ", "@ + vals[j] + join_rest(vals, j + 1)
    }
}

/// The values joined with `", "` between each two.
pub open spec fn join_comma(vals: Seq<Seq<char>>) -> Seq<char> {
    if vals.len() == 0 {
        Seq::empty()
    } else {
        vals[0] + join_rest(vals, 1)
    }
}

/// The normalized value of the header named `key`: all its values joined
/// with `", "`, or nothing when no header carries the name.
pub open spec fn normalized_spec(hs: Seq<(Seq<char>, Seq<char>)>, key: Seq<char>) -> Option<
    Seq<char>,
> {
    let m = matching_values(hs, key);
    if m.len() == 0 {
        None
    } else {
        Some(join_comma(m))
    }
}

/// The outcome of checking the expected params from `j` on: the first one
/// not present fails.
pub open spec fn vqs_from(params: Seq<Seq<char>>, exp: Seq<Seq<char>>, j: int) -> Result<
    (),
    PtfView,
>
    decreases exp.len() - j,
{
    if j < 0 || j >= exp.len() {
        Ok(())
    } else if !seq_contains(params, exp[j]) {
        Err(PtfView::MissingQueryParam { expected: exp[j], found: params })
    } else {
        vqs_from(params, exp, j + 1)
    }
}

/// The outcome of checking the forbidden keys from `j` on: the first one
/// present fails.
pub open spec fn fqp_from(params: Seq<Seq<char>>, keys: Seq<Seq<char>>, j: int) -> Result<
    (),
    PtfView,
>
    decreases keys.len() - j,
{
    if j < 0 || j >= keys.len() {
        Ok(())
    } else if seq_contains(keys_of(params), keys[j]) {
        Err(PtfView::ForbiddenQueryParam { expected: keys[j] })
    } else {
        fqp_from(params, keys, j + 1)
    }
}

/// The outcome of checking the required keys from `j` on: the first one
/// absent fails.
pub open spec fn rqp_from(params: Seq<Seq<char>>, keys: Seq<Seq<char>>, j: int) -> Result<
    (),
    PtfView,
>
    decreases keys.len() - j,
{
    if j < 0 || j >= keys.len() {
        Ok(())
    } else if !seq_contains(keys_of(params), keys[j]) {
        Err(PtfView::RequiredQueryParam { expected: keys[j] })
    } else {
        rqp_from(params, keys, j + 1)
    }
}

/// The outcome of checking the expected headers from `j` on: a missing name
/// or a value differing from the normalized one fails.
pub open spec fn vh_from(
    hs: Seq<(Seq<char>, Seq<char>)>,
    exp: Seq<(Seq<char>, Seq<char>)>,
    j: int,
) -> Result<(), PtfView>
    decreases exp.len() - j,
{
    if j < 0 || j >= exp.len() {
        Ok(())
    } else {
        match normalized_spec(hs, exp[j].0) {
            None => Err(PtfView::MissingHeader { expected: exp[j].0 }),
            Some(v) => if v != exp[j].1 {
                Err(PtfView::InvalidHeader { key: exp[j].0, expected: exp[j].1, found: v })
            } else {
                vh_from(hs, exp, j + 1)
            },
        }
    }
}

/// The outcome of checking the forbidden header names from `j` on: the
/// first one present fails.
pub open spec fn fh_from(
    hs: Seq<(Seq<char>, Seq<char>)>,
    keys: Seq<Seq<char>>,
    j: int,
) -> Result<(), PtfView>
    decreases keys.len() - j,
{
    if j < 0 || j >= keys.len() {
        Ok(())
    } else {
        match normalized_spec(hs, keys[j]) {
            Some(v) => Err(
                PtfView::ForbiddenHeader { forbidden: keys[j], found: keys[j] + ": "@ + v },
            ),
            None => fh_from(hs, keys, j + 1),
        }
    }
}

/// The outcome of checking the required header names from `j` on: the first
/// one absent fails.
pub open spec fn rh_from(
    hs: Seq<(Seq<char>, Seq<char>)>,
    keys: Seq<Seq<char>>,
    j: int,
) -> Result<(), PtfView>
    decreases keys.len() - j,
{
    if j < 0 || j >= keys.len() {
        Ok(())
    } else {
        match normalized_spec(hs, keys[j]) {
            None => Err(PtfView::MissingHeader { expected: keys[j] }),
            Some(v) => rh_from(hs, keys, j + 1),
        }
    }
}

/// One raw query parameter, split into its key and its value (the text
/// between the first and the second `=`, if any).
pub struct QueryParam {
    pub key: String,
    pub value: Option<String>,
}

impl QueryParam {
    /// Split one raw query parameter at its first `=`.
    pub fn parse(s: &str) -> (r: QueryParam)
        ensures
            r.key@ == key_of(s@),
            split_on(s@, '=').len() == 1 ==> r.value is None,
            split_on(s@, '=').len() >= 2 ==> (r.value matches Some(v) && v@ == split_on(s@, '=')[1]),
    {
        let cs = chars_of(s);
        let pieces = split_char(&cs, '=');
        proof {
            crate::strutil::lemma_split_len(cs@, '=');
        }
        let key = chars_to_string(&pieces[0]);
        let value = if pieces.len() >= 2 {
            Some(chars_to_string(&pieces[1]))
        } else {
            None
        };
        QueryParam { key, value }
    }
}

/// The raw `&`-separated parameters of a query string.
#[verifier::loop_isolation(false)]
fn extract_params(query: Option<&str>) -> (r: Vec<String>)
    ensures
        r@.map_values(|s: String| s@) == params_of(opt_str_view(query)),
{
    let cs: Vec<char> = match query {
        Some(s) => chars_of(s),
        None => Vec::new(),
    };
    proof {
        assert(params_of(opt_str_view(query)) == split_on(cs@, '&'));
    }
    let pieces = split_char(&cs, '&');
    let mut r: Vec<String> = Vec::new();
    let mut i: usize = 0;
    while i < pieces.len()
        invariant
            i <= pieces@.len(),
            r@.map_values(|s: String| s@) =~= seq_views(pieces@).subrange(0, i as int),
        decreases pieces@.len() - i,
    {
        let ghost old_views = r@.map_values(|s: String| s@);
        r.push(chars_to_string(&pieces[i]));
        proof {
            assert(r@.map_values(|s: String| s@) =~= old_views.push(pieces@[i as int]@));
            assert(r@.map_values(|s: String| s@) =~= seq_views(pieces@).subrange(0, i + 1));
        }
        i = i + 1;
    }
    proof {
        assert(seq_views(pieces@).subrange(0, pieces@.len() as int) =~= seq_views(pieces@));
    }
    r
}

/// Does `xs` hold `x`?
#[verifier::loop_isolation(false)]
fn contains_string(xs: &Vec<String>, x: &String) -> (r: bool)
    ensures
        r == seq_contains(xs@.map_values(|s: String| s@), x@),
{
    let ghost views = xs@.map_values(|s: String| s@);
    let mut i: usize = 0;
    while i < xs.len()
        invariant
            i <= xs@.len(),
            forall|k: int| 0 <= k < i ==> views[k] != x@,
        decreases xs@.len() - i,
    {
        if xs[i] == *x {
            proof {
                assert(views[i as int] == x@);
            }
            return true;
        }
        i = i + 1;
    }
    proof {
        if seq_contains(views, x@) {
            let k = choose|k: int| 0 <= k < views.len() && views[k] == x@;
            assert(false);
        }
    }
    false
}

/// Check that every expected raw parameter occurs in the request's query
/// string, reporting the first missing one together with what was found.
#[verifier::loop_isolation(false)]
pub fn validate_query_string(query: Option<&str>, expected_params: &Vec<String>) -> (r: Result<
    (),
    ProtocolTestFailure,
>)
    ensures
        ptf_result_view(r) == vqs_from(
            params_of(opt_str_view(query)),
            expected_params@.map_values(|s: String| s@),
            0,
        ),
{
    let ghost gparams = params_of(opt_str_view(query));
    let ghost gexp = expected_params@.map_values(|s: String| s@);
    let actual_params = extract_params(query);
    let mut j: usize = 0;
    while j < expected_params.len()
        invariant
            j <= expected_params@.len(),
            vqs_from(gparams, gexp, 0) == vqs_from(gparams, gexp, j as int),
        decreases expected_params@.len() - j,
    {
        proof {
            assert(gexp[j as int] == expected_params@[j as int]@);
        }
        if !contains_string(&actual_params, &expected_params[j]) {
            let mut found: Vec<String> = Vec::new();
            let mut k: usize = 0;
            while k < actual_params.len()
                invariant
                    k <= actual_params@.len(),
                    found@.map_values(|s: String| s@) =~= actual_params@.map_values(
                        |s: String| s@,
                    ).subrange(0, k as int),
                decreases actual_params@.len() - k,
            {
                let ghost old_views = found@.map_values(|s: String| s@);
                found.push(actual_params[k].clone());
                proof {
                    assert(found@.map_values(|s: String| s@) =~= old_views.push(
                        actual_params@[k as int]@,
                    ));
                    assert(found@.map_values(|s: String| s@) =~= actual_params@.map_values(
                        |s: String| s@,
                    ).subrange(0, k + 1));
                }
                k = k + 1;
            }
            proof {
                assert(found@.map_values(|s: String| s@) =~= gparams);
            }
            return Err(
                ProtocolTestFailure::MissingQueryParam {
                    expected: expected_params[j].clone(),
                    found,
                },
            );
        }
        j = j + 1;
    }
    Ok(())
}

/// The keys of the request's raw query parameters.
#[verifier::loop_isolation(false)]
fn extract_keys(query: Option<&str>) -> (r: Vec<String>)
    ensures
        r@.map_values(|s: String| s@) == keys_of(params_of(opt_str_view(query))),
{
    let params = extract_params(query);
    let ghost gparams = params@.map_values(|s: String| s@);
    let mut r: Vec<String> = Vec::new();
    let mut i: usize = 0;
    while i < params.len()
        invariant
            i <= params@.len(),
            r@.map_values(|s: String| s@) =~= keys_of(gparams).subrange(0, i as int),
        decreases params@.len() - i,
    {
        let ghost old_views = r@.map_values(|s: String| s@);
        let qp = QueryParam::parse(params[i].as_str());
        r.push(qp.key);
        proof {
            assert(r@.map_values(|s: String| s@) =~= old_views.push(key_of(gparams[i as int])));
            assert(keys_of(gparams)[i as int] == key_of(gparams[i as int]));
            assert(r@.map_values(|s: String| s@) =~= keys_of(gparams).subrange(0, i + 1));
        }
        i = i + 1;
    }
    proof {
        assert(keys_of(gparams).subrange(0, gparams.len() as int) =~= keys_of(gparams));
    }
    r
}

/// Check that none of the forbidden keys occurs among the query parameters'
/// keys, reporting the first that does.
#[verifier::loop_isolation(false)]
pub fn forbid_query_params(query: Option<&str>, forbid_keys: &Vec<String>) -> (r: Result<
    (),
    ProtocolTestFailure,
>)
    ensures
        ptf_result_view(r) == fqp_from(
            params_of(opt_str_view(query)),
            forbid_keys@.map_values(|s: String| s@),
            0,
        ),
{
    let ghost gparams = params_of(opt_str_view(query));
    let ghost gkeys = forbid_keys@.map_values(|s: String| s@);
    let actual_keys = extract_keys(query);
    let mut j: usize = 0;
    while j < forbid_keys.len()
        invariant
            j <= forbid_keys@.len(),
            fqp_from(gparams, gkeys, 0) == fqp_from(gparams, gkeys, j as int),
        decreases forbid_keys@.len() - j,
    {
        proof {
            assert(gkeys[j as int] == forbid_keys@[j as int]@);
        }
        if contains_string(&actual_keys, &forbid_keys[j]) {
            return Err(
                ProtocolTestFailure::ForbiddenQueryParam { expected: forbid_keys[j].clone() },
            );
        }
        j = j + 1;
    }
    Ok(())
}

/// Check that each of the required keys occurs among the query parameters'
/// keys, reporting the first that does not.
#[verifier::loop_isolation(false)]
pub fn require_query_params(query: Option<&str>, require_keys: &Vec<String>) -> (r: Result<
    (),
    ProtocolTestFailure,
>)
    ensures
        ptf_result_view(r) == rqp_from(
            params_of(opt_str_view(query)),
            require_keys@.map_values(|s: String| s@),
            0,
        ),
{
    let ghost gparams = params_of(opt_str_view(query));
    let ghost gkeys = require_keys@.map_values(|s: String| s@);
    let actual_keys = extract_keys(query);
    let mut j: usize = 0;
    while j < require_keys.len()
        invariant
            j <= require_keys@.len(),
            rqp_from(gparams, gkeys, 0) == rqp_from(gparams, gkeys, j as int),
        decreases require_keys@.len() - j,
    {
        proof {
            assert(gkeys[j as int] == require_keys@[j as int]@);
        }
        if !contains_string(&actual_keys, &require_keys[j]) {
            return Err(
                ProtocolTestFailure::RequiredQueryParam { expected: require_keys[j].clone() },
            );
        }
        j = j + 1;
    }
    Ok(())
}

/// Case-insensitive (ASCII) equality of two characters.
fn chars_eq_ci(a: char, b: char) -> (r: bool)
    ensures
        r == char_eq_ci(a, b),
{
    let va = a as u32;
    let vb = b as u32;
    let la = if 65 <= va && va <= 90 {
        va + 32
    } else {
        va
    };
    let lb = if 65 <= vb && vb <= 90 {
        vb + 32
    } else {
        vb
    };
    la == lb
}

/// Case-insensitive (ASCII) equality of two strings.
#[verifier::loop_isolation(false)]
fn string_eq_ci(a: &String, b: &str) -> (r: bool)
    ensures
        r == seq_eq_ci(a@, b@),
{
    let na = a.as_str().unicode_len();
    let nb = b.unicode_len();
    if na != nb {
        return false;
    }
    let mut i: usize = 0;
    while i < na
        invariant
            i <= na,
            na == a@.len() == b@.len(),
            forall|k: int| 0 <= k < i ==> char_eq_ci(a@[k], b@[k]),
        decreases na - i,
    {
        if !chars_eq_ci(a.as_str().get_char(i), b.get_char(i)) {
            return false;
        }
        i = i + 1;
    }
    true
}

/// The normalized value of the header named `key`: every value of a header
/// with that name (compared case-insensitively), joined with `", "`; or
/// nothing when no header carries the name.
#[verifier::loop_isolation(false)]
pub fn normalized_header(headers: &Vec<(String, String)>, key: &str) -> (r: Option<String>)
    ensures
        match r {
            Some(v) => normalized_spec(pair_views(headers@), key@) == Some(v@),
            None => normalized_spec(pair_views(headers@), key@) is None,
        },
{
    let ghost ghs = pair_views(headers@);
    let mut vals: Vec<String> = Vec::new();
    let mut j: usize = 0;
    proof {
        assert(matching_from(ghs, key@, 0) =~= vals@.map_values(|s: String| s@) + matching_from(
            ghs,
            key@,
            0,
        ));
    }
    while j < headers.len()
        invariant
            j <= headers@.len(),
            matching_from(ghs, key@, 0) == vals@.map_values(|s: String| s@) + matching_from(
                ghs,
                key@,
                j as int,
            ),
        decreases headers@.len() - j,
    {
        proof {
            assert(ghs[j as int] == (headers@[j as int].0@, headers@[j as int].1@));
        }
        let ghost old_views = vals@.map_values(|s: String| s@);
        if string_eq_ci(&headers[j].0, key) {
            vals.push(headers[j].1.clone());
            proof {
                assert(vals@.map_values(|s: String| s@) =~= old_views.push(ghs[j as int].1));
                assert(old_views + (seq![ghs[j as int].1] + matching_from(ghs, key@, j + 1))
                    =~= vals@.map_values(|s: String| s@) + matching_from(ghs, key@, j + 1));
            }
        }
        j = j + 1;
    }
    proof {
        assert(vals@.map_values(|s: String| s@) + matching_from(ghs, key@, headers@.len() as int)
            =~= vals@.map_values(|s: String| s@));
    }
    if vals.len() == 0 {
        return None;
    }
    let ghost gvals = vals@.map_values(|s: String| s@);
    let mut out = vals[0].clone();
    let mut i: usize = 1;
    while i < vals.len()
        invariant
            1 <= i <= vals@.len(),
            gvals[0] + join_rest(gvals, 1) == out@ + join_rest(gvals, i as int),
        decreases vals@.len() - i,
    {
        let ghost old_out = out@;
        out.append(", ");
        out.append(vals[i].as_str());
        proof {
            assert(gvals[i as int] == vals@[i as int]@);
            assert(old_out + (", "@ + gvals[i as int] + join_rest(gvals, i + 1)) =~= out@
                + join_rest(gvals, i + 1));
        }
        i = i + 1;
    }
    proof {
        assert(out@ + join_rest(gvals, gvals.len() as int) =~= out@);
    }
    Some(out)
}

/// Check every expected header: the name must be present and its normalized
/// value must equal the expected text; the first violation is reported.
#[verifier::loop_isolation(false)]
pub fn validate_headers(headers: &Vec<(String, String)>, expected_headers: &Vec<(String, String)>)
    -> (r: Result<(), ProtocolTestFailure>)
    ensures
        ptf_result_view(r) == vh_from(pair_views(headers@), pair_views(expected_headers@), 0),
{
    let ghost ghs = pair_views(headers@);
    let ghost gexp = pair_views(expected_headers@);
    let mut j: usize = 0;
    while j < expected_headers.len()
        invariant
            j <= expected_headers@.len(),
            vh_from(ghs, gexp, 0) == vh_from(ghs, gexp, j as int),
        decreases expected_headers@.len() - j,
    {
        proof {
            assert(gexp[j as int] == (expected_headers@[j as int].0@, expected_headers@[j as int].1@));
        }
        let (key, expected_value) = (&expected_headers[j].0, &expected_headers[j].1);
        match normalized_header(headers, key.as_str()) {
            None => {
                return Err(ProtocolTestFailure::MissingHeader { expected: key.clone() });
            },
            Some(actual_value) => {
                if !(actual_value == *expected_value) {
                    return Err(
                        ProtocolTestFailure::InvalidHeader {
                            key: key.clone(),
                            expected: expected_value.clone(),
                            found: actual_value,
                        },
                    );
                }
            },
        }
        j = j + 1;
    }
    Ok(())
}

/// Check that none of the forbidden header names is present, reporting the
/// first that is together with its normalized value.
#[verifier::loop_isolation(false)]
pub fn forbid_headers(headers: &Vec<(String, String)>, forbidden_headers: &Vec<String>) -> (r:
    Result<(), ProtocolTestFailure>)
    ensures
        ptf_result_view(r) == fh_from(
            pair_views(headers@),
            forbidden_headers@.map_values(|s: String| s@),
            0,
        ),
{
    let ghost ghs = pair_views(headers@);
    let ghost gkeys = forbidden_headers@.map_values(|s: String| s@);
    let mut j: usize = 0;
    while j < forbidden_headers.len()
        invariant
            j <= forbidden_headers@.len(),
            fh_from(ghs, gkeys, 0) == fh_from(ghs, gkeys, j as int),
        decreases forbidden_headers@.len() - j,
    {
        proof {
            assert(gkeys[j as int] == forbidden_headers@[j as int]@);
        }
        let key = &forbidden_headers[j];
        if let Some(value) = normalized_header(headers, key.as_str()) {
            let mut found = key.clone();
            found.append(": ");
            found.append(value.as_str());
            proof {
                assert(found@ =~= gkeys[j as int] + ": "@ + value@);
            }
            return Err(
                ProtocolTestFailure::ForbiddenHeader { forbidden: key.clone(), found },
            );
        }
        j = j + 1;
    }
    Ok(())
}

/// Check that each required header name is present, reporting the first
/// that is not.
#[verifier::loop_isolation(false)]
pub fn require_headers(headers: &Vec<(String, String)>, required_headers: &Vec<String>) -> (r:
    Result<(), ProtocolTestFailure>)
    ensures
        ptf_result_view(r) == rh_from(
            pair_views(headers@),
            required_headers@.map_values(|s: String| s@),
            0,
        ),
{
    let ghost ghs = pair_views(headers@);
    let ghost gkeys = required_headers@.map_values(|s: String| s@);
    let mut j: usize = 0;
    while j < required_headers.len()
        invariant
            j <= required_headers@.len(),
            rh_from(ghs, gkeys, 0) == rh_from(ghs, gkeys, j as int),
        decreases required_headers@.len() - j,
    {
        proof {
            assert(gkeys[j as int] == required_headers@[j as int]@);
        }
        if normalized_header(headers, required_headers[j].as_str()).is_none() {
            return Err(
                ProtocolTestFailure::MissingHeader { expected: required_headers[j].clone() },
            );
        }
        j = j + 1;
    }
    Ok(())
}

/// Whether a body compares as a JSON document or literally.
pub enum MediaType {
    /// JSON media types are parsed and compared structurally.
    Json,
    /// Other media types are compared literally.
    Other(String),
}

impl MediaType {
    /// The media type a content type names: `application/json` compares as
    /// JSON, anything else literally.
    pub fn of(inp: &str) -> (r: MediaType)
        ensures
            inp@ == "application/json"@ ==> r is Json,
            inp@ != "application/json"@ ==> (r matches MediaType::Other(m) && m@ == inp@),
    {
        if str_eq(inp, "application/json") {
            MediaType::Json
        } else {
            MediaType::Other(inp.to_owned())
        }
    }
}

/// What `serde_json::from_str::<Value>` answers for a string: nothing when
/// the string is a well-formed JSON document, otherwise the parse error's
/// message.
pub uninterp spec fn json_parse_err(s: Seq<char>) -> Option<Seq<char>>;

/// What comparing the JSON documents written in two strings yields: nothing
/// when the documents are structurally equal, otherwise the difference
/// message.  Meaningful only when both strings parse.
pub uninterp spec fn json_diff_of(actual: Seq<char>, expected: Seq<char>) -> Option<Seq<char>>;

/// The outcome of parsing two strings as JSON and comparing the documents.
enum JsonComparison {
    /// The first string is not well-formed JSON.
    ActualInvalid(String),
    /// The second string is not well-formed JSON.
    ExpectedInvalid(String),
    /// Both parse and the documents are structurally equal.
    Equal,
    /// Both parse and the documents differ; the payload explains how.
    Different(String),
}

/// Relies on `serde_json::from_str::<serde_json::Value>` and
/// `assert_json_diff::assert_json_eq_no_panic`: parses both strings as JSON
/// documents and compares the documents structurally, in that order, with
/// the libraries' own messages on failure.
#[verifier::external_body]
fn compare_json(actual: &str, expected: &str) -> (r: JsonComparison)
    ensures
        match r {
            JsonComparison::ActualInvalid(m) => json_parse_err(actual@) == Some(m@),
            JsonComparison::ExpectedInvalid(m) => json_parse_err(actual@) is None && json_parse_err(
                expected@,
            ) == Some(m@),
            JsonComparison::Equal => json_parse_err(actual@) is None && json_parse_err(expected@)
                is None && json_diff_of(actual@, expected@) is None,
            JsonComparison::Different(h) => json_parse_err(actual@) is None && json_parse_err(
                expected@,
            ) is None && json_diff_of(actual@, expected@) == Some(h@),
        },
{
    let actual_json: serde_json::Value = match serde_json::from_str(actual) {
        Ok(v) => v,
        Err(e) => return JsonComparison::ActualInvalid(e.to_string()),
    };
    let expected_json: serde_json::Value = match serde_json::from_str(expected) {
        Ok(v) => v,
        Err(e) => return JsonComparison::ExpectedInvalid(e.to_string()),
    };
    match assert_json_diff::assert_json_eq_no_panic(&actual_json, &expected_json) {
        Ok(()) => JsonComparison::Equal,
        Err(message) => JsonComparison::Different(message),
    }
}

/// Relies on `core::str::from_utf8`: yields the string decoded from the
/// bytes exactly when they are valid UTF-8.
#[verifier::external_body]
fn utf8_str<'a>(b: &'a Vec<u8>) -> (r: Option<&'a str>)
    ensures
        match r {
            Some(s) => valid_utf8(b@) && s@ == decode_utf8(b@),
            None => !valid_utf8(b@),
        },
{
    core::str::from_utf8(b.as_slice()).ok()
}

/// The outcome of comparing a decoded body with the expected text as JSON.
pub open spec fn json_body_outcome(actual: Seq<char>, expected: Seq<char>) -> Result<(), PtfView> {
    match json_parse_err(actual) {
        Some(m) => Err(PtfView::InvalidBodyFormat { expected: "json"@, found: m }),
        None => match json_parse_err(expected) {
            Some(m) => Err(PtfView::InvalidBodyFormat { expected: "json"@, found: m }),
            None => match json_diff_of(actual, expected) {
                Some(hint) => Err(
                    PtfView::BodyDidNotMatch { expected: expected, found: actual, hint },
                ),
                None => Ok(()),
            },
        },
    }
}

/// Compare two strings as JSON documents.  An expected text that is not
/// well-formed JSON is reported the same way as a malformed body.
fn validate_json_body(actual: &str, expected: &str) -> (r: Result<(), ProtocolTestFailure>)
    ensures
        ptf_result_view(r) == json_body_outcome(actual@, expected@),
{
    match compare_json(actual, expected) {
        JsonComparison::ActualInvalid(m) => Err(
            ProtocolTestFailure::InvalidBodyFormat { expected: String::from_str("json"), found: m },
        ),
        JsonComparison::ExpectedInvalid(m) => Err(
            ProtocolTestFailure::InvalidBodyFormat { expected: String::from_str("json"), found: m },
        ),
        JsonComparison::Equal => Ok(()),
        JsonComparison::Different(hint) => Err(
            ProtocolTestFailure::BodyDidNotMatch {
                expected: expected.to_owned(),
                found: actual.to_owned(),
                hint,
            },
        ),
    }
}

/// The outcome of comparing a body against the expected text under a media
/// type: JSON bodies must be valid JSON and structurally equal to the
/// expected document; other bodies must equal the expected text literally.
pub open spec fn body_outcome(
    body: Seq<u8>,
    expected: Seq<char>,
    media_type: MediaType,
) -> Result<(), PtfView> {
    match media_type {
        MediaType::Json => if !valid_utf8(body) {
            Err(
                PtfView::InvalidBodyFormat {
                    expected: "json"@,
                    found: "input was not valid UTF-8"@,
                },
            )
        } else {
            json_body_outcome(decode_utf8(body), expected)
        },
        MediaType::Other(mt) => if decode_utf8(body) != expected {
            Err(
                PtfView::BodyDidNotMatch {
                    expected: expected,
                    found: decode_utf8(body),
                    hint: "media type: "@ + mt@,
                },
            )
        } else {
            Ok(())
        },
    }
}

/// Check a response body against the expected text under a media type.
pub fn validate_body(actual_body: &Vec<u8>, expected_body: &str, media_type: MediaType) -> (r:
    Result<(), ProtocolTestFailure>)
    requires
        media_type matches MediaType::Other(_) ==> valid_utf8(actual_body@),
    ensures
        ptf_result_view(r) == body_outcome(actual_body@, expected_body@, media_type),
{
    let body_str = utf8_str(actual_body);
    match media_type {
        MediaType::Json => {
            match body_str {
                Some(actual) => validate_json_body(actual, expected_body),
                None => Err(
                    ProtocolTestFailure::InvalidBodyFormat {
                        expected: String::from_str("json"),
                        found: String::from_str("input was not valid UTF-8"),
                    },
                ),
            }
        },
        MediaType::Other(media_type_name) => {
            let actual = match body_str {
                Some(actual) => actual,
                None => {
                    proof {
                        assert(false);
                    }
                    ""
                },
            };
            if !str_eq(actual, expected_body) {
                let mut hint = String::from_str("media type: ");
                hint.append(media_type_name.as_str());
                proof {
                    assert(hint@ =~= "media type: "@ + media_type_name@);
                }
                Err(
                    ProtocolTestFailure::BodyDidNotMatch {
                        expected: expected_body.to_owned(),
                        found: actual.to_owned(),
                        hint,
                    },
                )
            } else {
                Ok(())
            }
        },
    }
}

} // verus!
