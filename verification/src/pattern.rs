//! The URI pattern language: parsing a textual pattern into a
//! [`PathAndQuerySpec`].
//!
//! The grammar is `pattern = "/" (segment "/")* [segment] ["?" querystring]`.
//! A segment of the exact form `{name}` is a label, `{name+}` a greedy
//! label, anything else a literal.  A querystring decodes into key/value
//! pairs: an empty value constrains the key only, a non-empty value must be
//! matched exactly.  Every malformed pattern yields a typed error; the
//! checks run in a fixed order, so the first violated rule names the error.

use vstd::prelude::*;

use crate::query::{parse_query_pairs, query_segments_from_pairs, query_segs_of_pairs, urlencoded_of};
use crate::request_spec::{
    ParseErrView, PathAndQuerySpec, PathAndQuerySpecParseError, PathAndQueryView, PathSegment,
    PathSpec, SegView,
};
use crate::strutil::{chars_of, chars_to_string, contains_c, contains_char, split_char, split_on, seq_views};
use crate::strutil::lemma_split_len;

verus! {

/// How one path segment of a pattern is classified.
pub open spec fn classify_one(seg: Seq<char>) -> Result<SegView, ParseErrView> {
    if seg.len() == 0 {
        Err(ParseErrView::ContainsEmptyPathSegment)
    } else if seg[0] == '{' && seg.len() >= 2 && seg[seg.len() - 2] == '+' && seg[seg.len() - 1]
        == '}' {
        Ok(SegView::Greedy)
    } else if seg[0] == '{' && seg[seg.len() - 1] == '}' {
        Ok(SegView::Label)
    } else if seg[0] == '{' {
        Err(ParseErrView::UnclosedLabel(seg))
    } else if seg[seg.len() - 1] == '}' {
        Err(ParseErrView::UnopenedLabel(seg))
    } else {
        Ok(SegView::Literal(seg))
    }
}

/// The classification of the path segments `pieces[from..]`, stopping at the
/// first rejected segment.
pub open spec fn classify_from(pieces: Seq<Seq<char>>, from: int) -> Result<
    Seq<SegView>,
    ParseErrView,
>
    decreases pieces.len() - from,
{
    if from < 0 || from >= pieces.len() {
        Ok(Seq::empty())
    } else {
        match classify_one(pieces[from]) {
            Err(e) => Err(e),
            Ok(sv) => match classify_from(pieces, from + 1) {
                Err(e) => Err(e),
                Ok(rest) => Ok(seq![sv] + rest),
            },
        }
    }
}

/// What parsing a pattern yields: the structured specification, or the
/// error named by the first violated rule.
pub open spec fn spec_parse(s: Seq<char>) -> Result<PathAndQueryView, ParseErrView> {
    if s.len() == 0 || s[0] != '/' {
        Err(ParseErrView::DoesNotStartWithForwardSlash)
    } else if s[s.len() - 1] == '?' {
        Err(ParseErrView::EndsWithQuestionMark)
    } else if contains_char(s, '#') {
        Err(ParseErrView::ContainsFragment)
    } else if contains_char(s, '.') {
        Err(ParseErrView::ContainsDotSegment)
    } else {
        let parts = split_on(s, '?');
        let path = parts[0];
        let segs_r = if path.len() == 1 {
            Ok(Seq::<SegView>::empty())
        } else {
            // The first piece of the path split is always empty because of
            // the leading slash, so classification starts at the second.
            classify_from(split_on(path, '/'), 1)
        };
        match segs_r {
            Err(e) => Err(e),
            Ok(path_segments) => if parts.len() == 1 {
                Ok(PathAndQueryView { path_segments, query_segments: Seq::empty() })
            } else {
                match urlencoded_of(parts[1]) {
                    Err(m) => Err(ParseErrView::InvalidQuerySpec(m)),
                    Ok(pairs) => Ok(
                        PathAndQueryView {
                            path_segments,
                            query_segments: query_segs_of_pairs(pairs),
                        },
                    ),
                }
            },
        }
    }
}

/// The view of a parse result.
pub open spec fn parse_result_view(
    r: Result<PathAndQuerySpec, PathAndQuerySpecParseError>,
) -> Result<PathAndQueryView, ParseErrView> {
    match r {
        Ok(pq) => Ok(pq@),
        Err(e) => Err(e@),
    }
}

/// Classify one path segment of a pattern.
fn classify_piece(seg: &Vec<char>) -> (r: Result<PathSegment, PathAndQuerySpecParseError>)
    ensures
        match r {
            Ok(ps) => classify_one(seg@) == Ok::<SegView, ParseErrView>(ps@),
            Err(e) => classify_one(seg@) == Err::<SegView, ParseErrView>(e@),
        },
{
    if seg.len() == 0 {
        return Err(PathAndQuerySpecParseError::ContainsEmptyPathSegment);
    }
    let first = seg[0];
    let last = seg[seg.len() - 1];
    if first == '{' && seg.len() >= 2 && seg[seg.len() - 2] == '+' && last == '}' {
        Ok(PathSegment::Greedy)
    } else if first == '{' && last == '}' {
        Ok(PathSegment::Label)
    } else if first == '{' {
        Err(PathAndQuerySpecParseError::UnclosedLabel(chars_to_string(seg)))
    } else if last == '}' {
        Err(PathAndQuerySpecParseError::UnopenedLabel(chars_to_string(seg)))
    } else {
        Ok(PathSegment::Literal(chars_to_string(seg)))
    }
}

/// Classify the path segments `pieces[1..]`, in order.
#[verifier::loop_isolation(false)]
fn classify_pieces(pieces: &Vec<Vec<char>>) -> (r: Result<
    Vec<PathSegment>,
    PathAndQuerySpecParseError,
>)
    requires
        pieces@.len() >= 1,
    ensures
        match r {
            Ok(segs) => classify_from(seq_views(pieces@), 1) == Ok::<Seq<SegView>, ParseErrView>(
                segs@.map_values(|p: PathSegment| p@),
            ),
            Err(e) => classify_from(seq_views(pieces@), 1) == Err::<Seq<SegView>, ParseErrView>(e@),
        },
{
    let ghost gpieces = seq_views(pieces@);
    let mut segs: Vec<PathSegment> = Vec::new();
    let mut idx: usize = 1;
    while idx < pieces.len()
        invariant
            1 <= idx <= pieces@.len(),
            forall|k: int| 1 <= k < idx ==> classify_one(gpieces[k]) is Ok,
            segs@.map_values(|p: PathSegment| p@).len() == idx - 1,
            forall|k: int|
                1 <= k < idx ==> segs@.map_values(|p: PathSegment| p@)[k - 1] == classify_one(
                    gpieces[k],
                )->Ok_0,
        decreases pieces@.len() - idx,
    {
        let ghost old_views = segs@.map_values(|p: PathSegment| p@);
        match classify_piece(&pieces[idx]) {
            Err(e) => {
                proof {
                    lemma_classify_from_err(gpieces, 1, idx as int, e@);
                }
                return Err(e);
            },
            Ok(ps) => {
                segs.push(ps);
                proof {
                    assert(segs@.map_values(|p: PathSegment| p@) =~= old_views.push(ps@));
                }
            },
        }
        idx = idx + 1;
    }
    proof {
        lemma_classify_from_ok(gpieces, 1);
        assert forall|i: int| 0 <= i < segs@.map_values(|p: PathSegment| p@).len() implies segs@
            .map_values(|p: PathSegment| p@)[i] == classify_from(gpieces, 1)->Ok_0[i] by {
            assert(segs@.map_values(|p: PathSegment| p@)[i] == classify_one(gpieces[i + 1])->Ok_0);
            assert(classify_from(gpieces, 1)->Ok_0[i] == classify_one(gpieces[i + 1])->Ok_0);
        }
        assert(segs@.map_values(|p: PathSegment| p@) =~= classify_from(gpieces, 1)->Ok_0);
    }
    Ok(segs)
}

/// When every segment from `from` up to `bad` classifies, and `bad` is
/// rejected, the whole classification is rejected with `bad`'s error.
proof fn lemma_classify_from_err(pieces: Seq<Seq<char>>, from: int, bad: int, e: ParseErrView)
    requires
        0 <= from <= bad < pieces.len(),
        forall|k: int| from <= k < bad ==> classify_one(pieces[k]) is Ok,
        classify_one(pieces[bad]) == Err::<SegView, ParseErrView>(e),
    ensures
        classify_from(pieces, from) == Err::<Seq<SegView>, ParseErrView>(e),
    decreases bad - from,
{
    if from < bad {
        lemma_classify_from_err(pieces, from + 1, bad, e);
    }
}

/// When every segment from `from` on classifies, the whole classification
/// succeeds and yields the segments in order.
proof fn lemma_classify_from_ok(pieces: Seq<Seq<char>>, from: int)
    requires
        0 <= from <= pieces.len(),
        forall|k: int| from <= k < pieces.len() ==> classify_one(pieces[k]) is Ok,
    ensures
        classify_from(pieces, from) is Ok,
        classify_from(pieces, from)->Ok_0.len() == pieces.len() - from,
        forall|k: int|
            from <= k < pieces.len() ==> classify_from(pieces, from)->Ok_0[k - from]
                == classify_one(pieces[k])->Ok_0,
    decreases pieces.len() - from,
{
    if from < pieces.len() {
        lemma_classify_from_ok(pieces, from + 1);
        let sv = classify_one(pieces[from])->Ok_0;
        let rest = classify_from(pieces, from + 1)->Ok_0;
        assert(classify_from(pieces, from) == Ok::<Seq<SegView>, ParseErrView>(seq![sv] + rest));
        assert(forall|k: int|
            from <= k < pieces.len() ==> (seq![sv] + rest)[k - from] == classify_one(
                pieces[k],
            )->Ok_0) by {
            assert(forall|k: int|
                from + 1 <= k < pieces.len() ==> #[trigger] (seq![sv] + rest)[k - from] == rest[k
                    - from - 1]);
        }
    }
}

impl PathAndQuerySpec {
    /// Parse a textual URI pattern into a structured specification.
    ///
    /// Succeeds exactly on the patterns the grammar admits; each malformed
    /// pattern yields the error of the first violated rule.
    pub fn parse(s: &str) -> (r: Result<PathAndQuerySpec, PathAndQuerySpecParseError>)
        ensures
            parse_result_view(r) == spec_parse(s@),
    {
        let cs = chars_of(s);
        if cs.len() == 0 {
            return Err(PathAndQuerySpecParseError::DoesNotStartWithForwardSlash);
        }
        if cs[0] != '/' {
            return Err(PathAndQuerySpecParseError::DoesNotStartWithForwardSlash);
        }
        if cs[cs.len() - 1] == '?' {
            return Err(PathAndQuerySpecParseError::EndsWithQuestionMark);
        }
        if contains_c(&cs, '#') {
            return Err(PathAndQuerySpecParseError::ContainsFragment);
        }
        if contains_c(&cs, '.') {
            return Err(PathAndQuerySpecParseError::ContainsDotSegment);
        }
        let parts = split_char(&cs, '?');
        proof {
            lemma_split_len(cs@, '?');
        }
        let path = &parts[0];
        let path_segments: Vec<PathSegment>;
        if path.len() == 1 {
            path_segments = Vec::new();
            proof {
                assert(path_segments@.map_values(|p: PathSegment| p@) =~= Seq::<SegView>::empty());
            }
        } else {
            let pieces = split_char(path, '/');
            proof {
                lemma_split_len(path@, '/');
            }
            match classify_pieces(&pieces) {
                Err(e) => {
                    return Err(e);
                },
                Ok(segs) => {
                    path_segments = segs;
                },
            }
        }
        if parts.len() == 1 {
            let r = PathAndQuerySpec {
                path_segments: PathSpec(path_segments),
                query_segments: Vec::new(),
            };
            proof {
                assert(r@.query_segments =~= Seq::<crate::request_spec::QuerySegView>::empty());
            }
            Ok(r)
        } else {
            let qs = chars_to_string(&parts[1]);
            match parse_query_pairs(qs.as_str()) {
                Err(m) => Err(PathAndQuerySpecParseError::InvalidQuerySpec(m)),
                Ok(pairs) => {
                    let query_segments = query_segments_from_pairs(&pairs);
                    Ok(
                        PathAndQuerySpec {
                            path_segments: PathSpec(path_segments),
                            query_segments,
                        },
                    )
                },
            }
        }
    }
}

} // verus!
