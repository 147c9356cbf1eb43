//! Query string handling: decoding a query string into key/value pairs and
//! evaluating a specification's query constraints against them.
//!
//! Decoding is done by `serde_urlencoded`; everything that is decided about
//! the decoded pairs is verified here.

use vstd::prelude::*;

use crate::request_spec::{QuerySegView, QuerySegment};

verus! {

/// What `serde_urlencoded::from_str` yields for a given input: the decoded
/// key/value pairs in order of occurrence, or the decoder error's message.
pub uninterp spec fn urlencoded_of(s: Seq<char>) -> Result<Seq<(Seq<char>, Seq<char>)>, Seq<char>>;

/// The views of a vector of string pairs.
pub open spec fn pair_views(ps: Seq<(String, String)>) -> Seq<(Seq<char>, Seq<char>)> {
    ps.map_values(|p: (String, String)| (p.0@, p.1@))
}

/// Relies on `serde_urlencoded::from_str::<Vec<(String, String)>>`: decodes
/// an `application/x-www-form-urlencoded` string into its key/value pairs in
/// order of occurrence; a failure is turned into the error's message.
#[verifier::external_body]
pub(crate) fn parse_query_pairs(s: &str) -> (r: Result<Vec<(String, String)>, String>)
    ensures
        match r {
            Ok(pairs) => urlencoded_of(s@) is Ok && pair_views(pairs@) == urlencoded_of(s@)->Ok_0,
            Err(m) => urlencoded_of(s@) is Err && m@ == urlencoded_of(s@)->Err_0,
        },
{
    match serde_urlencoded::from_str::<Vec<(String, String)>>(s) {
        Ok(pairs) => Ok(pairs),
        Err(e) => Err(e.to_string()),
    }
}

/// The query constraint that one decoded pattern pair declares: an empty
/// value constrains the key only; a non-empty value must match exactly.
pub open spec fn query_seg_of_pair(p: (Seq<char>, Seq<char>)) -> QuerySegView {
    if p.1.len() == 0 {
        QuerySegView::Key(p.0)
    } else {
        QuerySegView::KeyValue(p.0, p.1)
    }
}

/// The query constraints that a sequence of decoded pattern pairs declares.
pub open spec fn query_segs_of_pairs(pairs: Seq<(Seq<char>, Seq<char>)>) -> Seq<QuerySegView> {
    pairs.map_values(|p: (Seq<char>, Seq<char>)| query_seg_of_pair(p))
}

/// Turn decoded pattern pairs into query constraints.
#[verifier::loop_isolation(false)]
pub fn query_segments_from_pairs(pairs: &Vec<(String, String)>) -> (r: Vec<QuerySegment>)
    ensures
        r@.map_values(|q: QuerySegment| q@) == query_segs_of_pairs(pair_views(pairs@)),
{
    let ghost target = query_segs_of_pairs(pair_views(pairs@));
    let mut r: Vec<QuerySegment> = Vec::new();
    let mut i: usize = 0;
    proof {
        assert(r@.map_values(|q: QuerySegment| q@) =~= target.subrange(0, 0));
    }
    while i < pairs.len()
        invariant
            i <= pairs@.len(),
            r@.map_values(|q: QuerySegment| q@) == target.subrange(0, i as int),
        decreases pairs@.len() - i,
    {
        let p = &pairs[i];
        let ghost old_r = r@;
        if p.1.as_str().is_empty() {
            r.push(QuerySegment::Key(p.0.clone()));
        } else {
            r.push(QuerySegment::KeyValue(p.0.clone(), p.1.clone()));
        }
        proof {
            assert(pair_views(pairs@)[i as int] == (pairs@[i as int].0@, pairs@[i as int].1@));
            assert(r@.map_values(|q: QuerySegment| q@) =~= target.subrange(0, i + 1));
        }
        i = i + 1;
    }
    proof {
        assert(target.subrange(0, pairs@.len() as int) =~= target);
    }
    r
}

/// A pair with key `k` occurs somewhere.
pub open spec fn has_key(pairs: Seq<(Seq<char>, Seq<char>)>, k: Seq<char>) -> bool {
    exists|j: int| 0 <= j < pairs.len() && pairs[j].0 == k
}

/// The value of the last pair with key `k`, if the key occurs at all.  A
/// repeated key behaves as a map insert: the last occurrence wins.
pub open spec fn last_value_of(pairs: Seq<(Seq<char>, Seq<char>)>, k: Seq<char>) -> Option<
    Seq<char>,
>
    decreases pairs.len(),
{
    if pairs.len() == 0 {
        None
    } else if pairs.last().0 == k {
        Some(pairs.last().1)
    } else {
        last_value_of(pairs.drop_last(), k)
    }
}

/// One declared query constraint holds of the decoded request pairs.
pub open spec fn constraint_holds(q: QuerySegView, pairs: Seq<(Seq<char>, Seq<char>)>) -> bool {
    match q {
        QuerySegView::Key(k) => has_key(pairs, k),
        QuerySegView::KeyValue(k, v) => last_value_of(pairs, k) == Some(v),
    }
}

/// Every declared query constraint holds of the decoded request pairs.
pub open spec fn all_constraints_hold(
    qs: Seq<QuerySegView>,
    pairs: Seq<(Seq<char>, Seq<char>)>,
) -> bool {
    forall|i: int| 0 <= i < qs.len() ==> constraint_holds(qs[i], pairs)
}

/// Does some pair carry the key `k`?
#[verifier::loop_isolation(false)]
fn has_key_exec(pairs: &Vec<(String, String)>, k: &String) -> (r: bool)
    ensures
        r == has_key(pair_views(pairs@), k@),
{
    let mut i: usize = 0;
    while i < pairs.len()
        invariant
            i <= pairs@.len(),
            forall|j: int| 0 <= j < i ==> pair_views(pairs@)[j].0 != k@,
        decreases pairs@.len() - i,
    {
        if pairs[i].0 == *k {
            proof {
                assert(pair_views(pairs@)[i as int].0 == k@);
            }
            return true;
        }
        i = i + 1;
    }
    proof {
        if has_key(pair_views(pairs@), k@) {
            let j = choose|j: int| 0 <= j < pair_views(pairs@).len() && pair_views(pairs@)[j].0
                == k@;
            assert(false);
        }
    }
    false
}

/// The value of the last pair with key `k`, if any.
#[verifier::loop_isolation(false)]
fn last_value_exec<'a>(pairs: &'a Vec<(String, String)>, k: &String) -> (r: Option<&'a String>)
    ensures
        match r {
            Some(v) => last_value_of(pair_views(pairs@), k@) == Some(v@),
            None => last_value_of(pair_views(pairs@), k@) is None,
        },
{
    let ghost gpairs = pair_views(pairs@);
    let mut i: usize = pairs.len();
    proof {
        assert(gpairs.subrange(0, i as int) =~= gpairs);
    }
    while i > 0
        invariant
            i <= pairs@.len(),
            last_value_of(gpairs, k@) == last_value_of(gpairs.subrange(0, i as int), k@),
        decreases i,
    {
        i = i - 1;
        let ghost sub = gpairs.subrange(0, i + 1);
        proof {
            assert(sub.last() == gpairs[i as int]);
            assert(sub.drop_last() =~= gpairs.subrange(0, i as int));
        }
        if pairs[i].0 == *k {
            proof {
                assert(last_value_of(sub, k@) == Some(gpairs[i as int].1));
            }
            return Some(&pairs[i].1);
        }
    }
    proof {
        assert(gpairs.subrange(0, 0) =~= Seq::<(Seq<char>, Seq<char>)>::empty());
    }
    None
}

/// Do the decoded request pairs satisfy every declared query constraint?
#[verifier::loop_isolation(false)]
pub fn query_constraints_met(qs: &Vec<QuerySegment>, pairs: &Vec<(String, String)>) -> (r: bool)
    ensures
        r == all_constraints_hold(
            qs@.map_values(|q: QuerySegment| q@),
            pair_views(pairs@),
        ),
{
    let ghost gqs = qs@.map_values(|q: QuerySegment| q@);
    let ghost gpairs = pair_views(pairs@);
    let mut i: usize = 0;
    while i < qs.len()
        invariant
            i <= qs@.len(),
            forall|j: int| 0 <= j < i ==> constraint_holds(gqs[j], gpairs),
        decreases qs@.len() - i,
    {
        proof {
            assert(gqs[i as int] == qs@[i as int]@);
        }
        match &qs[i] {
            QuerySegment::Key(k) => {
                if !has_key_exec(pairs, k) {
                    proof {
                        assert(!constraint_holds(gqs[i as int], gpairs));
                    }
                    return false;
                }
            },
            QuerySegment::KeyValue(k, v) => {
                match last_value_exec(pairs, k) {
                    None => {
                        proof {
                            assert(!constraint_holds(gqs[i as int], gpairs));
                        }
                        return false;
                    },
                    Some(found) => {
                        if !(*found == *v) {
                            proof {
                                assert(!constraint_holds(gqs[i as int], gpairs));
                            }
                            return false;
                        }
                    },
                }
            },
        }
        proof {
            assert(constraint_holds(gqs[i as int], gpairs));
        }
        i = i + 1;
    }
    true
}

} // verus!
