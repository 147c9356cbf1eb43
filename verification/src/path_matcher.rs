//! Path matching: evaluates a sequence of path segments against a request
//! path.
//!
//! The matching language mirrors the compiled pattern the framework uses:
//! segments are joined by a separator tolerant of duplicate slashes (one or
//! more `/`), a `Literal` segment matches its exact text, a `Label` matches
//! one or more non-slash characters, a `Greedy` segment matches any
//! characters (embedded slashes included), and the whole pattern is anchored
//! at the end of the path only, so a matching suffix suffices.  An empty
//! segment sequence therefore matches every path.

use vstd::prelude::*;
use vstd::string::StrSliceExecFns;

use crate::request_spec::{PathSegment, SegView};

verus! {

/// The views of a vector of path segments.
pub open spec fn views_of(segs: Seq<PathSegment>) -> Seq<SegView> {
    segs.map_values(|s: PathSegment| s@)
}

/// All characters of `path` in `[j, a)` are `/`.
pub open spec fn all_slashes(path: Seq<char>, j: int, a: int) -> bool {
    forall|k: int| j <= k < a ==> path[k] == '/'
}

/// The language of one segment: the strings it matches.
pub open spec fn seg_lang(seg: SegView, s: Seq<char>) -> bool {
    match seg {
        SegView::Literal(t) => s == t,
        SegView::Label => s.len() >= 1 && (forall|k: int| 0 <= k < s.len() ==> s[k] != '/'),
        SegView::Greedy => true,
    }
}

/// The segments `segs[i..]` match `path[j..]` exactly: one or more slashes,
/// then the first segment's language, then the rest, ending at the end of
/// the path.
pub open spec fn tail_matches(segs: Seq<SegView>, i: int, path: Seq<char>, j: int) -> bool
    decreases segs.len() - i,
{
    if i >= segs.len() {
        j == path.len()
    } else {
        exists|a: int, b: int|
            j < a <= b <= path.len() && all_slashes(path, j, a) && seg_lang(
                segs[i],
                path.subrange(a, b),
            ) && tail_matches(segs, i + 1, path, b)
    }
}

/// One candidate split at `(a, b)` for segment `i` starting at `j` works.
pub open spec fn cand_ok(segs: Seq<SegView>, i: int, path: Seq<char>, j: int, a: int, b: int) -> bool {
    j < a <= b <= path.len() && all_slashes(path, j, a) && seg_lang(segs[i], path.subrange(a, b))
        && tail_matches(segs, i + 1, path, b)
}

/// The whole path pattern matches `path`: some suffix of the path is in the
/// pattern's language (the pattern is anchored at the end only).
pub open spec fn path_spec_matches(segs: Seq<SegView>, path: Seq<char>) -> bool {
    exists|st: int| 0 <= st <= path.len() && tail_matches(segs, 0, path, st)
}

/// An empty segment sequence matches every path: the pattern is anchored
/// at the end only, and the empty pattern matches there.
pub proof fn lemma_empty_spec_matches_all(path: Seq<char>)
    ensures
        path_spec_matches(Seq::<SegView>::empty(), path),
{
    assert(tail_matches(Seq::<SegView>::empty(), 0, path, path.len() as int));
}

/// Does segment `seg` match exactly the characters `path[a..b]`?
#[verifier::loop_isolation(false)]
fn seg_match_at(seg: &PathSegment, path: &str, a: usize, b: usize) -> (r: bool)
    requires
        a <= b <= path@.len(),
    ensures
        r == seg_lang(seg@, path@.subrange(a as int, b as int)),
{
    match seg {
        PathSegment::Literal(t) => {
            let tl = t.as_str().unicode_len();
            if tl != b - a {
                proof {
                    assert(seg@ == SegView::Literal(t@));
                    assert(path@.subrange(a as int, b as int).len() == b - a);
                    assert(t@.len() == tl);
                }
                return false;
            }
            let mut k: usize = 0;
            while k < tl
                invariant
                    k <= tl,
                    tl == t@.len(),
                    tl == b - a,
                    a <= b <= path@.len(),
                    forall|x: int| 0 <= x < k ==> path@[a + x] == t@[x],
                decreases tl - k,
            {
                if path.get_char(a + k) != t.as_str().get_char(k) {
                    proof {
                        assert(seg@ == SegView::Literal(t@));
                        assert(path@.subrange(a as int, b as int)[k as int] != t@[k as int]);
                    }
                    return false;
                }
                k = k + 1;
            }
            proof {
                assert(path@.subrange(a as int, b as int) =~= t@);
            }
            true
        },
        PathSegment::Label => {
            if b == a {
                return false;
            }
            let mut k: usize = a;
            while k < b
                invariant
                    a <= k <= b <= path@.len(),
                    forall|x: int| a <= x < k ==> path@[x] != '/',
                decreases b - k,
            {
                if path.get_char(k) == '/' {
                    proof {
                        assert(seg@ == SegView::Label);
                        assert(path@.subrange(a as int, b as int)[k - a] == '/');
                    }
                    return false;
                }
                k = k + 1;
            }
            proof {
                assert(forall|x: int|
                    0 <= x < path@.subrange(a as int, b as int).len() ==> path@.subrange(
                        a as int,
                        b as int,
                    )[x] != '/');
            }
            true
        },
        PathSegment::Greedy => true,
    }
}

/// Does `segs[i..]` match `path[j..]` exactly?  A backtracking search over
/// the possible splits, faithful to [`tail_matches`].
fn match_tail(segs: &Vec<PathSegment>, i: usize, path: &str, j: usize) -> (r: bool)
    requires
        i <= segs@.len(),
        j <= path@.len(),
    ensures
        r == tail_matches(views_of(segs@), i as int, path@, j as int),
    decreases segs@.len() - i,
{
    let ghost gsegs = views_of(segs@);
    let n = segs.len();
    let plen = path.unicode_len();
    if i == n {
        return j == plen;
    }
    proof {
        assert(gsegs[i as int] == segs@[i as int]@);
    }
    // End of the run of slashes that starts at `j`: every candidate start of
    // the segment's own text lies inside this run.
    let mut e = j;
    while e < plen && path.get_char(e) == '/'
        invariant
            j <= e <= plen,
            plen == path@.len(),
            all_slashes(path@, j as int, e as int),
        decreases plen - e,
    {
        e = e + 1;
    }
    if e == j {
        // No separator at `j`: no candidate split exists.
        proof {
            if tail_matches(gsegs, i as int, path@, j as int) {
                let (aa, bb) = choose|aa: int, bb: int|
                    (j as int) < aa <= bb <= path@.len() && all_slashes(path@, j as int, aa)
                        && seg_lang(gsegs[i as int], path@.subrange(aa, bb)) && tail_matches(
                        gsegs,
                        i as int + 1,
                        path@,
                        bb,
                    );
                assert(path@[j as int] == '/');
                assert(false);
            }
        }
        return false;
    }
    let mut a = j + 1;
    loop
        invariant
            j < a <= e <= plen,
            plen == path@.len(),
            i < n,
            n == segs@.len(),
            gsegs == views_of(segs@),
            all_slashes(path@, j as int, e as int),
            e == plen || path@[e as int] != '/',
            forall|aa: int, bb: int|
                (j as int) < aa < a && aa <= bb <= plen ==> !cand_ok(
                    gsegs,
                    i as int,
                    path@,
                    j as int,
                    aa,
                    bb,
                ),
        ensures
            forall|aa: int, bb: int|
                (j as int) < aa <= (e as int) && aa <= bb <= plen ==> !cand_ok(
                    gsegs,
                    i as int,
                    path@,
                    j as int,
                    aa,
                    bb,
                ),
        decreases (e - a) as int,
    {
        let mut b = a;
        loop
            invariant
                j < a <= b <= plen,
                a <= e <= plen,
                plen == path@.len(),
                i < n,
                n == segs@.len(),
                gsegs == views_of(segs@),
                all_slashes(path@, j as int, a as int),
                forall|aa: int, bb: int|
                    (j as int) < aa < a && aa <= bb <= plen ==> !cand_ok(
                        gsegs,
                        i as int,
                        path@,
                        j as int,
                        aa,
                        bb,
                    ),
                forall|bb: int|
                    (a as int) <= bb < b ==> !cand_ok(gsegs, i as int, path@, j as int, a as int, bb),
            ensures
                forall|aa: int, bb: int|
                    (j as int) < aa < a && aa <= bb <= plen ==> !cand_ok(
                        gsegs,
                        i as int,
                        path@,
                        j as int,
                        aa,
                        bb,
                    ),
                forall|bb: int|
                    (a as int) <= bb <= plen ==> !cand_ok(gsegs, i as int, path@, j as int, a as int, bb),
            decreases (plen - b) as int,
        {
            proof {
                assert(gsegs[i as int] == segs@[i as int]@);
            }
            let segok = seg_match_at(&segs[i], path, a, b);
            if segok {
                let rest = match_tail(segs, i + 1, path, b);
                if rest {
                    proof {
                        assert(seg_lang(gsegs[i as int], path@.subrange(a as int, b as int)));
                        assert(tail_matches(gsegs, i as int + 1, path@, b as int));
                        assert(tail_matches(gsegs, i as int, path@, j as int));
                    }
                    return true;
                }
            }
            proof {
                assert(!cand_ok(gsegs, i as int, path@, j as int, a as int, b as int));
            }
            if b == plen {
                break;
            }
            b = b + 1;
        }
        if a == e {
            break;
        }
        a = a + 1;
    }
    proof {
        if tail_matches(gsegs, i as int, path@, j as int) {
            let (aa, bb) = choose|aa: int, bb: int|
                (j as int) < aa <= bb <= path@.len() && all_slashes(path@, j as int, aa) && seg_lang(
                    gsegs[i as int],
                    path@.subrange(aa, bb),
                ) && tail_matches(gsegs, i as int + 1, path@, bb);
            if aa > e as int {
                assert(path@[e as int] == '/');
                assert(false);
            }
            assert(cand_ok(gsegs, i as int, path@, j as int, aa, bb));
            assert(false);
        }
    }
    false
}

/// Does the path pattern `segs` match `path`?
pub fn path_matches(segs: &Vec<PathSegment>, path: &str) -> (r: bool)
    ensures
        r == path_spec_matches(views_of(segs@), path@),
{
    let ghost gsegs = views_of(segs@);
    let plen = path.unicode_len();
    let mut st: usize = 0;
    loop
        invariant
            st <= plen,
            plen == path@.len(),
            gsegs == views_of(segs@),
            forall|ss: int| 0 <= ss < st ==> !tail_matches(gsegs, 0, path@, ss),
        ensures
            forall|ss: int| 0 <= ss <= plen ==> !tail_matches(gsegs, 0, path@, ss),
        decreases (plen - st) as int,
    {
        if match_tail(segs, 0, path, st) {
            proof {
                assert(path_spec_matches(gsegs, path@));
            }
            return true;
        }
        if st == plen {
            break;
        }
        st = st + 1;
    }
    proof {
        if path_spec_matches(gsegs, path@) {
            let ss = choose|ss: int| 0 <= ss <= path@.len() && tail_matches(gsegs, 0, path@, ss);
            assert(false);
        }
    }
    false
}

} // verus!
