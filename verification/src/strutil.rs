//! Small executable helpers for moving between `&str`, `Vec<char>` and
//! `String`, shared by the pattern parser, the matcher and the escaping
//! routines.

use vstd::prelude::*;
use vstd::string::StrSliceExecFns;

verus! {

/// The characters of `s`, as a vector.
pub fn chars_of(s: &str) -> (r: Vec<char>)
    ensures
        r@ == s@,
{
    let n = s.unicode_len();
    let mut r: Vec<char> = Vec::new();
    let mut i: usize = 0;
    while i < n
        invariant
            i <= n,
            n == s@.len(),
            r@ == s@.subrange(0, i as int),
        decreases n - i,
    {
        let c = s.get_char(i);
        r.push(c);
        proof {
            assert(r@ =~= s@.subrange(0, i + 1 as int));
        }
        i = i + 1;
    }
    proof {
        assert(r@ =~= s@);
    }
    r
}

/// Relies on `String::push`: appends one character at the end.
#[verifier::external_body]
pub(crate) fn push_char(s: &mut String, c: char)
    ensures
        final(s)@ == old(s)@.push(c),
{
    s.push(c);
}

/// A `String` holding exactly the characters of `v`.
pub fn chars_to_string(v: &Vec<char>) -> (r: String)
    ensures
        r@ == v@,
{
    let mut r = String::new();
    let mut i: usize = 0;
    while i < v.len()
        invariant
            i <= v@.len(),
            r@ == v@.subrange(0, i as int),
        decreases v@.len() - i,
    {
        push_char(&mut r, v[i]);
        proof {
            assert(r@ =~= v@.subrange(0, i + 1 as int));
        }
        i = i + 1;
    }
    proof {
        assert(r@ =~= v@);
    }
    r
}

/// `s` holds the character `c` somewhere.
pub open spec fn contains_char(s: Seq<char>, c: char) -> bool {
    exists|k: int| 0 <= k < s.len() && s[k] == c
}

/// The pieces of `s` between occurrences of `sep`, in order.  A string
/// without the separator is one piece; every separator ends a piece, so the
/// result always holds one piece more than `s` holds separators.
pub open spec fn split_on(s: Seq<char>, sep: char) -> Seq<Seq<char>>
    decreases s.len(),
{
    if s.len() == 0 {
        seq![s]
    } else if s[0] == sep {
        seq![Seq::<char>::empty()] + split_on(s.drop_first(), sep)
    } else {
        let r = split_on(s.drop_first(), sep);
        r.update(0, seq![s[0]] + r[0])
    }
}

/// Splitting never yields an empty piece list.
pub proof fn lemma_split_len(s: Seq<char>, sep: char)
    ensures
        split_on(s, sep).len() >= 1,
    decreases s.len(),
{
    if s.len() > 0 {
        lemma_split_len(s.drop_first(), sep);
    }
}

/// A separator-free string is one piece.
pub proof fn lemma_split_no_sep(p: Seq<char>, sep: char)
    requires
        !contains_char(p, sep),
    ensures
        split_on(p, sep) == seq![p],
    decreases p.len(),
{
    if p.len() > 0 {
        assert(p[0] != sep);
        assert(!contains_char(p.drop_first(), sep)) by {
            if contains_char(p.drop_first(), sep) {
                let k = choose|k: int| 0 <= k < p.drop_first().len() && p.drop_first()[k] == sep;
                assert(p[k + 1] == sep);
            }
        }
        lemma_split_no_sep(p.drop_first(), sep);
        assert(seq![p[0]] + p.drop_first() =~= p);
        assert(split_on(p, sep) =~~= seq![p]);
    }
}

/// The first separator splits off the first piece.
pub proof fn lemma_split_with_sep(p: Seq<char>, t: Seq<char>, sep: char)
    requires
        !contains_char(p, sep),
    ensures
        split_on(p + seq![sep] + t, sep) == seq![p] + split_on(t, sep),
    decreases p.len(),
{
    let s = p + seq![sep] + t;
    if p.len() == 0 {
        assert(s =~= seq![sep] + t);
        assert(s[0] == sep);
        assert(s.drop_first() =~= t);
        assert(split_on(s, sep) == seq![Seq::<char>::empty()] + split_on(s.drop_first(), sep));
        assert(seq![Seq::<char>::empty()] + split_on(t, sep) =~~= seq![p] + split_on(t, sep));
    } else {
        assert(s[0] == p[0]);
        assert(p[0] != sep);
        assert(!contains_char(p.drop_first(), sep)) by {
            if contains_char(p.drop_first(), sep) {
                let k = choose|k: int| 0 <= k < p.drop_first().len() && p.drop_first()[k] == sep;
                assert(p[k + 1] == sep);
            }
        }
        assert(s.drop_first() =~= p.drop_first() + seq![sep] + t);
        lemma_split_with_sep(p.drop_first(), t, sep);
        let r = split_on(s.drop_first(), sep);
        assert(r == seq![p.drop_first()] + split_on(t, sep));
        lemma_split_len(t, sep);
        assert(r[0] == p.drop_first());
        assert(seq![s[0]] + r[0] =~= p);
        assert(r.update(0, seq![s[0]] + r[0]) =~~= seq![p] + split_on(t, sep));
    }
}

/// The views of a vector of character vectors.
pub open spec fn seq_views(vs: Seq<Vec<char>>) -> Seq<Seq<char>> {
    vs.map_values(|v: Vec<char>| v@)
}

/// Does `v` hold the character `c`?
#[verifier::loop_isolation(false)]
pub fn contains_c(v: &Vec<char>, c: char) -> (r: bool)
    ensures
        r == contains_char(v@, c),
{
    let mut i: usize = 0;
    while i < v.len()
        invariant
            i <= v@.len(),
            forall|k: int| 0 <= k < i ==> v@[k] != c,
        decreases v@.len() - i,
    {
        if v[i] == c {
            return true;
        }
        i = i + 1;
    }
    false
}

/// Split `v` at every occurrence of `sep`.
#[verifier::loop_isolation(false)]
pub fn split_char(v: &Vec<char>, sep: char) -> (r: Vec<Vec<char>>)
    ensures
        seq_views(r@) == split_on(v@, sep),
{
    let mut pieces: Vec<Vec<char>> = Vec::new();
    let mut cur: Vec<char> = Vec::new();
    let mut i: usize = 0;
    proof {
        assert(cur@ + v@.skip(0) =~= v@);
        assert(seq_views(pieces@) =~= Seq::<Seq<char>>::empty());
        assert(seq_views(pieces@) + split_on(cur@ + v@.skip(0), sep) =~~= split_on(v@, sep));
    }
    while i < v.len()
        invariant
            i <= v@.len(),
            !contains_char(cur@, sep),
            split_on(v@, sep) == seq_views(pieces@) + split_on(cur@ + v@.skip(i as int), sep),
        decreases v@.len() - i,
    {
        if v[i] == sep {
            proof {
                assert(cur@ + v@.skip(i as int) =~= cur@ + seq![sep] + v@.skip(i + 1));
                lemma_split_with_sep(cur@, v@.skip(i + 1), sep);
            }
            let ghost old_pieces = pieces@;
            let ghost old_cur = cur@;
            pieces.push(cur);
            cur = Vec::new();
            proof {
                assert(seq_views(pieces@) =~~= seq_views(old_pieces) + seq![old_cur]);
                assert(cur@ + v@.skip(i + 1) =~= v@.skip(i + 1));
                assert(split_on(old_cur + v@.skip(i as int), sep) == seq![old_cur] + split_on(
                    v@.skip(i + 1),
                    sep,
                ));
                assert(seq_views(old_pieces) + (seq![old_cur] + split_on(v@.skip(i + 1), sep))
                    =~~= (seq_views(old_pieces) + seq![old_cur]) + split_on(v@.skip(i + 1), sep));
                assert(split_on(v@, sep) == seq_views(pieces@) + split_on(cur@ + v@.skip(i + 1), sep));
            }
        } else {
            let ghost old_cur = cur@;
            cur.push(v[i]);
            proof {
                assert(cur@ + v@.skip(i + 1) =~= old_cur + v@.skip(i as int));
                assert(!contains_char(cur@, sep)) by {
                    if contains_char(cur@, sep) {
                        let k = choose|k: int| 0 <= k < cur@.len() && cur@[k] == sep;
                        if k < old_cur.len() {
                            assert(old_cur[k] == sep);
                        }
                    }
                }
            }
        }
        i = i + 1;
    }
    proof {
        assert(cur@ + v@.skip(v@.len() as int) =~= cur@);
        lemma_split_no_sep(cur@, sep);
    }
    let ghost old_pieces = pieces@;
    let ghost old_cur = cur@;
    pieces.push(cur);
    proof {
        assert(seq_views(pieces@) =~~= seq_views(old_pieces) + seq![old_cur]);
        assert(seq_views(old_pieces) + split_on(old_cur, sep) =~~= seq_views(old_pieces) + seq![
            old_cur,
        ]);
        assert(seq_views(pieces@) =~~= split_on(v@, sep));
    }
    pieces
}

/// The characters `v[from..to]`, as a fresh vector.
#[verifier::loop_isolation(false)]
pub fn copy_range(v: &Vec<char>, from: usize, to: usize) -> (r: Vec<char>)
    requires
        from <= to <= v@.len(),
    ensures
        r@ == v@.subrange(from as int, to as int),
{
    let mut r: Vec<char> = Vec::new();
    let mut i: usize = from;
    while i < to
        invariant
            from <= i <= to,
            r@ == v@.subrange(from as int, i as int),
        decreases to - i,
    {
        r.push(v[i]);
        proof {
            assert(r@ =~= v@.subrange(from as int, i + 1));
        }
        i = i + 1;
    }
    r
}

/// The view of an optional borrowed string.
pub open spec fn opt_str_view(q: Option<&str>) -> Option<Seq<char>> {
    match q {
        Some(s) => Some(s@),
        None => None,
    }
}

/// Are two strings equal, character for character?
#[verifier::loop_isolation(false)]
pub fn str_eq(a: &str, b: &str) -> (r: bool)
    ensures
        r == (a@ == b@),
{
    let na = a.unicode_len();
    let nb = b.unicode_len();
    if na != nb {
        return false;
    }
    let mut i: usize = 0;
    while i < na
        invariant
            i <= na,
            na == a@.len() == b@.len(),
            forall|k: int| 0 <= k < i ==> a@[k] == b@[k],
        decreases na - i,
    {
        if a.get_char(i) != b.get_char(i) {
            return false;
        }
        i = i + 1;
    }
    proof {
        assert(a@ =~= b@);
    }
    true
}

} // verus!
