//! Literal token search and replacement over text.
//!
//! Regex-mode mutation replaces every occurrence of a fixed sentinel token
//! with the escaped payload, scanning left to right without overlap. The
//! functions here implement that for an arbitrary non-empty literal token.

use vstd::prelude::*;
use vstd::string::StrSliceExecFns;
use vstd::string::StringExecFns;

verus! {

/// `tok` occurs in `s` starting at position `i`.
pub open spec fn matches_at(s: Seq<char>, tok: Seq<char>, i: int) -> bool {
    &&& 0 <= i
    &&& i + tok.len() <= s.len()
    &&& s.subrange(i, i + tok.len()) == tok
}

/// `tok` occurs somewhere in `s`.
pub open spec fn contains_token(s: Seq<char>, tok: Seq<char>) -> bool {
    exists|i: int| matches_at(s, tok, i)
}

/// The number of positions at which `tok` occurs in `s`; overlapping
/// occurrences are all counted.
pub open spec fn match_count(s: Seq<char>, tok: Seq<char>) -> nat
    decreases s.len(),
{
    if tok.len() == 0 || s.len() < tok.len() {
        0
    } else {
        (if matches_at(s, tok, 0) {
            1nat
        } else {
            0nat
        }) + match_count(s.skip(1), tok)
    }
}

/// Every occurrence of `tok` in `s` replaced by `rep`, scanning left to
/// right; a match consumes the whole token, so replacements never overlap.
pub open spec fn replace_all(s: Seq<char>, tok: Seq<char>, rep: Seq<char>) -> Seq<char>
    decreases s.len(),
{
    if tok.len() == 0 || s.len() < tok.len() {
        s
    } else if s.subrange(0, tok.len() as int) == tok {
        rep + replace_all(s.skip(tok.len() as int), tok, rep)
    } else {
        seq![s[0]] + replace_all(s.skip(1), tok, rep)
    }
}

fn matches_at_exec(s: &str, tok: &str, i: usize) -> (b: bool)
    requires
        i + tok@.len() <= s@.len(),
    ensures
        b == matches_at(s@, tok@, i as int),
{
    let sn = s.unicode_len();
    let tn = tok.unicode_len();
    let mut j: usize = 0;
    while j < tn
        invariant
            j <= tn,
            tn == tok@.len(),
            sn == s@.len(),
            i + tn <= s@.len(),
            forall|k: int| 0 <= k < j ==> s@[i + k] == tok@[k],
        decreases tn - j,
    {
        if s.get_char(i + j) != tok.get_char(j) {
            proof {
                assert(s@.subrange(i as int, i + tn as int)[j as int] == s@[i + j]);
            }
            return false;
        }
        j = j + 1;
    }
    proof {
        assert(s@.subrange(i as int, i + tn as int) =~= tok@);
    }
    true
}

/// Whether the token occurs anywhere in the text.
pub fn find_token(s: &str, tok: &str) -> (b: bool)
    requires
        tok@.len() >= 1,
    ensures
        b == contains_token(s@, tok@),
{
    let n = s.unicode_len();
    let tn = tok.unicode_len();
    if tn > n {
        proof {
            assert forall|i: int| !matches_at(s@, tok@, i) by {}
        }
        return false;
    }
    let mut i: usize = 0;
    while i <= n - tn
        invariant
            tn <= n,
            tn >= 1,
            n == s@.len(),
            tn == tok@.len(),
            i <= n - tn + 1,
            forall|k: int| 0 <= k < i ==> !matches_at(s@, tok@, k),
        decreases n - tn + 1 - i,
    {
        if matches_at_exec(s, tok, i) {
            proof {
                assert(matches_at(s@, tok@, i as int));
            }
            return true;
        }
        i = i + 1;
    }
    proof {
        assert forall|k: int| !matches_at(s@, tok@, k) by {
            if 0 <= k < i as int {
                assert(!matches_at(s@, tok@, k));
            }
        }
    }
    false
}

/// Replaces every occurrence of `tok` in `s` by `rep`, left to right,
/// without overlap.
pub fn replace_token(s: &str, tok: &str, rep: &str) -> (r: String)
    requires
        tok@.len() >= 1,
    ensures
        r@ == replace_all(s@, tok@, rep@),
{
    let n = s.unicode_len();
    let tn = tok.unicode_len();
    let mut out = String::new();
    let mut i: usize = 0;
    proof {
        assert(s@.skip(0) =~= s@);
    }
    while i < n
        invariant
            i <= n,
            n == s@.len(),
            tn == tok@.len(),
            tn >= 1,
            replace_all(s@, tok@, rep@) == out@ + replace_all(s@.skip(i as int), tok@, rep@),
        decreases n - i,
    {
        let ghost rest = s@.skip(i as int);
        if tn <= n - i && matches_at_exec(s, tok, i) {
            out.append(rep);
            proof {
                assert(rest.subrange(0, tn as int) =~= s@.subrange(i as int, (i + tn) as int));
                assert(rest.subrange(0, tn as int) == tok@);
                assert(replace_all(rest, tok@, rep@) == rep@ + replace_all(
                    rest.skip(tn as int),
                    tok@,
                    rep@,
                ));
                assert(rest.skip(tn as int) =~= s@.skip((i + tn) as int));
            }
            i = i + tn;
        } else {
            let piece = s.substring_char(i, i + 1);
            out.append(piece);
            proof {
                assert(rest.len() >= 1);
                assert(rest[0] == s@[i as int]);
                assert(piece@ =~= seq![s@[i as int]]);
                assert(rest.skip(1) =~= s@.skip((i + 1) as int));
                if tn <= n - i {
                    assert(rest.subrange(0, tn as int) =~= s@.subrange(i as int, (i + tn) as int));
                    assert(rest.subrange(0, tn as int) != tok@);
                    assert(replace_all(rest, tok@, rep@) == seq![rest[0]] + replace_all(
                        rest.skip(1),
                        tok@,
                        rep@,
                    ));
                } else {
                    assert(rest.len() < tn);
                    assert(replace_all(rest, tok@, rep@) == rest);
                    assert(rest.skip(1).len() < tn);
                    assert(replace_all(rest.skip(1), tok@, rep@) == rest.skip(1));
                    assert(rest =~= seq![rest[0]] + rest.skip(1));
                }
            }
            i = i + 1;
        }
    }
    proof {
        assert(s@.skip(i as int).len() == 0);
        assert(replace_all(s@.skip(i as int), tok@, rep@) == s@.skip(i as int));
        assert(out@ + s@.skip(i as int) =~= out@);
    }
    out
}

proof fn lemma_match_shift_down(s: Seq<char>, tok: Seq<char>, i: int)
    requires
        s.len() >= 1,
        i >= 1,
    ensures
        matches_at(s, tok, i) <==> matches_at(s.skip(1), tok, i - 1),
{
    if i + tok.len() <= s.len() {
        assert(s.skip(1).subrange(i - 1, i - 1 + tok.len()) =~= s.subrange(i, i + tok.len()));
    }
}

proof fn lemma_match_lift(x: Seq<char>, b: Seq<char>, tok: Seq<char>, i: int)
    requires
        matches_at(b, tok, i),
    ensures
        matches_at(x + b, tok, x.len() + i),
{
    assert((x + b).subrange(x.len() + i, x.len() + i + tok.len()) =~= b.subrange(
        i,
        i + tok.len(),
    ));
}

proof fn lemma_match_count_zero_iff(s: Seq<char>, tok: Seq<char>)
    requires
        tok.len() >= 1,
    ensures
        (match_count(s, tok) == 0) <==> (forall|i: int| !matches_at(s, tok, i)),
    decreases s.len(),
{
    if s.len() < tok.len() {
        assert forall|i: int| !matches_at(s, tok, i) by {}
    } else {
        lemma_match_count_zero_iff(s.skip(1), tok);
        if match_count(s, tok) == 0 {
            assert(!matches_at(s, tok, 0));
            assert(match_count(s.skip(1), tok) == 0);
            assert forall|i: int| !matches_at(s, tok, i) by {
                if i >= 1 {
                    lemma_match_shift_down(s, tok, i);
                }
            }
        } else {
            if forall|i: int| !matches_at(s, tok, i) {
                assert(!matches_at(s, tok, 0));
                assert forall|i: int| !matches_at(s.skip(1), tok, i) by {
                    if i >= 0 {
                        lemma_match_shift_down(s, tok, i + 1);
                        assert(!matches_at(s, tok, i + 1));
                    }
                }
                assert(match_count(s.skip(1), tok) == 0);
                assert(false);
            }
        }
    }
}

proof fn lemma_match_count_positive(s: Seq<char>, tok: Seq<char>, i: int)
    requires
        tok.len() >= 1,
        matches_at(s, tok, i),
    ensures
        match_count(s, tok) >= 1,
    decreases s.len(),
{
    if i == 0 {
    } else {
        lemma_match_shift_down(s, tok, i);
        lemma_match_count_positive(s.skip(1), tok, i - 1);
    }
}

proof fn lemma_two_matches(s: Seq<char>, tok: Seq<char>, i: int, j: int)
    requires
        tok.len() >= 1,
        matches_at(s, tok, i),
        matches_at(s, tok, j),
        i < j,
    ensures
        match_count(s, tok) >= 2,
    decreases s.len(),
{
    if i == 0 {
        lemma_match_shift_down(s, tok, j);
        lemma_match_count_positive(s.skip(1), tok, j - 1);
    } else {
        lemma_match_shift_down(s, tok, i);
        lemma_match_shift_down(s, tok, j);
        lemma_two_matches(s.skip(1), tok, i - 1, j - 1);
    }
}

proof fn lemma_replace_without_match_keeps_text(s: Seq<char>, tok: Seq<char>, rep: Seq<char>)
    requires
        tok.len() >= 1,
        forall|i: int| !matches_at(s, tok, i),
    ensures
        replace_all(s, tok, rep) == s,
    decreases s.len(),
{
    if s.len() >= tok.len() {
        assert(!matches_at(s, tok, 0));
        assert forall|i: int| !matches_at(s.skip(1), tok, i) by {
            if i >= 0 {
                lemma_match_shift_down(s, tok, i + 1);
                assert(!matches_at(s, tok, i + 1));
            }
        }
        lemma_replace_without_match_keeps_text(s.skip(1), tok, rep);
        assert(replace_all(s, tok, rep) =~= s);
    }
}

/// Law: in a text that contains the token exactly once, substitution
/// replaces precisely that occurrence: the text decomposes as
/// `a + tok + b` and the result is `a + rep + b`.
pub proof fn lemma_single_occurrence_substitution(
    a: Seq<char>,
    tok: Seq<char>,
    b: Seq<char>,
    rep: Seq<char>,
)
    requires
        tok.len() >= 1,
        match_count(a + tok + b, tok) == 1,
    ensures
        replace_all(a + tok + b, tok, rep) == a + rep + b,
    decreases a.len(),
{
    let t = a + tok + b;
    assert(matches_at(t, tok, a.len() as int)) by {
        assert(t.subrange(a.len() as int, (a.len() + tok.len()) as int) =~= tok);
    }
    if a.len() == 0 {
        assert(t.subrange(0, tok.len() as int) =~= tok);
        assert(replace_all(t, tok, rep) == rep + replace_all(t.skip(tok.len() as int), tok, rep));
        assert(t.skip(tok.len() as int) =~= b);
        assert forall|i: int| !matches_at(b, tok, i) by {
            if matches_at(b, tok, i) {
                lemma_match_lift(tok, b, tok, i);
                assert(tok + b =~= t);
                assert(matches_at(t, tok, tok.len() + i));
                lemma_two_matches(t, tok, 0, tok.len() + i);
            }
        }
        lemma_replace_without_match_keeps_text(b, tok, rep);
        assert(replace_all(t, tok, rep) =~= a + rep + b);
    } else {
        if matches_at(t, tok, 0) {
            lemma_two_matches(t, tok, 0, a.len() as int);
            assert(false);
        }
        assert(t.subrange(0, tok.len() as int) != tok);
        assert(t.len() >= tok.len());
        assert(replace_all(t, tok, rep) == seq![t[0]] + replace_all(t.skip(1), tok, rep));
        assert(t.skip(1) =~= a.skip(1) + tok + b);
        assert(match_count(t.skip(1), tok) == 1);
        lemma_single_occurrence_substitution(a.skip(1), tok, b, rep);
        assert(replace_all(t, tok, rep) =~= a + rep + b) by {
            assert(t[0] == a[0]);
            assert(a =~= seq![a[0]] + a.skip(1));
        }
    }
}

/// Law: if the text contains the token exactly once and no character of the
/// replacement occurs in the token, the substituted text contains the token
/// nowhere — neither inside the pieces nor across a splice boundary.
pub proof fn lemma_substitution_removes_token(
    a: Seq<char>,
    tok: Seq<char>,
    b: Seq<char>,
    rep: Seq<char>,
)
    requires
        tok.len() >= 1,
        rep.len() >= 1,
        match_count(a + tok + b, tok) == 1,
        forall|k: int, l: int| 0 <= k < rep.len() && 0 <= l < tok.len() ==> rep[k] != tok[l],
    ensures
        match_count(a + rep + b, tok) == 0,
{
    let t = a + tok + b;
    let u = a + rep + b;
    assert(matches_at(t, tok, a.len() as int)) by {
        assert(t.subrange(a.len() as int, (a.len() + tok.len()) as int) =~= tok);
    }
    assert forall|i: int| !matches_at(u, tok, i) by {
        if matches_at(u, tok, i) {
            if i + tok.len() <= a.len() {
                // the occurrence lies inside `a`, so the original text has a
                // second occurrence there
                assert(matches_at(t, tok, i)) by {
                    assert(t.subrange(i, i + tok.len()) =~= u.subrange(i, i + tok.len()));
                }
                lemma_two_matches(t, tok, i, a.len() as int);
            } else if i >= a.len() + rep.len() {
                // the occurrence lies inside `b`
                let j = i - a.len() - rep.len();
                assert(matches_at(b, tok, j)) by {
                    assert(b.subrange(j, j + tok.len()) =~= u.subrange(i, i + tok.len()));
                }
                lemma_match_lift(a + tok, b, tok, j);
                assert((a + tok) + b =~= t);
                assert(matches_at(t, tok, a.len() + tok.len() + j));
                lemma_two_matches(t, tok, a.len() as int, a.len() + tok.len() + j);
            } else {
                // the occurrence overlaps the replacement, so some character
                // of `rep` equals a character of `tok`
                let p = if i >= a.len() {
                    i
                } else {
                    a.len() as int
                };
                assert(a.len() <= p < a.len() + rep.len());
                assert(i <= p < i + tok.len());
                assert(u[p] == rep[p - a.len()]);
                assert(u.subrange(i, i + tok.len()) == tok);
                assert(u.subrange(i, i + tok.len())[p - i] == u[p]);
                assert(u[p] == tok[p - i]);
                assert(false);
            }
        }
    }
    lemma_match_count_zero_iff(u, tok);
}

} // verus!
