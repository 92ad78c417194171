//! Escaping of attack payloads before they are spliced into a JSON string
//! literal.
//!
//! A payload that ends in a single, undoubled backslash would escape the
//! closing quote of the JSON string it is spliced into and corrupt the whole
//! document. For such payloads every backslash is doubled first; in every
//! case each double quote is then prefixed with a backslash. This is a
//! conservative splice guard, not general JSON-string escaping: tabs,
//! newlines and other control characters pass through unchanged.

use vstd::prelude::*;
use vstd::string::StrSliceExecFns;
use vstd::string::StringExecFns;

verus! {

/// What the backslash-doubling pass emits for one character.
pub open spec fn doubled_backslash_char(c: char) -> Seq<char> {
    if c == '\\' {
        seq!['\\', '\\']
    } else {
        seq![c]
    }
}

/// Every backslash replaced by two backslashes; all other characters kept.
pub open spec fn double_backslashes(s: Seq<char>) -> Seq<char>
    decreases s.len(),
{
    if s.len() == 0 {
        Seq::empty()
    } else {
        double_backslashes(s.drop_last()) + doubled_backslash_char(s.last())
    }
}

/// What the quote-escaping pass emits for one character.
pub open spec fn quote_escaped_char(c: char) -> Seq<char> {
    if c == '"' {
        seq!['\\', '"']
    } else {
        seq![c]
    }
}

/// Every double quote prefixed with a backslash; all other characters kept.
pub open spec fn escape_quotes(s: Seq<char>) -> Seq<char>
    decreases s.len(),
{
    if s.len() == 0 {
        Seq::empty()
    } else {
        escape_quotes(s.drop_last()) + quote_escaped_char(s.last())
    }
}

/// The payload ends with a backslash that is not itself preceded by a
/// backslash, so splicing it into a JSON string would escape the closing
/// quote.
pub open spec fn has_dangling_backslash(s: Seq<char>) -> bool {
    &&& s.len() >= 1
    &&& s[s.len() - 1] == '\\'
    &&& !(s.len() >= 2 && s[s.len() - 2] == '\\')
}

/// The escaped form of a payload: backslashes are doubled first only when
/// the payload ends in a dangling backslash; double quotes are always
/// prefixed with a backslash.
pub open spec fn escaped_payload(s: Seq<char>) -> Seq<char> {
    if has_dangling_backslash(s) {
        escape_quotes(double_backslashes(s))
    } else {
        escape_quotes(s)
    }
}

fn double_backslashes_exec(s: &str) -> (r: String)
    ensures
        r@ == double_backslashes(s@),
{
    let n = s.unicode_len();
    let mut out = String::new();
    let mut i: usize = 0;
    while i < n
        invariant
            i <= n,
            n == s@.len(),
            out@ == double_backslashes(s@.take(i as int)),
        decreases n - i,
    {
        proof {
            reveal_strlit("\\\\");
        }
        let c = s.get_char(i);
        if c == '\\' {
            out.append("\\\\");
        } else {
            let piece = s.substring_char(i, i + 1);
            proof {
                assert(piece@ =~= seq![s@[i as int]]);
            }
            out.append(piece);
        }
        proof {
            let pre = s@.take(i as int);
            let ext = s@.take(i + 1 as int);
            assert(ext.drop_last() =~= pre);
            assert(ext.last() == s@[i as int]);
            assert(out@ =~= double_backslashes(pre) + doubled_backslash_char(s@[i as int]));
        }
        i = i + 1;
    }
    proof {
        assert(s@.take(n as int) =~= s@);
    }
    out
}

fn escape_quotes_exec(s: &str) -> (r: String)
    ensures
        r@ == escape_quotes(s@),
{
    let n = s.unicode_len();
    let mut out = String::new();
    let mut i: usize = 0;
    while i < n
        invariant
            i <= n,
            n == s@.len(),
            out@ == escape_quotes(s@.take(i as int)),
        decreases n - i,
    {
        proof {
            reveal_strlit("\\\"");
        }
        let c = s.get_char(i);
        if c == '"' {
            out.append("\\\"");
        } else {
            let piece = s.substring_char(i, i + 1);
            proof {
                assert(piece@ =~= seq![s@[i as int]]);
            }
            out.append(piece);
        }
        proof {
            let pre = s@.take(i as int);
            let ext = s@.take(i + 1 as int);
            assert(ext.drop_last() =~= pre);
            assert(ext.last() == s@[i as int]);
            assert(out@ =~= escape_quotes(pre) + quote_escaped_char(s@[i as int]));
        }
        i = i + 1;
    }
    proof {
        assert(s@.take(n as int) =~= s@);
    }
    out
}

/// Escapes an attack payload so it can be spliced into a JSON string
/// literal. Total: every payload is accepted.
pub fn escape(payload: &str) -> (r: String)
    ensures
        r@ == escaped_payload(payload@),
{
    let n = payload.unicode_len();
    let dangling = if n >= 1 && payload.get_char(n - 1) == '\\' {
        !(n >= 2 && payload.get_char(n - 2) == '\\')
    } else {
        false
    };
    assert(dangling == has_dangling_backslash(payload@));
    if dangling {
        let doubled = double_backslashes_exec(payload);
        escape_quotes_exec(doubled.as_str())
    } else {
        escape_quotes_exec(payload)
    }
}

/// Law: in an escaped payload every double quote is preceded by a
/// backslash, whichever passes ran.
pub proof fn lemma_escape_quotes_guarded(s: Seq<char>)
    ensures
        forall|i: int|
            0 <= i < escape_quotes(s).len() && #[trigger] escape_quotes(s)[i] == '"' ==> i >= 1
                && escape_quotes(s)[i - 1] == '\\',
    decreases s.len(),
{
    if s.len() > 0 {
        lemma_escape_quotes_guarded(s.drop_last());
        let p = escape_quotes(s.drop_last());
        let t = quote_escaped_char(s.last());
        assert(escape_quotes(s) == p + t);
        assert forall|i: int|
            0 <= i < escape_quotes(s).len() && #[trigger] escape_quotes(s)[i] == '"' implies i >= 1
            && escape_quotes(s)[i - 1] == '\\' by {
            if i < p.len() {
                assert(escape_quotes(s)[i] == p[i]);
                if i >= 1 {
                    assert(escape_quotes(s)[i - 1] == p[i - 1]);
                }
            } else {
                if s.last() == '"' {
                    assert(t =~= seq!['\\', '"']);
                    if i == p.len() {
                        assert(escape_quotes(s)[i] == '\\');
                    } else {
                        assert(i == p.len() + 1);
                        assert(escape_quotes(s)[i - 1] == '\\');
                    }
                } else {
                    assert(t =~= seq![s.last()]);
                    assert(escape_quotes(s)[i] == s.last());
                }
            }
        }
    }
}

/// Law: whatever the payload, every double quote in the escaped result is
/// preceded by a backslash.
pub proof fn lemma_escaped_payload_quotes_guarded(s: Seq<char>)
    ensures
        forall|i: int|
            0 <= i < escaped_payload(s).len() && #[trigger] escaped_payload(s)[i] == '"' ==> i >= 1
                && escaped_payload(s)[i - 1] == '\\',
{
    if has_dangling_backslash(s) {
        lemma_escape_quotes_guarded(double_backslashes(s));
    } else {
        lemma_escape_quotes_guarded(s);
    }
}

/// Law: a payload ending in a dangling backslash is escaped to a string
/// that ends in a doubled backslash.
pub proof fn lemma_escaped_dangling_tail(s: Seq<char>)
    requires
        has_dangling_backslash(s),
    ensures
        escaped_payload(s).len() >= 2,
        escaped_payload(s)[escaped_payload(s).len() - 1] == '\\',
        escaped_payload(s)[escaped_payload(s).len() - 2] == '\\',
{
    let d = double_backslashes(s);
    assert(d == double_backslashes(s.drop_last()) + seq!['\\', '\\']);
    assert(d.len() >= 2);
    assert(d.last() == '\\');
    assert(d[d.len() - 2] == '\\');
    let e = escape_quotes(d);
    assert(e == escape_quotes(d.drop_last()) + seq!['\\']);
    let d2 = d.drop_last();
    assert(d2.last() == '\\');
    assert(escape_quotes(d2) == escape_quotes(d2.drop_last()) + seq!['\\']);
}

/// Law: a payload without double quotes passes the quote-escaping step
/// unchanged; in particular a payload with no dangling backslash and no
/// double quotes is not changed at all.
pub proof fn lemma_escape_without_quotes(s: Seq<char>)
    requires
        forall|i: int| 0 <= i < s.len() ==> s[i] != '"',
    ensures
        escape_quotes(s) == s,
    decreases s.len(),
{
    if s.len() == 0 {
        assert(escape_quotes(s) =~= s);
    } else {
        lemma_escape_without_quotes(s.drop_last());
        assert(s.last() != '"');
        assert(escape_quotes(s) =~= s.drop_last() + seq![s.last()]);
        assert(escape_quotes(s) =~= s);
    }
}

} // verus!
