//! The test-name sanitizer: arbitrary header or file-name text becomes a safe
//! identifier fragment.
//!
//! Every character that is not an ASCII letter or digit becomes an
//! underscore, upper-case ASCII letters are lowered, runs of underscores
//! collapse to a single one, and leading and trailing underscores are
//! dropped.

use vstd::prelude::*;
use crate::chars::{ascii_alnum, is_ascii_alnum, is_upper_char, lower_char, str_to_chars,
    string_from_chars, to_lower_char};

verus! {

/// One character after normalisation: lower-cased if it is an ASCII letter
/// or digit, an underscore otherwise.
pub open spec fn norm_char(c: char) -> char {
    if is_ascii_alnum(c) {
        to_lower_char(c)
    } else {
        '_'
    }
}

/// State of the sanitizing pass: the output so far, and whether an
/// underscore is owed before the next kept character.
pub open spec fn sanitize_step(acc: (Seq<char>, bool), c: char) -> (Seq<char>, bool) {
    let n = norm_char(c);
    if n == '_' {
        (acc.0, acc.0.len() > 0)
    } else if acc.1 {
        (acc.0 + seq!['_', n], false)
    } else {
        (acc.0.push(n), false)
    }
}

/// The sanitizing pass over the first `i` characters of `s`.
pub open spec fn sanitize_fold(s: Seq<char>, i: int) -> (Seq<char>, bool)
    decreases i,
{
    if i <= 0 {
        (Seq::empty(), false)
    } else {
        sanitize_step(sanitize_fold(s, i - 1), s[i - 1])
    }
}

/// What sanitizing means: normalise each character, collapse underscore
/// runs, and trim underscores at both ends.
pub open spec fn sanitize_spec(s: Seq<char>) -> Seq<char> {
    sanitize_fold(s, s.len() as int).0
}

/// The shape every sanitizer output has: only lower-case ASCII alphanumerics
/// and single interior underscores.
pub open spec fn is_sanitized(t: Seq<char>) -> bool {
    &&& forall|i: int| 0 <= i < t.len() ==> (is_ascii_alnum(#[trigger] t[i]) && !is_upper_char(t[i])) || t[i] == '_'
    &&& t.len() > 0 ==> t[0] != '_' && t[t.len() - 1] != '_'
    &&& forall|i: int| 0 <= i < t.len() - 1 ==> !(#[trigger] t[i] == '_' && t[i + 1] == '_')
}

/// Maps arbitrary text to an identifier-safe fragment.
pub fn sanitize_test_name(s: &str) -> (r: String)
    ensures
        r@ == sanitize_spec(s@),
{
    let cs = str_to_chars(s);
    let out = sanitize_chars(&cs);
    string_from_chars(&out)
}

/// Character-level core of [`sanitize_test_name`].
pub fn sanitize_chars(cs: &Vec<char>) -> (r: Vec<char>)
    ensures
        r@ == sanitize_spec(cs@),
{
    let mut out: Vec<char> = Vec::new();
    let mut pending: bool = false;
    let mut i: usize = 0;
    while i < cs.len()
        invariant
            i <= cs@.len(),
            (out@, pending) == sanitize_fold(cs@, i as int),
        decreases cs@.len() - i,
    {
        let c = cs[i];
        let n = if ascii_alnum(c) {
            lower_char(c)
        } else {
            '_'
        };
        assert(n == norm_char(c));
        if n == '_' {
            pending = out.len() > 0;
        } else {
            if pending {
                out.push('_');
                pending = false;
            }
            out.push(n);
            proof {
                assert(out@ =~= sanitize_fold(cs@, i + 1).0);
            }
        }
        i = i + 1;
    }
    out
}

/// Every intermediate output of the pass is already in sanitized shape, and
/// never ends in an underscore.
proof fn lemma_fold_sanitized(s: Seq<char>, i: int)
    requires
        0 <= i <= s.len(),
    ensures
        is_sanitized(sanitize_fold(s, i).0),
        sanitize_fold(s, i).0.len() > 0 ==> sanitize_fold(s, i).0.last() != '_',
        sanitize_fold(s, i).1 ==> sanitize_fold(s, i).0.len() > 0,
    decreases i,
{
    if i > 0 {
        lemma_fold_sanitized(s, i - 1);
        let prev = sanitize_fold(s, i - 1);
        let n = norm_char(s[i - 1]);
        if n != '_' {
            assert(is_ascii_alnum(n) && !is_upper_char(n));
        }
    }
}

/// On input that is already sanitized, the pass reproduces its input: after
/// `i` characters the output is the prefix up to the last kept character.
proof fn lemma_fold_fixed(t: Seq<char>, i: int)
    requires
        is_sanitized(t),
        0 <= i <= t.len(),
    ensures
        i == 0 || t[i - 1] != '_' ==> sanitize_fold(t, i) == (t.take(i), false),
        i > 0 && t[i - 1] == '_' ==> sanitize_fold(t, i) == (t.take(i - 1), true),
    decreases i,
{
    if i > 0 {
        lemma_fold_fixed(t, i - 1);
        let c = t[i - 1];
        assert(norm_char(c) == c);
        if c == '_' {
            assert(i >= 2) by {
                assert(t[0] != '_');
            }
            assert(t[i - 2] != '_');
            assert(sanitize_fold(t, i - 1) == (t.take(i - 1), false));
            assert(t.take(i - 1).len() > 0);
        } else {
            if i == 1 || t[i - 2] != '_' {
                assert(sanitize_fold(t, i - 1) == (t.take(i - 1), false));
                assert(t.take(i - 1).push(c) =~= t.take(i));
            } else {
                assert(sanitize_fold(t, i - 1) == (t.take(i - 2), true));
                assert(t.take(i - 2) + seq!['_', c] =~= t.take(i));
            }
        }
    }
}

/// Sanitizing is idempotent: a second pass over sanitized text returns it
/// unchanged.
pub proof fn lemma_sanitize_idempotent(s: Seq<char>)
    ensures
        sanitize_spec(sanitize_spec(s)) == sanitize_spec(s),
{
    let t = sanitize_spec(s);
    lemma_fold_sanitized(s, s.len() as int);
    assert(is_sanitized(t));
    lemma_fold_fixed(t, t.len() as int);
    if t.len() > 0 {
        assert(t.last() != '_');
    }
    assert(t.take(t.len() as int) =~= t);
}

} // verus!
