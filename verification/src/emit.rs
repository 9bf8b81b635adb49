//! Text-building primitives of the source emitter.
//!
//! Embedded user code goes into raw string literals whose delimiter is
//! chosen so that it cannot occur in the content: the number of hash marks
//! exceeds every hash run in the content.  Template substitution follows
//! format-string reading: `{}` is the placeholder, `{{` and `}}` are escaped
//! braces.

use vstd::prelude::*;
use crate::chars::{push_str_chars, str_eq_str, string_from_chars, str_to_chars};

verus! {

// ---------------------------------------------------------------------------
// Raw string literals
// ---------------------------------------------------------------------------

/// Hash-run scan state: the length of the current run of `#` and the
/// longest run seen.
pub open spec fn hash_step(acc: (nat, nat), c: char) -> (nat, nat) {
    if c == '#' {
        ((acc.0 + 1) as nat, if acc.0 + 1 > acc.1 {
            (acc.0 + 1) as nat
        } else {
            acc.1
        })
    } else {
        (0, acc.1)
    }
}

/// The scan over the first `i` characters of `s`.
pub open spec fn hash_fold(s: Seq<char>, i: int) -> (nat, nat)
    decreases i,
{
    if i <= 0 {
        (0, 0)
    } else {
        hash_step(hash_fold(s, i - 1), s[i - 1])
    }
}

/// The longest run of `#` in `s`.
pub open spec fn max_hash_run(s: Seq<char>) -> nat {
    hash_fold(s, s.len() as int).1
}

/// How many hash marks the literal around `s` uses: more than any run in
/// `s`, at least four, and capped at the largest representable count (a
/// text reaching that cap cannot exist in memory).
pub open spec fn literal_hashes(s: Seq<char>) -> nat {
    if max_hash_run(s) + 1 < 4 {
        4
    } else if max_hash_run(s) + 1 > usize::MAX {
        usize::MAX as nat
    } else {
        max_hash_run(s) + 1
    }
}

/// `k` hash marks.
pub open spec fn hashes(k: nat) -> Seq<char> {
    Seq::new(k, |i: int| '#')
}

/// The raw string literal embedding `s`.
pub open spec fn raw_literal_spec(s: Seq<char>) -> Seq<char> {
    seq!['r'] + hashes(literal_hashes(s)) + seq!['"'] + s + seq!['"'] + hashes(literal_hashes(s))
}

/// No closing delimiter of width `k` occurs inside `s`: after any quote,
/// one of the next `k` characters is not a hash mark.
pub open spec fn delimiter_free(s: Seq<char>, k: nat) -> bool {
    forall|j: int|
        0 <= j && j + k < s.len() && #[trigger] s[j] == '"' ==> exists|m: int|
            j < m <= j + k && s[m] != '#'
}

/// The current run never exceeds the maximum.
proof fn lemma_hash_cur_le_max(s: Seq<char>, i: int)
    requires
        0 <= i <= s.len(),
    ensures
        hash_fold(s, i).0 <= hash_fold(s, i).1,
    decreases i,
{
    if i > 0 {
        lemma_hash_cur_le_max(s, i - 1);
    }
}

/// The maximum only grows along the scan.
proof fn lemma_hash_max_mono(s: Seq<char>, i: int, j: int)
    requires
        0 <= i <= j <= s.len(),
    ensures
        hash_fold(s, i).1 <= hash_fold(s, j).1,
    decreases j - i,
{
    if i < j {
        lemma_hash_max_mono(s, i, j - 1);
    }
}

/// A block of hash marks forces a run at least that long.
proof fn lemma_hash_run_lower(s: Seq<char>, a: int, b: int)
    requires
        0 <= a <= b <= s.len(),
        forall|m: int| a <= m < b ==> #[trigger] s[m] == '#',
    ensures
        hash_fold(s, b).0 >= b - a,
    decreases b - a,
{
    if b > a {
        lemma_hash_run_lower(s, a, b - 1);
    }
}

/// The emitter's escaping is sound: with more hash marks than any run in
/// the content, the closing delimiter cannot occur inside the content.
pub proof fn lemma_raw_literal_delimiter_free(s: Seq<char>, k: nat)
    requires
        k > max_hash_run(s),
    ensures
        delimiter_free(s, k),
{
    assert forall|j: int| 0 <= j && j + k < s.len() && #[trigger] s[j] == '"' implies exists|m: int|
        j < m <= j + k && s[m] != '#' by {
        if !(exists|m: int| j < m <= j + k && s[m] != '#') {
            assert forall|m: int| j + 1 <= m < j + 1 + k implies #[trigger] s[m] == '#' by {
                if s[m] != '#' {
                    assert(j < m <= j + k && s[m] != '#');
                }
            }
            lemma_hash_run_lower(s, j + 1, j + 1 + k);
            lemma_hash_cur_le_max(s, j + 1 + k);
            lemma_hash_max_mono(s, j + 1 + k, s.len() as int);
            assert(false);
        }
    }
}

/// Renders `s` as a raw string literal whose delimiter cannot collide with
/// the content.
pub fn raw_literal(s: &str) -> (r: String)
    ensures
        r@ == raw_literal_spec(s@),
{
    let n = s.unicode_len();
    let mut cur: usize = 0;
    // the longest hash run plus one, saturating at the representable cap
    let mut maxp1: usize = 1;
    let mut i: usize = 0;
    while i < n
        invariant
            n == s@.len(),
            i <= n,
            cur <= i,
            cur as nat == hash_fold(s@, i as int).0,
            maxp1 as nat == if hash_fold(s@, i as int).1 + 1 > usize::MAX {
                usize::MAX as nat
            } else {
                hash_fold(s@, i as int).1 + 1
            },
        decreases n - i,
    {
        if s.get_char(i) == '#' {
            cur = cur + 1;
            if cur >= maxp1 {
                maxp1 = if cur == usize::MAX {
                    usize::MAX
                } else {
                    cur + 1
                };
            }
        } else {
            cur = 0;
        }
        i = i + 1;
    }
    let k = if maxp1 < 4 {
        4
    } else {
        maxp1
    };
    proof {
        assert(k as nat == literal_hashes(s@));
    }
    let mut v: Vec<char> = Vec::new();
    v.push('r');
    let mut h: usize = 0;
    while h < k
        invariant
            h <= k,
            v@ == seq!['r'] + hashes(h as nat),
        decreases k - h,
    {
        v.push('#');
        proof {
            assert(v@ =~= seq!['r'] + hashes((h + 1) as nat));
        }
        h = h + 1;
    }
    v.push('"');
    push_str_chars(&mut v, s);
    v.push('"');
    let ghost mid = v@;
    let mut h2: usize = 0;
    while h2 < k
        invariant
            h2 <= k,
            v@ == mid + hashes(h2 as nat),
        decreases k - h2,
    {
        v.push('#');
        proof {
            assert(v@ =~= mid + hashes((h2 + 1) as nat));
        }
        h2 = h2 + 1;
    }
    proof {
        assert(v@ =~= raw_literal_spec(s@));
    }
    string_from_chars(&v)
}

// ---------------------------------------------------------------------------
// Template substitution
// ---------------------------------------------------------------------------

/// Format-string substitution from position `i` on: `{}` becomes `arg`,
/// `{{` and `}}` become single braces, everything else passes through.
pub open spec fn subst_spec(t: Seq<char>, arg: Seq<char>, i: int) -> Seq<char>
    decreases t.len() - i,
{
    if i < 0 || i >= t.len() {
        Seq::empty()
    } else if t[i] == '{' && i + 1 < t.len() && t[i + 1] == '{' {
        seq!['{'] + subst_spec(t, arg, i + 2)
    } else if t[i] == '{' && i + 1 < t.len() && t[i + 1] == '}' {
        arg + subst_spec(t, arg, i + 2)
    } else if t[i] == '}' && i + 1 < t.len() && t[i + 1] == '}' {
        seq!['}'] + subst_spec(t, arg, i + 2)
    } else {
        seq![t[i]] + subst_spec(t, arg, i + 1)
    }
}

/// Applies a template to an argument: the placeholder is replaced, escaped
/// braces are unescaped.
pub fn apply_template(template: &str, arg: &str) -> (r: String)
    ensures
        r@ == subst_spec(template@, arg@, 0),
{
    let t = str_to_chars(template);
    let n = t.len();
    let mut out: Vec<char> = Vec::new();
    let mut i: usize = 0;
    while i < n
        invariant
            t@ == template@,
            n == t@.len(),
            i <= n,
            subst_spec(template@, arg@, 0) == out@ + subst_spec(template@, arg@, i as int),
        decreases n - i,
    {
        let ghost pre = out@;
        let c = t[i];
        if c == '{' && i + 1 < n && t[i + 1] == '{' {
            out.push('{');
            proof {
                assert(out@ =~= pre + seq!['{']);
                assert(subst_spec(template@, arg@, 0) =~= out@ + subst_spec(template@, arg@, i + 2));
            }
            i = i + 2;
        } else if c == '{' && i + 1 < n && t[i + 1] == '}' {
            push_str_chars(&mut out, arg);
            proof {
                assert(subst_spec(template@, arg@, 0) =~= out@ + subst_spec(template@, arg@, i + 2));
            }
            i = i + 2;
        } else if c == '}' && i + 1 < n && t[i + 1] == '}' {
            out.push('}');
            proof {
                assert(out@ =~= pre + seq!['}']);
                assert(subst_spec(template@, arg@, 0) =~= out@ + subst_spec(template@, arg@, i + 2));
            }
            i = i + 2;
        } else {
            out.push(c);
            proof {
                assert(out@ =~= pre + seq![t@[i as int]]);
                assert(subst_spec(template@, arg@, 0) =~= out@ + subst_spec(template@, arg@, i + 1));
            }
            i = i + 1;
        }
    }
    proof {
        assert(subst_spec(template@, arg@, n as int) =~= Seq::<char>::empty());
        assert(out@ =~= out@ + Seq::<char>::empty());
    }
    string_from_chars(&out)
}

// ---------------------------------------------------------------------------
// Idempotent writes
// ---------------------------------------------------------------------------

/// Whether the output file must be (re)written: only when there is no
/// previous content or the previous content differs byte for byte.
pub open spec fn should_write_spec(existing: Option<Seq<char>>, next: Seq<char>) -> bool {
    match existing {
        Some(prev) => prev != next,
        None => true,
    }
}

/// Decides whether to write the generated output over what is already
/// there: an unchanged file is left untouched, keeping its timestamp.
pub fn should_write(existing: Option<&str>, next: &str) -> (r: bool)
    ensures
        r == should_write_spec(
            match existing {
                Some(e) => Some(e@),
                None => None,
            },
            next@,
        ),
{
    match existing {
        Some(e) => !str_eq_str(e, next),
        None => true,
    }
}

/// Generating twice from unchanged input gives byte-identical output, and
/// the second result is never written over the first.
pub proof fn lemma_idempotent_output(prev: Seq<char>, next: Seq<char>)
    ensures
        prev == next ==> !should_write_spec(Some(prev), next),
{
}

} // verus!
