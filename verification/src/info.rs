//! The info-string classifier.
//!
//! The info string of a fenced code block is tokenized by splitting on every
//! character that is not alphanumeric, `_` or `-`; the recognized tokens set
//! directives, every other token marks the block as belonging to some other
//! language.  A block is a test candidate exactly when at least one
//! recognized token was present, or no other tag was present at all — this
//! keeps bare fenced blocks eligible while skipping blocks tagged for other
//! languages, and must be preserved exactly.

use vstd::prelude::*;
use crate::chars::{charss_view, chars_eq_str, is_ascii_alnum, str_to_chars, string_from_chars,
    strs_view};

verus! {

/// What `char::is_alphanumeric` returns; a function of the character alone.
pub uninterp spec fn is_unicode_alnum(c: char) -> bool;

/// Relies on `char::is_alphanumeric`: deterministic per character, and on
/// ASCII characters it holds exactly for the letters and digits.
#[verifier::external_body]
fn char_is_alphanumeric(c: char) -> (r: bool)
    ensures
        r == is_unicode_alnum(c),
        (c as u32) < 128 ==> r == is_ascii_alnum(c),
{
    c.is_alphanumeric()
}

/// A character that continues a token rather than separating tokens.
pub open spec fn is_token_char(c: char) -> bool {
    c == '_' || c == '-' || is_unicode_alnum(c)
}

/// Tokenizer state: the finished tokens, and the (possibly empty) token
/// being collected.
pub open spec fn token_step(acc: (Seq<Seq<char>>, Seq<char>), c: char) -> (Seq<Seq<char>>, Seq<char>) {
    if is_token_char(c) {
        (acc.0, acc.1.push(c))
    } else if acc.1.len() > 0 {
        (acc.0.push(acc.1), Seq::empty())
    } else {
        acc
    }
}

/// The tokenizer run over the first `i` characters of `s`.
pub open spec fn token_fold(s: Seq<char>, i: int) -> (Seq<Seq<char>>, Seq<char>)
    decreases i,
{
    if i <= 0 {
        (Seq::empty(), Seq::empty())
    } else {
        token_step(token_fold(s, i - 1), s[i - 1])
    }
}

/// The non-empty tokens of an info string.
pub open spec fn tokens_of(s: Seq<char>) -> Seq<Seq<char>> {
    let f = token_fold(s, s.len() as int);
    if f.1.len() > 0 {
        f.0.push(f.1)
    } else {
        f.0
    }
}

/// The structured directive set mined from one info string.
pub struct CodeBlockInfo {
    /// The block is a test candidate.
    pub is_eligible: bool,
    /// Generate the test with a skip-execution annotation.
    pub ignore: bool,
    /// Compile the generated test but do not run it.
    pub no_run: bool,
    /// Generate the test with an expect-failure annotation.
    pub should_panic: bool,
    /// The block declares the document-wide unnamed template.
    pub is_legacy_template: bool,
    /// Name of the template the block asks to be wrapped in.
    pub named_template: Option<String>,
    /// Names of the combined-test groups the block belongs to.
    pub part_of: Vec<String>,
}

/// Mathematical image of [`CodeBlockInfo`].
#[verifier::ext_equal]
pub struct CodeBlockInfoV {
    pub is_eligible: bool,
    pub ignore: bool,
    pub no_run: bool,
    pub should_panic: bool,
    pub is_legacy_template: bool,
    pub named_template: Option<Seq<char>>,
    pub part_of: Seq<Seq<char>>,
}

impl View for CodeBlockInfo {
    type V = CodeBlockInfoV;

    open spec fn view(&self) -> CodeBlockInfoV {
        CodeBlockInfoV {
            is_eligible: self.is_eligible,
            ignore: self.ignore,
            no_run: self.no_run,
            should_panic: self.should_panic,
            is_legacy_template: self.is_legacy_template,
            named_template: match self.named_template {
                Some(ref t) => Some(t@),
                None => None,
            },
            part_of: strs_view(self.part_of@),
        }
    }
}

/// The directive set before any token is seen.
pub open spec fn empty_info() -> CodeBlockInfoV {
    CodeBlockInfoV {
        is_eligible: false,
        ignore: false,
        no_run: false,
        should_panic: false,
        is_legacy_template: false,
        named_template: None,
        part_of: Seq::empty(),
    }
}

/// Adds a combined-group name, keeping the collection a duplicate-free set
/// in first-seen order.
pub open spec fn add_group(g: Seq<Seq<char>>, t: Seq<char>) -> Seq<Seq<char>> {
    if g.contains(t) {
        g
    } else {
        g.push(t)
    }
}

/// Classifier state: directives so far, whether a recognized token was seen,
/// and whether an unrecognized tag was seen.
pub open spec fn classify_token(st: (CodeBlockInfoV, bool, bool), tok: Seq<char>) -> (CodeBlockInfoV, bool, bool) {
    if tok == "rust"@ {
        (st.0, true, st.2)
    } else if tok == "should_panic"@ {
        (CodeBlockInfoV { should_panic: true, ..st.0 }, true, st.2)
    } else if tok == "ignore"@ {
        (CodeBlockInfoV { ignore: true, ..st.0 }, true, st.2)
    } else if tok == "no_run"@ {
        (CodeBlockInfoV { no_run: true, ..st.0 }, true, st.2)
    } else if tok == "skeptic-template"@ {
        (CodeBlockInfoV { is_legacy_template: true, ..st.0 }, true, st.2)
    } else if tok.len() >= 11 && tok.take(11) == "sk-part-of-"@ {
        (CodeBlockInfoV { part_of: add_group(st.0.part_of, tok.skip(11)), ..st.0 }, true, st.2)
    } else if tok.len() >= 4 && tok.take(4) == "skt-"@ {
        (CodeBlockInfoV { named_template: Some(tok.skip(4)), ..st.0 }, true, st.2)
    } else {
        (st.0, st.1, true)
    }
}

/// The classifier run over the first `i` tokens.
pub open spec fn classify_fold(toks: Seq<Seq<char>>, i: int) -> (CodeBlockInfoV, bool, bool)
    decreases i,
{
    if i <= 0 {
        (empty_info(), false, false)
    } else {
        classify_token(classify_fold(toks, i - 1), toks[i - 1])
    }
}

/// What classifying an info string means: tokenize, apply each token, then
/// settle eligibility — a candidate needs a recognized token, or the absence
/// of any unrecognized one.
pub open spec fn parse_info_spec(s: Seq<char>) -> CodeBlockInfoV {
    let toks = tokens_of(s);
    let st = classify_fold(toks, toks.len() as int);
    CodeBlockInfoV { is_eligible: st.1 || !st.2, ..st.0 }
}

/// A token the classifier recognizes as a directive.
pub open spec fn recognized_token(t: Seq<char>) -> bool {
    ||| t == "rust"@
    ||| t == "should_panic"@
    ||| t == "ignore"@
    ||| t == "no_run"@
    ||| t == "skeptic-template"@
    ||| t.len() >= 11 && t.take(11) == "sk-part-of-"@
    ||| t.len() >= 4 && t.take(4) == "skt-"@
}

/// The classifier's two flags mean exactly this: some token so far was
/// recognized, and some token so far was not.
proof fn lemma_classify_flags(toks: Seq<Seq<char>>, i: int)
    requires
        0 <= i <= toks.len(),
    ensures
        classify_fold(toks, i).1 == exists|j: int|
            0 <= j < i && recognized_token(#[trigger] toks[j]),
        classify_fold(toks, i).2 == exists|j: int|
            0 <= j < i && !recognized_token(#[trigger] toks[j]),
    decreases i,
{
    if i > 0 {
        lemma_classify_flags(toks, i - 1);
        if recognized_token(toks[i - 1]) {
            assert(classify_fold(toks, i).1);
        }
        if classify_fold(toks, i).1 {
            if recognized_token(toks[i - 1]) {
                assert(0 <= i - 1 < i && recognized_token(toks[i - 1]));
            }
        }
        if classify_fold(toks, i).2 {
            if !recognized_token(toks[i - 1]) {
                assert(0 <= i - 1 < i && !recognized_token(toks[i - 1]));
            }
        }
    }
}

/// The eligibility rule, as one statement: a block is a candidate exactly
/// when its info string holds at least one recognized token, or no
/// unrecognized token at all — so a bare fence is a candidate, and a block
/// tagged only for another language is not.
pub proof fn lemma_eligibility(s: Seq<char>)
    ensures
        parse_info_spec(s).is_eligible == ((exists|j: int|
            0 <= j < tokens_of(s).len() && recognized_token(#[trigger] tokens_of(s)[j])) || (
        forall|j: int| 0 <= j < tokens_of(s).len() ==> recognized_token(#[trigger] tokens_of(s)[j]))),
{
    lemma_classify_flags(tokens_of(s), tokens_of(s).len() as int);
}

/// Whether `v` starts with the characters of `p`.
fn starts_with_str(v: &Vec<char>, p: &str) -> (r: bool)
    ensures
        r == (v@.len() >= p@.len() && v@.take(p@.len() as int) == p@),
{
    let k = p.unicode_len();
    if v.len() < k {
        return false;
    }
    let mut i: usize = 0;
    while i < k
        invariant
            k == p@.len(),
            v@.len() >= k,
            i <= k,
            forall|j: int| 0 <= j < i ==> v@[j] == p@[j],
        decreases k - i,
    {
        if v[i] != p.get_char(i) {
            return false;
        }
        i = i + 1;
    }
    proof {
        assert(v@.take(k as int) =~= p@);
    }
    true
}

/// The characters of `v` from position `k` on.
fn suffix_chars(v: &Vec<char>, k: usize) -> (r: Vec<char>)
    requires
        k <= v@.len(),
    ensures
        r@ == v@.skip(k as int),
{
    let mut r: Vec<char> = Vec::new();
    let mut i: usize = k;
    while i < v.len()
        invariant
            k <= i <= v@.len(),
            r@ == v@.subrange(k as int, i as int),
        decreases v@.len() - i,
    {
        r.push(v[i]);
        proof {
            assert(r@ =~= v@.subrange(k as int, i + 1));
        }
        i = i + 1;
    }
    proof {
        assert(v@.subrange(k as int, v@.len() as int) =~= v@.skip(k as int));
    }
    r
}

/// Whether one of the collected group names equals `t`.
fn groups_contain(g: &Vec<String>, t: &Vec<char>) -> (r: bool)
    ensures
        r == strs_view(g@).contains(t@),
{
    let mut i: usize = 0;
    while i < g.len()
        invariant
            i <= g@.len(),
            forall|j: int| 0 <= j < i ==> strs_view(g@)[j] != t@,
        decreases g@.len() - i,
    {
        if chars_eq_str(t, g[i].as_str()) {
            proof {
                assert(strs_view(g@)[i as int] == t@);
            }
            return true;
        }
        i = i + 1;
    }
    false
}

/// Tokenizes an info string.
fn tokenize(info: &str) -> (toks: Vec<Vec<char>>)
    ensures
        charss_view(toks@) == tokens_of(info@),
{
    let cs = str_to_chars(info);
    let mut toks: Vec<Vec<char>> = Vec::new();
    let mut cur: Vec<char> = Vec::new();
    let mut i: usize = 0;
    while i < cs.len()
        invariant
            cs@ == info@,
            i <= cs@.len(),
            (charss_view(toks@), cur@) == token_fold(info@, i as int),
        decreases cs@.len() - i,
    {
        let c = cs[i];
        if c == '_' || c == '-' || char_is_alphanumeric(c) {
            cur.push(c);
        } else if cur.len() > 0 {
            toks.push(cur);
            cur = Vec::new();
            proof {
                assert(charss_view(toks@) =~= token_fold(info@, i + 1).0);
            }
        }
        proof {
            assert(charss_view(toks@) =~= token_fold(info@, i + 1).0);
            assert(cur@ =~= token_fold(info@, i + 1).1);
        }
        i = i + 1;
    }
    if cur.len() > 0 {
        toks.push(cur);
        proof {
            assert(charss_view(toks@) =~= tokens_of(info@));
        }
    }
    proof {
        assert(charss_view(toks@) =~= tokens_of(info@));
    }
    toks
}

/// Parses a fenced block's info string into its directive set.
pub fn parse_code_block_info(info: &str) -> (r: CodeBlockInfo)
    ensures
        r@ == parse_info_spec(info@),
{
    let toks = tokenize(info);
    let mut out = CodeBlockInfo {
        is_eligible: false,
        ignore: false,
        no_run: false,
        should_panic: false,
        is_legacy_template: false,
        named_template: None,
        part_of: Vec::new(),
    };
    let mut seen_recognized: bool = false;
    let mut seen_other: bool = false;
    let ghost gtoks = charss_view(toks@);
    let mut i: usize = 0;
    while i < toks.len()
        invariant
            gtoks == charss_view(toks@),
            gtoks == tokens_of(info@),
            i <= gtoks.len(),
            out@.is_eligible == false,
            ({
                let st = classify_fold(gtoks, i as int);
                st.0 == CodeBlockInfoV { is_eligible: false, ..out@ }
                && st.1 == seen_recognized && st.2 == seen_other
            }),
        decreases gtoks.len() - i,
    {
        let tok = &toks[i];
        proof {
            assert(gtoks[i as int] == tok@);
        }
        if chars_eq_str(tok, "rust") {
            seen_recognized = true;
        } else if chars_eq_str(tok, "should_panic") {
            out.should_panic = true;
            seen_recognized = true;
        } else if chars_eq_str(tok, "ignore") {
            out.ignore = true;
            seen_recognized = true;
        } else if chars_eq_str(tok, "no_run") {
            out.no_run = true;
            seen_recognized = true;
        } else if chars_eq_str(tok, "skeptic-template") {
            out.is_legacy_template = true;
            seen_recognized = true;
        } else if starts_with_str(tok, "sk-part-of-") {
            proof {
                reveal_strlit("sk-part-of-");
            }
            let rest = suffix_chars(tok, 11);
            if !groups_contain(&out.part_of, &rest) {
                out.part_of.push(string_from_chars(&rest));
                proof {
                    assert(strs_view(out.part_of@) =~= add_group(classify_fold(gtoks, i as int).0.part_of, tok@.skip(11)));
                }
            }
            seen_recognized = true;
        } else if starts_with_str(tok, "skt-") {
            proof {
                reveal_strlit("skt-");
            }
            let rest = suffix_chars(tok, 4);
            out.named_template = Some(string_from_chars(&rest));
            seen_recognized = true;
        } else {
            seen_other = true;
        }
        proof {
            assert(classify_fold(gtoks, i + 1).0 =~= CodeBlockInfoV { is_eligible: false, ..out@ });
        }
        i = i + 1;
    }
    out.is_eligible = seen_recognized || !seen_other;
    proof {
        assert(out@ =~= parse_info_spec(info@));
    }
    out
}

} // verus!
