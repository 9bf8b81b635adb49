//! Cleaning of documentation-omission markers.
//!
//! Like rustdoc, a code line whose first non-blank characters are `# ` is
//! kept in the compiled test but hidden from rendered documentation; the
//! marker is stripped here.  A line holding a single bare `#` becomes an
//! empty line.

use vstd::prelude::*;
use crate::chars::{push_str_chars, string_from_chars, strs_view};

verus! {

/// The characters with the Unicode White_Space property — what
/// `char::is_whitespace` recognises: the ASCII blanks, NEL, NBSP, the Ogham
/// space mark, the fixed-width spaces, the line and paragraph separators,
/// the narrow and medium mathematical spaces, and the ideographic space.
pub open spec fn is_wspace(c: char) -> bool {
    ||| 9 <= c as u32 <= 13
    ||| c as u32 == 32
    ||| c as u32 == 0x85
    ||| c as u32 == 0xA0
    ||| c as u32 == 0x1680
    ||| 0x2000 <= c as u32 <= 0x200A
    ||| c as u32 == 0x2028
    ||| c as u32 == 0x2029
    ||| c as u32 == 0x202F
    ||| c as u32 == 0x205F
    ||| c as u32 == 0x3000
}

/// Index of the first character of `s` at or after `i` that is not
/// whitespace, or the length if there is none.
pub open spec fn first_non_ws(s: Seq<char>, i: int) -> int
    decreases s.len() - i,
{
    if i < 0 || i >= s.len() {
        s.len() as int
    } else if !is_wspace(s[i]) {
        i
    } else {
        first_non_ws(s, i + 1)
    }
}

/// What cleaning one line means.  With `t` the line after leading
/// whitespace: a line starting `# ` loses that marker (and its leading
/// whitespace), a line that is exactly `#` up to whitespace loses the `#`
/// (and leading whitespace), every other line is unchanged.
pub open spec fn clean_spec(s: Seq<char>) -> Seq<char> {
    let b = first_non_ws(s, 0);
    let t = s.subrange(b, s.len() as int);
    if t.len() >= 2 && t[0] == '#' && t[1] == ' ' {
        s.subrange(b + 2, s.len() as int)
    } else if t.len() >= 1 && t[0] == '#' && (forall|j: int| 1 <= j < t.len() ==> is_wspace(#[trigger] t[j])) {
        s.subrange(b + 1, s.len() as int)
    } else {
        s
    }
}

/// Executable test for [`is_wspace`].
pub(crate) fn wspace(c: char) -> (r: bool)
    ensures
        r == is_wspace(c),
{
    let u = c as u32;
    (9 <= u && u <= 13) || u == 32 || u == 0x85 || u == 0xA0 || u == 0x1680 || (0x2000 <= u && u
        <= 0x200A) || u == 0x2028 || u == 0x2029 || u == 0x202F || u == 0x205F || u == 0x3000
}

/// Strips a leading omission marker from one line of code, as rustdoc does.
pub fn clean_omitted_line<'a>(line: &'a str) -> (r: &'a str)
    ensures
        r@ == clean_spec(line@),
{
    let n = line.unicode_len();
    let mut b: usize = 0;
    while b < n && wspace(line.get_char(b))
        invariant
            n == line@.len(),
            0 <= b <= n,
            first_non_ws(line@, 0) == first_non_ws(line@, b as int),
        decreases n - b,
    {
        b = b + 1;
    }
    proof {
        assert(first_non_ws(line@, 0) == b);
    }
    let ghost t = line@.subrange(b as int, n as int);
    if b < n && line.get_char(b) == '#' {
        if b + 1 < n && line.get_char(b + 1) == ' ' {
            proof {
                assert(t.len() >= 2 && t[0] == '#' && t[1] == ' ');
            }
            return line.substring_char(b + 2, n);
        }
        proof {
            assert(t[0] == '#');
            assert(!(t.len() >= 2 && t[0] == '#' && t[1] == ' '));
        }
        // a bare `#`: everything after it must be whitespace
        let mut j: usize = b + 1;
        let mut all_ws: bool = true;
        while j < n
            invariant_except_break
                all_ws,
                n == line@.len(),
                b < j <= n,
                t == line@.subrange(b as int, n as int),
                forall|k: int| 1 <= k < j - b ==> is_wspace(#[trigger] t[k]),
            ensures
                n == line@.len(),
                t == line@.subrange(b as int, n as int),
                b < n,
                all_ws == (forall|k: int| 1 <= k < t.len() ==> is_wspace(#[trigger] t[k])),
            decreases n - j,
        {
            if !wspace(line.get_char(j)) {
                all_ws = false;
                proof {
                    assert(!is_wspace(t[j - b]));
                }
                break;
            }
            proof {
                assert(forall|k: int| 1 <= k < j + 1 - b ==> is_wspace(#[trigger] t[k]));
            }
            j = j + 1;
        }
        if all_ws {
            line.substring_char(b + 1, n)
        } else {
            line
        }
    } else {
        proof {
            if b < n {
                assert(t[0] != '#');
            } else {
                assert(t.len() == 0);
            }
        }
        line
    }
}

/// Concatenation of the cleaned lines.
pub open spec fn cleaned_concat(lines: Seq<Seq<char>>) -> Seq<char>
    decreases lines.len(),
{
    if lines.len() == 0 {
        Seq::empty()
    } else {
        cleaned_concat(lines.drop_last()) + clean_spec(lines.last())
    }
}

/// The code a test operates on: each collected line with its omission
/// marker stripped, concatenated.
pub fn create_test_input(lines: &Vec<String>) -> (r: String)
    ensures
        r@ == cleaned_concat(strs_view(lines@)),
{
    let mut out: Vec<char> = Vec::new();
    let mut i: usize = 0;
    while i < lines.len()
        invariant
            i <= lines@.len(),
            out@ == cleaned_concat(strs_view(lines@).take(i as int)),
        decreases lines@.len() - i,
    {
        let cleaned = clean_omitted_line(lines[i].as_str());
        push_str_chars(&mut out, cleaned);
        proof {
            let pre = strs_view(lines@).take(i + 1);
            assert(pre.drop_last() =~= strs_view(lines@).take(i as int));
            assert(pre.last() == lines@[i as int]@);
        }
        i = i + 1;
    }
    proof {
        assert(strs_view(lines@).take(lines@.len() as int) =~= strs_view(lines@));
    }
    string_from_chars(&out)
}

} // verus!
