//! Path handling on plain strings.
//!
//! The library never touches the file system; it only computes with path
//! text, using `/` as the separator.  Reading and probing paths is the
//! caller's business.

use vstd::prelude::*;
use crate::chars::{push_str_chars, str_to_chars, string_from_chars};

verus! {

/// Index of the last occurrence of `c` in `s` before `i`, or -1.
pub open spec fn last_index_of(s: Seq<char>, c: char, i: int) -> int
    decreases i,
{
    if i <= 0 || i > s.len() {
        -1
    } else if s[i - 1] == c {
        i - 1
    } else {
        last_index_of(s, c, i - 1)
    }
}

/// The file name of a path: everything after the last separator.
pub open spec fn file_name_spec(p: Seq<char>) -> Seq<char> {
    p.skip(last_index_of(p, '/', p.len() as int) + 1)
}

/// The file stem: the file name up to its last dot, except that a leading
/// dot starts no extension.
pub open spec fn file_stem_spec(p: Seq<char>) -> Seq<char> {
    let name = file_name_spec(p);
    let d = last_index_of(name, '.', name.len() as int);
    if d > 0 {
        name.take(d)
    } else {
        name
    }
}

/// The path with its last component removed.
pub open spec fn parent_spec(p: Seq<char>) -> Seq<char> {
    let s = last_index_of(p, '/', p.len() as int);
    if s < 0 {
        Seq::empty()
    } else {
        p.take(s)
    }
}

/// Joining a path and a component; an absolute component replaces the path.
pub open spec fn join_spec(dir: Seq<char>, name: Seq<char>) -> Seq<char> {
    if name.len() > 0 && name[0] == '/' {
        name
    } else if dir.len() == 0 {
        name
    } else {
        dir + seq!['/'] + name
    }
}

/// The file name with the part after its last dot replaced by `ext`; a name
/// without an extension gets one appended.
pub open spec fn with_extension_spec(p: Seq<char>, ext: Seq<char>) -> Seq<char> {
    let s = last_index_of(p, '/', p.len() as int);
    let name = p.skip(s + 1);
    let d = last_index_of(name, '.', name.len() as int);
    if d > 0 {
        p.take(s + 1 + d) + seq!['.'] + ext
    } else {
        p + seq!['.'] + ext
    }
}

/// Whether `s` ends with `suffix`.
pub open spec fn ends_with_spec(s: Seq<char>, suffix: Seq<char>) -> bool {
    s.len() >= suffix.len() && s.skip(s.len() - suffix.len()) == suffix
}

/// Finds the last occurrence of `c` in `v`, as an executable search.
pub fn rfind_char(v: &Vec<char>, c: char) -> (r: Option<usize>)
    ensures
        ({
            let k = last_index_of(v@, c, v@.len() as int);
            match r {
                Some(j) => k == j && j < v@.len(),
                None => k == -1,
            }
        }),
{
    let mut i: usize = v.len();
    while i > 0
        invariant
            i <= v@.len(),
            last_index_of(v@, c, v@.len() as int) == last_index_of(v@, c, i as int),
        decreases i,
    {
        if v[i - 1] == c {
            return Some(i - 1);
        }
        i = i - 1;
    }
    None
}

/// The file name of a path.
pub fn file_name_of(p: &str) -> (r: String)
    ensures
        r@ == file_name_spec(p@),
{
    let v = str_to_chars(p);
    let n = v.len();
    let start = match rfind_char(&v, '/') {
        Some(j) => j + 1,
        None => 0,
    };
    let mut out: Vec<char> = Vec::new();
    let mut i: usize = start;
    while i < v.len()
        invariant
            start <= i <= v@.len(),
            out@ == v@.subrange(start as int, i as int),
        decreases v@.len() - i,
    {
        out.push(v[i]);
        proof {
            assert(out@ =~= v@.subrange(start as int, i + 1));
        }
        i = i + 1;
    }
    proof {
        assert(v@.subrange(start as int, v@.len() as int) =~= v@.skip(start as int));
    }
    string_from_chars(&out)
}

/// The file stem of a path.
pub fn file_stem_of(p: &str) -> (r: String)
    ensures
        r@ == file_stem_spec(p@),
{
    let name = file_name_of(p);
    let v = str_to_chars(name.as_str());
    let keep = match rfind_char(&v, '.') {
        Some(j) if j > 0 => j,
        _ => v.len(),
    };
    let mut out: Vec<char> = Vec::new();
    let mut i: usize = 0;
    while i < keep
        invariant
            keep <= v@.len(),
            i <= keep,
            out@ == v@.take(i as int),
        decreases keep - i,
    {
        out.push(v[i]);
        proof {
            assert(out@ =~= v@.take(i + 1));
        }
        i = i + 1;
    }
    proof {
        assert(v@.take(v@.len() as int) =~= v@);
    }
    string_from_chars(&out)
}

/// The path with its last component removed.
pub fn parent_of(p: &str) -> (r: String)
    ensures
        r@ == parent_spec(p@),
{
    let v = str_to_chars(p);
    let keep = match rfind_char(&v, '/') {
        Some(j) => j,
        None => {
            let out: Vec<char> = Vec::new();
            proof {
                assert(out@ =~= parent_spec(p@));
            }
            return string_from_chars(&out);
        },
    };
    let mut out: Vec<char> = Vec::new();
    let mut i: usize = 0;
    while i < keep
        invariant
            keep <= v@.len(),
            i <= keep,
            out@ == v@.take(i as int),
        decreases keep - i,
    {
        out.push(v[i]);
        proof {
            assert(out@ =~= v@.take(i + 1));
        }
        i = i + 1;
    }
    string_from_chars(&out)
}

/// Joins a path and a component.
pub fn join_path(dir: &str, name: &str) -> (r: String)
    ensures
        r@ == join_spec(dir@, name@),
{
    if name.unicode_len() > 0 && name.get_char(0) == '/' {
        return name.to_owned();
    }
    if dir.unicode_len() == 0 {
        return name.to_owned();
    }
    let mut v: Vec<char> = Vec::new();
    push_str_chars(&mut v, dir);
    v.push('/');
    push_str_chars(&mut v, name);
    proof {
        assert(v@ =~= join_spec(dir@, name@));
    }
    string_from_chars(&v)
}

/// Replaces or appends the extension of a path's file name.
pub fn with_extension(p: &str, ext: &str) -> (r: String)
    ensures
        r@ == with_extension_spec(p@, ext@),
{
    let v = str_to_chars(p);
    let n = v.len();
    let start = match rfind_char(&v, '/') {
        Some(j) => j + 1,
        None => 0,
    };
    let ghost s = last_index_of(v@, '/', v@.len() as int);
    let name = str_to_chars(file_name_of(p).as_str());
    proof {
        assert(name@ == v@.skip(s + 1));
    }
    let keep = match rfind_char(&name, '.') {
        Some(j) if j > 0 => start + j,
        _ => v.len(),
    };
    let mut out: Vec<char> = Vec::new();
    let mut i: usize = 0;
    while i < keep
        invariant
            keep <= v@.len(),
            i <= keep,
            out@ == v@.take(i as int),
        decreases keep - i,
    {
        out.push(v[i]);
        proof {
            assert(out@ =~= v@.take(i + 1));
        }
        i = i + 1;
    }
    out.push('.');
    push_str_chars(&mut out, ext);
    proof {
        let name_v = v@.skip(s + 1);
        let d = last_index_of(name_v, '.', name_v.len() as int);
        if d > 0 {
            assert(keep == s + 1 + d);
            assert(out@ =~= v@.take(s + 1 + d) + seq!['.'] + ext@);
        } else {
            assert(keep == v@.len());
            assert(v@.take(v@.len() as int) =~= v@);
            assert(out@ =~= v@ + seq!['.'] + ext@);
        }
    }
    string_from_chars(&out)
}

/// The companion template file of a document: the fixed suffix appended to
/// the document's full file name.
pub fn template_file_name(p: &str) -> (r: String)
    ensures
        r@ == p@ + ".skt.md"@,
{
    let mut v: Vec<char> = Vec::new();
    push_str_chars(&mut v, p);
    push_str_chars(&mut v, ".skt.md");
    string_from_chars(&v)
}

/// Whether `s` ends with `suffix`.
pub fn ends_with_str(s: &str, suffix: &str) -> (r: bool)
    ensures
        r == ends_with_spec(s@, suffix@),
{
    let n = s.unicode_len();
    let m = suffix.unicode_len();
    if n < m {
        return false;
    }
    let base = n - m;
    let mut i: usize = 0;
    while i < m
        invariant
            n == s@.len(),
            m == suffix@.len(),
            base == n - m,
            i <= m,
            forall|j: int| 0 <= j < i ==> s@[base + j] == suffix@[j],
        decreases m - i,
    {
        if s.get_char(base + i) != suffix.get_char(i) {
            proof {
                assert(s@.skip(base as int)[i as int] != suffix@[i as int]);
            }
            return false;
        }
        i = i + 1;
    }
    proof {
        assert(s@.skip(base as int) =~= suffix@);
    }
    true
}

} // verus!
