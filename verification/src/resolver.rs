//! The dependency resolver: which compiled artifacts a generated test links
//! against.
//!
//! The locked dependency graph comes from the project metadata; build
//! fingerprints are parsed from their path, their record and their
//! modification time, all handed in as plain values; a locked dependency is
//! matched to the fingerprint with the exact version, newest build first.

use vstd::prelude::*;
use crate::chars::{clone_opt_string, find_key, lemma_find_key_offset, opt_str_view,
    push_str_chars, str_eq_str, str_to_chars, string_from_chars, strs_contains, strs_view,
    is_digit_char};
use crate::clean::{first_non_ws, is_wspace, wspace};
use crate::errors::{GenError, GenErrorV};
use crate::paths::{file_name_spec, file_stem_spec, file_stem_of, file_name_of, join_path,
    join_spec, last_index_of, parent_of, parent_spec, with_extension, with_extension_spec};

verus! {

// ---------------------------------------------------------------------------
// Project metadata
// ---------------------------------------------------------------------------

/// One node of the resolved dependency graph.
pub struct MetaNode {
    pub id: String,
    pub deps: Vec<String>,
}

/// Mathematical image of [`MetaNode`].
#[verifier::ext_equal]
pub struct MetaNodeV {
    pub id: Seq<char>,
    pub deps: Seq<Seq<char>>,
}

impl View for MetaNode {
    type V = MetaNodeV;

    open spec fn view(&self) -> MetaNodeV {
        MetaNodeV { id: self.id@, deps: strs_view(self.deps@) }
    }
}

/// What the resolver reads of the project metadata: the workspace members,
/// the resolved graph (absent when the metadata holds none), and each
/// package's edition.
pub struct CargoMeta {
    pub workspace_members: Vec<String>,
    pub nodes: Option<Vec<MetaNode>>,
    pub editions: Vec<String>,
}

/// The views of the graph nodes.
pub open spec fn nodes_view(v: Seq<MetaNode>) -> Seq<MetaNodeV> {
    v.map_values(|n: MetaNode| n@)
}

/// Relies on cargo_metadata::MetadataCommand: running the metadata command
/// for the given manifest and copying out the workspace member ids, the
/// resolve graph's node ids and dependency ids, and the package editions.
/// The result depends on the project on disk.
#[verifier::external_body]
fn fetch_cargo_meta(manifest_path: &str) -> (r: Result<CargoMeta, cargo_metadata::Error>) {
    let m = cargo_metadata::MetadataCommand::new().manifest_path(manifest_path).exec()?;
    Ok(CargoMeta {
        workspace_members: m.workspace_members.iter().map(|p| p.repr.clone()).collect(),
        nodes: m.resolve.map(|r| r.nodes.into_iter().map(|n| MetaNode {
            id: n.id.repr,
            deps: n.dependencies.into_iter().map(|d| d.repr).collect(),
        }).collect()),
        editions: m.packages.iter().map(|p| p.edition.as_str().to_owned()).collect(),
    })
}

// ---------------------------------------------------------------------------
// Locked dependencies
// ---------------------------------------------------------------------------

/// The root dependencies of the locked build, drained newest-last.
pub struct LockedDeps {
    pub dependencies: Vec<String>,
}

/// The dependency ids of the workspace members' first `i` nodes.
pub open spec fn member_deps_fold(nodes: Seq<MetaNodeV>, members: Seq<Seq<char>>, i: int) -> Seq<Seq<char>>
    decreases i,
{
    if i <= 0 {
        Seq::empty()
    } else {
        member_deps_fold(nodes, members, i - 1) + (if members.contains(nodes[i - 1].id) {
            nodes[i - 1].deps
        } else {
            Seq::empty()
        })
    }
}

/// What the locked dependency list means: the dependencies of every
/// workspace member, then the members themselves — or an error where the
/// metadata holds no resolve graph.
pub open spec fn locked_deps_spec(
    members: Seq<Seq<char>>,
    nodes: Option<Seq<MetaNodeV>>,
) -> Result<Seq<Seq<char>>, GenErrorV> {
    match nodes {
        None => Err(GenErrorV::MissingDependencyMetadata),
        Some(ns) => Ok(member_deps_fold(ns, members, ns.len() as int) + members),
    }
}

/// Builds the locked dependency list from the metadata.
pub fn locked_deps_from_meta(meta: &CargoMeta) -> (r: Result<LockedDeps, GenError>)
    ensures
        (match r {
            Ok(l) => locked_deps_spec(
                strs_view(meta.workspace_members@),
                match meta.nodes {
                    Some(ref ns) => Some(nodes_view(ns@)),
                    None => None,
                },
            ) == Ok::<Seq<Seq<char>>, GenErrorV>(strs_view(l.dependencies@)),
            Err(e) => locked_deps_spec(
                strs_view(meta.workspace_members@),
                match meta.nodes {
                    Some(ref ns) => Some(nodes_view(ns@)),
                    None => None,
                },
            ) == Err::<Seq<Seq<char>>, GenErrorV>(e@),
        }),
{
    let nodes = match &meta.nodes {
        None => {
            return Err(GenError::MissingDependencyMetadata);
        },
        Some(ns) => ns,
    };
    let ghost gnodes = nodes_view(nodes@);
    let ghost members = strs_view(meta.workspace_members@);
    let mut out: Vec<String> = Vec::new();
    let mut i: usize = 0;
    while i < nodes.len()
        invariant
            gnodes == nodes_view(nodes@),
            members == strs_view(meta.workspace_members@),
            i <= nodes@.len(),
            strs_view(out@) == member_deps_fold(gnodes, members, i as int),
        decreases nodes@.len() - i,
    {
        let node = &nodes[i];
        proof {
            assert(gnodes[i as int] == node@);
        }
        if strs_contains(&meta.workspace_members, node.id.as_str()) {
            let mut j: usize = 0;
            while j < node.deps.len()
                invariant
                    gnodes == nodes_view(nodes@),
                    members == strs_view(meta.workspace_members@),
                    i < nodes@.len(),
                    gnodes[i as int] == node@,
                    j <= node.deps@.len(),
                    strs_view(out@) == member_deps_fold(gnodes, members, i as int)
                        + gnodes[i as int].deps.take(j as int),
                decreases node.deps@.len() - j,
            {
                let ghost o0 = out@;
                out.push(node.deps[j].clone());
                proof {
                    assert(strs_view(out@) =~= strs_view(o0).push(node.deps@[j as int]@));
                    assert(strs_view(out@) =~= member_deps_fold(gnodes, members, i as int)
                        + gnodes[i as int].deps.take(j + 1));
                }
                j = j + 1;
            }
            proof {
                assert(gnodes[i as int].deps.take(node.deps@.len() as int) =~= gnodes[i as int].deps);
                assert(strs_view(out@) =~= member_deps_fold(gnodes, members, i + 1));
            }
        } else {
            proof {
                assert(strs_view(out@) =~= member_deps_fold(gnodes, members, i + 1));
            }
        }
        i = i + 1;
    }
    let mut k: usize = 0;
    let ghost base = strs_view(out@);
    while k < meta.workspace_members.len()
        invariant
            members == strs_view(meta.workspace_members@),
            k <= meta.workspace_members@.len(),
            strs_view(out@) == base + members.take(k as int),
        decreases meta.workspace_members@.len() - k,
    {
        let ghost o0 = out@;
        out.push(meta.workspace_members[k].clone());
        proof {
            assert(strs_view(out@) =~= strs_view(o0).push(members[k as int]));
            assert(strs_view(out@) =~= base + members.take(k + 1));
        }
        k = k + 1;
    }
    proof {
        assert(members.take(members.len() as int) =~= members);
        assert(strs_view(out@) =~= base + members);
    }
    Ok(LockedDeps { dependencies: out })
}

/// Index of the first whitespace character of `s` at or after `i`, or the
/// length.
pub open spec fn first_ws(s: Seq<char>, i: int) -> int
    decreases s.len() - i,
{
    if i < 0 || i >= s.len() {
        s.len() as int
    } else if is_wspace(s[i]) {
        i
    } else {
        first_ws(s, i + 1)
    }
}

/// Every dash replaced by an underscore.
pub open spec fn replace_dash(s: Seq<char>) -> Seq<char> {
    s.map_values(|c: char| if c == '-' { '_' } else { c })
}

/// What one locked dependency line parses to: its first two
/// whitespace-separated fields, the name with dashes replaced — or nothing,
/// where the line has fewer than two fields.
pub open spec fn dep_pair_spec(s: Seq<char>) -> Option<(Seq<char>, Seq<char>)> {
    let a = first_non_ws(s, 0);
    if a >= s.len() {
        None
    } else {
        let e1 = first_ws(s, a);
        let b = first_non_ws(s, e1);
        if b >= s.len() {
            None
        } else {
            Some((replace_dash(s.subrange(a, e1)), s.subrange(b, first_ws(s, b))))
        }
    }
}

/// Scans to the first non-whitespace position at or after `from`.
fn scan_non_ws(s: &str, from: usize) -> (r: usize)
    requires
        from <= s@.len(),
    ensures
        r == first_non_ws(s@, from as int),
        from <= r <= s@.len(),
{
    let n = s.unicode_len();
    let mut i: usize = from;
    while i < n && wspace(s.get_char(i))
        invariant
            n == s@.len(),
            from <= i <= n,
            first_non_ws(s@, from as int) == first_non_ws(s@, i as int),
        decreases n - i,
    {
        i = i + 1;
    }
    i
}

/// Scans to the first whitespace position at or after `from`.
fn scan_ws(s: &str, from: usize) -> (r: usize)
    requires
        from <= s@.len(),
    ensures
        r == first_ws(s@, from as int),
        from <= r <= s@.len(),
{
    let n = s.unicode_len();
    let mut i: usize = from;
    while i < n && !wspace(s.get_char(i))
        invariant
            n == s@.len(),
            from <= i <= n,
            first_ws(s@, from as int) == first_ws(s@, i as int),
        decreases n - i,
    {
        i = i + 1;
    }
    i
}

/// Parses one locked dependency line into its (name, version) pair.
fn parse_dep_pair(s: &str) -> (r: Option<(String, String)>)
    ensures
        (match r {
            Some(p) => dep_pair_spec(s@) == Some((p.0@, p.1@)),
            None => dep_pair_spec(s@) is None,
        }),
{
    let n = s.unicode_len();
    let a = scan_non_ws(s, 0);
    if a >= n {
        return None;
    }
    let e1 = scan_ws(s, a);
    let b = scan_non_ws(s, e1);
    if b >= n {
        return None;
    }
    let e2 = scan_ws(s, b);
    let mut name: Vec<char> = Vec::new();
    let mut i: usize = a;
    while i < e1
        invariant
            a <= i <= e1 <= n,
            n == s@.len(),
            name@ == replace_dash(s@.subrange(a as int, i as int)),
        decreases e1 - i,
    {
        let c = s.get_char(i);
        name.push(if c == '-' {
            '_'
        } else {
            c
        });
        proof {
            assert(name@ =~= replace_dash(s@.subrange(a as int, i + 1)));
        }
        i = i + 1;
    }
    let mut ver: Vec<char> = Vec::new();
    let mut j: usize = b;
    while j < e2
        invariant
            b <= j <= e2 <= n,
            n == s@.len(),
            ver@ == s@.subrange(b as int, j as int),
        decreases e2 - j,
    {
        ver.push(s.get_char(j));
        proof {
            assert(ver@ =~= s@.subrange(b as int, j + 1));
        }
        j = j + 1;
    }
    Some((string_from_chars(&name), string_from_chars(&ver)))
}

impl LockedDeps {
    /// Reads the locked dependency graph of the project whose root is
    /// `pth`, through the project metadata.  What comes back depends on the
    /// project on disk, but any list handed out is derived from some
    /// metadata as [`locked_deps_from_meta`] pins down.
    pub fn from_path(pth: &str) -> (r: Result<LockedDeps, GenError>)
        ensures
            (match r {
                Ok(l) => exists|m: (Seq<Seq<char>>, Seq<MetaNodeV>)|
                    locked_deps_spec(m.0, Some(m.1)) == Ok::<Seq<Seq<char>>, GenErrorV>(
                        strs_view(l.dependencies@),
                    ),
                Err(e) => e@ == GenErrorV::Metadata || e@ == GenErrorV::MissingDependencyMetadata,
            }),
    {
        let manifest = join_path(pth, "Cargo.toml");
        match fetch_cargo_meta(manifest.as_str()) {
            Ok(meta) => {
                let r = locked_deps_from_meta(&meta);
                proof {
                    if r is Ok {
                        let w = (strs_view(meta.workspace_members@), nodes_view(
                            meta.nodes->Some_0@,
                        ));
                        assert(locked_deps_spec(w.0, Some(w.1)) == Ok::<Seq<Seq<char>>, GenErrorV>(
                            strs_view(r->Ok_0.dependencies@),
                        ));
                    }
                }
                r
            },
            Err(_) => Err(GenError::Metadata),
        }
    }

    /// Pops the next dependency line and parses it into a (name, version)
    /// pair; a line with fewer than two fields gives nothing.
    pub fn next_dep(&mut self) -> (r: Option<(String, String)>)
        ensures
            ({
                let deps0 = strs_view(old(self).dependencies@);
                if deps0.len() == 0 {
                    r is None && final(self).dependencies@ == old(self).dependencies@
                } else {
                    strs_view(final(self).dependencies@) == deps0.drop_last() && (match r {
                        Some(p) => dep_pair_spec(deps0.last()) == Some((p.0@, p.1@)),
                        None => dep_pair_spec(deps0.last()) is None,
                    })
                }
            }),
    {
        let last = match self.dependencies.pop() {
            None => {
                return None;
            },
            Some(s) => s,
        };
        proof {
            assert(strs_view(self.dependencies@) =~= strs_view(old(self).dependencies@).drop_last());
        }
        parse_dep_pair(last.as_str())
    }
}


// ---------------------------------------------------------------------------
// Fingerprints
// ---------------------------------------------------------------------------

/// One build fingerprint: the library it describes, the version its record
/// holds (absent for path or vcs dependencies), the compiled artifact path,
/// and the record's modification time.
pub struct Fingerprint {
    pub libname: String,
    pub version: Option<String>,
    pub rlib: String,
    pub mtime: u64,
}

/// Mathematical image of [`Fingerprint`].
#[verifier::ext_equal]
pub struct FingerprintV {
    pub libname: Seq<char>,
    pub version: Option<Seq<char>>,
    pub rlib: Seq<char>,
    pub mtime: u64,
}

impl View for Fingerprint {
    type V = FingerprintV;

    open spec fn view(&self) -> FingerprintV {
        FingerprintV {
            libname: self.libname@,
            version: opt_str_view(self.version),
            rlib: self.rlib@,
            mtime: self.mtime,
        }
    }
}

/// The views of a fingerprint list.
pub open spec fn fps_view(v: Seq<Fingerprint>) -> Seq<FingerprintV> {
    v.map_values(|f: Fingerprint| f@)
}

/// Index of the first occurrence of `c` in `s` at or after `i`, or the
/// length.
pub open spec fn find_char_from(s: Seq<char>, c: char, i: int) -> int
    decreases s.len() - i,
{
    if i < 0 || i >= s.len() {
        s.len() as int
    } else if s[i] == c {
        i
    } else {
        find_char_from(s, c, i + 1)
    }
}

/// Whether the path's file name carries exactly this extension.
pub open spec fn has_extension_spec(p: Seq<char>, ext: Seq<char>) -> bool {
    let name = file_name_spec(p);
    let d = last_index_of(name, '.', name.len() as int);
    d > 0 && name.skip(d + 1) == ext
}

/// The library name embedded in a fingerprint file's stem: the field between
/// the first two dashes (or everything after a sole dash).
pub open spec fn fp_libname_spec(p: Seq<char>) -> Option<Seq<char>> {
    let fname = file_stem_spec(p);
    let i1 = find_char_from(fname, '-', 0);
    if i1 >= fname.len() {
        None
    } else {
        Some(fname.subrange(i1 + 1, find_char_from(fname, '-', i1 + 1)))
    }
}

/// The content hash embedded in the fingerprint directory's name: everything
/// after its last dash.
pub open spec fn fp_hash_spec(p: Seq<char>) -> Seq<char> {
    let parent = parent_spec(p);
    parent.skip(last_index_of(parent, '-', parent.len() as int) + 1)
}

/// Where the compiled artifact lives, up to its extension: three components
/// above the record, under `deps`, named after the library and the hash.
pub open spec fn fp_rlib_base_spec(p: Seq<char>) -> Seq<char> {
    join_spec(
        parent_spec(parent_spec(parent_spec(p))),
        "deps/lib"@ + (match fp_libname_spec(p) {
            Some(n) => n,
            None => Seq::empty(),
        }) + seq!['-'] + fp_hash_spec(p),
    )
}

/// Scans for a character from a position on.
fn scan_char_from(v: &Vec<char>, c: char, from: usize) -> (r: usize)
    requires
        from <= v@.len(),
    ensures
        r == find_char_from(v@, c, from as int),
        from <= r <= v@.len(),
{
    let mut i: usize = from;
    while i < v.len()
        invariant
            from <= i <= v@.len(),
            find_char_from(v@, c, from as int) == find_char_from(v@, c, i as int),
        decreases v@.len() - i,
    {
        if v[i] == c {
            return i;
        }
        i = i + 1;
    }
    i
}

/// Whether the path's file name carries exactly this extension.
fn has_extension(p: &str, ext: &str) -> (r: bool)
    ensures
        r == has_extension_spec(p@, ext@),
{
    let name = file_name_of(p);
    let v = str_to_chars(name.as_str());
    let n = v.len();
    match crate::paths::rfind_char(&v, '.') {
        Some(d) if d > 0 => {
            let m = ext.unicode_len();
            if n - (d + 1) != m {
                proof {
                    assert(name@.skip(d + 1) != ext@);
                }
                return false;
            }
            let mut k: usize = 0;
            while k < m
                invariant
                    v@ == name@,
                    name@ == file_name_spec(p@),
                    d == last_index_of(name@, '.', name@.len() as int),
                    n == v@.len(),
                    m == ext@.len(),
                    0 < d < n,
                    n - (d + 1) == m,
                    k <= m,
                    forall|j: int| 0 <= j < k ==> v@[d + 1 + j] == ext@[j],
                decreases m - k,
            {
                if v[d + 1 + k] != ext.get_char(k) {
                    proof {
                        assert(name@.skip(d + 1)[k as int] != ext@[k as int]);
                    }
                    return false;
                }
                k = k + 1;
            }
            proof {
                assert(name@.skip(d + 1) =~= ext@);
            }
            true
        },
        _ => false,
    }
}

/// Whether serde_json::from_str parses the text; a function of the text
/// alone.
pub uninterp spec fn json_parses(s: Seq<char>) -> bool;

/// The version string a fingerprint record holds, at `local.Precalculated`
/// or else at `local[0].Precalculated`; a function of the record text alone,
/// and nothing where neither member is a string.
pub uninterp spec fn fp_version_of(s: Seq<char>) -> Option<Seq<char>>;

/// Relies on serde_json::from_str, which parses JSON text into a value
/// tree, and on its indexing by member name and position, which answers the
/// null value for anything missing and never panics; Value::as_str gives
/// the text of a string value.  All of it is a function of the record text
/// alone.
#[verifier::external_body]
fn parse_fingerprint_record(contents: &str) -> (r: Result<Option<String>, serde_json::Error>)
    ensures
        r is Ok <==> json_parses(contents@),
        r is Ok ==> crate::chars::opt_str_view(r->Ok_0) == fp_version_of(contents@),
{
    let value: serde_json::Value = serde_json::from_str(contents)?;
    let local = &value["local"];
    Ok(local["Precalculated"]
        .as_str()
        .or_else(|| local[0]["Precalculated"].as_str())
        .map(str::to_owned))
}

impl Fingerprint {
    /// Interprets one fingerprint record, given its path, its modification
    /// time and its text.  It succeeds exactly on a `.json` path whose stem
    /// carries a library name and whose text parses; the library name,
    /// artifact base path and time come from the path and time alone, the
    /// version is whatever the record holds (a record without one is no
    /// error: path and vcs dependencies have none).  Which artifact
    /// extension exists is probed separately, through [`guess_ext`].
    pub fn from_file(path: &str, mtime: u64, contents: &str) -> (r: Result<Fingerprint, GenError>)
        ensures
            r is Ok <==> has_extension_spec(path@, "json"@) && fp_libname_spec(path@) is Some
                && json_parses(contents@),
            (match r {
                Ok(f) => f.libname@ == fp_libname_spec(path@)->0 && f.rlib@ == fp_rlib_base_spec(
                    path@,
                ) && f.mtime == mtime && opt_str_view(f.version) == fp_version_of(contents@),
                Err(e) => e@ == if has_extension_spec(path@, "json"@) && fp_libname_spec(path@)
                    is Some {
                    GenErrorV::Json
                } else {
                    GenErrorV::Fingerprint
                },
            }),
    {
        if !has_extension(path, "json") {
            return Err(GenError::Fingerprint);
        }
        let fname_s = file_stem_of(path);
        let fname = str_to_chars(fname_s.as_str());
        let n = fname.len();
        let i1 = scan_char_from(&fname, '-', 0);
        if i1 >= n {
            return Err(GenError::Fingerprint);
        }
        let i2 = scan_char_from(&fname, '-', i1 + 1);
        let mut lib: Vec<char> = Vec::new();
        let mut i: usize = i1 + 1;
        while i < i2
            invariant
                i1 + 1 <= i <= i2 <= fname@.len(),
                lib@ == fname@.subrange(i1 + 1, i as int),
            decreases i2 - i,
        {
            lib.push(fname[i]);
            proof {
                assert(lib@ =~= fname@.subrange(i1 + 1, i + 1));
            }
            i = i + 1;
        }
        let libname = string_from_chars(&lib);
        let parent = parent_of(path);
        let pv = str_to_chars(parent.as_str());
        let np = pv.len();
        let hs = match crate::paths::rfind_char(&pv, '-') {
            Some(j) => j + 1,
            None => 0,
        };
        let mut hash: Vec<char> = Vec::new();
        let mut k: usize = hs;
        while k < pv.len()
            invariant
                hs <= k <= pv@.len(),
                hash@ == pv@.subrange(hs as int, k as int),
            decreases pv@.len() - k,
        {
            hash.push(pv[k]);
            proof {
                assert(hash@ =~= pv@.subrange(hs as int, k + 1));
            }
            k = k + 1;
        }
        proof {
            assert(pv@.subrange(hs as int, pv@.len() as int) =~= pv@.skip(hs as int));
        }
        let mut rel: Vec<char> = Vec::new();
        push_str_chars(&mut rel, "deps/lib");
        push_str_chars(&mut rel, libname.as_str());
        rel.push('-');
        let mut hash2 = hash;
        rel.append(&mut hash2);
        let up2 = parent_of(parent.as_str());
        let up3 = parent_of(up2.as_str());
        let rlib = join_path(up3.as_str(), string_from_chars(&rel).as_str());
        proof {
            assert(rel@ =~= "deps/lib"@ + fp_libname_spec(path@)->0 + seq!['-'] + fp_hash_spec(path@));
        }
        let version = match parse_fingerprint_record(contents) {
            Err(_) => {
                return Err(GenError::Json);
            },
            Ok(v) => v,
        };
        Ok(Fingerprint { libname: libname, version: version, rlib: rlib, mtime: mtime })
    }

    /// The library's name.
    pub fn name(&self) -> (r: String)
        ensures
            r@ == self.libname@,
    {
        self.libname.clone()
    }

    /// The version the record holds, where it holds one.
    pub fn version(&self) -> (r: Option<String>)
        ensures
            opt_str_view(r) == opt_str_view(self.version),
    {
        clone_opt_string(&self.version)
    }
}

// ---------------------------------------------------------------------------
// Artifact extensions
// ---------------------------------------------------------------------------

/// Index of the first extension marked present, or -1.
pub open spec fn first_present(exts: Seq<(Seq<char>, bool)>) -> int
    decreases exts.len(),
{
    if exts.len() == 0 {
        -1
    } else if exts[0].1 {
        0
    } else {
        let r = first_present(exts.drop_first());
        if r < 0 {
            -1
        } else {
            r + 1
        }
    }
}

/// The views of probed extensions.
pub open spec fn exts_view(v: Seq<(String, bool)>) -> Seq<(Seq<char>, bool)> {
    v.map_values(|p: (String, bool)| (p.0@, p.1))
}

/// Picks the artifact path: the recognized extensions are tried in their
/// given preference order, each with the caller's answer whether the
/// resulting file exists; the first present one wins, and a fingerprint
/// without any present artifact is an error.
pub fn guess_ext(pth: &str, exts: &Vec<(String, bool)>) -> (r: Result<String, GenError>)
    ensures
        ({
            let k = first_present(exts_view(exts@));
            match r {
                Ok(p) => k >= 0 && p@ == with_extension_spec(pth@, exts_view(exts@)[k].0),
                Err(e) => k < 0 && e@ == GenErrorV::Fingerprint,
            }
        }),
{
    let ghost ge = exts_view(exts@);
    let mut i: usize = 0;
    while i < exts.len()
        invariant
            ge == exts_view(exts@),
            i <= exts@.len(),
            forall|j: int| 0 <= j < i ==> !(#[trigger] ge[j].1),
        decreases exts@.len() - i,
    {
        if exts[i].1 {
            proof {
                lemma_first_present_offset(ge, i as int);
            }
            return Ok(with_extension(pth, exts[i].0.as_str()));
        }
        i = i + 1;
    }
    proof {
        lemma_first_present_offset(ge, ge.len() as int);
    }
    Err(GenError::Fingerprint)
}

/// [`first_present`] read off from a scan position.
proof fn lemma_first_present_offset(exts: Seq<(Seq<char>, bool)>, i: int)
    requires
        0 <= i <= exts.len(),
        forall|j: int| 0 <= j < i ==> !(#[trigger] exts[j].1),
    ensures
        ({
            let r = first_present(exts.skip(i));
            first_present(exts) == if r < 0 { -1int } else { i + r }
        }),
    decreases i,
{
    if i == 0 {
        assert(exts.skip(0) =~= exts);
    } else {
        assert(!exts[0].1);
        lemma_first_present_offset(exts.drop_first(), i - 1);
        assert(exts.drop_first().skip(i - 1) =~= exts.skip(i));
    }
}


// ---------------------------------------------------------------------------
// Editions
// ---------------------------------------------------------------------------

/// Whether every character is a decimal digit.
pub open spec fn all_digits(s: Seq<char>) -> bool {
    forall|i: int| 0 <= i < s.len() ==> is_digit_char(#[trigger] s[i])
}

/// The number a digit string denotes.
pub open spec fn digits_val(s: Seq<char>) -> nat
    decreases s.len(),
{
    if s.len() == 0 {
        0
    } else {
        digits_val(s.drop_last()) * 10 + (s.last() as u32 - 48) as nat
    }
}

/// A longer digit prefix denotes no smaller a number.
proof fn lemma_digits_val_mono(s: Seq<char>, i: int, j: int)
    requires
        0 <= i <= j <= s.len(),
    ensures
        digits_val(s.take(j)) >= digits_val(s.take(i)),
    decreases j - i,
{
    if i < j {
        lemma_digits_val_mono(s, i, j - 1);
        assert(s.take(j).drop_last() =~= s.take(j - 1));
    }
}

/// Reads a decimal number, as the edition fields of the metadata are read:
/// nothing unless the text is non-empty, all digits, and in range.
pub fn parse_u64(s: &str) -> (r: Option<u64>)
    ensures
        (match r {
            Some(v) => s@.len() > 0 && all_digits(s@) && v as nat == digits_val(s@),
            None => s@.len() == 0 || !all_digits(s@) || digits_val(s@) > u64::MAX,
        }),
{
    let n = s.unicode_len();
    if n == 0 {
        return None;
    }
    let mut val: u64 = 0;
    let mut i: usize = 0;
    while i < n
        invariant
            n == s@.len(),
            i <= n,
            all_digits(s@.take(i as int)),
            val as nat == digits_val(s@.take(i as int)),
        decreases n - i,
    {
        let c = s.get_char(i);
        let u = c as u32;
        if !(48 <= u && u <= 57) {
            proof {
                assert(!is_digit_char(s@[i as int]));
            }
            return None;
        }
        let d = (u - 48) as u64;
        if val > (u64::MAX - d) / 10 {
            proof {
                assert(s@.take(i + 1).drop_last() =~= s@.take(i as int));
                assert(digits_val(s@.take(i + 1)) > u64::MAX);
                lemma_digits_val_mono(s@, i + 1, s@.len() as int);
                assert(s@.take(s@.len() as int) =~= s@);
            }
            return None;
        }
        val = val * 10 + d;
        proof {
            assert(s@.take(i + 1).drop_last() =~= s@.take(i as int));
            assert(all_digits(s@.take(i + 1)));
        }
        i = i + 1;
    }
    proof {
        assert(s@.take(n as int) =~= s@);
    }
    Some(val)
}

/// The edition the first `i` entries pick: the one denoting the largest
/// number, the last of equals winning — or an error where there is no entry
/// or one does not parse.
pub open spec fn max_edition_fold(eds: Seq<Seq<char>>, i: int) -> Result<(Seq<char>, nat), GenErrorV>
    decreases i,
{
    if i <= 0 {
        Err(GenErrorV::BadEdition)
    } else {
        let cur = eds[i - 1];
        if !(cur.len() > 0 && all_digits(cur) && digits_val(cur) <= u64::MAX) {
            Err(GenErrorV::BadEdition)
        } else {
            match max_edition_fold(eds, i - 1) {
                Err(e) => if i == 1 {
                    Ok((cur, digits_val(cur)))
                } else {
                    Err(e)
                },
                Ok(best) => if digits_val(cur) >= best.1 {
                    Ok((cur, digits_val(cur)))
                } else {
                    Ok(best)
                },
            }
        }
    }
}

/// Picks the numerically largest edition among the packages' editions.
pub fn max_edition(editions: &Vec<String>) -> (r: Result<String, GenError>)
    ensures
        (match r {
            Ok(e) => ({
                let f = max_edition_fold(strs_view(editions@), editions@.len() as int);
                f is Ok && e@ == f->Ok_0.0
            }),
            Err(e) => max_edition_fold(strs_view(editions@), editions@.len() as int)
                == Err::<(Seq<char>, nat), GenErrorV>(e@),
        }),
{
    let ghost eds = strs_view(editions@);
    let mut best: Option<(String, u64)> = None;
    let mut i: usize = 0;
    while i < editions.len()
        invariant
            eds == strs_view(editions@),
            i <= editions@.len(),
            (match best {
                Some(b) => ({
                    let f = max_edition_fold(eds, i as int);
                    f is Ok && b.0@ == f->Ok_0.0 && b.1 as nat == f->Ok_0.1
                }),
                None => i == 0,
            }),
        decreases editions@.len() - i,
    {
        let cur = match parse_u64(editions[i].as_str()) {
            None => {
                proof {
                    lemma_max_edition_frozen(eds, i + 1, eds.len() as int);
                }
                return Err(GenError::BadEdition);
            },
            Some(v) => v,
        };
        let take_cur: bool = match &best {
            None => true,
            Some(b) => cur >= b.1,
        };
        if take_cur {
            best = Some((editions[i].clone(), cur));
        }
        i = i + 1;
    }
    match best {
        Some(b) => Ok(b.0),
        None => Err(GenError::BadEdition),
    }
}

/// The scan fails in only one way.
proof fn lemma_max_edition_err_shape(eds: Seq<Seq<char>>, i: int)
    requires
        max_edition_fold(eds, i) is Err,
    ensures
        max_edition_fold(eds, i) == Err::<(Seq<char>, nat), GenErrorV>(GenErrorV::BadEdition),
    decreases i,
{
    if i > 0 {
        let cur = eds[i - 1];
        if cur.len() > 0 && all_digits(cur) && digits_val(cur) <= u64::MAX {
            lemma_max_edition_err_shape(eds, i - 1);
        }
    }
}

/// A bad edition swallows the rest of the scan.
proof fn lemma_max_edition_frozen(eds: Seq<Seq<char>>, i: int, j: int)
    requires
        0 < i <= j,
        max_edition_fold(eds, i) is Err,
    ensures
        max_edition_fold(eds, j) == max_edition_fold(eds, i),
    decreases j - i,
{
    lemma_max_edition_err_shape(eds, i);
    if i < j {
        lemma_max_edition_frozen(eds, i, j - 1);
        lemma_max_edition_err_shape(eds, j - 1);
    }
}

/// Reads the largest package edition of the project whose root is `pth`,
/// through the project metadata.  What comes back depends on the project on
/// disk, but any edition handed out is some edition list's pick as
/// [`max_edition`] pins down.
pub fn get_edition(pth: &str) -> (r: Result<String, GenError>)
    ensures
        (match r {
            Ok(e) => exists|eds: Seq<Seq<char>>|
                #[trigger] max_edition_fold(eds, eds.len() as int) == Ok::<(Seq<char>, nat), GenErrorV>(
                    (e@, max_edition_fold(eds, eds.len() as int)->Ok_0.1),
                ),
            Err(e) => e@ == GenErrorV::Metadata || e@ == GenErrorV::BadEdition,
        }),
{
    let manifest = join_path(pth, "Cargo.toml");
    match fetch_cargo_meta(manifest.as_str()) {
        Ok(meta) => {
            let r = max_edition(&meta.editions);
            proof {
                let w = strs_view(meta.editions@);
                let f = max_edition_fold(w, w.len() as int);
                if r is Ok {
                    assert(max_edition_fold(w, w.len() as int) == Ok::<(Seq<char>, nat), GenErrorV>(
                        (r->Ok_0@, f->Ok_0.1),
                    ));
                } else {
                    lemma_max_edition_err_shape(w, w.len() as int);
                }
            }
            r
        },
        Err(_) => Err(GenError::Metadata),
    }
}

// ---------------------------------------------------------------------------
// Matching fingerprints against the lock
// ---------------------------------------------------------------------------

/// The views of string pairs.
pub open spec fn kv_view(v: Seq<(String, String)>) -> Seq<(Seq<char>, Seq<char>)> {
    v.map_values(|p: (String, String)| (p.0@, p.1@))
}

/// The views of keyed fingerprints.
pub open spec fn fpmap_view(v: Seq<(String, Fingerprint)>) -> Seq<(Seq<char>, FingerprintV)> {
    v.map_values(|p: (String, Fingerprint)| (p.0@, p.1@))
}

/// Binds a key, replacing an earlier binding.
pub open spec fn kv_insert(m: Seq<(Seq<char>, Seq<char>)>, key: Seq<char>, val: Seq<char>) -> Seq<(Seq<char>, Seq<char>)> {
    let j = find_key(m, key);
    if j < 0 {
        m.push((key, val))
    } else {
        m.update(j, (key, val))
    }
}

/// The locked name-to-version map after draining the last `i` dependency
/// lines, newest-popped first, later bindings replacing earlier ones.
pub open spec fn locked_pairs_fold(deps: Seq<Seq<char>>, i: int) -> Seq<(Seq<char>, Seq<char>)>
    decreases i,
{
    if i <= 0 {
        Seq::empty()
    } else {
        let prev = locked_pairs_fold(deps, i - 1);
        match dep_pair_spec(deps[deps.len() - i]) {
            None => prev,
            Some(p) => kv_insert(prev, p.0, p.1),
        }
    }
}

/// Binds one pair in the executable map.
fn kv_insert_exec(m: &mut Vec<(String, String)>, key: String, val: String)
    ensures
        kv_view(final(m)@) == kv_insert(kv_view(old(m)@), key@, val@),
{
    let ghost m0 = kv_view(m@);
    let mut i: usize = 0;
    while i < m.len()
        invariant
            m0 == kv_view(old(m)@),
            m0 == kv_view(m@),
            i <= m@.len(),
            forall|j: int| 0 <= j < i ==> #[trigger] m0[j].0 != key@,
        decreases m@.len() - i,
    {
        if str_eq_str(m[i].0.as_str(), key.as_str()) {
            proof {
                lemma_find_key_offset(m0, key@, i as int);
                assert(m0.skip(i as int)[0] == m0[i as int]);
            }
            let ghost g0 = m@;
            let _old = m.remove(i);
            let ghost g1 = m@;
            m.insert(i, (key, val));
            proof {
                assert(kv_view(g1) =~= m0.remove(i as int));
                assert(kv_view(m@) =~= kv_view(g1).insert(i as int, (key@, val@)));
                assert(kv_view(m@) =~= kv_insert(m0, key@, val@));
            }
            return;
        }
        i = i + 1;
    }
    proof {
        lemma_find_key_offset(m0, key@, m0.len() as int);
        assert(m0.skip(m0.len() as int).len() == 0);
    }
    let ghost g2 = m@;
    m.push((key, val));
    proof {
        assert(kv_view(m@) =~= kv_insert(m0, key@, val@));
    }
}

/// Drains the locked dependency lines into the name-to-version map.
pub fn locked_pairs(lock: LockedDeps) -> (r: Vec<(String, String)>)
    ensures
        kv_view(r@) == locked_pairs_fold(
            strs_view(lock.dependencies@),
            lock.dependencies@.len() as int,
        ),
{
    let ghost deps0 = strs_view(lock.dependencies@);
    let mut lock = lock;
    let n0 = lock.dependencies.len();
    let mut out: Vec<(String, String)> = Vec::new();
    let mut drained: usize = 0;
    while lock.dependencies.len() > 0
        invariant
            n0 == deps0.len(),
            drained <= n0,
            strs_view(lock.dependencies@) == deps0.take(deps0.len() - drained),
            kv_view(out@) == locked_pairs_fold(deps0, drained as int),
        decreases lock.dependencies@.len(),
    {
        proof {
            assert(deps0.take(deps0.len() - drained).last() == deps0[deps0.len() - drained - 1]);
        }
        match lock.next_dep() {
            Some(p) => {
                kv_insert_exec(&mut out, p.0, p.1);
            },
            None => {},
        }
        proof {
            assert(deps0.take(deps0.len() - drained).drop_last() =~= deps0.take(
                deps0.len() - (drained + 1),
            ));
        }
        drained = drained + 1;
    }
    proof {
        assert(deps0.take(deps0.len() - drained).len() == 0);
        assert(drained == deps0.len());
    }
    out
}

/// One fingerprint against the lock: an unlocked library changes nothing; a
/// new exact (or unversioned) match enters; a versioned exact match with a
/// fresher build replaces the earlier pick.
pub open spec fn resolve_step(
    found: Seq<(Seq<char>, FingerprintV)>,
    locked: Seq<(Seq<char>, Seq<char>)>,
    f: FingerprintV,
) -> Seq<(Seq<char>, FingerprintV)> {
    let li = find_key(locked, f.libname);
    if li < 0 {
        found
    } else {
        let lv = locked[li].1;
        let fi = find_key(found, f.libname);
        if fi >= 0 {
            if f.version == Some(lv) && found[fi].1.mtime < f.mtime {
                found.update(fi, (f.libname, f))
            } else {
                found
            }
        } else {
            if (match f.version {
                Some(v) => v,
                None => lv,
            }) == lv {
                found.push((f.libname, f))
            } else {
                found
            }
        }
    }
}

/// The matching run over the first `i` fingerprints.
pub open spec fn resolve_fold_deps(
    locked: Seq<(Seq<char>, Seq<char>)>,
    fingers: Seq<FingerprintV>,
    i: int,
) -> Seq<(Seq<char>, FingerprintV)>
    decreases i,
{
    if i <= 0 {
        Seq::empty()
    } else {
        resolve_step(resolve_fold_deps(locked, fingers, i - 1), locked, fingers[i - 1])
    }
}

/// What resolution means: every locked dependency keeps the fingerprint
/// with the exactly matching version, the newest build winning ties, in
/// first-match order.
pub open spec fn resolve_deps_spec(
    locked: Seq<(Seq<char>, Seq<char>)>,
    fingers: Seq<FingerprintV>,
) -> Seq<FingerprintV> {
    resolve_fold_deps(locked, fingers, fingers.len() as int).map_values(
        |p: (Seq<char>, FingerprintV)| p.1,
    )
}

/// Finds a key in the executable string map.
fn find_in_kv(m: &Vec<(String, String)>, key: &str) -> (r: Option<usize>)
    ensures
        ({
            let k = find_key(kv_view(m@), key@);
            match r {
                Some(j) => k == j && j < m@.len(),
                None => k < 0,
            }
        }),
{
    let ghost mv = kv_view(m@);
    let mut i: usize = 0;
    while i < m.len()
        invariant
            mv == kv_view(m@),
            i <= m@.len(),
            forall|j: int| 0 <= j < i ==> #[trigger] mv[j].0 != key@,
        decreases m@.len() - i,
    {
        if str_eq_str(m[i].0.as_str(), key) {
            proof {
                lemma_find_key_offset(mv, key@, i as int);
                assert(mv.skip(i as int)[0] == mv[i as int]);
            }
            return Some(i);
        }
        i = i + 1;
    }
    proof {
        lemma_find_key_offset(mv, key@, mv.len() as int);
        assert(mv.skip(mv.len() as int).len() == 0);
    }
    None
}

/// Finds a key in the executable fingerprint map.
fn find_in_fpmap(m: &Vec<(String, Fingerprint)>, key: &str) -> (r: Option<usize>)
    ensures
        ({
            let k = find_key(fpmap_view(m@), key@);
            match r {
                Some(j) => k == j && j < m@.len(),
                None => k < 0,
            }
        }),
{
    let ghost mv = fpmap_view(m@);
    let mut i: usize = 0;
    while i < m.len()
        invariant
            mv == fpmap_view(m@),
            i <= m@.len(),
            forall|j: int| 0 <= j < i ==> #[trigger] mv[j].0 != key@,
        decreases m@.len() - i,
    {
        if str_eq_str(m[i].0.as_str(), key) {
            proof {
                lemma_find_key_offset(mv, key@, i as int);
                assert(mv.skip(i as int)[0] == mv[i as int]);
            }
            return Some(i);
        }
        i = i + 1;
    }
    proof {
        lemma_find_key_offset(mv, key@, mv.len() as int);
        assert(mv.skip(mv.len() as int).len() == 0);
    }
    None
}

/// Matches the fingerprints against the locked dependencies, keeping for
/// each locked library the exactly matching, freshest fingerprint.
#[verifier::loop_isolation(false)]
pub fn resolve_rlib_deps(locked: &Vec<(String, String)>, fingerprints: Vec<Fingerprint>) -> (r: Vec<Fingerprint>)
    ensures
        fps_view(r@) == resolve_deps_spec(kv_view(locked@), fps_view(fingerprints@)),
{
    let ghost glocked = kv_view(locked@);
    let ghost gfingers = fps_view(fingerprints@);
    let mut fingers = fingerprints;
    let nf = fingers.len();
    let mut found: Vec<(String, Fingerprint)> = Vec::new();
    let mut done: usize = 0;
    proof {
        assert(fps_view(fingers@) =~= gfingers.skip(0));
    }
    while fingers.len() > 0
        invariant
            nf == gfingers.len(),
            done <= nf,
            fps_view(fingers@) == gfingers.skip(done as int),
            fpmap_view(found@) == resolve_fold_deps(glocked, gfingers, done as int),
        decreases fingers@.len(),
    {
        let ghost fv0 = fps_view(fingers@);
        let f = fingers.remove(0);
        proof {
            assert(fv0.len() > 0);
            assert(fv0[0] == f@);
            assert(gfingers.skip(done as int)[0] == gfingers[done as int]);
            assert(f@ == gfingers[done as int]);
            assert(fps_view(fingers@) =~= fv0.drop_first());
            assert(fv0.drop_first() =~= gfingers.skip(done + 1));
        }
        match find_in_kv(locked, f.libname.as_str()) {
            None => {},
            Some(li) => {
                let lv = &locked[li].1;
                proof {
                    assert(glocked[li as int].1 == lv@);
                }
                match find_in_fpmap(&found, f.libname.as_str()) {
                    Some(fi) => {
                        let version_matches: bool = match &f.version {
                            Some(v) => str_eq_str(v.as_str(), lv.as_str()),
                            None => false,
                        };
                        if version_matches && found[fi].1.mtime < f.mtime {
                            let ghost g0 = found@;
                            let _old = found.remove(fi);
                            let ghost g1 = found@;
                            let key = f.libname.clone();
                            found.insert(fi, (key, f));
                            proof {
                                assert(fpmap_view(g1) =~= fpmap_view(g0).remove(fi as int));
                                assert(fpmap_view(found@) =~= fpmap_view(g1).insert(
                                    fi as int,
                                    (gfingers[done as int].libname, gfingers[done as int]),
                                ));
                                assert(fpmap_view(found@) =~= resolve_fold_deps(glocked, gfingers,
                                    done + 1));
                            }
                        } else {
                            proof {
                                assert(fpmap_view(found@) =~= resolve_fold_deps(glocked, gfingers,
                                    done + 1));
                            }
                        }
                    },
                    None => {
                        let version_matches: bool = match &f.version {
                            Some(v) => str_eq_str(v.as_str(), lv.as_str()),
                            None => true,
                        };
                        if version_matches {
                            let ghost g0 = found@;
                            let key = f.libname.clone();
                            found.push((key, f));
                            proof {
                                assert(fpmap_view(found@) =~= fpmap_view(g0).push(
                                    (gfingers[done as int].libname, gfingers[done as int]),
                                ));
                                assert(fpmap_view(found@) =~= resolve_fold_deps(glocked, gfingers,
                                    done + 1));
                            }
                        } else {
                            proof {
                                assert(fpmap_view(found@) =~= resolve_fold_deps(glocked, gfingers,
                                    done + 1));
                            }
                        }
                    },
                }
            },
        }
        proof {
            assert(fpmap_view(found@) =~= resolve_fold_deps(glocked, gfingers, done + 1));
        }
        done = done + 1;
    }
    proof {
        assert(gfingers.skip(done as int).len() == 0);
        assert(done == gfingers.len());
    }
    let mut out: Vec<Fingerprint> = Vec::new();
    proof {
        assert(fps_view(out@) + fpmap_view(found@).map_values(|p: (Seq<char>, FingerprintV)| p.1)
            =~= resolve_deps_spec(glocked, gfingers));
    }
    while found.len() > 0
        invariant
            fps_view(out@) + fpmap_view(found@).map_values(|p: (Seq<char>, FingerprintV)| p.1)
                == resolve_deps_spec(glocked, gfingers),
        decreases found@.len(),
    {
        let p = found.remove(0);
        out.push(p.1);
        proof {
            assert(fps_view(out@) + fpmap_view(found@).map_values(
                |q: (Seq<char>, FingerprintV)| q.1,
            ) =~= resolve_deps_spec(glocked, gfingers));
        }
    }
    proof {
        assert(fps_view(out@) =~= resolve_deps_spec(glocked, gfingers));
    }
    out
}

/// Resolves the compiled artifacts for a build: the locked dependencies are
/// read from the project root — or, where that fails, from two components
/// above the build output directory — and matched against the given
/// fingerprints.  What the lock holds depends on the project on disk, but
/// any list handed out is the given fingerprints matched against some lock,
/// as [`resolve_rlib_deps`] pins down.
pub fn get_rlib_dependencies(root_dir: &str, target_dir: &str, fingerprints: Vec<Fingerprint>) -> (r: Result<
    Vec<Fingerprint>,
    GenError,
>)
    ensures
        (match r {
            Ok(v) => exists|locked: Seq<(Seq<char>, Seq<char>)>|
                fps_view(v@) == resolve_deps_spec(locked, fps_view(fingerprints@)),
            Err(e) => e@ == GenErrorV::Metadata || e@ == GenErrorV::MissingDependencyMetadata,
        }),
{
    let lock = match LockedDeps::from_path(root_dir) {
        Ok(l) => l,
        Err(_) => {
            let up1 = parent_of(target_dir);
            let up2 = parent_of(up1.as_str());
            match LockedDeps::from_path(up2.as_str()) {
                Ok(l) => l,
                Err(e) => {
                    return Err(e);
                },
            }
        },
    };
    let locked = locked_pairs(lock);
    let resolved = resolve_rlib_deps(&locked, fingerprints);
    proof {
        let w = kv_view(locked@);
        assert(fps_view(resolved@) == resolve_deps_spec(w, fps_view(fingerprints@)));
    }
    Ok(resolved)
}

// ---------------------------------------------------------------------------
// The compiler invocation
// ---------------------------------------------------------------------------

/// Whether a test is built to run or only checked.
pub enum CompileType {
    Full,
    Check,
}

/// The linkage arguments of the first `i` resolved dependencies: one
/// `--extern` flag each, naming the library and its artifact.
pub open spec fn extern_args_fold(deps: Seq<FingerprintV>, i: int) -> Seq<Seq<char>>
    decreases i,
{
    if i <= 0 {
        Seq::empty()
    } else {
        extern_args_fold(deps, i - 1) + seq![
            "--extern"@,
            deps[i - 1].libname + seq!['='] + deps[i - 1].rlib,
        ]
    }
}

/// The compiler's argument list: the test source, verbose bin compilation,
/// the edition unless it is the default, the library search paths, the
/// target, one linkage flag per dependency, and the output — a binary for a
/// full build, emitted metadata for a check.
pub open spec fn rustc_args_spec(
    in_path: Seq<char>,
    out_path: Seq<char>,
    edition: Seq<char>,
    target_dir: Seq<char>,
    deps_dir: Seq<char>,
    target_triple: Seq<char>,
    deps: Seq<FingerprintV>,
    check: bool,
) -> Seq<Seq<char>> {
    seq![in_path, "--verbose"@, "--crate-type=bin"@] + (if edition != "2015"@ {
        seq!["--edition="@ + edition]
    } else {
        Seq::empty()
    }) + seq!["-L"@, target_dir, "-L"@, deps_dir, "--target"@, target_triple] + extern_args_fold(
        deps,
        deps.len() as int,
    ) + (if check {
        seq!["--emit=dep-info="@ + out_path + ".d,metadata="@ + out_path + ".m"@]
    } else {
        seq!["-o"@, out_path]
    })
}

/// Builds the compiler's argument list for one generated test.
#[verifier::loop_isolation(false)]
pub fn rustc_args(
    in_path: &str,
    out_path: &str,
    edition: &str,
    target_dir: &str,
    deps_dir: &str,
    target_triple: &str,
    deps: &Vec<Fingerprint>,
    compile_type: CompileType,
) -> (r: Vec<String>)
    ensures
        strs_view(r@) == rustc_args_spec(
            in_path@,
            out_path@,
            edition@,
            target_dir@,
            deps_dir@,
            target_triple@,
            fps_view(deps@),
            compile_type is Check,
        ),
{
    let ghost gdeps = fps_view(deps@);
    let mut args: Vec<String> = Vec::new();
    args.push(in_path.to_owned());
    args.push("--verbose".to_owned());
    args.push("--crate-type=bin".to_owned());
    if !str_eq_str(edition, "2015") {
        let mut e: Vec<char> = Vec::new();
        push_str_chars(&mut e, "--edition=");
        push_str_chars(&mut e, edition);
        args.push(string_from_chars(&e));
    }
    args.push("-L".to_owned());
    args.push(target_dir.to_owned());
    args.push("-L".to_owned());
    args.push(deps_dir.to_owned());
    args.push("--target".to_owned());
    args.push(target_triple.to_owned());
    let ghost head = strs_view(args@);
    proof {
        assert(head + extern_args_fold(gdeps, 0) =~= head);
    }
    let mut i: usize = 0;
    while i < deps.len()
        invariant
            i <= deps@.len(),
            strs_view(args@) == head + extern_args_fold(gdeps, i as int),
        decreases deps@.len() - i,
    {
        let ghost a0 = strs_view(args@);
        args.push("--extern".to_owned());
        let mut pair: Vec<char> = Vec::new();
        push_str_chars(&mut pair, deps[i].libname.as_str());
        pair.push('=');
        push_str_chars(&mut pair, deps[i].rlib.as_str());
        args.push(string_from_chars(&pair));
        proof {
            assert(pair@ =~= gdeps[i as int].libname + seq!['='] + gdeps[i as int].rlib);
            assert(strs_view(args@) =~= a0.push("--extern"@).push(pair@));
            assert(strs_view(args@) =~= head + extern_args_fold(gdeps, i + 1));
        }
        i = i + 1;
    }
    let ghost a1 = strs_view(args@);
    match compile_type {
        CompileType::Full => {
            args.push("-o".to_owned());
            args.push(out_path.to_owned());
            proof {
                assert(strs_view(args@) =~= a1.push("-o"@).push(out_path@));
            }
        },
        CompileType::Check => {
            let mut e: Vec<char> = Vec::new();
            push_str_chars(&mut e, "--emit=dep-info=");
            push_str_chars(&mut e, out_path);
            push_str_chars(&mut e, ".d,metadata=");
            push_str_chars(&mut e, out_path);
            push_str_chars(&mut e, ".m");
            let ghost ev = e@;
            args.push(string_from_chars(&e));
            proof {
                assert(ev =~= "--emit=dep-info="@ + out_path@ + ".d,metadata="@ + out_path@
                    + ".m"@);
                assert(strs_view(args@) =~= a1.push(ev));
            }
        },
    }
    proof {
        assert(strs_view(args@) =~= rustc_args_spec(in_path@, out_path@, edition@, target_dir@,
            deps_dir@, target_triple@, gdeps, compile_type is Check));
    }
    args
}

} // verus!
