//! The generation pipeline: documents in, one generated test source out.
//!
//! Each document contributes its extracted tests; every test's parts are
//! resolved against the document's named templates or its legacy template,
//! rendered as one test function, and concatenated.  A reference to a
//! missing template aborts generation, naming the template and the
//! document.

use vstd::prelude::*;
use crate::chars::{clone_strings, opt_str_view, push_str_chars, string_from_chars, strs_view};
use crate::clean::{cleaned_concat, create_test_input};
use crate::emit::{apply_template, raw_literal, raw_literal_spec, subst_spec};
use crate::errors::{GenError, GenErrorV};
use crate::extract::{extract_spec, extract_tests_from_string, tests_view, Test, TestV,
    TestPartV};
use crate::paths::{file_stem_spec, file_stem_of};
use crate::sanitize::{sanitize_spec, sanitize_test_name};
use crate::templates::{find_template, load_templates, load_templates_spec, template_lookup,
    tmap_view};

verus! {

// ---------------------------------------------------------------------------
// Data
// ---------------------------------------------------------------------------

/// Where generation reads and writes, threaded explicitly through the
/// pipeline instead of ambient process state.
pub struct Config {
    /// The project root the documents live under.
    pub root_dir: String,
    /// The build output directory.
    pub out_dir: String,
    /// The file the generated tests are written to.
    pub out_file: String,
    /// The target the generated tests compile for.
    pub target_triple: String,
    /// The documents, as given by the caller.
    pub docs: Vec<String>,
}

/// Mathematical image of [`Config`].
#[verifier::ext_equal]
pub struct ConfigV {
    pub root_dir: Seq<char>,
    pub out_dir: Seq<char>,
    pub out_file: Seq<char>,
    pub target_triple: Seq<char>,
    pub docs: Seq<Seq<char>>,
}

impl View for Config {
    type V = ConfigV;

    open spec fn view(&self) -> ConfigV {
        ConfigV {
            root_dir: self.root_dir@,
            out_dir: self.out_dir@,
            out_file: self.out_file@,
            target_triple: self.target_triple@,
            docs: strs_view(self.docs@),
        }
    }
}

/// One document handed to generation: its path and its text, plus the text
/// of its companion template file where one exists.
pub struct DocSource {
    pub path: String,
    pub contents: String,
    pub template_contents: Option<String>,
}

/// Mathematical image of [`DocSource`].
#[verifier::ext_equal]
pub struct DocSourceV {
    pub path: Seq<char>,
    pub contents: Seq<char>,
    pub template_contents: Option<Seq<char>>,
}

impl View for DocSource {
    type V = DocSourceV;

    open spec fn view(&self) -> DocSourceV {
        DocSourceV {
            path: self.path@,
            contents: self.contents@,
            template_contents: match self.template_contents {
                Some(ref t) => Some(t@),
                None => None,
            },
        }
    }
}

/// One document's extraction result.
pub struct DocTest {
    pub path: String,
    pub old_template: Option<String>,
    pub tests: Vec<Test>,
    pub templates: Vec<(String, String)>,
}

/// Mathematical image of [`DocTest`].
#[verifier::ext_equal]
pub struct DocTestV {
    pub path: Seq<char>,
    pub old_template: Option<Seq<char>>,
    pub tests: Seq<TestV>,
    pub templates: Seq<(Seq<char>, Seq<char>)>,
}

impl View for DocTest {
    type V = DocTestV;

    open spec fn view(&self) -> DocTestV {
        DocTestV {
            path: self.path@,
            old_template: opt_str_view(self.old_template),
            tests: tests_view(self.tests@),
            templates: tmap_view(self.templates@),
        }
    }
}

/// The whole run's extraction result, one entry per document.
pub struct DocTestSuite {
    pub doc_tests: Vec<DocTest>,
}

/// The views of the suite's documents.
pub open spec fn docs_view(v: Seq<DocTest>) -> Seq<DocTestV> {
    v.map_values(|d: DocTest| d@)
}

// ---------------------------------------------------------------------------
// Template resolution
// ---------------------------------------------------------------------------

/// The identity template: the argument alone.
pub open spec fn identity_template() -> Seq<char> {
    "{}"@
}

/// The template text one part is rendered with: its named template where it
/// names one (missing names are errors), else the document's legacy template
/// for ordinary tests, else the identity template.
pub open spec fn resolve_part(
    templates: Seq<(Seq<char>, Seq<char>)>,
    old_template: Option<Seq<char>>,
    combined: bool,
    part: TestPartV,
) -> Result<Seq<char>, Seq<char>> {
    match part.template {
        Some(name) => {
            let j = find_template(templates, name);
            if j < 0 {
                Err(name)
            } else {
                Ok(templates[j].1)
            }
        },
        None => {
            match old_template {
                Some(t) => if !combined {
                    Ok(t)
                } else {
                    Ok(identity_template())
                },
                None => Ok(identity_template()),
            }
        },
    }
}

/// Resolution of a test's first `i` parts into (template text, lines)
/// pairs; the first missing template name wins.
pub open spec fn resolve_fold(
    templates: Seq<(Seq<char>, Seq<char>)>,
    old_template: Option<Seq<char>>,
    combined: bool,
    parts: Seq<TestPartV>,
    i: int,
) -> Result<Seq<(Seq<char>, Seq<Seq<char>>)>, Seq<char>>
    decreases i,
{
    if i <= 0 {
        Ok(Seq::empty())
    } else {
        match resolve_fold(templates, old_template, combined, parts, i - 1) {
            Err(n) => Err(n),
            Ok(acc) => {
                match resolve_part(templates, old_template, combined, parts[i - 1]) {
                    Err(n) => Err(n),
                    Ok(body) => Ok(acc.push((body, parts[i - 1].text))),
                }
            },
        }
    }
}

/// A resolution error swallows everything after it.
proof fn lemma_resolve_fold_frozen(
    templates: Seq<(Seq<char>, Seq<char>)>,
    old_template: Option<Seq<char>>,
    combined: bool,
    parts: Seq<TestPartV>,
    i: int,
    j: int,
)
    requires
        0 <= i <= j,
        resolve_fold(templates, old_template, combined, parts, i) is Err,
    ensures
        resolve_fold(templates, old_template, combined, parts, j)
            == resolve_fold(templates, old_template, combined, parts, i),
    decreases j - i,
{
    if i < j {
        lemma_resolve_fold_frozen(templates, old_template, combined, parts, i, j - 1);
    }
}

/// The legacy template back-patches every ordinary test: whatever else the
/// document holds, a test that is not combined and names no template
/// resolves to the legacy template alone, and its assembled code is that
/// template's body with the placeholder replaced by the block's cleaned
/// content.
pub proof fn lemma_legacy_backpatch(
    templates: Seq<(Seq<char>, Seq<char>)>,
    legacy: Seq<char>,
    t: TestV,
)
    requires
        !t.combined,
        t.parts.len() == 1,
        t.parts[0].template is None,
    ensures
        resolve_fold(templates, Some(legacy), t.combined, t.parts, t.parts.len() as int)
            == Ok::<Seq<(Seq<char>, Seq<Seq<char>>)>, Seq<char>>(seq![(legacy, t.parts[0].text)]),
        parts_text(seq![(legacy, t.parts[0].text)]) == subst_spec(
            legacy,
            cleaned_concat(t.parts[0].text),
            0,
        ),
{
    let part = t.parts[0];
    assert(resolve_fold(templates, Some(legacy), t.combined, t.parts, 0) == Ok::<
        Seq<(Seq<char>, Seq<Seq<char>>)>,
        Seq<char>,
    >(Seq::empty()));
    assert(resolve_part(templates, Some(legacy), t.combined, part) == Ok::<Seq<char>, Seq<char>>(
        legacy,
    ));
    assert(Seq::<(Seq<char>, Seq<Seq<char>>)>::empty().push((legacy, part.text)) =~= seq![
        (legacy, part.text),
    ]);
    let rs = seq![(legacy, part.text)];
    assert(rs.drop_last() =~= Seq::<(Seq<char>, Seq<Seq<char>>)>::empty());
    assert(parts_text(rs.drop_last()) + subst_spec(legacy, cleaned_concat(part.text), 0)
        =~= subst_spec(legacy, cleaned_concat(part.text), 0));
}

// ---------------------------------------------------------------------------
// Rendering one test
// ---------------------------------------------------------------------------

/// The assembled code of the resolved parts: each part's template applied
/// to its cleaned content, concatenated.
pub open spec fn parts_text(rs: Seq<(Seq<char>, Seq<Seq<char>>)>) -> Seq<char>
    decreases rs.len(),
{
    if rs.len() == 0 {
        Seq::empty()
    } else {
        parts_text(rs.drop_last()) + subst_spec(rs.last().0, cleaned_concat(rs.last().1), 0)
    }
}

/// The source text of one generated test function: the optional skip and
/// expect-failure annotations, the function named after the test, the
/// assembled code as a collision-free raw literal, and the call into the
/// runtime entry point — compile-only for a no-run test.
pub open spec fn runner_text_spec(cfg: ConfigV, t: TestV, rs: Seq<(Seq<char>, Seq<Seq<char>>)>) -> Seq<char> {
    (if t.ignore {
        "#[ignore]\n"@
    } else {
        Seq::empty()
    }) + (if t.should_panic {
        "#[should_panic]\n"@
    } else {
        Seq::empty()
    }) + "#[test] fn "@ + t.name + "() {\n    let s = "@ + raw_literal_spec(
        seq!['\n'] + parts_text(rs),
    ) + ";\n    skeptic::rt::"@ + (if t.no_run {
        "compile_test("@
    } else {
        "run_test("@
    }) + raw_literal_spec(cfg.root_dir) + ", "@ + raw_literal_spec(cfg.out_dir) + ", "@
        + raw_literal_spec(cfg.target_triple) + ", s);\n}\n\n"@
}

/// The views of resolved (template, lines) pairs.
pub open spec fn resolved_view(v: Seq<(String, Vec<String>)>) -> Seq<(Seq<char>, Seq<Seq<char>>)> {
    v.map_values(|p: (String, Vec<String>)| (p.0@, strs_view(p.1@)))
}

/// Renders one test function from its resolved parts.
pub fn create_test_runner(config: &Config, test: &Test, resolved: &Vec<(String, Vec<String>)>) -> (r: String)
    ensures
        r@ == runner_text_spec(config@, test@, resolved_view(resolved@)),
{
    let mut v: Vec<char> = Vec::new();
    if test.ignore {
        push_str_chars(&mut v, "#[ignore]\n");
    }
    if test.should_panic {
        push_str_chars(&mut v, "#[should_panic]\n");
    }
    push_str_chars(&mut v, "#[test] fn ");
    push_str_chars(&mut v, test.name.as_str());
    push_str_chars(&mut v, "() {\n    let s = ");
    let mut assembled: Vec<char> = Vec::new();
    assembled.push('\n');
    let ghost rs = resolved_view(resolved@);
    proof {
        assert(assembled@ =~= seq!['\n'] + parts_text(rs.take(0)));
    }
    let mut i: usize = 0;
    while i < resolved.len()
        invariant
            rs == resolved_view(resolved@),
            i <= resolved@.len(),
            assembled@ == seq!['\n'] + parts_text(rs.take(i as int)),
        decreases resolved@.len() - i,
    {
        let arg = create_test_input(&resolved[i].1);
        let piece = apply_template(resolved[i].0.as_str(), arg.as_str());
        push_str_chars(&mut assembled, piece.as_str());
        proof {
            assert(rs.take(i + 1).drop_last() =~= rs.take(i as int));
            assert(assembled@ =~= seq!['\n'] + parts_text(rs.take(i + 1)));
        }
        i = i + 1;
    }
    proof {
        assert(rs.take(rs.len() as int) =~= rs);
    }
    let body = string_from_chars(&assembled);
    let lit = raw_literal(body.as_str());
    push_str_chars(&mut v, lit.as_str());
    push_str_chars(&mut v, ";\n    skeptic::rt::");
    if test.no_run {
        push_str_chars(&mut v, "compile_test(");
    } else {
        push_str_chars(&mut v, "run_test(");
    }
    let lit_root = raw_literal(config.root_dir.as_str());
    push_str_chars(&mut v, lit_root.as_str());
    push_str_chars(&mut v, ", ");
    let lit_out = raw_literal(config.out_dir.as_str());
    push_str_chars(&mut v, lit_out.as_str());
    push_str_chars(&mut v, ", ");
    let lit_triple = raw_literal(config.target_triple.as_str());
    push_str_chars(&mut v, lit_triple.as_str());
    push_str_chars(&mut v, ", s);\n}\n\n");
    proof {
        assert(v@ =~= runner_text_spec(config@, test@, rs));
    }
    string_from_chars(&v)
}

// ---------------------------------------------------------------------------
// Emitting a suite
// ---------------------------------------------------------------------------

/// The rendered text of one document's first `i` tests, or the first
/// missing-template error.
pub open spec fn emit_tests_fold(cfg: ConfigV, doc: DocTestV, i: int) -> Result<Seq<char>, GenErrorV>
    decreases i,
{
    if i <= 0 {
        Ok(Seq::empty())
    } else {
        match emit_tests_fold(cfg, doc, i - 1) {
            Err(e) => Err(e),
            Ok(acc) => {
                let t = doc.tests[i - 1];
                match resolve_fold(doc.templates, doc.old_template, t.combined, t.parts, t.parts.len() as int) {
                    Err(n) => Err(GenErrorV::TemplateNotFound { doc: doc.path, template: n }),
                    Ok(rs) => Ok(acc + runner_text_spec(cfg, t, rs)),
                }
            },
        }
    }
}

/// The rendered text of the first `i` documents.
pub open spec fn emit_docs_fold(cfg: ConfigV, docs: Seq<DocTestV>, i: int) -> Result<Seq<char>, GenErrorV>
    decreases i,
{
    if i <= 0 {
        Ok(Seq::empty())
    } else {
        match emit_docs_fold(cfg, docs, i - 1) {
            Err(e) => Err(e),
            Ok(acc) => {
                match emit_tests_fold(cfg, docs[i - 1], docs[i - 1].tests.len() as int) {
                    Err(e) => Err(e),
                    Ok(t) => Ok(acc + t),
                }
            },
        }
    }
}

/// What emitting means: the runtime import line, then every document's
/// rendered tests in order — or the first missing-template error.
pub open spec fn emit_spec(cfg: ConfigV, docs: Seq<DocTestV>) -> Result<Seq<char>, GenErrorV> {
    match emit_docs_fold(cfg, docs, docs.len() as int) {
        Err(e) => Err(e),
        Ok(t) => Ok("extern crate skeptic;\n"@ + t),
    }
}

/// An emission error swallows the rest of the document.
proof fn lemma_emit_tests_fold_frozen(cfg: ConfigV, doc: DocTestV, i: int, j: int)
    requires
        0 <= i <= j,
        emit_tests_fold(cfg, doc, i) is Err,
    ensures
        emit_tests_fold(cfg, doc, j) == emit_tests_fold(cfg, doc, i),
    decreases j - i,
{
    if i < j {
        lemma_emit_tests_fold_frozen(cfg, doc, i, j - 1);
    }
}

/// An emission error swallows the remaining documents.
proof fn lemma_emit_docs_fold_frozen(cfg: ConfigV, docs: Seq<DocTestV>, i: int, j: int)
    requires
        0 <= i <= j,
        emit_docs_fold(cfg, docs, i) is Err,
    ensures
        emit_docs_fold(cfg, docs, j) == emit_docs_fold(cfg, docs, i),
    decreases j - i,
{
    if i < j {
        lemma_emit_docs_fold_frozen(cfg, docs, i, j - 1);
    }
}

/// Renders the whole suite into the generated test source, to be written to
/// the output file only if it differs from what is there.
#[verifier::rlimit(50)]
#[verifier::loop_isolation(false)]
pub fn emit_tests(config: &Config, suite: &DocTestSuite) -> (r: Result<String, GenError>)
    ensures
        (match r {
            Ok(out) => emit_spec(config@, docs_view(suite.doc_tests@)) == Ok::<Seq<char>, GenErrorV>(out@),
            Err(e) => emit_spec(config@, docs_view(suite.doc_tests@)) == Err::<Seq<char>, GenErrorV>(e@),
        }),
{
    let ghost gdocs = docs_view(suite.doc_tests@);
    let mut out: Vec<char> = Vec::new();
    push_str_chars(&mut out, "extern crate skeptic;\n");
    let ghost header = "extern crate skeptic;\n"@;
    proof {
        assert(out@ =~= header + emit_docs_fold(config@, gdocs, 0)->Ok_0);
    }
    let mut di: usize = 0;
    while di < suite.doc_tests.len()
        invariant
            gdocs == docs_view(suite.doc_tests@),
            di <= suite.doc_tests@.len(),
            ({
                let f = emit_docs_fold(config@, gdocs, di as int);
                f is Ok && out@ == header + f->Ok_0
            }),
        decreases suite.doc_tests@.len() - di,
    {
        let doc = &suite.doc_tests[di];
        let ghost gdoc = gdocs[di as int];
        proof {
            assert(gdoc == doc@);
        }
        let ghost acc0 = out@;
        proof {
            assert(out@ =~= acc0 + emit_tests_fold(config@, gdoc, 0)->Ok_0);
        }
        let mut ti: usize = 0;
        while ti < doc.tests.len()
            invariant
                gdocs == docs_view(suite.doc_tests@),
                di < suite.doc_tests@.len(),
                gdoc == suite.doc_tests@[di as int]@,
                gdoc == gdocs[di as int],
                ti <= doc.tests@.len(),
                gdoc == doc@,
                emit_docs_fold(config@, gdocs, di as int) is Ok,
                acc0 == header + emit_docs_fold(config@, gdocs, di as int)->Ok_0,
                ({
                    let f = emit_tests_fold(config@, gdoc, ti as int);
                    f is Ok && out@ == acc0 + f->Ok_0
                }),
            decreases doc.tests@.len() - ti,
        {
            let test = &doc.tests[ti];
            let ghost gtest = gdoc.tests[ti as int];
            proof {
                assert(gtest == test@);
            }
            // resolve each part's template
            let mut resolved: Vec<(String, Vec<String>)> = Vec::new();
            proof {
                assert(resolved_view(resolved@) =~= resolve_fold(gdoc.templates, gdoc.old_template,
                    gtest.combined, gtest.parts, 0)->Ok_0);
            }
            let mut pi: usize = 0;
            while pi < test.parts.len()
                invariant
                    gtest == test@,
                    gdoc == doc@,
                    pi <= test.parts@.len(),
                    ({
                        let f = resolve_fold(gdoc.templates, gdoc.old_template, gtest.combined,
                            gtest.parts, pi as int);
                        f is Ok && resolved_view(resolved@) == f->Ok_0
                    }),
                decreases test.parts@.len() - pi,
            {
                let part = &test.parts[pi];
                let ghost gpart = gtest.parts[pi as int];
                proof {
                    assert(gpart == part@);
                }
                let body: String = match &part.template {
                    Some(name) => {
                        match template_lookup(&doc.templates, name.as_str()) {
                            Some(b) => b,
                            None => {
                                proof {
                                    assert(gtest.parts.len() == test.parts@.len());
                                    assert(gdoc.tests.len() == doc.tests@.len());
                                    assert(gdocs.len() == suite.doc_tests@.len());
                                    lemma_resolve_fold_frozen(gdoc.templates, gdoc.old_template,
                                        gtest.combined, gtest.parts, pi + 1,
                                        gtest.parts.len() as int);
                                    lemma_emit_tests_fold_frozen(config@, gdoc, ti + 1,
                                        gdoc.tests.len() as int);
                                    lemma_emit_docs_fold_frozen(config@, gdocs, di + 1,
                                        gdocs.len() as int);
                                }
                                return Err(GenError::TemplateNotFound {
                                    doc: doc.path.clone(),
                                    template: name.clone(),
                                });
                            },
                        }
                    },
                    None => {
                        if !test.combined && doc.old_template.is_some() {
                            match &doc.old_template {
                                Some(t) => t.clone(),
                                None => String::new(),
                            }
                        } else {
                            "{}".to_owned()
                        }
                    },
                };
                let lines = clone_strings(&part.text);
                let ghost r0 = resolved@;
                resolved.push((body, lines));
                proof {
                    assert(resolved_view(resolved@) =~= resolved_view(r0).push(
                        (body@, strs_view(lines@)),
                    ));
                    assert(resolved_view(resolved@) =~= resolve_fold(gdoc.templates,
                        gdoc.old_template, gtest.combined, gtest.parts, pi + 1)->Ok_0);
                }
                pi = pi + 1;
            }
            proof {
                assert(gtest.parts.len() == test.parts@.len());
            }
            let rendered = create_test_runner(config, test, &resolved);
            push_str_chars(&mut out, rendered.as_str());
            proof {
                assert(out@ =~= acc0 + emit_tests_fold(config@, gdoc, ti + 1)->Ok_0);
            }
            ti = ti + 1;
        }
        proof {
            assert(gdoc.tests.len() == doc.tests@.len());
            assert(out@ =~= header + emit_docs_fold(config@, gdocs, di + 1)->Ok_0);
        }
        di = di + 1;
    }
    proof {
        assert(gdocs.len() == suite.doc_tests@.len());
    }
    Ok(string_from_chars(&out))
}

// ---------------------------------------------------------------------------
// Extraction over a document list
// ---------------------------------------------------------------------------

/// What extracting one document means: its tests under its sanitized file
/// stem, plus its loaded templates.
pub open spec fn extract_doc_spec(src: DocSourceV) -> Result<DocTestV, GenErrorV> {
    let stem = sanitize_spec(file_stem_spec(src.path));
    match extract_spec(src.contents, stem) {
        Err(e) => Err(e),
        Ok(p) => {
            match load_templates_spec(src.template_contents, src.path) {
                Err(e) => Err(e),
                Ok(m) => Ok(DocTestV {
                    path: src.path,
                    old_template: p.1,
                    tests: p.0,
                    templates: m,
                }),
            }
        },
    }
}

/// The views of the document sources.
pub open spec fn sources_view(v: Seq<DocSource>) -> Seq<DocSourceV> {
    v.map_values(|d: DocSource| d@)
}

/// Extraction over the first `i` documents; the first error wins.
pub open spec fn extract_docs_fold(srcs: Seq<DocSourceV>, i: int) -> Result<Seq<DocTestV>, GenErrorV>
    decreases i,
{
    if i <= 0 {
        Ok(Seq::empty())
    } else {
        match extract_docs_fold(srcs, i - 1) {
            Err(e) => Err(e),
            Ok(acc) => {
                match extract_doc_spec(srcs[i - 1]) {
                    Err(e) => Err(e),
                    Ok(d) => Ok(acc.push(d)),
                }
            },
        }
    }
}

/// An extraction error swallows the remaining documents.
proof fn lemma_extract_docs_fold_frozen(srcs: Seq<DocSourceV>, i: int, j: int)
    requires
        0 <= i <= j,
        extract_docs_fold(srcs, i) is Err,
    ensures
        extract_docs_fold(srcs, j) == extract_docs_fold(srcs, i),
    decreases j - i,
{
    if i < j {
        lemma_extract_docs_fold_frozen(srcs, i, j - 1);
    }
}

/// Extracts one document's tests and templates.
pub fn extract_tests_from_source(src: &DocSource) -> (r: Result<DocTest, GenError>)
    ensures
        (match r {
            Ok(d) => extract_doc_spec(src@) == Ok::<DocTestV, GenErrorV>(d@),
            Err(e) => extract_doc_spec(src@) == Err::<DocTestV, GenErrorV>(e@),
        }),
{
    let stem = sanitize_test_name(file_stem_of(src.path.as_str()).as_str());
    let (tests, old_template) = match extract_tests_from_string(src.contents.as_str(), stem.as_str()) {
        Ok(p) => p,
        Err(e) => {
            return Err(e);
        },
    };
    let templates = match load_templates(
        match src.template_contents {
            Some(ref t) => Some(t.as_str()),
            None => None,
        },
        src.path.as_str(),
    ) {
        Ok(m) => m,
        Err(e) => {
            return Err(e);
        },
    };
    Ok(DocTest { path: src.path.clone(), old_template: old_template, tests: tests, templates: templates })
}

/// Extracts every document, in caller order.
pub fn extract_tests(docs: &Vec<DocSource>) -> (r: Result<DocTestSuite, GenError>)
    ensures
        (match r {
            Ok(s) => extract_docs_fold(sources_view(docs@), docs@.len() as int)
                == Ok::<Seq<DocTestV>, GenErrorV>(docs_view(s.doc_tests@)),
            Err(e) => extract_docs_fold(sources_view(docs@), docs@.len() as int)
                == Err::<Seq<DocTestV>, GenErrorV>(e@),
        }),
{
    let ghost srcs = sources_view(docs@);
    let mut doc_tests: Vec<DocTest> = Vec::new();
    proof {
        assert(docs_view(doc_tests@) =~= extract_docs_fold(srcs, 0)->Ok_0);
    }
    let mut i: usize = 0;
    while i < docs.len()
        invariant
            srcs == sources_view(docs@),
            i <= docs@.len(),
            ({
                let f = extract_docs_fold(srcs, i as int);
                f is Ok && docs_view(doc_tests@) == f->Ok_0
            }),
        decreases docs@.len() - i,
    {
        proof {
            assert(srcs[i as int] == docs@[i as int]@);
        }
        match extract_tests_from_source(&docs[i]) {
            Ok(d) => {
                let ghost d0 = doc_tests@;
                doc_tests.push(d);
                proof {
                    assert(docs_view(doc_tests@) =~= docs_view(d0).push(
                        extract_docs_fold(srcs, i + 1)->Ok_0.last(),
                    ));
                    assert(docs_view(doc_tests@) =~= extract_docs_fold(srcs, i + 1)->Ok_0);
                }
            },
            Err(e) => {
                proof {
                    lemma_extract_docs_fold_frozen(srcs, i + 1, srcs.len() as int);
                }
                return Err(e);
            },
        }
        i = i + 1;
    }
    Ok(DocTestSuite { doc_tests: doc_tests })
}

// ---------------------------------------------------------------------------
// The whole run
// ---------------------------------------------------------------------------

/// What one generation run produces from its documents: the generated test
/// source, or the first error.  The result is a function of the inputs
/// alone, so unchanged input gives byte-identical output.
pub open spec fn run_spec(cfg: ConfigV, srcs: Seq<DocSourceV>) -> Result<Seq<char>, GenErrorV> {
    match extract_docs_fold(srcs, srcs.len() as int) {
        Err(e) => Err(e),
        Ok(docs) => emit_spec(cfg, docs),
    }
}

/// Runs generation over in-memory documents and returns the output text;
/// the caller writes it to `config.out_file` only when it changed.
pub fn run(config: &Config, docs: &Vec<DocSource>) -> (r: Result<String, GenError>)
    ensures
        (match r {
            Ok(out) => run_spec(config@, sources_view(docs@)) == Ok::<Seq<char>, GenErrorV>(out@),
            Err(e) => run_spec(config@, sources_view(docs@)) == Err::<Seq<char>, GenErrorV>(e@),
        }),
{
    let suite = match extract_tests(docs) {
        Ok(s) => s,
        Err(e) => {
            return Err(e);
        },
    };
    emit_tests(config, &suite)
}

} // verus!
