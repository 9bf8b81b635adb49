//! The code-block extractor: one Markdown document's event stream becomes
//! tests, combined-group tests and a possible legacy template.
//!
//! The scan keeps a small buffer state machine — idle, collecting a heading,
//! or collecting an eligible code block — and tracks the current section
//! (the most recent heading of level one or two) and the line on which the
//! current block's content starts.

use vstd::prelude::*;
use crate::chars::{clone_opt_string, clone_strings, dec_chars, opt_str_view, push_str_chars,
    string_from_chars, strs_view, usize_to_chars};
use crate::errors::{GenError, GenErrorV};
use crate::info::{parse_code_block_info, parse_info_spec, CodeBlockInfo, CodeBlockInfoV};
use crate::sanitize::{sanitize_chars, sanitize_spec};

verus! {

// ---------------------------------------------------------------------------
// Events
// ---------------------------------------------------------------------------

/// One Markdown event, reduced to what the extractor reads.
pub enum MdEvent {
    /// A heading of the given level opens.
    HeadingStart(u32),
    /// A heading of the given level closes.
    HeadingEnd(u32),
    /// A fenced code block with the given info string opens.
    CodeStart(String),
    /// A code block closes.
    CodeEnd,
    /// A text chunk.
    Text(String),
    /// Anything else.
    Other,
}

/// Mathematical image of [`MdEvent`].
#[verifier::ext_equal]
pub enum MdEventV {
    HeadingStart(u32),
    HeadingEnd(u32),
    CodeStart(Seq<char>),
    CodeEnd,
    Text(Seq<char>),
    Other,
}

impl View for MdEvent {
    type V = MdEventV;

    open spec fn view(&self) -> MdEventV {
        match self {
            MdEvent::HeadingStart(l) => MdEventV::HeadingStart(*l),
            MdEvent::HeadingEnd(l) => MdEventV::HeadingEnd(*l),
            MdEvent::CodeStart(info) => MdEventV::CodeStart(info@),
            MdEvent::CodeEnd => MdEventV::CodeEnd,
            MdEvent::Text(t) => MdEventV::Text(t@),
            MdEvent::Other => MdEventV::Other,
        }
    }
}

/// An event together with the number of newlines before its first byte.
pub struct RawEvent {
    pub line: usize,
    pub kind: MdEvent,
}

/// Mathematical image of [`RawEvent`].
#[verifier::ext_equal]
pub struct RawEventV {
    pub line: nat,
    pub kind: MdEventV,
}

impl View for RawEvent {
    type V = RawEventV;

    open spec fn view(&self) -> RawEventV {
        RawEventV { line: self.line as nat, kind: self.kind@ }
    }
}

/// The views of a sequence of raw events.
pub open spec fn events_view(v: Seq<RawEvent>) -> Seq<RawEventV> {
    v.map_values(|e: RawEvent| e@)
}

#[verifier::external_type_specification]
#[verifier::external_body]
pub struct ExEvent<'a>(pulldown_cmark::Event<'a>);

/// Relies only on the shape of pulldown_cmark's event enum: each variant the
/// extractor reads is mapped to the library's own event kind, moving the
/// heading level, info string or text; everything else becomes `Other`.
/// Indented code blocks are not fenced and open no candidate block.
#[verifier::external_body]
fn convert_event(ev: pulldown_cmark::Event<'_>) -> MdEvent {
    match ev {
        pulldown_cmark::Event::Start(pulldown_cmark::Tag::Heading { level, .. }) => {
            MdEvent::HeadingStart(level as u32)
        },
        pulldown_cmark::Event::End(pulldown_cmark::TagEnd::Heading(level)) => {
            MdEvent::HeadingEnd(level as u32)
        },
        pulldown_cmark::Event::Start(pulldown_cmark::Tag::CodeBlock(
            pulldown_cmark::CodeBlockKind::Fenced(info),
        )) => MdEvent::CodeStart(info.into_string()),
        pulldown_cmark::Event::End(pulldown_cmark::TagEnd::CodeBlock) => MdEvent::CodeEnd,
        pulldown_cmark::Event::Text(t) => MdEvent::Text(t.into_string()),
        _ => MdEvent::Other,
    }
}

/// The event sequence a document scans to; a function of the document text
/// alone.
pub uninterp spec fn md_events_of(s: Seq<char>) -> Seq<RawEventV>;

/// Relies on pulldown_cmark's parser and offset iterator: the events and the
/// byte offset at which each starts are a function of the document text
/// alone; and on bytecount::count, which counts the newline bytes before
/// that offset.
#[verifier::external_body]
pub(crate) fn scan_markdown(s: &str) -> (r: Vec<RawEvent>)
    ensures
        events_view(r@) == md_events_of(s@),
{
    pulldown_cmark::Parser::new(s)
        .into_offset_iter()
        .map(|(ev, rng)| RawEvent {
            line: bytecount::count(&s.as_bytes()[..rng.start], b'\n'),
            kind: convert_event(ev),
        })
        .collect()
}

// ---------------------------------------------------------------------------
// Text chunks as lines
// ---------------------------------------------------------------------------

/// Line-splitting state: the finished lines (each keeping its newline) and
/// the line being collected.
pub open spec fn split_step(acc: (Seq<Seq<char>>, Seq<char>), c: char) -> (Seq<Seq<char>>, Seq<char>) {
    if c == '\n' {
        (acc.0.push(acc.1.push('\n')), Seq::empty())
    } else {
        (acc.0, acc.1.push(c))
    }
}

/// The splitter run over the first `i` characters of `s`.
pub open spec fn split_fold(s: Seq<char>, i: int) -> (Seq<Seq<char>>, Seq<char>)
    decreases i,
{
    if i <= 0 {
        (Seq::empty(), Seq::empty())
    } else {
        split_step(split_fold(s, i - 1), s[i - 1])
    }
}

/// A text chunk as a sequence of lines, each ending with its newline except
/// a possible unterminated last line.
pub open spec fn split_lines(s: Seq<char>) -> Seq<Seq<char>> {
    let f = split_fold(s, s.len() as int);
    if f.1.len() > 0 {
        f.0.push(f.1)
    } else {
        f.0
    }
}

/// Splits a text chunk into its lines.
pub(crate) fn split_lines_exec(s: &str) -> (r: Vec<String>)
    ensures
        strs_view(r@) == split_lines(s@),
{
    let n = s.unicode_len();
    let mut out: Vec<String> = Vec::new();
    let mut cur: Vec<char> = Vec::new();
    let mut i: usize = 0;
    while i < n
        invariant
            n == s@.len(),
            i <= n,
            (strs_view(out@), cur@) == split_fold(s@, i as int),
        decreases n - i,
    {
        let c = s.get_char(i);
        if c == '\n' {
            cur.push('\n');
            out.push(string_from_chars(&cur));
            cur = Vec::new();
            proof {
                assert(strs_view(out@) =~= split_fold(s@, i + 1).0);
            }
        } else {
            cur.push(c);
        }
        i = i + 1;
    }
    if cur.len() > 0 {
        out.push(string_from_chars(&cur));
        proof {
            assert(strs_view(out@) =~= split_lines(s@));
        }
    }
    proof {
        assert(strs_view(out@) =~= split_lines(s@));
    }
    out
}

// ---------------------------------------------------------------------------
// Tests
// ---------------------------------------------------------------------------

/// One contribution to a test: the name of the template asked for (if any)
/// and the block's collected lines.
pub struct TestPart {
    pub template: Option<String>,
    pub text: Vec<String>,
}

/// Mathematical image of [`TestPart`].
#[verifier::ext_equal]
pub struct TestPartV {
    pub template: Option<Seq<char>>,
    pub text: Seq<Seq<char>>,
}

impl View for TestPart {
    type V = TestPartV;

    open spec fn view(&self) -> TestPartV {
        TestPartV {
            template: match self.template {
                Some(ref t) => Some(t@),
                None => None,
            },
            text: strs_view(self.text@),
        }
    }
}

/// One test to be generated.  A non-combined test has exactly one part; a
/// combined test has one part per contributing block, in encounter order.
pub struct Test {
    pub name: String,
    pub parts: Vec<TestPart>,
    pub ignore: bool,
    pub no_run: bool,
    pub should_panic: bool,
    pub combined: bool,
}

/// Mathematical image of [`Test`].
#[verifier::ext_equal]
pub struct TestV {
    pub name: Seq<char>,
    pub parts: Seq<TestPartV>,
    pub ignore: bool,
    pub no_run: bool,
    pub should_panic: bool,
    pub combined: bool,
}

impl View for Test {
    type V = TestV;

    open spec fn view(&self) -> TestV {
        TestV {
            name: self.name@,
            parts: self.parts@.map_values(|p: TestPart| p@),
            ignore: self.ignore,
            no_run: self.no_run,
            should_panic: self.should_panic,
            combined: self.combined,
        }
    }
}

/// The views of a sequence of tests.
pub open spec fn tests_view(v: Seq<Test>) -> Seq<TestV> {
    v.map_values(|t: Test| t@)
}

/// The views of the combined-group accumulation.
pub open spec fn groups_view(v: Seq<(String, Test)>) -> Seq<(Seq<char>, TestV)> {
    v.map_values(|p: (String, Test)| (p.0@, p.1@))
}

/// Pushing distributes over the view maps.
pub proof fn lemma_tests_view_push(s: Seq<Test>, x: Test)
    ensures
        tests_view(s.push(x)) =~= tests_view(s).push(x@),
{
}

/// Pushing distributes over the group view map.
pub proof fn lemma_groups_view_push(s: Seq<(String, Test)>, x: (String, Test))
    ensures
        groups_view(s.push(x)) =~= groups_view(s).push((x.0@, x.1@)),
{
}

/// Removal distributes over the group view map.
pub proof fn lemma_groups_view_remove(s: Seq<(String, Test)>, i: int)
    requires
        0 <= i < s.len(),
    ensures
        groups_view(s.remove(i)) =~= groups_view(s).remove(i),
{
}

/// Insertion distributes over the group view map.
pub proof fn lemma_groups_view_insert(s: Seq<(String, Test)>, i: int, x: (String, Test))
    requires
        0 <= i <= s.len(),
    ensures
        groups_view(s.insert(i, x)) =~= groups_view(s).insert(i, (x.0@, x.1@)),
{
}

// ---------------------------------------------------------------------------
// Names and keys
// ---------------------------------------------------------------------------

/// The name of a non-combined test: the sanitized file stem, the sanitized
/// section if one is active, and the line its content starts on.
pub open spec fn test_name_spec(stem: Seq<char>, section: Option<Seq<char>>, line: nat) -> Seq<char> {
    match section {
        Some(sect) => stem + "_sect_"@ + sect + "_line_"@ + dec_chars(line),
        None => stem + "_line_"@ + dec_chars(line),
    }
}

/// Builds a non-combined test's name.
fn build_test_name(stem: &str, section: &Option<String>, line: usize) -> (r: String)
    ensures
        r@ == test_name_spec(stem@, opt_str_view(*section), line as nat),
{
    let mut v: Vec<char> = Vec::new();
    push_str_chars(&mut v, stem);
    match section {
        Some(sect) => {
            push_str_chars(&mut v, "_sect_");
            push_str_chars(&mut v, sect.as_str());
        },
        None => {},
    }
    push_str_chars(&mut v, "_line_");
    let mut d = usize_to_chars(line);
    v.append(&mut d);
    string_from_chars(&v)
}

/// The key of a combined test: file stem, underscore, group name.
pub open spec fn group_key_spec(stem: Seq<char>, group: Seq<char>) -> Seq<char> {
    stem + seq!['_'] + group
}

/// Builds a combined test's key.
fn build_group_key(stem: &str, group: &str) -> (r: String)
    ensures
        r@ == group_key_spec(stem@, group@),
{
    let mut v: Vec<char> = Vec::new();
    push_str_chars(&mut v, stem);
    v.push('_');
    push_str_chars(&mut v, group);
    proof {
        assert(v@ =~= group_key_spec(stem@, group@));
    }
    string_from_chars(&v)
}

// ---------------------------------------------------------------------------
// The state machine
// ---------------------------------------------------------------------------

/// The collecting buffer.
#[verifier::ext_equal]
pub enum BufferV {
    Idle,
    Code(CodeBlockInfoV, Seq<Seq<char>>),
    Header(Seq<char>),
}

/// The whole extractor state.
#[verifier::ext_equal]
pub struct ExtractStateV {
    pub buffer: BufferV,
    pub section: Option<Seq<char>>,
    pub block_start: nat,
    pub tests: Seq<TestV>,
    pub groups: Seq<(Seq<char>, TestV)>,
    pub old_template: Option<Seq<char>>,
    pub invalid: Option<Seq<char>>,
}

/// The state before any event.
pub open spec fn init_state() -> ExtractStateV {
    ExtractStateV {
        buffer: BufferV::Idle,
        section: None,
        block_start: 0,
        tests: Seq::empty(),
        groups: Seq::empty(),
        old_template: None,
        invalid: None,
    }
}

/// Raw concatenation of collected lines (templates keep their text as is).
pub open spec fn concat_lines(lines: Seq<Seq<char>>) -> Seq<char>
    decreases lines.len(),
{
    if lines.len() == 0 {
        Seq::empty()
    } else {
        concat_lines(lines.drop_last()) + lines.last()
    }
}

/// Index of the first group entry with the given key, or -1.
pub open spec fn find_group(gs: Seq<(Seq<char>, TestV)>, key: Seq<char>) -> int
    decreases gs.len(),
{
    if gs.len() == 0 {
        -1
    } else if gs[0].0 == key {
        0
    } else {
        let r = find_group(gs.drop_first(), key);
        if r < 0 {
            -1
        } else {
            r + 1
        }
    }
}

/// A further part joins a combined test: appended in encounter order, with
/// the run flags or-ed in.
pub open spec fn merge_part(t: TestV, part: TestPartV, no_run: bool, should_panic: bool) -> TestV {
    TestV {
        parts: t.parts.push(part),
        no_run: t.no_run || no_run,
        should_panic: t.should_panic || should_panic,
        ..t
    }
}

/// A fresh combined test from its first part.
pub open spec fn new_group_test(key: Seq<char>, part: TestPartV, no_run: bool, should_panic: bool) -> TestV {
    TestV {
        name: key,
        parts: seq![part],
        ignore: false,
        no_run: no_run,
        should_panic: should_panic,
        combined: true,
    }
}

/// Gets or creates the accumulating test for one group key.
pub open spec fn upsert_group(
    gs: Seq<(Seq<char>, TestV)>,
    key: Seq<char>,
    part: TestPartV,
    no_run: bool,
    should_panic: bool,
) -> Seq<(Seq<char>, TestV)> {
    let j = find_group(gs, key);
    if j < 0 {
        gs.push((key, new_group_test(key, part, no_run, should_panic)))
    } else {
        gs.update(j, (key, merge_part(gs[j].1, part, no_run, should_panic)))
    }
}

/// Routes one block to the first `i` of its combined groups.
pub open spec fn route_groups(
    gs: Seq<(Seq<char>, TestV)>,
    d: CodeBlockInfoV,
    lines: Seq<Seq<char>>,
    stem: Seq<char>,
    i: int,
) -> Seq<(Seq<char>, TestV)>
    decreases i,
{
    if i <= 0 {
        gs
    } else {
        upsert_group(
            route_groups(gs, d, lines, stem, i - 1),
            group_key_spec(stem, d.part_of[i - 1]),
            TestPartV { template: d.named_template, text: lines },
            d.no_run,
            d.should_panic,
        )
    }
}

/// A finished non-combined block as a test.
pub open spec fn plain_test(
    d: CodeBlockInfoV,
    lines: Seq<Seq<char>>,
    stem: Seq<char>,
    section: Option<Seq<char>>,
    start: nat,
) -> TestV {
    TestV {
        name: test_name_spec(stem, section, start),
        parts: seq![TestPartV { template: d.named_template, text: lines }],
        ignore: d.ignore,
        no_run: d.no_run,
        should_panic: d.should_panic,
        combined: false,
    }
}

/// What closing a collected block does: grouped blocks go to their groups
/// (rejecting the invalid combination with a template or ignore directive),
/// a legacy-template block sets the document template — the most recent one
/// wins — and every other block becomes a test.
pub open spec fn finish_block(
    st: ExtractStateV,
    d: CodeBlockInfoV,
    lines: Seq<Seq<char>>,
    stem: Seq<char>,
) -> ExtractStateV {
    if d.part_of.len() > 0 {
        if d.is_legacy_template || d.ignore {
            ExtractStateV { invalid: Some(d.part_of[0]), ..st }
        } else {
            ExtractStateV { groups: route_groups(st.groups, d, lines, stem, d.part_of.len() as int), ..st }
        }
    } else if d.is_legacy_template {
        ExtractStateV { old_template: Some(concat_lines(lines)), ..st }
    } else {
        ExtractStateV { tests: st.tests.push(plain_test(d, lines, stem, st.section, st.block_start)), ..st }
    }
}

/// One event's effect on the extractor state.
pub open spec fn extract_step(st: ExtractStateV, ev: RawEventV, stem: Seq<char>) -> ExtractStateV {
    if st.invalid is Some {
        st
    } else {
        match ev.kind {
            MdEventV::HeadingStart(l) => {
                if l < 3 {
                    ExtractStateV { buffer: BufferV::Header(Seq::empty()), ..st }
                } else {
                    st
                }
            },
            MdEventV::HeadingEnd(l) => {
                if l < 3 {
                    match st.buffer {
                        BufferV::Header(h) => (ExtractStateV {
                            buffer: BufferV::Idle,
                            section: Some(sanitize_spec(h)),
                            ..st
                        }),
                        _ => (ExtractStateV { buffer: BufferV::Idle, ..st }),
                    }
                } else {
                    st
                }
            },
            MdEventV::CodeStart(info) => {
                let d = parse_info_spec(info);
                if d.is_eligible {
                    ExtractStateV { buffer: BufferV::Code(d, Seq::empty()), ..st }
                } else {
                    st
                }
            },
            MdEventV::Text(t) => {
                match st.buffer {
                    BufferV::Code(d, lines) => (ExtractStateV {
                        buffer: BufferV::Code(d, lines + split_lines(t)),
                        block_start: if lines.len() == 0 { ev.line } else { st.block_start },
                        ..st
                    }),
                    BufferV::Header(h) => (ExtractStateV { buffer: BufferV::Header(h + t), ..st }),
                    BufferV::Idle => st,
                }
            },
            MdEventV::CodeEnd => {
                match st.buffer {
                    BufferV::Code(d, lines) => finish_block(
                        ExtractStateV { buffer: BufferV::Idle, ..st },
                        d,
                        lines,
                        stem,
                    ),
                    _ => (ExtractStateV { buffer: BufferV::Idle, ..st }),
                }
            },
            MdEventV::Other => st,
        }
    }
}

/// The extractor run over the first `i` events.
pub open spec fn extract_fold(evs: Seq<RawEventV>, i: int, stem: Seq<char>) -> ExtractStateV
    decreases i,
{
    if i <= 0 {
        init_state()
    } else {
        extract_step(extract_fold(evs, i - 1, stem), evs[i - 1], stem)
    }
}

/// What extracting a whole document means: the ordinary tests in document
/// order, then the combined tests in first-encounter group order, plus the
/// document's legacy template — or the first invalid directive combination.
pub open spec fn extract_spec(s: Seq<char>, stem: Seq<char>) -> Result<(Seq<TestV>, Option<Seq<char>>), GenErrorV> {
    let evs = md_events_of(s);
    let st = extract_fold(evs, evs.len() as int, stem);
    match st.invalid {
        Some(g) => Err(GenErrorV::InvalidDirectives { doc: stem, group: g }),
        None => Ok((st.tests + st.groups.map_values(|p: (Seq<char>, TestV)| p.1), st.old_template)),
    }
}

/// The view of the extraction result.
pub open spec fn extract_result_view(r: Result<(Vec<Test>, Option<String>), GenError>) -> Result<(Seq<TestV>, Option<Seq<char>>), GenErrorV> {
    match r {
        Ok((ts, ot)) => Ok((tests_view(ts@), opt_str_view(ot))),
        Err(e) => Err(e@),
    }
}

// ---------------------------------------------------------------------------
// Executable extraction
// ---------------------------------------------------------------------------

/// The collecting buffer.
enum Buffer {
    Idle,
    Code(CodeBlockInfo, Vec<String>),
    Header(Vec<char>),
}

/// The view of the buffer.
spec fn buffer_view(b: &Buffer) -> BufferV {
    match b {
        Buffer::Idle => BufferV::Idle,
        Buffer::Code(d, lines) => BufferV::Code(d@, strs_view(lines@)),
        Buffer::Header(h) => BufferV::Header(h@),
    }
}

/// Raw concatenation of the collected lines.
pub fn concat_strings(lines: &Vec<String>) -> (r: String)
    ensures
        r@ == concat_lines(strs_view(lines@)),
{
    let mut out: Vec<char> = Vec::new();
    let mut i: usize = 0;
    while i < lines.len()
        invariant
            i <= lines@.len(),
            out@ == concat_lines(strs_view(lines@).take(i as int)),
        decreases lines@.len() - i,
    {
        push_str_chars(&mut out, lines[i].as_str());
        proof {
            let pre = strs_view(lines@).take(i + 1);
            assert(pre.drop_last() =~= strs_view(lines@).take(i as int));
            assert(pre.last() == lines@[i as int]@);
        }
        i = i + 1;
    }
    proof {
        assert(strs_view(lines@).take(lines@.len() as int) =~= strs_view(lines@));
    }
    string_from_chars(&out)
}

/// [`find_group`] read off from a scan position: if nothing before `i`
/// matches, the first match is the first match at or after `i`.
proof fn lemma_find_group_offset(gs: Seq<(Seq<char>, TestV)>, key: Seq<char>, i: int)
    requires
        0 <= i <= gs.len(),
        forall|j: int| 0 <= j < i ==> #[trigger] gs[j].0 != key,
    ensures
        ({
            let r = find_group(gs.skip(i), key);
            find_group(gs, key) == if r < 0 { -1int } else { i + r }
        }),
    decreases i,
{
    if i == 0 {
        assert(gs.skip(0) =~= gs);
    } else {
        assert(gs.len() > 0);
        assert(gs[0].0 != key);
        lemma_find_group_offset(gs.drop_first(), key, i - 1);
        assert(gs.drop_first().skip(i - 1) =~= gs.skip(i));
    }
}

/// Adds one block's part to one combined group.
fn upsert_group_exec(
    groups: &mut Vec<(String, Test)>,
    key: String,
    part: TestPart,
    no_run: bool,
    should_panic: bool,
)
    ensures
        groups_view(final(groups)@) == upsert_group(groups_view(old(groups)@), key@, part@, no_run, should_panic),
{
    let ghost gs = groups_view(groups@);
    let mut i: usize = 0;
    while i < groups.len()
        invariant
            gs == groups_view(old(groups)@),
            gs == groups_view(groups@),
            i <= groups@.len(),
            forall|j: int| 0 <= j < i ==> #[trigger] gs[j].0 != key@,
        decreases groups@.len() - i,
    {
        if groups[i].0 == key {
            proof {
                lemma_find_group_offset(gs, key@, i as int);
                assert(gs.skip(i as int)[0] == gs[i as int]);
                assert(find_group(gs, key@) == i as int);
            }
            let ghost g0 = groups@;
            let (k, t) = groups.remove(i);
            proof {
                lemma_groups_view_remove(g0, i as int);
            }
            let mut parts = t.parts;
            let nr = t.no_run || no_run;
            let sp = t.should_panic || should_panic;
            parts.push(part);
            let merged = Test {
                name: t.name,
                parts: parts,
                ignore: t.ignore,
                no_run: nr,
                should_panic: sp,
                combined: t.combined,
            };
            proof {
                assert(merged@ =~= merge_part(gs[i as int].1, part@, no_run, should_panic));
                assert(merged@.parts =~= gs[i as int].1.parts.push(part@));
            }
            let ghost g1 = groups@;
            groups.insert(i, (k, merged));
            proof {
                lemma_groups_view_insert(g1, i as int, (k, merged));
                assert(groups_view(groups@) =~= gs.remove(i as int).insert(
                    i as int,
                    (key@, merge_part(gs[i as int].1, part@, no_run, should_panic)),
                ));
                assert(groups_view(groups@) =~= upsert_group(gs, key@, part@, no_run, should_panic));
            }
            return;
        }
        i = i + 1;
    }
    proof {
        lemma_find_group_offset(gs, key@, gs.len() as int);
        assert(gs.skip(gs.len() as int).len() == 0);
        assert(find_group(gs, key@) == -1);
    }
    let fresh = Test {
        name: key.clone(),
        parts: {
            let mut p: Vec<TestPart> = Vec::new();
            p.push(part);
            p
        },
        ignore: false,
        no_run: no_run,
        should_panic: should_panic,
        combined: true,
    };
    proof {
        assert(fresh@.parts =~= seq![part@]);
        assert(fresh@ =~= new_group_test(key@, part@, no_run, should_panic));
    }
    let ghost g2 = groups@;
    groups.push((key, fresh));
    proof {
        lemma_groups_view_push(g2, (key, fresh));
        assert(groups_view(groups@) =~= upsert_group(gs, key@, part@, no_run, should_panic));
    }
}

/// Extracts the tests and the legacy template of one document given as text.
/// `file_stem` is the document's sanitized file stem, used in every test
/// name.
pub fn extract_tests_from_string(s: &str, file_stem: &str) -> (r: Result<(Vec<Test>, Option<String>), GenError>)
    ensures
        extract_result_view(r) == extract_spec(s@, file_stem@),
{
    let events = scan_markdown(s);
    let ghost evs = md_events_of(s@);
    let mut buffer = Buffer::Idle;
    let mut section: Option<String> = None;
    let mut block_start: usize = 0;
    let mut tests: Vec<Test> = Vec::new();
    let mut groups: Vec<(String, Test)> = Vec::new();
    let mut old_template: Option<String> = None;
    let mut invalid: Option<String> = None;
    let mut i: usize = 0;
    while i < events.len()
        invariant
            events_view(events@) == evs,
            i <= events@.len(),
            ({
                let st = extract_fold(evs, i as int, file_stem@);
                &&& buffer_view(&buffer) == st.buffer
                &&& opt_str_view(section) == st.section
                &&& block_start as nat == st.block_start
                &&& tests_view(tests@) == st.tests
                &&& groups_view(groups@) == st.groups
                &&& opt_str_view(old_template) == st.old_template
                &&& opt_str_view(invalid) == st.invalid
            }),
        decreases events@.len() - i,
    {
        let ghost st = extract_fold(evs, i as int, file_stem@);
        let ghost st1 = extract_fold(evs, i + 1, file_stem@);
        let ev = &events[i];
        proof {
            assert(evs[i as int] == ev@);
            assert(st1 == extract_step(st, ev@, file_stem@));
        }
        if invalid.is_some() {
            // a rejected directive combination freezes the scan
        } else {
            match &ev.kind {
                MdEvent::HeadingStart(l) => {
                    if *l < 3 {
                        buffer = Buffer::Header(Vec::new());
                        proof {
                            assert(buffer_view(&buffer) =~= st1.buffer);
                        }
                    }
                },
                MdEvent::HeadingEnd(l) => {
                    if *l < 3 {
                        let cur = buffer;
                        buffer = Buffer::Idle;
                        if let Buffer::Header(h) = cur {
                            let sane = sanitize_chars(&h);
                            section = Some(string_from_chars(&sane));
                        }
                    }
                },
                MdEvent::CodeStart(info) => {
                    let d = parse_code_block_info(info.as_str());
                    if d.is_eligible {
                        buffer = Buffer::Code(d, Vec::new());
                        proof {
                            assert(buffer_view(&buffer) =~= st1.buffer);
                        }
                    }
                },
                MdEvent::Text(t) => {
                    let cur = buffer;
                    match cur {
                        Buffer::Code(d, mut lines) => {
                            if lines.len() == 0 {
                                block_start = ev.line;
                            }
                            let ghost lines0 = strs_view(lines@);
                            let mut nl = split_lines_exec(t.as_str());
                            lines.append(&mut nl);
                            proof {
                                assert(strs_view(lines@) =~= lines0 + split_lines(t@));
                            }
                            buffer = Buffer::Code(d, lines);
                        },
                        Buffer::Header(mut h) => {
                            push_str_chars(&mut h, t.as_str());
                            buffer = Buffer::Header(h);
                        },
                        Buffer::Idle => {
                            buffer = Buffer::Idle;
                        },
                    }
                },
                MdEvent::CodeEnd => {
                    let cur = buffer;
                    buffer = Buffer::Idle;
                    if let Buffer::Code(d, lines) = cur {
                        if d.part_of.len() > 0 {
                            if d.is_legacy_template || d.ignore {
                                invalid = Some(d.part_of[0].clone());
                            } else {
                                let ghost gs0 = groups_view(groups@);
                                let mut g: usize = 0;
                                while g < d.part_of.len()
                                    invariant
                                        g <= d.part_of@.len(),
                                        groups_view(groups@) == route_groups(
                                            gs0,
                                            d@,
                                            strs_view(lines@),
                                            file_stem@,
                                            g as int,
                                        ),
                                    decreases d.part_of@.len() - g,
                                {
                                    let key = build_group_key(file_stem, d.part_of[g].as_str());
                                    let part = TestPart {
                                        template: clone_opt_string(&d.named_template),
                                        text: clone_strings(&lines),
                                    };
                                    proof {
                                        assert(part@ =~= (TestPartV {
                                            template: d@.named_template,
                                            text: strs_view(lines@),
                                        }));
                                        assert(d@.part_of[g as int] == d.part_of@[g as int]@);
                                    }
                                    upsert_group_exec(&mut groups, key, part, d.no_run, d.should_panic);
                                    g = g + 1;
                                }
                            }
                        } else if d.is_legacy_template {
                            old_template = Some(concat_strings(&lines));
                        } else {
                            let ghost dv = d@;
                            let ghost gl = strs_view(lines@);
                            let name = build_test_name(file_stem, &section, block_start);
                            let mut parts: Vec<TestPart> = Vec::new();
                            parts.push(TestPart { template: d.named_template, text: lines });
                            let t = Test {
                                name: name,
                                parts: parts,
                                ignore: d.ignore,
                                no_run: d.no_run,
                                should_panic: d.should_panic,
                                combined: false,
                            };
                            proof {
                                assert(t@.parts =~= seq![TestPartV { template: dv.named_template, text: gl }]);
                            }
                            let ghost t0 = tests@;
                            tests.push(t);
                            proof {
                                lemma_tests_view_push(t0, t);
                                assert(tests_view(tests@) =~= st1.tests);
                            }
                        }
                    }
                },
                MdEvent::Other => {},
            }
        }
        proof {
            assert(buffer_view(&buffer) =~= st1.buffer);
            assert(tests_view(tests@) =~= st1.tests);
            assert(groups_view(groups@) =~= st1.groups);
        }
        i = i + 1;
    }
    proof {
        assert(evs.len() == events@.len());
    }
    if let Some(g) = invalid {
        return Err(GenError::InvalidDirectives { doc: file_stem.to_owned(), group: g });
    }
    let mut all = tests;
    let ghost stf = extract_fold(evs, evs.len() as int, file_stem@);
    while groups.len() > 0
        invariant
            tests_view(all@) + groups_view(groups@).map_values(|p: (Seq<char>, TestV)| p.1)
                == stf.tests + stf.groups.map_values(|p: (Seq<char>, TestV)| p.1),
        decreases groups@.len(),
    {
        let p = groups.remove(0);
        all.push(p.1);
        proof {
            assert(tests_view(all@) + groups_view(groups@).map_values(|q: (Seq<char>, TestV)| q.1)
                =~= stf.tests + stf.groups.map_values(|q: (Seq<char>, TestV)| q.1));
        }
    }
    proof {
        assert(tests_view(all@) =~= stf.tests + stf.groups.map_values(|p: (Seq<char>, TestV)| p.1));
    }
    Ok((all, old_template))
}


// ---------------------------------------------------------------------------
// Laws of the extractor
// ---------------------------------------------------------------------------

/// A non-candidate block contributes nothing: its opening changes no state,
/// so nothing of its body is ever collected.
pub proof fn lemma_non_candidate_block_ignored(
    st: ExtractStateV,
    info: Seq<char>,
    line: nat,
    stem: Seq<char>,
)
    requires
        !parse_info_spec(info).is_eligible,
    ensures
        extract_step(st, RawEventV { line: line, kind: MdEventV::CodeStart(info) }, stem) == st,
{
}

/// An ordinary block — no group, no template definition — becomes exactly
/// one test, appended in document order and named after the stem, the
/// current section and the line its content starts on.
pub proof fn lemma_plain_block_naming(
    st: ExtractStateV,
    d: CodeBlockInfoV,
    lines: Seq<Seq<char>>,
    stem: Seq<char>,
)
    requires
        d.part_of.len() == 0,
        !d.is_legacy_template,
    ensures
        ({
            let t = plain_test(d, lines, stem, st.section, st.block_start);
            &&& finish_block(st, d, lines, stem).tests == st.tests.push(t)
            &&& t.name == test_name_spec(stem, st.section, st.block_start)
            &&& t.parts == seq![TestPartV { template: d.named_template, text: lines }]
            &&& !t.combined
        }),
{
}

/// A legacy-template block never yields a test: it sets the document
/// template to its raw text, the most recently encountered block winning.
pub proof fn lemma_legacy_block_sets_template(
    st: ExtractStateV,
    d: CodeBlockInfoV,
    lines: Seq<Seq<char>>,
    stem: Seq<char>,
)
    requires
        d.part_of.len() == 0,
        d.is_legacy_template,
    ensures
        finish_block(st, d, lines, stem).old_template == Some(concat_lines(lines)),
        finish_block(st, d, lines, stem).tests == st.tests,
        finish_block(st, d, lines, stem).groups == st.groups,
{
}

/// The document template changes at no other step: unless the event closes
/// a collected legacy block, it is carried through unchanged — so it is
/// still there after the scan when a block anywhere declared it, and absent
/// when none did.
pub proof fn lemma_old_template_only_from_legacy_blocks(
    st: ExtractStateV,
    ev: RawEventV,
    stem: Seq<char>,
)
    ensures
        ({
            let st1 = extract_step(st, ev, stem);
            ||| st1.old_template == st.old_template
            ||| (st.invalid is None && ev.kind is CodeEnd && st.buffer is Code
                && st.buffer->Code_0.is_legacy_template && st.buffer->Code_0.part_of.len() == 0
                && st1.old_template == Some(concat_lines(st.buffer->Code_1)))
        }),
{
}

/// Appending a pair under a fresh key puts it at the end.
proof fn lemma_find_group_push_miss(gs: Seq<(Seq<char>, TestV)>, key: Seq<char>, x: (Seq<char>, TestV))
    requires
        find_group(gs, key) < 0,
        x.0 == key,
    ensures
        find_group(gs.push(x), key) == gs.len(),
    decreases gs.len(),
{
    if gs.len() == 0 {
        assert(gs.push(x)[0] == x);
        assert(gs.push(x).drop_first() =~= Seq::<(Seq<char>, TestV)>::empty());
    } else {
        assert(gs[0].0 != key);
        assert(gs.push(x)[0] == gs[0]);
        lemma_find_group_push_miss(gs.drop_first(), key, x);
        assert(gs.push(x).drop_first() =~= gs.drop_first().push(x));
    }
}

/// Two blocks of one combined group make one test: with the group unseen,
/// routing two parts under one key adds exactly one entry named by the key,
/// its parts in encounter order and its run flags or-ed; everything already
/// accumulated stays untouched.
pub proof fn lemma_combined_parts_in_order(
    gs: Seq<(Seq<char>, TestV)>,
    key: Seq<char>,
    p1: TestPartV,
    p2: TestPartV,
    nr1: bool,
    sp1: bool,
    nr2: bool,
    sp2: bool,
)
    requires
        find_group(gs, key) < 0,
    ensures
        ({
            let g2 = upsert_group(upsert_group(gs, key, p1, nr1, sp1), key, p2, nr2, sp2);
            &&& g2.len() == gs.len() + 1
            &&& g2[gs.len() as int] == (key, TestV {
                name: key,
                parts: seq![p1, p2],
                ignore: false,
                no_run: nr1 || nr2,
                should_panic: sp1 || sp2,
                combined: true,
            })
            &&& forall|j: int| 0 <= j < gs.len() ==> #[trigger] g2[j] == gs[j]
        }),
{
    let t1 = new_group_test(key, p1, nr1, sp1);
    let g1 = gs.push((key, t1));
    assert(upsert_group(gs, key, p1, nr1, sp1) == g1);
    lemma_find_group_push_miss(gs, key, (key, t1));
    let merged = merge_part(t1, p2, nr2, sp2);
    let g2 = g1.update(gs.len() as int, (key, merged));
    assert(upsert_group(g1, key, p2, nr2, sp2) == g2);
    assert(merged.parts =~= seq![p1, p2]);
    assert(merged =~= (TestV {
        name: key,
        parts: seq![p1, p2],
        ignore: false,
        no_run: nr1 || nr2,
        should_panic: sp1 || sp2,
        combined: true,
    }));
}

} // verus!
