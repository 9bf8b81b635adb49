//! The template store: a document's companion template file associates
//! template names with template bodies.
//!
//! The companion file is parsed like the main document, restricted to
//! collecting named templates: every eligible block carrying a named-template
//! token contributes its text as that template's body.  A template
//! definition must not itself declare combined-group membership.

use vstd::prelude::*;
use crate::errors::{GenError, GenErrorV};
use crate::extract::{concat_lines, md_events_of, split_lines, MdEventV, RawEventV};
use crate::info::{parse_code_block_info, parse_info_spec, CodeBlockInfo, CodeBlockInfoV};

verus! {

/// The views of a name-to-body template map.
pub open spec fn tmap_view(v: Seq<(String, String)>) -> Seq<(Seq<char>, Seq<char>)> {
    v.map_values(|p: (String, String)| (p.0@, p.1@))
}

/// Index of the first map entry with the given key, or -1.
pub open spec fn find_template(m: Seq<(Seq<char>, Seq<char>)>, key: Seq<char>) -> int
    decreases m.len(),
{
    if m.len() == 0 {
        -1
    } else if m[0].0 == key {
        0
    } else {
        let r = find_template(m.drop_first(), key);
        if r < 0 {
            -1
        } else {
            r + 1
        }
    }
}

/// Binds a name to a body, replacing an earlier binding of the same name.
pub open spec fn tmap_insert(m: Seq<(Seq<char>, Seq<char>)>, key: Seq<char>, body: Seq<char>) -> Seq<(Seq<char>, Seq<char>)> {
    let j = find_template(m, key);
    if j < 0 {
        m.push((key, body))
    } else {
        m.update(j, (key, body))
    }
}

/// Template-store scanner state: the block being collected and the map so
/// far, or the name on which an invalid definition was found.
#[verifier::ext_equal]
pub struct TemplateStateV {
    pub buffer: Option<(CodeBlockInfoV, Seq<Seq<char>>)>,
    pub map: Seq<(Seq<char>, Seq<char>)>,
    pub invalid: Option<Seq<char>>,
}

/// The scanner state before any event.
pub open spec fn tmpl_init() -> TemplateStateV {
    TemplateStateV { buffer: None, map: Seq::empty(), invalid: None }
}

/// One event's effect on the template-store scanner.
pub open spec fn tmpl_step(st: TemplateStateV, ev: RawEventV) -> TemplateStateV {
    if st.invalid is Some {
        st
    } else {
        match ev.kind {
            MdEventV::CodeStart(info) => {
                let d = parse_info_spec(info);
                if d.is_eligible {
                    TemplateStateV { buffer: Some((d, Seq::empty())), ..st }
                } else {
                    st
                }
            },
            MdEventV::Text(t) => {
                match st.buffer {
                    Some((d, lines)) => (TemplateStateV {
                        buffer: Some((d, lines + split_lines(t))),
                        ..st
                    }),
                    None => st,
                }
            },
            MdEventV::CodeEnd => {
                match st.buffer {
                    Some((d, lines)) => {
                        let st0 = TemplateStateV { buffer: None, ..st };
                        match d.named_template {
                            Some(name) => {
                                if d.part_of.len() > 0 {
                                    TemplateStateV { invalid: Some(name), ..st0 }
                                } else {
                                    TemplateStateV {
                                        map: tmap_insert(st0.map, name, concat_lines(lines)),
                                        ..st0
                                    }
                                }
                            },
                            None => st0,
                        }
                    },
                    None => st,
                }
            },
            _ => st,
        }
    }
}

/// The scanner run over the first `i` events.
pub open spec fn tmpl_fold(evs: Seq<RawEventV>, i: int) -> TemplateStateV
    decreases i,
{
    if i <= 0 {
        tmpl_init()
    } else {
        tmpl_step(tmpl_fold(evs, i - 1), evs[i - 1])
    }
}

/// What loading a template file means: no companion file gives the empty
/// map; otherwise the named templates of its eligible blocks, the latest
/// definition of a name winning — unless a definition also declares a
/// combined group, which is rejected.
pub open spec fn load_templates_spec(contents: Option<Seq<char>>, doc: Seq<char>) -> Result<Seq<(Seq<char>, Seq<char>)>, GenErrorV> {
    match contents {
        None => Ok(Seq::empty()),
        Some(s) => {
            let evs = md_events_of(s);
            let st = tmpl_fold(evs, evs.len() as int);
            match st.invalid {
                Some(name) => Err(GenErrorV::InvalidDirectives { doc: doc, group: name }),
                None => Ok(st.map),
            }
        },
    }
}

/// The view of the loading result.
pub open spec fn load_result_view(r: Result<Vec<(String, String)>, GenError>) -> Result<Seq<(Seq<char>, Seq<char>)>, GenErrorV> {
    match r {
        Ok(m) => Ok(tmap_view(m@)),
        Err(e) => Err(e@),
    }
}

/// [`find_template`] read off from a scan position.
proof fn lemma_find_template_offset(m: Seq<(Seq<char>, Seq<char>)>, key: Seq<char>, i: int)
    requires
        0 <= i <= m.len(),
        forall|j: int| 0 <= j < i ==> #[trigger] m[j].0 != key,
    ensures
        ({
            let r = find_template(m.skip(i), key);
            find_template(m, key) == if r < 0 { -1int } else { i + r }
        }),
    decreases i,
{
    if i == 0 {
        assert(m.skip(0) =~= m);
    } else {
        assert(m[0].0 != key);
        lemma_find_template_offset(m.drop_first(), key, i - 1);
        assert(m.drop_first().skip(i - 1) =~= m.skip(i));
    }
}

/// Insertion and update distribute over the map view.
proof fn lemma_tmap_view_push(s: Seq<(String, String)>, x: (String, String))
    ensures
        tmap_view(s.push(x)) =~= tmap_view(s).push((x.0@, x.1@)),
{
}

proof fn lemma_tmap_view_remove(s: Seq<(String, String)>, i: int)
    requires
        0 <= i < s.len(),
    ensures
        tmap_view(s.remove(i)) =~= tmap_view(s).remove(i),
{
}

proof fn lemma_tmap_view_insert(s: Seq<(String, String)>, i: int, x: (String, String))
    requires
        0 <= i <= s.len(),
    ensures
        tmap_view(s.insert(i, x)) =~= tmap_view(s).insert(i, (x.0@, x.1@)),
{
}

/// Binds a name to a body in the executable map.
fn tmap_insert_exec(map: &mut Vec<(String, String)>, key: String, body: String)
    ensures
        tmap_view(final(map)@) == tmap_insert(tmap_view(old(map)@), key@, body@),
{
    let ghost m0 = tmap_view(map@);
    let mut i: usize = 0;
    while i < map.len()
        invariant
            m0 == tmap_view(old(map)@),
            m0 == tmap_view(map@),
            i <= map@.len(),
            forall|j: int| 0 <= j < i ==> #[trigger] m0[j].0 != key@,
        decreases map@.len() - i,
    {
        if map[i].0 == key {
            proof {
                lemma_find_template_offset(m0, key@, i as int);
                assert(m0.skip(i as int)[0] == m0[i as int]);
                assert(find_template(m0, key@) == i as int);
            }
            let ghost g0 = map@;
            let _old = map.remove(i);
            proof {
                lemma_tmap_view_remove(g0, i as int);
            }
            let ghost g1 = map@;
            map.insert(i, (key, body));
            proof {
                lemma_tmap_view_insert(g1, i as int, (key, body));
                assert(tmap_view(map@) =~= tmap_insert(m0, key@, body@));
            }
            return;
        }
        i = i + 1;
    }
    proof {
        lemma_find_template_offset(m0, key@, m0.len() as int);
        assert(m0.skip(m0.len() as int).len() == 0);
        assert(find_template(m0, key@) == -1);
    }
    let ghost g2 = map@;
    map.push((key, body));
    proof {
        lemma_tmap_view_push(g2, (key, body));
        assert(tmap_view(map@) =~= tmap_insert(m0, key@, body@));
    }
}

/// Looks a template body up by name.
pub fn template_lookup(map: &Vec<(String, String)>, key: &str) -> (r: Option<String>)
    ensures
        ({
            let j = find_template(tmap_view(map@), key@);
            match r {
                Some(body) => j >= 0 && body@ == tmap_view(map@)[j].1,
                None => j < 0,
            }
        }),
{
    let ghost m0 = tmap_view(map@);
    let mut i: usize = 0;
    while i < map.len()
        invariant
            m0 == tmap_view(map@),
            i <= map@.len(),
            forall|j: int| 0 <= j < i ==> #[trigger] m0[j].0 != key@,
        decreases map@.len() - i,
    {
        if crate::chars::str_eq_str(map[i].0.as_str(), key) {
            proof {
                lemma_find_template_offset(m0, key@, i as int);
                assert(m0.skip(i as int)[0] == m0[i as int]);
            }
            return Some(map[i].1.clone());
        }
        i = i + 1;
    }
    proof {
        lemma_find_template_offset(m0, key@, m0.len() as int);
        assert(m0.skip(m0.len() as int).len() == 0);
    }
    None
}

/// Loads the named templates of a document's companion template file, given
/// its contents — or the empty map where no companion file exists.  `doc`
/// names the document for error reporting.
pub fn load_templates(contents: Option<&str>, doc: &str) -> (r: Result<Vec<(String, String)>, GenError>)
    ensures
        load_result_view(r) == load_templates_spec(
            match contents {
                Some(c) => Some(c@),
                None => None,
            },
            doc@,
        ),
{
    let s = match contents {
        None => {
            let empty: Vec<(String, String)> = Vec::new();
            proof {
                assert(tmap_view(empty@) =~= Seq::<(Seq<char>, Seq<char>)>::empty());
            }
            return Ok(empty);
        },
        Some(s) => s,
    };
    let events = crate::extract::scan_markdown(s);
    let ghost evs = md_events_of(s@);
    let mut buffer: Option<(CodeBlockInfo, Vec<String>)> = None;
    let mut map: Vec<(String, String)> = Vec::new();
    let mut invalid: Option<String> = None;
    let mut i: usize = 0;
    while i < events.len()
        invariant
            crate::extract::events_view(events@) == evs,
            i <= events@.len(),
            ({
                let st = tmpl_fold(evs, i as int);
                &&& match buffer {
                    Some((d, lines)) => st.buffer == Some((d@, crate::chars::strs_view(lines@))),
                    None => st.buffer is None,
                }
                &&& tmap_view(map@) == st.map
                &&& crate::chars::opt_str_view(invalid) == st.invalid
            }),
        decreases events@.len() - i,
    {
        let ghost st = tmpl_fold(evs, i as int);
        let ghost st1 = tmpl_fold(evs, i + 1);
        let ev = &events[i];
        proof {
            assert(evs[i as int] == ev@);
            assert(st1 == tmpl_step(st, ev@));
        }
        if invalid.is_some() {
            // a rejected template definition freezes the scan
        } else {
            match &ev.kind {
                crate::extract::MdEvent::CodeStart(info) => {
                    let d = parse_code_block_info(info.as_str());
                    if d.is_eligible {
                        buffer = Some((d, Vec::new()));
                        proof {
                            assert(crate::chars::strs_view(Seq::<String>::empty()) =~= Seq::<Seq<char>>::empty());
                        }
                    }
                },
                crate::extract::MdEvent::Text(t) => {
                    let cur = buffer;
                    match cur {
                        Some((d, mut lines)) => {
                            let ghost lines0 = crate::chars::strs_view(lines@);
                            let mut nl = crate::extract::split_lines_exec(t.as_str());
                            lines.append(&mut nl);
                            proof {
                                assert(crate::chars::strs_view(lines@) =~= lines0 + split_lines(t@));
                            }
                            buffer = Some((d, lines));
                        },
                        None => {
                            buffer = None;
                        },
                    }
                },
                crate::extract::MdEvent::CodeEnd => {
                    let cur = buffer;
                    buffer = None;
                    if let Some((d, lines)) = cur {
                        if let Some(name) = d.named_template {
                            if d.part_of.len() > 0 {
                                invalid = Some(name);
                            } else {
                                let body = crate::extract::concat_strings(&lines);
                                tmap_insert_exec(&mut map, name, body);
                            }
                        }
                    }
                },
                _ => {},
            }
        }
        i = i + 1;
    }
    proof {
        assert(evs.len() == events@.len());
    }
    if let Some(name) = invalid {
        return Err(GenError::InvalidDirectives { doc: doc.to_owned(), group: name });
    }
    Ok(map)
}

} // verus!
