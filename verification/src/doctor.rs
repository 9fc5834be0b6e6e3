//! The check of the tools and of the project context before any model is
//! called.
use vstd::prelude::*;
use crate::agent::{
    adapter_kind_label, bin_path, caps_for_tool, caps_of, found_path, kind_label, status_doc,
    tool_info_status_json, FoundBin,
};
use crate::build_info::{build_doc, json, BuildRecord};
use crate::context::{estimated_tokens, tokens_of, DEFAULT_CONTEXT_BUDGET_CHARS};
use crate::error::TalesError;
use crate::json::{
    doc_str, docs, jbool, jnum, jstr, jtexts, lemma_docs_push, list, member, null, num, text,
    text_list, truth, Doc, Fields, Json,
};
use crate::labels::{caps_line, context_fit_label, fit_label, format_caps};
use crate::numeral::{dec, decimal_size};
use crate::project_context::ProjectContext;
use crate::registry::{known_rows, known_tools, row_of, rows, tool_info, ToolInfo, ToolRow};
use crate::roster::{
    distinct_keys, is_named, named, pairs, roster_advice, roster_problem, tool_roster_advice_json,
    validate_roster,
};
use crate::text::{
    char_count, copy_texts, flat, join_texts, lemma_flat_push, lemma_texts_push, opt_str, texts,
};

verus! {

// ---- What is checked -------------------------------------------------------

/// The keys of all known tools.
pub open spec fn known_keys() -> Seq<Seq<char>> {
    Seq::new(known_rows().len(), |i: int| known_rows()[i].key)
}

/// The tools to check, and whether each of them is needed: every known tool
/// where all were asked for, the ones that were named, or the two main ones.
/// Nothing where tools were named although all were asked for.
pub open spec fn targets_of(all: bool, agents: Seq<Seq<char>>) -> Option<(Seq<Seq<char>>, bool)> {
    if all && agents.len() > 0 {
        None
    } else if all {
        Some((known_keys(), false))
    } else if agents.len() == 0 {
        Some((seq!["anthropic"@, "codex"@], true))
    } else {
        Some((agents, true))
    }
}

/// The tools to check, and whether each of them is needed.
pub fn doctor_targets(all: bool, agents: &Vec<String>) -> (r: Result<(Vec<String>, bool), String>)
    ensures
        match r {
            Ok((keys, strict)) => targets_of(all, texts(agents@)) == Some((texts(keys@), strict)),
            Err(m) => targets_of(all, texts(agents@)) is None && m@
                == "--all cannot be combined with --agent"@,
        },
{
    if all && agents.len() > 0 {
        return Err("--all cannot be combined with --agent".to_owned());
    }
    if all {
        let tools = known_tools();
        let ghost one = |i: int| known_rows()[i].key;
        let mut keys: Vec<String> = Vec::new();
        let mut i: usize = 0;
        proof {
            assert(texts(keys@) =~= Seq::new(0, one));
        }
        while i < tools.len()
            invariant
                i <= tools.len(),
                rows(tools@) == known_rows(),
                one == (|i: int| known_rows()[i].key),
                texts(keys@) == Seq::new(i as nat, one),
            decreases tools.len() - i,
        {
            let key = tools[i].key.to_owned();
            proof {
                assert(rows(tools@)[i as int] == tools@[i as int]@);
                lemma_texts_push(keys@, key);
                assert(Seq::new((i + 1) as nat, one) =~= Seq::new(i as nat, one).push(key@));
            }
            keys.push(key);
            i = i + 1;
        }
        proof {
            assert(rows(tools@).len() == tools@.len());
            assert(texts(keys@) =~= known_keys());
        }
        return Ok((keys, false));
    }
    if agents.len() == 0 {
        let keys = vec!["anthropic".to_owned(), "codex".to_owned()];
        proof {
            assert(texts(keys@) =~= seq!["anthropic"@, "codex"@]);
        }
        return Ok((keys, true));
    }
    Ok((copy_texts(agents), true))
}

/// The keys without those that occur before, whatever the case of their
/// letters.
pub fn unique_tool_keys(keys: &Vec<String>) -> (r: Vec<String>)
    ensures
        texts(r@) == distinct_keys(texts(keys@)),
{
    let ghost all = texts(keys@);
    let mut out: Vec<String> = Vec::new();
    let mut i: usize = 0;
    proof {
        assert(all.take(0) =~= Seq::empty());
        assert(texts(out@) =~= Seq::empty());
    }
    while i < keys.len()
        invariant
            i <= keys.len(),
            all == texts(keys@),
            texts(out@) == distinct_keys(all.take(i as int)),
        decreases keys.len() - i,
    {
        proof {
            assert(all.take(i + 1).drop_last() =~= all.take(i as int));
            assert(all.take(i + 1).last() == all[i as int]);
        }
        if !is_named(&out, keys[i].as_str()) {
            let key = keys[i].clone();
            proof {
                lemma_texts_push(out@, key);
            }
            out.push(key);
        }
        i = i + 1;
    }
    proof {
        assert(all.take(i as int) =~= all);
    }
    out
}

/// No two of the keys name the same tool.
pub proof fn law_checked_tools_are_distinct(keys: Seq<Seq<char>>, i: int, j: int)
    requires
        0 <= i < j < distinct_keys(keys).len(),
    ensures
        !crate::text::same_ci(distinct_keys(keys)[i], distinct_keys(keys)[j]),
    decreases keys.len(),
{
    let before = distinct_keys(keys.drop_last());
    if named(before, keys.last()) {
        law_checked_tools_are_distinct(keys.drop_last(), i, j);
    } else if j < before.len() {
        law_checked_tools_are_distinct(keys.drop_last(), i, j);
    } else {
        assert(distinct_keys(keys)[i] == before[i]);
    }
}

// ---- Advice on the roster --------------------------------------------------

/// The role that a tool at a place would have.
pub open spec fn role_at(i: int) -> Seq<char> {
    if i == 0 {
        "drafter"@
    } else if i == 1 {
        "critic"@
    } else if i == 2 {
        "executor"@
    } else {
        "tool"@
    }
}

/// The tools with the roles that they would have.
pub open spec fn cast_of(targets: Seq<Seq<char>>) -> Seq<(Seq<char>, Seq<char>)> {
    Seq::new(targets.len(), |i: int| (role_at(i), targets[i]))
}

/// What is advised on a roster made of the tools.
pub fn roster_advice_for_targets(targets: &Vec<String>) -> (r: Vec<Json>)
    ensures
        docs(r@) == roster_advice(cast_of(texts(targets@))),
{
    let ghost one = |i: int| (role_at(i), texts(targets@)[i]);
    let mut roster: Vec<(&str, &str)> = Vec::new();
    let mut i: usize = 0;
    proof {
        assert(pairs(roster@) =~= Seq::new(0, one));
    }
    while i < targets.len()
        invariant
            i <= targets.len(),
            one == (|i: int| (role_at(i), texts(targets@)[i])),
            pairs(roster@) == Seq::new(i as nat, one),
        decreases targets.len() - i,
    {
        let role: &str = match i {
            0 => "drafter",
            1 => "critic",
            2 => "executor",
            _ => "tool",
        };
        let key: &str = targets[i].as_str();
        let ghost was = roster@;
        roster.push((role, key));
        proof {
            assert(pairs(roster@) =~= pairs(was).push((role@, key@)));
            assert(Seq::new((i + 1) as nat, one) =~= Seq::new(i as nat, one).push((role@, key@)));
        }
        i = i + 1;
    }
    proof {
        assert(pairs(roster@) =~= cast_of(texts(targets@)));
    }
    tool_roster_advice_json(&roster)
}

pub open spec fn text_in(d: Doc, name: Seq<char>, other: Seq<char>) -> Seq<char> {
    match doc_str(member(d, name)) {
        Some(s) => s,
        None => other,
    }
}

fn str_in<'a>(j: &'a Json, name: &str, other: &'a str) -> (r: &'a str)
    ensures
        r@ == text_in(j@, name@, other@),
{
    match j.get(name) {
        Some(v) => match v.as_str() {
            Some(s) => s,
            None => other,
        },
        None => other,
    }
}

/// The line on a piece of advice.
pub open spec fn advice_line(d: Doc) -> Seq<char> {
    "- "@ + text_in(d, "level"@, "info"@) + ": "@ + text_in(d, "title"@, "advice"@) + " - "@
        + text_in(d, "detail"@, ""@) + "\n"@
}

/// What is shown of advice on a roster.
pub open spec fn advice_text(advice: Seq<Doc>) -> Seq<char> {
    if advice.len() == 0 {
        Seq::empty()
    } else {
        "\nRoster advice\n"@ + flat(Seq::new(advice.len(), |i: int| advice_line(advice[i])))
    }
}

fn write_advice_line(item: &Json) -> (r: String)
    ensures
        r@ == advice_line(item@),
{
    let mut out = "- ".to_owned();
    out.append(str_in(item, "level", "info"));
    out.append(": ");
    out.append(str_in(item, "title", "advice"));
    out.append(" - ");
    out.append(str_in(item, "detail", ""));
    out.append("\n");
    out
}

/// What is shown of advice on a roster.
pub fn roster_advice_text(advice: &Vec<Json>) -> (r: String)
    ensures
        r@ == advice_text(docs(advice@)),
{
    if advice.len() == 0 {
        let r = String::new();
        proof {
            assert(r@ =~= Seq::empty());
        }
        return r;
    }
    let ghost one = |i: int| advice_line(docs(advice@)[i]);
    let mut lines = String::new();
    let mut i: usize = 0;
    proof {
        assert(flat(Seq::new(0, one)) =~= Seq::empty());
        assert(lines@ =~= Seq::empty());
    }
    while i < advice.len()
        invariant
            i <= advice.len(),
            one == (|i: int| advice_line(docs(advice@)[i])),
            lines@ == flat(Seq::new(i as nat, one)),
        decreases advice.len() - i,
    {
        lines.append(write_advice_line(&advice[i]).as_str());
        proof {
            lemma_flat_push(Seq::new(i as nat, one), one(i as int));
            assert(Seq::new((i + 1) as nat, one) =~= Seq::new(i as nat, one).push(one(i as int)));
        }
        i = i + 1;
    }
    proof {
        assert(Seq::new(i as nat, one) =~= Seq::new(
            docs(advice@).len(),
            |i: int| advice_line(docs(advice@)[i]),
        ));
    }
    let mut out = "\nRoster advice\n".to_owned();
    out.append(lines.as_str());
    out
}

// ---- The tools -------------------------------------------------------------

/// What is wrong with a tool.
pub open spec fn tool_failure(key: Seq<char>, strict: bool, found: Seq<FoundBin>) -> Option<
    Seq<char>,
> {
    match row_of(key) {
        None => Some("unknown tool '"@ + key + "'"@),
        Some(row) => if strict && found_path(found, row.bin) is None {
            Some(row.pretty + " CLI missing from PATH"@)
        } else {
            None
        },
    }
}

/// What is wrong with the tools, in their order.
pub open spec fn tool_failures(keys: Seq<Seq<char>>, strict: bool, found: Seq<FoundBin>) -> Seq<
    Seq<char>,
>
    decreases keys.len(),
{
    if keys.len() == 0 {
        Seq::empty()
    } else {
        let before = tool_failures(keys.drop_last(), strict, found);
        match tool_failure(keys.last(), strict, found) {
            Some(f) => before.push(f),
            None => before,
        }
    }
}

/// All that is wrong: with the roster, and with the tools.
pub open spec fn failures_of(targets: Seq<Seq<char>>, strict: bool, found: Seq<FoundBin>) -> Seq<
    Seq<char>,
> {
    (match roster_problem(targets) {
        Some(p) => seq![p],
        None => Seq::empty(),
    }) + tool_failures(distinct_keys(targets), strict, found)
}

/// The document on a tool.
pub open spec fn tool_doc(key: Seq<char>, strict: bool, found: Seq<FoundBin>) -> Doc {
    match row_of(key) {
        None => Doc::Obj(
            seq![
                ("key"@, jstr(key)),
                ("known"@, jbool(false)),
                ("installed"@, jbool(false)),
                ("blocking"@, jbool(strict)),
                ("error"@, jstr("unknown tool '"@ + key + "'"@)),
            ],
        ),
        Some(row) => Doc::Obj(
            status_doc(row, found_path(found, row.bin))->Obj_0.push(
                ("blocking"@, jbool(strict && found_path(found, row.bin) is None)),
            ),
        ),
    }
}

/// What is wrong with a tool.
pub fn doctor_tool_failure(key: &str, strict: bool, found: &Vec<FoundBin>) -> (r: Option<String>)
    ensures
        crate::text::opt_text(r) == tool_failure(key@, strict, found@),
{
    match tool_info(key) {
        None => {
            let mut m = "unknown tool '".to_owned();
            m.append(key);
            m.append("'");
            Some(m)
        },
        Some(info) => {
            if strict && bin_path(info.bin, found).is_none() {
                let mut m = info.pretty.to_owned();
                m.append(" CLI missing from PATH");
                Some(m)
            } else {
                None
            }
        },
    }
}

/// An object with one more field behind the others.
fn with_field(object: Json, name: &str, value: Json) -> (r: Json)
    requires
        object@ is Obj,
    ensures
        r@ == Doc::Obj(object@->Obj_0.push((name@, value@))),
{
    match object {
        Json::Obj(entries) => {
            let ghost was = entries@;
            let mut entries = entries;
            entries.push((name.to_owned(), value));
            let r = Json::Obj(entries);
            proof {
                assert(r@->Obj_0 =~= object@->Obj_0.push((name@, value@)));
            }
            r
        },
        other => other,
    }
}

/// The document on a tool.
pub fn doctor_tool_json(key: &str, strict: bool, found: &Vec<FoundBin>) -> (r: Json)
    ensures
        r@ == tool_doc(key@, strict, found@),
{
    match tool_info(key) {
        None => {
            let mut m = "unknown tool '".to_owned();
            m.append(key);
            m.append("'");
            let mut f = Fields::new();
            f.put("key", text(key));
            f.put("known", truth(false));
            f.put("installed", truth(false));
            f.put("blocking", truth(strict));
            f.put("error", text(m.as_str()));
            proof {
                assert(f@ =~= tool_doc(key@, strict, found@)->Obj_0);
            }
            f.object()
        },
        Some(info) => {
            let missing = bin_path(info.bin, found).is_none();
            with_field(tool_info_status_json(&info, found), "blocking", truth(strict && missing))
        },
    }
}

/// All that is wrong: with the roster, and with the tools.
pub fn doctor_failures(targets: &Vec<String>, strict: bool, found: &Vec<FoundBin>) -> (r: Vec<
    String,
>)
    ensures
        texts(r@) == failures_of(texts(targets@), strict, found@),
{
    let mut out: Vec<String> = Vec::new();
    if let Err(e) = validate_roster(targets) {
        out.push(e.message());
    }
    let ghost first = texts(out@);
    proof {
        assert(first =~= (match roster_problem(texts(targets@)) {
            Some(p) => seq![p],
            None => Seq::empty(),
        }));
    }
    let keys = unique_tool_keys(targets);
    let ghost all = texts(keys@);
    let mut i: usize = 0;
    proof {
        assert(all.take(0) =~= Seq::empty());
        assert(first + Seq::<Seq<char>>::empty() =~= first);
    }
    while i < keys.len()
        invariant
            i <= keys.len(),
            all == texts(keys@),
            texts(out@) == first + tool_failures(all.take(i as int), strict, found@),
        decreases keys.len() - i,
    {
        proof {
            assert(all.take(i + 1).drop_last() =~= all.take(i as int));
            assert(all.take(i + 1).last() == all[i as int]);
        }
        if let Some(m) = doctor_tool_failure(keys[i].as_str(), strict, found) {
            proof {
                lemma_texts_push(out@, m);
                assert((first + tool_failures(all.take(i as int), strict, found@)).push(m@) =~= first
                    + tool_failures(all.take(i as int), strict, found@).push(m@));
            }
            out.push(m);
        }
        i = i + 1;
    }
    proof {
        assert(all.take(i as int) =~= all);
    }
    out
}

/// The check passes exactly where the roster is sound, every tool is known,
/// and, where tools are needed, each is installed.
pub proof fn law_doctor_passes_on_sound_rosters(
    targets: Seq<Seq<char>>,
    strict: bool,
    found: Seq<FoundBin>,
)
    ensures
        failures_of(targets, strict, found).len() == 0 <==> (roster_problem(targets) is None && (
        forall|i: int|
            0 <= i < distinct_keys(targets).len() ==> tool_failure(
                #[trigger] distinct_keys(targets)[i],
                strict,
                found,
            ) is None)),
{
    lemma_no_tool_failures(distinct_keys(targets), strict, found);
}

proof fn lemma_no_tool_failures(keys: Seq<Seq<char>>, strict: bool, found: Seq<FoundBin>)
    ensures
        tool_failures(keys, strict, found).len() == 0 <==> (forall|i: int|
            0 <= i < keys.len() ==> tool_failure(#[trigger] keys[i], strict, found) is None),
    decreases keys.len(),
{
    if keys.len() > 0 {
        let d = keys.drop_last();
        lemma_no_tool_failures(d, strict, found);
        assert forall|i: int| 0 <= i < d.len() implies d[i] == #[trigger] keys[i] by {}
        if tool_failures(keys, strict, found).len() == 0 {
            assert forall|i: int| 0 <= i < keys.len() implies tool_failure(
                #[trigger] keys[i],
                strict,
                found,
            ) is None by {
                if i < d.len() {
                    assert(tool_failure(d[i], strict, found) is None);
                } else {
                    assert(keys[i] == keys.last());
                }
            }
        }
        if forall|i: int| 0 <= i < keys.len() ==> tool_failure(#[trigger] keys[i], strict, found) is None {
            assert forall|i: int| 0 <= i < d.len() implies tool_failure(
                #[trigger] d[i],
                strict,
                found,
            ) is None by {
                assert(keys[i] == d[i]);
            }
            assert(tool_failure(keys[keys.len() - 1], strict, found) is None);
        }
    }
}

// ---- The report ------------------------------------------------------------

pub open spec fn mode_of(strict: bool) -> Seq<char> {
    if strict {
        "preflight"@
    } else {
        "inventory"@
    }
}

fn mode_word(strict: bool) -> (r: &'static str)
    ensures
        r@ == mode_of(strict),
{
    if strict {
        "preflight"
    } else {
        "inventory"
    }
}

pub open spec fn roster_check_doc(problem: Option<Seq<char>>) -> Doc {
    match problem {
        Some(p) => Doc::Obj(seq![("ok"@, jbool(false)), ("error"@, jstr(p))]),
        None => Doc::Obj(seq![("ok"@, jbool(true)), ("error"@, Doc::Null)]),
    }
}

pub open spec fn doctor_doc(
    build: BuildRecord,
    cwd: Seq<char>,
    targets: Seq<Seq<char>>,
    strict: bool,
    found: Seq<FoundBin>,
    project_context: Doc,
) -> Doc {
    let keys = distinct_keys(targets);
    let failures = failures_of(targets, strict, found);
    Doc::Obj(
        seq![
            ("kind"@, jstr("tales_doctor"@)),
            ("schema_version"@, jnum(1)),
            ("build"@, build_doc(build)),
            ("cwd"@, jstr(cwd)),
            ("mode"@, jstr(mode_of(strict))),
            ("strict_tools"@, jbool(strict)),
            ("roster"@, jtexts(targets)),
            ("roster_check"@, roster_check_doc(roster_problem(targets))),
            ("roster_advice"@, Doc::Arr(roster_advice(cast_of(targets)))),
            ("tools"@, Doc::Arr(Seq::new(keys.len(), |i: int| tool_doc(keys[i], strict, found)))),
            ("project_context"@, project_context),
            ("failures"@, jtexts(failures)),
            (
                "status"@,
                jstr(
                    if failures.len() == 0 {
                        "ok"@
                    } else {
                        "attention_required"@
                    },
                ),
            ),
        ],
    )
}

fn roster_check_json(targets: &Vec<String>) -> (r: Json)
    ensures
        r@ == roster_check_doc(roster_problem(texts(targets@))),
{
    let mut f = Fields::new();
    match validate_roster(targets) {
        Ok(()) => {
            f.put("ok", truth(true));
            f.put("error", null());
        },
        Err(e) => {
            f.put("ok", truth(false));
            f.put("error", text(e.message().as_str()));
        },
    }
    proof {
        assert(f@ =~= roster_check_doc(roster_problem(texts(targets@)))->Obj_0);
    }
    f.object()
}

fn tools_json(targets: &Vec<String>, strict: bool, found: &Vec<FoundBin>) -> (r: Json)
    ensures
        r@ == Doc::Arr(
            Seq::new(
                distinct_keys(texts(targets@)).len(),
                |i: int| tool_doc(distinct_keys(texts(targets@))[i], strict, found@),
            ),
        ),
{
    let keys = unique_tool_keys(targets);
    let ghost one = |i: int| tool_doc(distinct_keys(texts(targets@))[i], strict, found@);
    let mut out: Vec<Json> = Vec::new();
    let mut i: usize = 0;
    proof {
        assert(docs(out@) =~= Seq::new(0, one));
    }
    while i < keys.len()
        invariant
            i <= keys.len(),
            texts(keys@) == distinct_keys(texts(targets@)),
            one == (|i: int| tool_doc(distinct_keys(texts(targets@))[i], strict, found@)),
            docs(out@) == Seq::new(i as nat, one),
        decreases keys.len() - i,
    {
        let x = doctor_tool_json(keys[i].as_str(), strict, found);
        proof {
            assert(texts(keys@)[i as int] == keys@[i as int]@);
            lemma_docs_push(out@, x);
            assert(Seq::new((i + 1) as nat, one) =~= Seq::new(i as nat, one).push(x@));
        }
        out.push(x);
        i = i + 1;
    }
    proof {
        assert(texts(keys@).len() == keys@.len());
    }
    list(out)
}

/// The check as a document, with all that is wrong.
pub fn doctor_json_report(
    build: &BuildRecord,
    cwd: &str,
    targets: &Vec<String>,
    strict: bool,
    found: &Vec<FoundBin>,
    project_context: Json,
) -> (r: (Json, Vec<String>))
    ensures
        r.0@ == doctor_doc(*build, cwd@, texts(targets@), strict, found@, project_context@),
        texts(r.1@) == failures_of(texts(targets@), strict, found@),
{
    let failures = doctor_failures(targets, strict, found);
    let status: &str = if failures.len() == 0 {
        "ok"
    } else {
        "attention_required"
    };
    let mut f = Fields::new();
    f.put("kind", text("tales_doctor"));
    f.put("schema_version", num(1));
    f.put("build", json(build));
    f.put("cwd", text(cwd));
    f.put("mode", text(mode_word(strict)));
    f.put("strict_tools", truth(strict));
    f.put("roster", text_list(targets));
    f.put("roster_check", roster_check_json(targets));
    f.put("roster_advice", list(roster_advice_for_targets(targets)));
    f.put("tools", tools_json(targets, strict, found));
    f.put("project_context", project_context);
    f.put("failures", text_list(&failures));
    f.put("status", text(status));
    proof {
        assert(texts(failures@).len() == failures@.len());
        assert(f@ =~= doctor_doc(
            *build,
            cwd@,
            texts(targets@),
            strict,
            found@,
            project_context@,
        )->Obj_0);
    }
    (f.object(), failures)
}

/// What the check ends with: nothing where nothing is wrong.
pub fn doctor_verdict(failures: &Vec<String>) -> (r: Result<(), TalesError>)
    ensures
        match r {
            Ok(()) => failures@.len() == 0,
            Err(e) => failures@.len() > 0 && (e matches TalesError::Other(m) && m@ == "doctor found "@
                + dec(texts(failures@).len()) + " issue(s): "@
                + crate::text::join(texts(failures@), "; "@)),
        },
{
    if failures.len() == 0 {
        return Ok(());
    }
    let mut out = "doctor found ".to_owned();
    out.append(decimal_size(failures.len()).as_str());
    out.append(" issue(s): ");
    out.append(join_texts(failures, "; ").as_str());
    Err(TalesError::Other(out))
}

// ---- The report as text ----------------------------------------------------

pub open spec fn opt_list_line(head: Seq<char>, items: Seq<Seq<char>>) -> Seq<char> {
    if items.len() == 0 {
        Seq::empty()
    } else {
        head + crate::text::join(items, ", "@) + "\n"@
    }
}

fn list_line(head: &str, items: &Vec<String>) -> (r: String)
    ensures
        r@ == opt_list_line(head@, texts(items@)),
{
    let mut out = String::new();
    if items.len() > 0 {
        out.append(head);
        out.append(join_texts(items, ", ").as_str());
        out.append("\n");
    }
    proof {
        assert(texts(items@).len() == items@.len());
        assert(out@ =~= opt_list_line(head@, texts(items@)));
    }
    out
}

pub open spec fn bin_lines(row: ToolRow, path: Option<Seq<char>>) -> Seq<char> {
    match path {
        Some(p) => "  bin: "@ + row.bin + " -> "@ + p + "\n"@,
        None => "  bin: "@ + row.bin + " -> missing\n  install: "@ + row.install + "\n"@,
    }
}

fn write_bin_lines(info: &ToolInfo, path: Option<&str>) -> (r: String)
    ensures
        r@ == bin_lines(info@, opt_str(path)),
{
    let mut out = "  bin: ".to_owned();
    out.append(info.bin);
    match path {
        Some(p) => {
            out.append(" -> ");
            out.append(p);
            out.append("\n");
        },
        None => {
            out.append(" -> missing\n  install: ");
            out.append(info.install);
            out.append("\n");
        },
    }
    out
}

pub open spec fn mark_of(path: Option<Seq<char>>) -> Seq<char> {
    if path is Some {
        "✓"@
    } else {
        "!"@
    }
}

/// What a tool can do, in one line.
pub open spec fn caps_text(key: Seq<char>) -> Seq<char> {
    match caps_of(key) {
        Some(caps) => caps_line(caps),
        None => Seq::empty(),
    }
}

/// What is shown of a known tool.
pub open spec fn known_tool_text(row: ToolRow, path: Option<Seq<char>>) -> Seq<char> {
    mark_of(path) + " "@ + row.key + " ("@ + row.pretty + ") ["@ + kind_label(row.kind) + "]\n"@
        + bin_lines(row, path) + "  caps: "@ + caps_text(row.key) + "\n"@
        + opt_list_line("  suggested models: "@, row.models)
        + opt_list_line("  efforts: "@, row.efforts)
}

/// What is shown of a tool.
pub open spec fn tool_text(key: Seq<char>, found: Seq<FoundBin>) -> Seq<char> {
    match row_of(key) {
        Some(row) => known_tool_text(row, found_path(found, row.bin)),
        None => "✗ "@ + key + ": unknown tool\n"@,
    }
}

fn write_tool(key: &str, found: &Vec<FoundBin>) -> (r: String)
    ensures
        r@ == tool_text(key@, found@),
{
    match tool_info(key) {
        Some(info) => {
            let path = bin_path(info.bin, found);
            let mark: &str = if path.is_some() {
                "✓"
            } else {
                "!"
            };
            let bins = write_bin_lines(&info, path);
            let caps = match caps_for_tool(info.key) {
                Some(c) => format_caps(c),
                None => String::new(),
            };
            proof {
                assert(caps@ =~= caps_text(info.key@));
            }
            let models = list_line("  suggested models: ", &info.models);
            let efforts = list_line("  efforts: ", &info.efforts);
            let mut out = mark.to_owned();
            out.append(" ");
            out.append(info.key);
            out.append(" (");
            out.append(info.pretty);
            out.append(") [");
            out.append(adapter_kind_label(info.kind));
            out.append("]\n");
            out.append(bins.as_str());
            out.append("  caps: ");
            out.append(caps.as_str());
            out.append("\n");
            out.append(models.as_str());
            out.append(efforts.as_str());
            out
        },
        None => {
            let mut out = "✗ ".to_owned();
            out.append(key);
            out.append(": unknown tool\n");
            out
        },
    }
}

pub open spec fn roster_check_line(problem: Option<Seq<char>>) -> Seq<char> {
    match problem {
        None => "roster check: ok\n"@,
        Some(p) => "roster check: error - "@ + p + "\n"@,
    }
}

pub open spec fn tool_texts(keys: Seq<Seq<char>>, found: Seq<FoundBin>) -> Seq<char> {
    flat(Seq::new(keys.len(), |i: int| tool_text(keys[i], found)))
}

/// What the check shows of the roster and the tools.
pub fn doctor_text(cwd: &str, targets: &Vec<String>, strict: bool, found: &Vec<FoundBin>) -> (r:
    String)
    ensures
        r@ == "Tales doctor\ncwd: "@ + cwd@ + "\nmode: "@ + mode_of(strict) + "\nroster: "@
            + crate::text::join(texts(targets@), ", "@) + "\n"@
            + roster_check_line(roster_problem(texts(targets@)))
            + advice_text(roster_advice(cast_of(texts(targets@)))) + "\nTools\n"@
            + tool_texts(distinct_keys(texts(targets@)), found@),
{
    let mut check;
    match validate_roster(targets) {
        Ok(()) => {
            check = "roster check: ok\n".to_owned();
        },
        Err(e) => {
            check = "roster check: error - ".to_owned();
            check.append(e.message().as_str());
            check.append("\n");
        },
    }
    let advice = roster_advice_text(&roster_advice_for_targets(targets));
    let keys = unique_tool_keys(targets);
    let ghost one = |i: int| tool_text(distinct_keys(texts(targets@))[i], found@);
    let mut tools = String::new();
    let mut i: usize = 0;
    proof {
        assert(flat(Seq::new(0, one)) =~= Seq::empty());
        assert(tools@ =~= Seq::empty());
    }
    while i < keys.len()
        invariant
            i <= keys.len(),
            texts(keys@) == distinct_keys(texts(targets@)),
            one == (|i: int| tool_text(distinct_keys(texts(targets@))[i], found@)),
            tools@ == flat(Seq::new(i as nat, one)),
        decreases keys.len() - i,
    {
        tools.append(write_tool(keys[i].as_str(), found).as_str());
        proof {
            assert(texts(keys@)[i as int] == keys@[i as int]@);
            lemma_flat_push(Seq::new(i as nat, one), one(i as int));
            assert(Seq::new((i + 1) as nat, one) =~= Seq::new(i as nat, one).push(one(i as int)));
        }
        i = i + 1;
    }
    proof {
        assert(texts(keys@).len() == keys@.len());
        assert(tools@ == tool_texts(distinct_keys(texts(targets@)), found@));
    }
    let mut out = "Tales doctor\ncwd: ".to_owned();
    out.append(cwd);
    out.append("\nmode: ");
    out.append(mode_word(strict));
    out.append("\nroster: ");
    out.append(join_texts(targets, ", ").as_str());
    out.append("\n");
    out.append(check.as_str());
    out.append(advice.as_str());
    out.append("\nTools\n");
    out.append(tools.as_str());
    out
}

pub open spec fn hit_word(hit: bool) -> Seq<char> {
    if hit {
        "hit"@
    } else {
        "rebuilt"@
    }
}

/// What the check shows of the project context.
pub open spec fn doctor_context(
    ctx: Option<ProjectContext>,
    max_files: usize,
    max_manifest_chars: usize,
) -> Seq<char> {
    match ctx {
        None => "\nProject context\nskipped\n"@,
        Some(c) => "\nProject context\ncache: "@ + hit_word(c.cache_hit) + "\npath: "@
            + c.cache_path@ + "\nchars: "@ + dec(c.text@.len()) + "\ntokens~: "@
            + dec(tokens_of(c.text@.len())) + "\ndefault budget fit: "@
            + fit_label(c.text@.len() as usize, Some(DEFAULT_CONTEXT_BUDGET_CHARS))
            + "\nbudgets: max_files="@ + dec(max_files as nat) + ", max_manifest_chars="@
            + dec(max_manifest_chars as nat) + "\n"@,
    }
}

/// What the check shows of the project context.
pub fn doctor_context_text(
    ctx: Option<&ProjectContext>,
    max_files: usize,
    max_manifest_chars: usize,
) -> (r: String)
    ensures
        r@ == doctor_context(
            crate::project_context::opt_context(ctx),
            max_files,
            max_manifest_chars,
        ),
{
    match ctx {
        None => "\nProject context\nskipped\n".to_owned(),
        Some(c) => {
            let chars = char_count(c.text.as_str());
            let hit: &str = if c.cache_hit {
                "hit"
            } else {
                "rebuilt"
            };
            let mut out = "\nProject context\ncache: ".to_owned();
            out.append(hit);
            out.append("\npath: ");
            out.append(c.cache_path.as_str());
            out.append("\nchars: ");
            out.append(decimal_size(chars).as_str());
            out.append("\ntokens~: ");
            out.append(decimal_size(estimated_tokens(chars)).as_str());
            out.append("\ndefault budget fit: ");
            out.append(context_fit_label(chars, Some(DEFAULT_CONTEXT_BUDGET_CHARS)).as_str());
            out.append("\nbudgets: max_files=");
            out.append(decimal_size(max_files).as_str());
            out.append(", max_manifest_chars=");
            out.append(decimal_size(max_manifest_chars).as_str());
            out.append("\n");
            out
        },
    }
}

/// What the check ends with on the screen.
pub fn doctor_status_text(failures: &Vec<String>) -> (r: &'static str)
    ensures
        r@ == (if failures@.len() == 0 {
            "\nstatus: ok\n"@
        } else {
            "\nstatus: attention required\n"@
        }),
{
    if failures.len() == 0 {
        "\nstatus: ok\n"
    } else {
        "\nstatus: attention required\n"
    }
}

} // verus!
