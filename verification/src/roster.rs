//! Whether a roster of tools can run, and what is to be said of it.
use vstd::prelude::*;
use crate::agent::{
    bin_on_path, caps_for_tool, caps_of, found_path, unknown_agent, unknown_agent_text, FoundBin,
};
use crate::error::{reports, TalesError};
use crate::json::{docs, jopt_str, jstr, lemma_docs_push, opt_text, text, Doc, Fields, Json};
use crate::registry::{lemma_opencode_row, row_of, tool_info};
use crate::scan::{blank, is_blank};
use crate::text::{
    join, join_texts, lemma_texts_push, opt_str, same, same_ci, same_ignoring_case, texts,
};

verus! {

// ---- Validation ----------------------------------------------------------------

/// Whether two agents of a tool can share one working directory. Open Code
/// keeps its session by directory, so that two of them would share it.
pub open spec fn shares_directory(key: Seq<char>) -> bool {
    !same_ci(key, "opencode"@)
}

/// Whether two agents of a tool can share one working directory.
pub fn coresident_safe(key: &str) -> (r: bool)
    ensures
        r == shares_directory(key@),
{
    !same_ignoring_case(key, "opencode")
}

/// The agents that cannot share their directory with another of their kind.
pub open spec fn lone_agents(keys: Seq<Seq<char>>) -> Seq<Seq<char>> {
    keys.filter(|k: Seq<char>| !shares_directory(k))
}

/// What is wrong with a roster: more than one agent of a tool that keeps its
/// session by directory.
pub open spec fn roster_problem(keys: Seq<Seq<char>>) -> Option<Seq<char>> {
    if lone_agents(keys).len() > 1 {
        Some(
            "can't connect Open Code twice in one run — its session continuity is per-directory, so two would cross-contaminate. Use it as a single participant."@,
        )
    } else {
        None
    }
}

fn count_same(tool_keys: &Vec<String>, tool: &str) -> (n: usize)
    requires
        !shares_directory(tool@),
    ensures
        n == lone_agents(texts(tool_keys@)).len(),
{
    let ghost keys = texts(tool_keys@);
    let ghost lone = |k: Seq<char>| !shares_directory(k);
    let mut n: usize = 0;
    let mut i: usize = 0;
    proof {
        assert(keys.take(0).filter(lone) =~= Seq::empty());
    }
    while i < tool_keys.len()
        invariant
            i <= tool_keys@.len(),
            n <= i,
            keys == texts(tool_keys@),
            lone == (|k: Seq<char>| !shares_directory(k)),
            !shares_directory(tool@),
            n == keys.take(i as int).filter(lone).len(),
        decreases tool_keys@.len() - i,
    {
        proof {
            keys.take(i as int).lemma_filter_push(keys[i as int], lone);
            assert(keys.take(i + 1) =~= keys.take(i as int).push(keys[i as int]));
        }
        if same_ignoring_case(tool_keys[i].as_str(), tool) {
            n = n + 1;
        }
        i = i + 1;
    }
    proof {
        assert(keys.take(i as int) =~= keys);
    }
    n
}

/// Refuses a roster with two agents that would share one session.
pub fn validate_roster(tool_keys: &Vec<String>) -> (r: Result<(), TalesError>)
    ensures
        reports(r, roster_problem(texts(tool_keys@))),
{
    let ghost keys = texts(tool_keys@);
    let mut i: usize = 0;
    while i < tool_keys.len()
        invariant
            i <= tool_keys@.len(),
            keys == texts(tool_keys@),
            forall|j: int|
                0 <= j < i && !shares_directory(#[trigger] keys[j]) ==> lone_agents(keys).len()
                    <= 1,
        decreases tool_keys@.len() - i,
    {
        let tool = tool_keys[i].as_str();
        if !coresident_safe(tool) {
            let count = count_same(tool_keys, tool);
            if count > 1 {
                let pretty = match tool_info(tool) {
                    Some(info) => info.pretty,
                    None => tool,
                };
                proof {
                    lemma_opencode_row(tool@);
                }
                let mut out = "can't connect ".to_owned();
                out.append(pretty);
                out.append(
                    " twice in one run — its session continuity is per-directory, so two would cross-contaminate. Use it as a single participant.",
                );
                proof {
                    reveal_strlit("can't connect ");
                    reveal_strlit("Open Code");
                    reveal_strlit(
                        " twice in one run — its session continuity is per-directory, so two would cross-contaminate. Use it as a single participant.",
                    );
                    reveal_strlit(
                        "can't connect Open Code twice in one run — its session continuity is per-directory, so two would cross-contaminate. Use it as a single participant.",
                    );
                    assert(out@ =~= roster_problem(keys)->Some_0);
                }
                return Err(TalesError::Other(out));
            }
        }
        i = i + 1;
    }
    proof {
        let lone = |k: Seq<char>| !shares_directory(k);
        if lone_agents(keys).len() > 1 {
            keys.lemma_filter_pred(lone, 0);
            keys.lemma_filter_contains_rev(lone, keys.filter(lone)[0]);
        }
    }
    Ok(())
}

/// Whether a key is among others, whatever the case of its letters.
pub open spec fn named(keys: Seq<Seq<char>>, key: Seq<char>) -> bool {
    exists|i: int| 0 <= i < keys.len() && same_ci(#[trigger] keys[i], key)
}

/// The keys without those that repeat an earlier one.
pub open spec fn distinct_keys(keys: Seq<Seq<char>>) -> Seq<Seq<char>>
    decreases keys.len(),
{
    if keys.len() == 0 {
        Seq::empty()
    } else {
        let before = distinct_keys(keys.drop_last());
        if named(before, keys.last()) {
            before
        } else {
            before.push(keys.last())
        }
    }
}

/// Whether a key is among others, whatever the case of its letters.
pub fn is_named(keys: &Vec<String>, key: &str) -> (r: bool)
    ensures
        r == named(texts(keys@), key@),
{
    let mut i: usize = 0;
    while i < keys.len()
        invariant
            i <= keys@.len(),
            forall|j: int| 0 <= j < i ==> !same_ci(#[trigger] texts(keys@)[j], key@),
        decreases keys@.len() - i,
    {
        if same_ignoring_case(keys[i].as_str(), key) {
            proof {
                assert(same_ci(texts(keys@)[i as int], key@));
            }
            return true;
        }
        i = i + 1;
    }
    false
}

/// What keeps a tool from running: that it is unknown, or that its command was
/// not found.
pub open spec fn tool_issue(key: Seq<char>, found: Seq<FoundBin>) -> Option<Seq<char>> {
    match row_of(key) {
        None => Some(unknown_agent(key)),
        Some(row) => if found_path(found, row.bin) is None {
            Some(
                row.pretty + " CLI '"@ + row.bin + "' not found on PATH; install: "@ + row.install,
            )
        } else {
            None
        },
    }
}

/// What keeps any of the tools from running, in their order.
pub open spec fn tool_issues(keys: Seq<Seq<char>>, found: Seq<FoundBin>) -> Seq<Seq<char>>
    decreases keys.len(),
{
    if keys.len() == 0 {
        Seq::empty()
    } else {
        let before = tool_issues(keys.drop_last(), found);
        match tool_issue(keys.last(), found) {
            Some(issue) => before.push(issue),
            None => before,
        }
    }
}

/// What keeps a roster from running.
pub open spec fn readiness_problem(keys: Seq<Seq<char>>, found: Seq<FoundBin>) -> Option<
    Seq<char>,
> {
    match roster_problem(keys) {
        Some(p) => Some(p),
        None => {
            let issues = tool_issues(distinct_keys(keys), found);
            if issues.len() == 0 {
                None
            } else {
                Some("tool preflight failed: "@ + join(issues, "; "@))
            }
        },
    }
}

fn issue_of(key: &str, found: &Vec<FoundBin>) -> (r: Option<String>)
    ensures
        crate::text::opt_text(r) == tool_issue(key@, found@),
{
    match tool_info(key) {
        None => Some(unknown_agent_text(key)),
        Some(info) => if bin_on_path(info.bin, found) {
            None
        } else {
            let mut out = info.pretty.to_owned();
            out.append(" CLI '");
            out.append(info.bin);
            out.append("' not found on PATH; install: ");
            out.append(info.install);
            Some(out)
        },
    }
}

/// Refuses a roster that cannot run: one with two agents that would share a
/// session, with an unknown tool, or with a tool whose command was not found.
pub fn validate_tool_readiness(tool_keys: &Vec<String>, found: &Vec<FoundBin>) -> (r: Result<
    (),
    TalesError,
>)
    ensures
        reports(r, readiness_problem(texts(tool_keys@), found@)),
{
    if let Err(e) = validate_roster(tool_keys) {
        return Err(e);
    }
    let ghost keys = texts(tool_keys@);
    let mut seen: Vec<String> = Vec::new();
    let mut issues: Vec<String> = Vec::new();
    let mut i: usize = 0;
    proof {
        assert(keys.take(0) =~= Seq::empty());
        assert(texts(seen@) =~= Seq::empty());
        assert(texts(issues@) =~= Seq::empty());
    }
    while i < tool_keys.len()
        invariant
            i <= tool_keys@.len(),
            keys == texts(tool_keys@),
            texts(seen@) == distinct_keys(keys.take(i as int)),
            texts(issues@) == tool_issues(distinct_keys(keys.take(i as int)), found@),
        decreases tool_keys@.len() - i,
    {
        let key = tool_keys[i].as_str();
        proof {
            assert(keys.take(i + 1).drop_last() =~= keys.take(i as int));
            assert(keys.take(i + 1).last() == key@);
        }
        if !is_named(&seen, key) {
            let mine = key.to_owned();
            proof {
                lemma_texts_push(seen@, mine);
                let before = distinct_keys(keys.take(i as int));
                assert(before.push(key@).drop_last() =~= before);
            }
            seen.push(mine);
            if let Some(issue) = issue_of(key, found) {
                proof {
                    lemma_texts_push(issues@, issue);
                }
                issues.push(issue);
            }
        }
        i = i + 1;
    }
    proof {
        assert(keys.take(i as int) =~= keys);
        assert(texts(issues@).len() == issues@.len());
    }
    if issues.len() == 0 {
        Ok(())
    } else {
        let all = join_texts(&issues, "; ");
        let mut out = "tool preflight failed: ".to_owned();
        out.append(all.as_str());
        Err(TalesError::Other(out))
    }
}

/// What is wrong with asking a tool for an effort: that the tool is unknown,
/// that it has no efforts, or that it has others. An effort that is blank or
/// not given asks for nothing.
pub open spec fn effort_problem(key: Seq<char>, effort: Option<Seq<char>>) -> Option<Seq<char>> {
    match effort {
        None => None,
        Some(e) => if is_blank(e) {
            None
        } else {
            match row_of(key) {
                None => Some(unknown_agent(key)),
                Some(row) => if row.efforts.len() == 0 {
                    Some(
                        row.pretty + " has no Tales effort knob; remove the effort flag for '"@
                            + row.key + "'"@,
                    )
                } else if row.efforts.contains(e) {
                    None
                } else {
                    Some(
                        "invalid effort '"@ + e + "' for "@ + row.pretty + "; valid: "@ + join(
                            row.efforts,
                            " | "@,
                        ),
                    )
                },
            }
        },
    }
}

fn holds_text(v: &Vec<String>, s: &str) -> (r: bool)
    ensures
        r == texts(v@).contains(s@),
{
    let mut i: usize = 0;
    while i < v.len()
        invariant
            i <= v@.len(),
            forall|j: int| 0 <= j < i ==> #[trigger] texts(v@)[j] != s@,
        decreases v@.len() - i,
    {
        if same(v[i].as_str(), s) {
            proof {
                assert(texts(v@)[i as int] == s@);
            }
            return true;
        }
        i = i + 1;
    }
    false
}

/// Refuses an effort that a tool does not have.
pub fn validate_effort(tool_key: &str, effort: Option<&str>) -> (r: Result<(), TalesError>)
    ensures
        reports(r, effort_problem(tool_key@, opt_str(effort))),
{
    let wanted = match effort {
        None => {
            return Ok(());
        },
        Some(e) => e,
    };
    if blank(wanted) {
        return Ok(());
    }
    match tool_info(tool_key) {
        None => Err(TalesError::Other(unknown_agent_text(tool_key))),
        Some(info) => {
            proof {
                assert(texts(info.efforts@).len() == info.efforts@.len());
            }
            if info.efforts.len() == 0 {
                let mut out = info.pretty.to_owned();
                out.append(" has no Tales effort knob; remove the effort flag for '");
                out.append(info.key);
                out.append("'");
                return Err(TalesError::Other(out));
            }
            if holds_text(&info.efforts, wanted) {
                return Ok(());
            }
            let valid = join_texts(&info.efforts, " | ");
            let mut out = "invalid effort '".to_owned();
            out.append(wanted);
            out.append("' for ");
            out.append(info.pretty);
            out.append("; valid: ");
            out.append(valid.as_str());
            Err(TalesError::Other(out))
        },
    }
}

// ---- Advice --------------------------------------------------------------------

/// A roster as roles with the keys of their tools.
pub open spec fn pairs(roster: Seq<(&str, &str)>) -> Seq<(Seq<char>, Seq<char>)> {
    Seq::new(roster.len(), |i: int| (roster[i].0@, roster[i].1@))
}

/// A piece of advice as a document.
pub open spec fn advice_doc(
    key: Seq<char>,
    level: Seq<char>,
    title: Seq<char>,
    detail: Seq<char>,
    role: Option<Seq<char>>,
    tool: Option<Seq<char>>,
) -> Doc {
    Doc::Obj(
        seq![
            ("key"@, jstr(key)),
            ("level"@, jstr(level)),
            ("title"@, jstr(title)),
            ("detail"@, jstr(detail)),
            ("role"@, jopt_str(role)),
            ("tool"@, jopt_str(tool)),
        ],
    )
}

fn roster_advice_item(
    key: &str,
    level: &str,
    title: &str,
    detail: &str,
    role: Option<&str>,
    tool: Option<&str>,
) -> (r: Json)
    ensures
        r@ == advice_doc(key@, level@, title@, detail@, opt_str(role), opt_str(tool)),
{
    let mut f = Fields::new();
    f.put("key", text(key));
    f.put("level", text(level));
    f.put("title", text(title));
    f.put("detail", text(detail));
    f.put("role", opt_text(role));
    f.put("tool", opt_text(tool));
    proof {
        assert(f@ =~= advice_doc(
            key@,
            level@,
            title@,
            detail@,
            opt_str(role),
            opt_str(tool),
        )->Obj_0);
    }
    f.object()
}

/// Whether a role is a planner's.
pub open spec fn plans(role: Seq<char>) -> bool {
    role == "drafter"@ || role == "critic"@
}

/// The planners of a roster.
pub open spec fn planners_of(roster: Seq<(Seq<char>, Seq<char>)>) -> Seq<(Seq<char>, Seq<char>)> {
    roster.filter(|p: (Seq<char>, Seq<char>)| plans(p.0))
}

/// The tool of the first executor in a roster.
pub open spec fn executor_of(roster: Seq<(Seq<char>, Seq<char>)>) -> Option<Seq<char>>
    decreases roster.len(),
{
    if roster.len() == 0 {
        None
    } else {
        match executor_of(roster.drop_last()) {
            Some(key) => Some(key),
            None => if roster.last().0 == "executor"@ {
                Some(roster.last().1)
            } else {
                None
            },
        }
    }
}

/// The advice on a tool that is not known.
pub open spec fn unknown_advice(p: (Seq<char>, Seq<char>)) -> Doc {
    advice_doc(
        "unknown_tool"@,
        "warn"@,
        "Unknown tool"@,
        p.0 + " uses '"@ + p.1 + "', which is not in the Tales tool registry."@,
        Some(p.0),
        Some(p.1),
    )
}

/// The members of a roster whose tool is not known.
pub open spec fn strangers(roster: Seq<(Seq<char>, Seq<char>)>) -> Seq<(Seq<char>, Seq<char>)> {
    roster.filter(|p: (Seq<char>, Seq<char>)| row_of(p.1) is None)
}

/// Whether all planners use the tool of the first.
pub open spec fn single_tool(planners: Seq<(Seq<char>, Seq<char>)>) -> bool {
    forall|i: int| 0 <= i < planners.len() ==> same_ci((#[trigger] planners[i]).1, planners[0].1)
}

/// Whether a tool is known and takes messages between turns only.
pub open spec fn turn_based(key: Seq<char>) -> bool {
    caps_of(key) matches Some(caps) && !caps.midturn_injection
}

/// Whether a tool is known and cannot be held to a schema.
pub open spec fn plain_voter(key: Seq<char>) -> bool {
    caps_of(key) matches Some(caps) && !caps.structured_output
}

/// Whether every planner takes messages between turns only.
pub open spec fn all_turn_based(planners: Seq<(Seq<char>, Seq<char>)>) -> bool {
    forall|i: int| 0 <= i < planners.len() ==> turn_based((#[trigger] planners[i]).1)
}

/// The planners that cannot be held to a schema, as `role:tool`.
pub open spec fn plain_labels(planners: Seq<(Seq<char>, Seq<char>)>) -> Seq<Seq<char>> {
    planners.filter(|p: (Seq<char>, Seq<char>)| plain_voter(p.1)).map_values(
        |p: (Seq<char>, Seq<char>)| p.0 + ":"@ + p.1,
    )
}

pub open spec fn diversity_advice(planners: Seq<(Seq<char>, Seq<char>)>) -> Doc {
    if single_tool(planners) {
        advice_doc(
            "planner_diversity"@,
            "warn"@,
            "Single-tool debate"@,
            "Drafter and critic both use "@ + planners[0].1
                + "; this can still self-review, but cross-model disagreement is weaker."@,
            None,
            Some(planners[0].1),
        )
    } else {
        advice_doc(
            "planner_diversity"@,
            "good"@,
            "Diverse planners"@,
            "Drafter and critic use different tools, so Tales gets a stronger second opinion."@,
            None,
            None,
        )
    }
}

pub open spec fn steering_advice(planners: Seq<(Seq<char>, Seq<char>)>) -> Doc {
    if all_turn_based(planners) {
        advice_doc(
            "live_interjection"@,
            "info"@,
            "Turn-based planners"@,
            "Human notes are folded into the next turn for every planner; keep turns short when you expect frequent steering."@,
            None,
            None,
        )
    } else {
        advice_doc(
            "live_interjection"@,
            "good"@,
            "Live steering available"@,
            "At least one planner can receive mid-turn human notes."@,
            None,
            None,
        )
    }
}

pub open spec fn voting_advice(planners: Seq<(Seq<char>, Seq<char>)>) -> Doc {
    if plain_labels(planners).len() > 0 {
        advice_doc(
            "structured_votes"@,
            "warn"@,
            "Plain-text vote risk"@,
            join(plain_labels(planners), ", "@)
                + " cannot guarantee schema output; Tales will salvage common vote aliases and single-candidate prose, but repair prompts are more likely."@,
            None,
            None,
        )
    } else {
        advice_doc(
            "structured_votes"@,
            "good"@,
            "Structured votes"@,
            "Planner tools advertise structured output, reducing recommendation repair turns."@,
            None,
            None,
        )
    }
}

/// The advice on a roster's planners, where there are at least two.
pub open spec fn planner_advice(planners: Seq<(Seq<char>, Seq<char>)>) -> Seq<Doc> {
    if planners.len() >= 2 {
        seq![diversity_advice(planners), steering_advice(planners), voting_advice(planners)]
    } else {
        Seq::empty()
    }
}

/// Whether a planner uses a tool.
pub open spec fn used_by_planner(planners: Seq<(Seq<char>, Seq<char>)>, key: Seq<char>) -> bool {
    exists|i: int| 0 <= i < planners.len() && same_ci((#[trigger] planners[i]).1, key)
}

pub open spec fn executor_shape_advice(
    planners: Seq<(Seq<char>, Seq<char>)>,
    key: Seq<char>,
) -> Doc {
    if used_by_planner(planners, key) {
        advice_doc(
            "executor_shape"@,
            "info"@,
            "Participant executor"@,
            key
                + " also participates in planning; execution can reuse context, but planning and typing are not cost-tiered."@,
            Some("executor"@),
            Some(key),
        )
    } else {
        advice_doc(
            "executor_shape"@,
            "good"@,
            "Separate executor"@,
            key
                + " is separate from the planners, so high-judgment planning can hand off to a cheaper or faster typing tool."@,
            Some("executor"@),
            Some(key),
        )
    }
}

pub open spec fn executor_context_advice(key: Seq<char>, resumable: bool) -> Doc {
    if resumable {
        advice_doc(
            "executor_context"@,
            "good"@,
            "Resumable executor"@,
            key
                + " can maintain native session context; Tales can keep execution handoffs compact."@,
            Some("executor"@),
            Some(key),
        )
    } else {
        advice_doc(
            "executor_context"@,
            "warn"@,
            "Stateless executor"@,
            key
                + " starts fresh each turn; keep project context enabled and handoffs compact to avoid repeated tokens."@,
            Some("executor"@),
            Some(key),
        )
    }
}

/// The advice on a roster's executor, where there is one.
pub open spec fn executor_advice(
    planners: Seq<(Seq<char>, Seq<char>)>,
    executor: Option<Seq<char>>,
) -> Seq<Doc> {
    match executor {
        None => Seq::empty(),
        Some(key) => seq![executor_shape_advice(planners, key)] + (match caps_of(key) {
            Some(caps) => seq![executor_context_advice(key, caps.resumable)],
            None => Seq::empty(),
        }),
    }
}

/// All that is to be said of a roster.
pub open spec fn roster_advice(roster: Seq<(Seq<char>, Seq<char>)>) -> Seq<Doc> {
    strangers(roster).map_values(|p: (Seq<char>, Seq<char>)| unknown_advice(p)) + planner_advice(
        planners_of(roster),
    ) + executor_advice(planners_of(roster), executor_of(roster))
}

fn unknown_tool_advice(role: &str, key: &str) -> (r: Json)
    ensures
        r@ == unknown_advice((role@, key@)),
{
    let mut detail = role.to_owned();
    detail.append(" uses '");
    detail.append(key);
    detail.append("', which is not in the Tales tool registry.");
    roster_advice_item(
        "unknown_tool",
        "warn",
        "Unknown tool",
        detail.as_str(),
        Some(role),
        Some(key),
    )
}

fn planners_in<'a>(roster: &Vec<(&'a str, &'a str)>) -> (r: Vec<(&'a str, &'a str)>)
    ensures
        pairs(r@) == planners_of(pairs(roster@)),
{
    let ghost all = pairs(roster@);
    let ghost keep = |p: (Seq<char>, Seq<char>)| plans(p.0);
    let mut out: Vec<(&'a str, &'a str)> = Vec::new();
    let mut i: usize = 0;
    proof {
        assert(all.take(0).filter(keep) =~= Seq::empty());
        assert(pairs(out@) =~= Seq::empty());
    }
    while i < roster.len()
        invariant
            i <= roster@.len(),
            all == pairs(roster@),
            keep == (|p: (Seq<char>, Seq<char>)| plans(p.0)),
            pairs(out@) == all.take(i as int).filter(keep),
        decreases roster@.len() - i,
    {
        let entry = roster[i];
        proof {
            all.take(i as int).lemma_filter_push(all[i as int], keep);
            assert(all.take(i + 1) =~= all.take(i as int).push(all[i as int]));
            assert(pairs(out@.push(entry)) =~= pairs(out@).push((entry.0@, entry.1@)));
        }
        if same(entry.0, "drafter") || same(entry.0, "critic") {
            out.push(entry);
        }
        i = i + 1;
    }
    proof {
        assert(all.take(i as int) =~= all);
    }
    out
}

fn executor_in<'a>(roster: &Vec<(&'a str, &'a str)>) -> (r: Option<&'a str>)
    ensures
        opt_str(r) == executor_of(pairs(roster@)),
{
    let ghost all = pairs(roster@);
    let mut found: Option<&'a str> = None;
    let mut i: usize = 0;
    while i < roster.len()
        invariant
            i <= roster@.len(),
            all == pairs(roster@),
            opt_str(found) == executor_of(all.take(i as int)),
        decreases roster@.len() - i,
    {
        let entry = roster[i];
        proof {
            assert(all.take(i + 1).drop_last() =~= all.take(i as int));
            assert(all.take(i + 1).last() == (entry.0@, entry.1@));
        }
        if found.is_none() && same(entry.0, "executor") {
            found = Some(entry.1);
        }
        i = i + 1;
    }
    proof {
        assert(all.take(i as int) =~= all);
    }
    found
}

fn diversity_item(planners: &Vec<(&str, &str)>) -> (r: Json)
    requires
        planners@.len() > 0,
    ensures
        r@ == diversity_advice(pairs(planners@)),
{
    let ghost all = pairs(planners@);
    let first = planners[0].1;
    let mut single = true;
    let mut i: usize = 0;
    while i < planners.len()
        invariant
            i <= planners@.len(),
            planners@.len() > 0,
            all == pairs(planners@),
            first@ == all[0].1,
            single == (forall|j: int| 0 <= j < i ==> same_ci((#[trigger] all[j]).1, first@)),
        decreases planners@.len() - i,
    {
        let same_tool = same_ignoring_case(planners[i].1, first);
        proof {
            assert(all[i as int].1 == planners@[i as int].1@);
        }
        single = single && same_tool;
        i = i + 1;
    }
    if single {
        let mut detail = "Drafter and critic both use ".to_owned();
        detail.append(first);
        detail.append("; this can still self-review, but cross-model disagreement is weaker.");
        roster_advice_item(
            "planner_diversity",
            "warn",
            "Single-tool debate",
            detail.as_str(),
            None,
            Some(first),
        )
    } else {
        roster_advice_item(
            "planner_diversity",
            "good",
            "Diverse planners",
            "Drafter and critic use different tools, so Tales gets a stronger second opinion.",
            None,
            None,
        )
    }
}

fn steering_item(planners: &Vec<(&str, &str)>) -> (r: Json)
    ensures
        r@ == steering_advice(pairs(planners@)),
{
    let ghost all = pairs(planners@);
    let mut every = true;
    let mut i: usize = 0;
    while i < planners.len()
        invariant
            i <= planners@.len(),
            all == pairs(planners@),
            every == (forall|j: int| 0 <= j < i ==> turn_based((#[trigger] all[j]).1)),
        decreases planners@.len() - i,
    {
        let mine = match caps_for_tool(planners[i].1) {
            Some(caps) => !caps.midturn_injection,
            None => false,
        };
        proof {
            assert(all[i as int].1 == planners@[i as int].1@);
            assert(mine == turn_based(all[i as int].1));
        }
        every = every && mine;
        i = i + 1;
    }
    if every {
        roster_advice_item(
            "live_interjection",
            "info",
            "Turn-based planners",
            "Human notes are folded into the next turn for every planner; keep turns short when you expect frequent steering.",
            None,
            None,
        )
    } else {
        roster_advice_item(
            "live_interjection",
            "good",
            "Live steering available",
            "At least one planner can receive mid-turn human notes.",
            None,
            None,
        )
    }
}

fn voting_item(planners: &Vec<(&str, &str)>) -> (r: Json)
    ensures
        r@ == voting_advice(pairs(planners@)),
{
    let ghost all = pairs(planners@);
    let ghost keep = |p: (Seq<char>, Seq<char>)| plain_voter(p.1);
    let ghost label = |p: (Seq<char>, Seq<char>)| p.0 + ":"@ + p.1;
    let mut labels: Vec<String> = Vec::new();
    let mut i: usize = 0;
    proof {
        assert(all.take(0).filter(keep) =~= Seq::empty());
        assert(texts(labels@) =~= all.take(0).filter(keep).map_values(label));
    }
    while i < planners.len()
        invariant
            i <= planners@.len(),
            all == pairs(planners@),
            keep == (|p: (Seq<char>, Seq<char>)| plain_voter(p.1)),
            label == (|p: (Seq<char>, Seq<char>)| p.0 + ":"@ + p.1),
            texts(labels@) == all.take(i as int).filter(keep).map_values(label),
        decreases planners@.len() - i,
    {
        let entry = planners[i];
        let plain = match caps_for_tool(entry.1) {
            Some(caps) => !caps.structured_output,
            None => false,
        };
        let ghost kept = all.take(i as int).filter(keep);
        proof {
            all.take(i as int).lemma_filter_push(all[i as int], keep);
            assert(all.take(i + 1) =~= all.take(i as int).push(all[i as int]));
            assert(plain == keep(all[i as int]));
        }
        if plain {
            let mut one = entry.0.to_owned();
            one.append(":");
            one.append(entry.1);
            proof {
                lemma_texts_push(labels@, one);
                assert(kept.push(all[i as int]).map_values(label) =~= kept.map_values(label).push(
                    one@,
                ));
            }
            labels.push(one);
        }
        i = i + 1;
    }
    proof {
        assert(all.take(i as int) =~= all);
        assert(texts(labels@).len() == labels@.len());
    }
    if labels.len() > 0 {
        let mut detail = join_texts(&labels, ", ");
        detail.append(
            " cannot guarantee schema output; Tales will salvage common vote aliases and single-candidate prose, but repair prompts are more likely.",
        );
        roster_advice_item(
            "structured_votes",
            "warn",
            "Plain-text vote risk",
            detail.as_str(),
            None,
            None,
        )
    } else {
        roster_advice_item(
            "structured_votes",
            "good",
            "Structured votes",
            "Planner tools advertise structured output, reducing recommendation repair turns.",
            None,
            None,
        )
    }
}

fn executor_shape_item(planners: &Vec<(&str, &str)>, key: &str) -> (r: Json)
    ensures
        r@ == executor_shape_advice(pairs(planners@), key@),
{
    let ghost all = pairs(planners@);
    let mut used = false;
    let mut i: usize = 0;
    while i < planners.len()
        invariant
            i <= planners@.len(),
            all == pairs(planners@),
            used == (exists|j: int| 0 <= j < i && same_ci((#[trigger] all[j]).1, key@)),
        decreases planners@.len() - i,
    {
        let mine = same_ignoring_case(planners[i].1, key);
        proof {
            assert(all[i as int].1 == planners@[i as int].1@);
        }
        used = used || mine;
        i = i + 1;
    }
    let mut detail = key.to_owned();
    if used {
        detail.append(
            " also participates in planning; execution can reuse context, but planning and typing are not cost-tiered.",
        );
        roster_advice_item(
            "executor_shape",
            "info",
            "Participant executor",
            detail.as_str(),
            Some("executor"),
            Some(key),
        )
    } else {
        detail.append(
            " is separate from the planners, so high-judgment planning can hand off to a cheaper or faster typing tool.",
        );
        roster_advice_item(
            "executor_shape",
            "good",
            "Separate executor",
            detail.as_str(),
            Some("executor"),
            Some(key),
        )
    }
}

fn executor_context_item(key: &str, resumable: bool) -> (r: Json)
    ensures
        r@ == executor_context_advice(key@, resumable),
{
    let mut detail = key.to_owned();
    if resumable {
        detail.append(
            " can maintain native session context; Tales can keep execution handoffs compact.",
        );
        roster_advice_item(
            "executor_context",
            "good",
            "Resumable executor",
            detail.as_str(),
            Some("executor"),
            Some(key),
        )
    } else {
        detail.append(
            " starts fresh each turn; keep project context enabled and handoffs compact to avoid repeated tokens.",
        );
        roster_advice_item(
            "executor_context",
            "warn",
            "Stateless executor",
            detail.as_str(),
            Some("executor"),
            Some(key),
        )
    }
}

/// Says what is to be said of a roster: its unknown tools, its planners and
/// its executor.
pub fn tool_roster_advice_json(roster: &Vec<(&str, &str)>) -> (r: Vec<Json>)
    ensures
        docs(r@) == roster_advice(pairs(roster@)),
{
    let ghost all = pairs(roster@);
    let ghost keep = |p: (Seq<char>, Seq<char>)| row_of(p.1) is None;
    let ghost say = |p: (Seq<char>, Seq<char>)| unknown_advice(p);
    let planners = planners_in(roster);
    let executor = executor_in(roster);
    let mut advice: Vec<Json> = Vec::new();
    let mut i: usize = 0;
    proof {
        assert(all.take(0).filter(keep) =~= Seq::empty());
        assert(docs(advice@) =~= all.take(0).filter(keep).map_values(say));
    }
    while i < roster.len()
        invariant
            i <= roster@.len(),
            all == pairs(roster@),
            keep == (|p: (Seq<char>, Seq<char>)| row_of(p.1) is None),
            say == (|p: (Seq<char>, Seq<char>)| unknown_advice(p)),
            docs(advice@) == all.take(i as int).filter(keep).map_values(say),
        decreases roster@.len() - i,
    {
        let entry = roster[i];
        let ghost kept = all.take(i as int).filter(keep);
        proof {
            all.take(i as int).lemma_filter_push(all[i as int], keep);
            assert(all.take(i + 1) =~= all.take(i as int).push(all[i as int]));
        }
        if tool_info(entry.1).is_none() {
            let item = unknown_tool_advice(entry.0, entry.1);
            proof {
                lemma_docs_push(advice@, item);
                assert(kept.push(all[i as int]).map_values(say) =~= kept.map_values(say).push(
                    item@,
                ));
            }
            advice.push(item);
        }
        i = i + 1;
    }
    let ghost said = docs(advice@);
    proof {
        assert(all.take(i as int) =~= all);
        assert(pairs(planners@).len() == planners@.len());
    }
    if planners.len() >= 2 {
        let a = diversity_item(&planners);
        let b = steering_item(&planners);
        let c = voting_item(&planners);
        proof {
            lemma_docs_push(advice@, a);
            lemma_docs_push(advice@.push(a), b);
            lemma_docs_push(advice@.push(a).push(b), c);
        }
        advice.push(a);
        advice.push(b);
        advice.push(c);
    }
    proof {
        assert(docs(advice@) =~= said + planner_advice(pairs(planners@)));
    }
    let ghost said2 = docs(advice@);
    if let Some(key) = executor {
        let a = executor_shape_item(&planners, key);
        proof {
            lemma_docs_push(advice@, a);
        }
        advice.push(a);
        if let Some(caps) = caps_for_tool(key) {
            let b = executor_context_item(key, caps.resumable);
            proof {
                lemma_docs_push(advice@, b);
            }
            advice.push(b);
        }
    }
    proof {
        assert(docs(advice@) =~= said2 + executor_advice(pairs(planners@), opt_str(executor)));
    }
    advice
}

/// A roster that may run has at most one agent of each tool that keeps its
/// session by directory, only known tools, and each tool's command was found.
pub proof fn law_ready_rosters_are_sound(keys: Seq<Seq<char>>, found: Seq<FoundBin>)
    requires
        readiness_problem(keys, found) is None,
    ensures
        lone_agents(keys).len() <= 1,
        forall|i: int|
            0 <= i < keys.len() ==> (row_of(#[trigger] keys[i]) matches Some(row) && found_path(
                found,
                row.bin,
            ) is Some),
{
    assert forall|i: int| 0 <= i < keys.len() implies (row_of(#[trigger] keys[i]) matches Some(row)
        && found_path(found, row.bin) is Some) by {
        let d = distinct_keys(keys);
        lemma_distinct_covers(keys, i);
        let k = choose|k: int| 0 <= k < d.len() && same_ci(#[trigger] d[k], keys[i]);
        lemma_no_issue(d, found, k);
        lemma_same_row(d[k], keys[i]);
    }
}

proof fn lemma_same_row(a: Seq<char>, b: Seq<char>)
    requires
        same_ci(a, b),
    ensures
        row_of(a) == row_of(b),
{
}

proof fn lemma_distinct_covers(keys: Seq<Seq<char>>, i: int)
    requires
        0 <= i < keys.len(),
    ensures
        named(distinct_keys(keys), keys[i]),
    decreases keys.len(),
{
    let before = distinct_keys(keys.drop_last());
    if i < keys.len() - 1 {
        lemma_distinct_covers(keys.drop_last(), i);
        let k = choose|k: int| 0 <= k < before.len() && same_ci(#[trigger] before[k], keys[i]);
        assert(same_ci(distinct_keys(keys)[k], keys[i]));
    } else if !named(before, keys.last()) {
        assert(same_ci(distinct_keys(keys)[before.len() as int], keys[i]));
    }
}

proof fn lemma_no_issue(keys: Seq<Seq<char>>, found: Seq<FoundBin>, i: int)
    requires
        0 <= i < keys.len(),
        tool_issues(keys, found).len() == 0,
    ensures
        tool_issue(keys[i], found) is None,
    decreases keys.len(),
{
    if i < keys.len() - 1 {
        lemma_no_issue(keys.drop_last(), found, i);
    }
}

} // verus!
