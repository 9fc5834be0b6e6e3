//! What holds of sessions and rosters: which are sound, what is said of those that
//! are not, and what is kept of a session.
use vstd::prelude::*;
use crate::agent::{caps_of, found_path, FoundBin};
use crate::count_laws::tells;
use crate::json::{jbool, jnum, jopt_size, jopt_str, jstr, jtexts, Doc};
use crate::registry::row_of;
use crate::roster::{
    distinct_keys, effort_problem, executor_of, lone_agents, named, planners_of, plain_voter,
    readiness_problem, roster_advice, roster_problem, shares_directory, strangers, tool_issue,
    tool_issues, turn_based, unknown_advice,
};
use crate::scan::{is_blank, lines_of, trim};
use crate::session::{
    asks, budget_doc, config_doc, executors_problem, is_compact, is_planning_role, mentioned,
    mentions, mode_name, paths_doc, permission_name, planning_seats, policy_doc, policy_name,
    proposed, seat_doc, seat_docs, seat_problem, seat_tools, seat_views, seats_problem,
    spoken_lines, tells_decision, tells_risk, ExecutionPolicy, PromptBudgetConfig, ReportPaths,
    SeatView, SessionConfig, TranscriptCompact,
};
use crate::text::{first_n, join, opt_text, same_ci, texts};
use crate::text_laws::{
    group_says, law_joining_keeps_every_part, lemma_says_all_each, lemma_says_through, says,
};

verus! {

// ---- Rosters -------------------------------------------------------------------

pub proof fn lemma_kept<A>(s: Seq<A>, keep: spec_fn(A) -> bool, k: int)
    ensures
        0 <= k < s.filter(keep).len() ==> keep(s.filter(keep)[k]) && s.contains(s.filter(keep)[k]),
        0 <= k < s.len() && keep(s[k]) ==> s.filter(keep).contains(s[k]),
    decreases s.len(),
{
    reveal(Seq::filter);
    if s.len() > 0 {
        let t = s.drop_last();
        lemma_kept(t, keep, k);
        let f = t.filter(keep);
        if 0 <= k < s.filter(keep).len() {
            if k < f.len() {
                assert(s.filter(keep)[k] == f[k]);
                let m = choose|m: int| 0 <= m < t.len() && t[m] == f[k];
                assert(s[m] == f[k]);
            } else {
                assert(s[s.len() - 1] == s.filter(keep)[k]);
            }
        }
        if 0 <= k < s.len() && keep(s[k]) {
            if k < t.len() {
                assert(t[k] == s[k]);
                let m = choose|m: int| 0 <= m < f.len() && f[m] == s[k];
                assert(s.filter(keep)[m] == s[k]);
            } else {
                assert(s.filter(keep)[s.filter(keep).len() - 1] == s[k]);
            }
        }
    }
}

proof fn lemma_lone_first(keys: Seq<Seq<char>>, i: int)
    requires
        0 <= i < keys.len(),
        !shares_directory(keys[i]),
    ensures
        lone_agents(keys).len() >= 1,
{
    lemma_kept(keys, |k: Seq<char>| !shares_directory(k), i);
}

/// Open Code keeps its session by directory, so a roster has it once at most: two
/// seats for it, however they are written, are refused, and nothing else is.
pub proof fn law_open_code_is_connected_once(keys: Seq<Seq<char>>, i: int, j: int)
    ensures
        0 <= i < j < keys.len() && same_ci(keys[i], "opencode"@) && same_ci(keys[j], "opencode"@)
            ==> roster_problem(keys) is Some,
        (forall|a: int, b: int|
            0 <= a < b < keys.len() ==> !(same_ci(#[trigger] keys[a], "opencode"@) && same_ci(
                #[trigger] keys[b],
                "opencode"@,
            ))) ==> roster_problem(keys) is None,
    decreases keys.len(),
{
    let keep = |k: Seq<char>| !shares_directory(k);
    reveal(Seq::filter);
    if keys.len() > 0 {
        let t = keys.drop_last();
        law_open_code_is_connected_once(t, i, j);
        let last = keys.len() - 1;
        if 0 <= i < j < keys.len() && same_ci(keys[i], "opencode"@) && same_ci(
            keys[j],
            "opencode"@,
        ) {
            assert(t[i] == keys[i]);
            if j == last {
                lemma_lone_first(t, i);
            } else {
                assert(t[j] == keys[j]);
            }
        }
        if forall|a: int, b: int|
            0 <= a < b < keys.len() ==> !(same_ci(#[trigger] keys[a], "opencode"@) && same_ci(
                #[trigger] keys[b],
                "opencode"@,
            )) {
            assert forall|a: int, b: int| 0 <= a < b < t.len() implies !(same_ci(
                #[trigger] t[a],
                "opencode"@,
            ) && same_ci(#[trigger] t[b], "opencode"@)) by {
                assert(t[a] == keys[a] && t[b] == keys[b]);
            }
            if !shares_directory(keys[last]) {
                if lone_agents(t).len() > 0 {
                    lemma_kept(t, keep, 0);
                    let m = choose|m: int| 0 <= m < t.len() && t[m] == lone_agents(t)[0];
                    assert(keys[m] == t[m]);
                    assert(!shares_directory(keys[m]));
                    assert(false);
                }
            }
        }
    }
}

proof fn lemma_no_issues(keys: Seq<Seq<char>>, found: Seq<FoundBin>)
    requires
        forall|k: int| 0 <= k < keys.len() ==> tool_issue(#[trigger] keys[k], found) is None,
    ensures
        tool_issues(keys, found).len() == 0,
    decreases keys.len(),
{
    if keys.len() > 0 {
        let t = keys.drop_last();
        assert forall|k: int| 0 <= k < t.len() implies tool_issue(#[trigger] t[k], found) is None by {
            assert(t[k] == keys[k]);
        }
        lemma_no_issues(t, found);
        assert(keys.last() == keys[keys.len() - 1]);
    }
}

proof fn lemma_issue(keys: Seq<Seq<char>>, found: Seq<FoundBin>, k: int)
    requires
        0 <= k < keys.len(),
        tool_issue(keys[k], found) is Some,
    ensures
        tool_issues(keys, found).contains(tool_issue(keys[k], found)->0),
    decreases keys.len(),
{
    let t = keys.drop_last();
    let issue = tool_issue(keys[k], found)->0;
    let all = tool_issues(keys, found);
    if k < t.len() {
        assert(t[k] == keys[k]);
        lemma_issue(t, found, k);
        let m = choose|m: int|
            0 <= m < tool_issues(t, found).len() && tool_issues(t, found)[m] == issue;
        assert(all[m] == issue);
    } else {
        assert(all[all.len() - 1] == issue);
    }
}

pub proof fn lemma_distinct(keys: Seq<Seq<char>>, k: int)
    ensures
        0 <= k < distinct_keys(keys).len() ==> keys.contains(distinct_keys(keys)[k]),
        0 <= k < keys.len() ==> named(distinct_keys(keys), keys[k]),
    decreases keys.len(),
{
    if keys.len() > 0 {
        let t = keys.drop_last();
        lemma_distinct(t, k);
        let d = distinct_keys(keys);
        let b = distinct_keys(t);
        if 0 <= k < d.len() {
            if k < b.len() {
                let m = choose|m: int| 0 <= m < t.len() && t[m] == b[k];
                assert(keys[m] == b[k]);
                assert(d[k] == b[k]);
            } else {
                assert(keys[keys.len() - 1] == d[k]);
            }
        }
        if 0 <= k < keys.len() {
            if k < t.len() {
                assert(t[k] == keys[k]);
                let m = choose|m: int| 0 <= m < b.len() && same_ci(#[trigger] b[m], keys[k]);
                assert(d[m] == b[m]);
                assert(same_ci(d[m], keys[k]));
            } else if !named(b, keys[k]) {
                assert(same_ci(d[d.len() - 1], keys[k]));
            }
        }
    }
}

/// A roster whose tools are all known and installed, with Open Code once at most,
/// is ready.
pub proof fn law_sound_rosters_are_ready(keys: Seq<Seq<char>>, found: Seq<FoundBin>)
    requires
        roster_problem(keys) is None,
        forall|i: int|
            0 <= i < keys.len() ==> (row_of(#[trigger] keys[i]) matches Some(row) && found_path(
                found,
                row.bin,
            ) is Some),
    ensures
        readiness_problem(keys, found) is None,
{
    let d = distinct_keys(keys);
    assert forall|k: int| 0 <= k < d.len() implies tool_issue(#[trigger] d[k], found) is None by {
        lemma_distinct(keys, k);
        let m = choose|m: int| 0 <= m < keys.len() && keys[m] == d[k];
        assert(row_of(keys[m]) is Some);
    }
    lemma_no_issues(d, found);
}

/// A roster is not ready where a tool is missing, and what is said names the tool
/// and how it is installed. A tool that nobody knows is named too.
pub proof fn law_missing_tools_are_named(keys: Seq<Seq<char>>, found: Seq<FoundBin>, i: int)
    requires
        roster_problem(keys) is None,
        0 <= i < keys.len(),
    ensures
        row_of(keys[i]) matches Some(row) ==> found_path(found, row.bin) is None ==> (
        readiness_problem(keys, found) matches Some(p) && says(p, row.pretty) && says(p, row.bin)
            && says(p, row.install)),
        row_of(keys[i]) is None ==> readiness_problem(keys, found) is Some,
{
    broadcast use group_says;

    let d = distinct_keys(keys);
    lemma_distinct(keys, i);
    let k = choose|k: int| 0 <= k < d.len() && same_ci(#[trigger] d[k], keys[i]);
    assert(row_of(d[k]) == row_of(keys[i]));
    if tool_issue(d[k], found) is Some {
        let issue = tool_issue(d[k], found)->0;
        lemma_issue(d, found, k);
        let issues = tool_issues(d, found);
        let m = choose|m: int| 0 <= m < issues.len() && issues[m] == issue;
        law_joining_keeps_every_part(issues, "; "@, Seq::empty());
        let all = join(issues, "; "@);
        lemma_says_all_each(all, issues, m);
        if row_of(keys[i]) is Some {
            let row = row_of(keys[i])->0;
            let p = readiness_problem(keys, found)->0;
            assert(says(issue, row.pretty) && says(issue, row.bin) && says(issue, row.install));
            lemma_says_through(all, issue, row.pretty);
            lemma_says_through(all, issue, row.bin);
            lemma_says_through(all, issue, row.install);
            assert(says(p, all));
        }
    }
}

/// An effort is accepted where none is asked for, or where the tool has it; and
/// nowhere else.
pub proof fn law_tools_have_their_efforts(key: Seq<char>, effort: Seq<char>)
    ensures
        effort_problem(key, None) is None,
        is_blank(effort) ==> effort_problem(key, Some(effort)) is None,
        !is_blank(effort) ==> (effort_problem(key, Some(effort)) is None <==> (row_of(
            key,
        ) matches Some(row) && row.efforts.contains(effort))),
{
}

/// The executor of a roster is the first that has this role.
pub proof fn law_the_first_executor_executes(roster: Seq<(Seq<char>, Seq<char>)>, k: int)
    ensures
        0 <= k < roster.len() && roster[k].0 == "executor"@ && (forall|j: int|
            0 <= j < k ==> (#[trigger] roster[j]).0 != "executor"@) ==> executor_of(roster) == Some(
            roster[k].1,
        ),
        (forall|j: int| 0 <= j < roster.len() ==> (#[trigger] roster[j]).0 != "executor"@)
            ==> executor_of(roster) is None,
    decreases roster.len(),
{
    if roster.len() > 0 {
        let t = roster.drop_last();
        law_the_first_executor_executes(t, k);
        assert forall|j: int| 0 <= j < t.len() implies t[j] == roster[j] by {}
        assert(roster.last() == roster[roster.len() - 1]);
        if forall|j: int| 0 <= j < k ==> (#[trigger] roster[j]).0 != "executor"@ {
            assert forall|j: int| 0 <= j < k && j < t.len() implies (#[trigger] t[j]).0
                != "executor"@ by {
                assert(t[j] == roster[j]);
            }
        }
        if forall|j: int| 0 <= j < roster.len() ==> (#[trigger] roster[j]).0 != "executor"@ {
            assert forall|j: int| 0 <= j < t.len() implies (#[trigger] t[j]).0 != "executor"@ by {
                assert(t[j] == roster[j]);
            }
        }
    }
}

/// Whether advice of a kind is given at a level.
pub open spec fn advises(advice: Seq<Doc>, key: Seq<char>, level: Seq<char>) -> bool {
    exists|k: int|
        0 <= k < advice.len() && tells(#[trigger] advice[k], "key"@, jstr(key)) && tells(
            advice[k],
            "level"@,
            jstr(level),
        )
}

proof fn lemma_advised(advice: Seq<Doc>, k: int, key: Seq<char>, level: Seq<char>)
    requires
        0 <= k < advice.len(),
        advice[k] matches Doc::Obj(f) && f.len() >= 2 && f[0] == ("key"@, jstr(key)) && f[1] == (
            "level"@,
            jstr(level),
        ),
    ensures
        advises(advice, key, level),
{
    let f = advice[k]->Obj_0;
    assert(f[0] == ("key"@, jstr(key)));
    assert(f[1] == ("level"@, jstr(level)));
    assert(tells(advice[k], "key"@, jstr(key)));
}

/// Whoever plans with one tool alone is warned, and so is whoever has a planner
/// that cannot vote in a form; planners who all wait for their turn are told of.
/// Where it is otherwise, that is said to be good.
pub proof fn law_planners_are_advised(roster: Seq<(Seq<char>, Seq<char>)>)
    requires
        planners_of(roster).len() >= 2,
    ensures
        ({
            let p = planners_of(roster);
            let a = roster_advice(roster);
            let one_tool = forall|i: int|
                0 <= i < p.len() ==> same_ci((#[trigger] p[i]).1, p[0].1);
            let by_turns = forall|i: int| 0 <= i < p.len() ==> turn_based((#[trigger] p[i]).1);
            let plain = exists|i: int| 0 <= i < p.len() && plain_voter((#[trigger] p[i]).1);
            &&& one_tool ==> advises(a, "planner_diversity"@, "warn"@)
            &&& !one_tool ==> advises(a, "planner_diversity"@, "good"@)
            &&& by_turns ==> advises(a, "live_interjection"@, "info"@)
            &&& !by_turns ==> advises(a, "live_interjection"@, "good"@)
            &&& plain ==> advises(a, "structured_votes"@, "warn"@)
            &&& !plain ==> advises(a, "structured_votes"@, "good"@)
        }),
{
    let p = planners_of(roster);
    let a = roster_advice(roster);
    let s = strangers(roster).len() as int;
    let keep = |q: (Seq<char>, Seq<char>)| plain_voter(q.1);
    let plain = exists|i: int| 0 <= i < p.len() && plain_voter((#[trigger] p[i]).1);
    if plain {
        let i = choose|i: int| 0 <= i < p.len() && plain_voter((#[trigger] p[i]).1);
        lemma_kept(p, keep, i);
        assert(p.filter(keep).len() > 0);
    } else if p.filter(keep).len() > 0 {
        lemma_kept(p, keep, 0);
        let m = choose|m: int| 0 <= m < p.len() && p[m] == p.filter(keep)[0];
        assert(plain_voter(p[m].1));
    }
    assert(a[s] == crate::roster::diversity_advice(p));
    assert(a[s + 1] == crate::roster::steering_advice(p));
    assert(a[s + 2] == crate::roster::voting_advice(p));
    if crate::roster::single_tool(p) {
        lemma_advised(a, s, "planner_diversity"@, "warn"@);
    } else {
        lemma_advised(a, s, "planner_diversity"@, "good"@);
    }
    if crate::roster::all_turn_based(p) {
        lemma_advised(a, s + 1, "live_interjection"@, "info"@);
    } else {
        lemma_advised(a, s + 1, "live_interjection"@, "good"@);
    }
    if plain {
        lemma_advised(a, s + 2, "structured_votes"@, "warn"@);
    } else {
        lemma_advised(a, s + 2, "structured_votes"@, "good"@);
    }
}

/// An executor that plans too is told of, one that does not is said to be good; one
/// that starts afresh each turn is warned of. A tool that is not known is named,
/// whatever its role.
pub proof fn law_executors_are_advised(roster: Seq<(Seq<char>, Seq<char>)>, i: int)
    ensures
        ({
            let p = planners_of(roster);
            let a = roster_advice(roster);
            &&& executor_of(roster) matches Some(key) ==> {
                let plans_too = exists|j: int|
                    0 <= j < p.len() && same_ci((#[trigger] p[j]).1, key);
                &&& plans_too ==> advises(a, "executor_shape"@, "info"@)
                &&& !plans_too ==> advises(a, "executor_shape"@, "good"@)
                &&& caps_of(key) matches Some(caps) ==> if caps.resumable {
                    advises(a, "executor_context"@, "good"@)
                } else {
                    advises(a, "executor_context"@, "warn"@)
                }
            }
            &&& 0 <= i < roster.len() && row_of(roster[i].1) is None ==> a.contains(
                unknown_advice(roster[i]),
            )
        }),
{
    let p = planners_of(roster);
    let a = roster_advice(roster);
    let st = strangers(roster);
    let n = (st.len() + crate::roster::planner_advice(p).len()) as int;
    if executor_of(roster) is Some {
        let key = executor_of(roster)->0;
        assert(a[n] == crate::roster::executor_shape_advice(p, key));
        if crate::roster::used_by_planner(p, key) {
            lemma_advised(a, n, "executor_shape"@, "info"@);
        } else {
            lemma_advised(a, n, "executor_shape"@, "good"@);
        }
        if caps_of(key) is Some {
            let caps = caps_of(key)->0;
            assert(a[n + 1] == crate::roster::executor_context_advice(key, caps.resumable));
            if caps.resumable {
                lemma_advised(a, n + 1, "executor_context"@, "good"@);
            } else {
                lemma_advised(a, n + 1, "executor_context"@, "warn"@);
            }
        }
    }
    if 0 <= i < roster.len() && row_of(roster[i].1) is None {
        lemma_kept(roster, |q: (Seq<char>, Seq<char>)| row_of(q.1) is None, i);
        let m = choose|m: int| 0 <= m < st.len() && st[m] == roster[i];
        assert(a[m] == unknown_advice(roster[i]));
    }
}

// ---- Sessions ------------------------------------------------------------------

proof fn lemma_seats_fine(seats: Seq<SeatView>)
    requires
        forall|i: int| 0 <= i < seats.len() ==> seat_problem(#[trigger] seats[i]) is None,
    ensures
        seats_problem(seats) is None,
    decreases seats.len(),
{
    if seats.len() > 0 {
        let t = seats.drop_last();
        assert forall|i: int| 0 <= i < t.len() implies seat_problem(#[trigger] t[i]) is None by {
            assert(t[i] == seats[i]);
        }
        lemma_seats_fine(t);
        assert(seats.last() == seats[seats.len() - 1]);
    }
}

proof fn lemma_executors_fine(executors: Seq<Seq<char>>, tools: Seq<Seq<char>>)
    requires
        forall|i: int|
            0 <= i < executors.len() ==> named(tools, #[trigger] executors[i]) || row_of(
                executors[i],
            ) is Some,
    ensures
        executors_problem(executors, tools) is None,
    decreases executors.len(),
{
    if executors.len() > 0 {
        let t = executors.drop_last();
        assert forall|i: int| 0 <= i < t.len() implies named(tools, #[trigger] t[i]) || row_of(
            t[i],
        ) is Some by {
            assert(t[i] == executors[i]);
        }
        lemma_executors_fine(t, tools);
        assert(executors.last() == executors[executors.len() - 1]);
    }
}

/// A session is accepted where it has a task, turns and seats, its directory is
/// there, its roster and each of its seats are sound, and each executor that it
/// allows has a seat or is a known tool.
pub proof fn law_sound_sessions_are_accepted(config: SessionConfig)
    requires
        !is_blank(config.task@) && config.turns > 0 && config.seats@.len() > 0,
        roster_problem(seat_tools(seat_views(config.seats@))) is None,
        forall|i: int|
            0 <= i < config.seats@.len() ==> seat_problem(
                (#[trigger] seat_views(config.seats@)[i]),
            ) is None,
        forall|i: int|
            0 <= i < config.execution_policy.allowed_executors@.len() ==> {
                let e = #[trigger] texts(config.execution_policy.allowed_executors@)[i];
                named(seat_tools(seat_views(config.seats@)), e) || row_of(e) is Some
            },
    ensures
        config.problem(true) is None,
        config.problem(false) is Some,
{
    lemma_seats_fine(seat_views(config.seats@));
    lemma_executors_fine(
        texts(config.execution_policy.allowed_executors@),
        seat_tools(seat_views(config.seats@)),
    );
}

/// A seat is sound where its tool is known and has the effort that is asked for.
pub proof fn law_seats_need_known_tools(seat: SeatView)
    ensures
        seat_problem(seat) is None <==> row_of(seat.tool_key) is Some && effort_problem(
            seat.tool_key,
            seat.effort,
        ) is None,
        row_of(seat.tool_key) is None ==> (seat_problem(seat) matches Some(p) && says(
            p,
            seat.tool_key,
        )),
{
    broadcast use group_says;

}

/// A session is told as it is: each of its settings under its name, and its seats
/// in order.
pub proof fn law_sessions_are_told(c: SessionConfig, i: int)
    ensures
        tells(config_doc(c), "task"@, jstr(c.task@)),
        tells(config_doc(c), "cwd"@, jstr(c.cwd@)),
        tells(config_doc(c), "mode"@, jstr(mode_name(c.mode))),
        tells(config_doc(c), "turns"@, jnum(c.turns as int)),
        tells(config_doc(c), "sequential"@, jbool(c.sequential)),
        tells(config_doc(c), "sandbox"@, jstr(c.sandbox@)),
        tells(config_doc(c), "seats"@, Doc::Arr(seat_docs(seat_views(c.seats@)))),
        tells(config_doc(c), "prompt_budget"@, budget_doc(c.prompt_budget)),
        tells(config_doc(c), "execution_policy"@, policy_doc(c.execution_policy)),
        tells(config_doc(c), "report_paths"@, paths_doc(c.report_paths)),
        seat_docs(seat_views(c.seats@)).len() == c.seats@.len(),
        0 <= i < c.seats@.len() ==> seat_docs(seat_views(c.seats@))[i] == seat_doc(c.seats@[i]@),
{
    let o = config_doc(c)->Obj_0;
    assert(o[1] == ("task"@, jstr(c.task@)));
    assert(o[2] == ("cwd"@, jstr(c.cwd@)));
    assert(o[3] == ("mode"@, jstr(mode_name(c.mode))));
    assert(o[4] == ("turns"@, jnum(c.turns as int)));
    assert(o[5] == ("sequential"@, jbool(c.sequential)));
    assert(o[6] == ("sandbox"@, jstr(c.sandbox@)));
    assert(o[7] == ("seats"@, Doc::Arr(seat_docs(seat_views(c.seats@)))));
    assert(o[8] == ("prompt_budget"@, budget_doc(c.prompt_budget)));
    assert(o[9] == ("execution_policy"@, policy_doc(c.execution_policy)));
    assert(o[10] == ("report_paths"@, paths_doc(c.report_paths)));
}

/// So are a seat, a budget and a policy.
pub proof fn law_seats_and_limits_are_told(
    seat: SeatView,
    b: PromptBudgetConfig,
    p: ExecutionPolicy,
    r: ReportPaths,
)
    ensures
        tells(seat_doc(seat), "role"@, jstr(seat.role)),
        tells(seat_doc(seat), "tool_key"@, jstr(seat.tool_key)),
        tells(seat_doc(seat), "model"@, jopt_str(seat.model)),
        tells(seat_doc(seat), "effort"@, jopt_str(seat.effort)),
        tells(seat_doc(seat), "cwd_policy"@, jstr(policy_name(seat.cwd_policy))),
        tells(
            seat_doc(seat),
            "execution_permission"@,
            jstr(permission_name(seat.execution_permission)),
        ),
        tells(budget_doc(b), "context_budget_chars"@, jopt_size(b.context_budget_chars)),
        tells(budget_doc(b), "project_context_enabled"@, jbool(b.project_context_enabled)),
        tells(budget_doc(b), "refresh_project_context"@, jbool(b.refresh_project_context)),
        tells(
            budget_doc(b),
            "project_context_max_files"@,
            jnum(b.project_context_max_files as int),
        ),
        tells(
            budget_doc(b),
            "project_context_max_manifest_chars"@,
            jnum(b.project_context_max_manifest_chars as int),
        ),
        tells(
            budget_doc(b),
            "local_change_handoff_lines"@,
            jnum(b.local_change_handoff_lines as int),
        ),
        tells(policy_doc(p), "recommend_only"@, jbool(p.recommend_only)),
        tells(policy_doc(p), "approval_required"@, jbool(p.approval_required)),
        tells(policy_doc(p), "allowed_executors"@, jtexts(texts(p.allowed_executors@))),
        tells(paths_doc(r), "markdown"@, jopt_str(opt_text(r.markdown))),
        tells(paths_doc(r), "json"@, jopt_str(opt_text(r.json))),
{
    let o = seat_doc(seat)->Obj_0;
    assert(o[0] == ("role"@, jstr(seat.role)));
    assert(o[1] == ("tool_key"@, jstr(seat.tool_key)));
    assert(o[2] == ("model"@, jopt_str(seat.model)));
    assert(o[3] == ("effort"@, jopt_str(seat.effort)));
    assert(o[4] == ("cwd_policy"@, jstr(policy_name(seat.cwd_policy))));
    assert(o[5] == ("execution_permission"@, jstr(permission_name(seat.execution_permission))));
    let q = budget_doc(b)->Obj_0;
    assert(q[0] == ("context_budget_chars"@, jopt_size(b.context_budget_chars)));
    assert(q[1] == ("project_context_enabled"@, jbool(b.project_context_enabled)));
    assert(q[2] == ("refresh_project_context"@, jbool(b.refresh_project_context)));
    assert(q[3] == ("project_context_max_files"@, jnum(b.project_context_max_files as int)));
    assert(q[4] == (
        "project_context_max_manifest_chars"@,
        jnum(b.project_context_max_manifest_chars as int),
    ));
    assert(q[5] == ("local_change_handoff_lines"@, jnum(b.local_change_handoff_lines as int)));
    let u = policy_doc(p)->Obj_0;
    assert(u[0] == ("recommend_only"@, jbool(p.recommend_only)));
    assert(u[1] == ("approval_required"@, jbool(p.approval_required)));
    assert(u[2] == ("allowed_executors"@, jtexts(texts(p.allowed_executors@))));
    let v = paths_doc(r)->Obj_0;
    assert(v[0] == ("markdown"@, jopt_str(opt_text(r.markdown))));
    assert(v[1] == ("json"@, jopt_str(opt_text(r.json))));
}

/// The tools that plan are those of the seats whose role it is: drafters, critics,
/// planners and inspectors; an executor is none of them.
pub proof fn law_planning_seats_plan(seats: Seq<SeatView>, i: int)
    ensures
        0 <= i < seats.len() && (seats[i].role == "drafter"@ || seats[i].role == "critic"@
            || seats[i].role == "planner"@ || seats[i].role == "inspector"@) ==> planning_seats(
            seats,
        ).contains(seats[i]),
        0 <= i < planning_seats(seats).len() ==> planning_seats(seats)[i].role != "executor"@
            && seats.contains(planning_seats(seats)[i]),
        planning_seats(seats).len() <= seats.len(),
{
    reveal_strlit("drafter");
    reveal_strlit("critic");
    reveal_strlit("planner");
    reveal_strlit("inspector");
    reveal_strlit("executor");
    assert("executor"@.len() == 8 && "drafter"@.len() == 7 && "critic"@.len() == 6
        && "planner"@.len() == 7 && "inspector"@.len() == 9);
    let keep = |s: SeatView| is_planning_role(s.role);
    lemma_kept(seats, keep, i);
    seats.lemma_filter_len(keep);
}

// ---- What is kept of a transcript ------------------------------------------------

/// Whether a line was said: it is a line of the transcript, without the white space
/// around it.
pub open spec fn was_said(transcript: Seq<char>, line: Seq<char>) -> bool {
    line.len() > 0 && exists|k: int|
        0 <= k < lines_of(transcript).len() && trim(#[trigger] lines_of(transcript)[k]) == line
}

proof fn lemma_spoken(transcript: Seq<char>, i: int)
    requires
        0 <= i < spoken_lines(transcript).len(),
    ensures
        was_said(transcript, spoken_lines(transcript)[i]),
{
    let all = lines_of(transcript).map_values(|l: Seq<char>| trim(l));
    lemma_kept(all, |l: Seq<char>| l.len() > 0, i);
    let line = spoken_lines(transcript)[i];
    let k = choose|k: int| 0 <= k < all.len() && all[k] == line;
    assert(trim(lines_of(transcript)[k]) == line);
}

/// What is kept of a transcript was said in it. Decisions decide, recommend,
/// approve or begin a plan; risks warn of something; questions end as such. None
/// is left out before the limit is reached.
pub proof fn law_compacts_keep_what_was_said(
    r: TranscriptCompact,
    task: Seq<char>,
    transcript: Seq<char>,
    candidates: Seq<Seq<char>>,
    i: int,
)
    requires
        is_compact(r, task, transcript, candidates),
    ensures
        0 <= i < r.decisions@.len() ==> was_said(transcript, r.decisions@[i]@) && tells_decision(
            r.decisions@[i]@,
        ),
        0 <= i < r.risks@.len() ==> was_said(transcript, r.risks@[i]@) && tells_risk(r.risks@[i]@),
        0 <= i < r.open_questions@.len() ==> was_said(transcript, r.open_questions@[i]@) && asks(
            r.open_questions@[i]@,
        ),
        r.decisions@.len() <= 6 && r.risks@.len() <= 6 && r.open_questions@.len() <= 4,
        0 <= i < spoken_lines(transcript).len() ==> {
            let line = spoken_lines(transcript)[i];
            &&& tells_decision(line) && r.decisions@.len() < 6 ==> texts(r.decisions@).contains(line)
            &&& tells_risk(line) && r.risks@.len() < 6 ==> texts(r.risks@).contains(line)
            &&& asks(line) && r.open_questions@.len() < 4 ==> texts(r.open_questions@).contains(line)
        },
{
    let lines = spoken_lines(transcript);
    lemma_kept_lines(transcript, |l: Seq<char>| tells_decision(l), 6, i);
    lemma_kept_lines(transcript, |l: Seq<char>| tells_risk(l), 6, i);
    lemma_kept_lines(transcript, |l: Seq<char>| asks(l), 4, i);
    if 0 <= i < r.decisions@.len() {
        assert(texts(r.decisions@)[i] == r.decisions@[i]@);
    }
    if 0 <= i < r.risks@.len() {
        assert(texts(r.risks@)[i] == r.risks@[i]@);
    }
    if 0 <= i < r.open_questions@.len() {
        assert(texts(r.open_questions@)[i] == r.open_questions@[i]@);
    }
}

proof fn lemma_kept_lines(transcript: Seq<char>, keep: spec_fn(Seq<char>) -> bool, n: nat, i: int)
    ensures
        ({
            let kept = first_n(spoken_lines(transcript).filter(keep), n);
            &&& kept.len() <= n
            &&& 0 <= i < kept.len() ==> was_said(transcript, kept[i]) && keep(kept[i])
            &&& 0 <= i < spoken_lines(transcript).len() && keep(spoken_lines(transcript)[i])
                && kept.len() < n ==> kept.contains(spoken_lines(transcript)[i])
        }),
{
    let lines = spoken_lines(transcript);
    lemma_kept(lines, keep, i);
    let f = lines.filter(keep);
    let kept = first_n(f, n);
    if 0 <= i < kept.len() {
        assert(kept[i] == f[i]);
        let k = choose|k: int| 0 <= k < lines.len() && lines[k] == f[i];
        lemma_spoken(transcript, k);
    }
}

/// The executor that is proposed is a candidate that a line mentions, and no line
/// before mentions any. None is proposed only where no line mentions a candidate.
pub proof fn law_the_first_mention_proposes(
    lines: Seq<Seq<char>>,
    candidates: Seq<Seq<char>>,
    i: int,
    c: int,
)
    ensures
        0 <= i < lines.len() && 0 <= c < candidates.len() && mentions(lines[i], candidates[c]) && (
        forall|a: int, b: int|
            0 <= a < i && 0 <= b < candidates.len() ==> !mentions(
                #[trigger] lines[a],
                #[trigger] candidates[b],
            )) && (forall|b: int|
            0 <= b < c ==> !mentions(lines[i], #[trigger] candidates[b])) ==> proposed(
            lines,
            candidates,
        ) == Some(candidates[c]),
        (forall|a: int, b: int|
            0 <= a < lines.len() && 0 <= b < candidates.len() ==> !mentions(
                #[trigger] lines[a],
                #[trigger] candidates[b],
            )) ==> proposed(lines, candidates) is None,
    decreases lines.len(),
{
    if lines.len() > 0 {
        let t = lines.drop_last();
        let last = lines.len() - 1;
        law_the_first_mention_proposes(t, candidates, i, c);
        lemma_mentioned(lines[last], candidates, c);
        assert forall|a: int| 0 <= a < t.len() implies t[a] == lines[a] by {}
        assert(lines.last() == lines[last]);
        if forall|a: int, b: int|
            0 <= a < i && 0 <= b < candidates.len() ==> !mentions(
                #[trigger] lines[a],
                #[trigger] candidates[b],
            ) {
            assert forall|a: int, b: int|
                0 <= a < i && a < t.len() && 0 <= b < candidates.len() implies !mentions(
                #[trigger] t[a],
                #[trigger] candidates[b],
            ) by {
                assert(t[a] == lines[a]);
            }
        }
        if forall|a: int, b: int|
            0 <= a < lines.len() && 0 <= b < candidates.len() ==> !mentions(
                #[trigger] lines[a],
                #[trigger] candidates[b],
            ) {
            assert forall|a: int, b: int|
                0 <= a < t.len() && 0 <= b < candidates.len() implies !mentions(
                #[trigger] t[a],
                #[trigger] candidates[b],
            ) by {
                assert(t[a] == lines[a]);
            }
            assert forall|b: int| 0 <= b < candidates.len() implies !mentions(
                lines[last],
                #[trigger] candidates[b],
            ) by {
                assert(!mentions(lines[last], candidates[b]));
            }
        }
    }
}

proof fn lemma_mentioned(line: Seq<char>, candidates: Seq<Seq<char>>, c: int)
    ensures
        0 <= c < candidates.len() && mentions(line, candidates[c]) && (forall|b: int|
            0 <= b < c ==> !mentions(line, #[trigger] candidates[b])) ==> mentioned(
            line,
            candidates,
        ) == Some(candidates[c]),
        (forall|b: int| 0 <= b < candidates.len() ==> !mentions(line, #[trigger] candidates[b]))
            ==> mentioned(line, candidates) is None,
    decreases candidates.len(),
{
    if candidates.len() > 0 {
        let t = candidates.drop_last();
        lemma_mentioned(line, t, c);
        assert forall|b: int| 0 <= b < t.len() implies t[b] == candidates[b] by {}
        assert(candidates.last() == candidates[candidates.len() - 1]);
        if forall|b: int| 0 <= b < c ==> !mentions(line, #[trigger] candidates[b]) {
            assert forall|b: int| 0 <= b < c && b < t.len() implies !mentions(
                line,
                #[trigger] t[b],
            ) by {
                assert(t[b] == candidates[b]);
            }
        }
        if forall|b: int| 0 <= b < candidates.len() ==> !mentions(line, #[trigger] candidates[b]) {
            assert forall|b: int| 0 <= b < t.len() implies !mentions(line, #[trigger] t[b]) by {
                assert(t[b] == candidates[b]);
            }
        }
    }
}

} // verus!
