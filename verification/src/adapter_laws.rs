//! What holds of the adapters: how the tools are started and what their reports
//! mean.
use vstd::prelude::*;
use crate::agent::{shows_image, Happening, SpawnCtx, TurnId};
use crate::claude::{
    allowed, blocks_text, claude_args, claude_events, flag_args, message_events, tool_calls,
    tools_args,
};
use crate::codex::{
    codex_args, codex_events, codex_usage, effort_args, image_args, thread_after, usage_told,
};
use crate::conductor::AgentId;
use crate::generic::{generic_args, GenericView};
use crate::ids::id_text;
use crate::json::{doc_items, doc_str, doc_u64, member, member2, Doc, Number};
use crate::opencode::opencode_args;
use crate::scan::{is_blank, starts, trim};
use crate::text::opt_text;
use crate::text_laws::{group_says, law_concatenation_keeps_every_part, says, says_all};
use crate::turns::{folded, note_piece, reply_end};

verus! {

/// Whether two arguments stand side by side, at a place before `end`.
pub open spec fn pair_at(args: Seq<Seq<char>>, i: int, a: Seq<char>, b: Seq<char>, end: int) -> bool {
    0 <= i && i + 1 < end <= args.len() && args[i] == a && args[i + 1] == b
}

/// Whether two arguments stand side by side somewhere before `end`.
pub open spec fn has_pair(args: Seq<Seq<char>>, a: Seq<char>, b: Seq<char>, end: int) -> bool {
    exists|i: int| #[trigger] pair_at(args, i, a, b, end)
}

// ---- codex ---------------------------------------------------------------------

/// What stands before the thread and the prompt.
spec fn codex_settings(ctx: SpawnCtx, files: Seq<Seq<char>>) -> Seq<Seq<char>> {
    seq!["exec"@, "--json"@, "--sandbox"@, ctx.sandbox@, "--skip-git-repo-check"@] + flag_args(
        "-m"@,
        opt_text(ctx.model),
    ) + effort_args(opt_text(ctx.effort)) + image_args(files)
}

/// A codex turn ends with its prompt behind a double dash. A session that has a
/// thread names it right before that, behind the word that resumes it; with and
/// without a thread the arguments are otherwise the same.
pub proof fn law_codex_turns_resume_their_thread(
    ctx: SpawnCtx,
    tid: Seq<char>,
    prompt: Seq<char>,
    files: Seq<Seq<char>>,
)
    ensures
        ({
            let args = codex_args(ctx, Some(tid), prompt, files);
            let n = args.len();
            &&& n >= 4
            &&& args[n - 1] == prompt
            &&& args[n - 2] == "--"@
            &&& args[n - 3] == tid
            &&& args[n - 4] == "resume"@
        }),
        ({
            let args = codex_args(ctx, None, prompt, files);
            let with = codex_args(ctx, Some(tid), prompt, files);
            let n = args.len();
            &&& n >= 2
            &&& args[n - 1] == prompt
            &&& args[n - 2] == "--"@
            &&& with.len() == n + 2
            &&& with.take(n - 2) == args.take(n - 2)
        }),
{
    let s = codex_settings(ctx, files);
    let with = codex_args(ctx, Some(tid), prompt, files);
    let args = codex_args(ctx, None, prompt, files);
    assert(with =~= s + seq!["resume"@, tid, "--"@, prompt]);
    assert(args =~= s + seq!["--"@, prompt]);
    assert(with.take(args.len() - 2) =~= args.take(args.len() - 2));
}

proof fn lemma_image_args(files: Seq<Seq<char>>)
    ensures
        forall|i: int|
            0 <= i < image_args(files).len() ==> (#[trigger] image_args(files)[i]) == "-i"@
                || files.contains(image_args(files)[i]),
        forall|k: int|
            0 <= k < files.len() && shows_image(#[trigger] files[k]) ==> has_pair(
                image_args(files),
                "-i"@,
                files[k],
                image_args(files).len() as int,
            ),
        forall|i: int|
            0 <= i < image_args(files).len() && i % 2 == 1 ==> shows_image(
                #[trigger] image_args(files)[i],
            ) && image_args(files)[i - 1] == "-i"@,
        image_args(files).len() % 2 == 0,
    decreases files.len(),
{
    if files.len() > 0 {
        let init = files.drop_last();
        lemma_image_args(init);
        let before = image_args(init);
        let all = image_args(files);
        assert forall|i: int| 0 <= i < all.len() implies (#[trigger] all[i]) == "-i"@
            || files.contains(all[i]) by {
            if i < before.len() {
                assert(all[i] == before[i]);
                if before[i] != "-i"@ {
                    let m = choose|m: int| 0 <= m < init.len() && init[m] == before[i];
                    assert(files[m] == before[i]);
                }
            } else {
                assert(files[files.len() - 1] == files.last());
            }
        }
        assert forall|k: int| 0 <= k < files.len() && shows_image(#[trigger] files[k]) implies has_pair(
            all,
            "-i"@,
            files[k],
            all.len() as int,
        ) by {
            if k < init.len() {
                assert(init[k] == files[k]);
                let m = choose|m: int| #[trigger]
                    pair_at(before, m, "-i"@, init[k], before.len() as int);
                assert(pair_at(all, m, "-i"@, files[k], all.len() as int));
            } else {
                assert(pair_at(all, all.len() - 2, "-i"@, files[k], all.len() as int));
            }
        }
        assert forall|i: int| 0 <= i < all.len() && i % 2 == 1 implies shows_image(
            #[trigger] all[i],
        ) && all[i - 1] == "-i"@ by {
            if i < before.len() {
                assert(all[i] == before[i]);
                assert(all[i - 1] == before[i - 1]);
            }
        }
    }
}

/// Before the double dash a codex turn is told its sandbox, its model and its
/// effort where there are such, and every picture among the files.
pub proof fn law_codex_turns_are_told_their_settings(
    ctx: SpawnCtx,
    thread: Option<Seq<char>>,
    prompt: Seq<char>,
    files: Seq<Seq<char>>,
    k: int,
)
    ensures
        ({
            let args = codex_args(ctx, thread, prompt, files);
            let end = args.len() - 2;
            &&& args.len() >= 7
            &&& args[0] == "exec"@ && args[1] == "--json"@
            &&& has_pair(args, "--sandbox"@, ctx.sandbox@, end)
            &&& ctx.model is Some ==> has_pair(args, "-m"@, ctx.model->Some_0@, end)
            &&& ctx.effort is Some ==> has_pair(
                args,
                "-c"@,
                "model_reasoning_effort="@ + ctx.effort->Some_0@,
                end,
            )
            &&& 0 <= k < files.len() && shows_image(files[k]) ==> has_pair(
                args,
                "-i"@,
                files[k],
                end,
            )
        }),
        thread is None ==> codex_args(ctx, thread, prompt, files).len() == 7 + (
        if ctx.model is Some {
            2int
        } else {
            0
        }) + (if ctx.effort is Some {
            2int
        } else {
            0
        }) + 2 * files.filter(|f: Seq<char>| shows_image(f)).len(),
{
    let args = codex_args(ctx, thread, prompt, files);
    let end = args.len() - 2;
    assert(pair_at(args, 2, "--sandbox"@, ctx.sandbox@, end));
    if ctx.model is Some {
        assert(pair_at(args, 5, "-m"@, ctx.model->Some_0@, end));
    }
    let m: int = if ctx.model is Some {
        7
    } else {
        5
    };
    if ctx.effort is Some {
        assert(pair_at(args, m, "-c"@, "model_reasoning_effort="@ + ctx.effort->Some_0@, end));
    }
    let e: int = if ctx.effort is Some {
        m + 2
    } else {
        m
    };
    lemma_image_args(files);
    let images = image_args(files);
    if 0 <= k < files.len() && shows_image(files[k]) {
        let i = choose|i: int| #[trigger]
            pair_at(images, i, "-i"@, files[k], images.len() as int);
        assert(args[e + i] == images[i] && args[e + i + 1] == images[i + 1]);
        assert(pair_at(args, e + i, "-i"@, files[k], end));
    }
    lemma_image_count(files);
}

proof fn lemma_image_count(files: Seq<Seq<char>>)
    ensures
        image_args(files).len() == 2 * files.filter(|f: Seq<char>| shows_image(f)).len(),
    decreases files.len(),
{
    let keep = |f: Seq<char>| shows_image(f);
    if files.len() > 0 {
        let init = files.drop_last();
        lemma_image_count(init);
        assert(init.push(files.last()) =~= files);
        init.lemma_filter_push(files.last(), keep);
    } else {
        assert(files.filter(keep).len() == 0) by {
            reveal(Seq::filter);
        }
    }
}

/// A session without a thread asks for nothing to be resumed, unless one of its
/// own settings or files reads so.
pub proof fn law_new_codex_threads_resume_nothing(
    ctx: SpawnCtx,
    prompt: Seq<char>,
    files: Seq<Seq<char>>,
    i: int,
)
    requires
        ctx.sandbox@ != "resume"@,
        ctx.model matches Some(m) ==> m@ != "resume"@,
        !files.contains("resume"@),
        0 <= i < codex_args(ctx, None, prompt, files).len() - 2,
    ensures
        codex_args(ctx, None, prompt, files)[i] != "resume"@,
{
    reveal_strlit("resume");
    reveal_strlit("exec");
    reveal_strlit("--json");
    reveal_strlit("--sandbox");
    reveal_strlit("--skip-git-repo-check");
    reveal_strlit("-m");
    reveal_strlit("-c");
    reveal_strlit("-i");
    reveal_strlit("model_reasoning_effort=");
    assert("--json"@[0] != "resume"@[0]);
    lemma_image_args(files);
    let s = codex_settings(ctx, files);
    let args = codex_args(ctx, None, prompt, files);
    assert(args =~= s + seq!["--"@, prompt]);
    assert(args[i] == s[i]);
    let m: int = if ctx.model is Some {
        7
    } else {
        5
    };
    let e: int = if ctx.effort is Some {
        m + 2
    } else {
        m
    };
    if i < e {
        if ctx.effort is Some && i == m + 1 {
            assert(s[i] == "model_reasoning_effort="@ + ctx.effort->Some_0@);
            assert(s[i][0] == 'm');
        }
    } else {
        assert(s[i] == image_args(files)[i - e]);
    }
}

/// Whether the threads are those of a session that hears reports one after the
/// other.
pub open spec fn hears(threads: Seq<Option<Seq<char>>>, reports: Seq<Doc>) -> bool {
    &&& threads.len() == reports.len() + 1
    &&& forall|i: int|
        0 <= i < reports.len() ==> #[trigger] threads[i + 1] == thread_after(threads[i], reports[i])
}

/// Whether a report says that a thread was started, and names it.
pub open spec fn starts_thread(d: Doc, tid: Seq<char>) -> bool {
    doc_str(member(d, "type"@)) == Some("thread.started"@) && doc_str(member(d, "thread_id"@))
        == Some(tid)
}

/// A session keeps the last thread that was reported, and every later turn
/// resumes that.
pub proof fn law_codex_sessions_keep_their_thread(
    threads: Seq<Option<Seq<char>>>,
    reports: Seq<Doc>,
    k: int,
    tid: Seq<char>,
    ctx: SpawnCtx,
    prompt: Seq<char>,
    files: Seq<Seq<char>>,
)
    requires
        hears(threads, reports),
        0 <= k < reports.len(),
        starts_thread(reports[k], tid),
        forall|i: int, other: Seq<char>|
            k < i < reports.len() ==> !#[trigger] starts_thread(reports[i], other),
    ensures
        threads.last() == Some(tid),
        has_pair(
            codex_args(ctx, threads.last(), prompt, files),
            "resume"@,
            tid,
            codex_args(ctx, threads.last(), prompt, files).len() - 2,
        ),
    decreases reports.len(),
{
    lemma_thread_kept(threads, reports, k, tid, reports.len() as int);
    law_codex_turns_resume_their_thread(ctx, tid, prompt, files);
    let args = codex_args(ctx, Some(tid), prompt, files);
    assert(pair_at(args, args.len() - 4, "resume"@, tid, args.len() - 2));
}

proof fn lemma_thread_kept(
    threads: Seq<Option<Seq<char>>>,
    reports: Seq<Doc>,
    k: int,
    tid: Seq<char>,
    n: int,
)
    requires
        hears(threads, reports),
        0 <= k < n <= reports.len(),
        starts_thread(reports[k], tid),
        forall|i: int, other: Seq<char>|
            k < i < reports.len() ==> !#[trigger] starts_thread(reports[i], other),
    ensures
        threads[n] == Some(tid),
    decreases n - k,
{
    assert(threads[(n - 1) + 1] == thread_after(threads[n - 1], reports[n - 1]));
    if n > k + 1 {
        lemma_thread_kept(threads, reports, k, tid, n - 1);
        match doc_str(member(reports[n - 1], "thread_id"@)) {
            Some(other) => {
                assert(!starts_thread(reports[n - 1], other));
            },
            None => {},
        }
    }
}

/// What codex reports means what it says: a whole message is the agent's reply,
/// word for word; a completed turn is over; a failed one is over too and leaves
/// its reason as the reply; an error of an item is no end; and a thread is
/// announced once.
pub proof fn law_codex_reports_mean_what_they_say(
    agent: AgentId,
    turn: TurnId,
    announced: bool,
    d: Doc,
    item: Doc,
    text: Seq<char>,
)
    ensures
        doc_str(member(d, "type"@)) == Some("item.completed"@) && member(d, "item"@) == Some(item)
            && doc_str(member(item, "type"@)) == Some("agent_message"@) && doc_str(
            member(item, "text"@),
        ) == Some(text) ==> codex_events(agent, turn, announced, d) == seq![
            Happening::MessageFinal { agent, turn, text },
        ],
        doc_str(member(d, "type"@)) == Some("turn.completed"@) ==> codex_events(
            agent,
            turn,
            announced,
            d,
        ) == seq![
            Happening::TurnComplete { agent, turn, cost_usd: None, token_usage: codex_usage(d) },
        ],
        doc_str(member(d, "type"@)) == Some("turn.failed"@) && doc_str(
            member2(d, "error"@, "message"@),
        ) == Some(text) ==> {
            let e = codex_events(agent, turn, announced, d);
            &&& e.len() == 2
            &&& e[0] matches Happening::MessageFinal { agent: a, turn: t, text: said }
            &&& a == agent && t == turn && says(said, text)
            &&& e[1] == (Happening::TurnComplete {
                agent,
                turn,
                cost_usd: None,
                token_usage: None,
            })
        },
        starts_thread(d, text) ==> codex_events(agent, turn, announced, d) == (if announced {
            Seq::empty()
        } else {
            seq![Happening::SessionReady { agent, native_session_id: text }]
        }),
        doc_str(member(d, "type"@)) == Some("item.completed"@) && member(d, "item"@) == Some(item)
            && doc_str(member(item, "type"@)) == Some("error"@) && doc_str(
            member(item, "message"@),
        ) == Some(text) && !starts(text, "Skill descriptions were shortened"@) ==> codex_events(
            agent,
            turn,
            announced,
            d,
        ) == seq![Happening::Error { agent, message: text, fatal: false }],
{
    broadcast use group_says;

    reveal_strlit("thread.started");
    reveal_strlit("item.completed");
    reveal_strlit("turn.completed");
    reveal_strlit("turn.failed");
    reveal_strlit("agent_message");
    reveal_strlit("error");
    assert("thread.started"@[1] != "turn.completed"@[1]);
    assert("thread.started"@[0] != "item.completed"@[0]);
    assert("thread.started"@.len() != "turn.failed"@.len());
    assert("item.completed"@[0] != "turn.completed"@[0]);
    assert("item.completed"@.len() != "turn.failed"@.len());
    assert("turn.completed"@.len() != "turn.failed"@.len());
    assert("agent_message"@.len() != "error"@.len());
}

/// The first of several counts that a document holds.
pub open spec fn first_told(u: Doc, keys: Seq<Seq<char>>) -> Option<u64>
    decreases keys.len(),
{
    if keys.len() == 0 {
        None
    } else {
        match doc_u64(member(u, keys[0])) {
            Some(n) => Some(n),
            None => first_told(u, keys.skip(1)),
        }
    }
}

/// Of the names under which a count is told, the first that is there counts.
pub proof fn law_codex_counts_go_by_their_first_name(u: Doc)
    ensures
        usage_told(u).input_tokens == first_told(
            u,
            seq!["input_tokens"@, "prompt_tokens"@, "input"@, "prompt"@, "tokens_in"@],
        ),
        usage_told(u).output_tokens == first_told(
            u,
            seq!["output_tokens"@, "completion_tokens"@, "output"@, "completion"@, "tokens_out"@],
        ),
        usage_told(u).total_tokens == first_told(u, seq!["total_tokens"@, "total"@]),
        doc_u64(member(u, "cached_input_tokens"@)) matches Some(n)
            ==> usage_told(u).cached_input_tokens == Some(n),
        doc_u64(member(u, "reasoning_output_tokens"@)) matches Some(n)
            ==> usage_told(u).reasoning_output_tokens == Some(n),
        doc_u64(member(u, "cached_input_tokens"@)) is None && doc_u64(
            member(u, "input_cached_tokens"@),
        ) is None && doc_u64(member(u, "cached_tokens"@)) is None ==> (doc_u64(
            member2(u, "input_token_details"@, "cached_tokens"@),
        ) matches Some(n) ==> usage_told(u).cached_input_tokens == Some(n)),
{
    let i = seq!["input_tokens"@, "prompt_tokens"@, "input"@, "prompt"@, "tokens_in"@];
    let o = seq!["output_tokens"@, "completion_tokens"@, "output"@, "completion"@, "tokens_out"@];
    let t = seq!["total_tokens"@, "total"@];
    reveal_with_fuel(first_told, 6);
    assert(i.skip(1)[0] == i[1] && i.skip(1).skip(1)[0] == i[2] && i.skip(1).skip(1).skip(1)[0]
        == i[3] && i.skip(1).skip(1).skip(1).skip(1)[0] == i[4]);
    assert(o.skip(1)[0] == o[1] && o.skip(1).skip(1)[0] == o[2] && o.skip(1).skip(1).skip(1)[0]
        == o[3] && o.skip(1).skip(1).skip(1).skip(1)[0] == o[4]);
    assert(t.skip(1)[0] == t[1]);
}

// ---- The other tools ---------------------------------------------------------------

/// A lasting session is started under the agent's own identifier, with its
/// permissions and its directory, and with its model and effort where there are
/// such. Where it is limited to tools, they stand last, behind their flag; where
/// the project brings servers of its own, these are kept out.
pub proof fn law_lasting_sessions_are_told_their_settings(ctx: SpawnCtx, risky: bool)
    ensures
        ({
            let args = claude_args(ctx, risky);
            let end = args.len() as int;
            &&& has_pair(args, "--session-id"@, id_text(ctx.agent), end)
            &&& has_pair(args, "--permission-mode"@, ctx.permission_mode@, end)
            &&& has_pair(args, "--add-dir"@, ctx.cwd@, end)
            &&& ctx.model is Some ==> has_pair(args, "--model"@, ctx.model->Some_0@, end)
            &&& ctx.effort is Some ==> has_pair(args, "--effort"@, ctx.effort->Some_0@, end)
            &&& risky ==> has_pair(args, "--setting-sources"@, "user"@, end) && has_pair(
                args,
                "--strict-mcp-config"@,
                "--mcp-config"@,
                end,
            )
            &&& ctx.allowed_tools matches Some(tools) ==> tools@.len() > 0 ==> {
                &&& end > tools@.len()
                &&& args[end - tools@.len() - 1] == "--allowedTools"@
                &&& forall|i: int|
                    0 <= i < tools@.len() ==> args[end - tools@.len() + i] == (
                    #[trigger] tools@[i])@
            }
        }),
        (ctx.allowed_tools matches Some(tools) ==> tools@.len() == 0) ==> claude_args(
            ctx,
            risky,
        ).len() == 13 + (if risky {
            5int
        } else {
            0
        }) + (if ctx.model is Some {
            2int
        } else {
            0
        }) + (if ctx.effort is Some {
            2int
        } else {
            0
        }),
{
    let args = claude_args(ctx, risky);
    let end = args.len() as int;
    assert(pair_at(args, 7, "--session-id"@, id_text(ctx.agent), end));
    assert(pair_at(args, 9, "--permission-mode"@, ctx.permission_mode@, end));
    assert(pair_at(args, 11, "--add-dir"@, ctx.cwd@, end));
    let r: int = if risky {
        18
    } else {
        13
    };
    if risky {
        assert(pair_at(args, 16, "--setting-sources"@, "user"@, end));
        assert(pair_at(args, 13, "--strict-mcp-config"@, "--mcp-config"@, end));
    }
    if ctx.model is Some {
        assert(pair_at(args, r, "--model"@, ctx.model->Some_0@, end));
    }
    let m: int = if ctx.model is Some {
        r + 2
    } else {
        r
    };
    if ctx.effort is Some {
        assert(pair_at(args, m, "--effort"@, ctx.effort->Some_0@, end));
    }
    if let Some(tools) = ctx.allowed_tools {
        if tools@.len() > 0 {
            assert forall|i: int| 0 <= i < tools@.len() implies args[end - tools@.len() + i] == (
            #[trigger] tools@[i])@ by {
                assert(tools_args(allowed(ctx))[1 + i] == tools@[i]@);
            }
        }
    }
}

/// A command that is started once per turn gets its prompt last. `opencode` goes
/// on with its session once there is one.
pub proof fn law_prompts_stand_last(
    started: bool,
    model: Option<Seq<char>>,
    prompt: Seq<char>,
    g: GenericView,
)
    ensures
        opencode_args(started, model, prompt).last() == prompt,
        opencode_args(started, model, prompt)[0] == "run"@,
        started ==> opencode_args(started, model, prompt)[1] == "--continue"@,
        opencode_args(started, model, prompt).len() == 2 + (if started {
            1int
        } else {
            0
        }) + (if model is Some {
            2int
        } else {
            0
        }),
        model is Some ==> has_pair(
            opencode_args(started, model, prompt),
            "--model"@,
            model->Some_0,
            opencode_args(started, model, prompt).len() - 1,
        ),
        generic_args(g, model, prompt).last() == prompt,
        generic_args(g, model, prompt).take(g.run_args.len() as int) == g.run_args,
        g.prompt_flag.len() > 0 ==> generic_args(g, model, prompt)[generic_args(
            g,
            model,
            prompt,
        ).len() - 2] == g.prompt_flag,
        model is Some && g.model_flag.len() > 0 ==> has_pair(
            generic_args(g, model, prompt),
            g.model_flag,
            model->Some_0,
            generic_args(g, model, prompt).len() - 1,
        ),
        generic_args(g, model, prompt).len() == g.run_args.len() + 1 + (if g.prompt_flag.len() > 0 {
            1int
        } else {
            0
        }) + (if model is Some && g.model_flag.len() > 0 {
            2int
        } else {
            0
        }),
{
    let o = opencode_args(started, model, prompt);
    if model is Some {
        assert(pair_at(
            o,
            if started {
                2
            } else {
                1
            },
            "--model"@,
            model->Some_0,
            o.len() - 1,
        ));
    }
    let a = generic_args(g, model, prompt);
    assert(a.take(g.run_args.len() as int) =~= g.run_args);
    if model is Some && g.model_flag.len() > 0 {
        assert(pair_at(a, g.run_args.len() as int, g.model_flag, model->Some_0, a.len() - 1));
    }
}

/// A message of the lasting session is the texts of its blocks one behind the
/// other; each use of a tool is reported, in order; and the report on a turn's
/// result ends the turn with what it says that the session cost.
pub proof fn law_lasting_reports_mean_what_they_say(
    agent: AgentId,
    turn: TurnId,
    d: Doc,
    text: Seq<char>,
)
    ensures
        doc_str(member(d, "type"@)) == Some("result"@) ==> {
            let e = claude_events(agent, turn, d);
            &&& e.len() == 1
            &&& e[0] matches Happening::TurnComplete { agent: a, turn: t, cost_usd, token_usage }
            &&& a == agent && t == turn && token_usage is None
            &&& (cost_usd is Some <==> member(d, "total_cost_usd"@) matches Some(Doc::Num(_)))
            &&& (member(d, "total_cost_usd"@) matches Some(Doc::Num(Number::Real(bits)))
                ==> cost_usd == Some(Number::Real(bits)))
        },
        doc_str(member(d, "type"@)) == Some("assistant"@) ==> claude_events(agent, turn, d)
            == message_events(agent, turn, doc_items(member2(d, "message"@, "content"@))),
        doc_str(member(d, "type"@)) == Some("system"@) && doc_str(member(d, "subtype"@)) == Some(
            "init"@,
        ) && doc_str(member(d, "session_id"@)) == Some(text) ==> {
            let e = claude_events(agent, turn, d);
            &&& e.len() >= 1
            &&& e[0] == (Happening::SessionReady { agent, native_session_id: text })
        },
        doc_str(member(d, "type"@)) == Some("stream_event"@) && doc_str(
            member2(d, "event"@, "type"@),
        ) == Some("content_block_delta"@) && (member(d, "event"@) matches Some(ev) && doc_str(
            member2(ev, "delta"@, "text"@),
        ) == Some(text)) ==> claude_events(agent, turn, d) == seq![
            Happening::TokenDelta { agent, turn, text },
        ],
{
    reveal_strlit("result");
    reveal_strlit("assistant");
    reveal_strlit("system");
    reveal_strlit("stream_event");
    reveal_strlit("content_block_delta");
    reveal_strlit("message_start");
    assert("result"@[0] != "system"@[0]);
    assert("assistant"@.len() != "result"@.len());
    assert("content_block_delta"@.len() != "message_start"@.len());
    assert("stream_event"@.len() != "system"@.len());
}

/// A message's reply is the texts of its text blocks, all of them, in order; it
/// comes after the uses of tools, and there is none where there is no text.
pub proof fn law_replies_are_all_the_texts(agent: AgentId, turn: TurnId, blocks: Seq<Doc>, more: Doc)
    ensures
        blocks_text(blocks.push(more)) == blocks_text(blocks) + (if doc_str(member(more, "type"@))
            == Some("text"@) && doc_str(member(more, "text"@)) is Some {
            doc_str(member(more, "text"@))->Some_0
        } else {
            Seq::empty()
        }),
        blocks_text(Seq::empty()).len() == 0,
        doc_str(member(more, "type"@)) == Some("tool_use"@) ==> {
            let calls = tool_calls(agent, turn, blocks.push(more));
            &&& calls.drop_last() == tool_calls(agent, turn, blocks)
            &&& calls.last() matches Happening::ToolCall { agent: a, turn: t, name, input }
            &&& a == agent && t == turn
            &&& (doc_str(member(more, "name"@)) matches Some(n) ==> name == n)
            &&& (member(more, "input"@) matches Some(i) ==> input == i)
        },
        doc_str(member(more, "type"@)) != Some("tool_use"@) ==> tool_calls(
            agent,
            turn,
            blocks.push(more),
        ) == tool_calls(agent, turn, blocks),
        tool_calls(agent, turn, Seq::empty()).len() == 0,
        blocks_text(blocks).len() > 0 ==> message_events(agent, turn, blocks) == tool_calls(
            agent,
            turn,
            blocks,
        ).push(Happening::MessageFinal { agent, turn, text: blocks_text(blocks) }),
        blocks_text(blocks).len() == 0 ==> message_events(agent, turn, blocks) == tool_calls(
            agent,
            turn,
            blocks,
        ),
{
    assert(blocks.push(more).drop_last() =~= blocks);
    if doc_str(member(more, "type"@)) == Some("tool_use"@) {
        let calls = tool_calls(agent, turn, blocks.push(more));
        assert(calls.drop_last() =~= tool_calls(agent, turn, blocks));
    }
    if blocks_text(blocks).len() > 0 {
        assert(message_events(agent, turn, blocks) =~= tool_calls(agent, turn, blocks).push(
            Happening::MessageFinal { agent, turn, text: blocks_text(blocks) },
        ));
    } else {
        assert(message_events(agent, turn, blocks) =~= tool_calls(agent, turn, blocks));
    }
}

/// The notes that wait stand before the prompt, all of them, in order, and the
/// prompt stands last.
pub proof fn law_notes_stand_before_the_prompt(pending: Seq<Seq<char>>, prompt: Seq<char>)
    ensures
        folded(pending, prompt).len() >= prompt.len(),
        folded(pending, prompt).skip(folded(pending, prompt).len() - prompt.len()) == prompt,
        says_all(
            folded(pending, prompt),
            Seq::new(pending.len(), |i: int| "[note from orchestrator] "@ + pending[i] + "\n\n"@),
        ),
{
    broadcast use group_says;

    let pieces = Seq::new(pending.len(), |i: int| note_piece(pending[i]));
    law_concatenation_keeps_every_part(pieces, Seq::empty());
    assert(pieces =~= Seq::new(
        pending.len(),
        |i: int| "[note from orchestrator] "@ + pending[i] + "\n\n"@,
    ));
    let f = folded(pending, prompt);
    assert(f.skip(f.len() - prompt.len()) =~= prompt);
}

/// A printed reply counts without the white space around it, and is none where
/// it is white space alone; the end of the turn follows.
pub proof fn law_printed_replies_are_whole(agent: AgentId, turn: TurnId, text: Seq<char>)
    ensures
        is_blank(text) ==> reply_end(agent, turn, text) == seq![
            Happening::TurnComplete { agent, turn, cost_usd: None, token_usage: None },
        ],
        !is_blank(text) ==> reply_end(agent, turn, text) == seq![
            Happening::MessageFinal { agent, turn, text: trim(text) },
            Happening::TurnComplete { agent, turn, cost_usd: None, token_usage: None },
        ],
{
    if is_blank(text) {
        assert(reply_end(agent, turn, text) =~= seq![
            Happening::TurnComplete { agent, turn, cost_usd: None, token_usage: None },
        ]);
    } else {
        assert(reply_end(agent, turn, text) =~= seq![
            Happening::MessageFinal { agent, turn, text: trim(text) },
            Happening::TurnComplete { agent, turn, cost_usd: None, token_usage: None },
        ]);
    }
}

} // verus!
