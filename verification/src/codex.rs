//! The adapter for the `codex` command.
use vstd::prelude::*;
use crate::agent::{
    happenings, kind_caps, paths, shows_image, AgentCaps, AgentEvent, Attachment, Happening,
    SpawnCtx, TurnId,
};
use crate::claude::{flag_args, string_items};
use crate::conductor::AgentId;
use crate::json::{copy, doc_items, doc_str, doc_u64, member, member2, str_at, Doc, Json};
use crate::json_read::{line_doc, read_json_line};
use crate::registry::AdapterKind;
use crate::scan::{contains, has, lines, lines_of, starts, starts_with, trim, trimmed};
use crate::text::{
    chars_of, join, join_texts, lemma_texts_push, opt_text, same, text_between, texts,
};
use crate::turns::{folded, next_turn_id, turn_after, Inbox};
use crate::usage::{no_usage, TokenUsage};

verus! {

/// Adapter for the `codex` command.
pub struct CodexAdapter {
    bin: String,
}

impl View for CodexAdapter {
    type V = Seq<char>;

    closed spec fn view(&self) -> Seq<char> {
        self.bin@
    }
}

impl CodexAdapter {
    pub fn new() -> (r: Self)
        ensures
            r@ == "codex"@,
    {
        CodexAdapter { bin: "codex".to_owned() }
    }

    /// An adapter that runs another command.
    pub fn with_bin(bin: String) -> (r: Self)
        ensures
            r@ == bin@,
    {
        CodexAdapter { bin }
    }

    /// The command that the adapter runs.
    pub fn bin(&self) -> (r: &str)
        ensures
            r@ == self@,
    {
        self.bin.as_str()
    }

    pub fn caps(&self) -> (r: AgentCaps)
        ensures
            r == kind_caps(AdapterKind::Codex),
    {
        AgentCaps {
            midturn_injection: false,
            structured_output: true,
            resumable: true,
            mcp: true,
        }
    }
}

impl Default for CodexAdapter {
    fn default() -> (r: Self)
        ensures
            r@ == "codex"@,
    {
        CodexAdapter::new()
    }
}

// ---- Starting ------------------------------------------------------------------

/// An agent's session: one `codex exec` per turn, going on with the thread that
/// the first one names.
#[derive(Debug)]
pub struct CodexSession {
    pub ctx: SpawnCtx,
    pub thread_id: Option<String>,
    /// Whether the session was reported.
    pub announced_session: bool,
    pub turn: TurnId,
    pub inbox: Inbox,
}

/// The pictures among files, each behind its flag.
pub open spec fn image_args(files: Seq<Seq<char>>) -> Seq<Seq<char>>
    decreases files.len(),
{
    if files.len() == 0 {
        Seq::empty()
    } else {
        let before = image_args(files.drop_last());
        if shows_image(files.last()) {
            before.push("-i"@).push(files.last())
        } else {
            before
        }
    }
}

/// How an effort is asked for.
pub open spec fn effort_args(effort: Option<Seq<char>>) -> Seq<Seq<char>> {
    match effort {
        Some(e) => seq!["-c"@, "model_reasoning_effort="@ + e],
        None => Seq::empty(),
    }
}

/// The arguments of a turn: the settings first, then the thread to go on with,
/// where there is one, and the prompt last.
pub open spec fn codex_args(
    ctx: SpawnCtx,
    thread: Option<Seq<char>>,
    prompt: Seq<char>,
    files: Seq<Seq<char>>,
) -> Seq<Seq<char>> {
    seq!["exec"@, "--json"@, "--sandbox"@, ctx.sandbox@, "--skip-git-repo-check"@] + flag_args(
        "-m"@,
        opt_text(ctx.model),
    ) + effort_args(opt_text(ctx.effort)) + image_args(files) + (match thread {
        Some(tid) => seq!["resume"@, tid],
        None => Seq::empty(),
    }) + seq!["--"@, prompt]
}

impl CodexSession {
    pub fn new(ctx: SpawnCtx) -> (r: Self)
        ensures
            r.ctx == ctx,
            r.thread_id is None,
            !r.announced_session,
            r.turn == 0,
            texts(r.inbox.pending@) == Seq::<Seq<char>>::empty(),
    {
        CodexSession {
            ctx,
            thread_id: None,
            announced_session: false,
            turn: 0,
            inbox: Inbox::new(),
        }
    }

    /// The arguments of a turn.
    pub fn build_args(&self, prompt: &str, attachments: &Vec<Attachment>) -> (r: Vec<String>)
        ensures
            texts(r@) == codex_args(
                self.ctx,
                opt_text(self.thread_id),
                prompt@,
                paths(attachments@),
            ),
    {
        let mut args = vec![
            "exec".to_owned(),
            "--json".to_owned(),
            "--sandbox".to_owned(),
            self.ctx.sandbox.clone(),
            "--skip-git-repo-check".to_owned(),
        ];
        let ghost base = texts(args@);
        if let Some(model) = &self.ctx.model {
            args.push("-m".to_owned());
            args.push(model.clone());
        }
        proof {
            assert(texts(args@) =~= base + flag_args("-m"@, opt_text(self.ctx.model)));
        }
        let ghost base2 = texts(args@);
        if let Some(effort) = &self.ctx.effort {
            args.push("-c".to_owned());
            let mut setting = "model_reasoning_effort=".to_owned();
            setting.append(effort.as_str());
            args.push(setting);
        }
        proof {
            assert(texts(args@) =~= base2 + effort_args(opt_text(self.ctx.effort)));
        }
        let ghost base3 = texts(args@);
        let ghost files = paths(attachments@);
        let mut i: usize = 0;
        proof {
            assert(texts(args@) =~= base3 + image_args(files.take(0)));
        }
        while i < attachments.len()
            invariant
                i <= attachments@.len(),
                files == paths(attachments@),
                texts(args@) == base3 + image_args(files.take(i as int)),
            decreases attachments@.len() - i,
        {
            let a = &attachments[i];
            proof {
                assert(files.take(i + 1).drop_last() =~= files.take(i as int));
                assert(files.take(i + 1).last() == a@);
            }
            if a.is_image() {
                let flag = "-i".to_owned();
                let path = a.path.clone();
                proof {
                    lemma_texts_push(args@, flag);
                    lemma_texts_push(args@.push(flag), path);
                    assert((base3 + image_args(files.take(i as int))).push("-i"@).push(path@)
                        =~= base3 + image_args(files.take(i as int)).push("-i"@).push(path@));
                }
                args.push(flag);
                args.push(path);
            }
            i = i + 1;
        }
        proof {
            assert(files.take(i as int) =~= files);
        }
        let ghost base4 = texts(args@);
        if let Some(tid) = &self.thread_id {
            args.push("resume".to_owned());
            args.push(tid.clone());
        }
        args.push("--".to_owned());
        args.push(prompt.to_owned());
        proof {
            assert(base =~= seq![
                "exec"@,
                "--json"@,
                "--sandbox"@,
                self.ctx.sandbox@,
                "--skip-git-repo-check"@,
            ]);
            assert(texts(args@) =~= base4 + (match opt_text(self.thread_id) {
                Some(tid) => seq!["resume"@, tid],
                None => Seq::empty(),
            }) + seq!["--"@, prompt@]);
        }
        args
    }

    /// Begins a turn with a prompt and the notes that wait for it.
    pub fn begin_turn(&mut self, prompt: String, attachments: &Vec<Attachment>) -> (r: Vec<String>)
        ensures
            final(self).ctx == old(self).ctx,
            final(self).thread_id == old(self).thread_id,
            final(self).announced_session == old(self).announced_session,
            final(self).turn == turn_after(old(self).turn),
            texts(final(self).inbox.pending@) == Seq::<Seq<char>>::empty(),
            texts(r@) == codex_args(
                old(self).ctx,
                opt_text(old(self).thread_id),
                folded(texts(old(self).inbox.pending@), prompt@),
                paths(attachments@),
            ),
    {
        let full = self.inbox.fold_prompt(prompt);
        self.turn = next_turn_id(self.turn);
        self.build_args(full.as_str(), attachments)
    }
}

// ---- Listening -----------------------------------------------------------------

/// A text cut to a length, with a mark where it was cut.
pub open spec fn shortened(s: Seq<char>, max: nat) -> Seq<char> {
    if s.len() <= max {
        s
    } else {
        s.take(if max == 0 {
            0
        } else {
            max - 1
        }) + "…"@
    }
}

/// Cuts a text to a length, with a mark where it was cut.
pub fn truncate(s: &str, max: usize) -> (r: String)
    ensures
        r@ == shortened(s@, max as nat),
{
    let c = chars_of(s);
    if c.len() <= max {
        return s.to_owned();
    }
    let keep: usize = if max == 0 {
        0
    } else {
        max - 1
    };
    proof {
        assert(s@.take(keep as int) =~= s@.subrange(0, keep as int));
    }
    let mut out = text_between(&c, 0, keep);
    out.append("…");
    out
}

/// A document in short: the first line of a text, or the texts of a list.
pub open spec fn brief(d: Doc) -> Option<Seq<char>> {
    match d {
        Doc::Str(s) => Some(
            if lines_of(s).len() == 0 {
                s
            } else {
                lines_of(s)[0]
            },
        ),
        Doc::Arr(items) => if string_items(items).len() == 0 {
            None
        } else {
            Some(join(string_items(items), " "@))
        },
        _ => None,
    }
}

/// A document in short.
pub fn value_brief(v: &Json) -> (r: Option<String>)
    ensures
        opt_text(r) == brief(v@),
{
    if let Some(s) = v.as_str() {
        let ls = lines(s);
        proof {
            assert(texts(ls@).len() == ls@.len());
        }
        if ls.len() == 0 {
            return Some(s.to_owned());
        }
        proof {
            assert(texts(ls@)[0] == ls@[0]@);
        }
        return Some(ls[0].clone());
    }
    let ghost all = doc_items(Some(v@));
    let n = v.items();
    let mut parts: Vec<String> = Vec::new();
    let mut i: usize = 0;
    proof {
        assert(texts(parts@) =~= string_items(all.take(0)));
    }
    while i < n
        invariant
            i <= n,
            n == all.len(),
            all == doc_items(Some(v@)),
            texts(parts@) == string_items(all.take(i as int)),
        decreases n - i,
    {
        proof {
            assert(all.take(i + 1).drop_last() =~= all.take(i as int));
            assert(all.take(i + 1).last() == all[i as int]);
        }
        if let Some(s) = v.item(i).as_str() {
            let next = s.to_owned();
            proof {
                lemma_texts_push(parts@, next);
            }
            parts.push(next);
        }
        i = i + 1;
    }
    proof {
        assert(all.take(i as int) =~= all);
        assert(texts(parts@).len() == parts@.len());
    }
    if parts.len() == 0 {
        None
    } else {
        Some(join_texts(&parts, " "))
    }
}

/// The names under which a tool's report may say what it did, the best first.
pub open spec fn telling_keys() -> Seq<Seq<char>> {
    seq![
        "command"@,
        "cmd"@,
        "parsed_cmd"@,
        "path"@,
        "query"@,
        "tool"@,
        "name"@,
        "aggregated_output"@,
    ]
}

/// What a report says under a name, where that is more than white space.
pub open spec fn told_under(item: Doc, key: Seq<char>) -> Option<Seq<char>> {
    match member(item, key) {
        Some(v) => match brief(v) {
            Some(b) => if trim(b).len() == 0 {
                None
            } else {
                Some(trim(b))
            },
            None => None,
        },
        None => None,
    }
}

/// What a report says under the first of some names under which it says
/// anything.
pub open spec fn told_first(item: Doc, keys: Seq<Seq<char>>) -> Option<Seq<char>>
    decreases keys.len(),
{
    if keys.len() == 0 {
        None
    } else {
        match told_first(item, keys.drop_last()) {
            Some(t) => Some(t),
            None => told_under(item, keys.last()),
        }
    }
}

/// What a tool did: its kind and what its report says, or the kind alone.
pub open spec fn tool_summary(kind: Seq<char>, item: Doc) -> Seq<char> {
    match told_first(item, telling_keys()) {
        Some(t) => kind + ": "@ + shortened(t, 80),
        None => kind,
    }
}

fn find_under(item: &Json, key: &str) -> (r: Option<String>)
    ensures
        opt_text(r) == told_under(item@, key@),
{
    match item.get(key) {
        Some(v) => match value_brief(v) {
            Some(b) => {
                let t = trimmed(b.as_str());
                if t.as_str().unicode_len() == 0 {
                    None
                } else {
                    Some(t)
                }
            },
            None => None,
        },
        None => None,
    }
}

/// What a tool did.
pub fn codex_tool_summary(kind: &str, item: &Json) -> (r: String)
    ensures
        r@ == tool_summary(kind@, item@),
{
    let keys = vec![
        "command",
        "cmd",
        "parsed_cmd",
        "path",
        "query",
        "tool",
        "name",
        "aggregated_output",
    ];
    let ghost all = telling_keys();
    let mut found: Option<String> = None;
    let mut i: usize = 0;
    proof {
        assert(keys@.len() == all.len());
        assert forall|k: int| 0 <= k < all.len() implies (#[trigger] keys@[k])@ == all[k] by {
            assert(k == 0 || k == 1 || k == 2 || k == 3 || k == 4 || k == 5 || k == 6 || k == 7);
        }
    }
    while i < keys.len()
        invariant
            i <= keys@.len(),
            keys@.len() == all.len(),
            forall|k: int| 0 <= k < all.len() ==> (#[trigger] keys@[k])@ == all[k],
            opt_text(found) == told_first(item@, all.take(i as int)),
        decreases keys@.len() - i,
    {
        proof {
            assert(all.take(i + 1).drop_last() =~= all.take(i as int));
            assert(all.take(i + 1).last() == keys@[i as int]@);
        }
        if found.is_none() {
            found = find_under(item, keys[i]);
        }
        i = i + 1;
    }
    proof {
        assert(all.take(i as int) =~= all);
    }
    match found {
        Some(t) => {
            let mut out = kind.to_owned();
            out.append(": ");
            out.append(truncate(t.as_str(), 80).as_str());
            out
        },
        None => kind.to_owned(),
    }
}

/// Whether a line on the error output says nothing of the turn: a greeting, or
/// chatter of the user's own MCP servers.
pub open spec fn is_noise(line: Seq<char>) -> bool {
    has(line, "Reading additional input from stdin"@) || has(line, "rmcp::transport"@) || has(
        line,
        "worker quit with fatal"@,
    ) || has(line, "Transport channel closed"@) || has(line, "AuthRequired"@) || has(
        line,
        "oauth-protected-resource"@,
    )
}

/// Whether a line on the error output says nothing of the turn.
pub fn is_benign_codex_noise(line: &str) -> (r: bool)
    ensures
        r == is_noise(line@),
{
    contains(line, "Reading additional input from stdin") || contains(line, "rmcp::transport")
        || contains(line, "worker quit with fatal") || contains(line, "Transport channel closed")
        || contains(line, "AuthRequired") || contains(line, "oauth-protected-resource")
}

/// The first of two counts that is there.
pub open spec fn or_else(a: Option<u64>, b: Option<u64>) -> Option<u64> {
    match a {
        Some(n) => Some(n),
        None => b,
    }
}

/// The count under a name.
pub open spec fn count_at(usage: Doc, key: Seq<char>) -> Option<u64> {
    doc_u64(member(usage, key))
}

/// The count under a name within another.
pub open spec fn count_at2(usage: Doc, a: Seq<char>, b: Seq<char>) -> Option<u64> {
    doc_u64(member2(usage, a, b))
}

/// The usage that an object tells of, whichever of the usual names it uses.
pub open spec fn usage_told(u: Doc) -> TokenUsage {
    TokenUsage {
        input_tokens: or_else(
            or_else(
                or_else(
                    or_else(count_at(u, "input_tokens"@), count_at(u, "prompt_tokens"@)),
                    count_at(u, "input"@),
                ),
                count_at(u, "prompt"@),
            ),
            count_at(u, "tokens_in"@),
        ),
        cached_input_tokens: or_else(
            or_else(
                or_else(
                    or_else(
                        count_at(u, "cached_input_tokens"@),
                        count_at(u, "input_cached_tokens"@),
                    ),
                    count_at(u, "cached_tokens"@),
                ),
                count_at2(u, "input_token_details"@, "cached_tokens"@),
            ),
            count_at2(u, "prompt_tokens_details"@, "cached_tokens"@),
        ),
        output_tokens: or_else(
            or_else(
                or_else(
                    or_else(count_at(u, "output_tokens"@), count_at(u, "completion_tokens"@)),
                    count_at(u, "output"@),
                ),
                count_at(u, "completion"@),
            ),
            count_at(u, "tokens_out"@),
        ),
        reasoning_output_tokens: or_else(
            or_else(
                count_at(u, "reasoning_output_tokens"@),
                count_at(u, "reasoning_tokens"@),
            ),
            count_at2(u, "output_token_details"@, "reasoning_tokens"@),
        ),
        total_tokens: or_else(count_at(u, "total_tokens"@), count_at(u, "total"@)),
    }
}

/// The usage that a report tells of; nothing where it tells of none.
pub open spec fn codex_usage(event: Doc) -> Option<TokenUsage> {
    match member(event, "usage"@) {
        Some(u) => if usage_told(u) == no_usage() {
            None
        } else {
            Some(usage_told(u))
        },
        None => None,
    }
}

fn first_count(a: Option<u64>, b: Option<u64>) -> (r: Option<u64>)
    ensures
        r == or_else(a, b),
{
    match a {
        Some(n) => Some(n),
        None => b,
    }
}

fn count_under(usage: &Json, key: &str) -> (r: Option<u64>)
    ensures
        r == count_at(usage@, key@),
{
    match usage.get(key) {
        Some(v) => v.as_u64(),
        None => None,
    }
}

fn count_under2(usage: &Json, a: &str, b: &str) -> (r: Option<u64>)
    ensures
        r == count_at2(usage@, a@, b@),
{
    match usage.get2(a, b) {
        Some(v) => v.as_u64(),
        None => None,
    }
}

fn input_side(u: &Json) -> (r: (Option<u64>, Option<u64>))
    ensures
        r.0 == usage_told(u@).input_tokens,
        r.1 == usage_told(u@).cached_input_tokens,
{
    let a = first_count(count_under(u, "input_tokens"), count_under(u, "prompt_tokens"));
    let b = first_count(a, count_under(u, "input"));
    let c = first_count(b, count_under(u, "prompt"));
    let input = first_count(c, count_under(u, "tokens_in"));
    let d = first_count(
        count_under(u, "cached_input_tokens"),
        count_under(u, "input_cached_tokens"),
    );
    let e = first_count(d, count_under(u, "cached_tokens"));
    let f = first_count(e, count_under2(u, "input_token_details", "cached_tokens"));
    let cached = first_count(f, count_under2(u, "prompt_tokens_details", "cached_tokens"));
    (input, cached)
}

fn output_side(u: &Json) -> (r: (Option<u64>, Option<u64>, Option<u64>))
    ensures
        r.0 == usage_told(u@).output_tokens,
        r.1 == usage_told(u@).reasoning_output_tokens,
        r.2 == usage_told(u@).total_tokens,
{
    let a = first_count(count_under(u, "output_tokens"), count_under(u, "completion_tokens"));
    let b = first_count(a, count_under(u, "output"));
    let c = first_count(b, count_under(u, "completion"));
    let output = first_count(c, count_under(u, "tokens_out"));
    let d = first_count(
        count_under(u, "reasoning_output_tokens"),
        count_under(u, "reasoning_tokens"),
    );
    let reasoning = first_count(
        d,
        count_under2(u, "output_token_details", "reasoning_tokens"),
    );
    let total = first_count(count_under(u, "total_tokens"), count_under(u, "total"));
    (output, reasoning, total)
}

/// The usage that a report tells of; nothing where it tells of none.
pub fn parse_codex_token_usage(event: &Json) -> (r: Option<TokenUsage>)
    ensures
        r == codex_usage(event@),
{
    let u = match event.get("usage") {
        Some(u) => u,
        None => {
            return None;
        },
    };
    let (input_tokens, cached_input_tokens) = input_side(u);
    let (output_tokens, reasoning_output_tokens, total_tokens) = output_side(u);
    let usage = TokenUsage {
        input_tokens,
        cached_input_tokens,
        output_tokens,
        reasoning_output_tokens,
        total_tokens,
    };
    if usage.is_empty() {
        None
    } else {
        Some(usage)
    }
}

/// What an item that was completed reports: a message, an error that is more
/// than a notice, or the use of a tool.
pub open spec fn item_events(agent: AgentId, turn: TurnId, item: Doc) -> Seq<Happening> {
    match doc_str(member(item, "type"@)) {
        None => Seq::empty(),
        Some(kind) => if kind == "agent_message"@ {
            match doc_str(member(item, "text"@)) {
                Some(t) => seq![Happening::MessageFinal { agent, turn, text: t }],
                None => Seq::empty(),
            }
        } else if kind == "error"@ {
            let message = match doc_str(member(item, "message"@)) {
                Some(m) => m,
                None => "error"@,
            };
            if starts(message, "Skill descriptions were shortened"@) {
                Seq::empty()
            } else {
                seq![Happening::Error { agent, message, fatal: false }]
            }
        } else if kind == "reasoning"@ {
            Seq::empty()
        } else {
            seq![
                Happening::ToolCall { agent, turn, name: tool_summary(kind, item), input: item },
            ]
        },
    }
}

/// Why a turn failed.
pub open spec fn failure_message(d: Doc) -> Seq<char> {
    match doc_str(member2(d, "error"@, "message"@)) {
        Some(m) => m,
        None => "turn failed"@,
    }
}

/// The end of a turn.
pub open spec fn turn_end(agent: AgentId, turn: TurnId, usage: Option<TokenUsage>) -> Happening {
    Happening::TurnComplete { agent, turn, cost_usd: None, token_usage: usage }
}

/// What a report of the tool means. A turn that failed is told as its message,
/// so that it does not read as if nothing was said.
pub open spec fn codex_events(
    agent: AgentId,
    turn: TurnId,
    announced: bool,
    d: Doc,
) -> Seq<Happening> {
    match doc_str(member(d, "type"@)) {
        None => Seq::empty(),
        Some(kind) => if kind == "thread.started"@ {
            match doc_str(member(d, "thread_id"@)) {
                Some(tid) => if announced {
                    Seq::empty()
                } else {
                    seq![Happening::SessionReady { agent, native_session_id: tid }]
                },
                None => Seq::empty(),
            }
        } else if kind == "item.completed"@ {
            match member(d, "item"@) {
                Some(item) => item_events(agent, turn, item),
                None => Seq::empty(),
            }
        } else if kind == "turn.completed"@ {
            seq![turn_end(agent, turn, codex_usage(d))]
        } else if kind == "turn.failed"@ {
            seq![
                Happening::MessageFinal {
                    agent,
                    turn,
                    text: "[turn failed: "@ + failure_message(d) + "]"@,
                },
                turn_end(agent, turn, None),
            ]
        } else {
            Seq::empty()
        },
    }
}

/// Whether a report ends the turn.
pub open spec fn codex_ends(d: Doc) -> bool {
    doc_str(member(d, "type"@)) == Some("turn.completed"@) || doc_str(member(d, "type"@)) == Some(
        "turn.failed"@,
    )
}

/// The thread that a report names.
pub open spec fn thread_named(d: Doc) -> Option<Seq<char>> {
    if doc_str(member(d, "type"@)) == Some("thread.started"@) {
        doc_str(member(d, "thread_id"@))
    } else {
        None
    }
}

/// The thread that a session goes on with after a report: the one that it names,
/// where it names one.
pub open spec fn thread_after(thread: Option<Seq<char>>, d: Doc) -> Option<Seq<char>> {
    match thread_named(d) {
        Some(tid) => Some(tid),
        None => thread,
    }
}

fn read_item(agent: AgentId, turn: TurnId, item: &Json) -> (r: Vec<AgentEvent>)
    ensures
        happenings(r@) == item_events(agent, turn, item@),
{
    let mut out: Vec<AgentEvent> = Vec::new();
    let kind = match str_at(item, "type") {
        Some(k) => k,
        None => {
            proof {
                assert(happenings(out@) =~= Seq::empty());
            }
            return out;
        },
    };
    if same(kind, "agent_message") {
        if let Some(t) = str_at(item, "text") {
            out.push(AgentEvent::MessageFinal { agent, turn, text: t.to_owned() });
        }
    } else if same(kind, "error") {
        let message = match str_at(item, "message") {
            Some(m) => m,
            None => "error",
        };
        if !starts_with(message, "Skill descriptions were shortened") {
            out.push(AgentEvent::Error { agent, message: message.to_owned(), fatal: false });
        }
    } else if !same(kind, "reasoning") {
        out.push(
            AgentEvent::ToolCall {
                agent,
                turn,
                name: codex_tool_summary(kind, item),
                input: copy(item),
            },
        );
    }
    proof {
        assert(happenings(out@) =~= item_events(agent, turn, item@));
    }
    out
}

impl CodexSession {
    /// Takes in a line that the tool wrote: what it means, and whether it ends
    /// the turn. A line that is blank or holds no document means nothing.
    pub fn handle_line(&mut self, line: &str, turn: TurnId) -> (r: (Vec<AgentEvent>, bool))
        ensures
            final(self).ctx == old(self).ctx,
            final(self).turn == old(self).turn,
            final(self).inbox == old(self).inbox,
            match line_doc(line@) {
                Some(d) => {
                    &&& opt_text(final(self).thread_id) == thread_after(
                        opt_text(old(self).thread_id),
                        d,
                    )
                    &&& match thread_named(d) {
                        Some(tid) => final(self).announced_session && opt_text(
                            final(self).thread_id,
                        ) == Some(tid),
                        None => final(self).announced_session == old(self).announced_session
                            && final(self).thread_id == old(self).thread_id,
                    }
                    &&& happenings(r.0@) == codex_events(
                        old(self).ctx.agent,
                        turn,
                        old(self).announced_session,
                        d,
                    )
                    &&& r.1 == codex_ends(d)
                },
                None => *final(self) == *old(self) && r.0@.len() == 0 && !r.1,
            },
    {
        match read_json_line(line) {
            Some(v) => self.handle_event(&v, turn),
            None => (Vec::new(), false),
        }
    }

    /// Takes in a report of the tool: what it means, and whether it ends the
    /// turn.
    pub fn handle_event(&mut self, v: &Json, turn: TurnId) -> (r: (Vec<AgentEvent>, bool))
        ensures
            opt_text(final(self).thread_id) == thread_after(opt_text(old(self).thread_id), v@),
            final(self).ctx == old(self).ctx,
            final(self).turn == old(self).turn,
            final(self).inbox == old(self).inbox,
            match thread_named(v@) {
                Some(tid) => final(self).announced_session && opt_text(final(self).thread_id)
                    == Some(tid),
                None => final(self).announced_session == old(self).announced_session
                    && final(self).thread_id == old(self).thread_id,
            },
            happenings(r.0@) == codex_events(
                old(self).ctx.agent,
                turn,
                old(self).announced_session,
                v@,
            ),
            r.1 == codex_ends(v@),
    {
        let agent = self.ctx.agent;
        let ghost announced = self.announced_session;
        let mut out: Vec<AgentEvent> = Vec::new();
        proof {
            assert(happenings(out@) =~= Seq::empty());
            reveal_strlit("thread.started");
            reveal_strlit("item.completed");
            reveal_strlit("turn.completed");
            reveal_strlit("turn.failed");
            assert("thread.started"@[1] != "turn.completed"@[1]);
            assert("thread.started"@.len() != "turn.failed"@.len());
            assert("item.completed"@[0] != "turn.completed"@[0]);
            assert("item.completed"@.len() != "turn.failed"@.len());
        }
        let kind = match str_at(v, "type") {
            Some(k) => k,
            None => {
                return (out, false);
            },
        };
        if same(kind, "thread.started") {
            if let Some(tid) = str_at(v, "thread_id") {
                self.thread_id = Some(tid.to_owned());
                if !self.announced_session {
                    self.announced_session = true;
                    out.push(
                        AgentEvent::SessionReady { agent, native_session_id: tid.to_owned() },
                    );
                }
            }
            proof {
                assert(happenings(out@) =~= codex_events(agent, turn, announced, v@));
            }
            return (out, false);
        }
        if same(kind, "item.completed") {
            if let Some(item) = v.get("item") {
                return (read_item(agent, turn, item), false);
            }
            return (out, false);
        }
        if same(kind, "turn.completed") {
            let usage = parse_codex_token_usage(v);
            out.push(
                AgentEvent::TurnComplete { agent, turn, cost_usd: None, token_usage: usage },
            );
            proof {
                assert(happenings(out@) =~= codex_events(agent, turn, announced, v@));
            }
            return (out, true);
        }
        if same(kind, "turn.failed") {
            let message = match v.get2("error", "message") {
                Some(m) => match m.as_str() {
                    Some(s) => s,
                    None => "turn failed",
                },
                None => "turn failed",
            };
            let mut text = "[turn failed: ".to_owned();
            text.append(message);
            text.append("]");
            out.push(AgentEvent::MessageFinal { agent, turn, text });
            out.push(AgentEvent::TurnComplete { agent, turn, cost_usd: None, token_usage: None });
            proof {
                assert(happenings(out@) =~= codex_events(agent, turn, announced, v@));
            }
            return (out, true);
        }
        (out, false)
    }

    /// What is reported when the process is gone: the end of the turn, unless a
    /// report ended it.
    pub fn close_turn(&self, turn: TurnId, terminal_seen: bool) -> (r: Option<AgentEvent>)
        ensures
            match r {
                Some(e) => !terminal_seen && e@ == turn_end(self.ctx.agent, turn, None),
                None => terminal_seen,
            },
    {
        if terminal_seen {
            None
        } else {
            Some(
                AgentEvent::TurnComplete {
                    agent: self.ctx.agent,
                    turn,
                    cost_usd: None,
                    token_usage: None,
                },
            )
        }
    }
}

/// A report that ends the turn says so last, and no other report says so.
pub proof fn law_only_ends_complete_turns(
    agent: AgentId,
    turn: TurnId,
    announced: bool,
    d: Doc,
    i: int,
)
    requires
        0 <= i < codex_events(agent, turn, announced, d).len(),
    ensures
        codex_events(agent, turn, announced, d)[i] is TurnComplete <==> codex_ends(d) && i
            == codex_events(agent, turn, announced, d).len() - 1,
{
    reveal_strlit("thread.started");
    reveal_strlit("item.completed");
    reveal_strlit("turn.completed");
    reveal_strlit("turn.failed");
    assert("thread.started"@[1] != "turn.completed"@[1]);
    assert("thread.started"@.len() != "turn.failed"@.len());
    assert("item.completed"@[0] != "turn.completed"@[0]);
    assert("item.completed"@.len() != "turn.failed"@.len());
}

} // verus!
