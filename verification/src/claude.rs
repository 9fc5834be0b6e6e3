//! The adapter for the Anthropic command.
use vstd::prelude::*;
use crate::agent::{
    ext_of, happenings, kind_caps, lemma_happenings_push, shows_image, AgentCaps, AgentEvent,
    Attachment, Happening, SpawnCtx, TurnId,
};
use crate::conductor::AgentId;
use crate::ids::{id_text, write_id};
use crate::json::{
    copy, doc_items, doc_num, doc_str, docs, jstr, lemma_docs_push, list, member, member2, null,
    opt_doc, str_at, text, Doc, Fields, Json, Number,
};
use crate::json_read::{line_doc, read_json_line};
use crate::registry::AdapterKind;
use crate::reals::{as_double, to_double};
use crate::text::{opt_text, same, texts};
use crate::turns::{next_turn_id, turn_after};

verus! {

/// Adapter for the Anthropic command.
pub struct ClaudeAdapter {
    bin: String,
}

impl View for ClaudeAdapter {
    type V = Seq<char>;

    closed spec fn view(&self) -> Seq<char> {
        self.bin@
    }
}

impl ClaudeAdapter {
    pub fn new() -> (r: Self)
        ensures
            r@ == "anthropic"@,
    {
        ClaudeAdapter { bin: "anthropic".to_owned() }
    }

    /// An adapter that runs another command.
    pub fn with_bin(bin: String) -> (r: Self)
        ensures
            r@ == bin@,
    {
        ClaudeAdapter { bin }
    }

    /// The command that the adapter runs.
    pub fn bin(&self) -> (r: &str)
        ensures
            r@ == self@,
    {
        self.bin.as_str()
    }

    pub fn caps(&self) -> (r: AgentCaps)
        ensures
            r == kind_caps(AdapterKind::Claude),
    {
        AgentCaps {
            midturn_injection: true,
            structured_output: true,
            resumable: true,
            mcp: true,
        }
    }
}

impl Default for ClaudeAdapter {
    fn default() -> (r: Self)
        ensures
            r@ == "anthropic"@,
    {
        ClaudeAdapter::new()
    }
}

// ---- Starting ------------------------------------------------------------------

/// The arguments that keep the project's own MCP servers out.
pub open spec fn shielding_args(risky: bool) -> Seq<Seq<char>> {
    if risky {
        seq![
            "--strict-mcp-config"@,
            "--mcp-config"@,
            "{\"mcpServers\":{}}"@,
            "--setting-sources"@,
            "user"@,
        ]
    } else {
        Seq::empty()
    }
}

/// A flag with its value, where there is one.
pub open spec fn flag_args(flag: Seq<char>, value: Option<Seq<char>>) -> Seq<Seq<char>> {
    match value {
        Some(v) => seq![flag, v],
        None => Seq::empty(),
    }
}

/// The tools that the agent is limited to, behind their flag.
pub open spec fn tools_args(tools: Option<Seq<Seq<char>>>) -> Seq<Seq<char>> {
    match tools {
        Some(t) => if t.len() == 0 {
            Seq::empty()
        } else {
            seq!["--allowedTools"@] + t
        },
        None => Seq::empty(),
    }
}

/// The tools that a session is limited to, as texts.
pub open spec fn allowed(ctx: SpawnCtx) -> Option<Seq<Seq<char>>> {
    match ctx.allowed_tools {
        Some(t) => Some(texts(t@)),
        None => None,
    }
}

/// The arguments with which a session is started. `risky` says that the working
/// directory brings MCP servers of its own.
pub open spec fn claude_args(ctx: SpawnCtx, risky: bool) -> Seq<Seq<char>> {
    seq![
        "-p"@,
        "--input-format"@,
        "stream-json"@,
        "--output-format"@,
        "stream-json"@,
        "--include-partial-messages"@,
        "--verbose"@,
        "--session-id"@,
        id_text(ctx.agent),
        "--permission-mode"@,
        ctx.permission_mode@,
        "--add-dir"@,
        ctx.cwd@,
    ] + shielding_args(risky) + flag_args("--model"@, opt_text(ctx.model)) + flag_args(
        "--effort"@,
        opt_text(ctx.effort),
    ) + tools_args(allowed(ctx))
}

/// The arguments with which a session is started.
pub fn session_args(ctx: &SpawnCtx, risky: bool) -> (r: Vec<String>)
    ensures
        texts(r@) == claude_args(*ctx, risky),
{
    let mut args = vec![
        "-p".to_owned(),
        "--input-format".to_owned(),
        "stream-json".to_owned(),
        "--output-format".to_owned(),
        "stream-json".to_owned(),
        "--include-partial-messages".to_owned(),
        "--verbose".to_owned(),
        "--session-id".to_owned(),
        write_id(ctx.agent),
        "--permission-mode".to_owned(),
        ctx.permission_mode.clone(),
        "--add-dir".to_owned(),
        ctx.cwd.clone(),
    ];
    let ghost base = texts(args@);
    if risky {
        args.push("--strict-mcp-config".to_owned());
        args.push("--mcp-config".to_owned());
        args.push("{\"mcpServers\":{}}".to_owned());
        args.push("--setting-sources".to_owned());
        args.push("user".to_owned());
    }
    proof {
        assert(texts(args@) =~= base + shielding_args(risky));
    }
    let ghost base2 = texts(args@);
    if let Some(model) = &ctx.model {
        args.push("--model".to_owned());
        args.push(model.clone());
    }
    proof {
        assert(texts(args@) =~= base2 + flag_args("--model"@, opt_text(ctx.model)));
    }
    let ghost base3 = texts(args@);
    if let Some(effort) = &ctx.effort {
        args.push("--effort".to_owned());
        args.push(effort.clone());
    }
    proof {
        assert(texts(args@) =~= base3 + flag_args("--effort"@, opt_text(ctx.effort)));
    }
    let ghost base4 = texts(args@);
    if let Some(tools) = &ctx.allowed_tools {
        proof {
            assert(texts(tools@).len() == tools@.len());
        }
        if tools.len() > 0 {
            args.push("--allowedTools".to_owned());
            let mut i: usize = 0;
            proof {
                assert(texts(args@) =~= base4 + seq!["--allowedTools"@] + texts(tools@).take(0));
            }
            while i < tools.len()
                invariant
                    i <= tools@.len(),
                    texts(args@) == base4 + seq!["--allowedTools"@] + texts(tools@).take(
                        i as int,
                    ),
                decreases tools@.len() - i,
            {
                let next = tools[i].clone();
                proof {
                    crate::text::lemma_texts_push(args@, next);
                    assert(base4 + seq!["--allowedTools"@] + texts(tools@).take(i + 1) =~= (base4
                        + seq!["--allowedTools"@] + texts(tools@).take(i as int)).push(next@));
                }
                args.push(next);
                i = i + 1;
            }
            proof {
                assert(texts(tools@).take(i as int) =~= texts(tools@));
                assert(texts(args@) =~= base4 + tools_args(allowed(*ctx)));
            }
        } else {
            proof {
                assert(texts(args@) =~= base4 + tools_args(allowed(*ctx)));
            }
        }
    } else {
        proof {
            assert(texts(args@) =~= base4 + tools_args(allowed(*ctx)));
        }
    }
    proof {
        assert(base =~= seq![
            "-p"@,
            "--input-format"@,
            "stream-json"@,
            "--output-format"@,
            "stream-json"@,
            "--include-partial-messages"@,
            "--verbose"@,
            "--session-id"@,
            id_text(ctx.agent),
            "--permission-mode"@,
            ctx.permission_mode@,
            "--add-dir"@,
            ctx.cwd@,
        ]);
    }
    args
}

// ---- Speaking ------------------------------------------------------------------

/// The text that base64 makes of bytes, in the standard alphabet and with
/// padding.
pub uninterp spec fn base64_text(bytes: Seq<u8>) -> Seq<char>;

/// `encode` of `base64::engine::general_purpose::STANDARD`.
///
/// Believed of it: the result depends on the bytes alone. What it is is left to
/// the name `base64_text`.
#[verifier::external_body]
pub(crate) fn encode_base64(bytes: &Vec<u8>) -> (r: String)
    ensures
        r@ == base64_text(bytes@),
{
    base64::Engine::encode(&base64::engine::general_purpose::STANDARD, bytes)
}

/// The media type of a picture with an extension.
pub open spec fn image_type(ext: Seq<char>) -> Seq<char> {
    if ext == "jpg"@ || ext == "jpeg"@ {
        "image/jpeg"@
    } else if ext == "gif"@ {
        "image/gif"@
    } else if ext == "webp"@ {
        "image/webp"@
    } else {
        "image/png"@
    }
}

/// A file within a message.
pub open spec fn block_doc(kind: Seq<char>, media_type: Seq<char>, data: Seq<char>) -> Doc {
    Doc::Obj(
        seq![
            ("type"@, jstr(kind)),
            (
                "source"@,
                Doc::Obj(
                    seq![
                        ("type"@, jstr("base64"@)),
                        ("media_type"@, jstr(media_type)),
                        ("data"@, jstr(data)),
                    ],
                ),
            ),
        ],
    )
}

/// What a file whose content encodes to `data` is within a message: a picture
/// or a document, and nothing where it is neither.
pub open spec fn encoded_block(path: Seq<char>, data: Seq<char>) -> Option<Doc> {
    if shows_image(path) {
        Some(block_doc("image"@, image_type(ext_of(path)), data))
    } else if ext_of(path) == "pdf"@ {
        Some(block_doc("document"@, "application/pdf"@, data))
    } else {
        None
    }
}

/// A document, where there is one.
pub open spec fn opt_view(j: Option<Json>) -> Option<Doc> {
    match j {
        Some(j) => Some(j@),
        None => None,
    }
}

fn source_block(kind: &str, media_type: &str, data: &str) -> (r: Json)
    ensures
        r@ == block_doc(kind@, media_type@, data@),
{
    let mut source = Fields::new();
    source.put("type", text("base64"));
    source.put("media_type", text(media_type));
    source.put("data", text(data));
    let ghost inner = source@;
    let mut f = Fields::new();
    f.put("type", text(kind));
    f.put("source", source.object());
    proof {
        assert(inner =~= seq![
            ("type"@, jstr("base64"@)),
            ("media_type"@, jstr(media_type@)),
            ("data"@, jstr(data@)),
        ]);
        assert(f@ =~= block_doc(kind@, media_type@, data@)->Obj_0);
    }
    f.object()
}

/// A file within a message, given what its content encodes to.
pub fn encoded_attachment_block(a: &Attachment, data: &str) -> (r: Option<Json>)
    ensures
        opt_view(r) == encoded_block(a@, data@),
{
    if a.is_image() {
        let ext = a.ext();
        let e = ext.as_str();
        let media_type = if same(e, "jpg") || same(e, "jpeg") {
            "image/jpeg"
        } else if same(e, "gif") {
            "image/gif"
        } else if same(e, "webp") {
            "image/webp"
        } else {
            "image/png"
        };
        Some(source_block("image", media_type, data))
    } else if a.is_pdf() {
        Some(source_block("document", "application/pdf", data))
    } else {
        None
    }
}

/// A file within a message. A file that could not be read, and one that is
/// neither a picture nor a PDF, is left out.
pub fn attachment_block(a: &Attachment, content: &Option<Vec<u8>>) -> (r: Option<Json>)
    ensures
        match *content {
            Some(bytes) => opt_view(r) == encoded_block(a@, base64_text(bytes@)),
            None => r is None,
        },
{
    match content {
        Some(bytes) => {
            let data = encode_base64(bytes);
            encoded_attachment_block(a, data.as_str())
        },
        None => None,
    }
}

/// A message to the agent: its text and the files behind it.
pub open spec fn message_doc(message: Seq<char>, blocks: Seq<Doc>) -> Doc {
    Doc::Obj(
        seq![
            ("type"@, jstr("user"@)),
            (
                "message"@,
                Doc::Obj(
                    seq![
                        ("role"@, jstr("user"@)),
                        (
                            "content"@,
                            Doc::Arr(
                                seq![
                                    Doc::Obj(
                                        seq![("type"@, jstr("text"@)), ("text"@, jstr(message))],
                                    ),
                                ] + blocks,
                            ),
                        ),
                    ],
                ),
            ),
        ],
    )
}

/// The files that can be shown, each as it stands within a message.
pub open spec fn shown_blocks(paths: Seq<Seq<char>>, contents: Seq<Option<Vec<u8>>>) -> Seq<Doc>
    decreases paths.len(),
{
    if paths.len() == 0 {
        Seq::empty()
    } else {
        let before = shown_blocks(paths.drop_last(), contents);
        match contents[paths.len() - 1] {
            Some(bytes) => match encoded_block(paths.last(), base64_text(bytes@)) {
                Some(b) => before.push(b),
                None => before,
            },
            None => before,
        }
    }
}

/// A message to the agent. `contents` holds for each attachment what was read
/// of it.
pub fn user_message(
    message: &str,
    attachments: &Vec<Attachment>,
    contents: &Vec<Option<Vec<u8>>>,
) -> (r: Json)
    requires
        contents@.len() == attachments@.len(),
    ensures
        r@ == message_doc(message@, shown_blocks(crate::agent::paths(attachments@), contents@)),
{
    let ghost all = crate::agent::paths(attachments@);
    let mut first = Fields::new();
    first.put("type", text("text"));
    first.put("text", text(message));
    let ghost first_doc = Doc::Obj(
        seq![("type"@, jstr("text"@)), ("text"@, jstr(message@))],
    );
    proof {
        assert(first@ =~= first_doc->Obj_0);
    }
    let mut content: Vec<Json> = Vec::new();
    content.push(first.object());
    let mut i: usize = 0;
    proof {
        assert(docs(content@) =~= seq![first_doc] + shown_blocks(all.take(0), contents@));
    }
    while i < attachments.len()
        invariant
            i <= attachments@.len(),
            contents@.len() == attachments@.len(),
            all == crate::agent::paths(attachments@),
            docs(content@) == seq![first_doc] + shown_blocks(all.take(i as int), contents@),
        decreases attachments@.len() - i,
    {
        proof {
            assert(all.take(i + 1).drop_last() =~= all.take(i as int));
            assert(all.take(i + 1).last() == attachments@[i as int]@);
        }
        let ghost before = shown_blocks(all.take(i as int), contents@);
        if let Some(block) = attachment_block(&attachments[i], &contents[i]) {
            proof {
                lemma_docs_push(content@, block);
                assert(seq![first_doc] + before.push(block@) =~= (seq![first_doc] + before).push(
                    block@,
                ));
            }
            content.push(block);
        }
        i = i + 1;
    }
    proof {
        assert(all.take(i as int) =~= all);
    }
    let mut inner = Fields::new();
    inner.put("role", text("user"));
    inner.put("content", list(content));
    let ghost inner_fields = inner@;
    let mut f = Fields::new();
    f.put("type", text("user"));
    f.put("message", inner.object());
    proof {
        let want = message_doc(message@, shown_blocks(all, contents@));
        assert(inner_fields =~= want->Obj_0[1].1->Obj_0);
        assert(f@ =~= want->Obj_0);
    }
    f.object()
}

// ---- Listening -----------------------------------------------------------------

/// Reads what the tool reports, line by line.
#[derive(Debug)]
pub struct ClaudeReader {
    pub agent: AgentId,
    pub turn: TurnId,
}

/// The texts in a list.
pub open spec fn string_items(items: Seq<Doc>) -> Seq<Seq<char>>
    decreases items.len(),
{
    if items.len() == 0 {
        Seq::empty()
    } else {
        let before = string_items(items.drop_last());
        match items.last() {
            Doc::Str(s) => before.push(s),
            _ => before,
        }
    }
}

/// What the tool's first report says: its session, and its skills where it
/// names any.
pub open spec fn init_events(agent: AgentId, d: Doc) -> Seq<Happening> {
    (match doc_str(member(d, "session_id"@)) {
        Some(sid) => seq![Happening::SessionReady { agent, native_session_id: sid }],
        None => Seq::empty(),
    }) + (if string_items(doc_items(member(d, "skills"@))).len() == 0 {
        Seq::empty()
    } else {
        seq![
            Happening::Skills { agent, skills: string_items(doc_items(member(d, "skills"@))) },
        ]
    })
}

/// Whether a block of a message is of a kind.
pub open spec fn block_is(block: Doc, kind: Seq<char>) -> bool {
    doc_str(member(block, "type"@)) == Some(kind)
}

/// The text of a block, where it has any.
pub open spec fn block_text(block: Doc) -> Seq<char> {
    if block_is(block, "text"@) {
        match doc_str(member(block, "text"@)) {
            Some(t) => t,
            None => Seq::empty(),
        }
    } else {
        Seq::empty()
    }
}

/// The text of a message.
pub open spec fn blocks_text(blocks: Seq<Doc>) -> Seq<char>
    decreases blocks.len(),
{
    if blocks.len() == 0 {
        Seq::empty()
    } else {
        blocks_text(blocks.drop_last()) + block_text(blocks.last())
    }
}

/// What a block that uses a tool reports.
pub open spec fn tool_call(agent: AgentId, turn: TurnId, block: Doc) -> Happening {
    Happening::ToolCall {
        agent,
        turn,
        name: (match doc_str(member(block, "name"@)) {
            Some(n) => n,
            None => Seq::empty(),
        }),
        input: (match member(block, "input"@) {
            Some(d) => d,
            None => Doc::Null,
        }),
    }
}

/// The uses of tools in a message.
pub open spec fn tool_calls(agent: AgentId, turn: TurnId, blocks: Seq<Doc>) -> Seq<Happening>
    decreases blocks.len(),
{
    if blocks.len() == 0 {
        Seq::empty()
    } else {
        let before = tool_calls(agent, turn, blocks.drop_last());
        if block_is(blocks.last(), "tool_use"@) {
            before.push(tool_call(agent, turn, blocks.last()))
        } else {
            before
        }
    }
}

/// What a message reports: the uses of tools, and its text where it has any.
pub open spec fn message_events(agent: AgentId, turn: TurnId, blocks: Seq<Doc>) -> Seq<Happening> {
    tool_calls(agent, turn, blocks) + (if blocks_text(blocks).len() == 0 {
        Seq::empty()
    } else {
        seq![Happening::MessageFinal { agent, turn, text: blocks_text(blocks) }]
    })
}

/// Whether a report begins a turn.
pub open spec fn begins_turn(d: Doc) -> bool {
    doc_str(member(d, "type"@)) == Some("stream_event"@) && doc_str(
        member2(d, "event"@, "type"@),
    ) == Some("message_start"@)
}

/// The text under two names, one within the other, of a document.
pub open spec fn delta_text(event: Option<Doc>) -> Option<Seq<char>> {
    match event {
        Some(e) => doc_str(member2(e, "delta"@, "text"@)),
        None => None,
    }
}

/// What a report says that the session cost so far, as the double that it is.
pub open spec fn cost_of(d: Doc) -> Option<Number> {
    match doc_num(member(d, "total_cost_usd"@)) {
        Some(n) => Some(as_double(n)),
        None => None,
    }
}

/// What a report of the tool means during a turn.
pub open spec fn claude_events(agent: AgentId, turn: TurnId, d: Doc) -> Seq<Happening> {
    let kind = doc_str(member(d, "type"@));
    if kind == Some("system"@) {
        if doc_str(member(d, "subtype"@)) == Some("init"@) {
            init_events(agent, d)
        } else {
            Seq::empty()
        }
    } else if kind == Some("stream_event"@) {
        if begins_turn(d) {
            seq![Happening::TurnStarted { agent, turn: turn_after(turn) }]
        } else if doc_str(member2(d, "event"@, "type"@)) == Some("content_block_delta"@) {
            match delta_text(member(d, "event"@)) {
                Some(t) => seq![Happening::TokenDelta { agent, turn, text: t }],
                None => Seq::empty(),
            }
        } else {
            Seq::empty()
        }
    } else if kind == Some("assistant"@) {
        message_events(agent, turn, doc_items(member2(d, "message"@, "content"@)))
    } else if kind == Some("result"@) {
        seq![
            Happening::TurnComplete {
                agent,
                turn,
                cost_usd: cost_of(d),
                token_usage: None,
            },
        ]
    } else {
        Seq::empty()
    }
}

fn string_list(j: Option<&Json>) -> (r: Vec<String>)
    ensures
        texts(r@) == string_items(doc_items(opt_doc(j))),
{
    let mut out: Vec<String> = Vec::new();
    proof {
        assert(texts(out@) =~= Seq::empty());
    }
    if let Some(a) = j {
        let ghost all = doc_items(Some(a@));
        let n = a.items();
        let mut i: usize = 0;
        while i < n
            invariant
                i <= n,
                n == all.len(),
                all == doc_items(Some(a@)),
                texts(out@) == string_items(all.take(i as int)),
            decreases n - i,
        {
            proof {
                assert(all.take(i + 1).drop_last() =~= all.take(i as int));
                assert(all.take(i + 1).last() == all[i as int]);
            }
            if let Some(s) = a.item(i).as_str() {
                let next = s.to_owned();
                proof {
                    crate::text::lemma_texts_push(out@, next);
                }
                out.push(next);
            }
            i = i + 1;
        }
        proof {
            assert(all.take(i as int) =~= all);
        }
    }
    out
}

fn is_kind(j: &Json, kind: &str) -> (r: bool)
    ensures
        r == block_is(j@, kind@),
{
    match str_at(j, "type") {
        Some(k) => same(k, kind),
        None => false,
    }
}

fn call_of(agent: AgentId, turn: TurnId, block: &Json) -> (r: AgentEvent)
    ensures
        r@ == tool_call(agent, turn, block@),
{
    let name = match str_at(block, "name") {
        Some(n) => n.to_owned(),
        None => String::new(),
    };
    let input = match block.get("input") {
        Some(d) => copy(d),
        None => null(),
    };
    proof {
        assert(name@ =~= tool_call(agent, turn, block@)->ToolCall_name);
    }
    AgentEvent::ToolCall { agent, turn, name, input }
}

fn read_message(agent: AgentId, turn: TurnId, content: Option<&Json>) -> (r: Vec<AgentEvent>)
    ensures
        happenings(r@) == message_events(agent, turn, doc_items(opt_doc(content))),
{
    let mut out: Vec<AgentEvent> = Vec::new();
    let mut said = String::new();
    proof {
        assert(happenings(out@) =~= Seq::empty());
    }
    if let Some(a) = content {
        let ghost all = doc_items(Some(a@));
        let n = a.items();
        let mut i: usize = 0;
        while i < n
            invariant
                i <= n,
                n == all.len(),
                all == doc_items(Some(a@)),
                said@ == blocks_text(all.take(i as int)),
                happenings(out@) == tool_calls(agent, turn, all.take(i as int)),
            decreases n - i,
        {
            let block = a.item(i);
            proof {
                assert(all.take(i + 1).drop_last() =~= all.take(i as int));
                assert(all.take(i + 1).last() == block@);
            }
            let mut piece = String::new();
            if is_kind(block, "text") {
                if let Some(t) = str_at(block, "text") {
                    piece = t.to_owned();
                }
            }
            proof {
                assert(piece@ =~= block_text(block@));
            }
            said.append(piece.as_str());
            if is_kind(block, "tool_use") {
                let call = call_of(agent, turn, block);
                proof {
                    lemma_happenings_push(out@, call);
                }
                out.push(call);
            }
            i = i + 1;
        }
        proof {
            assert(all.take(i as int) =~= all);
        }
    }
    let ghost calls = happenings(out@);
    let ghost blocks = doc_items(opt_doc(content));
    proof {
        assert(calls == tool_calls(agent, turn, blocks));
        assert(said@ == blocks_text(blocks));
        assert(calls + Seq::<Happening>::empty() =~= calls);
    }
    if said.as_str().unicode_len() > 0 {
        let m = AgentEvent::MessageFinal { agent, turn, text: said };
        proof {
            lemma_happenings_push(out@, m);
            assert(calls.push(m@) =~= calls + seq![m@]);
        }
        out.push(m);
    }
    out
}

fn read_init(agent: AgentId, v: &Json) -> (r: Vec<AgentEvent>)
    ensures
        happenings(r@) == init_events(agent, v@),
{
    let mut out: Vec<AgentEvent> = Vec::new();
    if let Some(sid) = str_at(v, "session_id") {
        out.push(AgentEvent::SessionReady { agent, native_session_id: sid.to_owned() });
    }
    let skills = string_list(v.get("skills"));
    proof {
        assert(texts(skills@).len() == skills@.len());
    }
    if skills.len() > 0 {
        out.push(AgentEvent::Skills { agent, skills });
    }
    proof {
        assert(happenings(out@) =~= init_events(agent, v@));
    }
    out
}

impl ClaudeReader {
    pub fn new(agent: AgentId) -> (r: Self)
        ensures
            r.agent == agent,
            r.turn == 0,
    {
        ClaudeReader { agent, turn: 0 }
    }

    /// Takes in a line that the tool wrote, and says what it means: nothing where
    /// it is blank or holds no document.
    pub fn read_line(&mut self, line: &str) -> (r: Vec<AgentEvent>)
        ensures
            final(self).agent == old(self).agent,
            match line_doc(line@) {
                Some(d) => final(self).turn == (if begins_turn(d) {
                    turn_after(old(self).turn)
                } else {
                    old(self).turn
                }) && happenings(r@) == claude_events(old(self).agent, old(self).turn, d),
                None => final(self).turn == old(self).turn && r@.len() == 0,
            },
    {
        match read_json_line(line) {
            Some(v) => self.read(&v),
            None => Vec::new(),
        }
    }

    /// Takes in a report of the tool, and says what it means.
    pub fn read(&mut self, v: &Json) -> (r: Vec<AgentEvent>)
        ensures
            final(self).agent == old(self).agent,
            final(self).turn == (if begins_turn(v@) {
                turn_after(old(self).turn)
            } else {
                old(self).turn
            }),
            happenings(r@) == claude_events(old(self).agent, old(self).turn, v@),
    {
        let agent = self.agent;
        let turn = self.turn;
        let mut out: Vec<AgentEvent> = Vec::new();
        proof {
            assert(happenings(out@) =~= Seq::empty());
        }
        let kind = match str_at(v, "type") {
            Some(k) => k,
            None => {
                return out;
            },
        };
        proof {
            reveal_strlit("system");
            reveal_strlit("stream_event");
            assert("system"@.len() != "stream_event"@.len());
        }
        if same(kind, "system") {
            if let Some(sub) = str_at(v, "subtype") {
                if same(sub, "init") {
                    return read_init(agent, v);
                }
            }
            return out;
        }
        if same(kind, "stream_event") {
            let event = match v.get("event") {
                Some(e) => e,
                None => {
                    return out;
                },
            };
            if let Some(k) = str_at(event, "type") {
                if same(k, "message_start") {
                    self.turn = next_turn_id(self.turn);
                    out.push(AgentEvent::TurnStarted { agent, turn: self.turn });
                    proof {
                        assert(happenings(out@) =~= claude_events(agent, turn, v@));
                    }
                    return out;
                }
                if same(k, "content_block_delta") {
                    if let Some(d) = event.get2("delta", "text") {
                        if let Some(t) = d.as_str() {
                            out.push(AgentEvent::TokenDelta { agent, turn, text: t.to_owned() });
                        }
                    }
                    proof {
                        assert(happenings(out@) =~= claude_events(agent, turn, v@));
                    }
                    return out;
                }
            }
            return out;
        }
        if same(kind, "assistant") {
            return read_message(agent, turn, v.get2("message", "content"));
        }
        if same(kind, "result") {
            let cost = match v.get("total_cost_usd") {
                Some(n) => match n.as_number() {
                    Some(cost) => Some(to_double(cost)),
                    None => None,
                },
                None => None,
            };
            out.push(
                AgentEvent::TurnComplete { agent, turn, cost_usd: cost, token_usage: None },
            );
            proof {
                assert(happenings(out@) =~= claude_events(agent, turn, v@));
            }
        }
        out
    }
}

} // verus!
