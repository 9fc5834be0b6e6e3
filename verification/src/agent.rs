//! The agent abstraction: what an adapter can do, what it reports and what it
//! is told.
use vstd::prelude::*;
use crate::claude::ClaudeAdapter;
use crate::codex::CodexAdapter;
use crate::conductor::AgentId;
use crate::error::TalesError;
use crate::generic::{generic_spec, GenericAdapter, GenericView};
use crate::json::{
    docs, jbool, jnum, jopt_str, jstr, jtexts, lemma_docs_push, list, null, num, opt_text, text,
    text_list, truth, Doc, Fields, Json, Number,
};
use crate::opencode::OpenCodeAdapter;
use crate::path::{
    extension, extension_of, file_name, file_name_of, is_component, is_rooted, join, joined, rooted,
};
use crate::registry::{
    known_rows, known_tools, row_of, rows, tool_info, AdapterKind, ToolInfo, ToolRow,
};
use crate::scan::{split_at_char, split_char};
use crate::text::{
    ascii_lower, ascii_only, join_texts, lemma_texts_push, lower_text, opt_str, same, texts,
    to_lower,
};
use crate::usage::TokenUsage;

verus! {

/// Counts an agent's turns.
pub type TurnId = u64;

/// What an adapter can and cannot do.
#[derive(Clone, Copy, Debug)]
pub struct AgentCaps {
    /// Takes a message while a turn is under way.
    pub midturn_injection: bool,
    /// Can be held to a schema in its output.
    pub structured_output: bool,
    /// Can go on with an earlier session.
    pub resumable: bool,
    /// Can attach MCP servers.
    pub mcp: bool,
}

/// What an agent reports.
#[derive(Debug)]
pub enum AgentEvent {
    /// The tool is up; the id is its own name for the session.
    SessionReady { agent: AgentId, native_session_id: String },
    /// The commands that the tool offers.
    Skills { agent: AgentId, skills: Vec<String> },
    /// A turn began.
    TurnStarted { agent: AgentId, turn: TurnId },
    /// A piece of the reply.
    TokenDelta { agent: AgentId, turn: TurnId, text: String },
    /// The whole reply.
    MessageFinal { agent: AgentId, turn: TurnId, text: String },
    /// The agent used a tool.
    ToolCall { agent: AgentId, turn: TurnId, name: String, input: Json },
    /// The turn is over. The cost is what the session cost so far, the usage
    /// what this turn used, where the tool tells.
    TurnComplete {
        agent: AgentId,
        turn: TurnId,
        cost_usd: Option<Number>,
        token_usage: Option<TokenUsage>,
    },
    /// The agent failed.
    Error { agent: AgentId, message: String, fatal: bool },
    /// The process ended.
    Exited { agent: AgentId, code: Option<i32> },
}

/// What an agent reports, as a value.
pub enum Happening {
    SessionReady { agent: AgentId, native_session_id: Seq<char> },
    Skills { agent: AgentId, skills: Seq<Seq<char>> },
    TurnStarted { agent: AgentId, turn: TurnId },
    TokenDelta { agent: AgentId, turn: TurnId, text: Seq<char> },
    MessageFinal { agent: AgentId, turn: TurnId, text: Seq<char> },
    ToolCall { agent: AgentId, turn: TurnId, name: Seq<char>, input: Doc },
    TurnComplete {
        agent: AgentId,
        turn: TurnId,
        cost_usd: Option<Number>,
        token_usage: Option<TokenUsage>,
    },
    Error { agent: AgentId, message: Seq<char>, fatal: bool },
    Exited { agent: AgentId, code: Option<i32> },
}

impl View for AgentEvent {
    type V = Happening;

    open spec fn view(&self) -> Happening {
        match *self {
            AgentEvent::SessionReady { agent, native_session_id } => Happening::SessionReady {
                agent,
                native_session_id: native_session_id@,
            },
            AgentEvent::Skills { agent, skills } => Happening::Skills {
                agent,
                skills: texts(skills@),
            },
            AgentEvent::TurnStarted { agent, turn } => Happening::TurnStarted { agent, turn },
            AgentEvent::TokenDelta { agent, turn, text } => Happening::TokenDelta {
                agent,
                turn,
                text: text@,
            },
            AgentEvent::MessageFinal { agent, turn, text } => Happening::MessageFinal {
                agent,
                turn,
                text: text@,
            },
            AgentEvent::ToolCall { agent, turn, name, input } => Happening::ToolCall {
                agent,
                turn,
                name: name@,
                input: input@,
            },
            AgentEvent::TurnComplete { agent, turn, cost_usd, token_usage } =>
                Happening::TurnComplete { agent, turn, cost_usd, token_usage },
            AgentEvent::Error { agent, message, fatal } => Happening::Error {
                agent,
                message: message@,
                fatal,
            },
            AgentEvent::Exited { agent, code } => Happening::Exited { agent, code },
        }
    }
}

/// A list of reports as values.
pub open spec fn happenings(v: Seq<AgentEvent>) -> Seq<Happening> {
    Seq::new(v.len(), |i: int| v[i]@)
}

pub proof fn lemma_happenings_push(v: Seq<AgentEvent>, e: AgentEvent)
    ensures
        happenings(v.push(e)) == happenings(v).push(e@),
{
    assert(happenings(v.push(e)) =~= happenings(v).push(e@));
}

/// The agent that a report is about.
pub open spec fn agent_of(h: Happening) -> AgentId {
    match h {
        Happening::SessionReady { agent, .. } => agent,
        Happening::Skills { agent, .. } => agent,
        Happening::TurnStarted { agent, .. } => agent,
        Happening::TokenDelta { agent, .. } => agent,
        Happening::MessageFinal { agent, .. } => agent,
        Happening::ToolCall { agent, .. } => agent,
        Happening::TurnComplete { agent, .. } => agent,
        Happening::Error { agent, .. } => agent,
        Happening::Exited { agent, .. } => agent,
    }
}

/// The agent that a report is about.
pub fn event_agent(event: &AgentEvent) -> (r: AgentId)
    ensures
        r == agent_of(event@),
{
    match event {
        AgentEvent::SessionReady { agent, .. } => *agent,
        AgentEvent::Skills { agent, .. } => *agent,
        AgentEvent::TurnStarted { agent, .. } => *agent,
        AgentEvent::TokenDelta { agent, .. } => *agent,
        AgentEvent::MessageFinal { agent, .. } => *agent,
        AgentEvent::ToolCall { agent, .. } => *agent,
        AgentEvent::TurnComplete { agent, .. } => *agent,
        AgentEvent::Error { agent, .. } => *agent,
        AgentEvent::Exited { agent, .. } => *agent,
    }
}

/// A picture or PDF file for an agent to see.
#[derive(Debug)]
pub struct Attachment {
    pub path: String,
}

impl View for Attachment {
    type V = Seq<char>;

    open spec fn view(&self) -> Seq<char> {
        self.path@
    }
}

impl Clone for Attachment {
    fn clone(&self) -> (r: Self)
        ensures
            r@ == self@,
    {
        Attachment { path: self.path.clone() }
    }
}

/// The paths of a list of attachments.
pub open spec fn paths(v: Seq<Attachment>) -> Seq<Seq<char>> {
    Seq::new(v.len(), |i: int| v[i]@)
}

/// The extension of a file in lower case, or nothing.
pub open spec fn ext_of(path: Seq<char>) -> Seq<char> {
    lower_text(
        match extension_of(path) {
            Some(e) => e,
            None => ""@,
        },
    )
}

/// Whether an extension is that of a picture.
pub open spec fn names_image(ext: Seq<char>) -> bool {
    ext == "png"@ || ext == "jpg"@ || ext == "jpeg"@ || ext == "gif"@ || ext == "webp"@
}

/// Whether a file is a picture that agents can be shown.
pub open spec fn shows_image(path: Seq<char>) -> bool {
    names_image(ext_of(path))
}

/// The name under which an attached file is shown.
pub open spec fn shown_name(path: Seq<char>) -> Seq<char> {
    match file_name_of(path) {
        Some(name) => name,
        None => "file"@,
    }
}

impl Attachment {
    pub fn new(path: String) -> (r: Self)
        ensures
            r.path == path,
    {
        Attachment { path }
    }

    /// The file's extension in lower case, without the dot.
    pub fn ext(&self) -> (r: String)
        ensures
            r@ == ext_of(self@),
            extension_of(self@) matches Some(e) && ascii_only(e) ==> r@ == ascii_lower(
                extension_of(self@)->0,
            ),
            extension_of(self@) is None ==> r@.len() == 0,
    {
        proof {
            reveal_strlit("");
        }
        match extension(self.path.as_str()) {
            Some(e) => to_lower(e.as_str()),
            None => to_lower(""),
        }
    }

    pub fn is_image(&self) -> (r: bool)
        ensures
            r == shows_image(self@),
    {
        let e = self.ext();
        is_image_ext(e.as_str())
    }

    pub fn is_pdf(&self) -> (r: bool)
        ensures
            r == (ext_of(self@) == "pdf"@),
    {
        let e = self.ext();
        same(e.as_str(), "pdf")
    }

    /// The file's name, to be shown.
    pub fn name(&self) -> (r: String)
        ensures
            r@ == shown_name(self@),
    {
        match file_name(self.path.as_str()) {
            Some(n) => n,
            None => "file".to_owned(),
        }
    }
}

/// Whether an extension in lower case is that of a picture.
pub fn is_image_ext(ext: &str) -> (r: bool)
    ensures
        r == names_image(ext@),
{
    same(ext, "png") || same(ext, "jpg") || same(ext, "jpeg") || same(ext, "gif") || same(
        ext,
        "webp",
    )
}

/// What an agent is told.
#[derive(Debug)]
pub enum AgentCommand {
    /// Begin a turn.
    StartTurn { prompt: String, attachments: Vec<Attachment> },
    /// Take a message.
    InjectMessage { text: String },
    /// End the session.
    Shutdown,
}

/// What an adapter needs to launch a session.
#[derive(Debug)]
pub struct SpawnCtx {
    pub agent: AgentId,
    pub label: String,
    /// The directory in which the agent works.
    pub cwd: String,
    /// The model, or the tool's own choice.
    pub model: Option<String>,
    /// The effort level, or the tool's own choice.
    pub effort: Option<String>,
    /// What the agent may do without asking, for tools that have such a mode.
    pub permission_mode: String,
    /// What the agent may touch, for tools that have such a policy.
    pub sandbox: String,
    /// The only tools that the agent may use, where that is limited.
    pub allowed_tools: Option<Vec<String>>,
}

// ---- Adapters ----------------------------------------------------------------

/// What an adapter of a kind can do.
pub open spec fn kind_caps(kind: AdapterKind) -> AgentCaps {
    match kind {
        AdapterKind::Claude => AgentCaps {
            midturn_injection: true,
            structured_output: true,
            resumable: true,
            mcp: true,
        },
        AdapterKind::Codex => AgentCaps {
            midturn_injection: false,
            structured_output: true,
            resumable: true,
            mcp: true,
        },
        AdapterKind::OpenCode => AgentCaps {
            midturn_injection: false,
            structured_output: false,
            resumable: true,
            mcp: true,
        },
        AdapterKind::Generic => AgentCaps {
            midturn_injection: false,
            structured_output: false,
            resumable: false,
            mcp: false,
        },
    }
}

/// The adapter that drives a tool.
pub enum Adapter {
    Claude(ClaudeAdapter),
    Codex(CodexAdapter),
    OpenCode(OpenCodeAdapter),
    Generic(GenericAdapter),
}

/// An adapter as a value: the command that it runs, with the rest of the
/// invocation where the adapter has one of its own.
pub enum AdapterView {
    Claude(Seq<char>),
    Codex(Seq<char>),
    OpenCode(Seq<char>),
    Generic(GenericView),
}

impl View for Adapter {
    type V = AdapterView;

    open spec fn view(&self) -> AdapterView {
        match *self {
            Adapter::Claude(a) => AdapterView::Claude(a@),
            Adapter::Codex(a) => AdapterView::Codex(a@),
            Adapter::OpenCode(a) => AdapterView::OpenCode(a@),
            Adapter::Generic(a) => AdapterView::Generic(a@),
        }
    }
}

/// The kind of an adapter.
pub open spec fn kind_of(a: AdapterView) -> AdapterKind {
    match a {
        AdapterView::Claude(_) => AdapterKind::Claude,
        AdapterView::Codex(_) => AdapterKind::Codex,
        AdapterView::OpenCode(_) => AdapterKind::OpenCode,
        AdapterView::Generic(_) => AdapterKind::Generic,
    }
}

impl Adapter {
    /// What the adapter can do.
    pub fn caps(&self) -> (r: AgentCaps)
        ensures
            r == kind_caps(kind_of(self@)),
    {
        match self {
            Adapter::Claude(a) => a.caps(),
            Adapter::Codex(a) => a.caps(),
            Adapter::OpenCode(a) => a.caps(),
            Adapter::Generic(a) => a.caps(),
        }
    }
}

/// The keys of a list of rows.
pub open spec fn keys_of(all: Seq<ToolRow>) -> Seq<Seq<char>> {
    Seq::new(all.len(), |i: int| all[i].key)
}

/// What is said of a key that no tool has.
pub open spec fn unknown_agent(key: Seq<char>) -> Seq<char> {
    "unknown agent '"@ + key + "' (known: "@ + crate::text::join(keys_of(known_rows()), " | "@)
        + ")"@
}

/// Says that no tool has a key.
pub fn unknown_agent_text(key: &str) -> (r: String)
    ensures
        r@ == unknown_agent(key@),
{
    let tools = known_tools();
    let mut keys: Vec<String> = Vec::new();
    let mut i: usize = 0;
    while i < tools.len()
        invariant
            i <= tools@.len(),
            rows(tools@) == known_rows(),
            texts(keys@) == Seq::new(i as nat, |k: int| known_rows()[k].key),
        decreases tools@.len() - i,
    {
        let next = tools[i].key.to_owned();
        proof {
            lemma_texts_push(keys@, next);
            assert(rows(tools@)[i as int] == tools@[i as int]@);
            assert(Seq::new((i + 1) as nat, |k: int| known_rows()[k].key) =~= Seq::new(
                i as nat,
                |k: int| known_rows()[k].key,
            ).push(next@));
        }
        keys.push(next);
        i = i + 1;
    }
    proof {
        assert(rows(tools@).len() == tools@.len());
        assert(texts(keys@) =~= keys_of(known_rows()));
    }
    let known = join_texts(&keys, " | ");
    let mut out = "unknown agent '".to_owned();
    out.append(key);
    out.append("' (known: ");
    out.append(known.as_str());
    out.append(")");
    out
}

/// The adapter that a row calls for.
pub open spec fn adapter_of(row: ToolRow) -> AdapterView {
    match row.kind {
        AdapterKind::Claude => AdapterView::Claude("anthropic"@),
        AdapterKind::Codex => AdapterView::Codex("codex"@),
        AdapterKind::OpenCode => AdapterView::OpenCode("opencode"@),
        AdapterKind::Generic => AdapterView::Generic(generic_spec(row)),
    }
}

/// Makes the adapter for a known tool's key.
pub fn make_adapter(name: &str) -> (r: Result<Adapter, TalesError>)
    ensures
        match row_of(name@) {
            Some(row) => r matches Ok(a) && a@ == adapter_of(row),
            None => r matches Err(TalesError::Other(m)) && m@ == unknown_agent(name@),
        },
{
    match tool_info(name) {
        Some(info) => Ok(
            match info.kind {
                AdapterKind::Claude => Adapter::Claude(ClaudeAdapter::new()),
                AdapterKind::Codex => Adapter::Codex(CodexAdapter::new()),
                AdapterKind::OpenCode => Adapter::OpenCode(OpenCodeAdapter::new()),
                AdapterKind::Generic => Adapter::Generic(GenericAdapter::from_info(&info)),
            },
        ),
        None => Err(TalesError::Other(unknown_agent_text(name))),
    }
}

/// What the adapter of a tool can do, where the tool is known.
pub open spec fn caps_of(key: Seq<char>) -> Option<AgentCaps> {
    match row_of(key) {
        Some(row) => Some(kind_caps(row.kind)),
        None => None,
    }
}

/// What the adapter of a tool can do, where the tool is known.
pub fn caps_for_tool(key: &str) -> (r: Option<AgentCaps>)
    ensures
        r == caps_of(key@),
{
    match make_adapter(key) {
        Ok(a) => Some(a.caps()),
        Err(_) => None,
    }
}

// ---- Where a command is found --------------------------------------------------

/// A command that was found, and where.
#[derive(Debug)]
pub struct FoundBin {
    pub bin: String,
    pub path: String,
}

/// Where a command was found, if it was.
pub open spec fn found_path(found: Seq<FoundBin>, bin: Seq<char>) -> Option<Seq<char>>
    decreases found.len(),
{
    if found.len() == 0 {
        None
    } else if found[0].bin@ == bin {
        Some(found[0].path@)
    } else {
        found_path(found.skip(1), bin)
    }
}

/// Where a command was found, if it was.
pub fn bin_path<'a>(bin: &str, found: &'a Vec<FoundBin>) -> (r: Option<&'a str>)
    ensures
        opt_str(r) == found_path(found@, bin@),
{
    let mut i: usize = 0;
    proof {
        assert(found@.skip(0) =~= found@);
    }
    while i < found.len()
        invariant
            i <= found@.len(),
            found_path(found@, bin@) == found_path(found@.skip(i as int), bin@),
        decreases found@.len() - i,
    {
        proof {
            assert(found@.skip(i as int).skip(1) =~= found@.skip(i + 1));
        }
        if same(found[i].bin.as_str(), bin) {
            return Some(found[i].path.as_str());
        }
        i = i + 1;
    }
    None
}

/// Whether a command was found.
pub fn bin_on_path(bin: &str, found: &Vec<FoundBin>) -> (r: bool)
    ensures
        r == found_path(found@, bin@) is Some,
{
    bin_path(bin, found).is_some()
}

/// How many components a path has: the root, the dot that a path may start
/// with, and each name.
pub open spec fn component_count(path: Seq<char>) -> nat {
    let pieces = split_at_char(path, '/');
    (if is_rooted(path) || pieces[0] == "."@ {
        1nat
    } else {
        0nat
    }) + pieces.filter(|p: Seq<char>| is_component(p)).len()
}

/// Whether a command is given by its path and not by its name alone.
pub open spec fn is_direct(bin: Seq<char>) -> bool {
    component_count(bin) > 1 || is_rooted(bin)
}

/// Where a command may stand: at its own path where it has one, else in any of
/// the directories, in their order.
pub open spec fn candidates(bin: Seq<char>, dirs: Seq<Seq<char>>) -> Seq<Seq<char>> {
    if is_direct(bin) {
        seq![bin]
    } else {
        Seq::new(dirs.len(), |i: int| joined(dirs[i], bin))
    }
}

fn counted_components(path: &str) -> (r: usize)
    ensures
        r == component_count(path@) || (r == usize::MAX && component_count(path@) > usize::MAX),
{
    let pieces = split_char(path, '/');
    proof {
        crate::scan::lemma_split_nonempty(path@, '/');
        assert(texts(pieces@)[0] == pieces@[0]@);
    }
    let ghost keep = |p: Seq<char>| is_component(p);
    let mut n: usize = 0;
    let mut i: usize = 0;
    proof {
        assert(texts(pieces@).take(0).filter(keep) =~= Seq::empty());
    }
    while i < pieces.len()
        invariant
            i <= pieces@.len(),
            n <= i,
            keep == (|p: Seq<char>| is_component(p)),
            n == texts(pieces@).take(i as int).filter(keep).len(),
        decreases pieces@.len() - i,
    {
        let piece = pieces[i].as_str();
        proof {
            let all = texts(pieces@);
            all.take(i as int).lemma_filter_push(piece@, keep);
            assert(all.take(i + 1) =~= all.take(i as int).push(piece@));
        }
        if piece.unicode_len() > 0 && !same(piece, ".") {
            n = n + 1;
        }
        i = i + 1;
    }
    proof {
        assert(texts(pieces@).take(i as int) =~= texts(pieces@));
    }
    if rooted(path) || same(pieces[0].as_str(), ".") {
        if n < usize::MAX {
            n = n + 1;
        }
    }
    n
}

/// Lists the places where a command may stand.
pub fn bin_candidates(bin: &str, dirs: &Vec<String>) -> (r: Vec<String>)
    ensures
        texts(r@) == candidates(bin@, texts(dirs@)),
{
    let n = counted_components(bin);
    if n > 1 || rooted(bin) {
        let r = vec![bin.to_owned()];
        proof {
            assert(texts(r@) =~= seq![bin@]);
        }
        return r;
    }
    let mut r: Vec<String> = Vec::new();
    let mut i: usize = 0;
    while i < dirs.len()
        invariant
            i <= dirs@.len(),
            texts(r@) == Seq::new(i as nat, |k: int| joined(texts(dirs@)[k], bin@)),
        decreases dirs@.len() - i,
    {
        let next = join(dirs[i].as_str(), bin);
        proof {
            lemma_texts_push(r@, next);
            assert(Seq::new((i + 1) as nat, |k: int| joined(texts(dirs@)[k], bin@)) =~= Seq::new(
                i as nat,
                |k: int| joined(texts(dirs@)[k], bin@),
            ).push(next@));
        }
        r.push(next);
        i = i + 1;
    }
    proof {
        assert(texts(r@) =~= candidates(bin@, texts(dirs@)));
    }
    r
}

// ---- Status --------------------------------------------------------------------

/// The name of an adapter kind.
pub open spec fn kind_label(kind: AdapterKind) -> Seq<char> {
    match kind {
        AdapterKind::Claude => "anthropic-stream"@,
        AdapterKind::Codex => "codex-exec"@,
        AdapterKind::OpenCode => "opencode-run"@,
        AdapterKind::Generic => "generic-cli"@,
    }
}

/// The name of an adapter kind.
pub fn adapter_kind_label(kind: AdapterKind) -> (r: &'static str)
    ensures
        r@ == kind_label(kind),
{
    match kind {
        AdapterKind::Claude => "anthropic-stream",
        AdapterKind::Codex => "codex-exec",
        AdapterKind::OpenCode => "opencode-run",
        AdapterKind::Generic => "generic-cli",
    }
}

/// What an adapter can do, as a document.
pub open spec fn caps_doc(caps: AgentCaps) -> Doc {
    Doc::Obj(
        seq![
            ("resumable"@, jbool(caps.resumable)),
            ("resume"@, jbool(caps.resumable)),
            ("midturn_injection"@, jbool(caps.midturn_injection)),
            ("midturn"@, jbool(caps.midturn_injection)),
            ("structured_output"@, jbool(caps.structured_output)),
            ("structured"@, jbool(caps.structured_output)),
            ("mcp"@, jbool(caps.mcp)),
        ],
    )
}

/// What an adapter can do, as a document.
pub fn agent_caps_json(caps: AgentCaps) -> (r: Json)
    ensures
        r@ == caps_doc(caps),
{
    let mut f = Fields::new();
    f.put("resumable", truth(caps.resumable));
    f.put("resume", truth(caps.resumable));
    f.put("midturn_injection", truth(caps.midturn_injection));
    f.put("midturn", truth(caps.midturn_injection));
    f.put("structured_output", truth(caps.structured_output));
    f.put("structured", truth(caps.structured_output));
    f.put("mcp", truth(caps.mcp));
    proof {
        assert(f@ =~= caps_doc(caps)->Obj_0);
    }
    f.object()
}

/// The choices that a tool offers, as a document.
pub open spec fn capabilities_doc(row: ToolRow) -> Doc {
    Doc::Obj(
        seq![
            ("supports_resume"@, jbool(row.supports_resume)),
            ("supports_structured_output"@, jbool(row.supports_structured_output)),
            ("supports_model_override"@, jbool(row.supports_model_override)),
            ("supports_effort"@, jbool(row.supports_effort)),
            ("supports_sandbox"@, jbool(row.supports_sandbox)),
            ("supports_cwd"@, jbool(row.supports_cwd)),
            ("supports_headless"@, jbool(row.supports_headless)),
            ("startup_cost"@, jstr(row.startup_cost)),
            ("default_strength"@, jstr(row.default_strength)),
            ("default_price_tier"@, jstr(row.default_price_tier)),
        ],
    )
}

fn capabilities_json(info: &ToolInfo) -> (r: Json)
    ensures
        r@ == capabilities_doc(info@),
{
    let mut f = Fields::new();
    f.put("supports_resume", truth(info.supports_resume));
    f.put("supports_structured_output", truth(info.supports_structured_output));
    f.put("supports_model_override", truth(info.supports_model_override));
    f.put("supports_effort", truth(info.supports_effort));
    f.put("supports_sandbox", truth(info.supports_sandbox));
    f.put("supports_cwd", truth(info.supports_cwd));
    f.put("supports_headless", truth(info.supports_headless));
    f.put("startup_cost", text(info.startup_cost));
    f.put("default_strength", text(info.default_strength));
    f.put("default_price_tier", text(info.default_price_tier));
    proof {
        assert(f@ =~= capabilities_doc(info@)->Obj_0);
    }
    f.object()
}

/// What a tool with a key can do, as a document; null for an unknown key.
pub open spec fn caps_doc_of(key: Seq<char>) -> Doc {
    match caps_of(key) {
        Some(caps) => caps_doc(caps),
        None => Doc::Null,
    }
}

/// What a tool with a key can do, as a document; null for an unknown key.
pub fn tool_caps_json(key: &str) -> (r: Json)
    ensures
        r@ == caps_doc_of(key@),
{
    match caps_for_tool(key) {
        Some(caps) => agent_caps_json(caps),
        None => null(),
    }
}

/// A tool's row, where it was found and what it can do, as a document.
pub open spec fn status_doc(row: ToolRow, path: Option<Seq<char>>) -> Doc {
    Doc::Obj(
        seq![
            ("key"@, jstr(row.key)),
            ("known"@, jbool(true)),
            ("pretty"@, jstr(row.pretty)),
            ("kind"@, jstr(kind_label(row.kind))),
            ("bin"@, jstr(row.bin)),
            ("path"@, jopt_str(path)),
            ("bin_path"@, jopt_str(path)),
            ("installed"@, jbool(path is Some)),
            ("install"@, jstr(row.install)),
            ("models"@, jtexts(row.models)),
            ("suggested_models"@, jtexts(row.models)),
            ("efforts"@, jtexts(row.efforts)),
            ("supported_efforts"@, jtexts(row.efforts)),
            ("capabilities"@, capabilities_doc(row)),
            ("caps"@, caps_doc_of(row.key)),
        ],
    )
}

/// A tool's row, where it was found and what it can do, as a document.
pub fn tool_info_status_json(info: &ToolInfo, found: &Vec<FoundBin>) -> (r: Json)
    ensures
        r@ == status_doc(info@, found_path(found@, info.bin@)),
{
    let path = bin_path(info.bin, found);
    let mut f = Fields::new();
    f.put("key", text(info.key));
    f.put("known", truth(true));
    f.put("pretty", text(info.pretty));
    f.put("kind", text(adapter_kind_label(info.kind)));
    f.put("bin", text(info.bin));
    f.put("path", opt_text(path));
    f.put("bin_path", opt_text(path));
    f.put("installed", truth(path.is_some()));
    f.put("install", text(info.install));
    f.put("models", text_list(&info.models));
    f.put("suggested_models", text_list(&info.models));
    f.put("efforts", text_list(&info.efforts));
    f.put("supported_efforts", text_list(&info.efforts));
    f.put("capabilities", capabilities_json(info));
    f.put("caps", tool_caps_json(info.key));
    proof {
        assert(f@ =~= status_doc(info@, opt_str(path))->Obj_0);
    }
    f.object()
}

/// The status of every known tool, as a list of documents.
pub open spec fn tool_docs(found: Seq<FoundBin>) -> Seq<Doc> {
    Seq::new(
        known_rows().len(),
        |i: int| status_doc(known_rows()[i], found_path(found, known_rows()[i].bin)),
    )
}

/// The status of every known tool, as a document.
pub open spec fn tools_doc(found: Seq<FoundBin>) -> Doc {
    Doc::Obj(
        seq![
            ("kind"@, jstr("tales_tools"@)),
            ("schema_version"@, jnum(1)),
            ("tools"@, Doc::Arr(tool_docs(found))),
        ],
    )
}

/// The status of every known tool, as a document.
pub fn known_tools_status_json(found: &Vec<FoundBin>) -> (r: Json)
    ensures
        r@ == tools_doc(found@),
{
    let tools = known_tools();
    let ghost all = known_rows();
    let ghost one = |i: int| status_doc(all[i], found_path(found@, all[i].bin));
    let mut out: Vec<Json> = Vec::new();
    let mut i: usize = 0;
    proof {
        assert(rows(tools@).len() == tools@.len());
        assert(docs(out@) =~= Seq::new(0, one));
    }
    while i < tools.len()
        invariant
            i <= tools@.len(),
            rows(tools@) == all,
            one == (|i: int| status_doc(all[i], found_path(found@, all[i].bin))),
            docs(out@) == Seq::new(i as nat, one),
        decreases tools@.len() - i,
    {
        let next = tool_info_status_json(&tools[i], found);
        proof {
            lemma_docs_push(out@, next);
            assert(rows(tools@)[i as int] == tools@[i as int]@);
            assert(Seq::new((i + 1) as nat, one) =~= Seq::new(i as nat, one).push(next@));
        }
        out.push(next);
        i = i + 1;
    }
    let mut f = Fields::new();
    f.put("kind", text("tales_tools"));
    f.put("schema_version", num(1));
    f.put("tools", list(out));
    proof {
        assert(docs(out@) =~= tool_docs(found@));
        assert(f@ =~= tools_doc(found@)->Obj_0);
    }
    f.object()
}

} // verus!
