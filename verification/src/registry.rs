//! The tools that can be connected, and what is known of each.
use vstd::prelude::*;
use crate::text::{ascii_lower, same_ci, same_ignoring_case, texts};

verus! {

/// Which built-in adapter drives a tool.
#[derive(Clone, Copy, Debug, PartialEq, Eq, Structural)]
pub enum AdapterKind {
    /// The Anthropic command: one lasting process that talks both ways in JSON lines.
    Claude,
    /// Codex: one `codex exec --json` per turn.
    Codex,
    /// Open Code: one `opencode run` per turn, its session kept by directory.
    OpenCode,
    /// Any other command that prints its reply.
    Generic,
}

/// A tool that can be connected: how it is called, which adapter runs it and
/// the choices that it offers.
#[derive(Debug)]
pub struct ToolInfo {
    /// Key in lower case, used as the agent's label.
    pub key: &'static str,
    /// Name for people.
    pub pretty: &'static str,
    /// The command that must be on `PATH`.
    pub bin: &'static str,
    /// How to install it.
    pub install: &'static str,
    /// Which built-in adapter drives the tool.
    pub kind: AdapterKind,
    /// Models to suggest.
    pub models: Vec<String>,
    /// Effort levels that the tool understands.
    pub efforts: Vec<String>,
    pub supports_resume: bool,
    pub supports_structured_output: bool,
    pub supports_model_override: bool,
    pub supports_effort: bool,
    pub supports_sandbox: bool,
    pub supports_cwd: bool,
    pub supports_headless: bool,
    /// How much starting the tool costs.
    pub startup_cost: &'static str,
    /// How strong the tool is by default.
    pub default_strength: &'static str,
    /// How dear the tool is by default.
    pub default_price_tier: &'static str,
    /// Fixed arguments before the prompt; for the generic adapter.
    pub run_args: Vec<String>,
    /// The flag that chooses a model, if any; for the generic adapter.
    pub model_flag: &'static str,
    /// The flag before the prompt, if any; for the generic adapter.
    pub prompt_flag: &'static str,
}

/// A tool's row as a value.
pub struct ToolRow {
    pub key: Seq<char>,
    pub pretty: Seq<char>,
    pub bin: Seq<char>,
    pub install: Seq<char>,
    pub kind: AdapterKind,
    pub models: Seq<Seq<char>>,
    pub efforts: Seq<Seq<char>>,
    pub supports_resume: bool,
    pub supports_structured_output: bool,
    pub supports_model_override: bool,
    pub supports_effort: bool,
    pub supports_sandbox: bool,
    pub supports_cwd: bool,
    pub supports_headless: bool,
    pub startup_cost: Seq<char>,
    pub default_strength: Seq<char>,
    pub default_price_tier: Seq<char>,
    pub run_args: Seq<Seq<char>>,
    pub model_flag: Seq<char>,
    pub prompt_flag: Seq<char>,
}

impl View for ToolInfo {
    type V = ToolRow;

    open spec fn view(&self) -> ToolRow {
        ToolRow {
            key: self.key@,
            pretty: self.pretty@,
            bin: self.bin@,
            install: self.install@,
            kind: self.kind,
            models: texts(self.models@),
            efforts: texts(self.efforts@),
            supports_resume: self.supports_resume,
            supports_structured_output: self.supports_structured_output,
            supports_model_override: self.supports_model_override,
            supports_effort: self.supports_effort,
            supports_sandbox: self.supports_sandbox,
            supports_cwd: self.supports_cwd,
            supports_headless: self.supports_headless,
            startup_cost: self.startup_cost@,
            default_strength: self.default_strength@,
            default_price_tier: self.default_price_tier@,
            run_args: texts(self.run_args@),
            model_flag: self.model_flag@,
            prompt_flag: self.prompt_flag@,
        }
    }
}

pub open spec fn claude_row() -> ToolRow {
    ToolRow {
        key: "anthropic"@,
        pretty: "Anthropic"@,
        bin: "anthropic"@,
        install: "https://docs.anthropic.com"@,
        kind: AdapterKind::Claude,
        models: seq!["opus"@, "sonnet"@, "haiku"@],
        efforts: seq!["low"@, "medium"@, "high"@, "xhigh"@, "max"@],
        supports_resume: true,
        supports_structured_output: false,
        supports_model_override: true,
        supports_effort: true,
        supports_sandbox: false,
        supports_cwd: true,
        supports_headless: true,
        startup_cost: "medium"@,
        default_strength: "frontier"@,
        default_price_tier: "high"@,
        run_args: Seq::empty(),
        model_flag: ""@,
        prompt_flag: ""@,
    }
}

pub open spec fn codex_row() -> ToolRow {
    ToolRow {
        key: "codex"@,
        pretty: "Codex"@,
        bin: "codex"@,
        install: "npm i -g @openai/codex"@,
        kind: AdapterKind::Codex,
        models: seq!["gpt-5-codex"@, "gpt-5"@],
        efforts: seq!["low"@, "medium"@, "high"@],
        supports_resume: false,
        supports_structured_output: true,
        supports_model_override: true,
        supports_effort: true,
        supports_sandbox: true,
        supports_cwd: true,
        supports_headless: true,
        startup_cost: "low"@,
        default_strength: "frontier"@,
        default_price_tier: "medium"@,
        run_args: Seq::empty(),
        model_flag: ""@,
        prompt_flag: ""@,
    }
}

pub open spec fn opencode_row() -> ToolRow {
    ToolRow {
        key: "opencode"@,
        pretty: "Open Code"@,
        bin: "opencode"@,
        install: "npm i -g opencode-ai   (or: brew install sst/tap/opencode)"@,
        kind: AdapterKind::OpenCode,
        models: Seq::empty(),
        efforts: Seq::empty(),
        supports_resume: true,
        supports_structured_output: false,
        supports_model_override: true,
        supports_effort: false,
        supports_sandbox: false,
        supports_cwd: true,
        supports_headless: true,
        startup_cost: "low"@,
        default_strength: "general"@,
        default_price_tier: "medium"@,
        run_args: seq!["run"@],
        model_flag: "--model"@,
        prompt_flag: ""@,
    }
}

/// The row of a tool that the generic adapter runs: only a model can be
/// chosen, and nothing is kept from turn to turn.
pub open spec fn plain_row(
    key: Seq<char>,
    pretty: Seq<char>,
    install: Seq<char>,
    models: Seq<Seq<char>>,
    strength: Seq<char>,
    price: Seq<char>,
    prompt_flag: Seq<char>,
) -> ToolRow {
    ToolRow {
        key,
        pretty,
        bin: key,
        install,
        kind: AdapterKind::Generic,
        models,
        efforts: Seq::empty(),
        supports_resume: false,
        supports_structured_output: false,
        supports_model_override: true,
        supports_effort: false,
        supports_sandbox: false,
        supports_cwd: true,
        supports_headless: true,
        startup_cost: "low"@,
        default_strength: strength,
        default_price_tier: price,
        run_args: Seq::empty(),
        model_flag: "-m"@,
        prompt_flag,
    }
}

pub open spec fn gemini_row() -> ToolRow {
    plain_row(
        "gemini"@,
        "Gemini CLI"@,
        "npm i -g @google/gemini-cli"@,
        seq!["gemini-2.5-pro"@, "gemini-2.5-flash"@],
        "frontier"@,
        "medium"@,
        "-p"@,
    )
}

pub open spec fn glm_row() -> ToolRow {
    plain_row(
        "glm"@,
        "GLM"@,
        "see your GLM/Zhipu CLI vendor for install"@,
        Seq::empty(),
        "general"@,
        "low"@,
        ""@,
    )
}

pub open spec fn kimi_row() -> ToolRow {
    plain_row(
        "kimi"@,
        "Kimi"@,
        "see Moonshot Kimi CLI for install"@,
        Seq::empty(),
        "general"@,
        "low"@,
        ""@,
    )
}

/// Every known tool, in the order in which they are shown.
pub open spec fn known_rows() -> Seq<ToolRow> {
    seq![claude_row(), codex_row(), opencode_row(), gemini_row(), glm_row(), kimi_row()]
}

fn claude_tool() -> (r: ToolInfo)
    ensures
        r@ == claude_row(),
{
    let models = vec!["opus".to_owned(), "sonnet".to_owned(), "haiku".to_owned()];
    let efforts = vec![
        "low".to_owned(),
        "medium".to_owned(),
        "high".to_owned(),
        "xhigh".to_owned(),
        "max".to_owned(),
    ];
    let run_args: Vec<String> = Vec::new();
    proof {
        assert(texts(models@) =~= claude_row().models);
        assert(texts(efforts@) =~= claude_row().efforts);
        assert(texts(run_args@) =~= Seq::empty());
    }
    ToolInfo {
        key: "anthropic",
        pretty: "Anthropic",
        bin: "anthropic",
        install: "https://docs.anthropic.com",
        kind: AdapterKind::Claude,
        models,
        efforts,
        supports_resume: true,
        supports_structured_output: false,
        supports_model_override: true,
        supports_effort: true,
        supports_sandbox: false,
        supports_cwd: true,
        supports_headless: true,
        startup_cost: "medium",
        default_strength: "frontier",
        default_price_tier: "high",
        run_args,
        model_flag: "",
        prompt_flag: "",
    }
}

fn codex_tool() -> (r: ToolInfo)
    ensures
        r@ == codex_row(),
{
    let models = vec!["gpt-5-codex".to_owned(), "gpt-5".to_owned()];
    let efforts = vec!["low".to_owned(), "medium".to_owned(), "high".to_owned()];
    let run_args: Vec<String> = Vec::new();
    proof {
        assert(texts(models@) =~= codex_row().models);
        assert(texts(efforts@) =~= codex_row().efforts);
        assert(texts(run_args@) =~= Seq::empty());
    }
    ToolInfo {
        key: "codex",
        pretty: "Codex",
        bin: "codex",
        install: "npm i -g @openai/codex",
        kind: AdapterKind::Codex,
        models,
        efforts,
        supports_resume: false,
        supports_structured_output: true,
        supports_model_override: true,
        supports_effort: true,
        supports_sandbox: true,
        supports_cwd: true,
        supports_headless: true,
        startup_cost: "low",
        default_strength: "frontier",
        default_price_tier: "medium",
        run_args,
        model_flag: "",
        prompt_flag: "",
    }
}

fn opencode_tool() -> (r: ToolInfo)
    ensures
        r@ == opencode_row(),
{
    let models: Vec<String> = Vec::new();
    let efforts: Vec<String> = Vec::new();
    let run_args = vec!["run".to_owned()];
    proof {
        assert(texts(models@) =~= Seq::empty());
        assert(texts(efforts@) =~= Seq::empty());
        assert(texts(run_args@) =~= opencode_row().run_args);
    }
    ToolInfo {
        key: "opencode",
        pretty: "Open Code",
        bin: "opencode",
        install: "npm i -g opencode-ai   (or: brew install sst/tap/opencode)",
        kind: AdapterKind::OpenCode,
        models,
        efforts,
        supports_resume: true,
        supports_structured_output: false,
        supports_model_override: true,
        supports_effort: false,
        supports_sandbox: false,
        supports_cwd: true,
        supports_headless: true,
        startup_cost: "low",
        default_strength: "general",
        default_price_tier: "medium",
        run_args,
        model_flag: "--model",
        prompt_flag: "",
    }
}

fn plain_tool(
    key: &'static str,
    pretty: &'static str,
    install: &'static str,
    models: Vec<String>,
    strength: &'static str,
    price: &'static str,
    prompt_flag: &'static str,
) -> (r: ToolInfo)
    ensures
        r@ == plain_row(key@, pretty@, install@, texts(models@), strength@, price@, prompt_flag@),
{
    let efforts: Vec<String> = Vec::new();
    let run_args: Vec<String> = Vec::new();
    proof {
        assert(texts(efforts@) =~= Seq::empty());
        assert(texts(run_args@) =~= Seq::empty());
    }
    ToolInfo {
        key,
        pretty,
        bin: key,
        install,
        kind: AdapterKind::Generic,
        models,
        efforts,
        supports_resume: false,
        supports_structured_output: false,
        supports_model_override: true,
        supports_effort: false,
        supports_sandbox: false,
        supports_cwd: true,
        supports_headless: true,
        startup_cost: "low",
        default_strength: strength,
        default_price_tier: price,
        run_args,
        model_flag: "-m",
        prompt_flag,
    }
}

fn gemini_tool() -> (r: ToolInfo)
    ensures
        r@ == gemini_row(),
{
    let models = vec!["gemini-2.5-pro".to_owned(), "gemini-2.5-flash".to_owned()];
    proof {
        assert(texts(models@) =~= seq!["gemini-2.5-pro"@, "gemini-2.5-flash"@]);
    }
    plain_tool(
        "gemini",
        "Gemini CLI",
        "npm i -g @google/gemini-cli",
        models,
        "frontier",
        "medium",
        "-p",
    )
}

fn glm_tool() -> (r: ToolInfo)
    ensures
        r@ == glm_row(),
{
    let models: Vec<String> = Vec::new();
    proof {
        assert(texts(models@) =~= Seq::empty());
    }
    plain_tool(
        "glm",
        "GLM",
        "see your GLM/Zhipu CLI vendor for install",
        models,
        "general",
        "low",
        "",
    )
}

fn kimi_tool() -> (r: ToolInfo)
    ensures
        r@ == kimi_row(),
{
    let models: Vec<String> = Vec::new();
    proof {
        assert(texts(models@) =~= Seq::empty());
    }
    plain_tool("kimi", "Kimi", "see Moonshot Kimi CLI for install", models, "general", "low", "")
}

/// The rows of a list of tools.
pub open spec fn rows(tools: Seq<ToolInfo>) -> Seq<ToolRow> {
    Seq::new(tools.len(), |i: int| tools[i]@)
}

/// Every known tool, in the order in which they are shown.
pub fn known_tools() -> (r: Vec<ToolInfo>)
    ensures
        rows(r@) == known_rows(),
{
    let r = vec![
        claude_tool(),
        codex_tool(),
        opencode_tool(),
        gemini_tool(),
        glm_tool(),
        kimi_tool(),
    ];
    proof {
        assert(rows(r@) =~= known_rows());
    }
    r
}

/// The known tool with a key, whatever the case of its letters.
pub open spec fn row_of(key: Seq<char>) -> Option<ToolRow> {
    if same_ci("anthropic"@, key) {
        Some(claude_row())
    } else if same_ci("codex"@, key) {
        Some(codex_row())
    } else if same_ci("opencode"@, key) {
        Some(opencode_row())
    } else if same_ci("gemini"@, key) {
        Some(gemini_row())
    } else if same_ci("glm"@, key) {
        Some(glm_row())
    } else if same_ci("kimi"@, key) {
        Some(kimi_row())
    } else {
        None
    }
}

/// The row of a tool, where there is one.
pub open spec fn opt_row(t: Option<ToolInfo>) -> Option<ToolRow> {
    match t {
        Some(t) => Some(t@),
        None => None,
    }
}

/// Looks a known tool up by its key, whatever the case of its letters.
pub fn tool_info(key: &str) -> (r: Option<ToolInfo>)
    ensures
        opt_row(r) == row_of(key@),
{
    if same_ignoring_case("anthropic", key) {
        Some(claude_tool())
    } else if same_ignoring_case("codex", key) {
        Some(codex_tool())
    } else if same_ignoring_case("opencode", key) {
        Some(opencode_tool())
    } else if same_ignoring_case("gemini", key) {
        Some(gemini_tool())
    } else if same_ignoring_case("glm", key) {
        Some(glm_tool())
    } else if same_ignoring_case("kimi", key) {
        Some(kimi_tool())
    } else {
        None
    }
}

/// Every known tool is found by its own key, and nothing is found under a key
/// that no known tool has.
pub proof fn law_tools_are_found_by_key(key: Seq<char>)
    ensures
        forall|i: int|
            0 <= i < known_rows().len() ==> row_of((#[trigger] known_rows()[i]).key) == Some(
                known_rows()[i],
            ),
        row_of(key) matches Some(row) ==> known_rows().contains(row) && same_ci(row.key, key),
        row_of(key) is None ==> forall|i: int|
            0 <= i < known_rows().len() ==> !same_ci((#[trigger] known_rows()[i]).key, key),
{
    reveal_strlit("anthropic");
    reveal_strlit("codex");
    reveal_strlit("opencode");
    reveal_strlit("gemini");
    reveal_strlit("glm");
    reveal_strlit("kimi");
    assert(ascii_lower("anthropic"@)[0] != ascii_lower("gemini"@)[0]);
    let all = known_rows();
    assert(all[0] == claude_row() && all[1] == codex_row() && all[2] == opencode_row());
    assert(all[3] == gemini_row() && all[4] == glm_row() && all[5] == kimi_row());
    assert forall|i: int| 0 <= i < all.len() implies row_of((#[trigger] all[i]).key) == Some(
        all[i],
    ) by {
        assert(ascii_lower("anthropic"@).len() == 9 && ascii_lower("codex"@).len() == 5);
        assert(ascii_lower("opencode"@).len() == 8 && ascii_lower("gemini"@).len() == 6);
        assert(ascii_lower("glm"@).len() == 3 && ascii_lower("kimi"@).len() == 4);
        assert(i == 0 || i == 1 || i == 2 || i == 3 || i == 4 || i == 5);
    }
}

/// No tool but Open Code is found under Open Code's key.
pub proof fn lemma_opencode_row(key: Seq<char>)
    requires
        same_ci(key, "opencode"@),
    ensures
        row_of(key) == Some(opencode_row()),
{
    reveal_strlit("anthropic");
    reveal_strlit("codex");
    reveal_strlit("opencode");
    assert(ascii_lower("anthropic"@).len() == 9 && ascii_lower("codex"@).len() == 5);
    assert(ascii_lower("opencode"@).len() == 8);
}

} // verus!
