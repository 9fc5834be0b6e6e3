# Tales

Tales has several AI coding agents work on one task: they discuss it, recommend
who should carry it out, wait for the user's decision, and execute.

`src/` is the library. It is written in Verus: every function states what it
returns, and Verus proves it of all but the few below. It does no I/O of its own.

Those few hand their work to other crates or to the standard library, and what
they state of it is believed:

- `json_read::parse_value` and `json_read::open_value`: `serde_json` reads a text,
  and what its values hold.
- `json_text::quote`: `serde_json` writes a text in quotes.
- `encode_base64`: `base64` encodes the bytes of an image.
- `ids::write_id`: `uuid` writes an identifier.
- `text::to_lower` and `text::char_to_lower`: lower case, from the standard
  library; `text` also says what `String::push` does.

The modules:

- `text`, `scan`, `numeral`, `order`, `path`, `arith`, `reals`, `json`, `json_read`,
  `json_text`: texts, numbers and documents.
- `registry`, `agent`, `roster`, `turns` and one module for each adapter: the
  tools, how they are started, and how their output is read.
- `conductor`, `blackboard`, `prompts`, `context`, `handoff`, `recommend`: who
  speaks, what agents are told, and how they vote.
- `machine`, `orchestrator`, `engine_laws`, `run_laws`: the engine as a state
  machine, its implementation, and what holds of every step and every run.
- `project_context`, `changes`: what agents are told of a project.
- `report`, `session_report`, `summary`, `telemetry`, `usage`, `artifacts`,
  `recover`: what is written down of a run, and how it is found again.
- `coordinator`, `vocabulary`, `dataset`, `corpus_laws`, `llm_conductor`,
  `eval_harness`: which shape of collaboration suits a task.
- `preflight`, `prompt_forecast`, `doctor`, `pipeline`, `labels`, `commands`,
  `launch`, `session`: the commands.

Proof functions whose names begin with `law_` state what holds across functions.

`app/` is the program round the library: it starts processes, reads and writes
files, and holds the parts that compute with floating point. It looks for the
agents' commands (`anthropic`, `codex` and the others) on the search path.
