use vstd::prelude::*;

pub mod adapter_laws;
pub mod agent;
pub mod arith;
pub mod artifact_laws;
pub mod artifacts;
pub mod blackboard;
pub mod build_info;
pub mod bus;
pub mod changes;
pub mod check_laws;
pub mod claude;
pub mod codex;
pub mod commands;
pub mod conductor;
pub mod context;
pub mod context_laws;
pub mod count_laws;
pub mod coordinator;
pub mod coordinator_laws;
pub mod corpus_laws;
pub mod dataset;
pub mod doctor;
pub mod engine_laws;
pub mod error;
pub mod eval_harness;
pub mod event;
pub mod gate_laws;
pub mod generic;
pub mod handoff;
pub mod ids;
pub mod json;
pub mod json_read;
pub mod json_text;
pub mod labels;
pub mod launch;
pub mod llm_conductor;
pub mod machine;
pub mod media_laws;
pub mod mock;
pub mod numeral;
pub mod opencode;
pub mod orchestrator;
pub mod order;
pub mod path;
pub mod pipeline;
pub mod pipeline_laws;
pub mod preflight;
pub mod preflight_laws;
pub mod project_context;
pub mod project_laws;
pub mod prompt_forecast;
pub mod prompt_laws;
pub mod prompts;
pub mod reals;
pub mod recommend;
pub mod recover;
pub mod recover_laws;
pub mod registry;
pub mod report;
pub mod report_laws;
pub mod roster;
pub mod round_laws;
pub mod run_laws;
pub mod scan;
pub mod scan_laws;
pub mod session;
pub mod session_laws;
pub mod session_report;
pub mod summary;
pub mod telemetry;
pub mod text;
pub mod text_laws;
pub mod tool_laws;
pub mod turn_laws;
pub mod turns;
pub mod usage;
pub mod vocabulary;
pub mod vote_laws;
pub mod wait_laws;
