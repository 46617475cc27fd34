//! ecodex: the verified core of the ecodex coding-agent harness.

mod text;
pub mod json;
pub mod json_serde;
pub mod hook_output;
pub mod firewall;
pub mod curated_seed;
pub mod model_lines;
pub mod upstreams;
pub mod server;
pub mod cif;
pub mod tap;
pub mod responses;
pub mod anthropic;
pub mod chat;
pub mod injection;
pub mod update_action;
pub mod plugin;
pub mod curated_models;
pub mod model_info;
pub mod ntfy;
pub mod agents_md;
pub mod subagents;
pub mod monitor;
pub mod relay;
pub mod registry;
pub mod models_cmd;
pub mod model_meta;
pub mod empirica_cli;
pub mod manifest;
pub mod translate;
pub mod practice_bootstrap;
pub mod statusline;
pub mod hook_events;
pub mod monitor_registry;
pub mod model_catalog;

