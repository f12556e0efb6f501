pub mod types;
pub mod text;
pub mod stack;
pub mod cores;
pub mod seed;
pub mod llm;
pub mod sse;
pub mod context;
pub mod queue;
pub mod runtime;
pub mod session;
pub mod subagent;
pub mod agents;
pub mod config;
pub mod version;
pub mod watcher;
pub mod injection;
pub mod openclaw_config;
pub mod auth;
pub mod resource;
pub mod manifest;
pub mod registry;
pub mod persistent;
pub mod executor;
pub mod tui;
pub mod tui_client;
pub mod json;
pub mod keys;
pub mod ctx_file;
pub mod ego;
pub mod rpc;
pub mod protocol;
pub mod bee;
