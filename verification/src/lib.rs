//! Neuromancer: the logic of a multi-agent daemon, its agents and its terminal client.

pub mod a2a;
pub mod agent;
pub mod argument_tokens;
pub mod audit;
pub mod chat;
pub mod cli;
pub mod config;
pub mod conversation;
pub mod error;
pub mod json;
pub mod lists;
pub mod llm;
pub mod mcp;
pub mod memory;
pub mod memory_store;
pub mod model_router;
pub mod named;
pub mod policy;
pub mod proposal;
pub mod routing;
pub mod rpc;
pub mod runtime;
pub mod secrets;
pub mod security;
pub mod session;
pub mod task;
pub mod text;
pub mod thread;
pub mod time;
pub mod tool;
pub mod trigger;
pub mod xdg;
