//! A library for building tool-using LLM agents: the ReAct loop's decisions,
//! permission policies, RAG source bookkeeping, text chunking, MCP server
//! configuration, and the workspace tools' logic.
use vstd::prelude::*;

pub mod config;
pub mod dispatch;
pub mod embeddings;
pub mod invalid_tool;
pub mod managed;
pub mod memory;
pub mod path;
pub mod permission;
pub mod rag;
pub mod react;
pub mod retry;
pub mod state;
pub mod text;
pub mod tool_registry;
pub mod tools;

verus! {

} // verus!
