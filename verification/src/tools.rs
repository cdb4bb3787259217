//! The workspace tools: file search, directory listing, document access,
//! RAG source management, history compaction and thinking.
pub mod context;
pub mod directory;
pub mod document;
pub mod glob;
pub mod registry;
pub mod search;
pub mod think;
pub mod util;
