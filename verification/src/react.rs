//! The ReAct (Reasoning + Acting) loop: the records it produces, what it reads
//! out of model replies, the settings it runs with, and the decisions each
//! cycle takes.
pub mod content;
pub mod emitter;
pub mod messages;
pub mod pending;
pub mod run;
pub mod settings;
pub mod stream;
pub mod types;
