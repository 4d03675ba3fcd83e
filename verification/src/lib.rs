//! A developer assistant for the terminal with a web front end: what it decides
//! and computes, without the input and output.
//!
//! The program round this library asks the model, runs commands, fetches pages
//! and talks to the front end. It hands the library what came back, and is told
//! what to do next.

pub mod command;
pub mod conversation;
pub mod duckduckgo;
pub mod effect;
pub mod frontend;
pub mod github;
pub mod http;
pub mod listing;
pub mod number;
pub mod outside;
pub mod port;
pub mod search;
pub mod session;
pub mod stream;
pub mod task;
pub mod task_laws;
pub mod terminal;
pub mod text;
pub mod text_laws;
pub mod tool_call;
pub mod trimmer;
pub mod view_laws;
