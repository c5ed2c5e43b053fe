//! Verified core of the dyad editor: text storage, transactions, the agent
//! protocol and the terminal interface, as functions on plain values.

pub mod text;
pub mod scan;
pub mod rope;
pub mod paths;
pub mod language;
pub mod error;
pub mod buffer;
pub mod view;
pub mod tx;
pub mod proposals;
pub mod syntax;
pub mod order;
pub mod lsp;
pub mod protocol;
pub mod test_runner;
pub mod git;
pub mod install;
pub mod runtime;
pub mod json;
pub mod mcp;
pub mod action;
pub mod app;
pub mod input;
pub mod hover;
pub mod search;
pub mod theme;
pub mod tree;
pub mod ui;
