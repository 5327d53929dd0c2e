//! A modal (vi-like) text editor's core: keystroke tokenizing, command
//! parsing, buffer editing with undo history, and window bookkeeping.
pub mod text;
pub mod app;
pub mod key;
pub mod token;
pub mod command;
pub mod parser;
pub mod buffer;
pub mod chars;
pub mod ids;
pub mod rope;
pub mod layout;
pub mod highlight;
pub mod window;
pub mod ui;
pub mod layout_tree;
pub mod rls;
pub mod cli;

pub use cli::Cli;
