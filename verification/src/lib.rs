//! A focused todo library: todo items, an ordered todo list, the command-line
//! grammar and the state machine behind the terminal interface.

pub mod commands;
pub mod database;
pub mod models;
pub mod order;
pub mod text;
pub mod tui;

pub use commands::{Cli, Commands};
pub use models::{Todo, TodoList};
