//! The state machine behind the terminal interface: which todo is selected, what
//! is being typed, and what each key press does.

pub mod state;
