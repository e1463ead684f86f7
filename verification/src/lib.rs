//! A terminal chat assistant with a long-term memory: its conversation
//! state, how keys and finished tasks change it, what is shown, and the
//! text that goes to and comes from the language model.
pub mod history;
pub mod memory;
pub mod prompt;
pub mod state;
pub mod task;
pub mod text;
pub mod view;
