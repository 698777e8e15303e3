//! The logic of the slash commands.
pub mod expire;
pub mod notify;
pub mod queue;
