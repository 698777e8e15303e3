//! Matchmaking logic of a pickup-group queue: players join a queue under a
//! role, groups of one tank, one healer and three damage dealers are formed
//! from it, and per-user settings drive timeouts and notifications.
pub mod text;
mod clock;
pub mod combos;
pub mod functions;
pub mod usersettings;
pub mod commands;
pub mod handler;
pub mod laws;
