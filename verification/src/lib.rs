//! State-transition rules of the Claud Coin reward-accounting program.
//!
//! The program mints a reward balance, records timestamped tool usage per
//! user, and manages achievements that are created once and claimed many
//! times. Every rule is stated as a contract over the bytes of the storage
//! slots that a caller hands in.

pub mod account;
pub mod error;
pub mod host;
pub mod instruction;
pub mod laws;
pub mod processor;
pub mod state;
pub mod user_achievements;
pub mod wire;
