//! A chat-automation rule engine: users define "if an incoming message
//! matches a condition, perform these actions" rules, edit them through a
//! stateless multi-step form whose session state round-trips through an
//! opaque token, and persist them in a denormalized record store queryable
//! by listener, by id, and by collaborator.

pub mod actions;
pub mod blocks;
pub mod conditions;
pub mod database;
pub mod errors;
pub mod events;
pub mod idgen;
pub mod listeners;
pub mod matching;
pub mod pagerduty;
pub mod regexes;
pub mod response;
pub mod router;
pub mod state_machine;
pub mod state_values;
pub mod strutil;
pub mod submission;
pub mod token;
pub mod utils;
