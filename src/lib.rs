//! Job supervision, status polling and reference resolution for a chat
//! operator bot.
//!
//! - `jobs`: the supervisor that hands out job ids, keeps the registry of
//!   running jobs, flags them for cancellation and reclaims finished ones.
//! - `polling`: the state machine that polls a status source until it has
//!   settled, with cooperative cancellation and a fast abort.
//! - `workflow`: the order of the steps of multi-phase commands.
//! - `resolve`: turning a URL or an instance id into a lookup target.
//! - `command`, `reply`: reading chat messages and writing replies.
//! - `indexer`, `ec2`: the reports and instances the commands deal with.
//! - `text`: character scanning shared by the parsers.
pub mod text;
pub mod resolve;
pub mod polling;
pub mod jobs;
pub mod workflow;
pub mod command;
pub mod indexer;
pub mod ec2;
pub mod reply;
