//! A chat-bot core for running timed group polls.
//!
//! The library holds the verified logic of the bot: parsing a poll
//! specification, recording votes, tallying and rendering results, the
//! lifecycle of the single shared poll slot, command extraction and
//! routing, and the choice of reply route for an incoming command.
//! Network transport and timers live outside the library; they hand in
//! plain strings and carry the produced notices out.

pub mod bot;
pub mod context;
pub mod poll;
pub mod text;
