//! Augur: the decision logic of a Discord bot that watches Royal Road fictions
//! and posts their new chapters into the channels that subscribed to them.
//!
//! The library holds what the bot computes: reading commands out of messages,
//! the permission check, the chapter list scraped from a fiction page, the
//! comparison of an old and a new chapter list, the texts that are sent, and the
//! order in which the database and the web are consulted for each command.
//! Talking to Discord, to the database and to the web is left to the caller.

pub mod error;
pub mod text;
pub mod royalroad;
pub mod command;
pub mod update;
