//! A small library for an interactive "random card by mana value" session:
//! it turns a line of user input into a command, assembles the search query
//! for the remote card database, tracks which cards were already drawn so
//! that later queries exclude them, classifies the remote service's reply,
//! and lays out the coloured terminal output as data.
//!
//! Everything here is pure computation over plain values; reading stdin,
//! talking to the remote service and painting the terminal stay outside.

pub mod card;
pub mod input;
pub mod outcome;
pub mod present;
pub mod query;
pub mod session;

pub use card::Card;
pub use card::Color;
pub use card::Tint;
pub use input::Command;
pub use input::read_command;
pub use outcome::Outcome;
pub use outcome::RemoteReply;
pub use outcome::apply_outcome;
pub use outcome::classify_reply;
pub use present::Emphasis;
pub use present::Span;
pub use query::Category;
pub use query::build_query;
pub use session::Session;
