//! Server-side coordinator for a five-player hidden-role party game.
//!
//! A lobby of up to five players starts a game; each member is privately
//! assigned a role drawn from a fixed catalogue, and for the duration of the
//! match each role behaviour feeds its player a stream of directives through
//! a per-player mailbox. When the match ends the members cast ballots
//! attributing a role to every other member; once all five ballots are in,
//! the results are revealed.

pub mod api;
pub mod assoc;
pub mod classes;
pub mod draws;
pub mod error;
pub mod game;
pub mod mailbox;
pub mod match_data;
pub mod messages;
pub mod roles;
pub mod session;
pub mod state;
pub mod team_builder;
