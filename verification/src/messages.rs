//! Directives: the server-to-client messages pushed into a player's mailbox,
//! and the game-level events exchanged between components.

use crate::game::PublicInnerState;
use crate::roles::Juliette;
use crate::roles::Mission;
use crate::roles::Role;
use vstd::prelude::*;

verus! {

/// A directive for a single player, delivered through his mailbox.
#[derive(Debug, Clone)]
pub enum Message {
    /// Seeded into a freshly created mailbox so the first poll after login
    /// returns a non-empty payload.
    Hi,
    /// Broadcast when a player joins the lobby.
    PlayerJoin { name: String },
    /// The caller's hidden role, sent when the game leaves the setup state.
    Role { role: Role },
    /// A mission for a droid.
    Mission { mission: Mission },
    /// The secret pair drawn for a romeo.
    Juliette { juliette: Juliette },
    /// The current alignment of a two-face.
    TwoFaceState { inting: bool },
    /// A public projection of the game state.
    State { state: PublicInnerState },
}

/// An event raised against a running game.
#[derive(Debug)]
pub enum GameEvent {
    PlayerJoin { id: String, name: String },
    NewState { state: crate::game::InnerState },
}

} // verus!
