//! The process-wide registry: every running game keyed by identifier, and
//! the store of player mailboxes.

use crate::assoc::distinct_keys;
use crate::assoc::has_key;
use crate::assoc::lemma_key_index_unique;
use crate::assoc::lemma_push_entry;
use crate::assoc::lemma_remove_entry;
use crate::assoc::value_of;
use crate::draws::draw_game_id;
use crate::error::Error;
use crate::game::GameState;
use crate::mailbox::MailboxStore;
use vstd::prelude::*;

verus! {

/// Global state of the coordinator: all running games and the mailboxes of
/// every name that has logged in.
pub struct State {
    /// All running games, keyed by identifier.
    pub games: Vec<(u128, GameState)>,
    /// The mailboxes, keyed by player name.
    pub messages: MailboxStore,
}

/// Whether some registered game holds the name as a member.
pub open spec fn in_some_game(games: Seq<(u128, GameState)>, n: Seq<char>) -> bool {
    exists|i: int| 0 <= i < games.len() && (#[trigger] games[i]).1.has_member(n)
}

/// The least index of a game holding the name as a member; meaningful only
/// when [`in_some_game`] holds. Route-level operations act on this game.
pub open spec fn first_game_index(games: Seq<(u128, GameState)>, n: Seq<char>) -> int {
    choose|i: int|
        0 <= i < games.len() && (#[trigger] games[i]).1.has_member(n) && (forall|j: int|
            0 <= j < i ==> !(#[trigger] games[j]).1.has_member(n))
}

/// An index holding the name with no earlier one is the first: the least
/// witness is unique, so the chosen index is exactly it.
pub proof fn lemma_first_game_index(games: Seq<(u128, GameState)>, n: Seq<char>, i: int)
    requires
        0 <= i < games.len(),
        games[i].1.has_member(n),
        forall|j: int| 0 <= j < i ==> !(#[trigger] games[j]).1.has_member(n),
    ensures
        in_some_game(games, n),
        first_game_index(games, n) == i,
{
    assert(in_some_game(games, n));
    assert(exists|i2: int|
        0 <= i2 < games.len() && (#[trigger] games[i2]).1.has_member(n) && (forall|j: int|
            0 <= j < i2 ==> !(#[trigger] games[j]).1.has_member(n))) by {
        assert(games[i].1.has_member(n));
    }
    let k = first_game_index(games, n);
    assert(0 <= k < games.len() && games[k].1.has_member(n) && (forall|j: int|
        0 <= j < k ==> !(#[trigger] games[j]).1.has_member(n)));
    if k < i {
        assert(!games[k].1.has_member(n));
    }
    if i < k {
        assert(!games[i].1.has_member(n));
    }
}

impl State {
    /// Whether a game runs under the identifier.
    pub open spec fn has_game(&self, id: u128) -> bool {
        has_key(self.games@, id)
    }

    /// The game running under the identifier.
    pub open spec fn game_of(&self, id: u128) -> GameState {
        value_of(self.games@, id)
    }

    /// Well-formedness: identifiers are unique, the mailbox store is sound,
    /// every game is well formed, carries the identifier it is keyed under,
    /// and every member of every game has a mailbox.
    pub open spec fn wf(&self) -> bool {
        &&& distinct_keys(self.games@)
        &&& self.messages.wf()
        &&& forall|i: int|
            0 <= i < self.games@.len() ==> (#[trigger] self.games@[i]).1.wf()
                && self.games@[i].1.uid == self.games@[i].0 && self.games@[i].1.boxes_cover(
                self.messages,
            )
    }

    /// An empty registry.
    pub fn new() -> (s: Self)
        ensures
            s.wf(),
            s.games@.len() == 0,
            s.messages.model() =~= Seq::<(Seq<char>, Seq<crate::messages::Message>)>::empty(),
    {
        State { games: Vec::new(), messages: MailboxStore::new() }
    }

    /// The index of the game with the identifier.
    pub(crate) fn find_game_index(&self, id: u128) -> (r: Option<usize>)
        ensures
            match r {
                Some(i) => i < self.games@.len() && self.games@[i as int].0 == id && self.has_game(
                    id,
                ),
                None => !self.has_game(id),
            },
    {
        let mut i: usize = 0;
        while i < self.games.len()
            invariant
                i <= self.games@.len(),
                forall|j: int| 0 <= j < i ==> (#[trigger] self.games@[j]).0 != id,
            decreases self.games@.len() - i,
        {
            if self.games[i].0 == id {
                return Some(i);
            }
            i += 1;
        }
        None
    }

    /// The index of the game the name currently plays in, scanning the games
    /// linearly; no inverse index is kept.
    pub(crate) fn find_player_game_index(&self, name: &String) -> (r: Option<usize>)
        ensures
            match r {
                Some(i) => i < self.games@.len() && self.games@[i as int].1.has_member(name@) && (
                forall|j: int|
                    0 <= j < i ==> !(#[trigger] self.games@[j]).1.has_member(name@))
                    && in_some_game(self.games@, name@) && first_game_index(self.games@, name@)
                    == i,
                None => !in_some_game(self.games@, name@),
            },
    {
        let mut i: usize = 0;
        while i < self.games.len()
            invariant
                i <= self.games@.len(),
                forall|j: int| 0 <= j < i ==> !(#[trigger] self.games@[j]).1.has_member(name@),
            decreases self.games@.len() - i,
        {
            if self.games[i].1.has_player(name) {
                proof {
                    lemma_first_game_index(self.games@, name@, i as int);
                }
                return Some(i);
            }
            i += 1;
        }
        None
    }

    /// Registers a fresh game, open for joins, under the identifier; an
    /// identifier already in use is rejected as an internal fault, since
    /// identifiers are drawn at random from a 128-bit space.
    pub fn register_game(&mut self, id: u128) -> (r: Result<u128, Error>)
        requires
            old(self).wf(),
        ensures
            final(self).wf(),
            r is Ok <==> !old(self).has_game(id),
            r is Err ==> *final(self) == *old(self) && (r matches Err(e) && e is Internal),
            r is Ok ==> (r matches Ok(got) && got == id) && final(self).messages == old(self).messages && final(self).has_game(id) && final(self).game_of(id).state is Setup
                && final(self).game_of(id).players@.len() == 0 && final(self).game_of(id).uid == id
                && final(self).games@ == old(self).games@.push((id, final(self).game_of(id)))
                && (forall|j: u128|
                j != id ==> (#[trigger] final(self).has_game(j) <==> old(self).has_game(j)))
                && (forall|j: u128|
                j != id && old(self).has_game(j) ==> #[trigger] final(self).game_of(j) == old(self).game_of(j)),
    {
        if self.find_game_index(id).is_some() {
            return Err(Error::from("a freshly drawn game identifier is already in use".to_string()));
        }
        let ghost pre = self.games@;
        let g = GameState::new(id);
        let ghost gv = g;
        self.games.push((id, g));
        proof {
            lemma_push_entry(pre, id, gv);
            assert(self.games@ == pre.push((id, gv)));
            lemma_key_index_unique(self.games@, id, pre.len() as int);
        }
        Ok(id)
    }

    /// Creates a new game under a freshly drawn identifier and returns the
    /// identifier; the draw deciding, nothing more is promised than what
    /// holds of every outcome.
    pub fn create_game(&mut self) -> (r: Result<u128, Error>)
        requires
            old(self).wf(),
        ensures
            final(self).wf(),
            r is Err ==> *final(self) == *old(self) && (r matches Err(e) && e is Internal),
            r matches Ok(id) ==> !old(self).has_game(id) && final(self).messages == old(self).messages && final(self).has_game(id) && final(self).game_of(id).state is Setup
                && final(self).game_of(id).players@.len() == 0 && final(self).game_of(id).uid == id
                && (forall|j: u128|
                j != id ==> (#[trigger] final(self).has_game(j) <==> old(self).has_game(j)))
                && (forall|j: u128|
                j != id && old(self).has_game(j) ==> #[trigger] final(self).game_of(j) == old(self).game_of(j)),
    {
        let id = draw_game_id();
        self.register_game(id)
    }

    /// The game running under the identifier, if any.
    pub fn get_game_by_id(&self, id: u128) -> (r: Option<&GameState>)
        requires
            self.wf(),
        ensures
            match r {
                Some(g) => self.has_game(id) && *g == self.game_of(id),
                None => !self.has_game(id),
            },
    {
        match self.find_game_index(id) {
            Some(i) => {
                proof {
                    lemma_key_index_unique(self.games@, id, i as int);
                }
                Some(&self.games[i].1)
            },
            None => None,
        }
    }

    /// The identifier of the game the name currently plays in, if any.
    pub fn get_game_by_player(&self, name: &String) -> (r: Option<u128>)
        requires
            self.wf(),
        ensures
            match r {
                Some(id) => self.has_game(id) && self.game_of(id).has_member(name@),
                None => forall|j: int|
                    0 <= j < self.games@.len() ==> !(#[trigger] self.games@[j]).1.has_member(
                        name@,
                    ),
            },
    {
        match self.find_player_game_index(name) {
            Some(i) => {
                proof {
                    lemma_key_index_unique(self.games@, self.games@[i as int].0, i as int);
                }
                Some(self.games[i].0)
            },
            None => None,
        }
    }

    /// Ensures the name has a mailbox, creating one, seeded with the
    /// greeting, at a name's first login; idempotent by name.
    pub fn get_or_create_proxy(&mut self, name: &String)
        requires
            old(self).wf(),
        ensures
            final(self).wf(),
            final(self).games == old(self).games,
            final(self).messages.has_box(name@),
            old(self).messages.has_box(name@) ==> final(self).messages.model() == old(self).messages.model(),
            !old(self).messages.has_box(name@) ==> final(self).messages.msgs(name@) =~= seq![
                crate::messages::Message::Hi,
            ],
            forall|n: Seq<char>| #[trigger]
                final(self).messages.has_box(n) <==> (old(self).messages.has_box(n) || n
                    == name@),
            forall|n: Seq<char>|
                n != name@ && old(self).messages.has_box(n) ==> #[trigger] final(self).messages.msgs(n) == old(self).messages.msgs(n),
    {
        self.messages.get_or_create(name);
    }

    /// Drops the game under the identifier when it has no members left;
    /// anything else, a missing game included, is a no-op.
    pub fn try_remove_game(&mut self, id: u128)
        requires
            old(self).wf(),
        ensures
            final(self).wf(),
            final(self).messages == old(self).messages,
            old(self).has_game(id) && old(self).game_of(id).players@.len() == 0 ==> !final(self).has_game(id),
            !(old(self).has_game(id) && old(self).game_of(id).players@.len() == 0) ==> final(self).games == old(self).games,
            forall|j: u128|
                j != id ==> (#[trigger] final(self).has_game(j) <==> old(self).has_game(j)),
            forall|j: u128|
                j != id && old(self).has_game(j) ==> #[trigger] final(self).game_of(j) == old(self).game_of(j),
    {
        match self.find_game_index(id) {
            Some(i) => {
                proof {
                    lemma_key_index_unique(self.games@, id, i as int);
                }
                if self.games[i].1.player_count() == 0 {
                    let ghost pre = self.games@;
                    self.games.remove(i);
                    proof {
                        lemma_remove_entry(pre, i as int);
                    }
                }
            },
            None => {},
        }
    }
}

impl Default for State {
    /// The registry a process starts with: empty.
    fn default() -> (s: Self)
        ensures
            s.wf(),
            s.games@.len() == 0,
    {
        State::new()
    }
}

} // verus!
