//! The per-game state: lobby membership, the five-state lifecycle, tick
//! dispatch, ballot collection, and the public status projections.

use crate::assoc::distinct_keys;
use crate::assoc::has_key;
use crate::assoc::lemma_key_index_unique;
use crate::assoc::lemma_push_entry;
use crate::assoc::lemma_remove_entry;
use crate::assoc::value_of;
use crate::classes::class_init_step;
use crate::classes::class_step;
use crate::classes::fresh_class_of;
use crate::classes::role_of_class;
use crate::classes::spec_class_state;
use crate::classes::store_delta_at;
use crate::classes::PlayerClass;
use crate::classes::PlayerState;
use crate::error::Error;
use crate::mailbox::MailboxStore;
use crate::messages::Message;
use crate::roles::Role;
use crate::session::UserSession;
use crate::team_builder::generate_composition;
use crate::team_builder::valid_composition;
use vstd::prelude::*;

verus! {

/// Least number of seconds a game must have run before `end` is accepted;
/// prevents the immediate abort of a just-started game.
pub const END_FLOOR_SECS: u64 = 10;

/// One member's ballot: a role attributed to every other member, by name.
pub type Ballot = Vec<(String, Role)>;

/// The five-state lifecycle of a game.
#[derive(Debug)]
pub enum InnerState {
    /// Open to joins and leaves; membership mutable.
    Setup,
    /// Membership frozen, roles assigned.
    Draft,
    /// Role timers may fire; `start` is the instant, in whole seconds on the
    /// caller's monotone clock, at which play began.
    InGame { start: u64 },
    /// Ballots are being collected, keyed by voter name.
    Voting { votes: Vec<(String, Ballot)> },
    /// Terminal for gameplay: the collected ballots and the true assignments.
    End { votes: Vec<(String, Ballot)>, roles: Vec<(String, Role)> },
}

/// The public projection of [`InnerState`]: what an unauthenticated status
/// request may see.
#[derive(Debug, Clone)]
pub enum PublicInnerState {
    Setup,
    Draft,
    InGame,
    /// Only the names of the voters that have already voted are public.
    Voting { votes_received: Vec<String> },
    /// Once the game has ended, the ballots and the true roles are revealed.
    End { votes: Vec<(String, Ballot)>, roles: Vec<(String, Role)> },
}

/// Public status of a game.
#[derive(Debug)]
pub struct GameStatus {
    pub uid: u128,
    pub player_names: Vec<String>,
    pub state: PublicInnerState,
}

/// Public status of a game, augmented with the caller's own role snapshot.
#[derive(Debug)]
pub struct AuthenticatedGameStatus {
    pub uid: u128,
    pub player_names: Vec<String>,
    pub player_state: Option<PlayerState>,
    pub state: PublicInnerState,
}

/// A member of a game: the session it joined with and, once the game has
/// left setup, the behaviour running for its hidden role.
#[derive(Debug)]
pub struct Player {
    pub session: UserSession,
    pub class: Option<PlayerClass>,
}

/// The role a player has been assigned, if any.
pub open spec fn spec_player_role(p: Player) -> Option<Role> {
    match p.class {
        Some(c) => Some(role_of_class(c)),
        None => None,
    }
}

/// The role-tagged snapshot of a player's behaviour, if one runs.
pub open spec fn spec_player_state(p: Player) -> Option<PlayerState> {
    match p.class {
        Some(c) => Some(spec_class_state(c)),
        None => None,
    }
}

impl Player {
    /// A freshly joined member: no role yet.
    pub fn new(session: UserSession) -> (p: Self)
        ensures
            p.session == session,
            p.class is None,
    {
        Player { session, class: None }
    }

    /// Assigns the role, spins up its behaviour, and announces the role to
    /// the member's mailbox. A player's role, once assigned, cannot change:
    /// a second assignment is rejected and mutates nothing.
    pub fn set_role(&mut self, role: Role, boxes: &mut MailboxStore) -> (r: Result<(), Error>)
        requires
            old(boxes).wf(),
            old(boxes).has_box(old(self).session.name@),
        ensures
            final(boxes).wf(),
            forall|k: Seq<char>| #[trigger] final(boxes).has_box(k) <==> old(boxes).has_box(k),
            r is Ok <==> old(self).class is None,
            r is Err ==> *final(self) == *old(self) && *final(boxes) == *old(boxes) && (
            r matches Err(e) && e == Error::AlreadyStarted),
            r is Ok ==> final(self).session == old(self).session && final(self).class == Some(
                fresh_class_of(role),
            ) && final(boxes).msgs(old(self).session.name@) == old(boxes).msgs(
                old(self).session.name@,
            ).push(Message::Role { role }) && (forall|k: Seq<char>|
                k != old(self).session.name@ && old(boxes).has_box(k)
                    ==> #[trigger] final(boxes).msgs(k) == old(boxes).msgs(k)),
    {
        if self.class.is_some() {
            return Err(Error::AlreadyStarted);
        }
        self.class = Some(PlayerClass::from(role));
        boxes.push_to(&self.session.name, Message::Role { role });
        Ok(())
    }

    /// The member's assigned role, if any.
    pub fn role(&self) -> (r: Option<Role>)
        ensures
            r == spec_player_role(*self),
    {
        match &self.class {
            Some(c) => Some(c.role()),
            None => None,
        }
    }

    /// The role-tagged snapshot of the member's behaviour, if one runs.
    pub fn state(&self) -> (r: Option<PlayerState>)
        ensures
            r == spec_player_state(*self),
    {
        match &self.class {
            Some(c) => Some(c.get_state()),
            None => None,
        }
    }
}

/// Ballot boxes as an association sequence keyed by the voter's name.
pub open spec fn vmodel(votes: Seq<(String, Ballot)>) -> Seq<(Seq<char>, Ballot)> {
    votes.map(|i: int, e: (String, Ballot)| (e.0@, e.1))
}

/// The state of one game.
#[derive(Debug)]
pub struct GameState {
    pub uid: u128,
    pub players: Vec<Player>,
    pub state: InnerState,
}

impl GameState {
    /// Membership as an association sequence keyed by display name.
    pub open spec fn pmodel(&self) -> Seq<(Seq<char>, Player)> {
        self.players@.map(|i: int, p: Player| (p.session.name@, p))
    }

    /// The member names, in join order.
    pub open spec fn member_names(&self) -> Seq<Seq<char>> {
        self.players@.map(|i: int, p: Player| p.session.name@)
    }

    /// Whether the name is a member.
    pub open spec fn has_member(&self, n: Seq<char>) -> bool {
        has_key(self.pmodel(), n)
    }

    /// The member with the name.
    pub open spec fn member(&self, n: Seq<char>) -> Player {
        value_of(self.pmodel(), n)
    }

    /// The roles assigned, in join order; meaningful once all are assigned.
    pub open spec fn assigned_roles(&self) -> Seq<Role> {
        self.players@.map(|i: int, p: Player| role_of_class(p.class.unwrap()))
    }

    /// Every member has a role and a running behaviour.
    pub open spec fn all_assigned(&self) -> bool {
        forall|i: int|
            0 <= i < self.players@.len() ==> (#[trigger] self.players@[i]).class is Some
    }

    /// No member has a role yet.
    pub open spec fn none_assigned(&self) -> bool {
        forall|i: int|
            0 <= i < self.players@.len() ==> (#[trigger] self.players@[i]).class is None
    }

    /// Every member's name has a mailbox in the store.
    pub open spec fn boxes_cover(&self, boxes: MailboxStore) -> bool {
        forall|i: int|
            0 <= i < self.players@.len() ==> boxes.has_box(
                (#[trigger] self.players@[i]).session.name@,
            )
    }

    /// A store with the same mailbox keys covers the same game.
    pub proof fn lemma_cover_preserved(self, pre: MailboxStore, post: MailboxStore)
        requires
            self.boxes_cover(pre),
            forall|k: Seq<char>| #[trigger] post.has_box(k) <==> pre.has_box(k),
        ensures
            self.boxes_cover(post),
    {
        assert forall|i: int| 0 <= i < self.players@.len() implies post.has_box(
            (#[trigger] self.players@[i]).session.name@,
        ) by {
            assert(pre.has_box(self.players@[i].session.name@));
        }
    }

    /// A game whose members carry the same sessions is covered by the same
    /// store.
    pub proof fn lemma_cover_sessions(self, other: GameState, boxes: MailboxStore)
        requires
            self.boxes_cover(boxes),
            other.players@.len() == self.players@.len(),
            forall|i: int|
                0 <= i < self.players@.len() ==> (#[trigger] other.players@[i]).session
                    == self.players@[i].session,
        ensures
            other.boxes_cover(boxes),
    {
        assert forall|i: int| 0 <= i < other.players@.len() implies boxes.has_box(
            (#[trigger] other.players@[i]).session.name@,
        ) by {
            assert(boxes.has_box(self.players@[i].session.name@));
        }
    }

    /// Well-formedness: at most five members, unique by name; roles absent
    /// in setup and present from draft on; membership frozen at five from
    /// draft through voting; ballots unique by voter, strictly fewer than
    /// five while voting is open, each cast by a member; exactly five once
    /// the game has ended.
    pub open spec fn wf(&self) -> bool {
        &&& distinct_keys(self.pmodel())
        &&& self.players@.len() <= 5
        &&& match self.state {
            InnerState::Setup => self.none_assigned(),
            InnerState::Draft => self.players@.len() == 5 && self.all_assigned(),
            InnerState::InGame { .. } => self.players@.len() == 5 && self.all_assigned(),
            InnerState::Voting { votes } => {
                &&& self.players@.len() == 5
                &&& self.all_assigned()
                &&& distinct_keys(vmodel(votes@))
                &&& votes@.len() < 5
                &&& forall|i: int|
                    0 <= i < votes@.len() ==> self.has_member((#[trigger] votes@[i]).0@)
            },
            InnerState::End { votes, roles: _ } => {
                &&& self.all_assigned()
                &&& distinct_keys(vmodel(votes@))
                &&& votes@.len() == 5
            },
        }
    }

    /// A fresh game: setup, no members.
    pub fn new(uid: u128) -> (g: Self)
        ensures
            g.wf(),
            g.uid == uid,
            g.players@.len() == 0,
            g.state is Setup,
    {
        let g = GameState { uid, players: Vec::new(), state: InnerState::Setup };
        proof {
            assert(g.pmodel() =~= Seq::<(Seq<char>, Player)>::empty());
        }
        g
    }

    /// The index of the member with the name, scanning join order.
    fn find_player_index(&self, name: &String) -> (r: Option<usize>)
        ensures
            match r {
                Some(i) => i < self.players@.len() && self.pmodel()[i as int].0 == name@
                    && self.has_member(name@),
                None => !self.has_member(name@),
            },
    {
        let mut i: usize = 0;
        while i < self.players.len()
            invariant
                i <= self.players@.len(),
                forall|j: int| 0 <= j < i ==> (#[trigger] self.pmodel()[j]).0 != name@,
            decreases self.players@.len() - i,
        {
            if self.players[i].session.name == *name {
                assert(self.pmodel()[i as int].0 == name@);
                return Some(i);
            }
            i += 1;
        }
        None
    }

    /// Whether the name is currently a member of this game.
    pub fn has_player(&self, name: &String) -> (r: bool)
        ensures
            r == self.has_member(name@),
    {
        self.find_player_index(name).is_some()
    }

    /// The number of members.
    pub fn player_count(&self) -> (n: usize)
        ensures
            n == self.players@.len(),
    {
        self.players.len()
    }

    /// Adds a member, legal only in setup, for at most five members unique
    /// by name; emits no directive (the join broadcast is separate). Any
    /// other state or a violated guard rejects without mutation.
    pub fn add_player(&mut self, session: UserSession) -> (r: Result<(), Error>)
        requires
            old(self).wf(),
        ensures
            final(self).wf(),
            final(self).uid == old(self).uid,
            r is Ok <==> (old(self).state is Setup && !old(self).has_member(session.name@) && old(self).players@.len() < 5),
            r is Ok ==> final(self).players@ == old(self).players@.push(
                Player { session, class: None },
            ) && final(self).state == old(self).state,
            r is Err ==> *final(self) == *old(self),
            !(old(self).state is Setup) ==> (r matches Err(e) && e == Error::IncorrectState),
            old(self).state is Setup && old(self).has_member(session.name@) ==> (r matches Err(e)
                && e == Error::AlreadyInGame),
            old(self).state is Setup && !old(self).has_member(session.name@) && old(self).players@.len() >= 5 ==> (r matches Err(e) && e == Error::MaxPlayerReached),
    {
        if !(matches!(&self.state, InnerState::Setup)) {
            return Err(Error::IncorrectState);
        }
        if self.find_player_index(&session.name).is_some() {
            return Err(Error::AlreadyInGame);
        }
        if self.players.len() >= 5 {
            return Err(Error::MaxPlayerReached);
        }
        let ghost pre = self.pmodel();
        let ghost name_view = session.name@;
        let p = Player::new(session);
        let ghost pv = p;
        self.players.push(p);
        proof {
            assert(self.pmodel() =~= pre.push((name_view, pv)));
            lemma_push_entry(pre, name_view, pv);
        }
        Ok(())
    }

    /// Removes a member, legal in setup and once the game has ended; a
    /// missing member or any other state rejects without mutation.
    pub fn remove_player(&mut self, name: String) -> (r: Result<(), Error>)
        requires
            old(self).wf(),
        ensures
            final(self).wf(),
            final(self).uid == old(self).uid,
            r is Ok <==> ((old(self).state is Setup || old(self).state is End) && old(self).has_member(name@)),
            r is Err ==> *final(self) == *old(self),
            !(old(self).state is Setup || old(self).state is End) ==> (r matches Err(e) && e
                == Error::IncorrectState),
            (old(self).state is Setup || old(self).state is End) && !old(self).has_member(name@)
                ==> (r matches Err(e) && e == Error::NotInGame),
            r is Ok ==> exists|idx: int|
                0 <= idx < old(self).players@.len() && (#[trigger] old(self).players@[idx]).session.name@ == name@ && final(self).players@ == old(self).players@.remove(idx),
            r is Ok ==> {
                &&& final(self).state == old(self).state
                &&& final(self).players@.len() == old(self).players@.len() - 1
                &&& !final(self).has_member(name@)
                &&& forall|n: Seq<char>|
                    n != name@ ==> (#[trigger] final(self).has_member(n) <==> old(self).has_member(
                        n,
                    ))
                &&& forall|n: Seq<char>|
                    n != name@ && old(self).has_member(n) ==> #[trigger] final(self).member(n)
                        == old(self).member(n)
            },
    {
        if !(matches!(&self.state, InnerState::Setup) || matches!(&self.state, InnerState::End { .. })) {
            return Err(Error::IncorrectState);
        }
        match self.find_player_index(&name) {
            None => Err(Error::NotInGame),
            Some(i) => {
                let ghost pre = self.pmodel();
                proof {
                    lemma_key_index_unique(pre, name@, i as int);
                }
                self.players.remove(i);
                proof {
                    assert(self.pmodel() =~= pre.remove(i as int));
                    lemma_remove_entry(pre, i as int);
                }
                Ok(())
            },
        }
    }

    /// Pushes the join announcement for a name to every member's mailbox,
    /// the joiner included.
    pub fn broadcast_join(&self, joiner: &String, boxes: &mut MailboxStore)
        requires
            self.wf(),
            old(boxes).wf(),
            self.boxes_cover(*old(boxes)),
        ensures
            final(boxes).wf(),
            self.boxes_cover(*final(boxes)),
            forall|k: Seq<char>| #[trigger] final(boxes).has_box(k) <==> old(boxes).has_box(k),
            forall|i: int|
                0 <= i < self.players@.len() ==> #[trigger] final(boxes).msgs(
                    self.member_names()[i],
                ) == old(boxes).msgs(self.member_names()[i]).push(
                    Message::PlayerJoin { name: *joiner },
                ),
            forall|k: Seq<char>|
                !self.member_names().contains(k) && old(boxes).has_box(k)
                    ==> #[trigger] final(boxes).msgs(k) == old(boxes).msgs(k),
    {
        let ghost pre = *boxes;
        let mut i: usize = 0;
        while i < self.players.len()
            invariant
                i <= self.players@.len(),
                self.wf(),
                boxes.wf(),
                self.boxes_cover(pre),
                forall|k: Seq<char>| #[trigger] boxes.has_box(k) <==> pre.has_box(k),
                forall|j: int|
                    0 <= j < i ==> #[trigger] boxes.msgs(self.member_names()[j]) == pre.msgs(
                        self.member_names()[j],
                    ).push(Message::PlayerJoin { name: *joiner }),
                forall|k: Seq<char>|
                    !self.member_names().take(i as int).contains(k) && pre.has_box(k)
                        ==> #[trigger] boxes.msgs(k) == pre.msgs(k),
            decreases self.players@.len() - i,
        {
            let ghost names = self.member_names();
            let name = &self.players[i].session.name;
            proof {
                assert(names[i as int] == name@);
                assert(!names.take(i as int).contains(name@)) by {
                    if names.take(i as int).contains(name@) {
                        let j = choose|j: int|
                            0 <= j < i && #[trigger] names.take(i as int)[j] == name@;
                        assert(self.pmodel()[j].0 == names[j]);
                        assert(self.pmodel()[i as int].0 == names[i as int]);
                    }
                }
            }
            boxes.push_to(name, Message::PlayerJoin { name: joiner.clone() });
            proof {
                assert forall|k: Seq<char>|
                    !names.take(i as int + 1).contains(k) && pre.has_box(k) implies #[trigger] boxes.msgs(
                    k,
                ) == pre.msgs(k) by {
                    assert(!names.take(i as int).contains(k)) by {
                        if names.take(i as int).contains(k) {
                            let j = choose|j: int|
                                0 <= j < i && #[trigger] names.take(i as int)[j] == k;
                            assert(names.take(i as int + 1)[j] == k);
                        }
                    }
                    assert(k != name@) by {
                        assert(names.take(i as int + 1)[i as int] == name@);
                    }
                }
                assert forall|j: int|
                    0 <= j < i + 1 implies #[trigger] boxes.msgs(names[j]) == pre.msgs(
                    names[j],
                ).push(Message::PlayerJoin { name: *joiner }) by {
                    if j < i {
                        assert(names[j] != name@) by {
                            assert(self.pmodel()[j].0 == names[j]);
                            assert(self.pmodel()[i as int].0 == names[i as int]);
                        }
                    }
                }
            }
            i += 1;
        }
        proof {
            assert forall|k: Seq<char>|
                !self.member_names().contains(k) && pre.has_box(k) implies #[trigger] boxes.msgs(k)
                == pre.msgs(k) by {
                assert(!self.member_names().take(self.players@.len() as int).contains(k)) by {
                    if self.member_names().take(self.players@.len() as int).contains(k) {
                        let j = choose|j: int|
                            0 <= j < self.players@.len() && #[trigger] self.member_names().take(
                                self.players@.len() as int,
                            )[j] == k;
                        assert(self.member_names()[j] == k);
                    }
                }
            }
        }
    }
}

/// The true assignments as recorded at the transition into the end state:
/// one entry per member, in join order, carrying the member's role.
pub open spec fn roles_match(roles: Seq<(String, Role)>, g: GameState) -> bool {
    &&& roles.len() == g.players@.len()
    &&& forall|i: int|
        0 <= i < roles.len() ==> (#[trigger] roles[i]).0@ == g.member_names()[i] && roles[i].1
            == role_of_class(g.players@[i].class.unwrap())
}

/// The outcome of an accepted ballot: with fewer than four ballots already
/// in, voting stays open and the ballot is appended; the fifth ballot closes
/// the vote, capturing the ballots and recording the true assignments.
pub open spec fn vote_outcome(pre: GameState, post: GameState, name: String, ballots: Ballot) -> bool {
    match pre.state {
        InnerState::Voting { votes } => {
            &&& post.players == pre.players
            &&& post.uid == pre.uid
            &&& if votes@.len() < 4 {
                post.state matches InnerState::Voting { votes: v2 } && v2@ == votes@.push(
                    (name, ballots),
                )
            } else {
                post.state matches InnerState::End { votes: v2, roles } && v2@ == votes@.push(
                    (name, ballots),
                ) && roles_match(roles@, pre)
            }
        },
        _ => false,
    }
}

/// One ballot as an association sequence from attributed name to role.
pub open spec fn ballot_model(b: Ballot) -> Seq<(Seq<char>, Role)> {
    b@.map(|i: int, e: (String, Role)| (e.0@, e.1))
}

/// The ballot boxes, deeply, as voter name to attributed roles.
pub open spec fn votes_model(votes: Seq<(String, Ballot)>) -> Seq<
    (Seq<char>, Seq<(Seq<char>, Role)>),
> {
    votes.map(|i: int, e: (String, Ballot)| (e.0@, ballot_model(e.1)))
}

/// What the public projection of a lifecycle state reveals: the bare tag up
/// to play; the voter names while voting; everything once ended.
pub open spec fn projects(st: InnerState, ps: PublicInnerState) -> bool {
    match st {
        InnerState::Setup => ps is Setup,
        InnerState::Draft => ps is Draft,
        InnerState::InGame { .. } => ps is InGame,
        InnerState::Voting { votes } => ps matches PublicInnerState::Voting { votes_received }
            && votes_received@.len() == votes@.len() && (forall|i: int|
            0 <= i < votes@.len() ==> votes_received@[i] == (#[trigger] votes@[i]).0),
        InnerState::End { votes, roles } => ps matches PublicInnerState::End {
            votes: v2,
            roles: r2,
        } && votes_model(v2@) == votes_model(votes@) && r2@ == roles@,
    }
}

/// Copies the names carried by a ballot-box vector, in order.
fn copy_voter_names(votes: &Vec<(String, Ballot)>) -> (r: Vec<String>)
    ensures
        r@.len() == votes@.len(),
        forall|i: int| 0 <= i < votes@.len() ==> r@[i] == (#[trigger] votes@[i]).0,
{
    let mut r: Vec<String> = Vec::new();
    let mut i: usize = 0;
    while i < votes.len()
        invariant
            i <= votes@.len(),
            r@.len() == i,
            forall|j: int| 0 <= j < i ==> r@[j] == (#[trigger] votes@[j]).0,
        decreases votes@.len() - i,
    {
        r.push(votes[i].0.clone());
        i += 1;
    }
    r
}

/// Copies one ballot, entry by entry.
fn copy_ballot(b: &Ballot) -> (r: Ballot)
    ensures
        r@ == b@,
{
    let mut r: Ballot = Vec::new();
    let mut i: usize = 0;
    while i < b.len()
        invariant
            i <= b@.len(),
            r@.len() == i,
            forall|j: int| 0 <= j < i ==> r@[j] == b@[j],
        decreases b@.len() - i,
    {
        r.push((b[i].0.clone(), b[i].1));
        i += 1;
    }
    proof {
        assert(r@ =~= b@);
    }
    r
}

/// Copies the ballot boxes, ballot by ballot; equal under the deep model.
fn copy_votes(votes: &Vec<(String, Ballot)>) -> (r: Vec<(String, Ballot)>)
    ensures
        votes_model(r@) == votes_model(votes@),
{
    let mut r: Vec<(String, Ballot)> = Vec::new();
    let mut i: usize = 0;
    while i < votes.len()
        invariant
            i <= votes@.len(),
            r@.len() == i,
            forall|j: int|
                0 <= j < i ==> (#[trigger] r@[j]).0 == votes@[j].0 && ballot_model(r@[j].1)
                    == ballot_model(votes@[j].1),
        decreases votes@.len() - i,
    {
        r.push((votes[i].0.clone(), copy_ballot(&votes[i].1)));
        i += 1;
    }
    proof {
        assert(votes_model(r@) =~= votes_model(votes@));
    }
    r
}

/// Copies the recorded assignments, entry by entry.
fn copy_roles(roles: &Vec<(String, Role)>) -> (r: Vec<(String, Role)>)
    ensures
        r@ == roles@,
{
    let mut r: Vec<(String, Role)> = Vec::new();
    let mut i: usize = 0;
    while i < roles.len()
        invariant
            i <= roles@.len(),
            r@.len() == i,
            forall|j: int| 0 <= j < i ==> r@[j] == roles@[j],
        decreases roles@.len() - i,
    {
        r.push((roles[i].0.clone(), roles[i].1));
        i += 1;
    }
    proof {
        assert(r@ =~= roles@);
    }
    r
}

impl PublicInnerState {
    /// Projects a lifecycle state to its public view; total on well-formed
    /// states, the result kept for the transport layer's convenience.
    pub fn try_from(value: &InnerState) -> (r: Result<PublicInnerState, Error>)
        ensures
            r matches Ok(ps) && projects(*value, ps),
    {
        match value {
            InnerState::Setup => Ok(PublicInnerState::Setup),
            InnerState::Draft => Ok(PublicInnerState::Draft),
            InnerState::InGame { .. } => Ok(PublicInnerState::InGame),
            InnerState::Voting { votes } => Ok(
                PublicInnerState::Voting { votes_received: copy_voter_names(votes) },
            ),
            InnerState::End { votes, roles } => Ok(
                PublicInnerState::End { votes: copy_votes(votes), roles: copy_roles(roles) },
            ),
        }
    }
}

impl GameState {
    /// Copies the member names, in join order.
    fn copy_names(&self) -> (r: Vec<String>)
        ensures
            r@.len() == self.players@.len(),
            forall|i: int|
                0 <= i < self.players@.len() ==> r@[i] == (#[trigger] self.players@[i]).session.name,
    {
        let mut r: Vec<String> = Vec::new();
        let mut i: usize = 0;
        while i < self.players.len()
            invariant
                i <= self.players@.len(),
                r@.len() == i,
                forall|j: int| 0 <= j < i ==> r@[j] == (#[trigger] self.players@[j]).session.name,
            decreases self.players@.len() - i,
        {
            r.push(self.players[i].session.name.clone());
            i += 1;
        }
        r
    }

    /// The public status: identifier, member names, and the public
    /// projection of the lifecycle state.
    pub fn get_status(&self) -> (r: Result<GameStatus, Error>)
        requires
            self.wf(),
        ensures
            r matches Ok(st) && st.uid == self.uid && st.player_names@.len()
                == self.players@.len() && (forall|i: int|
                0 <= i < self.players@.len() ==> st.player_names@[i] == (
                #[trigger] self.players@[i]).session.name) && projects(self.state, st.state),
    {
        let state = match PublicInnerState::try_from(&self.state) {
            Ok(ps) => ps,
            Err(e) => {
                return Err(e);
            },
        };
        Ok(GameStatus { uid: self.uid, player_names: self.copy_names(), state })
    }

    /// The public status, augmented with the caller's own role snapshot;
    /// a caller that is not a member is rejected as unauthorized.
    pub fn get_status_authenticated(&self, name: &String) -> (r: Result<
        AuthenticatedGameStatus,
        Error,
    >)
        requires
            self.wf(),
        ensures
            r is Ok <==> self.has_member(name@),
            !self.has_member(name@) ==> (r matches Err(e) && e == Error::Unauthorized),
            r matches Ok(st) ==> st.uid == self.uid && st.player_names@.len()
                == self.players@.len() && (forall|i: int|
                0 <= i < self.players@.len() ==> st.player_names@[i] == (
                #[trigger] self.players@[i]).session.name) && projects(self.state, st.state)
                && st.player_state == spec_player_state(self.member(name@)),
    {
        let i = match self.find_player_index(name) {
            Some(i) => i,
            None => {
                return Err(Error::Unauthorized);
            },
        };
        proof {
            lemma_key_index_unique(self.pmodel(), name@, i as int);
        }
        let player_state = self.players[i].state();
        let state = match PublicInnerState::try_from(&self.state) {
            Ok(ps) => ps,
            Err(e) => {
                return Err(e);
            },
        };
        Ok(
            AuthenticatedGameStatus {
                uid: self.uid,
                player_names: self.copy_names(),
                player_state,
                state,
            },
        )
    }

    /// The recorded assignment of every member, in join order.
    fn collect_roles(&self) -> (r: Vec<(String, Role)>)
        requires
            self.all_assigned(),
        ensures
            roles_match(r@, *self),
    {
        let mut r: Vec<(String, Role)> = Vec::new();
        let mut i: usize = 0;
        while i < self.players.len()
            invariant
                i <= self.players@.len(),
                r@.len() == i,
                self.all_assigned(),
                forall|j: int|
                    0 <= j < i ==> (#[trigger] r@[j]).0@ == self.member_names()[j] && r@[j].1
                        == role_of_class(self.players@[j].class.unwrap()),
            decreases self.players@.len() - i,
        {
            let name = self.players[i].session.name.clone();
            let role = match &self.players[i].class {
                Some(c) => c.role(),
                None => {
                    proof {
                        assert(false);
                    }
                    Role::SuperHero
                },
            };
            r.push((name, role));
            i += 1;
        }
        r
    }

    /// Requests the end of play, legal only in game and only once the match
    /// has run for at least [`END_FLOOR_SECS`] seconds on the caller's
    /// clock; voting then opens with no ballots. Anything else rejects
    /// without mutation.
    pub fn end(&mut self, now: u64) -> (r: Result<(), Error>)
        requires
            old(self).wf(),
        ensures
            final(self).wf(),
            final(self).uid == old(self).uid,
            r is Ok <==> (old(self).state matches InnerState::InGame { start } && now >= start
                + END_FLOOR_SECS),
            r is Err ==> *final(self) == *old(self) && (r matches Err(e) && e
                == Error::IncorrectState),
            r is Ok ==> final(self).players == old(self).players
                && (final(self).state matches InnerState::Voting { votes } && votes@.len() == 0),
    {
        let ok = match &self.state {
            InnerState::InGame { start } => {
                let s: u64 = *start;
                now >= s && now - s >= END_FLOOR_SECS
            },
            _ => false,
        };
        if ok {
            let votes: Vec<(String, Ballot)> = Vec::new();
            proof {
                assert(vmodel(votes@) =~= Seq::<(Seq<char>, Ballot)>::empty());
            }
            self.state = InnerState::Voting { votes };
            Ok(())
        } else {
            Err(Error::IncorrectState)
        }
    }
}

impl GameState {
    /// The index of the voter's ballot in the ballot boxes.
    fn find_ballot_index(votes: &Vec<(String, Ballot)>, name: &String) -> (r: Option<usize>)
        ensures
            match r {
                Some(i) => i < votes@.len() && vmodel(votes@)[i as int].0 == name@ && has_key(
                    vmodel(votes@),
                    name@,
                ),
                None => !has_key(vmodel(votes@), name@),
            },
    {
        let mut i: usize = 0;
        while i < votes.len()
            invariant
                i <= votes@.len(),
                forall|j: int| 0 <= j < i ==> (#[trigger] vmodel(votes@)[j]).0 != name@,
            decreases votes@.len() - i,
        {
            if votes[i].0 == *name {
                assert(vmodel(votes@)[i as int].0 == name@);
                return Some(i);
            }
            i += 1;
        }
        None
    }

    /// Casts a ballot, legal only while voting is open, once per member.
    /// The fifth ballot completes the vote: the game moves to its end state,
    /// capturing the ballots and recording the true assignments; with fewer
    /// ballots voting stays open. Anything else rejects without mutation.
    pub fn add_votes(&mut self, name: String, ballots: Ballot) -> (r: Result<(), Error>)
        requires
            old(self).wf(),
        ensures
            final(self).wf(),
            final(self).uid == old(self).uid,
            r is Ok <==> (old(self).state matches InnerState::Voting { votes } && old(self).has_member(name@) && !has_key(vmodel(votes@), name@)),
            r is Err ==> *final(self) == *old(self),
            !(old(self).state is Voting) ==> (r matches Err(e) && e == Error::IncorrectState),
            (old(self).state is Voting && !old(self).has_member(name@)) ==> (r matches Err(e) && e
                == Error::NotInGame),
            (old(self).state matches InnerState::Voting { votes } && old(self).has_member(name@)
                && has_key(vmodel(votes@), name@)) ==> (r matches Err(e) && e
                == Error::VotesClosed),
            r is Ok ==> vote_outcome(*old(self), *final(self), name, ballots),
    {
        let mut st = InnerState::Setup;
        core::mem::swap(&mut self.state, &mut st);
        match st {
            InnerState::Voting { mut votes } => {
                if self.find_player_index(&name).is_none() {
                    self.state = InnerState::Voting { votes };
                    return Err(Error::NotInGame);
                }
                if Self::find_ballot_index(&votes, &name).is_some() {
                    self.state = InnerState::Voting { votes };
                    return Err(Error::VotesClosed);
                }
                let ghost pre_votes = votes@;
                let full = votes.len() == 4;
                votes.push((name, ballots));
                proof {
                    assert(vmodel(votes@) =~= vmodel(pre_votes).push(
                        (vmodel(votes@)[pre_votes.len() as int].0, ballots),
                    ));
                    lemma_push_entry(
                        vmodel(pre_votes),
                        vmodel(votes@)[pre_votes.len() as int].0,
                        ballots,
                    );
                }
                if full {
                    let roles = self.collect_roles();
                    self.state = InnerState::End { votes, roles };
                } else {
                    self.state = InnerState::Voting { votes };
                }
                Ok(())
            },
            other => {
                self.state = other;
                Err(Error::IncorrectState)
            },
        }
    }
}

/// The outcome of starting from setup: the game is drafted, the drawn
/// composition is assigned to the members in join order, and each member's
/// mailbox receives exactly its own role announcement.
pub open spec fn draft_outcome(
    pre: GameState,
    post: GameState,
    preb: MailboxStore,
    postb: MailboxStore,
) -> bool {
    &&& post.state is Draft
    &&& post.players@.len() == 5
    &&& valid_composition(post.assigned_roles())
    &&& forall|i: int|
        0 <= i < 5 ==> (#[trigger] post.players@[i]).session == pre.players@[i].session
    &&& forall|i: int|
        0 <= i < 5 ==> (#[trigger] post.players@[i]).class == Some(
            fresh_class_of(post.assigned_roles()[i]),
        )
    &&& forall|i: int|
        0 <= i < 5 ==> #[trigger] postb.msgs(pre.member_names()[i]) == preb.msgs(
            pre.member_names()[i],
        ).push(Message::Role { role: post.assigned_roles()[i] })
    &&& forall|k: Seq<char>|
        !pre.member_names().contains(k) && preb.has_box(k) ==> #[trigger] postb.msgs(k)
            == preb.msgs(k)
}

/// The outcome of starting from draft: play begins at the given instant and
/// every member's behaviour runs its initialize step against that member's
/// own mailbox.
pub open spec fn ingame_outcome(
    pre: GameState,
    post: GameState,
    preb: MailboxStore,
    postb: MailboxStore,
    now: u64,
) -> bool {
    &&& post.state == (InnerState::InGame { start: now })
    &&& post.players@.len() == 5
    &&& forall|i: int|
        0 <= i < 5 ==> (#[trigger] post.players@[i]).session == pre.players@[i].session
    &&& forall|i: int|
        0 <= i < 5 ==> preb.msgs(#[trigger] pre.member_names()[i]).is_prefix_of(
            postb.msgs(pre.member_names()[i]),
        )
    &&& forall|i: int|
        0 <= i < 5 ==> class_init_step(
            (#[trigger] pre.players@[i]).class.unwrap(),
            post.players@[i].class.unwrap(),
            postb.msgs(pre.member_names()[i]).skip(preb.msgs(pre.member_names()[i]).len() as int),
        )
    &&& forall|k: Seq<char>|
        !pre.member_names().contains(k) && preb.has_box(k) ==> #[trigger] postb.msgs(k)
            == preb.msgs(k)
}

/// The outcome of one feed sample: the lifecycle state and the membership
/// are kept, and every member's behaviour runs its on-tick step against
/// that member's own mailbox.
pub open spec fn tick_outcome(
    pre: GameState,
    post: GameState,
    preb: MailboxStore,
    postb: MailboxStore,
    t: u64,
) -> bool {
    &&& post.state == pre.state
    &&& post.players@.len() == pre.players@.len()
    &&& forall|i: int|
        0 <= i < pre.players@.len() ==> (#[trigger] post.players@[i]).session
            == pre.players@[i].session
    &&& forall|i: int|
        0 <= i < pre.players@.len() ==> preb.msgs(#[trigger] pre.member_names()[i]).is_prefix_of(
            postb.msgs(pre.member_names()[i]),
        )
    &&& forall|i: int|
        0 <= i < pre.players@.len() ==> class_step(
            (#[trigger] pre.players@[i]).class.unwrap(),
            post.players@[i].class.unwrap(),
            t,
            postb.msgs(pre.member_names()[i]).skip(preb.msgs(pre.member_names()[i]).len() as int),
        )
    &&& forall|k: Seq<char>|
        !pre.member_names().contains(k) && preb.has_box(k) ==> #[trigger] postb.msgs(k)
            == preb.msgs(k)
}

impl GameState {
    /// Under unique membership, the member names are pairwise distinct.
    proof fn lemma_names_distinct(self)
        requires
            distinct_keys(self.pmodel()),
        ensures
            forall|a: int, b: int|
                0 <= a < b < self.member_names().len() ==> self.member_names()[a]
                    != self.member_names()[b],
    {
        assert forall|a: int, b: int|
            0 <= a < b < self.member_names().len() implies self.member_names()[a]
            != self.member_names()[b] by {
            assert(self.pmodel()[a].0 == self.member_names()[a]);
            assert(self.pmodel()[b].0 == self.member_names()[b]);
        }
    }

    /// Starts the game: from setup, with exactly five members, a composition
    /// is drawn and assigned and the game is drafted; from draft, play
    /// begins at the given instant and every behaviour is initialized.
    /// Anything else rejects without mutation.
    pub fn start(&mut self, now: u64, boxes: &mut MailboxStore) -> (r: Result<(), Error>)
        requires
            old(self).wf(),
            old(boxes).wf(),
            old(self).boxes_cover(*old(boxes)),
        ensures
            final(self).wf(),
            final(boxes).wf(),
            final(self).uid == old(self).uid,
            forall|k: Seq<char>| #[trigger] final(boxes).has_box(k) <==> old(boxes).has_box(k),
            r is Ok <==> ((old(self).state is Setup && old(self).players@.len() == 5) || old(self).state is Draft),
            (old(self).state is Setup && old(self).players@.len() < 5) ==> (r matches Err(e) && e
                == Error::NotEnoughPlayers),
            !(old(self).state is Setup || old(self).state is Draft) ==> (r matches Err(e) && e
                == Error::IncorrectState),
            r is Err ==> *final(self) == *old(self) && *final(boxes) == *old(boxes),
            (old(self).state is Setup && r is Ok) ==> draft_outcome(
                *old(self),
                *final(self),
                *old(boxes),
                *final(boxes),
            ),
            old(self).state is Draft ==> ingame_outcome(
                *old(self),
                *final(self),
                *old(boxes),
                *final(boxes),
                now,
            ),
    {
        let is_setup = matches!(&self.state, InnerState::Setup);
        let is_draft = matches!(&self.state, InnerState::Draft);
        if is_setup {
            if self.players.len() != 5 {
                return Err(Error::NotEnoughPlayers);
            }
            let comp = generate_composition();
            let ghost pre_self = *self;
            let ghost pre_boxes = *boxes;
            let ghost names = self.member_names();
            proof {
                pre_self.lemma_names_distinct();
            }
            let mut i: usize = 0;
            while i < 5
                invariant
                    i <= 5,
                    comp@.len() == 5,
                    valid_composition(comp@),
                    self.players@.len() == 5,
                    self.uid == pre_self.uid,
                    self.state == pre_self.state,
                    pre_self.wf(),
                    pre_self.state is Setup,
                    names == pre_self.member_names(),
                    names.len() == 5,
                    forall|a: int, b: int| 0 <= a < b < 5 ==> names[a] != names[b],
                    pre_self.boxes_cover(pre_boxes),
                    boxes.wf(),
                    forall|k: Seq<char>| #[trigger] boxes.has_box(k) <==> pre_boxes.has_box(k),
                    forall|j: int|
                        0 <= j < 5 ==> (#[trigger] self.players@[j]).session
                            == pre_self.players@[j].session,
                    forall|j: int|
                        i <= j < 5 ==> (#[trigger] self.players@[j]).class
                            == pre_self.players@[j].class,
                    forall|j: int|
                        0 <= j < i ==> (#[trigger] self.players@[j]).class == Some(
                            fresh_class_of(comp@[j]),
                        ),
                    forall|j: int|
                        0 <= j < i ==> #[trigger] boxes.msgs(names[j]) == pre_boxes.msgs(
                            names[j],
                        ).push(Message::Role { role: comp@[j] }),
                    forall|k: Seq<char>|
                        !names.take(i as int).contains(k) && pre_boxes.has_box(k)
                            ==> #[trigger] boxes.msgs(k) == pre_boxes.msgs(k),
                decreases 5 - i,
            {
                let role = comp[i];
                let name = self.players[i].session.name.clone();
                proof {
                    assert(names[i as int] == name@);
                    assert(pre_boxes.has_box(name@));
                    assert(!names.take(i as int).contains(name@)) by {
                        if names.take(i as int).contains(name@) {
                            let j = choose|j: int|
                                0 <= j < i && #[trigger] names.take(i as int)[j] == name@;
                            assert(names[j] == names[i as int]);
                        }
                    }
                }
                let p = &mut self.players[i];
                p.class = Some(PlayerClass::from(role));
                boxes.push_to(&name, Message::Role { role });
                proof {
                    assert forall|k: Seq<char>|
                        !names.take(i as int + 1).contains(k) && pre_boxes.has_box(
                            k,
                        ) implies #[trigger] boxes.msgs(k) == pre_boxes.msgs(k) by {
                        assert(!names.take(i as int).contains(k)) by {
                            if names.take(i as int).contains(k) {
                                let j = choose|j: int|
                                    0 <= j < i && #[trigger] names.take(i as int)[j] == k;
                                assert(names.take(i as int + 1)[j] == k);
                            }
                        }
                        assert(k != name@) by {
                            assert(names.take(i as int + 1)[i as int] == name@);
                        }
                    }
                }
                i += 1;
            }
            self.state = InnerState::Draft;
            proof {
                assert forall|a: int, b: int|
                    0 <= a < b < self.pmodel().len() implies (#[trigger] self.pmodel()[a]).0 != (
                #[trigger] self.pmodel()[b]).0 by {
                    assert(self.pmodel()[a].0 == names[a]);
                    assert(self.pmodel()[b].0 == names[b]);
                }
                assert(self.assigned_roles() =~= comp@) by {
                    assert forall|j: int| 0 <= j < 5 implies #[trigger] self.assigned_roles()[j]
                        == comp@[j] by {
                        crate::classes::lemma_fresh_class_role(comp@[j]);
                    }
                }
                assert forall|k: Seq<char>|
                    !names.contains(k) && pre_boxes.has_box(k) implies #[trigger] boxes.msgs(k)
                    == pre_boxes.msgs(k) by {
                    assert(!names.take(5int).contains(k)) by {
                        if names.take(5int).contains(k) {
                            let j = choose|j: int| 0 <= j < 5 && #[trigger] names.take(5int)[j]
                                == k;
                            assert(names[j] == k);
                        }
                    }
                }
            }
            Ok(())
        } else if is_draft {
            let ghost pre_self = *self;
            let ghost pre_boxes = *boxes;
            let ghost names = self.member_names();
            proof {
                pre_self.lemma_names_distinct();
            }
            let mut i: usize = 0;
            while i < 5
                invariant
                    i <= 5,
                    self.players@.len() == 5,
                    self.uid == pre_self.uid,
                    self.state == pre_self.state,
                    pre_self.wf(),
                    pre_self.state is Draft,
                    names == pre_self.member_names(),
                    names.len() == 5,
                    forall|a: int, b: int| 0 <= a < b < 5 ==> names[a] != names[b],
                    pre_self.boxes_cover(pre_boxes),
                    boxes.wf(),
                    forall|k: Seq<char>| #[trigger] boxes.has_box(k) <==> pre_boxes.has_box(k),
                    forall|j: int|
                        0 <= j < 5 ==> (#[trigger] self.players@[j]).session
                            == pre_self.players@[j].session,
                    forall|j: int|
                        i <= j < 5 ==> (#[trigger] self.players@[j]).class
                            == pre_self.players@[j].class,
                    forall|j: int| 0 <= j < 5 ==> (#[trigger] self.players@[j]).class is Some,
                    forall|j: int|
                        0 <= j < i ==> pre_boxes.msgs(#[trigger] names[j]).is_prefix_of(
                            boxes.msgs(names[j]),
                        ),
                    forall|j: int|
                        0 <= j < i ==> class_init_step(
                            (#[trigger] pre_self.players@[j]).class.unwrap(),
                            self.players@[j].class.unwrap(),
                            boxes.msgs(names[j]).skip(pre_boxes.msgs(names[j]).len() as int),
                        ),
                    forall|k: Seq<char>|
                        !names.take(i as int).contains(k) && pre_boxes.has_box(k)
                            ==> #[trigger] boxes.msgs(k) == pre_boxes.msgs(k),
                decreases 5 - i,
            {
                let name = self.players[i].session.name.clone();
                proof {
                    assert(names[i as int] == name@);
                    assert(pre_boxes.has_box(name@));
                    assert(!names.take(i as int).contains(name@)) by {
                        if names.take(i as int).contains(name@) {
                            let j = choose|j: int|
                                0 <= j < i && #[trigger] names.take(i as int)[j] == name@;
                            assert(names[j] == names[i as int]);
                        }
                    }
                    assert(boxes.msgs(name@) == pre_boxes.msgs(name@));
                }
                let copt = self.players[i].class;
                let mut c = match copt {
                    Some(c) => c,
                    None => {
                        proof {
                            assert(false);
                        }
                        PlayerClass::from(Role::SuperHero)
                    },
                };
                let ghost pre_c = c;
                let ghost box_mid = *boxes;
                c.init(&name, boxes);
                let p = &mut self.players[i];
                p.class = Some(c);
                proof {
                    assert forall|k: Seq<char>|
                        !names.take(i as int + 1).contains(k) && pre_boxes.has_box(
                            k,
                        ) implies #[trigger] boxes.msgs(k) == pre_boxes.msgs(k) by {
                        assert(!names.take(i as int).contains(k)) by {
                            if names.take(i as int).contains(k) {
                                let j = choose|j: int|
                                    0 <= j < i && #[trigger] names.take(i as int)[j] == k;
                                assert(names.take(i as int + 1)[j] == k);
                            }
                        }
                        assert(k != name@) by {
                            assert(names.take(i as int + 1)[i as int] == name@);
                        }
                        assert(box_mid.msgs(k) == pre_boxes.msgs(k));
                    }
                    assert(class_init_step(
                        pre_c,
                        c,
                        boxes.msgs(name@).skip(pre_boxes.msgs(name@).len() as int),
                    ));
                }
                i += 1;
            }
            self.state = InnerState::InGame { start: now };
            proof {
                assert forall|a: int, b: int|
                    0 <= a < b < self.pmodel().len() implies (#[trigger] self.pmodel()[a]).0 != (
                #[trigger] self.pmodel()[b]).0 by {
                    assert(self.pmodel()[a].0 == names[a]);
                    assert(self.pmodel()[b].0 == names[b]);
                }
                assert forall|k: Seq<char>|
                    !names.contains(k) && pre_boxes.has_box(k) implies #[trigger] boxes.msgs(k)
                    == pre_boxes.msgs(k) by {
                    assert(!names.take(5int).contains(k)) by {
                        if names.take(5int).contains(k) {
                            let j = choose|j: int| 0 <= j < 5 && #[trigger] names.take(5int)[j]
                                == k;
                            assert(names[j] == k);
                        }
                    }
                }
            }
            Ok(())
        } else {
            Err(Error::IncorrectState)
        }
    }

    /// Forwards one feed sample to every member's behaviour, legal only
    /// while play runs; anything else rejects without mutation.
    pub fn tick(&mut self, elapsed: u64, boxes: &mut MailboxStore) -> (r: Result<(), Error>)
        requires
            old(self).wf(),
            old(boxes).wf(),
            old(self).boxes_cover(*old(boxes)),
        ensures
            final(self).wf(),
            final(boxes).wf(),
            final(self).uid == old(self).uid,
            forall|k: Seq<char>| #[trigger] final(boxes).has_box(k) <==> old(boxes).has_box(k),
            r is Ok <==> old(self).state is InGame,
            r is Err ==> *final(self) == *old(self) && *final(boxes) == *old(boxes) && (
            r matches Err(e) && e == Error::IncorrectState),
            r is Ok ==> tick_outcome(
                *old(self),
                *final(self),
                *old(boxes),
                *final(boxes),
                elapsed,
            ),
    {
        if !(matches!(&self.state, InnerState::InGame { .. })) {
            return Err(Error::IncorrectState);
        }
        let ghost pre_self = *self;
        let ghost pre_boxes = *boxes;
        let ghost names = self.member_names();
        proof {
            pre_self.lemma_names_distinct();
        }
        let n = self.players.len();
        let mut i: usize = 0;
        while i < n
            invariant
                i <= n,
                n == self.players@.len(),
                self.players@.len() == pre_self.players@.len(),
                self.uid == pre_self.uid,
                self.state == pre_self.state,
                pre_self.wf(),
                pre_self.state is InGame,
                names == pre_self.member_names(),
                names.len() == n,
                forall|a: int, b: int| 0 <= a < b < n ==> names[a] != names[b],
                pre_self.boxes_cover(pre_boxes),
                boxes.wf(),
                forall|k: Seq<char>| #[trigger] boxes.has_box(k) <==> pre_boxes.has_box(k),
                forall|j: int|
                    0 <= j < n ==> (#[trigger] self.players@[j]).session
                        == pre_self.players@[j].session,
                forall|j: int|
                    i <= j < n ==> (#[trigger] self.players@[j]).class
                        == pre_self.players@[j].class,
                forall|j: int| 0 <= j < n ==> (#[trigger] self.players@[j]).class is Some,
                forall|j: int|
                    0 <= j < i ==> pre_boxes.msgs(#[trigger] names[j]).is_prefix_of(
                        boxes.msgs(names[j]),
                    ),
                forall|j: int|
                    0 <= j < i ==> class_step(
                        (#[trigger] pre_self.players@[j]).class.unwrap(),
                        self.players@[j].class.unwrap(),
                        elapsed,
                        boxes.msgs(names[j]).skip(pre_boxes.msgs(names[j]).len() as int),
                    ),
                forall|k: Seq<char>|
                    !names.take(i as int).contains(k) && pre_boxes.has_box(k)
                        ==> #[trigger] boxes.msgs(k) == pre_boxes.msgs(k),
            decreases n - i,
        {
            let name = self.players[i].session.name.clone();
            proof {
                assert(names[i as int] == name@);
                assert(pre_boxes.has_box(name@));
                assert(!names.take(i as int).contains(name@)) by {
                    if names.take(i as int).contains(name@) {
                        let j = choose|j: int|
                            0 <= j < i && #[trigger] names.take(i as int)[j] == name@;
                        assert(names[j] == names[i as int]);
                    }
                }
                assert(boxes.msgs(name@) == pre_boxes.msgs(name@));
            }
            let copt = self.players[i].class;
            let mut c = match copt {
                Some(c) => c,
                None => {
                    proof {
                        assert(false);
                    }
                    PlayerClass::from(Role::SuperHero)
                },
            };
            let ghost pre_c = c;
            let ghost box_mid = *boxes;
            c.update(elapsed, &name, boxes);
            let p = &mut self.players[i];
            p.class = Some(c);
            proof {
                assert forall|k: Seq<char>|
                    !names.take(i as int + 1).contains(k) && pre_boxes.has_box(
                        k,
                    ) implies #[trigger] boxes.msgs(k) == pre_boxes.msgs(k) by {
                    assert(!names.take(i as int).contains(k)) by {
                        if names.take(i as int).contains(k) {
                            let j = choose|j: int|
                                0 <= j < i && #[trigger] names.take(i as int)[j] == k;
                            assert(names.take(i as int + 1)[j] == k);
                        }
                    }
                    assert(k != name@) by {
                        assert(names.take(i as int + 1)[i as int] == name@);
                    }
                    assert(box_mid.msgs(k) == pre_boxes.msgs(k));
                }
                assert(class_step(
                    pre_c,
                    c,
                    elapsed,
                    boxes.msgs(name@).skip(pre_boxes.msgs(name@).len() as int),
                ));
            }
            i += 1;
        }
        proof {
            assert forall|a: int, b: int|
                0 <= a < b < self.pmodel().len() implies (#[trigger] self.pmodel()[a]).0 != (
            #[trigger] self.pmodel()[b]).0 by {
                assert(self.pmodel()[a].0 == names[a]);
                assert(self.pmodel()[b].0 == names[b]);
            }
            assert forall|k: Seq<char>|
                !names.contains(k) && pre_boxes.has_box(k) implies #[trigger] boxes.msgs(k)
                == pre_boxes.msgs(k) by {
                assert(!names.take(n as int).contains(k)) by {
                    if names.take(n as int).contains(k) {
                        let j = choose|j: int| 0 <= j < n && #[trigger] names.take(n as int)[j]
                            == k;
                        assert(names[j] == k);
                    }
                }
            }
        }
        Ok(())
    }
}

/// Vote completion, the open side: while a well-formed game is collecting
/// ballots, the ballots are a proper subset of the membership — strictly
/// fewer than the five members, each cast by a member, no voter twice.
pub proof fn lemma_voting_ballots_open(g: GameState)
    requires
        g.wf(),
    ensures
        match g.state {
            InnerState::Voting { votes } => {
                &&& votes@.len() < g.players@.len()
                &&& distinct_keys(vmodel(votes@))
                &&& forall|i: int|
                    0 <= i < votes@.len() ==> g.has_member((#[trigger] votes@[i]).0@)
            },
            _ => true,
        },
{
}

/// Role uniqueness under initialization: beginning play initializes every
/// behaviour but assigns no new role — each member keeps the role drafted
/// for it.
pub proof fn lemma_init_keeps_roles(
    pre: GameState,
    post: GameState,
    preb: MailboxStore,
    postb: MailboxStore,
    now: u64,
)
    requires
        pre.wf(),
        post.wf(),
        pre.state is Draft,
        ingame_outcome(pre, post, preb, postb, now),
    ensures
        forall|i: int|
            0 <= i < 5 ==> spec_player_role(#[trigger] post.players@[i]) == spec_player_role(
                pre.players@[i],
            ),
{
    assert forall|i: int| 0 <= i < 5 implies spec_player_role(#[trigger] post.players@[i])
        == spec_player_role(pre.players@[i]) by {
        assert(pre.players@[i].class is Some);
        assert(post.players@[i].class is Some);
        crate::classes::lemma_step_keeps_role(
            pre.players@[i].class.unwrap(),
            post.players@[i].class.unwrap(),
            0,
            postb.msgs(pre.member_names()[i]).skip(preb.msgs(pre.member_names()[i]).len() as int),
        );
    }
}

/// Role uniqueness under ticks: a feed sample may advance every behaviour's
/// private state but never changes the role it runs for.
pub proof fn lemma_tick_keeps_roles(
    pre: GameState,
    post: GameState,
    preb: MailboxStore,
    postb: MailboxStore,
    t: u64,
)
    requires
        pre.wf(),
        post.wf(),
        pre.state is InGame,
        tick_outcome(pre, post, preb, postb, t),
    ensures
        forall|i: int|
            0 <= i < pre.players@.len() ==> spec_player_role(#[trigger] post.players@[i])
                == spec_player_role(pre.players@[i]),
{
    assert forall|i: int| 0 <= i < pre.players@.len() implies spec_player_role(
        #[trigger] post.players@[i],
    ) == spec_player_role(pre.players@[i]) by {
        assert(pre.players@[i].class is Some);
        assert(post.players@[i].class is Some);
        crate::classes::lemma_step_keeps_role(
            pre.players@[i].class.unwrap(),
            post.players@[i].class.unwrap(),
            t,
            postb.msgs(pre.member_names()[i]).skip(preb.msgs(pre.member_names()[i]).len() as int),
        );
    }
}

} // verus!
