//! The operations the transport layer calls: each one is the computing part
//! of one route, working on the registry; reading the clock, the sockets and
//! the environment stays with the program around the library.

use crate::error::Error;
use crate::game::AuthenticatedGameStatus;
use crate::game::GameStatus;
use crate::mailbox::MailboxStore;
use crate::messages::Message;
use crate::session::token_of;
use crate::session::valid_name;
use crate::session::LoginForm;
use crate::session::UserSession;
use crate::state::State;
use vstd::prelude::*;

verus! {

/// Logs a name in: validates it, ensures its mailbox exists, and signs a
/// bearer token under the secret. A valid name is owed its token; a name
/// out of range is rejected as invalid and mutates nothing.
pub fn login(state: &mut State, form: LoginForm, secret: &str) -> (r: Result<String, Error>)
    requires
        old(state).wf(),
    ensures
        final(state).wf(),
        r is Err ==> (r matches Err(e) && e == Error::InvalidName) && *final(state) == *old(state),
        !valid_name(form.name@) && vstd::utf8::encode_utf8(form.name@).len() <= usize::MAX
            ==> r is Err,
        valid_name(form.name@) ==> {
            &&& final(state).games == old(state).games
            &&& final(state).messages.has_box(form.name@)
            &&& (old(state).messages.has_box(form.name@) ==> final(state).messages.model() == old(state).messages.model())
            &&& (!old(state).messages.has_box(form.name@) ==> final(state).messages.msgs(
                form.name@,
            ) =~= seq![Message::Hi])
            &&& (forall|n: Seq<char>|
                n != form.name@ && old(state).messages.has_box(n) ==> #[trigger] final(state).messages.msgs(n) == old(state).messages.msgs(n))
            &&& (r matches Ok(t) && t@ == token_of(secret@, form.name@))
        },
{
    let session = match UserSession::new(form.name) {
        Ok(s) => s,
        Err(e) => {
            return Err(e);
        },
    };
    state.get_or_create_proxy(&session.name);
    session.encode(secret)
}

/// Long-poll drain: hands over everything buffered for the name, in push
/// order; a name that has never logged in has no mailbox and is not found.
pub fn get_updates(state: &mut State, name: &String) -> (r: Result<Vec<Message>, Error>)
    requires
        old(state).wf(),
    ensures
        final(state).wf(),
        final(state).games == old(state).games,
        forall|n: Seq<char>| #[trigger]
            final(state).messages.has_box(n) <==> old(state).messages.has_box(n),
        r is Ok <==> old(state).messages.has_box(name@),
        !old(state).messages.has_box(name@) ==> (r matches Err(e) && e == Error::NotFound)
            && *final(state) == *old(state),
        r matches Ok(v) ==> v@ == old(state).messages.msgs(name@) && final(state).messages.msgs(
            name@,
        ) == Seq::<Message>::empty() && (forall|n: Seq<char>|
            n != name@ && old(state).messages.has_box(n) ==> #[trigger] final(state).messages.msgs(
                n,
            ) == old(state).messages.msgs(n)),
{
    match state.messages.drain_box(name) {
        Some(v) => Ok(v),
        None => Err(Error::NotFound),
    }
}

/// The public status of the game under the identifier.
pub fn get_game(state: &State, id: u128) -> (r: Result<GameStatus, Error>)
    requires
        state.wf(),
    ensures
        r is Ok <==> state.has_game(id),
        !state.has_game(id) ==> (r matches Err(e) && e == Error::NotFound),
        r matches Ok(st) ==> st.uid == state.game_of(id).uid && st.player_names@.len()
            == state.game_of(id).players@.len() && (forall|i: int|
            0 <= i < state.game_of(id).players@.len() ==> st.player_names@[i] == (
            #[trigger] state.game_of(id).players@[i]).session.name) && crate::game::projects(
            state.game_of(id).state,
            st.state,
        ),
{
    let g = match state.get_game_by_id(id) {
        Some(g) => g,
        None => {
            return Err(Error::NotFound);
        },
    };
    proof {
        let i = crate::assoc::key_index(state.games@, id);
        assert(0 <= i < state.games@.len() && state.games@[i].0 == id);
    }
    g.get_status()
}

/// The status of the game under the identifier, augmented with the caller's
/// own role snapshot; a caller that is not a member is unauthorized.
pub fn get_game_authenticated(state: &State, name: &String, id: u128) -> (r: Result<
    AuthenticatedGameStatus,
    Error,
>)
    requires
        state.wf(),
    ensures
        !state.has_game(id) ==> (r matches Err(e) && e == Error::NotFound),
        state.has_game(id) && !state.game_of(id).has_member(name@) ==> (r matches Err(e) && e
            == Error::Unauthorized),
        r is Ok <==> (state.has_game(id) && state.game_of(id).has_member(name@)),
        r matches Ok(st) ==> st.uid == state.game_of(id).uid && st.player_names@.len()
            == state.game_of(id).players@.len() && crate::game::projects(
            state.game_of(id).state,
            st.state,
        ) && st.player_state == crate::game::spec_player_state(
            state.game_of(id).member(name@),
        ),
{
    let g = match state.get_game_by_id(id) {
        Some(g) => g,
        None => {
            return Err(Error::NotFound);
        },
    };
    proof {
        let i = crate::assoc::key_index(state.games@, id);
        assert(0 <= i < state.games@.len() && state.games@[i].0 == id);
    }
    g.get_status_authenticated(name)
}

/// The status of the caller's current game, with the caller's own snapshot;
/// a caller in no game is not found.
pub fn get_current_game_authenticated(state: &State, name: &String) -> (r: Result<
    AuthenticatedGameStatus,
    Error,
>)
    requires
        state.wf(),
    ensures
        r is Ok <==> crate::state::in_some_game(state.games@, name@),
        !crate::state::in_some_game(state.games@, name@) ==> (r matches Err(e) && e
            == Error::NotFound),
        r matches Ok(st) ==> ({
            let g = state.games@[crate::state::first_game_index(state.games@, name@)].1;
            st.uid == g.uid && st.player_names@.len() == g.players@.len()
                && crate::game::projects(g.state, st.state) && st.player_state
                == crate::game::spec_player_state(g.member(name@))
        }),
{
    let i = match state.find_player_game_index(name) {
        Some(i) => i,
        None => {
            return Err(Error::NotFound);
        },
    };
    let r = state.games[i].1.get_status_authenticated(name);
    match r {
        Ok(st) => Ok(st),
        Err(e) => {
            proof {
                assert(false);
            }
            Err(e)
        },
    }
}

/// Creates a new game with the caller as its first member: the caller must
/// not already be in a game; the caller's mailbox is ensured and receives
/// the join announcement.
pub fn create_game(state: &mut State, session: UserSession) -> (r: Result<u128, Error>)
    requires
        old(state).wf(),
    ensures
        final(state).wf(),
        crate::state::in_some_game(old(state).games@, session.name@) ==> (r matches Err(e) && e
            == Error::AlreadyInGame) && final(state).games@ == old(state).games@ && final(state).messages == old(state).messages,
        r is Err ==> final(state).games@ == old(state).games@,
        !crate::state::in_some_game(old(state).games@, session.name@) ==> (r is Err ==> (
        r matches Err(e) && e is Internal)),
        (r matches Err(e) && e == Error::AlreadyInGame) ==> crate::state::in_some_game(
            old(state).games@,
            session.name@,
        ),
        r matches Ok(id) ==> {
            &&& !crate::state::in_some_game(old(state).games@, session.name@)
            &&& !old(state).has_game(id)
            &&& final(state).has_game(id)
            &&& final(state).game_of(id).state is Setup
            &&& final(state).game_of(id).players@.len() == 1
            &&& final(state).game_of(id).has_member(session.name@)
            &&& final(state).messages.has_box(session.name@)
            &&& (old(state).messages.has_box(session.name@) ==> final(state).messages.msgs(
                session.name@,
            ) == old(state).messages.msgs(session.name@).push(
                Message::PlayerJoin { name: session.name },
            ))
            &&& (!old(state).messages.has_box(session.name@) ==> final(state).messages.msgs(
                session.name@,
            ) =~= seq![Message::Hi, Message::PlayerJoin { name: session.name }])
            &&& (forall|n: Seq<char>|
                n != session.name@ && old(state).messages.has_box(n) ==> #[trigger] final(state).messages.msgs(n) == old(state).messages.msgs(n))
            &&& (forall|j: u128|
                j != id ==> (#[trigger] final(state).has_game(j) <==> old(state).has_game(j)))
            &&& (forall|j: u128|
                j != id && old(state).has_game(j) ==> #[trigger] final(state).game_of(j) == old(state).game_of(j))
        },
{
    if state.find_player_game_index(&session.name).is_some() {
        return Err(Error::AlreadyInGame);
    }
    let name = session.name.clone();
    state.get_or_create_proxy(&name);
    let ghost mid = *state;
    let id = match state.create_game() {
        Ok(id) => id,
        Err(e) => {
            return Err(e);
        },
    };
    let ghost midc = *state;
    let i = match state.find_game_index(id) {
        Some(i) => i,
        None => {
            proof {
                assert(false);
            }
            0
        },
    };
    proof {
        crate::assoc::lemma_key_index_unique(state.games@, id, i as int);
    }
    let ghost pre_games = state.games@;
    let add_result = state.games[i].1.add_player(session);
    match add_result {
        Ok(()) => {},
        Err(_) => {
            proof {
                assert(false);
            }
            return Err(Error::IncorrectState);
        },
    }
    proof {
        assert(state.games@ =~= pre_games.update(i as int, (id, state.games@[i as int].1)));
        crate::assoc::lemma_update_entry(pre_games, i as int, state.games@[i as int].1);
    }
    let ghost updated = state.games@;
    let ghost mid2 = *state;
    let g = &state.games[i].1;
    g.broadcast_join(&name, &mut state.messages);
    proof {
        let g2 = state.games@[i as int].1;
        crate::assoc::lemma_key_index_unique(state.games@, id, i as int);
        assert(g2.pmodel()[0].0 == session.name@);
        assert(g2.has_member(session.name@));
        assert(g2.member_names()[0] == name@);
        assert(state.messages.msgs(name@) == mid2.messages.msgs(name@).push(
            Message::PlayerJoin { name: session.name },
        ));
        if !old(state).messages.has_box(session.name@) {
            assert(mid2.messages.msgs(name@) =~= seq![Message::Hi]);
            assert(state.messages.msgs(name@) =~= seq![
                Message::Hi,
                Message::PlayerJoin { name: session.name },
            ]);
        }
        assert(!old(state).has_game(id));
        assert(state.has_game(id));
        assert(state.game_of(id).state is Setup);
        assert(state.game_of(id).players@.len() == 1);
        assert(state.game_of(id).has_member(session.name@));
        assert(state.messages.has_box(session.name@));
        assert forall|j2: u128| j2 != id implies (#[trigger] state.has_game(j2) <==> old(state).has_game(j2)) by {
            assert(midc.has_game(j2) <==> old(state).has_game(j2));
            assert(state.has_game(j2) <==> midc.has_game(j2));
        }
        assert forall|j2: u128| j2 != id && old(state).has_game(j2) implies #[trigger] state.game_of(
            j2,
        ) == old(state).game_of(j2) by {
            assert(mid.has_game(j2));
            assert(midc.has_game(j2));
            assert(midc.game_of(j2) == old(state).game_of(j2));
            assert(midc.games@ == pre_games);
            assert(crate::assoc::has_key(pre_games, j2));
            assert(pre_games[i as int].0 == id);
            assert(state.games@ == updated);
            assert(updated == pre_games.update(
                i as int,
                (pre_games[i as int].0, updated[i as int].1),
            ));
            assert(crate::assoc::value_of(
                pre_games.update(i as int, (pre_games[i as int].0, updated[i as int].1)),
                j2,
            ) == crate::assoc::value_of(pre_games, j2));
            assert(state.game_of(j2) == midc.game_of(j2));
        }
        assert forall|n: Seq<char>|
            n != session.name@ && old(state).messages.has_box(n) implies #[trigger] state.messages.msgs(
            n,
        ) == old(state).messages.msgs(n) by {
            assert(!g2.member_names().contains(n)) by {
                if g2.member_names().contains(n) {
                    let j = choose|j: int|
                        0 <= j < g2.member_names().len() && #[trigger] g2.member_names()[j] == n;
                    assert(j == 0);
                }
            }
            assert(mid2.messages.msgs(n) == old(state).messages.msgs(n));
        }
    }
    Ok(id)
}

/// Joins the caller to the game under the identifier: the caller must not
/// already be in a game, the game must exist, be open, and have room; the
/// caller's mailbox is ensured, and every member, the joiner included,
/// receives the join announcement.
pub fn join_game(state: &mut State, session: UserSession, id: u128) -> (r: Result<(), Error>)
    requires
        old(state).wf(),
    ensures
        final(state).wf(),
        crate::state::in_some_game(old(state).games@, session.name@) ==> (r matches Err(e) && e
            == Error::AlreadyInGame) && final(state).games@ == old(state).games@ && final(state).messages == old(state).messages,
        !crate::state::in_some_game(old(state).games@, session.name@) && !old(state).has_game(id)
            ==> (r matches Err(e) && e == Error::NotFound) && final(state).games@ == old(state).games@,
        r is Err ==> final(state).games@ == old(state).games@,
        !crate::state::in_some_game(old(state).games@, session.name@) && old(state).has_game(id)
            ==> ({
            let g = old(state).game_of(id);
            &&& (r is Ok <==> (g.state is Setup && g.players@.len() < 5))
            &&& (!(g.state is Setup) ==> (r matches Err(e) && e == Error::IncorrectState))
            &&& (g.state is Setup && g.players@.len() >= 5 ==> (r matches Err(e) && e
                == Error::MaxPlayerReached))
        }),
        r is Ok ==> {
            &&& !crate::state::in_some_game(old(state).games@, session.name@)
            &&& old(state).has_game(id)
            &&& old(state).game_of(id).state is Setup
            &&& old(state).game_of(id).players@.len() < 5
            &&& !old(state).game_of(id).has_member(session.name@)
            &&& final(state).has_game(id)
            &&& final(state).game_of(id).players@ == old(state).game_of(id).players@.push(
                crate::game::Player { session, class: None },
            )
            &&& final(state).messages.has_box(session.name@)
            &&& (old(state).messages.has_box(session.name@) ==> final(state).messages.msgs(
                session.name@,
            ) == old(state).messages.msgs(session.name@).push(
                Message::PlayerJoin { name: session.name },
            ))
            &&& (!old(state).messages.has_box(session.name@) ==> final(state).messages.msgs(
                session.name@,
            ) =~= seq![Message::Hi, Message::PlayerJoin { name: session.name }])
            &&& (forall|j: int|
                0 <= j < old(state).game_of(id).players@.len() ==> #[trigger] final(state).messages.msgs(old(state).game_of(id).member_names()[j]) == old(state).messages.msgs(old(state).game_of(id).member_names()[j]).push(
                    Message::PlayerJoin { name: session.name },
                ))
            &&& (forall|j: u128|
                j != id ==> (#[trigger] final(state).has_game(j) <==> old(state).has_game(j)))
            &&& (forall|j: u128|
                j != id && old(state).has_game(j) ==> #[trigger] final(state).game_of(j) == old(state).game_of(j))
        },
{
    if state.find_player_game_index(&session.name).is_some() {
        return Err(Error::AlreadyInGame);
    }
    let name = session.name.clone();
    state.get_or_create_proxy(&name);
    let i = match state.find_game_index(id) {
        Some(i) => i,
        None => {
            return Err(Error::NotFound);
        },
    };
    proof {
        crate::assoc::lemma_key_index_unique(state.games@, id, i as int);
    }
    let ghost pre_games = state.games@;
    let ghost pre_game = state.games@[i as int].1;
    let add_result = state.games[i].1.add_player(session);
    match add_result {
        Ok(()) => {},
        Err(e) => {
            proof {
                assert(state.games@ =~= pre_games);
            }
            return Err(e);
        },
    }
    proof {
        assert(state.games@ =~= pre_games.update(i as int, (id, state.games@[i as int].1)));
        crate::assoc::lemma_update_entry(pre_games, i as int, state.games@[i as int].1);
    }
    let g = &state.games[i].1;
    g.broadcast_join(&name, &mut state.messages);
    proof {
        let post_game = state.games@[i as int].1;
        assert(post_game.players@ == pre_game.players@.push(
            crate::game::Player { session, class: None },
        ));
        assert forall|j: int| 0 <= j < pre_game.players@.len() implies post_game.member_names()[j]
            == pre_game.member_names()[j] by {
            assert(post_game.players@[j] == pre_game.players@[j]);
        }
        assert(post_game.member_names()[pre_game.players@.len() as int] == name@);
        crate::assoc::lemma_key_index_unique(state.games@, id, i as int);
    }
    Ok(())
}

/// Starts the caller's current game: from setup it drafts and assigns roles;
/// from draft it begins play at the given instant.
pub fn start_game(state: &mut State, name: &String, now: u64) -> (r: Result<(), Error>)
    requires
        old(state).wf(),
    ensures
        final(state).wf(),
        !crate::state::in_some_game(old(state).games@, name@) ==> (r matches Err(e) && e
            == Error::NotInGame) && *final(state) == *old(state),
        r is Err ==> final(state).games@ == old(state).games@ && final(state).messages == old(state).messages,
        crate::state::in_some_game(old(state).games@, name@) ==> ({
            let i = crate::state::first_game_index(old(state).games@, name@);
            let g = old(state).games@[i].1;
            &&& (r is Ok <==> ((g.state is Setup && g.players@.len() == 5) || g.state is Draft))
            &&& (g.state is Setup && g.players@.len() < 5 ==> (r matches Err(e) && e
                == Error::NotEnoughPlayers))
            &&& (!(g.state is Setup || g.state is Draft) ==> (r matches Err(e) && e
                == Error::IncorrectState))
            &&& (r is Ok ==> final(state).games@.len() == old(state).games@.len() && (forall|j: int|
                0 <= j < old(state).games@.len() && j != i ==> final(state).games@[j] == old(state).games@[j]) && final(state).games@[i].0 == old(state).games@[i].0 && ((g.state is Setup
                && crate::game::draft_outcome(
                g,
                final(state).games@[i].1,
                old(state).messages,
                final(state).messages,
            )) || (g.state is Draft && crate::game::ingame_outcome(
                g,
                final(state).games@[i].1,
                old(state).messages,
                final(state).messages,
                now,
            ))))
        }),
{
    let i = match state.find_player_game_index(name) {
        Some(i) => i,
        None => {
            return Err(Error::NotInGame);
        },
    };
    let ghost pre_games = state.games@;
    let ghost pre_msgs = state.messages;
    let r = state.games[i].1.start(now, &mut state.messages);
    proof {
        assert(state.games@ =~= pre_games.update(
            i as int,
            (pre_games[i as int].0, state.games@[i as int].1),
        ));
        crate::assoc::lemma_update_entry(pre_games, i as int, state.games@[i as int].1);
        assert forall|j: int| 0 <= j < state.games@.len() implies (#[trigger] state.games@[j]).1.wf()
            && state.games@[j].1.uid == state.games@[j].0 && state.games@[j].1.boxes_cover(
            state.messages,
        ) by {
            if j == i {
                if r is Ok {
                    pre_games[i as int].1.lemma_cover_preserved(pre_msgs, state.messages);
                    pre_games[i as int].1.lemma_cover_sessions(
                        state.games@[i as int].1,
                        state.messages,
                    );
                }
            } else {
                assert(state.games@[j] == pre_games[j]);
                pre_games[j].1.lemma_cover_preserved(pre_msgs, state.messages);
            }
        }
        if r is Err {
            assert(state.games@ =~= pre_games);
        }
    }
    r
}

/// Requests the end of play in the caller's current game; legal only in
/// game and only past the end floor, after which voting opens.
pub fn end_game(state: &mut State, name: &String, now: u64) -> (r: Result<(), Error>)
    requires
        old(state).wf(),
    ensures
        final(state).wf(),
        final(state).messages == old(state).messages,
        !crate::state::in_some_game(old(state).games@, name@) ==> (r matches Err(e) && e
            == Error::NotInGame) && *final(state) == *old(state),
        r is Err ==> final(state).games@ == old(state).games@,
        crate::state::in_some_game(old(state).games@, name@) ==> ({
            let i = crate::state::first_game_index(old(state).games@, name@);
            let g = old(state).games@[i].1;
            &&& (r is Ok <==> (g.state matches crate::game::InnerState::InGame { start } && now
                >= start + crate::game::END_FLOOR_SECS))
            &&& (r is Err ==> (r matches Err(e) && e == Error::IncorrectState))
            &&& (r is Ok ==> final(state).games@.len() == old(state).games@.len() && (forall|j: int|
                0 <= j < old(state).games@.len() && j != i ==> final(state).games@[j] == old(state).games@[j]) && final(state).games@[i].0 == old(state).games@[i].0 && final(state).games@[i].1.players == g.players && (final(state).games@[i].1.state matches crate::game::InnerState::Voting { votes }
                && votes@.len() == 0))
        }),
{
    let i = match state.find_player_game_index(name) {
        Some(i) => i,
        None => {
            return Err(Error::NotInGame);
        },
    };
    let ghost pre_games = state.games@;
    let r = state.games[i].1.end(now);
    proof {
        assert(state.games@ =~= pre_games.update(
            i as int,
            (pre_games[i as int].0, state.games@[i as int].1),
        ));
        crate::assoc::lemma_update_entry(pre_games, i as int, state.games@[i as int].1);
        assert forall|j: int| 0 <= j < state.games@.len() implies (#[trigger] state.games@[j]).1.wf()
            && state.games@[j].1.uid == state.games@[j].0 && state.games@[j].1.boxes_cover(
            state.messages,
        ) by {
            if j == i {
                if r is Ok {
                    pre_games[i as int].1.lemma_cover_sessions(
                        state.games@[i as int].1,
                        state.messages,
                    );
                }
            } else {
                assert(state.games@[j] == pre_games[j]);
            }
        }
        if r is Err {
            assert(state.games@ =~= pre_games);
        }
    }
    r
}

/// Casts the caller's ballot in the caller's current game; the fifth ballot
/// ends the game and reveals the assignments.
pub fn post_votes(state: &mut State, name: &String, ballot: crate::game::Ballot) -> (r: Result<
    (),
    Error,
>)
    requires
        old(state).wf(),
    ensures
        final(state).wf(),
        final(state).messages == old(state).messages,
        !crate::state::in_some_game(old(state).games@, name@) ==> (r matches Err(e) && e
            == Error::NotInGame) && *final(state) == *old(state),
        r is Err ==> final(state).games@ == old(state).games@,
        crate::state::in_some_game(old(state).games@, name@) ==> ({
            let i = crate::state::first_game_index(old(state).games@, name@);
            let g = old(state).games@[i].1;
            &&& (r is Ok <==> (g.state matches crate::game::InnerState::Voting { votes }
                && !crate::assoc::has_key(crate::game::vmodel(votes@), name@)))
            &&& (!(g.state is Voting) ==> (r matches Err(e) && e == Error::IncorrectState))
            &&& ((g.state matches crate::game::InnerState::Voting { votes }
                && crate::assoc::has_key(crate::game::vmodel(votes@), name@)) ==> (r matches Err(e)
                && e == Error::VotesClosed))
            &&& (r is Ok ==> final(state).games@.len() == old(state).games@.len() && (forall|j: int|
                0 <= j < old(state).games@.len() && j != i ==> final(state).games@[j] == old(state).games@[j]) && final(state).games@[i].0 == old(state).games@[i].0
                && crate::game::vote_outcome(g, final(state).games@[i].1, *name, ballot))
        }),
{
    let i = match state.find_player_game_index(name) {
        Some(i) => i,
        None => {
            return Err(Error::NotInGame);
        },
    };
    let ghost pre_games = state.games@;
    let r = state.games[i].1.add_votes(name.clone(), ballot);
    proof {
        assert(state.games@ =~= pre_games.update(
            i as int,
            (pre_games[i as int].0, state.games@[i as int].1),
        ));
        crate::assoc::lemma_update_entry(pre_games, i as int, state.games@[i as int].1);
        assert forall|j: int| 0 <= j < state.games@.len() implies (#[trigger] state.games@[j]).1.wf()
            && state.games@[j].1.uid == state.games@[j].0 && state.games@[j].1.boxes_cover(
            state.messages,
        ) by {
            if j == i {
                if r is Ok {
                    pre_games[i as int].1.lemma_cover_sessions(
                        state.games@[i as int].1,
                        state.messages,
                    );
                }
            } else {
                assert(state.games@[j] == pre_games[j]);
            }
        }
        if r is Err {
            assert(state.games@ =~= pre_games);
        }
    }
    r
}

/// Removes the caller from the caller's current game; when the last member
/// leaves, the game itself is dropped from the registry.
pub fn quit_game(state: &mut State, name: &String) -> (r: Result<(), Error>)
    requires
        old(state).wf(),
    ensures
        final(state).wf(),
        final(state).messages == old(state).messages,
        !crate::state::in_some_game(old(state).games@, name@) ==> (r matches Err(e) && e
            == Error::NotInGame) && *final(state) == *old(state),
        r is Err ==> final(state).games@ == old(state).games@,
        crate::state::in_some_game(old(state).games@, name@) ==> ({
            let i = crate::state::first_game_index(old(state).games@, name@);
            let g = old(state).games@[i].1;
            let gid = old(state).games@[i].0;
            &&& (r is Ok <==> (g.state is Setup || g.state is End))
            &&& (r is Err ==> (r matches Err(e) && e == Error::IncorrectState))
            &&& (r is Ok ==> (g.players@.len() == 1 ==> !final(state).has_game(gid)) && (
            g.players@.len() > 1 ==> final(state).has_game(gid) && !final(state).game_of(
                gid,
            ).has_member(name@) && final(state).game_of(gid).players@.len() == g.players@.len()
                - 1) && (forall|j: u128|
                j != gid ==> (#[trigger] final(state).has_game(j) <==> old(state).has_game(j)))
                && (forall|j: u128|
                j != gid && old(state).has_game(j) ==> #[trigger] final(state).game_of(j) == old(state).game_of(j)))
        }),
{
    let i = match state.find_player_game_index(name) {
        Some(i) => i,
        None => {
            return Err(Error::NotInGame);
        },
    };
    let gid = state.games[i].0;
    let ghost pre_games = state.games@;
    proof {
        crate::assoc::lemma_key_index_unique(pre_games, gid, i as int);
    }
    let r = state.games[i].1.remove_player(name.clone());
    proof {
        assert(state.games@ =~= pre_games.update(
            i as int,
            (pre_games[i as int].0, state.games@[i as int].1),
        ));
        crate::assoc::lemma_update_entry(pre_games, i as int, state.games@[i as int].1);
        assert forall|j: int| 0 <= j < state.games@.len() implies (#[trigger] state.games@[j]).1.wf()
            && state.games@[j].1.uid == state.games@[j].0 && state.games@[j].1.boxes_cover(
            state.messages,
        ) by {
            if j == i {
                if r is Ok {
                    let g1 = pre_games[i as int].1;
                    let g2 = state.games@[i as int].1;
                    let idx = choose|idx: int|
                        0 <= idx < g1.players@.len() && (#[trigger] g1.players@[idx]).session.name@
                            == name@ && g2.players@ == g1.players@.remove(idx);
                    assert forall|a: int| 0 <= a < g2.players@.len() implies state.messages.has_box(
                        (#[trigger] g2.players@[a]).session.name@,
                    ) by {
                        let a0 = if a < idx {
                            a
                        } else {
                            a + 1
                        };
                        assert(g2.players@[a] == g1.players@[a0]);
                        assert(state.messages.has_box(g1.players@[a0].session.name@));
                    }
                }
            } else {
                assert(state.games@[j] == pre_games[j]);
            }
        }
        if r is Err {
            assert(state.games@ =~= pre_games);
        }
    }
    match r {
        Ok(()) => {
            let ghost mid = *state;
            state.try_remove_game(gid);
            proof {
                crate::assoc::lemma_key_index_unique(mid.games@, gid, i as int);
                assert(mid.game_of(gid) == mid.games@[i as int].1);
            }
            Ok(())
        },
        Err(e) => Err(e),
    }
}

/// One wake of the feed driver for the game under the identifier: while the
/// game is in play and the clock has reached its start instant, the elapsed
/// seconds are computed and forwarded as one tick; in every other state the
/// wake does nothing.
pub fn feed_tick(state: &mut State, id: u128, now: u64)
    requires
        old(state).wf(),
    ensures
        final(state).wf(),
        !old(state).has_game(id) ==> *final(state) == *old(state),
        old(state).has_game(id) ==> match old(state).game_of(id).state {
            crate::game::InnerState::InGame { start } => if now >= start {
                &&& final(state).has_game(id)
                &&& crate::game::tick_outcome(
                    old(state).game_of(id),
                    final(state).game_of(id),
                    old(state).messages,
                    final(state).messages,
                    (now - start) as u64,
                )
                &&& forall|j: u128|
                    j != id ==> (#[trigger] final(state).has_game(j) <==> old(state).has_game(j))
                &&& forall|j: u128|
                    j != id && old(state).has_game(j) ==> #[trigger] final(state).game_of(j)
                        == old(state).game_of(j)
            } else {
                *final(state) == *old(state)
            },
            _ => *final(state) == *old(state),
        },
{
    let i = match state.find_game_index(id) {
        Some(i) => i,
        None => {
            return ;
        },
    };
    proof {
        crate::assoc::lemma_key_index_unique(state.games@, id, i as int);
    }
    let start_opt: Option<u64> = match &state.games[i].1.state {
        crate::game::InnerState::InGame { start } => Some(*start),
        _ => None,
    };
    let start = match start_opt {
        Some(s) => s,
        None => {
            return ;
        },
    };
    if now < start {
        return ;
    }
    let elapsed = now - start;
    let ghost pre_games = state.games@;
    let ghost pre_msgs = state.messages;
    let r = state.games[i].1.tick(elapsed, &mut state.messages);
    proof {
        assert(state.games@ =~= pre_games.update(
            i as int,
            (pre_games[i as int].0, state.games@[i as int].1),
        ));
        crate::assoc::lemma_update_entry(pre_games, i as int, state.games@[i as int].1);
        assert forall|j: int| 0 <= j < state.games@.len() implies (#[trigger] state.games@[j]).1.wf()
            && state.games@[j].1.uid == state.games@[j].0 && state.games@[j].1.boxes_cover(
            state.messages,
        ) by {
            if j == i {
                pre_games[i as int].1.lemma_cover_preserved(pre_msgs, state.messages);
                pre_games[i as int].1.lemma_cover_sessions(
                    state.games@[i as int].1,
                    state.messages,
                );
            } else {
                assert(state.games@[j] == pre_games[j]);
                pre_games[j].1.lemma_cover_preserved(pre_msgs, state.messages);
            }
        }
        crate::assoc::lemma_key_index_unique(state.games@, id, i as int);
    }
}

} // verus!
