use party_coordinator::classes::PlayerState;
use party_coordinator::error::Error;
use party_coordinator::game::Ballot;
use party_coordinator::game::GameState;
use party_coordinator::game::Player;
use party_coordinator::game::PublicInnerState;
use party_coordinator::mailbox::MailboxStore;
use party_coordinator::messages::Message;
use party_coordinator::roles::Role;
use party_coordinator::session::UserSession;

fn session(name: &str) -> UserSession {
    UserSession::new(name.to_string()).unwrap()
}

const NAMES: [&str; 5] = ["ada", "bob", "cly", "dot", "eve"];

fn lobby() -> (GameState, MailboxStore) {
    let mut g = GameState::new(7);
    let mut store = MailboxStore::new();
    for n in NAMES.iter() {
        let owned = n.to_string();
        store.get_or_create(&owned);
        g.add_player(session(n)).unwrap();
    }
    (g, store)
}

fn in_game(start: u64) -> (GameState, MailboxStore) {
    let (mut g, mut store) = lobby();
    g.start(0, &mut store).unwrap();
    g.start(start, &mut store).unwrap();
    (g, store)
}

fn role_of_snapshot(s: &PlayerState) -> Role {
    match s {
        PlayerState::SuperHero(_) => Role::SuperHero,
        PlayerState::Impostor(_) => Role::Impostor,
        PlayerState::Crook(_) => Role::Crook,
        PlayerState::Kamikaze(_) => Role::Kamikaze,
        PlayerState::Romeo(_) => Role::Romeo,
        PlayerState::TwoFace(_) => Role::TwoFace,
        PlayerState::Droid(_) => Role::Droid,
    }
}

fn ballot_against(voter: &str) -> Ballot {
    NAMES
        .iter()
        .filter(|n| **n != voter)
        .map(|n| (n.to_string(), Role::Impostor))
        .collect::<Vec<(String, Role)>>()
}

#[test]
fn vote_flow_closes_on_fifth_ballot() {
    let (mut g, _store) = in_game(100);
    g.end(111).unwrap();
    let status = g.get_status().unwrap();
    assert!(matches!(status.state, PublicInnerState::Voting { .. }));
    for n in NAMES.iter().take(4) {
        g.add_votes(n.to_string(), ballot_against(n)).unwrap();
        let status = g.get_status().unwrap();
        assert!(matches!(status.state, PublicInnerState::Voting { .. }));
    }
    g.add_votes(NAMES[4].to_string(), ballot_against(NAMES[4])).unwrap();
    let status = g.get_status().unwrap();
    match status.state {
        PublicInnerState::End { votes, roles } => {
            assert_eq!(votes.len(), 5);
            assert_eq!(roles.len(), 5);
            for (name, role) in roles.iter() {
                let auth = g.get_status_authenticated(name).unwrap();
                let snapshot = auth.player_state.unwrap();
                assert_eq!(role_of_snapshot(&snapshot), *role);
            }
        },
        other => panic!("expected the end state, got {:?}", other),
    }
}

#[test]
fn early_end_is_rejected() {
    let (mut g, _store) = in_game(100);
    let r = g.end(103);
    assert!(matches!(r, Err(Error::IncorrectState)));
    let status = g.get_status().unwrap();
    assert!(matches!(status.state, PublicInnerState::InGame));
}

#[test]
fn end_exactly_at_floor_is_accepted() {
    let (mut g, _store) = in_game(100);
    g.end(110).unwrap();
    let status = g.get_status().unwrap();
    assert!(matches!(status.state, PublicInnerState::Voting { .. }));
}

#[test]
fn duplicate_join_is_rejected() {
    let mut g = GameState::new(7);
    g.add_player(session("ada")).unwrap();
    let r = g.add_player(session("ada"));
    assert!(matches!(r, Err(Error::AlreadyInGame)));
    assert_eq!(g.player_count(), 1);
}

#[test]
fn sixth_join_is_rejected() {
    let (mut g, _store) = lobby();
    let r = g.add_player(session("fred"));
    assert!(matches!(r, Err(Error::MaxPlayerReached)));
    assert_eq!(g.player_count(), 5);
}

#[test]
fn start_needs_five_players() {
    let mut g = GameState::new(7);
    let mut store = MailboxStore::new();
    for n in NAMES.iter().take(3) {
        let owned = n.to_string();
        store.get_or_create(&owned);
        g.add_player(session(n)).unwrap();
    }
    let r = g.start(0, &mut store);
    assert!(matches!(r, Err(Error::NotEnoughPlayers)));
}

#[test]
fn illegal_ops_return_incorrect_state() {
    // In setup: no end, no votes, no ticks.
    let (mut g, mut store) = lobby();
    assert!(matches!(g.end(1000), Err(Error::IncorrectState)));
    assert!(matches!(
        g.add_votes("ada".to_string(), ballot_against("ada")),
        Err(Error::IncorrectState)
    ));
    assert!(matches!(g.tick(50, &mut store), Err(Error::IncorrectState)));
    // In draft: no joins, no leaves, no end.
    g.start(0, &mut store).unwrap();
    assert!(matches!(g.add_player(session("fred")), Err(Error::IncorrectState)));
    assert!(matches!(g.remove_player("ada".to_string()), Err(Error::IncorrectState)));
    assert!(matches!(g.end(1000), Err(Error::IncorrectState)));
    // In game: no removal, no second start.
    g.start(100, &mut store).unwrap();
    assert!(matches!(g.remove_player("ada".to_string()), Err(Error::IncorrectState)));
    assert!(matches!(g.start(200, &mut store), Err(Error::IncorrectState)));
    // While voting: no start, no tick, no joins or leaves.
    g.end(200).unwrap();
    assert!(matches!(g.start(300, &mut store), Err(Error::IncorrectState)));
    assert!(matches!(g.tick(300, &mut store), Err(Error::IncorrectState)));
    assert!(matches!(g.add_player(session("fred")), Err(Error::IncorrectState)));
    assert!(matches!(g.remove_player("ada".to_string()), Err(Error::IncorrectState)));
    // Once ended: gameplay is over for good.
    for n in NAMES.iter() {
        g.add_votes(n.to_string(), ballot_against(n)).unwrap();
    }
    assert!(matches!(g.start(400, &mut store), Err(Error::IncorrectState)));
    assert!(matches!(g.end(400), Err(Error::IncorrectState)));
    assert!(matches!(g.tick(400, &mut store), Err(Error::IncorrectState)));
    assert!(matches!(
        g.add_votes("ada".to_string(), ballot_against("ada")),
        Err(Error::IncorrectState)
    ));
    assert!(matches!(g.add_player(session("fred")), Err(Error::IncorrectState)));
}

#[test]
fn role_once_assigned_cannot_change() {
    let mut store = MailboxStore::new();
    let name = "ada".to_string();
    store.get_or_create(&name);
    let mut p = Player::new(session("ada"));
    p.set_role(Role::Droid, &mut store).unwrap();
    assert_eq!(p.role(), Some(Role::Droid));
    let r = p.set_role(Role::Crook, &mut store);
    assert!(matches!(r, Err(Error::AlreadyStarted)));
    assert_eq!(p.role(), Some(Role::Droid));
}

#[test]
fn set_role_announces_the_role() {
    let mut store = MailboxStore::new();
    let name = "ada".to_string();
    store.get_or_create(&name);
    let _ = store.drain_box(&name);
    let mut p = Player::new(session("ada"));
    p.set_role(Role::Kamikaze, &mut store).unwrap();
    let out = store.drain_box(&name).unwrap();
    assert_eq!(out.len(), 1);
    assert!(matches!(out[0], Message::Role { role: Role::Kamikaze }));
}

#[test]
fn removal_is_legal_in_setup_and_end() {
    let mut g = GameState::new(7);
    g.add_player(session("ada")).unwrap();
    g.add_player(session("bob")).unwrap();
    g.remove_player("ada".to_string()).unwrap();
    assert_eq!(g.player_count(), 1);
    let r = g.remove_player("ghost".to_string());
    assert!(matches!(r, Err(Error::NotInGame)));

    let (mut g, _store) = in_game(100);
    g.end(111).unwrap();
    for n in NAMES.iter() {
        g.add_votes(n.to_string(), ballot_against(n)).unwrap();
    }
    g.remove_player("ada".to_string()).unwrap();
    assert_eq!(g.player_count(), 4);
}

#[test]
fn status_reports_members_and_uid() {
    let (g, _store) = lobby();
    let status = g.get_status().unwrap();
    assert_eq!(status.uid, 7);
    assert_eq!(status.player_names.len(), 5);
    for (i, n) in NAMES.iter().enumerate() {
        assert_eq!(status.player_names[i], *n);
    }
    assert!(matches!(status.state, PublicInnerState::Setup));
    let auth = g.get_status_authenticated(&"ada".to_string()).unwrap();
    assert!(auth.player_state.is_none());
    let stranger = g.get_status_authenticated(&"ghost".to_string());
    assert!(matches!(stranger, Err(Error::Unauthorized)));
}

#[test]
fn voting_status_lists_voters() {
    let (mut g, _store) = in_game(100);
    g.end(111).unwrap();
    g.add_votes("bob".to_string(), ballot_against("bob")).unwrap();
    let r = g.add_votes("bob".to_string(), ballot_against("bob"));
    assert!(matches!(r, Err(Error::VotesClosed)));
    let r = g.add_votes("ghost".to_string(), Vec::new());
    assert!(matches!(r, Err(Error::NotInGame)));
    let status = g.get_status().unwrap();
    match status.state {
        PublicInnerState::Voting { votes_received } => {
            assert_eq!(votes_received.len(), 1);
            assert_eq!(votes_received[0], "bob");
        },
        other => panic!("expected voting, got {:?}", other),
    }
}

#[test]
fn error_status_codes_follow_the_taxonomy() {
    assert_eq!(Error::NotFound.status_code(), 404);
    assert_eq!(Error::Unauthorized.status_code(), 403);
    assert_eq!(Error::Internal { msg: "boom".to_string() }.status_code(), 500);
    assert_eq!(Error::AlreadyInGame.status_code(), 400);
    assert_eq!(Error::IncorrectState.status_code(), 400);
    assert_eq!(Error::VotesClosed.status_code(), 400);
}
