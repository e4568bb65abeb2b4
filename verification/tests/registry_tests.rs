use party_coordinator::api;
use party_coordinator::classes::PlayerState;
use party_coordinator::error::Error;
use party_coordinator::game::PublicInnerState;
use party_coordinator::messages::Message;
use party_coordinator::roles::Role;
use party_coordinator::session::LoginForm;
use party_coordinator::session::UserSession;
use party_coordinator::state::State;

const NAMES: [&str; 5] = ["ada", "bob", "cly", "dot", "eve"];

fn session(name: &str) -> UserSession {
    UserSession::new(name.to_string()).unwrap()
}

fn full_lobby(st: &mut State) -> u128 {
    let id = api::create_game(st, session(NAMES[0])).unwrap();
    for n in NAMES.iter().skip(1) {
        api::join_game(st, session(n), id).unwrap();
    }
    id
}

#[test]
fn lobby_fill_and_start_orders_directives() {
    let mut st = State::new();
    let id = full_lobby(&mut st);
    api::start_game(&mut st, &NAMES[0].to_string(), 0).unwrap();
    let status = api::get_game(&st, id).unwrap();
    assert!(matches!(status.state, PublicInnerState::Draft));
    for (k, n) in NAMES.iter().enumerate() {
        let msgs = api::get_updates(&mut st, &n.to_string()).unwrap();
        // The k-th member sees the greeting, then every join from its own
        // on, in join order, then its role.
        assert_eq!(msgs.len(), 1 + (5 - k) + 1);
        assert!(matches!(msgs[0], Message::Hi));
        for (j, expected) in NAMES.iter().skip(k).enumerate() {
            match &msgs[1 + j] {
                Message::PlayerJoin { name } => assert_eq!(name, expected),
                other => panic!("expected a join announcement, got {:?}", other),
            }
        }
        assert!(matches!(msgs[msgs.len() - 1], Message::Role { .. }));
    }
    api::start_game(&mut st, &NAMES[0].to_string(), 100).unwrap();
    let status = api::get_game(&st, id).unwrap();
    assert!(matches!(status.state, PublicInnerState::InGame));
}

fn role_of_snapshot(s: &PlayerState) -> Role {
    match s {
        PlayerState::SuperHero(_) => Role::SuperHero,
        PlayerState::Impostor(_) => Role::Impostor,
        PlayerState::Crook(_) => Role::Crook,
        PlayerState::Kamikaze(_) => Role::Kamikaze,
        PlayerState::Romeo(_) => Role::Romeo,
        PlayerState::TwoFace(_) => Role::TwoFace,
        PlayerState::Droid(_) => Role::Droid,
    }
}

#[test]
fn every_droid_gets_one_mission_past_its_first_fire() {
    let mut st = State::new();
    let id = full_lobby(&mut st);
    api::start_game(&mut st, &NAMES[0].to_string(), 0).unwrap();
    api::start_game(&mut st, &NAMES[0].to_string(), 100).unwrap();
    // The first fire time is drawn at most 26 seconds in; a wake 30 seconds
    // past the start instant fires every droid exactly once.
    api::feed_tick(&mut st, id, 130);
    for n in NAMES.iter() {
        let name = n.to_string();
        let auth = api::get_game_authenticated(&st, &name, id).unwrap();
        let role = role_of_snapshot(&auth.player_state.unwrap());
        let msgs = api::get_updates(&mut st, &name).unwrap();
        let missions = msgs.iter().filter(|m| matches!(m, Message::Mission { .. })).count();
        if role == Role::Droid {
            assert_eq!(missions, 1);
        } else {
            assert_eq!(missions, 0);
        }
    }
}

#[test]
fn feed_tick_outside_play_does_nothing() {
    let mut st = State::new();
    let id = api::create_game(&mut st, session("ada")).unwrap();
    api::feed_tick(&mut st, id, 500);
    let status = api::get_game(&st, id).unwrap();
    assert!(matches!(status.state, PublicInnerState::Setup));
}

#[test]
fn login_signs_a_decodable_token() {
    let mut st = State::new();
    let secret = "a-signing-key-for-tests";
    let token = api::login(&mut st, LoginForm { name: "ada".to_string() }, secret).unwrap();
    let mut validation = jsonwebtoken::Validation::new(jsonwebtoken::Algorithm::HS256);
    validation.validate_exp = false;
    validation.required_spec_claims = std::collections::HashSet::new();
    let decoded = jsonwebtoken::decode::<serde_json::Value>(
        &token,
        &jsonwebtoken::DecodingKey::from_secret(secret.as_bytes()),
        &validation,
    )
    .unwrap();
    assert_eq!(decoded.claims.get("name").unwrap().as_str().unwrap(), "ada");
}

#[test]
fn login_rejects_names_out_of_range() {
    let mut st = State::new();
    let secret = "a-signing-key-for-tests";
    let r = api::login(&mut st, LoginForm { name: String::new() }, secret);
    assert!(matches!(r, Err(Error::InvalidName)));
    let r = api::login(&mut st, LoginForm { name: "abcdefghijklmnop".to_string() }, secret);
    assert!(matches!(r, Err(Error::InvalidName)));
    let r = api::login(&mut st, LoginForm { name: "abcdefghijklmno".to_string() }, secret);
    assert!(r.is_ok());
}

#[test]
fn name_length_is_measured_in_bytes() {
    // Nine characters of two bytes each: eighteen bytes, over the limit.
    let nine_wide = "\u{e9}".repeat(9);
    assert_eq!(nine_wide.chars().count(), 9);
    assert_eq!(nine_wide.len(), 18);
    let r = UserSession::new(nine_wide);
    assert!(matches!(r, Err(Error::InvalidName)));
    // Eight of them make exactly sixteen bytes: still rejected.
    let r = UserSession::new("\u{e9}".repeat(8));
    assert!(matches!(r, Err(Error::InvalidName)));
    // Seven make fourteen bytes: accepted.
    let r = UserSession::new("\u{e9}".repeat(7));
    assert!(r.is_ok());
}

#[test]
fn updates_drain_once() {
    let mut st = State::new();
    let secret = "a-signing-key-for-tests";
    api::login(&mut st, LoginForm { name: "ada".to_string() }, secret).unwrap();
    let first = api::get_updates(&mut st, &"ada".to_string()).unwrap();
    assert_eq!(first.len(), 1);
    assert!(matches!(first[0], Message::Hi));
    let second = api::get_updates(&mut st, &"ada".to_string()).unwrap();
    assert!(second.is_empty());
    let missing = api::get_updates(&mut st, &"ghost".to_string());
    assert!(matches!(missing, Err(Error::NotFound)));
}

#[test]
fn quitting_the_last_member_drops_the_game() {
    let mut st = State::new();
    let id = api::create_game(&mut st, session("ada")).unwrap();
    api::quit_game(&mut st, &"ada".to_string()).unwrap();
    let r = api::get_game(&st, id);
    assert!(matches!(r, Err(Error::NotFound)));
    let r = api::quit_game(&mut st, &"ada".to_string());
    assert!(matches!(r, Err(Error::NotInGame)));
}

#[test]
fn quitting_keeps_a_peopled_game() {
    let mut st = State::new();
    let id = api::create_game(&mut st, session("ada")).unwrap();
    api::join_game(&mut st, session("bob"), id).unwrap();
    api::quit_game(&mut st, &"ada".to_string()).unwrap();
    let status = api::get_game(&st, id).unwrap();
    assert_eq!(status.player_names.len(), 1);
    assert_eq!(status.player_names[0], "bob");
}

#[test]
fn joining_twice_is_rejected() {
    let mut st = State::new();
    let id = api::create_game(&mut st, session("ada")).unwrap();
    let r = api::join_game(&mut st, session("ada"), id);
    assert!(matches!(r, Err(Error::AlreadyInGame)));
    let r = api::create_game(&mut st, session("ada"));
    assert!(matches!(r, Err(Error::AlreadyInGame)));
}

#[test]
fn joining_a_missing_game_is_not_found() {
    let mut st = State::new();
    let r = api::join_game(&mut st, session("ada"), 424242);
    assert!(matches!(r, Err(Error::NotFound)));
}

#[test]
fn registry_lookups_find_games_and_players() {
    let mut st = State::new();
    let id = api::create_game(&mut st, session("ada")).unwrap();
    assert!(st.get_game_by_id(id).is_some());
    assert!(st.get_game_by_id(id ^ 1).is_none());
    assert_eq!(st.get_game_by_player(&"ada".to_string()), Some(id));
    assert_eq!(st.get_game_by_player(&"ghost".to_string()), None);
    let auth = api::get_current_game_authenticated(&st, &"ada".to_string()).unwrap();
    assert_eq!(auth.uid, id);
    let r = api::get_current_game_authenticated(&st, &"ghost".to_string());
    assert!(matches!(r, Err(Error::NotFound)));
}
