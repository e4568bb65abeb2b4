//! The closed catalogue of roles, the missions a droid can receive, and the
//! board positions a romeo can fall for.

use vstd::prelude::*;

verus! {

/// The hidden identity assigned to a player when a game starts.
#[derive(Clone, Copy, Debug, PartialEq, Eq, Structural)]
pub enum Role {
    SuperHero,
    Impostor,
    Crook,
    Kamikaze,
    Romeo,
    TwoFace,
    Droid,
}

/// A discrete labelled task surfaced to a droid player.
#[derive(Clone, Copy, Debug, PartialEq, Eq, Structural)]
pub enum Mission {
    Summoners,
    GoTop,
    GoBot,
    TakeBlue,
    TakeRed,
    Sing,
    ExhortTeam,
    StayBase,
    IntPingMs,
    Emote,
    QOnCd,
    WOnCd,
    EOnCd,
}

/// The number of distinct missions.
pub const MISSION_COUNT: u64 = 13;

/// The total mapping from an index below [`MISSION_COUNT`] to a mission,
/// used to turn a uniform draw into a mission label.
pub open spec fn spec_mission_from_index(i: u64) -> Mission {
    if i == 0 {
        Mission::Summoners
    } else if i == 1 {
        Mission::GoTop
    } else if i == 2 {
        Mission::GoBot
    } else if i == 3 {
        Mission::TakeBlue
    } else if i == 4 {
        Mission::TakeRed
    } else if i == 5 {
        Mission::Sing
    } else if i == 6 {
        Mission::ExhortTeam
    } else if i == 7 {
        Mission::StayBase
    } else if i == 8 {
        Mission::IntPingMs
    } else if i == 9 {
        Mission::Emote
    } else if i == 10 {
        Mission::QOnCd
    } else if i == 11 {
        Mission::WOnCd
    } else {
        Mission::EOnCd
    }
}

/// Turns a uniform draw below [`MISSION_COUNT`] into a mission label.
pub fn mission_from_index(i: u64) -> (m: Mission)
    requires
        i < MISSION_COUNT,
    ensures
        m == spec_mission_from_index(i),
{
    if i == 0 {
        Mission::Summoners
    } else if i == 1 {
        Mission::GoTop
    } else if i == 2 {
        Mission::GoBot
    } else if i == 3 {
        Mission::TakeBlue
    } else if i == 4 {
        Mission::TakeRed
    } else if i == 5 {
        Mission::Sing
    } else if i == 6 {
        Mission::ExhortTeam
    } else if i == 7 {
        Mission::StayBase
    } else if i == 8 {
        Mission::IntPingMs
    } else if i == 9 {
        Mission::Emote
    } else if i == 10 {
        Mission::QOnCd
    } else if i == 11 {
        Mission::WOnCd
    } else {
        Mission::EOnCd
    }
}

/// One of the ten lanes a player can occupy, on either side of the map.
#[derive(Clone, Copy, Debug, PartialEq, Eq, Structural)]
pub enum PlayerPosition {
    AllyTop,
    AllyJungle,
    AllyMid,
    AllyBot,
    AllySupport,
    EnemyTop,
    EnemyJungle,
    EnemyMid,
    EnemyBot,
    EnemySupport,
}

/// The number of distinct player positions.
pub const POSITION_COUNT: u64 = 10;

/// The total mapping from an index below [`POSITION_COUNT`] to a position.
pub open spec fn spec_position_from_index(i: u64) -> PlayerPosition {
    if i == 0 {
        PlayerPosition::AllyTop
    } else if i == 1 {
        PlayerPosition::AllyJungle
    } else if i == 2 {
        PlayerPosition::AllyMid
    } else if i == 3 {
        PlayerPosition::AllyBot
    } else if i == 4 {
        PlayerPosition::AllySupport
    } else if i == 5 {
        PlayerPosition::EnemyTop
    } else if i == 6 {
        PlayerPosition::EnemyJungle
    } else if i == 7 {
        PlayerPosition::EnemyMid
    } else if i == 8 {
        PlayerPosition::EnemyBot
    } else {
        PlayerPosition::EnemySupport
    }
}

/// The mapping from an index to a position is injective below
/// [`POSITION_COUNT`]: distinct indices give distinct positions.
pub proof fn lemma_position_from_index_injective(i: u64, j: u64)
    requires
        i < POSITION_COUNT,
        j < POSITION_COUNT,
        i != j,
    ensures
        spec_position_from_index(i) != spec_position_from_index(j),
{
}

/// Turns a uniform draw below [`POSITION_COUNT`] into a position.
pub fn position_from_index(i: u64) -> (p: PlayerPosition)
    requires
        i < POSITION_COUNT,
    ensures
        p == spec_position_from_index(i),
{
    if i == 0 {
        PlayerPosition::AllyTop
    } else if i == 1 {
        PlayerPosition::AllyJungle
    } else if i == 2 {
        PlayerPosition::AllyMid
    } else if i == 3 {
        PlayerPosition::AllyBot
    } else if i == 4 {
        PlayerPosition::AllySupport
    } else if i == 5 {
        PlayerPosition::EnemyTop
    } else if i == 6 {
        PlayerPosition::EnemyJungle
    } else if i == 7 {
        PlayerPosition::EnemyMid
    } else if i == 8 {
        PlayerPosition::EnemyBot
    } else {
        PlayerPosition::EnemySupport
    }
}

/// The secret pair drawn for a romeo: the position he must protect and the
/// substitute he falls back to.
#[derive(Clone, Copy, Debug, PartialEq, Eq, Structural)]
pub struct Juliette {
    pub juliette: PlayerPosition,
    pub substitute: PlayerPosition,
}

} // verus!
