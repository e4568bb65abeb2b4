//! The shape of what the external match provider reports: the live-match
//! payload and the account lookups. The provider itself is an external
//! collaborator reached by the program around the library; the library only
//! carries its data as plain values.

use vstd::prelude::*;

verus! {

/// An error reported by the match provider.
#[derive(Debug)]
pub struct LolApiError {
    pub message: String,
    pub status_code: i32,
}

/// A live match as the provider reports it.
#[derive(Debug)]
pub struct CurrentGameInfo {
    /// The identifier of the match.
    pub game_id: i64,
    /// The match type.
    pub game_type: String,
    /// The match start time in epoch milliseconds.
    pub game_start_time: i64,
    /// The identifier of the map.
    pub map_id: i64,
    /// Seconds elapsed since the match started.
    pub game_length: i64,
    /// The platform the match runs on.
    pub platform_id: String,
    /// The match mode.
    pub game_mode: String,
    /// Banned champion information.
    pub banned_champions: Vec<BannedChampion>,
    /// The queue type.
    pub game_queue_config_id: i64,
    /// The observer information.
    pub observers: Observer,
    /// The participant information.
    pub participants: Vec<CurrentGameParticipant>,
}

/// A champion banned in a live match.
#[derive(Debug)]
pub struct BannedChampion {
    /// The turn during which the champion was banned.
    pub pick_turn: i32,
    /// The identifier of the banned champion.
    pub champion_id: i64,
    /// The identifier of the team that banned the champion.
    pub team_id: i64,
}

/// The observer information of a live match.
#[derive(Debug)]
pub struct Observer {
    /// Key used to decrypt the spectator grid data for playback.
    pub encryption_key: String,
}

/// One participant of a live match.
#[derive(Debug)]
pub struct CurrentGameParticipant {
    /// The identifier of the champion played by this participant.
    pub champion_id: i64,
    /// Runes information.
    pub perks: Perks,
    /// The identifier of the profile icon used by this participant.
    pub profile_icon_id: i64,
    /// Whether this participant is a bot.
    pub bot: bool,
    /// The team of this participant.
    pub team_id: i64,
    /// The summoner name of this participant.
    pub summoner_name: String,
    /// The encrypted summoner identifier of this participant.
    pub summoner_id: String,
    /// The identifier of the first summoner spell used by this participant.
    pub spell1_id: i64,
    /// The identifier of the second summoner spell used by this participant.
    pub spell2_id: i64,
    /// Game customizations.
    pub game_customization_objects: Vec<GameCustomizationObject>,
}

/// Runes information of one participant.
#[derive(Debug)]
pub struct Perks {
    /// Identifiers of the runes assigned.
    pub perk_ids: Vec<i64>,
    /// Primary runes path.
    pub perk_style: i64,
    /// Secondary runes path.
    pub perk_sub_style: i64,
}

/// One game customization entry.
#[derive(Debug)]
pub struct GameCustomizationObject {
    /// Category identifier for the customization.
    pub category: String,
    /// Customization content.
    pub content: String,
}

/// An account looked up by its player identifier.
#[derive(Debug)]
pub struct SummonerByPuuid {
    pub puuid: String,
    pub game_name: String,
    pub tag_line: String,
}

/// An account looked up by its display name.
#[derive(Debug)]
pub struct SummonerByName {
    /// Encrypted account identifier.
    pub account_id: String,
    /// Identifier of the icon associated with the account.
    pub profile_icon_id: i32,
    /// When the account was last modified, in epoch milliseconds.
    pub revision_date: i64,
    /// Display name.
    pub name: String,
    /// Encrypted summoner identifier.
    pub id: String,
    /// Encrypted player identifier.
    pub puuid: String,
    /// Account level.
    pub summoner_level: i64,
}

} // verus!
