//! Run history files: one finished (or abandoned) run per file.

use crate::save::shared::Card;
use crate::save::shared::LocString;
use crate::save::shared::ModelId;
use crate::save::shared::Potion;
use crate::save::shared::Relic;
use crate::save::shared::SavedProperties;
use serde_json::Error as JsonError;
use serde_json::Value;
use std::collections::HashMap;
use vstd::prelude::*;

verus! {

/// The error type of `serde_json`; carried, not inspected.
#[verifier::external_type_specification]
#[verifier::external_body]
pub struct ExJsonError(JsonError);


/// The build id that runs recorded before build ids were saved are given.
pub fn _default_build_id() -> (r: String)
    ensures
        r@ == "pre-v0.42"@,
{
    "pre-v0.42".to_owned()
}

/// The number of potion slots of a player whose file does not record it.
pub fn _max_potion_slot_count() -> (r: i32)
    ensures
        r == 3,
{
    3
}

#[derive(Debug, Clone, Copy, PartialEq, Eq, Structural)]
pub enum PlatformType {
    /// Written `none` in save files.
    NoPlatform,
    Steam,
}

#[derive(Debug, Clone, Copy, PartialEq, Eq, Structural)]
pub enum GameMode {
    /// Written `none` in save files.
    NoMode,
    Standard,
    Daily,
    Custom,
}

impl Default for GameMode {
    fn default() -> (r: Self)
        ensures
            r == GameMode::Standard,
    {
        GameMode::Standard
    }
}

#[derive(Debug, Clone, PartialEq, Eq)]
pub struct Modifier {
    pub id: ModelId,
    pub props: SavedProperties,
}

#[derive(Debug, Clone, PartialEq, Eq)]
pub struct RunHistoryPlayer {
    pub id: u64,
    pub character: ModelId,
    pub deck: Vec<Card>,
    pub relics: Vec<Relic>,
    pub potions: Vec<Potion>,
    pub max_potion_slot_count: i32,
}

#[derive(Debug, Clone, PartialEq, Eq)]
pub struct MapPoint {
    pub map_point_type: MapPointType,
    pub rooms: Vec<Room>,
    pub player_stats: Vec<PlayerStat>,
}

#[derive(Debug, Clone, Copy, PartialEq, Eq, Structural)]
pub enum MapPointType {
    Unassigned,
    Unknown,
    Shop,
    Treasure,
    RestSite,
    Monster,
    Elite,
    Boss,
    Ancient,
}

#[derive(Debug, Clone, PartialEq, Eq)]
pub struct Room {
    pub room_type: RoomType,
    pub model_id: ModelId,
    pub monster_ids: Vec<ModelId>,
    pub turns_taken: i32,
}

#[derive(Debug, Clone, Copy, PartialEq, Eq, Structural)]
pub enum RoomType {
    Unassigned,
    Monster,
    Elite,
    Boss,
    Treasure,
    Shop,
    Event,
    RestSite,
    /// Written `map` in save files.
    MapRoom,
}

#[derive(Debug, Clone, PartialEq, Eq)]
pub struct PlayerStat {
    pub player_id: u64,
    pub gold_gained: i32,
    pub gold_spent: i32,
    pub gold_lost: i32,
    pub gold_stolen: i32,
    pub current_gold: i32,
    pub current_hp: i32,
    pub max_hp: i32,
    pub damage_taken: i32,
    pub hp_healed: i32,
    pub max_hp_lost: i32,
    pub max_hp_gained: i32,
    pub ancient_choice: Vec<AncientChoice>,
    pub cards_gained: Vec<Card>,
    pub card_choices: Vec<CardChoice>,
    pub relic_choices: Vec<ModelChoice>,
    pub potion_choices: Vec<ModelChoice>,
    pub potion_discarded: Vec<ModelId>,
    pub potion_used: Vec<ModelId>,
    pub cards_removed: Vec<Card>,
    pub relics_removed: Vec<ModelId>,
    pub cards_enchanted: Vec<CardEnchantment>,
    pub cards_transformed: Vec<CardTransformation>,
    pub upgraded_cards: Vec<ModelId>,
    pub downgraded_cards: Vec<ModelId>,
    pub event_choices: Vec<EventChoice>,
    pub rest_site_choices: Vec<String>,
    pub bought_relics: Vec<ModelId>,
    pub bought_potions: Vec<ModelId>,
    pub bought_colorless: Vec<ModelId>,
    pub completed_quests: Vec<ModelId>,
}

#[derive(Debug, Clone, PartialEq, Eq)]
pub struct AncientChoice {
    pub title: LocString,
    pub was_chosen: bool,
    // contains TextKey, which is just the second to last part of title.key (splitting at dots)
}

#[derive(Debug, Clone, PartialEq, Eq)]
pub struct CardChoice {
    pub was_picked: bool,
    pub card: Card,
}

#[derive(Debug, Clone, PartialEq, Eq)]
pub struct ModelChoice {
    pub choice: ModelId,
    pub was_picked: bool,
}

#[derive(Debug, Clone, PartialEq, Eq)]
pub struct CardEnchantment {
    pub card: Card,
    pub enchantment: ModelId,
}

#[derive(Debug, Clone, PartialEq, Eq)]
pub struct CardTransformation {
    pub original_card: Card,
    pub final_card: Card,
}

#[derive(Debug, Clone, PartialEq, Eq)]
pub struct EventChoice {
    pub title: LocString,
    pub variables: HashMap<String, Value>,
}

} // verus!
