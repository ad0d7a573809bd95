//! The world data model: dimensions, style, generation data, progress,
//! time, weather, events and angler state.
//!
//! Fractional quantities (wind speed, rain amount, sandstorm severities and
//! the like) are carried as the raw bit patterns of their on-disk
//! little-endian encodings, so that every codec in the crate round-trips
//! them exactly.

use vstd::prelude::*;

verus! {

/// The world difficulty mode.
#[derive(Debug, Clone, Copy, PartialEq, Eq, Structural)]
pub enum WorldMode {
    Normal,
    Expert,
    Master,
    Journey,
}

impl WorldMode {
    /// The byte sent to clients for this mode.
    pub fn to_u8(&self) -> (r: u8)
        ensures
            r == self.spec_u8(),
    {
        match self {
            WorldMode::Normal => 0,
            WorldMode::Expert => 1,
            WorldMode::Master => 2,
            WorldMode::Journey => 3,
        }
    }

    /// The byte sent to clients for this mode.
    pub open spec fn spec_u8(&self) -> u8 {
        match self {
            WorldMode::Normal => 0,
            WorldMode::Expert => 1,
            WorldMode::Master => 2,
            WorldMode::Journey => 3,
        }
    }

    /// The mode stored under the given value: 1 expert, 2 master,
    /// 3 journey, anything else normal.
    pub fn from_i32(v: i32) -> (r: WorldMode)
        ensures
            r == WorldMode::spec_from_i32(v),
    {
        if v == 1 {
            WorldMode::Expert
        } else if v == 2 {
            WorldMode::Master
        } else if v == 3 {
            WorldMode::Journey
        } else {
            WorldMode::Normal
        }
    }

    /// The mode stored under the given value.
    pub open spec fn spec_from_i32(v: i32) -> WorldMode {
        if v == 1 {
            WorldMode::Expert
        } else if v == 2 {
            WorldMode::Master
        } else if v == 3 {
            WorldMode::Journey
        } else {
            WorldMode::Normal
        }
    }
}

impl Default for WorldMode {
    /// A fresh world is a normal-mode world.
    fn default() -> (r: WorldMode)
        ensures
            r == WorldMode::Normal,
    {
        WorldMode::Normal
    }
}

/// Which evil biome the world generated with.
#[derive(Debug, Clone, Copy, PartialEq, Eq, Structural)]
pub enum CorruptionType {
    Corruption,
    Crimson,
}

/// The pixel bounds and tile dimensions of a world.
#[derive(Debug, Default, Clone, Copy, PartialEq, Eq, Structural)]
pub struct Dimensions {
    pub left: u32,
    pub right: u32,
    pub top: u32,
    pub bottom: u32,
    pub tile_width: u32,
    pub tile_height: u32,
}

/// Background and scenery styles.
#[derive(Debug, Clone, PartialEq, Eq)]
pub struct Style {
    pub moon_style: u8,
    pub forest_bg_x: Vec<u32>,
    pub forest_bg_style: Vec<u8>,
    pub cave_bg_x: Vec<u32>,
    pub cave_bg_style: Vec<u8>,
    pub snow_bg_style: u8,
    pub jungle_bg_style: u8,
    pub underworld_bg_style: u8,
    pub forest_bg: Vec<u8>,
    pub corruption_bg: u8,
    pub jungle_bg: u8,
    pub snow_bg: u8,
    pub hallow_bg: u8,
    pub crimson_bg: u8,
    pub desert_bg: u8,
    pub ocean_bg: u8,
    pub mushroom_bg: u8,
    pub underworld_bg: u8,
    pub tree_tops: Vec<u8>,
}

/// The style tables have their fixed protocol sizes: three forest and cave
/// background cut points, four styles of each, four forest backgrounds and
/// thirteen tree-top styles.
pub open spec fn style_wf(s: Style) -> bool {
    &&& s.forest_bg_x@.len() == 3
    &&& s.forest_bg_style@.len() == 4
    &&& s.cave_bg_x@.len() == 3
    &&& s.cave_bg_style@.len() == 4
    &&& s.forest_bg@.len() == 4
    &&& s.tree_tops@.len() == 13
}

impl Style {
    /// An all-zero style table.
    pub fn empty() -> (r: Style)
        ensures
            style_wf(r),
            r.moon_style == 0,
    {
        Style {
            moon_style: 0,
            forest_bg_x: vec![0u32, 0u32, 0u32],
            forest_bg_style: vec![0u8, 0u8, 0u8, 0u8],
            cave_bg_x: vec![0u32, 0u32, 0u32],
            cave_bg_style: vec![0u8, 0u8, 0u8, 0u8],
            snow_bg_style: 0,
            jungle_bg_style: 0,
            underworld_bg_style: 0,
            forest_bg: vec![0u8, 0u8, 0u8, 0u8],
            corruption_bg: 0,
            jungle_bg: 0,
            snow_bg: 0,
            hallow_bg: 0,
            crimson_bg: 0,
            desert_bg: 0,
            ocean_bg: 0,
            mushroom_bg: 0,
            underworld_bg: 0,
            tree_tops: vec![
                0u8,
                0u8,
                0u8,
                0u8,
                0u8,
                0u8,
                0u8,
                0u8,
                0u8,
                0u8,
                0u8,
                0u8,
                0u8,
            ],
        }
    }
}

/// The copper or tin ore tier, identified on disk by its item id.
#[derive(Debug, Clone, Copy, PartialEq, Eq, Structural)]
pub enum CopperTier {
    CopperOre,
    TinOre,
}

impl CopperTier {
    /// The underlying item id.
    pub open spec fn spec_u16(&self) -> u16 {
        match self {
            CopperTier::CopperOre => 7,
            CopperTier::TinOre => 166,
        }
    }

    /// The underlying item id.
    pub fn to_u16(&self) -> (r: u16)
        ensures
            r == self.spec_u16(),
    {
        match self {
            CopperTier::CopperOre => 7,
            CopperTier::TinOre => 166,
        }
    }

    /// The tier stored under the given item id, if the id names one.
    pub open spec fn spec_from_u16(v: u16) -> Option<CopperTier> {
        if v == 7 {
            Some(CopperTier::CopperOre)
        } else if v == 166 {
            Some(CopperTier::TinOre)
        } else {
            None
        }
    }

    /// The tier stored under the given item id, if the id names one.
    pub fn try_from_u16(v: u16) -> (r: Option<CopperTier>)
        ensures
            r == CopperTier::spec_from_u16(v),
    {
        if v == 7 {
            Some(CopperTier::CopperOre)
        } else if v == 166 {
            Some(CopperTier::TinOre)
        } else {
            None
        }
    }
}

/// The iron or lead ore tier, identified on disk by its item id.
#[derive(Debug, Clone, Copy, PartialEq, Eq, Structural)]
pub enum IronTier {
    IronOre,
    LeadOre,
}

impl IronTier {
    /// The underlying item id.
    pub open spec fn spec_u16(&self) -> u16 {
        match self {
            IronTier::IronOre => 6,
            IronTier::LeadOre => 167,
        }
    }

    /// The underlying item id.
    pub fn to_u16(&self) -> (r: u16)
        ensures
            r == self.spec_u16(),
    {
        match self {
            IronTier::IronOre => 6,
            IronTier::LeadOre => 167,
        }
    }

    /// The tier stored under the given item id, if the id names one.
    pub open spec fn spec_from_u16(v: u16) -> Option<IronTier> {
        if v == 6 {
            Some(IronTier::IronOre)
        } else if v == 167 {
            Some(IronTier::LeadOre)
        } else {
            None
        }
    }

    /// The tier stored under the given item id, if the id names one.
    pub fn try_from_u16(v: u16) -> (r: Option<IronTier>)
        ensures
            r == IronTier::spec_from_u16(v),
    {
        if v == 6 {
            Some(IronTier::IronOre)
        } else if v == 167 {
            Some(IronTier::LeadOre)
        } else {
            None
        }
    }
}

/// The silver or tungsten ore tier, identified on disk by its item id.
#[derive(Debug, Clone, Copy, PartialEq, Eq, Structural)]
pub enum SilverTier {
    SilverOre,
    TungstenOre,
}

impl SilverTier {
    /// The underlying item id.
    pub open spec fn spec_u16(&self) -> u16 {
        match self {
            SilverTier::SilverOre => 9,
            SilverTier::TungstenOre => 168,
        }
    }

    /// The underlying item id.
    pub fn to_u16(&self) -> (r: u16)
        ensures
            r == self.spec_u16(),
    {
        match self {
            SilverTier::SilverOre => 9,
            SilverTier::TungstenOre => 168,
        }
    }

    /// The tier stored under the given item id, if the id names one.
    pub open spec fn spec_from_u16(v: u16) -> Option<SilverTier> {
        if v == 9 {
            Some(SilverTier::SilverOre)
        } else if v == 168 {
            Some(SilverTier::TungstenOre)
        } else {
            None
        }
    }

    /// The tier stored under the given item id, if the id names one.
    pub fn try_from_u16(v: u16) -> (r: Option<SilverTier>)
        ensures
            r == SilverTier::spec_from_u16(v),
    {
        if v == 9 {
            Some(SilverTier::SilverOre)
        } else if v == 168 {
            Some(SilverTier::TungstenOre)
        } else {
            None
        }
    }
}

/// The gold or platinum ore tier, identified on disk by its item id.
#[derive(Debug, Clone, Copy, PartialEq, Eq, Structural)]
pub enum GoldTier {
    GoldOre,
    PlatinumOre,
}

impl GoldTier {
    /// The underlying item id.
    pub open spec fn spec_u16(&self) -> u16 {
        match self {
            GoldTier::GoldOre => 8,
            GoldTier::PlatinumOre => 166,
        }
    }

    /// The underlying item id.
    pub fn to_u16(&self) -> (r: u16)
        ensures
            r == self.spec_u16(),
    {
        match self {
            GoldTier::GoldOre => 8,
            GoldTier::PlatinumOre => 166,
        }
    }

    /// The tier stored under the given item id, if the id names one.
    pub open spec fn spec_from_u16(v: u16) -> Option<GoldTier> {
        if v == 8 {
            Some(GoldTier::GoldOre)
        } else if v == 166 {
            Some(GoldTier::PlatinumOre)
        } else {
            None
        }
    }

    /// The tier stored under the given item id, if the id names one.
    pub fn try_from_u16(v: u16) -> (r: Option<GoldTier>)
        ensures
            r == GoldTier::spec_from_u16(v),
    {
        if v == 8 {
            Some(GoldTier::GoldOre)
        } else if v == 166 {
            Some(GoldTier::PlatinumOre)
        } else {
            None
        }
    }
}

/// The cobalt or palladium ore tier, identified on disk by its item id.
#[derive(Debug, Clone, Copy, PartialEq, Eq, Structural)]
pub enum CobaltTier {
    CobaltOre,
    PalladiumOre,
}

impl CobaltTier {
    /// The underlying item id.
    pub open spec fn spec_u16(&self) -> u16 {
        match self {
            CobaltTier::CobaltOre => 107,
            CobaltTier::PalladiumOre => 221,
        }
    }

    /// The underlying item id.
    pub fn to_u16(&self) -> (r: u16)
        ensures
            r == self.spec_u16(),
    {
        match self {
            CobaltTier::CobaltOre => 107,
            CobaltTier::PalladiumOre => 221,
        }
    }

    /// The tier stored under the given item id, if the id names one.
    pub open spec fn spec_from_u16(v: u16) -> Option<CobaltTier> {
        if v == 107 {
            Some(CobaltTier::CobaltOre)
        } else if v == 221 {
            Some(CobaltTier::PalladiumOre)
        } else {
            None
        }
    }

    /// The tier stored under the given item id, if the id names one.
    pub fn try_from_u16(v: u16) -> (r: Option<CobaltTier>)
        ensures
            r == CobaltTier::spec_from_u16(v),
    {
        if v == 107 {
            Some(CobaltTier::CobaltOre)
        } else if v == 221 {
            Some(CobaltTier::PalladiumOre)
        } else {
            None
        }
    }
}

/// The mythril or orichalcum ore tier, identified on disk by its item id.
#[derive(Debug, Clone, Copy, PartialEq, Eq, Structural)]
pub enum MythrilTier {
    MythilTier,
    OrichalcumOre,
}

impl MythrilTier {
    /// The underlying item id.
    pub open spec fn spec_u16(&self) -> u16 {
        match self {
            MythrilTier::MythilTier => 108,
            MythrilTier::OrichalcumOre => 222,
        }
    }

    /// The underlying item id.
    pub fn to_u16(&self) -> (r: u16)
        ensures
            r == self.spec_u16(),
    {
        match self {
            MythrilTier::MythilTier => 108,
            MythrilTier::OrichalcumOre => 222,
        }
    }

    /// The tier stored under the given item id, if the id names one.
    pub open spec fn spec_from_u16(v: u16) -> Option<MythrilTier> {
        if v == 108 {
            Some(MythrilTier::MythilTier)
        } else if v == 222 {
            Some(MythrilTier::OrichalcumOre)
        } else {
            None
        }
    }

    /// The tier stored under the given item id, if the id names one.
    pub fn try_from_u16(v: u16) -> (r: Option<MythrilTier>)
        ensures
            r == MythrilTier::spec_from_u16(v),
    {
        if v == 108 {
            Some(MythrilTier::MythilTier)
        } else if v == 222 {
            Some(MythrilTier::OrichalcumOre)
        } else {
            None
        }
    }
}

/// The adamantite or titanium ore tier, identified on disk by its item id.
#[derive(Debug, Clone, Copy, PartialEq, Eq, Structural)]
pub enum AdamantiteTier {
    AdamantiteTier,
    TitaniumTier,
}

impl AdamantiteTier {
    /// The underlying item id.
    pub open spec fn spec_u16(&self) -> u16 {
        match self {
            AdamantiteTier::AdamantiteTier => 111,
            AdamantiteTier::TitaniumTier => 223,
        }
    }

    /// The underlying item id.
    pub fn to_u16(&self) -> (r: u16)
        ensures
            r == self.spec_u16(),
    {
        match self {
            AdamantiteTier::AdamantiteTier => 111,
            AdamantiteTier::TitaniumTier => 223,
        }
    }

    /// The tier stored under the given item id, if the id names one.
    pub open spec fn spec_from_u16(v: u16) -> Option<AdamantiteTier> {
        if v == 111 {
            Some(AdamantiteTier::AdamantiteTier)
        } else if v == 223 {
            Some(AdamantiteTier::TitaniumTier)
        } else {
            None
        }
    }

    /// The tier stored under the given item id, if the id names one.
    pub fn try_from_u16(v: u16) -> (r: Option<AdamantiteTier>)
        ensures
            r == AdamantiteTier::spec_from_u16(v),
    {
        if v == 111 {
            Some(AdamantiteTier::AdamantiteTier)
        } else if v == 223 {
            Some(AdamantiteTier::TitaniumTier)
        } else {
            None
        }
    }
}

/// Re-encoding a decoded ore tier yields the original underlying integer,
/// for each of the seven tier kinds.
pub proof fn lemma_ore_tier_round_trip(v: u16)
    ensures
        CopperTier::spec_from_u16(v) matches Some(t) ==> t.spec_u16() == v,
        IronTier::spec_from_u16(v) matches Some(t) ==> t.spec_u16() == v,
        SilverTier::spec_from_u16(v) matches Some(t) ==> t.spec_u16() == v,
        GoldTier::spec_from_u16(v) matches Some(t) ==> t.spec_u16() == v,
        CobaltTier::spec_from_u16(v) matches Some(t) ==> t.spec_u16() == v,
        MythrilTier::spec_from_u16(v) matches Some(t) ==> t.spec_u16() == v,
        AdamantiteTier::spec_from_u16(v) matches Some(t) ==> t.spec_u16() == v,
{
}

/// World-generation results: the seed, the evil biome, the two layer
/// depths and the seven ore tiers.
#[derive(Debug, Clone, Copy, PartialEq, Eq, Structural)]
pub struct GenerationData {
    pub seed: u64,
    pub corruption_type: CorruptionType,
    pub surface_y: u32,
    pub rock_layer_y: u32,
    pub copper_tier: CopperTier,
    pub iron_tier: IronTier,
    pub silver_tier: SilverTier,
    pub gold_tier: GoldTier,
    pub cobalt_tier: CobaltTier,
    pub mythril_tier: MythrilTier,
    pub adamantite_tier: AdamantiteTier,
}

impl Default for GenerationData {
    /// Fresh generation data names the first variant of every tier.
    fn default() -> (r: GenerationData)
        ensures
            r.seed == 0,
            r.corruption_type == CorruptionType::Corruption,
            r.surface_y == 0 && r.rock_layer_y == 0,
            r.copper_tier == CopperTier::CopperOre,
            r.iron_tier == IronTier::IronOre,
            r.silver_tier == SilverTier::SilverOre,
            r.gold_tier == GoldTier::GoldOre,
            r.cobalt_tier == CobaltTier::CobaltOre,
            r.mythril_tier == MythrilTier::MythilTier,
            r.adamantite_tier == AdamantiteTier::AdamantiteTier,
    {
        GenerationData {
            seed: 0,
            corruption_type: CorruptionType::Corruption,
            surface_y: 0,
            rock_layer_y: 0,
            copper_tier: CopperTier::CopperOre,
            iron_tier: IronTier::IronOre,
            silver_tier: SilverTier::SilverOre,
            gold_tier: GoldTier::GoldOre,
            cobalt_tier: CobaltTier::CobaltOre,
            mythril_tier: MythrilTier::MythilTier,
            adamantite_tier: AdamantiteTier::AdamantiteTier,
        }
    }
}

/// Boss, invasion, saved-helper and town-pet progress, with the broken
/// shadow orb and altar counters.
#[derive(Debug, Clone, PartialEq, Eq)]
pub struct Progress {
    pub is_hardmode: bool,
    pub defeated_clown: bool,
    pub defeated_destroyer: bool,
    pub defeated_duke_fishron: bool,
    pub defeated_eater_or_brain: bool,
    pub defeated_empress_of_light: bool,
    pub defeated_everscream: bool,
    pub defeated_eye_of_cthulu: bool,
    pub defeated_golem: bool,
    pub defeated_ice_queen: bool,
    pub defeated_king_slime: bool,
    pub defeated_lunatic_cultist: bool,
    pub defeated_moon_lord: bool,
    pub defeated_mourning_wood: bool,
    pub defeated_nebula_pillar: bool,
    pub defeated_plantera: bool,
    pub defeated_pumpking: bool,
    pub defeated_queen_bee: bool,
    pub defeated_queen_slime: bool,
    pub defeated_santa_nk1: bool,
    pub defeated_skeletron: bool,
    pub defeated_skeletron_prime: bool,
    pub defeated_solar_pillar: bool,
    pub defeated_stardust_pillar: bool,
    pub defeated_twins: bool,
    pub defeated_vortex_pillar: bool,
    pub defeated_frost_legion: bool,
    pub defeated_goblin_army: bool,
    pub defeated_martians: bool,
    pub defeated_old_ones_army_tier_1: bool,
    pub defeated_old_ones_army_tier_2: bool,
    pub defeated_old_ones_army_tier_3: bool,
    pub defeated_pirates: bool,
    pub saved_angler: bool,
    pub saved_bartender: bool,
    pub saved_goblin: bool,
    pub saved_golfer: bool,
    pub saved_mechanic: bool,
    pub saved_stylist: bool,
    pub saved_tax_collector: bool,
    pub saved_wizard: bool,
    pub purchased_cat: bool,
    pub purchased_dog: bool,
    pub purchased_bunny: bool,
    pub shadow_orbs_broken: u8,
    pub altars_broken: u32,
    pub used_combat_book: bool,
    pub entity_kill_counts: Vec<u32>,
}

/// The in-game clock.
#[derive(Debug, Clone, Copy, PartialEq, Eq, Structural)]
pub struct Time {
    pub is_day: bool,
    pub time: u32,
    pub moon_phase: u8,
    pub is_fast_forwarding: bool,
    pub sundial_cooldown: u8,
}

/// Wind, clouds, rain and sandstorms. The wind speed, rain amount and
/// sandstorm severities are 32-bit little-endian fraction bit patterns.
#[derive(Debug, Clone, Copy, PartialEq, Eq, Structural)]
pub struct Weather {
    pub wind_speed_bits: u32,
    pub active_cloud_bg: i32,
    pub num_clouds: u16,
    pub is_raining: bool,
    pub rain_time: u32,
    pub rain_amount_bits: u32,
    pub is_sandstorm_happening: bool,
    pub sandstorm_remaining_time: i32,
    pub sandstorm_severity_bits: u32,
    pub sandstorm_intended_severity_bits: u32,
}

/// One-off and recurring world events.
#[derive(Debug, Clone, PartialEq, Eq)]
pub struct Events {
    pub slime_rain_remaining_time: i32,
    pub is_blood_moon_happening: bool,
    pub is_meteor_queued: bool,
    pub is_eclipse_happening: bool,
    pub is_halloween_forced: bool,
    pub is_christmas_forced: bool,
    pub cultist_remaining_time: i32,
    pub invasion_type: u8,
    pub invasion_delay: i32,
    pub invasion_start_size: i32,
    pub invasion_size: i32,
    pub invasion_x: u32,
    pub lantern_night_cooldown: u8,
    pub is_lantern_night_queued: bool,
    pub is_solar_pillar_alive: bool,
    pub is_vortex_pillar_alive: bool,
    pub is_nebula_pillar_alive: bool,
    pub is_stardust_pillar_alive: bool,
    pub is_impending_doom_approaching: bool,
    pub is_party_manual: bool,
    pub is_party_genuine: bool,
    pub party_cooldown: u8,
    pub partying_npcs: Vec<u32>,
}

/// Angler quest state.
#[derive(Debug, Clone, PartialEq, Eq)]
pub struct Angler {
    pub completed_quests: Vec<String>,
    pub quest: u8,
}

impl Default for Progress {
    /// The all-clear state: every flag false, every counter zero, every
    /// list empty.
    fn default() -> (r: Progress)
        ensures
            r.is_hardmode == false,
            r.defeated_clown == false,
            r.defeated_destroyer == false,
            r.defeated_duke_fishron == false,
            r.defeated_eater_or_brain == false,
            r.defeated_empress_of_light == false,
            r.defeated_everscream == false,
            r.defeated_eye_of_cthulu == false,
            r.defeated_golem == false,
            r.defeated_ice_queen == false,
            r.defeated_king_slime == false,
            r.defeated_lunatic_cultist == false,
            r.defeated_moon_lord == false,
            r.defeated_mourning_wood == false,
            r.defeated_nebula_pillar == false,
            r.defeated_plantera == false,
            r.defeated_pumpking == false,
            r.defeated_queen_bee == false,
            r.defeated_queen_slime == false,
            r.defeated_santa_nk1 == false,
            r.defeated_skeletron == false,
            r.defeated_skeletron_prime == false,
            r.defeated_solar_pillar == false,
            r.defeated_stardust_pillar == false,
            r.defeated_twins == false,
            r.defeated_vortex_pillar == false,
            r.defeated_frost_legion == false,
            r.defeated_goblin_army == false,
            r.defeated_martians == false,
            r.defeated_old_ones_army_tier_1 == false,
            r.defeated_old_ones_army_tier_2 == false,
            r.defeated_old_ones_army_tier_3 == false,
            r.defeated_pirates == false,
            r.saved_angler == false,
            r.saved_bartender == false,
            r.saved_goblin == false,
            r.saved_golfer == false,
            r.saved_mechanic == false,
            r.saved_stylist == false,
            r.saved_tax_collector == false,
            r.saved_wizard == false,
            r.purchased_cat == false,
            r.purchased_dog == false,
            r.purchased_bunny == false,
            r.shadow_orbs_broken == 0,
            r.altars_broken == 0,
            r.used_combat_book == false,
            r.entity_kill_counts@.len() == 0,
    {
        Progress {
            is_hardmode: false,
            defeated_clown: false,
            defeated_destroyer: false,
            defeated_duke_fishron: false,
            defeated_eater_or_brain: false,
            defeated_empress_of_light: false,
            defeated_everscream: false,
            defeated_eye_of_cthulu: false,
            defeated_golem: false,
            defeated_ice_queen: false,
            defeated_king_slime: false,
            defeated_lunatic_cultist: false,
            defeated_moon_lord: false,
            defeated_mourning_wood: false,
            defeated_nebula_pillar: false,
            defeated_plantera: false,
            defeated_pumpking: false,
            defeated_queen_bee: false,
            defeated_queen_slime: false,
            defeated_santa_nk1: false,
            defeated_skeletron: false,
            defeated_skeletron_prime: false,
            defeated_solar_pillar: false,
            defeated_stardust_pillar: false,
            defeated_twins: false,
            defeated_vortex_pillar: false,
            defeated_frost_legion: false,
            defeated_goblin_army: false,
            defeated_martians: false,
            defeated_old_ones_army_tier_1: false,
            defeated_old_ones_army_tier_2: false,
            defeated_old_ones_army_tier_3: false,
            defeated_pirates: false,
            saved_angler: false,
            saved_bartender: false,
            saved_goblin: false,
            saved_golfer: false,
            saved_mechanic: false,
            saved_stylist: false,
            saved_tax_collector: false,
            saved_wizard: false,
            purchased_cat: false,
            purchased_dog: false,
            purchased_bunny: false,
            shadow_orbs_broken: 0,
            altars_broken: 0,
            used_combat_book: false,
            entity_kill_counts: Vec::new(),
        }
    }
}

impl Default for Time {
    /// The all-clear state: every flag false, every counter zero, every
    /// list empty.
    fn default() -> (r: Time)
        ensures
            r.is_day == false,
            r.time == 0,
            r.moon_phase == 0,
            r.is_fast_forwarding == false,
            r.sundial_cooldown == 0,
    {
        Time {
            is_day: false,
            time: 0,
            moon_phase: 0,
            is_fast_forwarding: false,
            sundial_cooldown: 0,
        }
    }
}

impl Default for Weather {
    /// The all-clear state: every flag false, every counter zero, every
    /// list empty.
    fn default() -> (r: Weather)
        ensures
            r.wind_speed_bits == 0,
            r.active_cloud_bg == 0,
            r.num_clouds == 0,
            r.is_raining == false,
            r.rain_time == 0,
            r.rain_amount_bits == 0,
            r.is_sandstorm_happening == false,
            r.sandstorm_remaining_time == 0,
            r.sandstorm_severity_bits == 0,
            r.sandstorm_intended_severity_bits == 0,
    {
        Weather {
            wind_speed_bits: 0,
            active_cloud_bg: 0,
            num_clouds: 0,
            is_raining: false,
            rain_time: 0,
            rain_amount_bits: 0,
            is_sandstorm_happening: false,
            sandstorm_remaining_time: 0,
            sandstorm_severity_bits: 0,
            sandstorm_intended_severity_bits: 0,
        }
    }
}

impl Default for Events {
    /// The all-clear state: every flag false, every counter zero, every
    /// list empty.
    fn default() -> (r: Events)
        ensures
            r.slime_rain_remaining_time == 0,
            r.is_blood_moon_happening == false,
            r.is_meteor_queued == false,
            r.is_eclipse_happening == false,
            r.is_halloween_forced == false,
            r.is_christmas_forced == false,
            r.cultist_remaining_time == 0,
            r.invasion_type == 0,
            r.invasion_delay == 0,
            r.invasion_start_size == 0,
            r.invasion_size == 0,
            r.invasion_x == 0,
            r.lantern_night_cooldown == 0,
            r.is_lantern_night_queued == false,
            r.is_solar_pillar_alive == false,
            r.is_vortex_pillar_alive == false,
            r.is_nebula_pillar_alive == false,
            r.is_stardust_pillar_alive == false,
            r.is_impending_doom_approaching == false,
            r.is_party_manual == false,
            r.is_party_genuine == false,
            r.party_cooldown == 0,
            r.partying_npcs@.len() == 0,
    {
        Events {
            slime_rain_remaining_time: 0,
            is_blood_moon_happening: false,
            is_meteor_queued: false,
            is_eclipse_happening: false,
            is_halloween_forced: false,
            is_christmas_forced: false,
            cultist_remaining_time: 0,
            invasion_type: 0,
            invasion_delay: 0,
            invasion_start_size: 0,
            invasion_size: 0,
            invasion_x: 0,
            lantern_night_cooldown: 0,
            is_lantern_night_queued: false,
            is_solar_pillar_alive: false,
            is_vortex_pillar_alive: false,
            is_nebula_pillar_alive: false,
            is_stardust_pillar_alive: false,
            is_impending_doom_approaching: false,
            is_party_manual: false,
            is_party_genuine: false,
            party_cooldown: 0,
            partying_npcs: Vec::new(),
        }
    }
}

impl Default for Angler {
    /// The all-clear state: every flag false, every counter zero, every
    /// list empty.
    fn default() -> (r: Angler)
        ensures
            r.completed_quests@.len() == 0,
            r.quest == 0,
    {
        Angler {
            completed_quests: Vec::new(),
            quest: 0,
        }
    }
}

} // verus!
