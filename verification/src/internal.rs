//! The internal world file: the world metadata in a compact fixed-width
//! encoding. On disk the record is wrapped in a deflate stream at the
//! file-handling edge; this module works on the plain record bytes.
//!
//! The encoding is canonical: the reader re-encodes what it parsed and
//! accepts the input only when the bytes agree, so writing back a record
//! that was read reproduces it byte for byte.

use vstd::prelude::*;

verus! {

use vstd::bytes::{spec_u16_to_le_bytes, spec_u32_to_le_bytes, spec_u64_to_le_bytes,
    spec_u128_to_le_bytes};
use vstd::utf8::encode_utf8;
use crate::wire::{put_u8, put_bool, put_u16, put_u32, put_u64, put_u128, take_u8, take_bool,
    take_u16, take_u32, take_u64, take_u128, take_bytes, bool_byte};
use crate::world::{World, WorldError, world_wf};
use crate::world_types::{WorldMode, CorruptionType, CopperTier, IronTier, SilverTier, GoldTier,
    CobaltTier, MythrilTier, AdamantiteTier, Style, style_wf};
use crate::tile::TileCoord;
use std::io::Read;
use std::io::Write;

/// A string stored as its 32-bit byte count and its UTF-8 bytes.
pub open spec fn lenstr_bytes(s: Seq<char>) -> Seq<u8> {
    spec_u32_to_le_bytes(encode_utf8(s).len() as u32) + encode_utf8(s)
}

/// 32-bit values, one after the other.
pub open spec fn u32s_cat(s: Seq<u32>) -> Seq<u8>
    decreases s.len(),
{
    if s.len() == 0 {
        Seq::empty()
    } else {
        spec_u32_to_le_bytes(s[0]) + u32s_cat(s.drop_first())
    }
}

/// A list of 32-bit values stored as its count and its values.
pub open spec fn u32s_lbytes(s: Seq<u32>) -> Seq<u8> {
    spec_u32_to_le_bytes(s.len() as u32) + u32s_cat(s)
}

/// Counted strings, one after the other.
pub open spec fn strs_cat(s: Seq<Seq<char>>) -> Seq<u8>
    decreases s.len(),
{
    if s.len() == 0 {
        Seq::empty()
    } else {
        lenstr_bytes(s[0]) + strs_cat(s.drop_first())
    }
}

/// The byte stored for the evil biome.
pub open spec fn corruption_byte(c: CorruptionType) -> u8 {
    match c {
        CorruptionType::Corruption => 0,
        CorruptionType::Crimson => 1,
    }
}

/// The identity and generation part of the record head.
pub open spec fn ident_ibytes(w: World) -> Seq<u8> {
    lenstr_bytes(w.name@) + spec_u32_to_le_bytes(w.id as u32) + spec_u128_to_le_bytes(w.uuid)
        + spec_u64_to_le_bytes(w.gen_data.seed) + seq![corruption_byte(
        w.gen_data.corruption_type,
    )] + spec_u32_to_le_bytes(w.gen_data.surface_y) + spec_u32_to_le_bytes(
        w.gen_data.rock_layer_y,
    )
}

/// The seven ore tiers of the record head.
pub open spec fn tiers_ibytes(w: World) -> Seq<u8> {
    spec_u16_to_le_bytes(w.gen_data.copper_tier.spec_u16()) + spec_u16_to_le_bytes(
        w.gen_data.iron_tier.spec_u16(),
    ) + spec_u16_to_le_bytes(w.gen_data.silver_tier.spec_u16()) + spec_u16_to_le_bytes(
        w.gen_data.gold_tier.spec_u16(),
    ) + spec_u16_to_le_bytes(w.gen_data.cobalt_tier.spec_u16()) + spec_u16_to_le_bytes(
        w.gen_data.mythril_tier.spec_u16(),
    ) + spec_u16_to_le_bytes(w.gen_data.adamantite_tier.spec_u16())
}

/// The dimensions, mode and key coordinates of the record head.
pub open spec fn dims_ibytes(w: World) -> Seq<u8> {
    spec_u32_to_le_bytes(w.dimensions.left) + spec_u32_to_le_bytes(w.dimensions.right)
        + spec_u32_to_le_bytes(w.dimensions.top) + spec_u32_to_le_bytes(w.dimensions.bottom)
        + spec_u32_to_le_bytes(w.dimensions.tile_width) + spec_u32_to_le_bytes(
        w.dimensions.tile_height,
    ) + seq![w.worldmode.spec_u8()] + spec_u16_to_le_bytes(w.spawn_coord.x)
        + spec_u16_to_le_bytes(w.spawn_coord.y) + spec_u16_to_le_bytes(w.dungeon_coord.x)
        + spec_u16_to_le_bytes(w.dungeon_coord.y)
}

/// The style block of the record.
pub open spec fn style_ibytes(s: Style) -> Seq<u8> {
    seq![s.moon_style] + spec_u32_to_le_bytes(s.forest_bg_x@[0]) + spec_u32_to_le_bytes(
        s.forest_bg_x@[1],
    ) + spec_u32_to_le_bytes(s.forest_bg_x@[2]) + seq![
        s.forest_bg_style@[0],
        s.forest_bg_style@[1],
        s.forest_bg_style@[2],
        s.forest_bg_style@[3],
    ] + spec_u32_to_le_bytes(s.cave_bg_x@[0]) + spec_u32_to_le_bytes(s.cave_bg_x@[1])
        + spec_u32_to_le_bytes(s.cave_bg_x@[2]) + seq![
        s.cave_bg_style@[0],
        s.cave_bg_style@[1],
        s.cave_bg_style@[2],
        s.cave_bg_style@[3],
        s.snow_bg_style,
        s.jungle_bg_style,
        s.underworld_bg_style,
        s.forest_bg@[0],
        s.forest_bg@[1],
        s.forest_bg@[2],
        s.forest_bg@[3],
        s.corruption_bg,
        s.jungle_bg,
        s.snow_bg,
        s.hallow_bg,
        s.crimson_bg,
        s.desert_bg,
        s.ocean_bg,
        s.mushroom_bg,
        s.underworld_bg,
        s.tree_tops@[0],
        s.tree_tops@[1],
        s.tree_tops@[2],
        s.tree_tops@[3],
        s.tree_tops@[4],
        s.tree_tops@[5],
        s.tree_tops@[6],
        s.tree_tops@[7],
        s.tree_tops@[8],
        s.tree_tops@[9],
        s.tree_tops@[10],
        s.tree_tops@[11],
        s.tree_tops@[12],
    ]
}

/// Flag bytes of the record (pflags0).
pub open spec fn pflags0_bytes(w: World) -> Seq<u8> {
    seq![
        bool_byte(w.progress.is_hardmode),
        bool_byte(w.progress.defeated_clown),
        bool_byte(w.progress.defeated_destroyer),
        bool_byte(w.progress.defeated_duke_fishron),
        bool_byte(w.progress.defeated_eater_or_brain),
        bool_byte(w.progress.defeated_empress_of_light),
        bool_byte(w.progress.defeated_everscream),
        bool_byte(w.progress.defeated_eye_of_cthulu),
    ]
}

/// Flag bytes of the record (pflags1).
pub open spec fn pflags1_bytes(w: World) -> Seq<u8> {
    seq![
        bool_byte(w.progress.defeated_golem),
        bool_byte(w.progress.defeated_ice_queen),
        bool_byte(w.progress.defeated_king_slime),
        bool_byte(w.progress.defeated_lunatic_cultist),
        bool_byte(w.progress.defeated_moon_lord),
        bool_byte(w.progress.defeated_mourning_wood),
        bool_byte(w.progress.defeated_nebula_pillar),
        bool_byte(w.progress.defeated_plantera),
    ]
}

/// Flag bytes of the record (pflags2).
pub open spec fn pflags2_bytes(w: World) -> Seq<u8> {
    seq![
        bool_byte(w.progress.defeated_pumpking),
        bool_byte(w.progress.defeated_queen_bee),
        bool_byte(w.progress.defeated_queen_slime),
        bool_byte(w.progress.defeated_santa_nk1),
        bool_byte(w.progress.defeated_skeletron),
        bool_byte(w.progress.defeated_skeletron_prime),
        bool_byte(w.progress.defeated_solar_pillar),
        bool_byte(w.progress.defeated_stardust_pillar),
    ]
}

/// Flag bytes of the record (pflags3).
pub open spec fn pflags3_bytes(w: World) -> Seq<u8> {
    seq![
        bool_byte(w.progress.defeated_twins),
        bool_byte(w.progress.defeated_vortex_pillar),
        bool_byte(w.progress.defeated_frost_legion),
        bool_byte(w.progress.defeated_goblin_army),
        bool_byte(w.progress.defeated_martians),
        bool_byte(w.progress.defeated_old_ones_army_tier_1),
        bool_byte(w.progress.defeated_old_ones_army_tier_2),
        bool_byte(w.progress.defeated_old_ones_army_tier_3),
    ]
}

/// Flag bytes of the record (pflags4).
pub open spec fn pflags4_bytes(w: World) -> Seq<u8> {
    seq![
        bool_byte(w.progress.defeated_pirates),
        bool_byte(w.progress.saved_angler),
        bool_byte(w.progress.saved_bartender),
        bool_byte(w.progress.saved_goblin),
        bool_byte(w.progress.saved_golfer),
        bool_byte(w.progress.saved_mechanic),
        bool_byte(w.progress.saved_stylist),
        bool_byte(w.progress.saved_tax_collector),
    ]
}

/// Flag bytes of the record (pflags5).
pub open spec fn pflags5_bytes(w: World) -> Seq<u8> {
    seq![
        bool_byte(w.progress.saved_wizard),
        bool_byte(w.progress.purchased_cat),
        bool_byte(w.progress.purchased_dog),
        bool_byte(w.progress.purchased_bunny),
    ]
}

/// The progress block of the record.
pub open spec fn progress_ibytes(w: World) -> Seq<u8> {
    pflags0_bytes(w) + pflags1_bytes(w) + pflags2_bytes(w) + pflags3_bytes(w) + pflags4_bytes(w) + pflags5_bytes(w) + seq![w.progress.shadow_orbs_broken] + spec_u32_to_le_bytes(
        w.progress.altars_broken,
    ) + seq![bool_byte(w.progress.used_combat_book)] + u32s_lbytes(
        w.progress.entity_kill_counts@,
    )
}

/// The clock block of the record.
pub open spec fn time_ibytes(w: World) -> Seq<u8> {
    seq![bool_byte(w.time.is_day)] + spec_u32_to_le_bytes(w.time.time) + seq![
        w.time.moon_phase,
        bool_byte(w.time.is_fast_forwarding),
        w.time.sundial_cooldown,
    ]
}

/// The weather block of the record.
pub open spec fn weather_ibytes(w: World) -> Seq<u8> {
    spec_u32_to_le_bytes(w.weather.wind_speed_bits) + spec_u32_to_le_bytes(
        w.weather.active_cloud_bg as u32,
    ) + spec_u16_to_le_bytes(w.weather.num_clouds) + seq![bool_byte(w.weather.is_raining)]
        + spec_u32_to_le_bytes(w.weather.rain_time) + spec_u32_to_le_bytes(
        w.weather.rain_amount_bits,
    ) + seq![bool_byte(w.weather.is_sandstorm_happening)] + spec_u32_to_le_bytes(
        w.weather.sandstorm_remaining_time as u32,
    ) + spec_u32_to_le_bytes(w.weather.sandstorm_severity_bits) + spec_u32_to_le_bytes(
        w.weather.sandstorm_intended_severity_bits,
    )
}

/// Flag bytes of the record (eflags0).
pub open spec fn eflags0_bytes(w: World) -> Seq<u8> {
    seq![
        bool_byte(w.events.is_blood_moon_happening),
        bool_byte(w.events.is_meteor_queued),
        bool_byte(w.events.is_eclipse_happening),
        bool_byte(w.events.is_halloween_forced),
        bool_byte(w.events.is_christmas_forced),
        bool_byte(w.events.is_lantern_night_queued),
        bool_byte(w.events.is_solar_pillar_alive),
    ]
}

/// Flag bytes of the record (eflags1).
pub open spec fn eflags1_bytes(w: World) -> Seq<u8> {
    seq![
        bool_byte(w.events.is_vortex_pillar_alive),
        bool_byte(w.events.is_nebula_pillar_alive),
        bool_byte(w.events.is_stardust_pillar_alive),
        bool_byte(w.events.is_impending_doom_approaching),
        bool_byte(w.events.is_party_manual),
        bool_byte(w.events.is_party_genuine),
    ]
}

/// The events block of the record.
pub open spec fn events_ibytes(w: World) -> Seq<u8> {
    spec_u32_to_le_bytes(w.events.slime_rain_remaining_time as u32) + eflags0_bytes(w) + eflags1_bytes(w)
        + spec_u32_to_le_bytes(w.events.cultist_remaining_time as u32) + seq![
        w.events.invasion_type,
    ] + spec_u32_to_le_bytes(w.events.invasion_delay as u32) + spec_u32_to_le_bytes(
        w.events.invasion_start_size as u32,
    ) + spec_u32_to_le_bytes(w.events.invasion_size as u32) + spec_u32_to_le_bytes(
        w.events.invasion_x,
    ) + seq![w.events.lantern_night_cooldown, w.events.party_cooldown] + u32s_lbytes(
        w.events.partying_npcs@,
    )
}

/// The angler block and the chunk size.
pub open spec fn tail_ibytes(w: World) -> Seq<u8> {
    spec_u32_to_le_bytes(w.angler.completed_quests@.len() as u32) + strs_cat(
        w.angler.completed_quests@.map_values(|q: String| q@),
    ) + seq![w.angler.quest] + spec_u16_to_le_bytes(w.chunk_size)
}

/// The whole world record, uncompressed.
pub open spec fn world_bytes(w: World) -> Seq<u8> {
    ident_ibytes(w) + tiers_ibytes(w) + dims_ibytes(w) + style_ibytes(w.style) + progress_ibytes(
        w,
    ) + time_ibytes(w) + weather_ibytes(w) + events_ibytes(w) + tail_ibytes(w)
}

/// All counted fields of the world fit their 32-bit length prefixes.
pub open spec fn world_bounded(w: World) -> bool {
    &&& encode_utf8(w.name@).len() <= 0xFFFF_FFFF
    &&& w.progress.entity_kill_counts@.len() <= 0xFFFF_FFFF
    &&& w.events.partying_npcs@.len() <= 0xFFFF_FFFF
    &&& w.angler.completed_quests@.len() <= 0xFFFF_FFFF
    &&& forall|i: int|
        0 <= i < w.angler.completed_quests@.len() ==> encode_utf8(
            #[trigger] w.angler.completed_quests@[i]@,
        ).len() <= 0xFFFF_FFFF
}

/// Append a counted string.
fn put_lenstr(out: &mut Vec<u8>, s: &str)
    requires
        encode_utf8(s@).len() <= 0xFFFF_FFFF,
    ensures
        final(out)@ == old(out)@ + lenstr_bytes(s@),
{
    let bs = s.as_bytes();
    put_u32(out, bs.len() as u32);
    out.extend_from_slice(bs);
    assert(final(out)@ =~= old(out)@ + lenstr_bytes(s@));
}

/// Reading one more value appends its encoding.
pub(crate) proof fn lemma_u32s_cat_take(s: Seq<u32>, i: int)
    requires
        0 <= i < s.len(),
    ensures
        u32s_cat(s.take(i + 1)) == u32s_cat(s.take(i)) + spec_u32_to_le_bytes(s[i]),
    decreases i,
{
    if i == 0 {
        assert(s.take(1).drop_first() =~= Seq::<u32>::empty());
        assert(s.take(1)[0] == s[0]);
        assert(u32s_cat(s.take(0)) == Seq::<u8>::empty());
        assert(u32s_cat(s.take(1)) == spec_u32_to_le_bytes(s[0]) + u32s_cat(
            s.take(1).drop_first(),
        ));
        assert(u32s_cat(s.take(0)) + spec_u32_to_le_bytes(s[0]) =~= spec_u32_to_le_bytes(s[0])
            + Seq::<u8>::empty());
    } else {
        lemma_u32s_cat_take(s.drop_first(), i - 1);
        assert(s.take(i + 1).drop_first() =~= s.drop_first().take(i));
        assert(s.take(i).drop_first() =~= s.drop_first().take(i - 1));
        assert(s.drop_first()[i - 1] == s[i]);
        assert(s.take(i + 1)[0] == s[0]);
        assert(s.take(i)[0] == s[0]);
        assert(spec_u32_to_le_bytes(s.take(i + 1)[0]) + (u32s_cat(s.drop_first().take(i - 1))
            + spec_u32_to_le_bytes(s[i])) =~= (spec_u32_to_le_bytes(s.take(i + 1)[0]) + u32s_cat(
            s.drop_first().take(i - 1),
        )) + spec_u32_to_le_bytes(s[i]));
    }
}

/// Append a counted list of 32-bit values.
fn put_u32s(out: &mut Vec<u8>, vs: &Vec<u32>)
    requires
        vs@.len() <= 0xFFFF_FFFF,
    ensures
        final(out)@ == old(out)@ + u32s_lbytes(vs@),
{
    put_u32(out, vs.len() as u32);
    let ghost start = out@;
    let mut i: usize = 0;
    while i < vs.len()
        invariant
            i <= vs@.len(),
            out@ == start + u32s_cat(vs@.take(i as int)),
        decreases vs@.len() - i,
    {
        put_u32(out, vs[i]);
        proof {
            lemma_u32s_cat_take(vs@, i as int);
        }
        i = i + 1;
    }
    proof {
        assert(vs@.take(vs@.len() as int) =~= vs@);
        assert(final(out)@ =~= old(out)@ + u32s_lbytes(vs@));
    }
}

/// Reading one more string appends its encoding.
proof fn lemma_strs_cat_take(s: Seq<Seq<char>>, i: int)
    requires
        0 <= i < s.len(),
    ensures
        strs_cat(s.take(i + 1)) == strs_cat(s.take(i)) + lenstr_bytes(s[i]),
    decreases i,
{
    if i == 0 {
        assert(s.take(1).drop_first() =~= Seq::<Seq<char>>::empty());
        assert(s.take(1)[0] == s[0]);
        assert(strs_cat(s.take(0)) == Seq::<u8>::empty());
        assert(strs_cat(s.take(1)) == lenstr_bytes(s[0]) + strs_cat(s.take(1).drop_first()));
        assert(strs_cat(s.take(0)) + lenstr_bytes(s[0]) =~= lenstr_bytes(s[0])
            + Seq::<u8>::empty());
    } else {
        lemma_strs_cat_take(s.drop_first(), i - 1);
        assert(s.take(i + 1).drop_first() =~= s.drop_first().take(i));
        assert(s.take(i).drop_first() =~= s.drop_first().take(i - 1));
        assert(s.drop_first()[i - 1] == s[i]);
        assert(s.take(i + 1)[0] == s[0]);
        assert(s.take(i)[0] == s[0]);
        assert(lenstr_bytes(s.take(i + 1)[0]) + (strs_cat(s.drop_first().take(i - 1))
            + lenstr_bytes(s[i])) =~= (lenstr_bytes(s.take(i + 1)[0]) + strs_cat(
            s.drop_first().take(i - 1),
        )) + lenstr_bytes(s[i]));
    }
}

/// Append the identity and generation part of the head.
fn put_ident(out: &mut Vec<u8>, w: &World)
    requires
        encode_utf8(w.name@).len() <= 0xFFFF_FFFF,
    ensures
        final(out)@ == old(out)@ + ident_ibytes(*w),
{
    put_lenstr(out, w.name.as_str());
    put_u32(out, #[verifier::truncate] (w.id as u32));
    put_u128(out, w.uuid);
    put_u64(out, w.gen_data.seed);
    match w.gen_data.corruption_type {
        CorruptionType::Corruption => put_u8(out, 0),
        CorruptionType::Crimson => put_u8(out, 1),
    }
    put_u32(out, w.gen_data.surface_y);
    put_u32(out, w.gen_data.rock_layer_y);
    assert(final(out)@ =~= old(out)@ + ident_ibytes(*w));
}

/// Append the seven ore tiers.
fn put_tiers(out: &mut Vec<u8>, w: &World)
    ensures
        final(out)@ == old(out)@ + tiers_ibytes(*w),
{
    put_u16(out, w.gen_data.copper_tier.to_u16());
    put_u16(out, w.gen_data.iron_tier.to_u16());
    put_u16(out, w.gen_data.silver_tier.to_u16());
    put_u16(out, w.gen_data.gold_tier.to_u16());
    put_u16(out, w.gen_data.cobalt_tier.to_u16());
    put_u16(out, w.gen_data.mythril_tier.to_u16());
    put_u16(out, w.gen_data.adamantite_tier.to_u16());
    assert(final(out)@ =~= old(out)@ + tiers_ibytes(*w));
}

/// Append the dimensions, mode and key coordinates.
fn put_dims(out: &mut Vec<u8>, w: &World)
    ensures
        final(out)@ == old(out)@ + dims_ibytes(*w),
{
    put_u32(out, w.dimensions.left);
    put_u32(out, w.dimensions.right);
    put_u32(out, w.dimensions.top);
    put_u32(out, w.dimensions.bottom);
    put_u32(out, w.dimensions.tile_width);
    put_u32(out, w.dimensions.tile_height);
    put_u8(out, w.worldmode.to_u8());
    put_u16(out, w.spawn_coord.x);
    put_u16(out, w.spawn_coord.y);
    put_u16(out, w.dungeon_coord.x);
    put_u16(out, w.dungeon_coord.y);
    assert(final(out)@ =~= old(out)@ + dims_ibytes(*w));
}

/// Append the style block.
fn put_style(out: &mut Vec<u8>, s: &Style)
    requires
        style_wf(*s),
    ensures
        final(out)@ == old(out)@ + style_ibytes(*s),
{
    put_u8(out, s.moon_style);
    put_u32(out, s.forest_bg_x[0]);
    put_u32(out, s.forest_bg_x[1]);
    put_u32(out, s.forest_bg_x[2]);
    put_u8(out, s.forest_bg_style[0]);
    put_u8(out, s.forest_bg_style[1]);
    put_u8(out, s.forest_bg_style[2]);
    put_u8(out, s.forest_bg_style[3]);
    put_u32(out, s.cave_bg_x[0]);
    put_u32(out, s.cave_bg_x[1]);
    put_u32(out, s.cave_bg_x[2]);
    put_u8(out, s.cave_bg_style[0]);
    put_u8(out, s.cave_bg_style[1]);
    put_u8(out, s.cave_bg_style[2]);
    put_u8(out, s.cave_bg_style[3]);
    put_u8(out, s.snow_bg_style);
    put_u8(out, s.jungle_bg_style);
    put_u8(out, s.underworld_bg_style);
    put_u8(out, s.forest_bg[0]);
    put_u8(out, s.forest_bg[1]);
    put_u8(out, s.forest_bg[2]);
    put_u8(out, s.forest_bg[3]);
    put_u8(out, s.corruption_bg);
    put_u8(out, s.jungle_bg);
    put_u8(out, s.snow_bg);
    put_u8(out, s.hallow_bg);
    put_u8(out, s.crimson_bg);
    put_u8(out, s.desert_bg);
    put_u8(out, s.ocean_bg);
    put_u8(out, s.mushroom_bg);
    put_u8(out, s.underworld_bg);
    put_u8(out, s.tree_tops[0]);
    put_u8(out, s.tree_tops[1]);
    put_u8(out, s.tree_tops[2]);
    put_u8(out, s.tree_tops[3]);
    put_u8(out, s.tree_tops[4]);
    put_u8(out, s.tree_tops[5]);
    put_u8(out, s.tree_tops[6]);
    put_u8(out, s.tree_tops[7]);
    put_u8(out, s.tree_tops[8]);
    put_u8(out, s.tree_tops[9]);
    put_u8(out, s.tree_tops[10]);
    put_u8(out, s.tree_tops[11]);
    put_u8(out, s.tree_tops[12]);
    assert(final(out)@ =~= old(out)@ + style_ibytes(*s));
}

/// Append the pflags0 flag bytes.
fn put_pflags0(out: &mut Vec<u8>, w: &World)
    ensures
        final(out)@ == old(out)@ + pflags0_bytes(*w),
{
    put_bool(out, w.progress.is_hardmode);
    put_bool(out, w.progress.defeated_clown);
    put_bool(out, w.progress.defeated_destroyer);
    put_bool(out, w.progress.defeated_duke_fishron);
    put_bool(out, w.progress.defeated_eater_or_brain);
    put_bool(out, w.progress.defeated_empress_of_light);
    put_bool(out, w.progress.defeated_everscream);
    put_bool(out, w.progress.defeated_eye_of_cthulu);
    assert(final(out)@ =~= old(out)@ + pflags0_bytes(*w));
}

/// Append the pflags1 flag bytes.
fn put_pflags1(out: &mut Vec<u8>, w: &World)
    ensures
        final(out)@ == old(out)@ + pflags1_bytes(*w),
{
    put_bool(out, w.progress.defeated_golem);
    put_bool(out, w.progress.defeated_ice_queen);
    put_bool(out, w.progress.defeated_king_slime);
    put_bool(out, w.progress.defeated_lunatic_cultist);
    put_bool(out, w.progress.defeated_moon_lord);
    put_bool(out, w.progress.defeated_mourning_wood);
    put_bool(out, w.progress.defeated_nebula_pillar);
    put_bool(out, w.progress.defeated_plantera);
    assert(final(out)@ =~= old(out)@ + pflags1_bytes(*w));
}

/// Append the pflags2 flag bytes.
fn put_pflags2(out: &mut Vec<u8>, w: &World)
    ensures
        final(out)@ == old(out)@ + pflags2_bytes(*w),
{
    put_bool(out, w.progress.defeated_pumpking);
    put_bool(out, w.progress.defeated_queen_bee);
    put_bool(out, w.progress.defeated_queen_slime);
    put_bool(out, w.progress.defeated_santa_nk1);
    put_bool(out, w.progress.defeated_skeletron);
    put_bool(out, w.progress.defeated_skeletron_prime);
    put_bool(out, w.progress.defeated_solar_pillar);
    put_bool(out, w.progress.defeated_stardust_pillar);
    assert(final(out)@ =~= old(out)@ + pflags2_bytes(*w));
}

/// Append the pflags3 flag bytes.
fn put_pflags3(out: &mut Vec<u8>, w: &World)
    ensures
        final(out)@ == old(out)@ + pflags3_bytes(*w),
{
    put_bool(out, w.progress.defeated_twins);
    put_bool(out, w.progress.defeated_vortex_pillar);
    put_bool(out, w.progress.defeated_frost_legion);
    put_bool(out, w.progress.defeated_goblin_army);
    put_bool(out, w.progress.defeated_martians);
    put_bool(out, w.progress.defeated_old_ones_army_tier_1);
    put_bool(out, w.progress.defeated_old_ones_army_tier_2);
    put_bool(out, w.progress.defeated_old_ones_army_tier_3);
    assert(final(out)@ =~= old(out)@ + pflags3_bytes(*w));
}

/// Append the pflags4 flag bytes.
fn put_pflags4(out: &mut Vec<u8>, w: &World)
    ensures
        final(out)@ == old(out)@ + pflags4_bytes(*w),
{
    put_bool(out, w.progress.defeated_pirates);
    put_bool(out, w.progress.saved_angler);
    put_bool(out, w.progress.saved_bartender);
    put_bool(out, w.progress.saved_goblin);
    put_bool(out, w.progress.saved_golfer);
    put_bool(out, w.progress.saved_mechanic);
    put_bool(out, w.progress.saved_stylist);
    put_bool(out, w.progress.saved_tax_collector);
    assert(final(out)@ =~= old(out)@ + pflags4_bytes(*w));
}

/// Append the pflags5 flag bytes.
fn put_pflags5(out: &mut Vec<u8>, w: &World)
    ensures
        final(out)@ == old(out)@ + pflags5_bytes(*w),
{
    put_bool(out, w.progress.saved_wizard);
    put_bool(out, w.progress.purchased_cat);
    put_bool(out, w.progress.purchased_dog);
    put_bool(out, w.progress.purchased_bunny);
    assert(final(out)@ =~= old(out)@ + pflags5_bytes(*w));
}

/// Append the progress block.
fn put_progress(out: &mut Vec<u8>, w: &World)
    requires
        w.progress.entity_kill_counts@.len() <= 0xFFFF_FFFF,
    ensures
        final(out)@ == old(out)@ + progress_ibytes(*w),
{
    put_pflags0(out, w);
    put_pflags1(out, w);
    put_pflags2(out, w);
    put_pflags3(out, w);
    put_pflags4(out, w);
    put_pflags5(out, w);
    put_u8(out, w.progress.shadow_orbs_broken);
    put_u32(out, w.progress.altars_broken);
    put_bool(out, w.progress.used_combat_book);
    put_u32s(out, &w.progress.entity_kill_counts);
    proof {
        let o = old(out)@;
        vstd::seq_lib::lemma_concat_associative(o, pflags0_bytes(*w), pflags1_bytes(*w));
        vstd::seq_lib::lemma_concat_associative(o, pflags0_bytes(*w) + pflags1_bytes(*w), pflags2_bytes(*w));
        vstd::seq_lib::lemma_concat_associative(o, pflags0_bytes(*w) + pflags1_bytes(*w) + pflags2_bytes(*w), pflags3_bytes(*w));
        vstd::seq_lib::lemma_concat_associative(o, pflags0_bytes(*w) + pflags1_bytes(*w) + pflags2_bytes(*w) + pflags3_bytes(*w), pflags4_bytes(*w));
        vstd::seq_lib::lemma_concat_associative(o, pflags0_bytes(*w) + pflags1_bytes(*w) + pflags2_bytes(*w) + pflags3_bytes(*w) + pflags4_bytes(*w), pflags5_bytes(*w));
        vstd::seq_lib::lemma_concat_associative(o, pflags0_bytes(*w) + pflags1_bytes(*w) + pflags2_bytes(*w) + pflags3_bytes(*w) + pflags4_bytes(*w) + pflags5_bytes(*w), seq![w.progress.shadow_orbs_broken]);
        vstd::seq_lib::lemma_concat_associative(o, pflags0_bytes(*w) + pflags1_bytes(*w) + pflags2_bytes(*w) + pflags3_bytes(*w) + pflags4_bytes(*w) + pflags5_bytes(*w) + seq![w.progress.shadow_orbs_broken], spec_u32_to_le_bytes(w.progress.altars_broken));
        vstd::seq_lib::lemma_concat_associative(o, pflags0_bytes(*w) + pflags1_bytes(*w) + pflags2_bytes(*w) + pflags3_bytes(*w) + pflags4_bytes(*w) + pflags5_bytes(*w) + seq![w.progress.shadow_orbs_broken] + spec_u32_to_le_bytes(w.progress.altars_broken), seq![bool_byte(w.progress.used_combat_book)]);
        vstd::seq_lib::lemma_concat_associative(o, pflags0_bytes(*w) + pflags1_bytes(*w) + pflags2_bytes(*w) + pflags3_bytes(*w) + pflags4_bytes(*w) + pflags5_bytes(*w) + seq![w.progress.shadow_orbs_broken] + spec_u32_to_le_bytes(w.progress.altars_broken) + seq![bool_byte(w.progress.used_combat_book)], u32s_lbytes(w.progress.entity_kill_counts@));
    }
}

/// Append the clock block.
fn put_time(out: &mut Vec<u8>, w: &World)
    ensures
        final(out)@ == old(out)@ + time_ibytes(*w),
{
    put_bool(out, w.time.is_day);
    put_u32(out, w.time.time);
    put_u8(out, w.time.moon_phase);
    put_bool(out, w.time.is_fast_forwarding);
    put_u8(out, w.time.sundial_cooldown);
    assert(final(out)@ =~= old(out)@ + time_ibytes(*w));
}

/// Append the weather block.
fn put_weather(out: &mut Vec<u8>, w: &World)
    ensures
        final(out)@ == old(out)@ + weather_ibytes(*w),
{
    put_u32(out, w.weather.wind_speed_bits);
    put_u32(out, #[verifier::truncate] (w.weather.active_cloud_bg as u32));
    put_u16(out, w.weather.num_clouds);
    put_bool(out, w.weather.is_raining);
    put_u32(out, w.weather.rain_time);
    put_u32(out, w.weather.rain_amount_bits);
    put_bool(out, w.weather.is_sandstorm_happening);
    put_u32(out, #[verifier::truncate] (w.weather.sandstorm_remaining_time as u32));
    put_u32(out, w.weather.sandstorm_severity_bits);
    put_u32(out, w.weather.sandstorm_intended_severity_bits);
    assert(final(out)@ =~= old(out)@ + weather_ibytes(*w));
}

/// Append the eflags0 flag bytes.
fn put_eflags0(out: &mut Vec<u8>, w: &World)
    ensures
        final(out)@ == old(out)@ + eflags0_bytes(*w),
{
    put_bool(out, w.events.is_blood_moon_happening);
    put_bool(out, w.events.is_meteor_queued);
    put_bool(out, w.events.is_eclipse_happening);
    put_bool(out, w.events.is_halloween_forced);
    put_bool(out, w.events.is_christmas_forced);
    put_bool(out, w.events.is_lantern_night_queued);
    put_bool(out, w.events.is_solar_pillar_alive);
    assert(final(out)@ =~= old(out)@ + eflags0_bytes(*w));
}

/// Append the eflags1 flag bytes.
fn put_eflags1(out: &mut Vec<u8>, w: &World)
    ensures
        final(out)@ == old(out)@ + eflags1_bytes(*w),
{
    put_bool(out, w.events.is_vortex_pillar_alive);
    put_bool(out, w.events.is_nebula_pillar_alive);
    put_bool(out, w.events.is_stardust_pillar_alive);
    put_bool(out, w.events.is_impending_doom_approaching);
    put_bool(out, w.events.is_party_manual);
    put_bool(out, w.events.is_party_genuine);
    assert(final(out)@ =~= old(out)@ + eflags1_bytes(*w));
}

/// Append the events block.
fn put_events(out: &mut Vec<u8>, w: &World)
    requires
        w.events.partying_npcs@.len() <= 0xFFFF_FFFF,
    ensures
        final(out)@ == old(out)@ + events_ibytes(*w),
{
    put_u32(out, #[verifier::truncate] (w.events.slime_rain_remaining_time as u32));
    put_eflags0(out, w);
    put_eflags1(out, w);
    put_u32(out, #[verifier::truncate] (w.events.cultist_remaining_time as u32));
    put_u8(out, w.events.invasion_type);
    put_u32(out, #[verifier::truncate] (w.events.invasion_delay as u32));
    put_u32(out, #[verifier::truncate] (w.events.invasion_start_size as u32));
    put_u32(out, #[verifier::truncate] (w.events.invasion_size as u32));
    put_u32(out, w.events.invasion_x);
    put_u8(out, w.events.lantern_night_cooldown);
    put_u8(out, w.events.party_cooldown);
    put_u32s(out, &w.events.partying_npcs);
    proof {
        let o = old(out)@;
        vstd::seq_lib::lemma_concat_associative(o, spec_u32_to_le_bytes(w.events.slime_rain_remaining_time as u32), eflags0_bytes(*w));
        vstd::seq_lib::lemma_concat_associative(o, spec_u32_to_le_bytes(w.events.slime_rain_remaining_time as u32) + eflags0_bytes(*w), eflags1_bytes(*w));
        vstd::seq_lib::lemma_concat_associative(o, spec_u32_to_le_bytes(w.events.slime_rain_remaining_time as u32) + eflags0_bytes(*w) + eflags1_bytes(*w), spec_u32_to_le_bytes(w.events.cultist_remaining_time as u32));
        vstd::seq_lib::lemma_concat_associative(o, spec_u32_to_le_bytes(w.events.slime_rain_remaining_time as u32) + eflags0_bytes(*w) + eflags1_bytes(*w) + spec_u32_to_le_bytes(w.events.cultist_remaining_time as u32), seq![w.events.invasion_type]);
        vstd::seq_lib::lemma_concat_associative(o, spec_u32_to_le_bytes(w.events.slime_rain_remaining_time as u32) + eflags0_bytes(*w) + eflags1_bytes(*w) + spec_u32_to_le_bytes(w.events.cultist_remaining_time as u32) + seq![w.events.invasion_type], spec_u32_to_le_bytes(w.events.invasion_delay as u32));
        vstd::seq_lib::lemma_concat_associative(o, spec_u32_to_le_bytes(w.events.slime_rain_remaining_time as u32) + eflags0_bytes(*w) + eflags1_bytes(*w) + spec_u32_to_le_bytes(w.events.cultist_remaining_time as u32) + seq![w.events.invasion_type] + spec_u32_to_le_bytes(w.events.invasion_delay as u32), spec_u32_to_le_bytes(w.events.invasion_start_size as u32));
        vstd::seq_lib::lemma_concat_associative(o, spec_u32_to_le_bytes(w.events.slime_rain_remaining_time as u32) + eflags0_bytes(*w) + eflags1_bytes(*w) + spec_u32_to_le_bytes(w.events.cultist_remaining_time as u32) + seq![w.events.invasion_type] + spec_u32_to_le_bytes(w.events.invasion_delay as u32) + spec_u32_to_le_bytes(w.events.invasion_start_size as u32), spec_u32_to_le_bytes(w.events.invasion_size as u32));
        vstd::seq_lib::lemma_concat_associative(o, spec_u32_to_le_bytes(w.events.slime_rain_remaining_time as u32) + eflags0_bytes(*w) + eflags1_bytes(*w) + spec_u32_to_le_bytes(w.events.cultist_remaining_time as u32) + seq![w.events.invasion_type] + spec_u32_to_le_bytes(w.events.invasion_delay as u32) + spec_u32_to_le_bytes(w.events.invasion_start_size as u32) + spec_u32_to_le_bytes(w.events.invasion_size as u32), spec_u32_to_le_bytes(w.events.invasion_x));
        vstd::seq_lib::lemma_concat_associative(o, spec_u32_to_le_bytes(w.events.slime_rain_remaining_time as u32) + eflags0_bytes(*w) + eflags1_bytes(*w) + spec_u32_to_le_bytes(w.events.cultist_remaining_time as u32) + seq![w.events.invasion_type] + spec_u32_to_le_bytes(w.events.invasion_delay as u32) + spec_u32_to_le_bytes(w.events.invasion_start_size as u32) + spec_u32_to_le_bytes(w.events.invasion_size as u32) + spec_u32_to_le_bytes(w.events.invasion_x), seq![w.events.lantern_night_cooldown, w.events.party_cooldown]);
        vstd::seq_lib::lemma_concat_associative(o, spec_u32_to_le_bytes(w.events.slime_rain_remaining_time as u32) + eflags0_bytes(*w) + eflags1_bytes(*w) + spec_u32_to_le_bytes(w.events.cultist_remaining_time as u32) + seq![w.events.invasion_type] + spec_u32_to_le_bytes(w.events.invasion_delay as u32) + spec_u32_to_le_bytes(w.events.invasion_start_size as u32) + spec_u32_to_le_bytes(w.events.invasion_size as u32) + spec_u32_to_le_bytes(w.events.invasion_x) + seq![w.events.lantern_night_cooldown, w.events.party_cooldown], u32s_lbytes(w.events.partying_npcs@));
    }
}

/// Append the angler block and the chunk size.
fn put_tail(out: &mut Vec<u8>, w: &World)
    requires
        w.angler.completed_quests@.len() <= 0xFFFF_FFFF,
        forall|i: int|
            0 <= i < w.angler.completed_quests@.len() ==> encode_utf8(
                #[trigger] w.angler.completed_quests@[i]@,
            ).len() <= 0xFFFF_FFFF,
    ensures
        final(out)@ == old(out)@ + tail_ibytes(*w),
{
    put_u32(out, w.angler.completed_quests.len() as u32);
    let ghost qs = w.angler.completed_quests@.map_values(|q: String| q@);
    let ghost start = out@;
    let mut i: usize = 0;
    while i < w.angler.completed_quests.len()
        invariant
            i <= qs.len(),
            qs == w.angler.completed_quests@.map_values(|q: String| q@),
            forall|j: int|
                0 <= j < w.angler.completed_quests@.len() ==> encode_utf8(
                    #[trigger] w.angler.completed_quests@[j]@,
                ).len() <= 0xFFFF_FFFF,
            out@ == start + strs_cat(qs.take(i as int)),
        decreases qs.len() - i,
    {
        put_lenstr(out, w.angler.completed_quests[i].as_str());
        proof {
            lemma_strs_cat_take(qs, i as int);
            assert(qs[i as int] == w.angler.completed_quests@[i as int]@);
        }
        i = i + 1;
    }
    proof {
        assert(qs.take(qs.len() as int) =~= qs);
    }
    put_u8(out, w.angler.quest);
    put_u16(out, w.chunk_size);
    assert(final(out)@ =~= old(out)@ + tail_ibytes(*w));
}

/// Serialize the world record. Together with `world_from_bytes`, whose
/// success guarantees its input equals this function's output on the
/// world it returns, serializing a deserialized record reproduces the
/// record byte for byte.
pub fn world_to_bytes(w: &World) -> (r: Vec<u8>)
    requires
        world_wf(*w),
        world_bounded(*w),
    ensures
        r@ == world_bytes(*w),
{
    let mut out: Vec<u8> = Vec::new();
    put_ident(&mut out, w);
    put_tiers(&mut out, w);
    put_dims(&mut out, w);
    put_style(&mut out, &w.style);
    put_progress(&mut out, w);
    put_time(&mut out, w);
    put_weather(&mut out, w);
    put_events(&mut out, w);
    put_tail(&mut out, w);
    proof {
        let o = Seq::<u8>::empty();
        let a = ident_ibytes(*w);
        let b = tiers_ibytes(*w);
        let c = dims_ibytes(*w);
        let d = style_ibytes(w.style);
        let e = progress_ibytes(*w);
        let f = time_ibytes(*w);
        let g = weather_ibytes(*w);
        let h = events_ibytes(*w);
        let t = tail_ibytes(*w);
        vstd::seq_lib::lemma_concat_associative(o, a, b);
        vstd::seq_lib::lemma_concat_associative(o, a + b, c);
        vstd::seq_lib::lemma_concat_associative(o, a + b + c, d);
        vstd::seq_lib::lemma_concat_associative(o, a + b + c + d, e);
        vstd::seq_lib::lemma_concat_associative(o, a + b + c + d + e, f);
        vstd::seq_lib::lemma_concat_associative(o, a + b + c + d + e + f, g);
        vstd::seq_lib::lemma_concat_associative(o, a + b + c + d + e + f + g, h);
        vstd::seq_lib::lemma_concat_associative(o, a + b + c + d + e + f + g + h, t);
        assert(o + world_bytes(*w) =~= world_bytes(*w));
    }
    out
}

/// Whether two byte strings are equal.
fn bytes_eq(a: &[u8], b: &[u8]) -> (r: bool)
    ensures
        r == (a@ == b@),
{
    if a.len() != b.len() {
        proof {
            assert(a@.len() != b@.len());
        }
        return false;
    }
    let mut i: usize = 0;
    while i < a.len()
        invariant
            a@.len() == b@.len(),
            i <= a@.len(),
            forall|j: int| 0 <= j < i ==> a@[j] == b@[j],
        decreases a@.len() - i,
    {
        if a[i] != b[i] {
            return false;
        }
        i = i + 1;
    }
    proof {
        assert(a@ =~= b@);
    }
    true
}

/// Check at run time that the counted fields fit their length prefixes.
fn world_is_bounded(w: &World) -> (r: bool)
    ensures
        r == world_bounded(*w),
{
    if w.name.as_str().as_bytes().len() as u64 > 0xFFFF_FFFFu64 {
        return false;
    }
    if w.progress.entity_kill_counts.len() as u64 > 0xFFFF_FFFFu64 {
        return false;
    }
    if w.events.partying_npcs.len() as u64 > 0xFFFF_FFFFu64 {
        return false;
    }
    if w.angler.completed_quests.len() as u64 > 0xFFFF_FFFFu64 {
        return false;
    }
    let mut i: usize = 0;
    while i < w.angler.completed_quests.len()
        invariant
            i <= w.angler.completed_quests@.len(),
            forall|j: int|
                0 <= j < i ==> encode_utf8(#[trigger] w.angler.completed_quests@[j]@).len()
                    <= 0xFFFF_FFFF,
        decreases w.angler.completed_quests@.len() - i,
    {
        let bs = w.angler.completed_quests[i].as_str().as_bytes();
        if bs.len() as u64 > 0xFFFF_FFFFu64 {
            return false;
        }
        proof {
            assert(bs@.len() == encode_utf8(w.angler.completed_quests@[i as int]@).len());
        }
        i = i + 1;
    }
    true
}

fn rd_u8(inp: &[u8], pos: &mut usize) -> (r: Result<u8, WorldError>) {
    match take_u8(inp, pos) {
        Some(v) => Ok(v),
        None => Err(WorldError::CodecError),
    }
}

fn rd_bool(inp: &[u8], pos: &mut usize) -> (r: Result<bool, WorldError>) {
    match take_bool(inp, pos) {
        Some(v) => Ok(v),
        None => Err(WorldError::CodecError),
    }
}

fn rd_u16(inp: &[u8], pos: &mut usize) -> (r: Result<u16, WorldError>) {
    match take_u16(inp, pos) {
        Some(v) => Ok(v),
        None => Err(WorldError::CodecError),
    }
}

fn rd_u32(inp: &[u8], pos: &mut usize) -> (r: Result<u32, WorldError>) {
    match take_u32(inp, pos) {
        Some(v) => Ok(v),
        None => Err(WorldError::CodecError),
    }
}

fn rd_u64(inp: &[u8], pos: &mut usize) -> (r: Result<u64, WorldError>) {
    match take_u64(inp, pos) {
        Some(v) => Ok(v),
        None => Err(WorldError::CodecError),
    }
}

fn rd_u128(inp: &[u8], pos: &mut usize) -> (r: Result<u128, WorldError>) {
    match take_u128(inp, pos) {
        Some(v) => Ok(v),
        None => Err(WorldError::CodecError),
    }
}

fn rd_lenstr(inp: &[u8], pos: &mut usize) -> (r: Result<String, WorldError>) {
    let n = rd_u32(inp, pos)?;
    if n as u64 > inp.len() as u64 {
        return Err(WorldError::CodecError);
    }
    let bytes = match take_bytes(inp, pos, n as usize) {
        Some(b) => b,
        None => {
            return Err(WorldError::CodecError);
        },
    };
    match crate::varint::string_from_utf8(bytes) {
        Some(s) => Ok(s),
        None => Err(WorldError::CodecError),
    }
}

fn rd_u32s(inp: &[u8], pos: &mut usize) -> (r: Result<Vec<u32>, WorldError>) {
    let n = rd_u32(inp, pos)?;
    if n as u64 > inp.len() as u64 {
        return Err(WorldError::CodecError);
    }
    let mut vs: Vec<u32> = Vec::new();
    let mut i: usize = 0;
    while i < n as usize
        invariant
            i <= n as usize,
        decreases n as usize - i,
    {
        let v = rd_u32(inp, pos)?;
        vs.push(v);
        i = i + 1;
    }
    Ok(vs)
}

/// Deserialize a world record. The record is canonical: on success the
/// whole input is exactly the serialization of the returned world, so
/// serializing it again reproduces the input byte for byte.
#[verifier::rlimit(100)]
#[verifier::spinoff_prover]
pub fn world_from_bytes(inp: &[u8]) -> (r: Result<World, WorldError>)
    ensures
        r matches Ok(w) ==> world_wf(w) && world_bounded(w) && inp@ == world_bytes(w),
{
    let mut pos: usize = 0;
    let mut w = World::empty();
    w.name = rd_lenstr(inp, &mut pos)?;
    w.id = {
        let v = rd_u32(inp, &mut pos)?;
        #[verifier::truncate] (v as i32)
    };
    w.uuid = rd_u128(inp, &mut pos)?;
    w.gen_data.seed = rd_u64(inp, &mut pos)?;
    w.gen_data.corruption_type = if rd_u8(inp, &mut pos)? == 0 {
        CorruptionType::Corruption
    } else {
        CorruptionType::Crimson
    };
    w.gen_data.surface_y = rd_u32(inp, &mut pos)?;
    w.gen_data.rock_layer_y = rd_u32(inp, &mut pos)?;
    w.gen_data.copper_tier = match CopperTier::try_from_u16(rd_u16(inp, &mut pos)?) {
        Some(t) => t,
        None => {
            return Err(WorldError::InvalidField);
        },
    };
    w.gen_data.iron_tier = match IronTier::try_from_u16(rd_u16(inp, &mut pos)?) {
        Some(t) => t,
        None => {
            return Err(WorldError::InvalidField);
        },
    };
    w.gen_data.silver_tier = match SilverTier::try_from_u16(rd_u16(inp, &mut pos)?) {
        Some(t) => t,
        None => {
            return Err(WorldError::InvalidField);
        },
    };
    w.gen_data.gold_tier = match GoldTier::try_from_u16(rd_u16(inp, &mut pos)?) {
        Some(t) => t,
        None => {
            return Err(WorldError::InvalidField);
        },
    };
    w.gen_data.cobalt_tier = match CobaltTier::try_from_u16(rd_u16(inp, &mut pos)?) {
        Some(t) => t,
        None => {
            return Err(WorldError::InvalidField);
        },
    };
    w.gen_data.mythril_tier = match MythrilTier::try_from_u16(rd_u16(inp, &mut pos)?) {
        Some(t) => t,
        None => {
            return Err(WorldError::InvalidField);
        },
    };
    w.gen_data.adamantite_tier = match AdamantiteTier::try_from_u16(rd_u16(inp, &mut pos)?) {
        Some(t) => t,
        None => {
            return Err(WorldError::InvalidField);
        },
    };
    w.dimensions.left = rd_u32(inp, &mut pos)?;
    w.dimensions.right = rd_u32(inp, &mut pos)?;
    w.dimensions.top = rd_u32(inp, &mut pos)?;
    w.dimensions.bottom = rd_u32(inp, &mut pos)?;
    w.dimensions.tile_width = rd_u32(inp, &mut pos)?;
    w.dimensions.tile_height = rd_u32(inp, &mut pos)?;
    w.worldmode = WorldMode::from_i32(rd_u8(inp, &mut pos)? as i32);
    let sx = rd_u16(inp, &mut pos)?;
    let sy = rd_u16(inp, &mut pos)?;
    w.spawn_coord = TileCoord { x: sx, y: sy };
    let dx = rd_u16(inp, &mut pos)?;
    let dy = rd_u16(inp, &mut pos)?;
    w.dungeon_coord = TileCoord { x: dx, y: dy };
    w.style.moon_style = rd_u8(inp, &mut pos)?;
    let fx0 = rd_u32(inp, &mut pos)?;
    let fx1 = rd_u32(inp, &mut pos)?;
    let fx2 = rd_u32(inp, &mut pos)?;
    w.style.forest_bg_x = vec![fx0, fx1, fx2];
    let fs0 = rd_u8(inp, &mut pos)?;
    let fs1 = rd_u8(inp, &mut pos)?;
    let fs2 = rd_u8(inp, &mut pos)?;
    let fs3 = rd_u8(inp, &mut pos)?;
    w.style.forest_bg_style = vec![fs0, fs1, fs2, fs3];
    let cx0 = rd_u32(inp, &mut pos)?;
    let cx1 = rd_u32(inp, &mut pos)?;
    let cx2 = rd_u32(inp, &mut pos)?;
    w.style.cave_bg_x = vec![cx0, cx1, cx2];
    let cs0 = rd_u8(inp, &mut pos)?;
    let cs1 = rd_u8(inp, &mut pos)?;
    let cs2 = rd_u8(inp, &mut pos)?;
    let cs3 = rd_u8(inp, &mut pos)?;
    w.style.cave_bg_style = vec![cs0, cs1, cs2, cs3];
    w.style.snow_bg_style = rd_u8(inp, &mut pos)?;
    w.style.jungle_bg_style = rd_u8(inp, &mut pos)?;
    w.style.underworld_bg_style = rd_u8(inp, &mut pos)?;
    let fb0 = rd_u8(inp, &mut pos)?;
    let fb1 = rd_u8(inp, &mut pos)?;
    let fb2 = rd_u8(inp, &mut pos)?;
    let fb3 = rd_u8(inp, &mut pos)?;
    w.style.forest_bg = vec![fb0, fb1, fb2, fb3];
    w.style.corruption_bg = rd_u8(inp, &mut pos)?;
    w.style.jungle_bg = rd_u8(inp, &mut pos)?;
    w.style.snow_bg = rd_u8(inp, &mut pos)?;
    w.style.hallow_bg = rd_u8(inp, &mut pos)?;
    w.style.crimson_bg = rd_u8(inp, &mut pos)?;
    w.style.desert_bg = rd_u8(inp, &mut pos)?;
    w.style.ocean_bg = rd_u8(inp, &mut pos)?;
    w.style.mushroom_bg = rd_u8(inp, &mut pos)?;
    w.style.underworld_bg = rd_u8(inp, &mut pos)?;
    let mut tops: Vec<u8> = Vec::new();
    let mut t: usize = 0;
    while t < 13
        invariant
            t <= 13,
        decreases 13 - t,
    {
        let v = rd_u8(inp, &mut pos)?;
        tops.push(v);
        t = t + 1;
    }
    w.style.tree_tops = tops;
    w.progress.is_hardmode = rd_bool(inp, &mut pos)?;
    w.progress.defeated_clown = rd_bool(inp, &mut pos)?;
    w.progress.defeated_destroyer = rd_bool(inp, &mut pos)?;
    w.progress.defeated_duke_fishron = rd_bool(inp, &mut pos)?;
    w.progress.defeated_eater_or_brain = rd_bool(inp, &mut pos)?;
    w.progress.defeated_empress_of_light = rd_bool(inp, &mut pos)?;
    w.progress.defeated_everscream = rd_bool(inp, &mut pos)?;
    w.progress.defeated_eye_of_cthulu = rd_bool(inp, &mut pos)?;
    w.progress.defeated_golem = rd_bool(inp, &mut pos)?;
    w.progress.defeated_ice_queen = rd_bool(inp, &mut pos)?;
    w.progress.defeated_king_slime = rd_bool(inp, &mut pos)?;
    w.progress.defeated_lunatic_cultist = rd_bool(inp, &mut pos)?;
    w.progress.defeated_moon_lord = rd_bool(inp, &mut pos)?;
    w.progress.defeated_mourning_wood = rd_bool(inp, &mut pos)?;
    w.progress.defeated_nebula_pillar = rd_bool(inp, &mut pos)?;
    w.progress.defeated_plantera = rd_bool(inp, &mut pos)?;
    w.progress.defeated_pumpking = rd_bool(inp, &mut pos)?;
    w.progress.defeated_queen_bee = rd_bool(inp, &mut pos)?;
    w.progress.defeated_queen_slime = rd_bool(inp, &mut pos)?;
    w.progress.defeated_santa_nk1 = rd_bool(inp, &mut pos)?;
    w.progress.defeated_skeletron = rd_bool(inp, &mut pos)?;
    w.progress.defeated_skeletron_prime = rd_bool(inp, &mut pos)?;
    w.progress.defeated_solar_pillar = rd_bool(inp, &mut pos)?;
    w.progress.defeated_stardust_pillar = rd_bool(inp, &mut pos)?;
    w.progress.defeated_twins = rd_bool(inp, &mut pos)?;
    w.progress.defeated_vortex_pillar = rd_bool(inp, &mut pos)?;
    w.progress.defeated_frost_legion = rd_bool(inp, &mut pos)?;
    w.progress.defeated_goblin_army = rd_bool(inp, &mut pos)?;
    w.progress.defeated_martians = rd_bool(inp, &mut pos)?;
    w.progress.defeated_old_ones_army_tier_1 = rd_bool(inp, &mut pos)?;
    w.progress.defeated_old_ones_army_tier_2 = rd_bool(inp, &mut pos)?;
    w.progress.defeated_old_ones_army_tier_3 = rd_bool(inp, &mut pos)?;
    w.progress.defeated_pirates = rd_bool(inp, &mut pos)?;
    w.progress.saved_angler = rd_bool(inp, &mut pos)?;
    w.progress.saved_bartender = rd_bool(inp, &mut pos)?;
    w.progress.saved_goblin = rd_bool(inp, &mut pos)?;
    w.progress.saved_golfer = rd_bool(inp, &mut pos)?;
    w.progress.saved_mechanic = rd_bool(inp, &mut pos)?;
    w.progress.saved_stylist = rd_bool(inp, &mut pos)?;
    w.progress.saved_tax_collector = rd_bool(inp, &mut pos)?;
    w.progress.saved_wizard = rd_bool(inp, &mut pos)?;
    w.progress.purchased_cat = rd_bool(inp, &mut pos)?;
    w.progress.purchased_dog = rd_bool(inp, &mut pos)?;
    w.progress.purchased_bunny = rd_bool(inp, &mut pos)?;
    w.progress.shadow_orbs_broken = rd_u8(inp, &mut pos)?;
    w.progress.altars_broken = rd_u32(inp, &mut pos)?;
    w.progress.used_combat_book = rd_bool(inp, &mut pos)?;
    w.progress.entity_kill_counts = rd_u32s(inp, &mut pos)?;
    w.time.is_day = rd_bool(inp, &mut pos)?;
    w.time.time = rd_u32(inp, &mut pos)?;
    w.time.moon_phase = rd_u8(inp, &mut pos)?;
    w.time.is_fast_forwarding = rd_bool(inp, &mut pos)?;
    w.time.sundial_cooldown = rd_u8(inp, &mut pos)?;
    w.weather.wind_speed_bits = rd_u32(inp, &mut pos)?;
    w.weather.active_cloud_bg = {
        let v = rd_u32(inp, &mut pos)?;
        #[verifier::truncate] (v as i32)
    };
    w.weather.num_clouds = rd_u16(inp, &mut pos)?;
    w.weather.is_raining = rd_bool(inp, &mut pos)?;
    w.weather.rain_time = rd_u32(inp, &mut pos)?;
    w.weather.rain_amount_bits = rd_u32(inp, &mut pos)?;
    w.weather.is_sandstorm_happening = rd_bool(inp, &mut pos)?;
    w.weather.sandstorm_remaining_time = {
        let v = rd_u32(inp, &mut pos)?;
        #[verifier::truncate] (v as i32)
    };
    w.weather.sandstorm_severity_bits = rd_u32(inp, &mut pos)?;
    w.weather.sandstorm_intended_severity_bits = rd_u32(inp, &mut pos)?;
    w.events.slime_rain_remaining_time = {
        let v = rd_u32(inp, &mut pos)?;
        #[verifier::truncate] (v as i32)
    };
    w.events.is_blood_moon_happening = rd_bool(inp, &mut pos)?;
    w.events.is_meteor_queued = rd_bool(inp, &mut pos)?;
    w.events.is_eclipse_happening = rd_bool(inp, &mut pos)?;
    w.events.is_halloween_forced = rd_bool(inp, &mut pos)?;
    w.events.is_christmas_forced = rd_bool(inp, &mut pos)?;
    w.events.is_lantern_night_queued = rd_bool(inp, &mut pos)?;
    w.events.is_solar_pillar_alive = rd_bool(inp, &mut pos)?;
    w.events.is_vortex_pillar_alive = rd_bool(inp, &mut pos)?;
    w.events.is_nebula_pillar_alive = rd_bool(inp, &mut pos)?;
    w.events.is_stardust_pillar_alive = rd_bool(inp, &mut pos)?;
    w.events.is_impending_doom_approaching = rd_bool(inp, &mut pos)?;
    w.events.is_party_manual = rd_bool(inp, &mut pos)?;
    w.events.is_party_genuine = rd_bool(inp, &mut pos)?;
    w.events.cultist_remaining_time = {
        let v = rd_u32(inp, &mut pos)?;
        #[verifier::truncate] (v as i32)
    };
    w.events.invasion_type = rd_u8(inp, &mut pos)?;
    w.events.invasion_delay = {
        let v = rd_u32(inp, &mut pos)?;
        #[verifier::truncate] (v as i32)
    };
    w.events.invasion_start_size = {
        let v = rd_u32(inp, &mut pos)?;
        #[verifier::truncate] (v as i32)
    };
    w.events.invasion_size = {
        let v = rd_u32(inp, &mut pos)?;
        #[verifier::truncate] (v as i32)
    };
    w.events.invasion_x = rd_u32(inp, &mut pos)?;
    w.events.lantern_night_cooldown = rd_u8(inp, &mut pos)?;
    w.events.party_cooldown = rd_u8(inp, &mut pos)?;
    w.events.partying_npcs = rd_u32s(inp, &mut pos)?;
    let quest_count = rd_u32(inp, &mut pos)?;
    if quest_count as u64 > inp.len() as u64 {
        return Err(WorldError::CodecError);
    }
    let mut quests: Vec<String> = Vec::new();
    let mut q: usize = 0;
    while q < quest_count as usize
        invariant
            q <= quest_count as usize,
        decreases quest_count as usize - q,
    {
        let s = rd_lenstr(inp, &mut pos)?;
        quests.push(s);
        q = q + 1;
    }
    w.angler.completed_quests = quests;
    w.angler.quest = rd_u8(inp, &mut pos)?;
    w.chunk_size = rd_u16(inp, &mut pos)?;
    if pos != inp.len() {
        return Err(WorldError::CodecError);
    }
    if !crate::world::World::is_wf(&w) {
        return Err(WorldError::InvalidField);
    }
    if !world_is_bounded(&w) {
        return Err(WorldError::CodecError);
    }
    let check = world_to_bytes(&w);
    if !bytes_eq(check.as_slice(), inp) {
        return Err(WorldError::CodecError);
    }
    Ok(w)
}

/// The frame-important table the chunk codec uses: every id counts as
/// frame-important, so every block's frame offsets are stored and no
/// well-formedness condition on them is needed.
pub open spec fn chunk_fi() -> Seq<bool> {
    Seq::new(65536, |i: int| true)
}

/// Tiles stored one record each, with no run compression.
pub open spec fn tiles_cat(ts: Seq<crate::tile::Tile>) -> Seq<u8>
    decreases ts.len(),
{
    if ts.len() == 0 {
        Seq::empty()
    } else {
        crate::tilecodec::record_bytes(ts[0], 0, chunk_fi()) + tiles_cat(ts.drop_first())
    }
}

/// One stored item stack.
pub open spec fn item_bytes(it: crate::chunk::ItemStack) -> Seq<u8> {
    spec_u16_to_le_bytes(it.stack) + spec_u16_to_le_bytes(it.id) + seq![it.prefix]
}

/// Item stacks, one after the other.
pub open spec fn items_cat(items: Seq<crate::chunk::ItemStack>) -> Seq<u8>
    decreases items.len(),
{
    if items.len() == 0 {
        Seq::empty()
    } else {
        item_bytes(items[0]) + items_cat(items.drop_first())
    }
}

/// One stored chest.
pub open spec fn chest_bytes(c: crate::chunk::Chest) -> Seq<u8> {
    lenstr_bytes(c.name@) + spec_u32_to_le_bytes(c.x) + spec_u32_to_le_bytes(c.y)
        + spec_u32_to_le_bytes(c.items@.len() as u32) + items_cat(c.items@)
}

/// Chests, one after the other.
pub open spec fn chests_cat(cs: Seq<crate::chunk::Chest>) -> Seq<u8>
    decreases cs.len(),
{
    if cs.len() == 0 {
        Seq::empty()
    } else {
        chest_bytes(cs[0]) + chests_cat(cs.drop_first())
    }
}

/// The whole chunk record, uncompressed: origin, size, counted tiles,
/// counted chests, then the raw sign and tile-entity blobs.
pub open spec fn chunk_bytes(c: crate::chunk::Chunk) -> Seq<u8> {
    spec_u16_to_le_bytes(c.start_pos.x) + spec_u16_to_le_bytes(c.start_pos.y)
        + spec_u16_to_le_bytes(c.chunk_size) + spec_u32_to_le_bytes(c.tiles@.len() as u32)
        + tiles_cat(c.tiles@) + spec_u32_to_le_bytes(c.chests@.len() as u32) + chests_cat(
        c.chests@,
    ) + spec_u32_to_le_bytes(c.signs@.len() as u32) + c.signs@ + spec_u32_to_le_bytes(
        c.tileentities@.len() as u32,
    ) + c.tileentities@
}

/// Every tile of the chunk is representable, and every counted field fits
/// its length prefix.
pub open spec fn chunk_ok(c: crate::chunk::Chunk) -> bool {
    &&& forall|i: int|
        0 <= i < c.tiles@.len() ==> crate::tile::tile_wf(#[trigger] c.tiles@[i], chunk_fi())
    &&& c.tiles@.len() <= 0xFFFF_FFFF
    &&& c.chests@.len() <= 0xFFFF_FFFF
    &&& c.signs@.len() <= 0xFFFF_FFFF
    &&& c.tileentities@.len() <= 0xFFFF_FFFF
    &&& forall|i: int|
        0 <= i < c.chests@.len() ==> (#[trigger] c.chests@[i]).items@.len() <= 0xFFFF_FFFF
            && encode_utf8(c.chests@[i].name@).len() <= 0xFFFF_FFFF
}

/// The all-true frame-important table, as a vector.
fn chunk_fi_table() -> (r: Vec<bool>)
    ensures
        r@ == chunk_fi(),
{
    let mut v: Vec<bool> = Vec::new();
    let mut i: usize = 0;
    while i < 65536
        invariant
            v@.len() == i,
            i <= 65536,
            forall|j: int| 0 <= j < i ==> v@[j] == true,
        decreases 65536 - i,
    {
        v.push(true);
        i = i + 1;
    }
    proof {
        assert(v@ =~= chunk_fi());
    }
    v
}

/// Writing one more tile extends the concatenation by its record.
proof fn lemma_tiles_cat_take(ts: Seq<crate::tile::Tile>, i: int)
    requires
        0 <= i < ts.len(),
    ensures
        tiles_cat(ts.take(i + 1)) == tiles_cat(ts.take(i)) + crate::tilecodec::record_bytes(
            ts[i],
            0,
            chunk_fi(),
        ),
    decreases i,
{
    if i == 0 {
        assert(ts.take(1).drop_first() =~= Seq::<crate::tile::Tile>::empty());
        assert(ts.take(1)[0] == ts[0]);
        assert(tiles_cat(ts.take(0)) == Seq::<u8>::empty());
        assert(tiles_cat(ts.take(1)) == crate::tilecodec::record_bytes(ts[0], 0, chunk_fi())
            + tiles_cat(ts.take(1).drop_first()));
        assert(tiles_cat(ts.take(0)) + crate::tilecodec::record_bytes(ts[0], 0, chunk_fi())
            =~= crate::tilecodec::record_bytes(ts[0], 0, chunk_fi()) + Seq::<u8>::empty());
    } else {
        lemma_tiles_cat_take(ts.drop_first(), i - 1);
        assert(ts.take(i + 1).drop_first() =~= ts.drop_first().take(i));
        assert(ts.take(i).drop_first() =~= ts.drop_first().take(i - 1));
        assert(ts.drop_first()[i - 1] == ts[i]);
        assert(ts.take(i + 1)[0] == ts[0]);
        assert(ts.take(i)[0] == ts[0]);
        assert(crate::tilecodec::record_bytes(ts.take(i + 1)[0], 0, chunk_fi()) + (tiles_cat(
            ts.drop_first().take(i - 1),
        ) + crate::tilecodec::record_bytes(ts[i], 0, chunk_fi())) =~= (
        crate::tilecodec::record_bytes(ts.take(i + 1)[0], 0, chunk_fi()) + tiles_cat(
            ts.drop_first().take(i - 1),
        )) + crate::tilecodec::record_bytes(ts[i], 0, chunk_fi()));
    }
}

/// Writing one more item extends the concatenation by its bytes.
proof fn lemma_items_cat_take(items: Seq<crate::chunk::ItemStack>, i: int)
    requires
        0 <= i < items.len(),
    ensures
        items_cat(items.take(i + 1)) == items_cat(items.take(i)) + item_bytes(items[i]),
    decreases i,
{
    if i == 0 {
        assert(items.take(1).drop_first() =~= Seq::<crate::chunk::ItemStack>::empty());
        assert(items.take(1)[0] == items[0]);
        assert(items_cat(items.take(0)) == Seq::<u8>::empty());
        assert(items_cat(items.take(1)) == item_bytes(items[0]) + items_cat(
            items.take(1).drop_first(),
        ));
        assert(items_cat(items.take(0)) + item_bytes(items[0]) =~= item_bytes(items[0])
            + Seq::<u8>::empty());
    } else {
        lemma_items_cat_take(items.drop_first(), i - 1);
        assert(items.take(i + 1).drop_first() =~= items.drop_first().take(i));
        assert(items.take(i).drop_first() =~= items.drop_first().take(i - 1));
        assert(items.drop_first()[i - 1] == items[i]);
        assert(items.take(i + 1)[0] == items[0]);
        assert(items.take(i)[0] == items[0]);
        assert(item_bytes(items.take(i + 1)[0]) + (items_cat(items.drop_first().take(i - 1))
            + item_bytes(items[i])) =~= (item_bytes(items.take(i + 1)[0]) + items_cat(
            items.drop_first().take(i - 1),
        )) + item_bytes(items[i]));
    }
}

/// Writing one more chest extends the concatenation by its bytes.
proof fn lemma_chests_cat_take(cs: Seq<crate::chunk::Chest>, i: int)
    requires
        0 <= i < cs.len(),
    ensures
        chests_cat(cs.take(i + 1)) == chests_cat(cs.take(i)) + chest_bytes(cs[i]),
    decreases i,
{
    if i == 0 {
        assert(cs.take(1).drop_first() =~= Seq::<crate::chunk::Chest>::empty());
        assert(cs.take(1)[0] == cs[0]);
        assert(chests_cat(cs.take(0)) == Seq::<u8>::empty());
        assert(chests_cat(cs.take(1)) == chest_bytes(cs[0]) + chests_cat(
            cs.take(1).drop_first(),
        ));
        assert(chests_cat(cs.take(0)) + chest_bytes(cs[0]) =~= chest_bytes(cs[0])
            + Seq::<u8>::empty());
    } else {
        lemma_chests_cat_take(cs.drop_first(), i - 1);
        assert(cs.take(i + 1).drop_first() =~= cs.drop_first().take(i));
        assert(cs.take(i).drop_first() =~= cs.drop_first().take(i - 1));
        assert(cs.drop_first()[i - 1] == cs[i]);
        assert(cs.take(i + 1)[0] == cs[0]);
        assert(cs.take(i)[0] == cs[0]);
        assert(chest_bytes(cs.take(i + 1)[0]) + (chests_cat(cs.drop_first().take(i - 1))
            + chest_bytes(cs[i])) =~= (chest_bytes(cs.take(i + 1)[0]) + chests_cat(
            cs.drop_first().take(i - 1),
        )) + chest_bytes(cs[i]));
    }
}

/// Append one chest.
fn put_chest(out: &mut Vec<u8>, c: &crate::chunk::Chest)
    requires
        c.items@.len() <= 0xFFFF_FFFF,
        encode_utf8(c.name@).len() <= 0xFFFF_FFFF,
    ensures
        final(out)@ == old(out)@ + chest_bytes(*c),
{
    put_lenstr(out, c.name.as_str());
    put_u32(out, c.x);
    put_u32(out, c.y);
    put_u32(out, c.items.len() as u32);
    let ghost start = out@;
    let mut i: usize = 0;
    while i < c.items.len()
        invariant
            i <= c.items@.len(),
            out@ == start + items_cat(c.items@.take(i as int)),
        decreases c.items@.len() - i,
    {
        put_u16(out, c.items[i].stack);
        put_u16(out, c.items[i].id);
        put_u8(out, c.items[i].prefix);
        proof {
            lemma_items_cat_take(c.items@, i as int);
            assert(out@ =~= start + items_cat(c.items@.take(i as int + 1)));
        }
        i = i + 1;
    }
    proof {
        assert(c.items@.take(c.items@.len() as int) =~= c.items@);
        assert(final(out)@ =~= old(out)@ + chest_bytes(*c));
    }
}

/// Serialize a chunk record. As with the world record, deserializing and
/// serializing again reproduces the bytes exactly.
pub fn chunk_to_bytes(c: &crate::chunk::Chunk) -> (r: Vec<u8>)
    requires
        chunk_ok(*c),
    ensures
        r@ == chunk_bytes(*c),
{
    let fi = chunk_fi_table();
    let mut out: Vec<u8> = Vec::new();
    put_u16(&mut out, c.start_pos.x);
    put_u16(&mut out, c.start_pos.y);
    put_u16(&mut out, c.chunk_size);
    put_u32(&mut out, c.tiles.len() as u32);
    let ghost tstart = out@;
    let mut i: usize = 0;
    while i < c.tiles.len()
        invariant
            fi@ == chunk_fi(),
            forall|j: int|
                0 <= j < c.tiles@.len() ==> crate::tile::tile_wf(
                    #[trigger] c.tiles@[j],
                    chunk_fi(),
                ),
            i <= c.tiles@.len(),
            out@ == tstart + tiles_cat(c.tiles@.take(i as int)),
        decreases c.tiles@.len() - i,
    {
        crate::tilecodec::encode_record(&mut out, &c.tiles[i], 0, fi.as_slice());
        proof {
            lemma_tiles_cat_take(c.tiles@, i as int);
        }
        i = i + 1;
    }
    proof {
        assert(c.tiles@.take(c.tiles@.len() as int) =~= c.tiles@);
    }
    put_u32(&mut out, c.chests.len() as u32);
    let ghost cstart = out@;
    let mut k: usize = 0;
    while k < c.chests.len()
        invariant
            forall|j: int|
                0 <= j < c.chests@.len() ==> (#[trigger] c.chests@[j]).items@.len() <= 0xFFFF_FFFF
                    && encode_utf8(c.chests@[j].name@).len() <= 0xFFFF_FFFF,
            k <= c.chests@.len(),
            out@ == cstart + chests_cat(c.chests@.take(k as int)),
        decreases c.chests@.len() - k,
    {
        put_chest(&mut out, &c.chests[k]);
        proof {
            lemma_chests_cat_take(c.chests@, k as int);
        }
        k = k + 1;
    }
    proof {
        assert(c.chests@.take(c.chests@.len() as int) =~= c.chests@);
    }
    put_u32(&mut out, c.signs.len() as u32);
    out.extend_from_slice(c.signs.as_slice());
    put_u32(&mut out, c.tileentities.len() as u32);
    out.extend_from_slice(c.tileentities.as_slice());
    proof {
        assert(out@ =~= chunk_bytes(*c));
    }
    out
}

/// Deserialize a chunk record. The record is canonical: on success the
/// whole input is exactly the serialization of the returned chunk.
#[verifier::rlimit(100)]
#[verifier::spinoff_prover]
pub fn chunk_from_bytes(inp: &[u8]) -> (r: Result<crate::chunk::Chunk, WorldError>)
    ensures
        r matches Ok(c) ==> chunk_ok(c) && inp@ == chunk_bytes(c),
{
    let fi = chunk_fi_table();
    let mut pos: usize = 0;
    let sx = rd_u16(inp, &mut pos)?;
    let sy = rd_u16(inp, &mut pos)?;
    let chunk_size = rd_u16(inp, &mut pos)?;
    let ntiles = rd_u32(inp, &mut pos)?;
    if ntiles as u64 > inp.len() as u64 {
        return Err(WorldError::CodecError);
    }
    let mut tiles: Vec<crate::tile::Tile> = Vec::new();
    let mut i: usize = 0;
    while i < ntiles as usize
        invariant
            fi@ == chunk_fi(),
            i <= ntiles as usize,
            forall|j: int|
                0 <= j < tiles@.len() ==> crate::tile::tile_wf(#[trigger] tiles@[j], chunk_fi()),
        decreases ntiles as usize - i,
    {
        let (t, _rep) = match crate::tilecodec::decode_record(inp, &mut pos, fi.as_slice()) {
            Some(v) => v,
            None => {
                return Err(WorldError::CodecError);
            },
        };
        if !crate::tile::tile_is_wf(&t, fi.as_slice()) {
            return Err(WorldError::InvalidField);
        }
        tiles.push(t);
        i = i + 1;
    }
    let nchests = rd_u32(inp, &mut pos)?;
    if nchests as u64 > inp.len() as u64 {
        return Err(WorldError::CodecError);
    }
    let mut chests: Vec<crate::chunk::Chest> = Vec::new();
    let mut k: usize = 0;
    while k < nchests as usize
        invariant
            k <= nchests as usize,
            forall|j: int|
                0 <= j < chests@.len() ==> (#[trigger] chests@[j]).items@.len() <= 0xFFFF_FFFF
                    && encode_utf8(chests@[j].name@).len() <= 0xFFFF_FFFF,
        decreases nchests as usize - k,
    {
        let name = rd_lenstr(inp, &mut pos)?;
        if name.as_str().as_bytes().len() as u64 > 0xFFFF_FFFFu64 {
            return Err(WorldError::CodecError);
        }
        let x = rd_u32(inp, &mut pos)?;
        let y = rd_u32(inp, &mut pos)?;
        let nitems = rd_u32(inp, &mut pos)?;
        if nitems as u64 > inp.len() as u64 {
            return Err(WorldError::CodecError);
        }
        let mut items: Vec<crate::chunk::ItemStack> = Vec::new();
        let mut s: usize = 0;
        while s < nitems as usize
            invariant
                s <= nitems as usize,
            decreases nitems as usize - s,
        {
            let stack = rd_u16(inp, &mut pos)?;
            let id = rd_u16(inp, &mut pos)?;
            let prefix = rd_u8(inp, &mut pos)?;
            items.push(crate::chunk::ItemStack { stack, id, prefix });
            s = s + 1;
        }
        if items.len() as u64 > 0xFFFF_FFFFu64 {
            return Err(WorldError::CodecError);
        }
        chests.push(crate::chunk::Chest { name, x, y, items });
        k = k + 1;
    }
    let nsigns = rd_u32(inp, &mut pos)?;
    if nsigns as u64 > inp.len() as u64 {
        return Err(WorldError::CodecError);
    }
    let signs = match take_bytes(inp, &mut pos, nsigns as usize) {
        Some(b) => b,
        None => {
            return Err(WorldError::CodecError);
        },
    };
    let nte = rd_u32(inp, &mut pos)?;
    if nte as u64 > inp.len() as u64 {
        return Err(WorldError::CodecError);
    }
    let te = match take_bytes(inp, &mut pos, nte as usize) {
        Some(b) => b,
        None => {
            return Err(WorldError::CodecError);
        },
    };
    if pos != inp.len() {
        return Err(WorldError::CodecError);
    }
    let c = crate::chunk::Chunk {
        start_pos: crate::tile::TileCoord { x: sx, y: sy },
        chunk_size,
        tiles,
        chests,
        signs,
        tileentities: te,
    };
    if c.tiles.len() as u64 > 0xFFFF_FFFFu64 || c.chests.len() as u64 > 0xFFFF_FFFFu64
        || c.signs.len() as u64 > 0xFFFF_FFFFu64 || c.tileentities.len() as u64
        > 0xFFFF_FFFFu64 {
        return Err(WorldError::CodecError);
    }
    let check = chunk_to_bytes(&c);
    if !bytes_eq(check.as_slice(), inp) {
        return Err(WorldError::CodecError);
    }
    Ok(c)
}

/// What a raw deflate stream decompresses to, if it is valid. Deflate
/// decoding is fully specified, so the result is a function of the input
/// alone.
pub uninterp spec fn inflate_of(b: Seq<u8>) -> Option<Seq<u8>>;

/// Relies on flate2's deflate decoder: decompression of a raw deflate
/// stream, a pure function of the bytes.
#[verifier::external_body]
pub fn inflate_bytes(inp: &[u8]) -> (r: Option<Vec<u8>>)
    ensures
        r matches Some(v) ==> inflate_of(inp@) == Some(v@),
{
    let mut dec = flate2::read::DeflateDecoder::new(inp);
    let mut out = Vec::new();
    match dec.read_to_end(&mut out) {
        Ok(_) => Some(out),
        Err(_) => None,
    }
}

/// Relies on flate2's deflate encoder: the stream it writes is lossless,
/// so it decompresses back to exactly the input.
#[verifier::external_body]
pub fn deflate_bytes(inp: &[u8]) -> (r: Vec<u8>)
    ensures
        inflate_of(r@) == Some(inp@),
{
    let mut enc = flate2::write::DeflateEncoder::new(Vec::new(), flate2::Compression::default());
    let _ = enc.write_all(inp);
    enc.finish().unwrap_or_default()
}

/// Serialize the world into its on-disk form: the record wrapped in a
/// deflate stream. The file decompresses to exactly the record.
pub fn world_to_file_bytes(w: &World) -> (r: Vec<u8>)
    requires
        world_wf(*w),
        world_bounded(*w),
    ensures
        inflate_of(r@) == Some(world_bytes(*w)),
{
    let record = world_to_bytes(w);
    deflate_bytes(record.as_slice())
}

/// Deserialize a world from its on-disk form. On success the file
/// decompresses to exactly the serialization of the returned world, so a
/// record-preserving rewrite is available through `world_to_bytes`.
pub fn world_from_file_bytes(inp: &[u8]) -> (r: Result<World, WorldError>)
    ensures
        r matches Ok(w) ==> world_wf(w) && world_bounded(w) && inflate_of(inp@) == Some(
            world_bytes(w),
        ),
{
    let record = match inflate_bytes(inp) {
        Some(v) => v,
        None => {
            return Err(WorldError::CodecError);
        },
    };
    world_from_bytes(record.as_slice())
}

} // verus!
