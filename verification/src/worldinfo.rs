//! The world-info message payload: a pre-serialized snapshot of the world
//! metadata, rebuilt whole on every observable change.

use vstd::prelude::*;

verus! {

use vstd::bytes::{spec_u16_to_le_bytes, spec_u32_to_le_bytes, spec_u64_to_le_bytes,
    spec_u128_to_le_bytes};
use crate::wire::{put_u8, put_u16, put_i16, put_u32, put_i32, put_u64, put_u128};
use crate::varint::{varstring_bytes, put_varstring};
use crate::world::{World, world_wf};
use crate::packet::WorldInfo;

/// The clock-and-events head of the payload.
pub open spec fn wi_head_bytes(w: World) -> Seq<u8> {
    spec_u32_to_le_bytes(w.time.time) + seq![day_moon_byte(w)] + seq![w.time.moon_phase]
        + spec_u16_to_le_bytes(w.dimensions.tile_width as u16) + spec_u16_to_le_bytes(
        w.dimensions.tile_height as u16,
    ) + spec_u16_to_le_bytes(w.spawn_coord.x) + spec_u16_to_le_bytes(w.spawn_coord.y)
        + spec_u16_to_le_bytes(w.gen_data.surface_y as u16) + spec_u16_to_le_bytes(
        w.gen_data.rock_layer_y as u16,
    ) + spec_u32_to_le_bytes(w.id as u32) + varstring_bytes(w.name@) + seq![
        w.worldmode.spec_u8(),
    ] + spec_u128_to_le_bytes(w.uuid) + spec_u64_to_le_bytes(1) + seq![w.style.moon_style]
}

/// The flag byte describing day, blood moon and eclipse: 2 during a blood
/// moon, otherwise 4 during an eclipse, otherwise 1 by day, otherwise 0.
pub open spec fn day_moon_byte(w: World) -> u8 {
    if w.events.is_blood_moon_happening {
        2
    } else if w.events.is_eclipse_happening {
        4
    } else if w.time.is_day {
        1
    } else {
        0
    }
}

/// The background-style block of the payload.
pub open spec fn wi_style_bytes(w: World) -> Seq<u8> {
    seq![
        w.style.forest_bg@[0],
        w.style.corruption_bg,
        w.style.jungle_bg,
        w.style.snow_bg,
        w.style.hallow_bg,
        w.style.crimson_bg,
        w.style.desert_bg,
        w.style.ocean_bg,
        w.style.mushroom_bg,
        w.style.underworld_bg,
        w.style.forest_bg@[1],
        w.style.forest_bg@[2],
        w.style.forest_bg@[3],
        w.style.snow_bg_style,
        w.style.jungle_bg_style,
        w.style.underworld_bg_style,
    ] + spec_u32_to_le_bytes(w.weather.wind_speed_bits) + seq![w.weather.num_clouds as u8]
        + spec_u32_to_le_bytes(w.style.forest_bg_x@[0]) + spec_u32_to_le_bytes(
        w.style.forest_bg_x@[1],
    ) + spec_u32_to_le_bytes(w.style.forest_bg_x@[2]) + seq![
        w.style.forest_bg_style@[0],
        w.style.forest_bg_style@[1],
        w.style.forest_bg_style@[2],
        w.style.forest_bg_style@[3],
    ] + spec_u32_to_le_bytes(w.style.cave_bg_x@[0]) + spec_u32_to_le_bytes(w.style.cave_bg_x@[1])
        + spec_u32_to_le_bytes(w.style.cave_bg_x@[2]) + seq![
        w.style.cave_bg_style@[0],
        w.style.cave_bg_style@[1],
        w.style.cave_bg_style@[2],
        w.style.cave_bg_style@[3],
        w.style.tree_tops@[0],
        w.style.tree_tops@[1],
        w.style.tree_tops@[2],
        w.style.tree_tops@[3],
        w.style.tree_tops@[4],
        w.style.tree_tops@[5],
        w.style.tree_tops@[6],
        w.style.tree_tops@[7],
        w.style.tree_tops@[8],
        w.style.tree_tops@[9],
        w.style.tree_tops@[10],
        w.style.tree_tops@[11],
        w.style.tree_tops@[12],
    ]
}

/// The weather, ore and invasion tail of the payload.
pub open spec fn wi_tail_bytes(w: World) -> Seq<u8> {
    spec_u32_to_le_bytes(w.weather.rain_amount_bits) + seq![0u8, 0u8, 0u8, 0u8, 0u8, 0u8, 0u8]
        + spec_u16_to_le_bytes(w.gen_data.copper_tier.spec_u16()) + spec_u16_to_le_bytes(
        w.gen_data.iron_tier.spec_u16(),
    ) + spec_u16_to_le_bytes(w.gen_data.silver_tier.spec_u16()) + spec_u16_to_le_bytes(
        w.gen_data.gold_tier.spec_u16(),
    ) + spec_u16_to_le_bytes(w.gen_data.cobalt_tier.spec_u16()) + spec_u16_to_le_bytes(
        w.gen_data.mythril_tier.spec_u16(),
    ) + spec_u16_to_le_bytes(w.gen_data.adamantite_tier.spec_u16()) + seq![
        w.events.invasion_type,
    ] + spec_u64_to_le_bytes(0) + spec_u32_to_le_bytes(w.weather.sandstorm_severity_bits)
}

/// The whole world-info payload.
pub open spec fn worldinfo_bytes(w: World) -> Seq<u8> {
    wi_head_bytes(w) + wi_style_bytes(w) + wi_tail_bytes(w)
}

/// Append the head of the payload.
fn put_wi_head(out: &mut Vec<u8>, w: &World)
    ensures
        final(out)@ == old(out)@ + wi_head_bytes(*w),
{
    put_u32(out, w.time.time);
    if w.events.is_blood_moon_happening {
        put_u8(out, 2);
    } else if w.events.is_eclipse_happening {
        put_u8(out, 4);
    } else if w.time.is_day {
        put_u8(out, 1);
    } else {
        put_u8(out, 0);
    }
    put_u8(out, w.time.moon_phase);
    put_u16(out, #[verifier::truncate] (w.dimensions.tile_width as u16));
    put_u16(out, #[verifier::truncate] (w.dimensions.tile_height as u16));
    put_u16(out, w.spawn_coord.x);
    put_u16(out, w.spawn_coord.y);
    put_u16(out, #[verifier::truncate] (w.gen_data.surface_y as u16));
    put_u16(out, #[verifier::truncate] (w.gen_data.rock_layer_y as u16));
    put_u32(out, #[verifier::truncate] (w.id as u32));
    put_varstring(out, w.name.as_str());
    put_u8(out, w.worldmode.to_u8());
    put_u128(out, w.uuid);
    put_u64(out, 1);
    put_u8(out, w.style.moon_style);
    assert(final(out)@ =~= old(out)@ + wi_head_bytes(*w));
}

/// Append the background-style block of the payload.
fn put_wi_style(out: &mut Vec<u8>, w: &World)
    requires
        crate::world_types::style_wf(w.style),
    ensures
        final(out)@ == old(out)@ + wi_style_bytes(*w),
{
    put_u8(out, w.style.forest_bg[0]);
    put_u8(out, w.style.corruption_bg);
    put_u8(out, w.style.jungle_bg);
    put_u8(out, w.style.snow_bg);
    put_u8(out, w.style.hallow_bg);
    put_u8(out, w.style.crimson_bg);
    put_u8(out, w.style.desert_bg);
    put_u8(out, w.style.ocean_bg);
    put_u8(out, w.style.mushroom_bg);
    put_u8(out, w.style.underworld_bg);
    put_u8(out, w.style.forest_bg[1]);
    put_u8(out, w.style.forest_bg[2]);
    put_u8(out, w.style.forest_bg[3]);
    put_u8(out, w.style.snow_bg_style);
    put_u8(out, w.style.jungle_bg_style);
    put_u8(out, w.style.underworld_bg_style);
    put_u32(out, w.weather.wind_speed_bits);
    put_u8(out, #[verifier::truncate] (w.weather.num_clouds as u8));
    put_u32(out, w.style.forest_bg_x[0]);
    put_u32(out, w.style.forest_bg_x[1]);
    put_u32(out, w.style.forest_bg_x[2]);
    put_u8(out, w.style.forest_bg_style[0]);
    put_u8(out, w.style.forest_bg_style[1]);
    put_u8(out, w.style.forest_bg_style[2]);
    put_u8(out, w.style.forest_bg_style[3]);
    put_u32(out, w.style.cave_bg_x[0]);
    put_u32(out, w.style.cave_bg_x[1]);
    put_u32(out, w.style.cave_bg_x[2]);
    put_u8(out, w.style.cave_bg_style[0]);
    put_u8(out, w.style.cave_bg_style[1]);
    put_u8(out, w.style.cave_bg_style[2]);
    put_u8(out, w.style.cave_bg_style[3]);
    let mut t: usize = 0;
    while t < 13
        invariant
            crate::world_types::style_wf(w.style),
            t <= 13,
            out@ == old(out)@ + wi_style_bytes(*w).take(
                wi_style_bytes(*w).len() - 13 + t as int,
            ),
        decreases 13 - t,
    {
        put_u8(out, w.style.tree_tops[t]);
        proof {
            assert(wi_style_bytes(*w).take(wi_style_bytes(*w).len() - 13 + t as int).push(
                w.style.tree_tops@[t as int],
            ) =~= wi_style_bytes(*w).take(wi_style_bytes(*w).len() - 13 + t as int + 1));
        }
        t = t + 1;
    }
    proof {
        assert(wi_style_bytes(*w).take(wi_style_bytes(*w).len() as int) =~= wi_style_bytes(*w));
    }
}

/// Append the tail of the payload.
fn put_wi_tail(out: &mut Vec<u8>, w: &World)
    ensures
        final(out)@ == old(out)@ + wi_tail_bytes(*w),
{
    put_u32(out, w.weather.rain_amount_bits);
    put_u8(out, 0);
    put_u8(out, 0);
    put_u8(out, 0);
    put_u8(out, 0);
    put_u8(out, 0);
    put_u8(out, 0);
    put_u8(out, 0);
    put_u16(out, w.gen_data.copper_tier.to_u16());
    put_u16(out, w.gen_data.iron_tier.to_u16());
    put_u16(out, w.gen_data.silver_tier.to_u16());
    put_u16(out, w.gen_data.gold_tier.to_u16());
    put_u16(out, w.gen_data.cobalt_tier.to_u16());
    put_u16(out, w.gen_data.mythril_tier.to_u16());
    put_u16(out, w.gen_data.adamantite_tier.to_u16());
    put_u8(out, w.events.invasion_type);
    put_u64(out, 0);
    put_u32(out, w.weather.sandstorm_severity_bits);
    assert(final(out)@ =~= old(out)@ + wi_tail_bytes(*w));
}

impl WorldInfo {
    /// Pre-serialize the world-info payload from the world metadata.
    pub fn new(w: &World) -> (r: WorldInfo)
        requires
            world_wf(*w),
        ensures
            r.data@ == worldinfo_bytes(*w),
    {
        let mut data: Vec<u8> = Vec::new();
        put_wi_head(&mut data, w);
        put_wi_style(&mut data, w);
        put_wi_tail(&mut data, w);
        WorldInfo { data }
    }
}

/// The cache holding the current world-info payload. Writers rebuild the
/// whole payload on any observable metadata change; readers take a
/// snapshot. A snapshot taken after an update carries that update: there
/// is no partial replacement.
#[derive(Debug, Default, Clone, PartialEq, Eq)]
pub struct WorldInfoCache {
    info: WorldInfo,
}

impl WorldInfoCache {
    /// An empty cache.
    pub fn empty() -> (r: WorldInfoCache)
        ensures
            r.view_bytes().len() == 0,
    {
        WorldInfoCache { info: WorldInfo { data: Vec::new() } }
    }

    /// The bytes a snapshot would observe.
    pub closed spec fn view_bytes(&self) -> Seq<u8> {
        self.info.data@
    }

    /// Rebuild and replace the whole payload from the world.
    pub fn update(&mut self, w: &World)
        requires
            world_wf(*w),
        ensures
            final(self).view_bytes() == worldinfo_bytes(*w),
    {
        self.info = WorldInfo::new(w);
    }

    /// A cache already holding a snapshot's bytes.
    pub fn from_snapshot(data: Vec<u8>) -> (r: WorldInfoCache)
        ensures
            r.view_bytes() == data@,
    {
        WorldInfoCache { info: WorldInfo { data } }
    }

    /// Take a snapshot of the current payload.
    pub fn snapshot(&self) -> (r: WorldInfo)
        ensures
            r.data@ == self.view_bytes(),
    {
        WorldInfo { data: self.info.data.clone() }
    }
}

} // verus!
