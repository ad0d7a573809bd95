//! The world: identity, dimensions, generation data, progress, time,
//! weather, events and style, with its well-formedness rules.

use vstd::prelude::*;

verus! {

use crate::world_types::{
    Dimensions, WorldMode, Style, GenerationData, Progress, Time, Weather, Events, Angler,
    style_wf,
};
use crate::tile::TileCoord;

/// Why reading or writing world data failed.
#[derive(Debug, Clone, Copy, PartialEq, Eq, Structural)]
pub enum WorldError {
    /// The bytes ended early or a field could not be parsed.
    CodecError,
    /// The file is not of the supported version.
    VersionMismatch,
    /// A value lies outside its domain.
    InvalidField,
}

/// One game world.
#[derive(Debug, Clone, PartialEq, Eq)]
pub struct World {
    pub name: String,
    /// Used by clients for rendering.
    pub id: i32,
    /// Used by clients for maps.
    pub uuid: u128,
    pub gen_data: GenerationData,
    pub dimensions: Dimensions,
    pub worldmode: WorldMode,
    pub style: Style,
    pub spawn_coord: TileCoord,
    pub dungeon_coord: TileCoord,
    pub progress: Progress,
    pub time: Time,
    pub weather: Weather,
    pub events: Events,
    pub angler: Angler,
    pub chunk_size: u16,
}

/// A well-formed world: the style tables carry their protocol sizes, no
/// more than the three shadow orbs are counted broken, and the spawn and
/// dungeon points lie within the tile bounds.
pub open spec fn world_wf(w: World) -> bool {
    &&& style_wf(w.style)
    &&& w.progress.shadow_orbs_broken <= 3
    &&& w.spawn_coord.x < w.dimensions.tile_width
    &&& w.spawn_coord.y < w.dimensions.tile_height
    &&& w.dungeon_coord.x < w.dimensions.tile_width
    &&& w.dungeon_coord.y < w.dimensions.tile_height
    &&& w.dimensions.tile_width > 0
    &&& w.dimensions.tile_height > 0
}

impl World {
    /// An empty world of one tile, used as the base that readers and
    /// generators fill in.
    pub fn empty() -> (r: World)
        ensures
            world_wf(r),
            r.progress.shadow_orbs_broken == 0,
            r.name@.len() == 0,
    {
        World {
            name: String::new(),
            id: 0,
            uuid: 0,
            gen_data: Default::default(),
            dimensions: Dimensions {
                left: 0,
                right: 0,
                top: 0,
                bottom: 0,
                tile_width: 1,
                tile_height: 1,
            },
            worldmode: WorldMode::Normal,
            style: Style::empty(),
            spawn_coord: TileCoord { x: 0, y: 0 },
            dungeon_coord: TileCoord { x: 0, y: 0 },
            progress: Default::default(),
            time: Default::default(),
            weather: Default::default(),
            events: Default::default(),
            angler: Default::default(),
            chunk_size: 100,
        }
    }

    /// Check well-formedness at run time.
    pub fn is_wf(w: &World) -> (r: bool)
        ensures
            r == world_wf(*w),
    {
        w.style.forest_bg_x.len() == 3 && w.style.forest_bg_style.len() == 4
            && w.style.cave_bg_x.len() == 3 && w.style.cave_bg_style.len() == 4
            && w.style.forest_bg.len() == 4 && w.style.tree_tops.len() == 13
            && w.progress.shadow_orbs_broken <= 3 && w.dimensions.tile_width > 0
            && w.dimensions.tile_height > 0 && (w.spawn_coord.x as u32) < w.dimensions.tile_width
            && (w.spawn_coord.y as u32) < w.dimensions.tile_height && (w.dungeon_coord.x as u32)
            < w.dimensions.tile_width && (w.dungeon_coord.y as u32) < w.dimensions.tile_height
    }

    /// A fresh world with a random id and map id, named as given; the
    /// seed, when given, is hashed into the generation data by the
    /// caller-supplied generator.
    pub fn new(name: &str, gen_data: GenerationData) -> (r: World)
        ensures
            world_wf(r),
            r.name@ == name@,
            r.gen_data == gen_data,
    {
        let mut w = World::empty();
        w.name = name.to_owned();
        w.id = crate::rng::random_i32();
        w.uuid = crate::rng::random_u128();
        w.gen_data = gen_data;
        w
    }
}

} // verus!
