//! Tiles of the world grid: an optional foreground block, an optional
//! background wall, an optional liquid, four wire colours and an actuator.

use vstd::prelude::*;

verus! {

/// A pair of 16-bit tile coordinates.
#[derive(Debug, Default, Clone, Copy, PartialEq, Eq, Structural)]
pub struct TileCoord {
    pub x: u16,
    pub y: u16,
}

impl TileCoord {
    /// Append the coordinate as two little-endian 16-bit fields.
    pub fn write(&self, out: &mut Vec<u8>)
        ensures
            final(out)@ == old(out)@ + vstd::bytes::spec_u16_to_le_bytes(self.x)
                + vstd::bytes::spec_u16_to_le_bytes(self.y),
    {
        crate::wire::put_u16(out, self.x);
        crate::wire::put_u16(out, self.y);
    }

    /// Read a coordinate written by `write`.
    pub fn read(inp: &[u8], pos: &mut usize) -> (r: Option<TileCoord>)
        ensures
            r is Some <==> *old(pos) + 4 <= inp@.len(),
            r is Some ==> *final(pos) == *old(pos) + 4 && inp@.subrange(
                *old(pos) as int,
                *old(pos) + 4,
            ) == vstd::bytes::spec_u16_to_le_bytes(r->0.x) + vstd::bytes::spec_u16_to_le_bytes(
                r->0.y,
            ),
    {
        let x = match crate::wire::take_u16(inp, pos) {
            Some(x) => x,
            None => {
                return None;
            },
        };
        match crate::wire::take_u16(inp, pos) {
            Some(y) => {
                assert(inp@.subrange(*old(pos) as int, *old(pos) + 4) =~= inp@.subrange(
                    *old(pos) as int,
                    *old(pos) + 2,
                ) + inp@.subrange(*old(pos) + 2, *old(pos) + 4));
                Some(TileCoord { x, y })
            },
            None => None,
        }
    }
}

/// A foreground block.
#[derive(Debug, Default, Clone, Copy, PartialEq, Eq)]
pub struct Block {
    /// The block id.
    pub id: u16,
    /// The paint colour; zero when unpainted.
    pub color: u8,
    /// Horizontal frame offset; zero unless the id is frame-important.
    pub frame_width: u16,
    /// Vertical frame offset; zero unless the id is frame-important.
    pub frame_height: u16,
    /// The slope shape, between 0 and 7.
    pub slope: u8,
    /// True when the block has been deactivated by an actuator.
    pub is_inactive: bool,
}

impl Block {
    /// A plain block of the given id.
    pub fn new(id: u16) -> (r: Block)
        ensures
            r == (Block { id, color: 0, frame_width: 0, frame_height: 0, slope: 0, is_inactive: false }),
    {
        Block { id, color: 0, frame_width: 0, frame_height: 0, slope: 0, is_inactive: false }
    }

    /// Field-by-field equality.
    pub fn eq_block(&self, o: &Block) -> (r: bool)
        ensures
            r == (*self == *o),
    {
        self.id == o.id && self.color == o.color && self.frame_width == o.frame_width
            && self.frame_height == o.frame_height && self.slope == o.slope && self.is_inactive
            == o.is_inactive
    }
}

/// A background wall.
#[derive(Debug, Default, Clone, Copy, PartialEq, Eq)]
pub struct Wall {
    /// The wall id.
    pub id: u16,
    /// The paint colour; zero when unpainted.
    pub color: u8,
}

impl Wall {
    /// Field-by-field equality.
    pub fn eq_wall(&self, o: &Wall) -> (r: bool)
        ensures
            r == (*self == *o),
    {
        self.id == o.id && self.color == o.color
    }
}

/// A liquid sitting on a tile. The id is 1 for water, 2 for lava, 3 for
/// honey; the absence of liquid is represented by the tile holding no
/// `Liquid` at all.
#[derive(Debug, Default, Clone, Copy, PartialEq, Eq)]
pub struct Liquid {
    /// The liquid kind, between 1 and 3.
    pub id: u8,
    /// How much liquid the tile holds.
    pub amount: u8,
}

impl Liquid {
    /// Field-by-field equality.
    pub fn eq_liquid(&self, o: &Liquid) -> (r: bool)
        ensures
            r == (*self == *o),
    {
        self.id == o.id && self.amount == o.amount
    }
}

/// A tile in a world.
#[derive(Debug, Default, Clone, Copy, PartialEq, Eq)]
pub struct Tile {
    /// The foreground block, if any.
    pub block: Option<Block>,
    /// The background wall, if any.
    pub wall: Option<Wall>,
    /// The liquid, if any.
    pub liquid: Option<Liquid>,
    /// Red wire.
    pub wire_red: bool,
    /// Blue wire.
    pub wire_blue: bool,
    /// Green wire.
    pub wire_green: bool,
    /// Yellow wire.
    pub wire_yellow: bool,
    /// True when the tile carries an actuator.
    pub has_actuator: bool,
}

impl Tile {
    /// A tile holding only the given block.
    pub fn new(block: Block) -> (r: Tile)
        ensures
            r.block == Some(block),
            r.wall is None && r.liquid is None,
            !r.wire_red && !r.wire_blue && !r.wire_green && !r.wire_yellow && !r.has_actuator,
    {
        Tile {
            block: Some(block),
            wall: None,
            liquid: None,
            wire_red: false,
            wire_blue: false,
            wire_green: false,
            wire_yellow: false,
            has_actuator: false,
        }
    }

    /// An empty tile.
    pub fn empty() -> (r: Tile)
        ensures
            r.block is None && r.wall is None && r.liquid is None,
            !r.wire_red && !r.wire_blue && !r.wire_green && !r.wire_yellow && !r.has_actuator,
    {
        Tile {
            block: None,
            wall: None,
            liquid: None,
            wire_red: false,
            wire_blue: false,
            wire_green: false,
            wire_yellow: false,
            has_actuator: false,
        }
    }

    /// True for each of the four wire colours, in the order red, blue,
    /// green, yellow.
    pub fn has_wire(&self, i: usize) -> (r: bool)
        requires
            i < 4,
        ensures
            i == 0 ==> r == self.wire_red,
            i == 1 ==> r == self.wire_blue,
            i == 2 ==> r == self.wire_green,
            i == 3 ==> r == self.wire_yellow,
    {
        if i == 0 {
            self.wire_red
        } else if i == 1 {
            self.wire_blue
        } else if i == 2 {
            self.wire_green
        } else {
            self.wire_yellow
        }
    }

    /// Field-by-field equality.
    pub fn eq_tile(&self, o: &Tile) -> (r: bool)
        ensures
            r == (*self == *o),
    {
        let blocks = match (&self.block, &o.block) {
            (Some(a), Some(b)) => a.eq_block(b),
            (None, None) => true,
            _ => false,
        };
        let walls = match (&self.wall, &o.wall) {
            (Some(a), Some(b)) => a.eq_wall(b),
            (None, None) => true,
            _ => false,
        };
        let liquids = match (&self.liquid, &o.liquid) {
            (Some(a), Some(b)) => a.eq_liquid(b),
            (None, None) => true,
            _ => false,
        };
        blocks && walls && liquids && self.wire_red == o.wire_red && self.wire_blue == o.wire_blue
            && self.wire_green == o.wire_green && self.wire_yellow == o.wire_yellow
            && self.has_actuator == o.has_actuator
    }
}

/// Whether the frame-important table marks this block id.
pub open spec fn spec_frame_important(fi: Seq<bool>, id: u16) -> bool {
    id < fi.len() && fi[id as int]
}

/// Whether the frame-important table marks this block id.
pub fn frame_important(fi: &[bool], id: u16) -> (r: bool)
    ensures
        r == spec_frame_important(fi@, id),
{
    (id as usize) < fi.len() && fi[id as usize]
}

/// A tile the grid codec can represent exactly: the slope fits in three
/// bits, a liquid id is between 1 and 3, and frame offsets appear only on
/// frame-important blocks.
pub open spec fn tile_wf(t: Tile, fi: Seq<bool>) -> bool {
    &&& (t.block matches Some(b) ==> b.slope <= 7 && (!spec_frame_important(fi, b.id)
        ==> b.frame_width == 0 && b.frame_height == 0))
    &&& (t.liquid matches Some(l) ==> 1 <= l.id <= 3)
}

/// Check `tile_wf` at run time.
pub fn tile_is_wf(t: &Tile, fi: &[bool]) -> (r: bool)
    ensures
        r == tile_wf(*t, fi@),
{
    let block_ok = match &t.block {
        Some(b) => b.slope <= 7 && (frame_important(fi, b.id) || (b.frame_width == 0
            && b.frame_height == 0)),
        None => true,
    };
    let liquid_ok = match &t.liquid {
        Some(l) => 1 <= l.id && l.id <= 3,
        None => true,
    };
    block_ok && liquid_ok
}

} // verus!
