//! Chunks: fixed-size square regions of tiles that are the unit of
//! exclusive ownership, together with the chests and signs inside them.

use vstd::prelude::*;

verus! {

use crate::tile::{Tile, Block, TileCoord};

/// A stack of one item kind inside a chest.
#[derive(Debug, Default, Clone, Copy, PartialEq, Eq, Structural)]
pub struct ItemStack {
    /// The size of the stack.
    pub stack: u16,
    /// The item id.
    pub id: u16,
    /// The prefix or modifier of the item.
    pub prefix: u8,
}

/// A chest with a display name and its contents.
#[derive(Debug, Clone, PartialEq, Eq)]
pub struct Chest {
    /// The name of the chest.
    pub name: String,
    /// The X tile coordinate.
    pub x: u32,
    /// The Y tile coordinate.
    pub y: u32,
    /// The items of the chest, in slot order.
    pub items: Vec<ItemStack>,
}

/// A sign with a text body.
#[derive(Debug, Clone, PartialEq, Eq)]
pub struct Sign {
    /// The X tile coordinate.
    pub x: u32,
    /// The Y tile coordinate.
    pub y: u32,
    /// The text of the sign.
    pub text: String,
}

/// The coordinate of a chunk within the chunk grid.
#[derive(Debug, PartialEq, Eq, Hash, Clone, Copy, Structural)]
pub struct ChunkCoord {
    pub x: u16,
    pub y: u16,
}

impl ChunkCoord {
    /// The chunk holding the given tile.
    pub fn from_tilecoord(coord: &TileCoord, chunk_size: u16) -> (r: ChunkCoord)
        requires
            chunk_size > 0,
        ensures
            r.x == coord.x / chunk_size,
            r.y == coord.y / chunk_size,
    {
        ChunkCoord { x: coord.x / chunk_size, y: coord.y / chunk_size }
    }
}

/// A square region of tiles with the chests and signs inside it.
#[derive(Debug, Clone, PartialEq, Eq)]
pub struct Chunk {
    /// The tile coordinate of the top-left corner.
    pub start_pos: TileCoord,
    /// The side length in tiles.
    pub chunk_size: u16,
    /// The tiles, column-major.
    pub tiles: Vec<Tile>,
    /// The chests inside the region.
    pub chests: Vec<Chest>,
    /// Encoded signs inside the region.
    pub signs: Vec<u8>,
    /// Encoded tile entities inside the region.
    pub tileentities: Vec<u8>,
}

impl Chunk {
    /// An empty chunk with no tiles.
    pub fn empty() -> (r: Chunk)
        ensures
            r.tiles@.len() == 0,
            r.chests@.len() == 0,
            r.signs@.len() == 0,
            r.tileentities@.len() == 0,
            r.chunk_size == 0,
    {
        Chunk {
            start_pos: TileCoord { x: 0, y: 0 },
            chunk_size: 0,
            tiles: Vec::new(),
            chests: Vec::new(),
            signs: Vec::new(),
            tileentities: Vec::new(),
        }
    }

    /// A chunk of bare ground for trying a server out: empty tiles, with a
    /// strip of blocks in the last two columns of each row.
    pub fn test_chunk(chunk_size: u16) -> (r: Chunk)
        ensures
            r.tiles@.len() == (chunk_size as int) * (chunk_size as int),
            forall|i: int|
                0 <= i < r.tiles@.len() ==> (#[trigger] r.tiles@[i]).wall is None
                    && r.tiles@[i].liquid is None && (r.tiles@[i].block == (if i % (
                chunk_size as int) + 3 > chunk_size {
                    Some(
                        Block {
                            id: 0,
                            color: 0,
                            frame_width: 0,
                            frame_height: 0,
                            slope: 0,
                            is_inactive: false,
                        },
                    )
                } else {
                    Option::<Block>::None
                })),
    {
        let mut chunk = Chunk::empty();
        let cs = chunk_size as usize;
        let mut row: usize = 0;
        while row < cs
            invariant
                cs == chunk_size as int,
                row <= cs,
                chunk.tiles@.len() == row * cs,
                forall|i: int|
                    0 <= i < chunk.tiles@.len() ==> (#[trigger] chunk.tiles@[i]).wall is None
                        && chunk.tiles@[i].liquid is None && (chunk.tiles@[i].block == (if i % (
                    cs as int) + 3 > cs {
                        Some(
                            Block {
                                id: 0,
                                color: 0,
                                frame_width: 0,
                                frame_height: 0,
                                slope: 0,
                                is_inactive: false,
                            },
                        )
                    } else {
                        Option::<Block>::None
                    })),
            decreases cs - row,
        {
            let mut x: usize = 0;
            while x < cs
                invariant
                    cs == chunk_size as int,
                    row < cs,
                    x <= cs,
                    chunk.tiles@.len() == row * cs + x,
                    forall|i: int|
                        0 <= i < chunk.tiles@.len() ==> (#[trigger] chunk.tiles@[i]).wall is None
                            && chunk.tiles@[i].liquid is None && (chunk.tiles@[i].block == (if i
                        % (cs as int) + 3 > cs {
                            Some(
                                Block {
                                    id: 0,
                                    color: 0,
                                    frame_width: 0,
                                    frame_height: 0,
                                    slope: 0,
                                    is_inactive: false,
                                },
                            )
                        } else {
                            Option::<Block>::None
                        })),
                decreases cs - x,
            {
                proof {
                    vstd::arithmetic::mul::lemma_mul_inequality(row as int + 1, cs as int, cs as int);
                    vstd::arithmetic::mul::lemma_mul_is_distributive_add_other_way(
                        cs as int,
                        row as int,
                        1,
                    );
                }
                proof {
                    vstd::arithmetic::div_mod::lemma_fundamental_div_mod_converse(
                        (row * cs + x) as int,
                        cs as int,
                        row as int,
                        x as int,
                    );
                }
                if x + 3 > cs {
                    chunk.tiles.push(Tile::new(Block::new(0)));
                } else {
                    chunk.tiles.push(Tile::empty());
                }
                x = x + 1;
            }
            proof {
                vstd::arithmetic::mul::lemma_mul_is_distributive_add_other_way(
                    cs as int,
                    row as int,
                    1,
                );
            }
            row = row + 1;
        }
        chunk
    }
}

} // verus!
