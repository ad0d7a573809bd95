use vstd::prelude::*;

pub mod wire;
pub mod varint;
pub mod tile;
pub mod tilecodec;
pub mod world_types;
pub mod numcast;
pub mod world;
pub mod chunk;
pub mod vanilla;
pub mod player;
pub mod packet;
pub mod worldinfo;
pub mod config;
pub mod session;
pub mod generator;
pub mod internal;
mod rng;

verus! {

} // verus!
