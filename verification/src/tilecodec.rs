//! The run-length tile grid codec.
//!
//! Tiles are stored column-major. Each record holds one tile and a repeat
//! count, laid out as a first flag byte, optional second and third flag
//! bytes, the block fields, the wall fields, the liquid amount, the high
//! wall-id byte, and the repeat count in zero, one or two bytes. The first
//! flag byte announces which parts follow: bit 0 a second flag byte, bit 1
//! a block, bit 2 a wall, bits 3-4 the liquid id, bit 5 a two-byte block
//! id, bit 6 a one-byte repeat count, bit 7 a two-byte repeat count.

use vstd::prelude::*;

verus! {

use vstd::bytes::spec_u16_to_le_bytes;
use vstd::bytes::spec_u16_from_le_bytes;
use crate::tile::{Tile, Block, Wall, Liquid, spec_frame_important, frame_important, tile_wf};
use crate::wire::{take_u8, take_u16, put_u8, put_u16};

/// The block is painted.
pub open spec fn blk_colored(t: Tile) -> bool {
    t.block matches Some(b) && b.color != 0
}

/// The wall is painted.
pub open spec fn wall_colored(t: Tile) -> bool {
    t.wall matches Some(w) && w.color != 0
}

/// The wall id needs a second byte.
pub open spec fn wall_wide(t: Tile) -> bool {
    t.wall matches Some(w) && w.id > 255
}

/// The block has been deactivated.
pub open spec fn blk_inactive(t: Tile) -> bool {
    t.block matches Some(b) && b.is_inactive
}

/// The block id needs a second byte.
pub open spec fn blk_wide(t: Tile) -> bool {
    t.block matches Some(b) && b.id > 255
}

/// The slope stored for the tile: that of its block, or zero.
pub open spec fn slope_of(t: Tile) -> u8 {
    if t.block is Some {
        t.block->0.slope
    } else {
        0
    }
}

/// The liquid id stored in the first flag byte: zero when no liquid.
pub open spec fn liquid_id_of(t: Tile) -> u8 {
    if t.liquid is Some {
        t.liquid->0.id
    } else {
        0
    }
}

/// A third flag byte is needed.
pub open spec fn needs_f3(t: Tile) -> bool {
    blk_inactive(t) || t.has_actuator || blk_colored(t) || wall_colored(t) || t.wire_yellow
        || wall_wide(t)
}

/// A second flag byte is needed.
pub open spec fn needs_f2(t: Tile) -> bool {
    needs_f3(t) || slope_of(t) != 0 || t.wire_red || t.wire_blue || t.wire_green
}

/// The canonical first flag byte.
pub open spec fn f1_byte(t: Tile, rep: u16) -> u8 {
    ((if needs_f2(t) {
        1int
    } else {
        0int
    }) + (if t.block is Some {
        2int
    } else {
        0int
    }) + (if t.wall is Some {
        4int
    } else {
        0int
    }) + liquid_id_of(t) * 8 + (if blk_wide(t) {
        32int
    } else {
        0int
    }) + (if 1 <= rep <= 255 {
        64int
    } else {
        0int
    }) + (if rep > 255 {
        128int
    } else {
        0int
    })) as u8
}

/// The canonical second flag byte.
pub open spec fn f2_byte(t: Tile) -> u8 {
    ((if needs_f3(t) {
        1int
    } else {
        0int
    }) + (if t.wire_red {
        2int
    } else {
        0int
    }) + (if t.wire_blue {
        4int
    } else {
        0int
    }) + (if t.wire_green {
        8int
    } else {
        0int
    }) + slope_of(t) * 16) as u8
}

/// The canonical third flag byte.
pub open spec fn f3_byte(t: Tile) -> u8 {
    ((if t.has_actuator {
        2int
    } else {
        0int
    }) + (if blk_inactive(t) {
        4int
    } else {
        0int
    }) + (if blk_colored(t) {
        8int
    } else {
        0int
    }) + (if wall_colored(t) {
        16int
    } else {
        0int
    }) + (if t.wire_yellow {
        32int
    } else {
        0int
    }) + (if wall_wide(t) {
        64int
    } else {
        0int
    })) as u8
}

/// The block fields of a record: the id in one or two bytes, the frame
/// offsets when the id is frame-important, and the paint colour when set.
pub open spec fn block_seg(t: Tile, fi: Seq<bool>) -> Seq<u8> {
    match t.block {
        Some(b) => (if b.id > 255 {
            spec_u16_to_le_bytes(b.id)
        } else {
            seq![b.id as u8]
        }) + (if spec_frame_important(fi, b.id) {
            spec_u16_to_le_bytes(b.frame_width) + spec_u16_to_le_bytes(b.frame_height)
        } else {
            Seq::empty()
        }) + (if b.color != 0 {
            seq![b.color]
        } else {
            Seq::empty()
        }),
        None => Seq::empty(),
    }
}

/// The second flag byte, when needed.
pub open spec fn f2_seg(t: Tile) -> Seq<u8> {
    if needs_f2(t) {
        seq![f2_byte(t)]
    } else {
        Seq::empty()
    }
}

/// The third flag byte, when needed.
pub open spec fn f3_seg(t: Tile) -> Seq<u8> {
    if needs_f3(t) {
        seq![f3_byte(t)]
    } else {
        Seq::empty()
    }
}

/// The low byte of the wall id, when a wall is present.
pub open spec fn wall_seg(t: Tile) -> Seq<u8> {
    match t.wall {
        Some(w) => seq![(w.id % 256) as u8],
        None => Seq::empty(),
    }
}

/// The wall paint colour, when set.
pub open spec fn wcolor_seg(t: Tile) -> Seq<u8> {
    if wall_colored(t) {
        seq![t.wall->0.color]
    } else {
        Seq::empty()
    }
}

/// The liquid amount, when a liquid is present.
pub open spec fn liquid_seg(t: Tile) -> Seq<u8> {
    match t.liquid {
        Some(l) => seq![l.amount],
        None => Seq::empty(),
    }
}

/// The high byte of the wall id, when it does not fit in one byte.
pub open spec fn whigh_seg(t: Tile) -> Seq<u8> {
    if wall_wide(t) {
        seq![(t.wall->0.id / 256) as u8]
    } else {
        Seq::empty()
    }
}

/// The repeat count in zero, one or two bytes.
pub open spec fn rep_seg(rep: u16) -> Seq<u8> {
    if 1 <= rep <= 255 {
        seq![rep as u8]
    } else if rep > 255 {
        spec_u16_to_le_bytes(rep)
    } else {
        Seq::empty()
    }
}

/// The canonical bytes of one record: the tile, repeated `rep + 1` times.
pub open spec fn record_bytes(t: Tile, rep: u16, fi: Seq<bool>) -> Seq<u8> {
    seq![f1_byte(t, rep)] + f2_seg(t) + f3_seg(t) + block_seg(t, fi) + wall_seg(t) + wcolor_seg(t)
        + liquid_seg(t) + whigh_seg(t) + rep_seg(rep)
}

/// An optional one-byte field: absent fields read as zero without moving.
pub open spec fn opt_u8_at(b: Seq<u8>, p: int, present: bool) -> Option<(u8, int)> {
    if !present {
        Some((0u8, p))
    } else if p < 0 || p + 1 > b.len() {
        None
    } else {
        Some((b[p], p + 1))
    }
}

/// An optional little-endian two-byte field: absent fields read as zero
/// without moving.
pub open spec fn opt_u16_at(b: Seq<u8>, p: int, present: bool) -> Option<(u16, int)> {
    if !present {
        Some((0u16, p))
    } else if p < 0 || p + 2 > b.len() {
        None
    } else {
        Some((spec_u16_from_le_bytes(b.subrange(p, p + 2)), p + 2))
    }
}

/// The record starting at position `p` of `b`: the tile, its repeat count,
/// and the position just past the record. `None` when the input ends early.
#[verifier::opaque]
pub open spec fn record_at(b: Seq<u8>, p: int, fi: Seq<bool>) -> Option<(Tile, u16, int)> {
    if p < 0 || p + 1 > b.len() {
        None
    } else {
        let f1 = b[p];
        match opt_u8_at(b, p + 1, f1 % 2 == 1) {
            None => None,
            Some((f2, p2)) => match opt_u8_at(b, p2, f1 % 2 == 1 && f2 % 2 == 1) {
                None => None,
                Some((f3, p3)) => record_tail_at(b, p3, fi, f1, f2, f3),
            },
        }
    }
}

/// The block fields of a record: id, frame offsets, paint colour, and the
/// position just past them.
pub open spec fn record_block_at(b: Seq<u8>, p3: int, fi: Seq<bool>, f1: u8, f3: u8) -> Option<
    ((u16, u16, u16, u8), int),
> {
    let has_block = (f1 / 2) % 2 == 1;
    let id_wide = (f1 / 32) % 2 == 1;
    let id8 = opt_u8_at(b, p3, has_block && !id_wide);
    let id16 = opt_u16_at(b, p3, has_block && id_wide);
    if id8 is None || id16 is None {
        None
    } else {
        let bid: u16 = if id_wide {
            (id16->0).0
        } else {
            (id8->0).0 as u16
        };
        let p4 = if id_wide {
            (id16->0).1
        } else {
            (id8->0).1
        };
        let has_frames = has_block && spec_frame_important(fi, bid);
        match opt_u16_at(b, p4, has_frames) {
            None => None,
            Some((fw, pw)) => match opt_u16_at(b, pw, has_frames) {
                None => None,
                Some((fh, p5)) => match opt_u8_at(b, p5, has_block && (f3 / 8) % 2 == 1) {
                    None => None,
                    Some((bcolor, p6)) => Some(((bid, fw, fh, bcolor), p6)),
                },
            },
        }
    }
}

/// The fields after the flag bytes: block, wall, liquid, repeat count.
pub open spec fn record_tail_at(b: Seq<u8>, p3: int, fi: Seq<bool>, f1: u8, f2: u8, f3: u8) -> Option<
    (Tile, u16, int),
> {
    match record_block_at(b, p3, fi, f1, f3) {
        Some(((bid, fw, fh, bcolor), p6)) => record_wall_at(
            b,
            p6,
            f1,
            f2,
            f3,
            (f1 / 2) % 2 == 1,
            bid,
            fw,
            fh,
            bcolor,
        ),
        None => None,
    }
}

/// The wall, liquid and repeat fields of a record.
pub open spec fn record_wall_at(
    b: Seq<u8>,
    p6: int,
    f1: u8,
    f2: u8,
    f3: u8,
    has_block: bool,
    bid: u16,
    fw: u16,
    fh: u16,
    bcolor: u8,
) -> Option<(Tile, u16, int)> {
    let has_wall = (f1 / 4) % 2 == 1;
    let liq: u8 = (f1 / 8) % 4;
    match opt_u8_at(b, p6, has_wall) {
        None => None,
        Some((wlow, p7)) => match opt_u8_at(b, p7, has_wall && (f3 / 16) % 2 == 1) {
            None => None,
            Some((wcolor, p8)) => match opt_u8_at(b, p8, liq != 0) {
                None => None,
                Some((amount, p9)) => match opt_u8_at(b, p9, has_wall && (f3 / 64) % 2 == 1) {
                    None => None,
                    Some((whigh, p10)) => {
                        let wid: u16 = if has_wall && (f3 / 64) % 2 == 1 {
                            (wlow + 256 * whigh) as u16
                        } else {
                            wlow as u16
                        };
                        let run16 = f1 / 128 == 1;
                        let run8 = (f1 / 64) % 2 == 1;
                        let rep16 = opt_u16_at(b, p10, run16);
                        let rep8 = opt_u8_at(b, p10, !run16 && run8);
                        if rep16 is None || rep8 is None {
                            None
                        } else {
                            let rep: u16 = if run16 {
                                (rep16->0).0
                            } else {
                                (rep8->0).0 as u16
                            };
                            let p11 = if run16 {
                                (rep16->0).1
                            } else {
                                (rep8->0).1
                            };
                            let tile = Tile {
                                block: if has_block {
                                    Some(
                                        Block {
                                            id: bid,
                                            color: bcolor,
                                            frame_width: fw,
                                            frame_height: fh,
                                            slope: (f2 / 16) % 8,
                                            is_inactive: (f3 / 4) % 2 == 1,
                                        },
                                    )
                                } else {
                                    None
                                },
                                wall: if has_wall {
                                    Some(Wall { id: wid, color: wcolor })
                                } else {
                                    None
                                },
                                liquid: if liq != 0 {
                                    Some(Liquid { id: liq, amount })
                                } else {
                                    None
                                },
                                wire_red: (f2 / 2) % 2 == 1,
                                wire_blue: (f2 / 4) % 2 == 1,
                                wire_green: (f2 / 8) % 2 == 1,
                                wire_yellow: (f3 / 32) % 2 == 1,
                                has_actuator: (f3 / 2) % 2 == 1,
                            };
                            Some((tile, rep, p11))
                        }
                    },
                },
            },
        },
    }
}

/// Bit extraction from the canonical first flag byte.
proof fn lemma_f1_extract(x0: u8, x1: u8, x2: u8, l: u8, x5: u8, x6: u8, x7: u8)
    requires
        x0 <= 1,
        x1 <= 1,
        x2 <= 1,
        l <= 3,
        x5 <= 1,
        x6 <= 1,
        x7 <= 1,
    ensures
        ({
            let s = (x0 + 2 * x1 + 4 * x2 + 8 * l + 32 * x5 + 64 * x6 + 128 * x7) as u8;
            s % 2 == x0 && (s / 2) % 2 == x1 && (s / 4) % 2 == x2 && (s / 8) % 4 == l && (s / 32)
                % 2 == x5 && (s / 64) % 2 == x6 && s / 128 == x7
        }),
{
    assert(({
        let s = (x0 + 2 * x1 + 4 * x2 + 8 * l + 32 * x5 + 64 * x6 + 128 * x7) as u8;
        s % 2 == x0 && (s / 2) % 2 == x1 && (s / 4) % 2 == x2 && (s / 8) % 4 == l && (s / 32) % 2
            == x5 && (s / 64) % 2 == x6 && s / 128 == x7
    })) by (bit_vector)
        requires
            x0 <= 1 && x1 <= 1 && x2 <= 1 && l <= 3 && x5 <= 1 && x6 <= 1 && x7 <= 1,
    {
    }
}

/// Bit extraction from the canonical second flag byte.
proof fn lemma_f2_extract(x0: u8, x1: u8, x2: u8, x3: u8, sl: u8)
    requires
        x0 <= 1,
        x1 <= 1,
        x2 <= 1,
        x3 <= 1,
        sl <= 7,
    ensures
        ({
            let s = (x0 + 2 * x1 + 4 * x2 + 8 * x3 + 16 * sl) as u8;
            s % 2 == x0 && (s / 2) % 2 == x1 && (s / 4) % 2 == x2 && (s / 8) % 2 == x3 && (s / 16)
                % 8 == sl
        }),
{
    assert(({
        let s = (x0 + 2 * x1 + 4 * x2 + 8 * x3 + 16 * sl) as u8;
        s % 2 == x0 && (s / 2) % 2 == x1 && (s / 4) % 2 == x2 && (s / 8) % 2 == x3 && (s / 16) % 8
            == sl
    })) by (bit_vector)
        requires
            x0 <= 1 && x1 <= 1 && x2 <= 1 && x3 <= 1 && sl <= 7,
    {
    }
}

/// Bit extraction from the canonical third flag byte.
proof fn lemma_f3_extract(x1: u8, x2: u8, x3: u8, x4: u8, x5: u8, x6: u8)
    requires
        x1 <= 1,
        x2 <= 1,
        x3 <= 1,
        x4 <= 1,
        x5 <= 1,
        x6 <= 1,
    ensures
        ({
            let s = (2 * x1 + 4 * x2 + 8 * x3 + 16 * x4 + 32 * x5 + 64 * x6) as u8;
            s % 2 == 0 && (s / 2) % 2 == x1 && (s / 4) % 2 == x2 && (s / 8) % 2 == x3 && (s / 16)
                % 2 == x4 && (s / 32) % 2 == x5 && (s / 64) % 2 == x6
        }),
{
    assert(({
        let s = (2 * x1 + 4 * x2 + 8 * x3 + 16 * x4 + 32 * x5 + 64 * x6) as u8;
        s % 2 == 0 && (s / 2) % 2 == x1 && (s / 4) % 2 == x2 && (s / 8) % 2 == x3 && (s / 16) % 2
            == x4 && (s / 32) % 2 == x5 && (s / 64) % 2 == x6
    })) by (bit_vector)
        requires
            x1 <= 1 && x2 <= 1 && x3 <= 1 && x4 <= 1 && x5 <= 1 && x6 <= 1,
    {
    }
}

/// Whether the tile needs a third flag byte.
fn ex_needs_f3(t: &Tile) -> (r: bool)
    ensures
        r == needs_f3(*t),
{
    let bi = match &t.block {
        Some(b) => b.is_inactive,
        None => false,
    };
    let bc = match &t.block {
        Some(b) => b.color != 0,
        None => false,
    };
    let wc = match &t.wall {
        Some(w) => w.color != 0,
        None => false,
    };
    let ww = match &t.wall {
        Some(w) => w.id > 255,
        None => false,
    };
    bi || t.has_actuator || bc || wc || t.wire_yellow || ww
}

/// Whether the tile needs a second flag byte.
fn ex_needs_f2(t: &Tile) -> (r: bool)
    ensures
        r == needs_f2(*t),
{
    let sl = match &t.block {
        Some(b) => b.slope,
        None => 0,
    };
    ex_needs_f3(t) || sl != 0 || t.wire_red || t.wire_blue || t.wire_green
}

/// The canonical first flag byte of the tile.
fn ex_f1(t: &Tile, rep: u16) -> (r: u8)
    requires
        liquid_id_of(*t) <= 3,
    ensures
        r == f1_byte(*t, rep),
{
    let has_f2 = ex_needs_f2(t);
    let liq: u8 = match &t.liquid {
        Some(l) => l.id,
        None => 0,
    };
    let mut f1: u8 = liq * 8;
    if has_f2 {
        f1 = f1 + 1;
    }
    if t.block.is_some() {
        f1 = f1 + 2;
    }
    if t.wall.is_some() {
        f1 = f1 + 4;
    }
    let wide = match &t.block {
        Some(b) => b.id > 255,
        None => false,
    };
    if wide {
        f1 = f1 + 32;
    }
    if 1 <= rep && rep <= 255 {
        f1 = f1 + 64;
    }
    if rep > 255 {
        f1 = f1 + 128;
    }
    f1
}

/// The canonical second flag byte of the tile.
fn ex_f2(t: &Tile) -> (r: u8)
    requires
        slope_of(*t) <= 7,
    ensures
        r == f2_byte(*t),
{
    let has_f3 = ex_needs_f3(t);
    let sl: u8 = match &t.block {
        Some(b) => b.slope,
        None => 0,
    };
    let mut f2: u8 = sl * 16;
    if has_f3 {
        f2 = f2 + 1;
    }
    if t.wire_red {
        f2 = f2 + 2;
    }
    if t.wire_blue {
        f2 = f2 + 4;
    }
    if t.wire_green {
        f2 = f2 + 8;
    }
    f2
}

/// The canonical third flag byte of the tile.
fn ex_f3(t: &Tile) -> (r: u8)
    ensures
        r == f3_byte(*t),
{
    let mut f3: u8 = 0;
    if t.has_actuator {
        f3 = f3 + 2;
    }
    let bi = match &t.block {
        Some(b) => b.is_inactive,
        None => false,
    };
    if bi {
        f3 = f3 + 4;
    }
    let bc = match &t.block {
        Some(b) => b.color != 0,
        None => false,
    };
    if bc {
        f3 = f3 + 8;
    }
    let wc = match &t.wall {
        Some(w) => w.color != 0,
        None => false,
    };
    if wc {
        f3 = f3 + 16;
    }
    if t.wire_yellow {
        f3 = f3 + 32;
    }
    let ww = match &t.wall {
        Some(w) => w.id > 255,
        None => false,
    };
    if ww {
        f3 = f3 + 64;
    }
    f3
}

/// Append the block fields of the record.
fn put_block_seg(out: &mut Vec<u8>, t: &Tile, fi: &[bool])
    ensures
        final(out)@ == old(out)@ + block_seg(*t, fi@),
{
    match &t.block {
        Some(b) => {
            if b.id > 255 {
                put_u16(out, b.id);
            } else {
                put_u8(out, b.id as u8);
            }
            if frame_important(fi, b.id) {
                put_u16(out, b.frame_width);
                put_u16(out, b.frame_height);
            }
            if b.color != 0 {
                put_u8(out, b.color);
            }
            assert(final(out)@ =~= old(out)@ + block_seg(*t, fi@));
        },
        None => {
            assert(final(out)@ =~= old(out)@ + block_seg(*t, fi@));
        },
    }
}

/// Append the repeat count of the record.
fn put_rep_seg(out: &mut Vec<u8>, rep: u16)
    ensures
        final(out)@ == old(out)@ + rep_seg(rep),
{
    if 1 <= rep && rep <= 255 {
        put_u8(out, rep as u8);
    } else if rep > 255 {
        put_u16(out, rep);
    }
    assert(final(out)@ =~= old(out)@ + rep_seg(rep));
}

/// Append the second flag byte when the tile needs one.
fn put_f2_seg(out: &mut Vec<u8>, t: &Tile)
    requires
        slope_of(*t) <= 7,
    ensures
        final(out)@ == old(out)@ + f2_seg(*t),
{
    if ex_needs_f2(t) {
        let f2 = ex_f2(t);
        put_u8(out, f2);
    }
    assert(final(out)@ =~= old(out)@ + f2_seg(*t));
}

/// Append the third flag byte when the tile needs one.
fn put_f3_seg(out: &mut Vec<u8>, t: &Tile)
    ensures
        final(out)@ == old(out)@ + f3_seg(*t),
{
    if ex_needs_f3(t) {
        let f3 = ex_f3(t);
        put_u8(out, f3);
    }
    assert(final(out)@ =~= old(out)@ + f3_seg(*t));
}

/// Append the low wall-id byte and the wall colour.
fn put_wall_seg(out: &mut Vec<u8>, t: &Tile)
    ensures
        final(out)@ == old(out)@ + wall_seg(*t) + wcolor_seg(*t),
{
    match &t.wall {
        Some(w) => {
            put_u8(out, (w.id % 256) as u8);
            if w.color != 0 {
                put_u8(out, w.color);
            }
        },
        None => {},
    }
    assert(final(out)@ =~= old(out)@ + wall_seg(*t) + wcolor_seg(*t));
}

/// Append the liquid amount when a liquid is present.
fn put_liquid_seg(out: &mut Vec<u8>, t: &Tile)
    ensures
        final(out)@ == old(out)@ + liquid_seg(*t),
{
    match &t.liquid {
        Some(l) => {
            put_u8(out, l.amount);
        },
        None => {},
    }
    assert(final(out)@ =~= old(out)@ + liquid_seg(*t));
}

/// Append the high wall-id byte when the id is wide.
fn put_whigh_seg(out: &mut Vec<u8>, t: &Tile)
    ensures
        final(out)@ == old(out)@ + whigh_seg(*t),
{
    match &t.wall {
        Some(w) => {
            if w.id > 255 {
                put_u8(out, (w.id / 256) as u8);
            }
        },
        None => {},
    }
    assert(final(out)@ =~= old(out)@ + whigh_seg(*t));
}

/// Append the canonical record for `rep + 1` copies of `t`.
pub fn encode_record(out: &mut Vec<u8>, t: &Tile, rep: u16, fi: &[bool])
    requires
        tile_wf(*t, fi@),
    ensures
        final(out)@ == old(out)@ + record_bytes(*t, rep, fi@),
{
    let f1 = ex_f1(t, rep);
    put_u8(out, f1);
    proof {
        assert(out@ =~= old(out)@ + seq![f1_byte(*t, rep)]);
    }
    put_f2_seg(out, t);
    put_f3_seg(out, t);
    put_block_seg(out, t, fi);
    put_wall_seg(out, t);
    put_liquid_seg(out, t);
    put_whigh_seg(out, t);
    put_rep_seg(out, rep);
}

/// The block id stored for the tile: that of its block, or zero.
pub open spec fn blk_id_of(t: Tile) -> u16 {
    if t.block is Some {
        t.block->0.id
    } else {
        0
    }
}

/// Decoding the wall, liquid and repeat fields of a canonical record
/// embedded in `b` at `q` yields the tile back.
#[verifier::rlimit(100)]
proof fn lemma_wall_embed(b: Seq<u8>, q: int, t: Tile, rep: u16, fi: Seq<bool>)
    requires
        tile_wf(t, fi),
        0 <= q,
        q + (wall_seg(t) + wcolor_seg(t) + liquid_seg(t) + whigh_seg(t) + rep_seg(rep)).len()
            <= b.len(),
        b.subrange(
            q,
            q + (wall_seg(t) + wcolor_seg(t) + liquid_seg(t) + whigh_seg(t) + rep_seg(rep)).len(),
        ) == wall_seg(t) + wcolor_seg(t) + liquid_seg(t) + whigh_seg(t) + rep_seg(rep),
    ensures
        record_wall_at(
            b,
            q,
            f1_byte(t, rep),
            if needs_f2(t) {
                f2_byte(t)
            } else {
                0
            },
            if needs_f3(t) {
                f3_byte(t)
            } else {
                0
            },
            t.block is Some,
            blk_id_of(t),
            if t.block is Some {
                t.block->0.frame_width
            } else {
                0
            },
            if t.block is Some {
                t.block->0.frame_height
            } else {
                0
            },
            if t.block is Some {
                t.block->0.color
            } else {
                0
            },
        ) == Some(
            (
                t,
                rep,
                q + (wall_seg(t) + wcolor_seg(t) + liquid_seg(t) + whigh_seg(t)
                    + rep_seg(rep)).len(),
            ),
        ),
{
    lemma_flag_extracts(t, rep);
    vstd::bytes::lemma_auto_spec_u16_to_from_le_bytes();
    let w = wall_seg(t);
    let wc = wcolor_seg(t);
    let lq = liquid_seg(t);
    let wh = whigh_seg(t);
    let rp = rep_seg(rep);
    let s = w + wc + lq + wh + rp;
    let n_end = q + s.len();
    assert forall|i: int| 0 <= i < s.len() implies b[q + i] == s[i] by {
        assert(b.subrange(q, n_end)[i] == b[q + i]);
    }
    let ow = w.len() as int;
    let owc = ow + wc.len();
    let olq = owc + lq.len();
    let owh = olq + wh.len();
    if t.wall is Some {
        assert(b[q + 0] == s[0]);
        assert(s[0] == w[0]);
        assert(b[q] == (t.wall->0.id % 256) as u8);
        vstd::arithmetic::div_mod::lemma_fundamental_div_mod(t.wall->0.id as int, 256);
    }
    if wall_colored(t) {
        assert(b[q + ow] == s[ow]);
        assert(s[ow] == wc[0]);
        assert(b[q + ow] == t.wall->0.color);
    }
    if t.liquid is Some {
        assert(b[q + owc] == s[owc]);
        assert(s[owc] == lq[0]);
        assert(b[q + owc] == t.liquid->0.amount);
    }
    if wall_wide(t) {
        assert(b[q + olq] == s[olq]);
        assert(s[olq] == wh[0]);
        assert(b[q + olq] == (t.wall->0.id / 256) as u8);
    }
    if 1 <= rep <= 255 {
        assert(b[q + owh] == s[owh]);
        assert(s[owh] == rp[0]);
        assert(b[q + owh] == rep as u8);
    }
    if rep > 255 {
        assert(b.subrange(q + owh, q + owh + 2) =~= vstd::bytes::spec_u16_to_le_bytes(rep)) by {
            assert forall|k: int| 0 <= k < 2 implies b.subrange(q + owh, q + owh + 2)[k]
                == vstd::bytes::spec_u16_to_le_bytes(rep)[k] by {
                assert(b[q + owh + k] == s[owh + k]);
                assert(s[owh + k] == rp[k]);
            }
        }
    }
}

/// All the parser's flag extractions agree with the canonical flag bytes.
proof fn lemma_flag_extracts(t: Tile, rep: u16)
    requires
        liquid_id_of(t) <= 3,
        slope_of(t) <= 7,
    ensures
        ({
            let f1 = f1_byte(t, rep);
            let f2 = if needs_f2(t) {
                f2_byte(t)
            } else {
                0u8
            };
            let f3 = if needs_f3(t) {
                f3_byte(t)
            } else {
                0u8
            };
            &&& f1 % 2 == (if needs_f2(t) {
                1u8
            } else {
                0u8
            })
            &&& (f1 / 2) % 2 == (if t.block is Some {
                1u8
            } else {
                0u8
            })
            &&& (f1 / 4) % 2 == (if t.wall is Some {
                1u8
            } else {
                0u8
            })
            &&& (f1 / 8) % 4 == liquid_id_of(t)
            &&& (f1 / 32) % 2 == (if blk_wide(t) {
                1u8
            } else {
                0u8
            })
            &&& (f1 / 64) % 2 == (if 1 <= rep <= 255 {
                1u8
            } else {
                0u8
            })
            &&& f1 / 128 == (if rep > 255 {
                1u8
            } else {
                0u8
            })
            &&& f2 % 2 == (if needs_f3(t) {
                1u8
            } else {
                0u8
            })
            &&& (f2 / 2) % 2 == (if t.wire_red {
                1u8
            } else {
                0u8
            })
            &&& (f2 / 4) % 2 == (if t.wire_blue {
                1u8
            } else {
                0u8
            })
            &&& (f2 / 8) % 2 == (if t.wire_green {
                1u8
            } else {
                0u8
            })
            &&& (f2 / 16) % 8 == slope_of(t)
            &&& (f3 / 2) % 2 == (if t.has_actuator {
                1u8
            } else {
                0u8
            })
            &&& (f3 / 4) % 2 == (if blk_inactive(t) {
                1u8
            } else {
                0u8
            })
            &&& (f3 / 8) % 2 == (if blk_colored(t) {
                1u8
            } else {
                0u8
            })
            &&& (f3 / 16) % 2 == (if wall_colored(t) {
                1u8
            } else {
                0u8
            })
            &&& (f3 / 32) % 2 == (if t.wire_yellow {
                1u8
            } else {
                0u8
            })
            &&& (f3 / 64) % 2 == (if wall_wide(t) {
                1u8
            } else {
                0u8
            })
        }),
{
    lemma_f1_extract(
        if needs_f2(t) {
            1
        } else {
            0
        },
        if t.block is Some {
            1
        } else {
            0
        },
        if t.wall is Some {
            1
        } else {
            0
        },
        liquid_id_of(t),
        if blk_wide(t) {
            1
        } else {
            0
        },
        if 1 <= rep <= 255 {
            1
        } else {
            0
        },
        if rep > 255 {
            1
        } else {
            0
        },
    );
    if needs_f2(t) {
        lemma_f2_extract(
            if needs_f3(t) {
                1
            } else {
                0
            },
            if t.wire_red {
                1
            } else {
                0
            },
            if t.wire_blue {
                1
            } else {
                0
            },
            if t.wire_green {
                1
            } else {
                0
            },
            slope_of(t),
        );
    }
    if needs_f3(t) {
        lemma_f3_extract(
            if t.has_actuator {
                1
            } else {
                0
            },
            if blk_inactive(t) {
                1
            } else {
                0
            },
            if blk_colored(t) {
                1
            } else {
                0
            },
            if wall_colored(t) {
                1
            } else {
                0
            },
            if t.wire_yellow {
                1
            } else {
                0
            },
            if wall_wide(t) {
                1
            } else {
                0
            },
        );
    }
}

/// Decoding the block fields of a canonical record embedded in `b` at
/// `p3` yields the block back.
#[verifier::rlimit(100)]
proof fn lemma_block_embed(b: Seq<u8>, p3: int, t: Tile, rep: u16, fi: Seq<bool>)
    requires
        tile_wf(t, fi),
        0 <= p3,
        p3 + block_seg(t, fi).len() <= b.len(),
        b.subrange(p3, p3 + block_seg(t, fi).len()) == block_seg(t, fi),
    ensures
        record_block_at(
            b,
            p3,
            fi,
            f1_byte(t, rep),
            if needs_f3(t) {
                f3_byte(t)
            } else {
                0
            },
        ) == Some(
            (
                (
                    blk_id_of(t),
                    if t.block is Some {
                        t.block->0.frame_width
                    } else {
                        0u16
                    },
                    if t.block is Some {
                        t.block->0.frame_height
                    } else {
                        0u16
                    },
                    if t.block is Some {
                        t.block->0.color
                    } else {
                        0u8
                    },
                ),
                p3 + block_seg(t, fi).len(),
            ),
        ),
{
    lemma_flag_extracts(t, rep);
    vstd::bytes::lemma_auto_spec_u16_to_from_le_bytes();
    let bs = block_seg(t, fi);
    assert forall|i: int| 0 <= i < bs.len() implies b[p3 + i] == bs[i] by {
        assert(b.subrange(p3, p3 + bs.len())[i] == b[p3 + i]);
    }
    if t.block is Some {
        let blk = t.block->0;
        let idseg = if blk.id > 255 {
            vstd::bytes::spec_u16_to_le_bytes(blk.id)
        } else {
            seq![blk.id as u8]
        };
        let frameseg = if spec_frame_important(fi, blk.id) {
            vstd::bytes::spec_u16_to_le_bytes(blk.frame_width) + vstd::bytes::spec_u16_to_le_bytes(
                blk.frame_height,
            )
        } else {
            Seq::<u8>::empty()
        };
        let colseg = if blk.color != 0 {
            seq![blk.color]
        } else {
            Seq::<u8>::empty()
        };
        assert(bs == idseg + frameseg + colseg);
        assert forall|i: int| 0 <= i < idseg.len() implies b[p3 + i] == idseg[i] by {
            assert(bs[i] == idseg[i]);
        }
        if blk.id > 255 {
            assert(b.subrange(p3, p3 + 2) =~= idseg) by {
                assert forall|k: int| 0 <= k < 2 implies b.subrange(p3, p3 + 2)[k] == idseg[k] by {
                    assert(b[p3 + k] == idseg[k]);
                }
            }
        } else {
            assert(b[p3 + 0] == idseg[0]);
        }
        let p4 = p3 + idseg.len() as int;
        if spec_frame_important(fi, blk.id) {
            assert forall|i: int| 0 <= i < frameseg.len() implies b[p4 + i] == frameseg[i] by {
                assert(bs[idseg.len() + i] == frameseg[i]);
                assert(b[p3 + (idseg.len() + i)] == bs[idseg.len() + i]);
            }
            assert(b.subrange(p4, p4 + 2) =~= vstd::bytes::spec_u16_to_le_bytes(blk.frame_width))
                by {
                assert forall|k: int| 0 <= k < 2 implies b.subrange(p4, p4 + 2)[k]
                    == vstd::bytes::spec_u16_to_le_bytes(blk.frame_width)[k] by {
                    assert(b[p4 + k] == frameseg[k]);
                }
            }
            assert(b.subrange(p4 + 2, p4 + 4) =~= vstd::bytes::spec_u16_to_le_bytes(
                blk.frame_height,
            )) by {
                assert forall|k: int| 0 <= k < 2 implies b.subrange(p4 + 2, p4 + 4)[k]
                    == vstd::bytes::spec_u16_to_le_bytes(blk.frame_height)[k] by {
                    assert(b[p4 + (2 + k)] == frameseg[2 + k]);
                }
            }
        }
        let p5 = p4 + frameseg.len() as int;
        if blk.color != 0 {
            assert(b[p5 + 0] == blk.color) by {
                assert(bs[idseg.len() + frameseg.len() as int] == colseg[0]);
                assert(b[p3 + idseg.len() + frameseg.len() as int] == bs[idseg.len()
                    + frameseg.len() as int]);
            }
        }
    }
}

/// Decoding the fields after the flag bytes of a canonical record embedded
/// in `b` at `p3` yields the tile back.
#[verifier::rlimit(100)]
proof fn lemma_tail_embed(b: Seq<u8>, p3: int, t: Tile, rep: u16, fi: Seq<bool>)
    requires
        tile_wf(t, fi),
        0 <= p3,
        p3 + (block_seg(t, fi) + wall_seg(t) + wcolor_seg(t) + liquid_seg(t) + whigh_seg(t)
            + rep_seg(rep)).len() <= b.len(),
        b.subrange(
            p3,
            p3 + (block_seg(t, fi) + wall_seg(t) + wcolor_seg(t) + liquid_seg(t) + whigh_seg(t)
                + rep_seg(rep)).len(),
        ) == block_seg(t, fi) + wall_seg(t) + wcolor_seg(t) + liquid_seg(t) + whigh_seg(t)
            + rep_seg(rep),
    ensures
        record_tail_at(
            b,
            p3,
            fi,
            f1_byte(t, rep),
            if needs_f2(t) {
                f2_byte(t)
            } else {
                0
            },
            if needs_f3(t) {
                f3_byte(t)
            } else {
                0
            },
        ) == Some(
            (
                t,
                rep,
                p3 + (block_seg(t, fi) + wall_seg(t) + wcolor_seg(t) + liquid_seg(t) + whigh_seg(t)
                    + rep_seg(rep)).len(),
            ),
        ),
{
    lemma_flag_extracts(t, rep);
    let bs = block_seg(t, fi);
    let tail = wall_seg(t) + wcolor_seg(t) + liquid_seg(t) + whigh_seg(t) + rep_seg(rep);
    let s = bs + tail;
    let n_end = p3 + s.len();
    assert forall|i: int| 0 <= i < s.len() implies b[p3 + i] == s[i] by {
        assert(b.subrange(p3, n_end)[i] == b[p3 + i]);
    }
    assert(b.subrange(p3, p3 + bs.len()) =~= bs) by {
        assert forall|k: int| 0 <= k < bs.len() implies b.subrange(p3, p3 + bs.len())[k]
            == bs[k] by {
            assert(s[k] == bs[k]);
            assert(b[p3 + k] == s[k]);
        }
    }
    lemma_block_embed(b, p3, t, rep, fi);
    let p6 = p3 + bs.len() as int;
    assert(b.subrange(p6, p6 + tail.len()) =~= tail) by {
        assert forall|k: int| 0 <= k < tail.len() implies b.subrange(p6, p6 + tail.len())[k]
            == tail[k] by {
            assert(s[bs.len() + k] == tail[k]);
            assert(b[p3 + (bs.len() + k)] == s[bs.len() + k]);
        }
    }
    lemma_wall_embed(b, p6, t, rep, fi);
}

/// The flag bytes of a canonical record embedded in `b` at `p`.
#[verifier::rlimit(100)]
#[verifier::spinoff_prover]
proof fn lemma_flagbytes_embed(b: Seq<u8>, p: int, t: Tile, rep: u16, fi: Seq<bool>)
    requires
        0 <= p,
        p + record_bytes(t, rep, fi).len() <= b.len(),
        b.subrange(p, p + record_bytes(t, rep, fi).len()) == record_bytes(t, rep, fi),
    ensures
        record_bytes(t, rep, fi).len() == 1 + f2_seg(t).len() + f3_seg(t).len() + (block_seg(t, fi)
            + wall_seg(t) + wcolor_seg(t) + liquid_seg(t) + whigh_seg(t) + rep_seg(rep)).len(),
        b[p] == f1_byte(t, rep),
        needs_f2(t) ==> b[p + 1] == f2_byte(t),
        needs_f3(t) ==> b[p + 2] == f3_byte(t),
        b.subrange(
            p + 1 + f2_seg(t).len() + f3_seg(t).len(),
            p + record_bytes(t, rep, fi).len(),
        ) == block_seg(t, fi) + wall_seg(t) + wcolor_seg(t) + liquid_seg(t) + whigh_seg(t)
            + rep_seg(rep),
{
    let rb = record_bytes(t, rep, fi);
    let n = rb.len();
    let flagseg = seq![f1_byte(t, rep)] + f2_seg(t) + f3_seg(t);
    let tail = block_seg(t, fi) + wall_seg(t) + wcolor_seg(t) + liquid_seg(t) + whigh_seg(t)
        + rep_seg(rep);
    assert(rb =~= flagseg + tail);
    assert(b[p + 0] == (flagseg + tail)[0]) by {
        assert(b.subrange(p, p + n)[0] == b[p + 0]);
    }
    assert(flagseg[0] == f1_byte(t, rep));
    if needs_f2(t) {
        assert(b[p + 1] == (flagseg + tail)[1]) by {
            assert(b.subrange(p, p + n)[1] == b[p + 1]);
        }
        assert(flagseg[1] == f2_byte(t));
    }
    if needs_f3(t) {
        assert(b[p + 2] == (flagseg + tail)[2]) by {
            assert(b.subrange(p, p + n)[2] == b[p + 2]);
        }
        assert(flagseg[2] == f3_byte(t));
    }
    let p3 = p + flagseg.len() as int;
    assert(b.subrange(p3, p3 + tail.len()) =~= tail) by {
        assert forall|k: int| 0 <= k < tail.len() implies b.subrange(p3, p3 + tail.len())[k]
            == tail[k] by {
            assert(b.subrange(p, p + n)[flagseg.len() + k] == b[p + (flagseg.len() + k)]);
            assert((flagseg + tail)[flagseg.len() + k] == tail[k]);
        }
    }
}

/// Decoding a canonical record embedded in `b` at `p` yields the tile and
/// repeat count back.
#[verifier::rlimit(100)]
#[verifier::spinoff_prover]
pub proof fn lemma_record_embed(b: Seq<u8>, p: int, t: Tile, rep: u16, fi: Seq<bool>)
    requires
        tile_wf(t, fi),
        0 <= p,
        p + record_bytes(t, rep, fi).len() <= b.len(),
        b.subrange(p, p + record_bytes(t, rep, fi).len()) == record_bytes(t, rep, fi),
    ensures
        record_at(b, p, fi) == Some((t, rep, p + record_bytes(t, rep, fi).len())),
{
    reveal(record_at);
    lemma_flag_extracts(t, rep);
    lemma_flagbytes_embed(b, p, t, rep, fi);
    let p3 = p + 1 + f2_seg(t).len() as int + f3_seg(t).len() as int;
    lemma_tail_embed(b, p3, t, rep, fi);
}

/// The length of the maximal run of equal tiles starting at `y`, counted
/// through adjacent equality.
pub open spec fn adj_run(col: Seq<Tile>, y: int) -> int
    decreases col.len() - y,
{
    if y < 0 || y >= col.len() {
        0
    } else if y + 1 < col.len() && col[y + 1] == col[y] {
        1 + adj_run(col, y + 1)
    } else {
        1
    }
}

/// The run the encoder emits at `y`: the maximal run, capped at the largest
/// count one record can carry.
pub open spec fn run_at(col: Seq<Tile>, y: int) -> int {
    let r = if adj_run(col, y) > 65536 {
        65536
    } else {
        adj_run(col, y)
    };
    if r < 1 {
        1
    } else {
        r
    }
}

/// The canonical encoding of the tiles of one column from row `y` down.
pub open spec fn col_bytes_from(col: Seq<Tile>, y: int, fi: Seq<bool>) -> Seq<u8>
    decreases col.len() - y,
{
    if y < 0 || y >= col.len() {
        Seq::empty()
    } else {
        let run = run_at(col, y);
        let next = if y + run > col.len() {
            col.len() as int
        } else {
            y + run
        };
        record_bytes(col[y], (run - 1) as u16, fi) + col_bytes_from(col, next, fi)
    }
}

/// The canonical encoding of the grid from column `x` on, column-major.
pub open spec fn grid_bytes_from(tiles: Seq<Tile>, x: int, w: int, h: int, fi: Seq<bool>) -> Seq<
    u8,
>
    decreases w - x,
{
    if x < 0 || x >= w || h < 0 {
        Seq::empty()
    } else {
        col_bytes_from(tiles.subrange(x * h, (x + 1) * h), 0, fi) + grid_bytes_from(
            tiles,
            x + 1,
            w,
            h,
            fi,
        )
    }
}

/// `remaining` tiles of one column parsed from position `p`.
pub open spec fn col_at(b: Seq<u8>, p: int, remaining: nat, fi: Seq<bool>) -> Option<
    (Seq<Tile>, int),
>
    decreases remaining,
{
    if remaining == 0 {
        Some((Seq::empty(), p))
    } else {
        match record_at(b, p, fi) {
            None => None,
            Some((t, rep, q)) => if rep + 1 <= remaining {
                match col_at(b, q, (remaining - rep - 1) as nat, fi) {
                    None => None,
                    Some((rest, r)) => Some((Seq::new((rep + 1) as nat, |i: int| t) + rest, r)),
                }
            } else {
                None
            },
        }
    }
}

/// `cols` columns of `height` tiles each, parsed from position `p`.
pub open spec fn grid_at(b: Seq<u8>, p: int, cols: nat, height: nat, fi: Seq<bool>) -> Option<
    (Seq<Tile>, int),
>
    decreases cols,
{
    if cols == 0 {
        Some((Seq::empty(), p))
    } else {
        match col_at(b, p, height, fi) {
            None => None,
            Some((c, q)) => match grid_at(b, q, (cols - 1) as nat, height, fi) {
                None => None,
                Some((rest, r)) => Some((c + rest, r)),
            },
        }
    }
}

/// A maximal run is at least one tile and fits in the column.
proof fn lemma_adj_run_le(col: Seq<Tile>, y: int)
    requires
        0 <= y < col.len(),
    ensures
        1 <= adj_run(col, y) <= col.len() - y,
    decreases col.len() - y,
{
    if y + 1 < col.len() && col[y + 1] == col[y] {
        lemma_adj_run_le(col, y + 1);
    }
}

/// Every tile of a maximal run equals the first.
proof fn lemma_adj_run_all_equal(col: Seq<Tile>, y: int)
    requires
        0 <= y < col.len(),
    ensures
        forall|i: int| y <= i < y + adj_run(col, y) ==> col[i] == col[y],
    decreases col.len() - y,
{
    if y + 1 < col.len() && col[y + 1] == col[y] {
        lemma_adj_run_all_equal(col, y + 1);
    }
}

/// A scan that stops at the first different tile found the maximal run.
proof fn lemma_adj_run_from_scan(col: Seq<Tile>, y: int, k: int)
    requires
        0 <= y,
        1 <= k,
        y + k <= col.len(),
        forall|i: int| y <= i < y + k ==> col[i] == col[y],
        y + k == col.len() || col[y + k] != col[y],
    ensures
        adj_run(col, y) == k,
    decreases k,
{
    if k == 1 {
    } else {
        assert(col[y + 1] == col[y]);
        assert forall|i: int| y + 1 <= i < y + 1 + (k - 1) implies #[trigger] col[i] == col[y
            + 1] by {
            assert(col[i] == col[y]);
        }
        lemma_adj_run_from_scan(col, y + 1, k - 1);
    }
}

/// A scan that saw `k` equal tiles proves the maximal run is at least `k`.
proof fn lemma_adj_run_ge(col: Seq<Tile>, y: int, k: int)
    requires
        0 <= y,
        1 <= k,
        y + k <= col.len(),
        forall|i: int| y <= i < y + k ==> col[i] == col[y],
    ensures
        adj_run(col, y) >= k,
    decreases k,
{
    lemma_adj_run_le(col, y);
    if k == 1 {
    } else {
        assert(col[y + 1] == col[y]);
        assert forall|i: int| y + 1 <= i < y + 1 + (k - 1) implies #[trigger] col[i] == col[y
            + 1] by {
            assert(col[i] == col[y]);
        }
        lemma_adj_run_ge(col, y + 1, k - 1);
    }
}

/// Decoding a canonical column embedded in `b` at `p` yields its tiles.
#[verifier::rlimit(100)]
proof fn lemma_col_embed(b: Seq<u8>, p: int, col: Seq<Tile>, y: int, fi: Seq<bool>)
    requires
        0 <= y <= col.len(),
        forall|i: int| 0 <= i < col.len() ==> tile_wf(#[trigger] col[i], fi),
        0 <= p,
        p + col_bytes_from(col, y, fi).len() <= b.len(),
        b.subrange(p, p + col_bytes_from(col, y, fi).len()) == col_bytes_from(col, y, fi),
    ensures
        col_at(b, p, (col.len() - y) as nat, fi) == Some(
            (col.skip(y), p + col_bytes_from(col, y, fi).len()),
        ),
    decreases col.len() - y,
{
    let cb = col_bytes_from(col, y, fi);
    if y == col.len() {
        assert(col.skip(y) =~= Seq::<Tile>::empty());
    } else {
        lemma_adj_run_le(col, y);
        lemma_adj_run_all_equal(col, y);
        let run = run_at(col, y);
        let rb = record_bytes(col[y], (run - 1) as u16, fi);
        let rest = col_bytes_from(col, y + run, fi);
        assert(cb == rb + rest);
        assert forall|i: int| 0 <= i < cb.len() implies b[p + i] == cb[i] by {
            assert(b.subrange(p, p + cb.len())[i] == b[p + i]);
        }
        assert(b.subrange(p, p + rb.len() as int) =~= rb) by {
            assert forall|k: int| 0 <= k < rb.len() implies b.subrange(p, p + rb.len() as int)[k]
                == rb[k] by {
                assert(cb[k] == rb[k]);
                assert(b[p + k] == cb[k]);
            }
        }
        lemma_record_embed(b, p, col[y], (run - 1) as u16, fi);
        let q = p + rb.len() as int;
        assert(b.subrange(q, q + rest.len()) =~= rest) by {
            assert forall|k: int| 0 <= k < rest.len() implies b.subrange(q, q + rest.len())[k]
                == rest[k] by {
                assert(cb[rb.len() + k] == rest[k]);
                assert(b[p + (rb.len() + k)] == cb[rb.len() + k]);
            }
        }
        lemma_col_embed(b, q, col, y + run, fi);
        assert(record_at(b, p, fi) == Some((col[y], (run - 1) as u16, q)));
        assert(col.skip(y) =~= Seq::new(run as nat, |i: int| col[y]) + col.skip(y + run)) by {
            assert forall|i: int|
                0 <= i < col.len() - y implies col.skip(y)[i] == (Seq::new(
                run as nat,
                |j: int| col[y],
            ) + col.skip(y + run))[i] by {
                if i < run {
                    assert(col[y + i] == col[y]);
                }
            }
        }
    }
}

/// Decoding a canonical grid embedded in `b` at `p` yields its tiles.
#[verifier::rlimit(100)]
proof fn lemma_grid_embed(b: Seq<u8>, p: int, tiles: Seq<Tile>, x: int, w: int, h: int, fi: Seq<
    bool,
>)
    requires
        0 <= h,
        0 <= x <= w,
        tiles.len() == w * h,
        forall|i: int| 0 <= i < tiles.len() ==> tile_wf(#[trigger] tiles[i], fi),
        0 <= p,
        p + grid_bytes_from(tiles, x, w, h, fi).len() <= b.len(),
        b.subrange(p, p + grid_bytes_from(tiles, x, w, h, fi).len()) == grid_bytes_from(
            tiles,
            x,
            w,
            h,
            fi,
        ),
    ensures
        grid_at(b, p, (w - x) as nat, h as nat, fi) == Some(
            (tiles.skip(x * h), p + grid_bytes_from(tiles, x, w, h, fi).len()),
        ),
    decreases w - x,
{
    let gb = grid_bytes_from(tiles, x, w, h, fi);
    vstd::arithmetic::mul::lemma_mul_inequality(x, w, h);
    if x != w {
        vstd::arithmetic::mul::lemma_mul_inequality(x + 1, w, h);
        vstd::arithmetic::mul::lemma_mul_is_distributive_add_other_way(h, x, 1);
    }
    if x == w {
        assert(tiles.skip(x * h) =~= Seq::<Tile>::empty());
    } else {
        let col = tiles.subrange(x * h, (x + 1) * h);
        let cb = col_bytes_from(col, 0, fi);
        let rest = grid_bytes_from(tiles, x + 1, w, h, fi);
        assert(gb == cb + rest);
        assert forall|i: int| 0 <= i < gb.len() implies b[p + i] == gb[i] by {
            assert(b.subrange(p, p + gb.len())[i] == b[p + i]);
        }
        assert(b.subrange(p, p + cb.len() as int) =~= cb) by {
            assert forall|k: int| 0 <= k < cb.len() implies b.subrange(p, p + cb.len() as int)[k]
                == cb[k] by {
                assert(gb[k] == cb[k]);
                assert(b[p + k] == gb[k]);
            }
        }
        assert forall|i: int| 0 <= i < col.len() implies tile_wf(#[trigger] col[i], fi) by {
            assert(col[i] == tiles[x * h + i]);
        }
        lemma_col_embed(b, p, col, 0, fi);
        let q = p + cb.len() as int;
        assert(b.subrange(q, q + rest.len()) =~= rest) by {
            assert forall|k: int| 0 <= k < rest.len() implies b.subrange(q, q + rest.len())[k]
                == rest[k] by {
                assert(gb[cb.len() + k] == rest[k]);
                assert(b[p + (cb.len() + k)] == gb[cb.len() + k]);
            }
        }
        lemma_grid_embed(b, q, tiles, x + 1, w, h, fi);
        assert(col.skip(0) == col);
        assert(tiles.skip(x * h) =~= col + tiles.skip((x + 1) * h));
    }
}

/// Decoding the canonical encoding of a column-major tile grid yields the
/// grid back, tile for tile.
pub proof fn lemma_tile_grid_round_trip(tiles: Seq<Tile>, w: int, h: int, fi: Seq<bool>)
    requires
        0 <= w,
        0 <= h,
        tiles.len() == w * h,
        forall|i: int| 0 <= i < tiles.len() ==> tile_wf(#[trigger] tiles[i], fi),
    ensures
        grid_at(grid_bytes_from(tiles, 0, w, h, fi), 0, w as nat, h as nat, fi) == Some(
            (tiles, grid_bytes_from(tiles, 0, w, h, fi).len() as int),
        ),
{
    let gb = grid_bytes_from(tiles, 0, w, h, fi);
    assert(gb.subrange(0, gb.len() as int) =~= gb);
    lemma_grid_embed(gb, 0, tiles, 0, w, h, fi);
    assert(tiles.skip(0) == tiles);
}

/// Read an optional one-byte field.
fn take_opt_u8(inp: &[u8], pos: &mut usize, present: bool) -> (r: Option<u8>)
    ensures
        r is Some <==> opt_u8_at(inp@, *old(pos) as int, present) is Some,
        r is Some ==> opt_u8_at(inp@, *old(pos) as int, present) == Some(
            (r->0, *final(pos) as int),
        ),
{
    if present {
        take_u8(inp, pos)
    } else {
        Some(0)
    }
}

/// Read an optional little-endian two-byte field.
fn take_opt_u16(inp: &[u8], pos: &mut usize, present: bool) -> (r: Option<u16>)
    ensures
        r is Some <==> opt_u16_at(inp@, *old(pos) as int, present) is Some,
        r is Some ==> opt_u16_at(inp@, *old(pos) as int, present) == Some(
            (r->0, *final(pos) as int),
        ),
{
    if present {
        take_u16(inp, pos)
    } else {
        Some(0)
    }
}

/// Read the wall, liquid and repeat fields of a record.
#[verifier::rlimit(100)]
fn decode_wall(
    inp: &[u8],
    pos: &mut usize,
    f1: u8,
    f2: u8,
    f3: u8,
    has_block: bool,
    bid: u16,
    fw: u16,
    fh: u16,
    bcolor: u8,
) -> (r: Option<(Tile, u16)>)
    ensures
        r is Some <==> record_wall_at(
            inp@,
            *old(pos) as int,
            f1,
            f2,
            f3,
            has_block,
            bid,
            fw,
            fh,
            bcolor,
        ) is Some,
        r is Some ==> record_wall_at(
            inp@,
            *old(pos) as int,
            f1,
            f2,
            f3,
            has_block,
            bid,
            fw,
            fh,
            bcolor,
        ) == Some(((r->0).0, (r->0).1, *final(pos) as int)),
{
    let has_wall = (f1 / 4) % 2 == 1;
    let liq: u8 = (f1 / 8) % 4;
    let wlow = match take_opt_u8(inp, pos, has_wall) {
        Some(v) => v,
        None => {
            return None;
        },
    };
    let wcolor = match take_opt_u8(inp, pos, has_wall && (f3 / 16) % 2 == 1) {
        Some(v) => v,
        None => {
            return None;
        },
    };
    let amount = match take_opt_u8(inp, pos, liq != 0) {
        Some(v) => v,
        None => {
            return None;
        },
    };
    let has_whigh = has_wall && (f3 / 64) % 2 == 1;
    let whigh = match take_opt_u8(inp, pos, has_whigh) {
        Some(v) => v,
        None => {
            return None;
        },
    };
    let wid: u16 = if has_whigh {
        wlow as u16 + 256 * (whigh as u16)
    } else {
        wlow as u16
    };
    let run16 = f1 / 128 == 1;
    let run8 = (f1 / 64) % 2 == 1;
    let rep16 = match take_opt_u16(inp, pos, run16) {
        Some(v) => v,
        None => {
            return None;
        },
    };
    let rep8 = match take_opt_u8(inp, pos, !run16 && run8) {
        Some(v) => v,
        None => {
            return None;
        },
    };
    let rep: u16 = if run16 {
        rep16
    } else {
        rep8 as u16
    };
    let tile = Tile {
        block: if has_block {
            Some(
                Block {
                    id: bid,
                    color: bcolor,
                    frame_width: fw,
                    frame_height: fh,
                    slope: (f2 / 16) % 8,
                    is_inactive: (f3 / 4) % 2 == 1,
                },
            )
        } else {
            None
        },
        wall: if has_wall {
            Some(Wall { id: wid, color: wcolor })
        } else {
            None
        },
        liquid: if liq != 0 {
            Some(Liquid { id: liq, amount })
        } else {
            None
        },
        wire_red: (f2 / 2) % 2 == 1,
        wire_blue: (f2 / 4) % 2 == 1,
        wire_green: (f2 / 8) % 2 == 1,
        wire_yellow: (f3 / 32) % 2 == 1,
        has_actuator: (f3 / 2) % 2 == 1,
    };
    Some((tile, rep))
}

/// Read the block fields of a record.
#[verifier::rlimit(100)]
fn decode_block(inp: &[u8], pos: &mut usize, fi: &[bool], f1: u8, f3: u8) -> (r: Option<
    (u16, u16, u16, u8),
>)
    ensures
        r is Some <==> record_block_at(inp@, *old(pos) as int, fi@, f1, f3) is Some,
        r is Some ==> record_block_at(inp@, *old(pos) as int, fi@, f1, f3) == Some(
            (((r->0).0, (r->0).1, (r->0).2, (r->0).3), *final(pos) as int),
        ),
{
    let has_block = (f1 / 2) % 2 == 1;
    let id_wide = (f1 / 32) % 2 == 1;
    let id8 = match take_opt_u8(inp, pos, has_block && !id_wide) {
        Some(v) => v,
        None => {
            return None;
        },
    };
    let id16 = match take_opt_u16(inp, pos, has_block && id_wide) {
        Some(v) => v,
        None => {
            return None;
        },
    };
    let bid: u16 = if id_wide {
        id16
    } else {
        id8 as u16
    };
    let has_frames = has_block && frame_important(fi, bid);
    let fw = match take_opt_u16(inp, pos, has_frames) {
        Some(v) => v,
        None => {
            return None;
        },
    };
    let fh = match take_opt_u16(inp, pos, has_frames) {
        Some(v) => v,
        None => {
            return None;
        },
    };
    let bcolor = match take_opt_u8(inp, pos, has_block && (f3 / 8) % 2 == 1) {
        Some(v) => v,
        None => {
            return None;
        },
    };
    Some((bid, fw, fh, bcolor))
}

/// Read one record at the cursor: a tile and its repeat count.
#[verifier::rlimit(100)]
pub fn decode_record(inp: &[u8], pos: &mut usize, fi: &[bool]) -> (r: Option<(Tile, u16)>)
    ensures
        r is Some <==> record_at(inp@, *old(pos) as int, fi@) is Some,
        r is Some ==> record_at(inp@, *old(pos) as int, fi@) == Some(
            ((r->0).0, (r->0).1, *final(pos) as int),
        ),
{
    proof {
        reveal(record_at);
    }
    let f1 = match take_u8(inp, pos) {
        Some(v) => v,
        None => {
            return None;
        },
    };
    let f2 = match take_opt_u8(inp, pos, f1 % 2 == 1) {
        Some(v) => v,
        None => {
            return None;
        },
    };
    let f3 = match take_opt_u8(inp, pos, f1 % 2 == 1 && f2 % 2 == 1) {
        Some(v) => v,
        None => {
            return None;
        },
    };
    let (bid, fw, fh, bcolor) = match decode_block(inp, pos, fi, f1, f3) {
        Some(v) => v,
        None => {
            return None;
        },
    };
    decode_wall(inp, pos, f1, f2, f3, (f1 / 2) % 2 == 1, bid, fw, fh, bcolor)
}

/// Encode a column-major tile grid with run-length compression.
#[verifier::rlimit(100)]
#[verifier::spinoff_prover]
pub fn encode_tiles(tiles: &Vec<Tile>, width: u32, height: u32, fi: &[bool]) -> (r: Vec<u8>)
    requires
        tiles@.len() == (width as int) * (height as int),
        forall|i: int| 0 <= i < tiles@.len() ==> tile_wf(#[trigger] tiles@[i], fi@),
    ensures
        r@ == grid_bytes_from(tiles@, 0, width as int, height as int, fi@),
{
    let w = width as usize;
    let h = height as usize;
    let tlen = tiles.len();
    let mut out: Vec<u8> = Vec::new();
    let mut x: usize = 0;
    while x < w
        invariant
            w == width as int,
            h == height as int,
            tlen == tiles@.len(),
            tiles@.len() == (w as int) * (h as int),
            forall|i: int| 0 <= i < tiles@.len() ==> tile_wf(#[trigger] tiles@[i], fi@),
            x <= w,
            grid_bytes_from(tiles@, 0, w as int, h as int, fi@) == out@ + grid_bytes_from(
                tiles@,
                x as int,
                w as int,
                h as int,
                fi@,
            ),
        decreases w - x,
    {
        proof {
            vstd::arithmetic::mul::lemma_mul_inequality(x as int + 1, w as int, h as int);
            vstd::arithmetic::mul::lemma_mul_is_distributive_add_other_way(
                h as int,
                x as int,
                1,
            );
            vstd::arithmetic::mul::lemma_mul_nonnegative(x as int, h as int);
        }
        let base: usize = x * h;
        proof {
            assert(base + h <= tlen);
        }
        let ghost col = tiles@.subrange((x as int) * (h as int), (x as int + 1) * (h as int));
        proof {
            assert forall|i: int| 0 <= i < col.len() implies tile_wf(#[trigger] col[i], fi@) by {
                assert(col[i] == tiles@[(x as int) * (h as int) + i]);
            }
            assert(grid_bytes_from(tiles@, x as int, w as int, h as int, fi@) == col_bytes_from(
                col,
                0,
                fi@,
            ) + grid_bytes_from(tiles@, x as int + 1, w as int, h as int, fi@));
        }
        let mut y: usize = 0;
        while y < h
            invariant
                w == width as int,
                h == height as int,
                tlen == tiles@.len(),
                tiles@.len() == (w as int) * (h as int),
                forall|i: int| 0 <= i < tiles@.len() ==> tile_wf(#[trigger] tiles@[i], fi@),
                x < w,
                y <= h,
                base == (x as int) * (h as int),
                base + h <= tlen,
                0 <= (x as int) * (h as int),
                (x as int + 1) * (h as int) <= tiles@.len(),
                (x as int + 1) * (h as int) == base + h,
                col.len() == h,
                col == tiles@.subrange((x as int) * (h as int), (x as int + 1) * (h as int)),
                grid_bytes_from(tiles@, 0, w as int, h as int, fi@) == out@ + (col_bytes_from(
                    col,
                    y as int,
                    fi@,
                ) + grid_bytes_from(tiles@, x as int + 1, w as int, h as int, fi@)),
            decreases h - y,
        {
            let mut run: usize = 1;
            while y + run < h && run < 65536 && tiles[base + y + run].eq_tile(&tiles[base + y])
                invariant
                    y < h,
                    tlen == tiles@.len(),
                    base + h <= tlen,
                    0 <= (x as int) * (h as int),
                    (x as int + 1) * (h as int) <= tiles@.len(),
                    (x as int + 1) * (h as int) == base + h,
                    col.len() == h,
                    col == tiles@.subrange(
                        (x as int) * (h as int),
                        (x as int + 1) * (h as int),
                    ),
                    base == (x as int) * (h as int),
                    1 <= run,
                    y + run <= h,
                    run <= 65536,
                    forall|i: int|
                        y <= i < y + run ==> #[trigger] col[i] == col[y as int],
                decreases h - y - run,
            {
                proof {
                    assert(col[y + run] == tiles@[base + y + run]);
                    assert(col[y as int] == tiles@[base + y]);
                }
                run = run + 1;
            }
            proof {
                if run == 65536 {
                    lemma_adj_run_ge(col, y as int, run as int);
                } else {
                    lemma_adj_run_from_scan(col, y as int, run as int);
                }
                assert(run_at(col, y as int) == run as int);
                assert(col[y as int] == tiles@[base + y]);
            }
            let ghost out_before = out@;
            encode_record(&mut out, &tiles[base + y], (run - 1) as u16, fi);
            proof {
                let rb = record_bytes(col[y as int], (run - 1) as u16, fi@);
                let colrest = col_bytes_from(col, y as int + run as int, fi@);
                let gridrest = grid_bytes_from(tiles@, x as int + 1, w as int, h as int, fi@);
                assert(col_bytes_from(col, y as int, fi@) == rb + colrest);
                assert(out_before + (rb + colrest + gridrest) =~= (out_before + rb) + (colrest
                    + gridrest));
                assert(rb + colrest + gridrest =~= (rb + colrest) + gridrest);
            }
            y = y + run;
        }
        proof {
            assert(col_bytes_from(col, h as int, fi@) == Seq::<u8>::empty());
            assert(out@ + (Seq::<u8>::empty() + grid_bytes_from(
                tiles@,
                x as int + 1,
                w as int,
                h as int,
                fi@,
            )) =~= out@ + grid_bytes_from(tiles@, x as int + 1, w as int, h as int, fi@));
        }
        x = x + 1;
    }
    proof {
        assert(grid_bytes_from(tiles@, w as int, w as int, h as int, fi@) == Seq::<u8>::empty());
        assert(out@ + Seq::<u8>::empty() =~= out@);
    }
    out
}

/// The tiles already decoded, the rest of the current column, and the
/// remaining columns, as one parse continuation.
#[verifier::opaque]
pub open spec fn col_then_grid(
    b: Seq<u8>,
    p: int,
    rem: nat,
    x: int,
    w: int,
    h: nat,
    fi: Seq<bool>,
    acc: Seq<Tile>,
) -> Option<(Seq<Tile>, int)> {
    match col_at(b, p, rem, fi) {
        Some((ts, q)) => match grid_at(b, q, (w - x - 1) as nat, h, fi) {
            Some((ts2, q2)) => Some((acc + ts + ts2, q2)),
            None => None,
        },
        None => None,
    }
}

/// The tiles already decoded and the remaining columns, as one parse
/// continuation.
#[verifier::opaque]
pub open spec fn grid_then(
    b: Seq<u8>,
    p: int,
    x: int,
    w: int,
    h: nat,
    fi: Seq<bool>,
    acc: Seq<Tile>,
) -> Option<(Seq<Tile>, int)> {
    match grid_at(b, p, (w - x) as nat, h, fi) {
        Some((ts, q)) => Some((acc + ts, q)),
        None => None,
    }
}

/// Entering a column turns the whole-grid continuation into a column one.
proof fn lemma_grid_then_enter(b: Seq<u8>, p: int, x: int, w: int, h: nat, fi: Seq<bool>, acc: Seq<
    Tile,
>)
    requires
        0 <= x < w,
    ensures
        grid_then(b, p, x, w, h, fi, acc) == col_then_grid(b, p, h, x, w, h, fi, acc),
{
    reveal(col_then_grid);
    reveal(grid_then);
    if col_at(b, p, h, fi) is Some {
        let (ts, q) = col_at(b, p, h, fi)->0;
        if grid_at(b, q, (w - x - 1) as nat, h, fi) is Some {
            let (ts2, q2) = grid_at(b, q, (w - x - 1) as nat, h, fi)->0;
            assert(acc + (ts + ts2) =~= acc + ts + ts2);
        }
    }
}

/// Decoding one record advances the column continuation.
proof fn lemma_col_then_grid_step(
    b: Seq<u8>,
    p: int,
    rem: nat,
    x: int,
    w: int,
    h: nat,
    fi: Seq<bool>,
    acc: Seq<Tile>,
    t: Tile,
    rep: u16,
    q: int,
)
    requires
        record_at(b, p, fi) == Some((t, rep, q)),
        rep + 1 <= rem,
    ensures
        col_then_grid(b, p, rem, x, w, h, fi, acc) == col_then_grid(
            b,
            q,
            (rem - rep - 1) as nat,
            x,
            w,
            h,
            fi,
            acc + Seq::new((rep + 1) as nat, |i: int| t),
        ),
{
    reveal(col_then_grid);
    let reps = Seq::new((rep + 1) as nat, |i: int| t);
    if col_at(b, q, (rem - rep - 1) as nat, fi) is Some {
        let (rest, rr) = col_at(b, q, (rem - rep - 1) as nat, fi)->0;
        assert(col_at(b, p, rem, fi) == Some((reps + rest, rr)));
        if grid_at(b, rr, (w - x - 1) as nat, h, fi) is Some {
            let (ts2, q2) = grid_at(b, rr, (w - x - 1) as nat, h, fi)->0;
            assert(acc + (reps + rest) + ts2 =~= (acc + reps) + rest + ts2);
        }
    }
}

/// A finished column turns the column continuation back into the grid one.
proof fn lemma_col_then_grid_exit(b: Seq<u8>, p: int, x: int, w: int, h: nat, fi: Seq<bool>, acc:
    Seq<Tile>)
    ensures
        col_then_grid(b, p, 0, x, w, h, fi, acc) == grid_then(b, p, x + 1, w, h, fi, acc),
{
    reveal(col_then_grid);
    reveal(grid_then);
    assert(col_at(b, p, 0, fi) == Some((Seq::<Tile>::empty(), p)));
    if grid_at(b, p, (w - x - 1) as nat, h, fi) is Some {
        let (ts2, q2) = grid_at(b, p, (w - x - 1) as nat, h, fi)->0;
        assert(acc + Seq::<Tile>::empty() + ts2 =~= acc + ts2);
    }
}

/// An empty accumulator makes the grid continuation the plain grid parse.
proof fn lemma_grid_then_init(b: Seq<u8>, p: int, w: int, h: nat, fi: Seq<bool>)
    requires
        0 <= w,
    ensures
        grid_then(b, p, 0, w, h, fi, Seq::<Tile>::empty()) == grid_at(b, p, w as nat, h, fi),
{
    reveal(grid_then);
    if grid_at(b, p, w as nat, h, fi) is Some {
        let (ts, q) = grid_at(b, p, w as nat, h, fi)->0;
        assert(Seq::<Tile>::empty() + ts =~= ts);
    }
}

/// After the last column the continuation returns the accumulator.
proof fn lemma_grid_then_done(b: Seq<u8>, p: int, w: int, h: nat, fi: Seq<bool>, acc: Seq<Tile>)
    ensures
        grid_then(b, p, w, w, h, fi, acc) == Some((acc, p)),
{
    reveal(grid_then);
    assert(grid_at(b, p, 0, h, fi) == Some((Seq::<Tile>::empty(), p)));
    assert(acc + Seq::<Tile>::empty() =~= acc);
}

/// Decode a column-major tile grid of the given dimensions.
#[verifier::rlimit(100)]
#[verifier::spinoff_prover]
pub fn decode_tiles(inp: &[u8], pos: &mut usize, width: u32, height: u32, fi: &[bool]) -> (r:
    Option<Vec<Tile>>)
    ensures
        r is Some <==> grid_at(inp@, *old(pos) as int, width as nat, height as nat, fi@) is Some,
        r is Some ==> grid_at(inp@, *old(pos) as int, width as nat, height as nat, fi@) == Some(
            ((r->0)@, *final(pos) as int),
        ),
{
    let ghost p0 = *pos as int;
    let w = width as usize;
    let h = height as usize;
    let mut acc: Vec<Tile> = Vec::new();
    proof {
        lemma_grid_then_init(inp@, p0, w as int, h as nat, fi@);
    }
    let mut x: usize = 0;
    while x < w
        invariant
            p0 == *old(pos) as int,
            w == width as int,
            h == height as int,
            x <= w,
            grid_at(inp@, p0, width as nat, height as nat, fi@) == grid_then(
                inp@,
                *pos as int,
                x as int,
                w as int,
                h as nat,
                fi@,
                acc@,
            ),
        decreases w - x,
    {
        proof {
            lemma_grid_then_enter(inp@, *pos as int, x as int, w as int, h as nat, fi@, acc@);
        }
        let mut y: usize = 0;
        while y < h
            invariant
                p0 == *old(pos) as int,
                w == width as int,
                h == height as int,
                x < w,
                y <= h,
                grid_at(inp@, p0, width as nat, height as nat, fi@) == col_then_grid(
                    inp@,
                    *pos as int,
                    (h - y) as nat,
                    x as int,
                    w as int,
                    h as nat,
                    fi@,
                    acc@,
                ),
            decreases h - y,
        {
            let ghost pos_before = *pos as int;
            let ghost acc_before = acc@;
            let (t, rep) = match decode_record(inp, pos, fi) {
                Some(v) => v,
                None => {
                    proof {
                        reveal(col_then_grid);
                        assert(col_at(inp@, pos_before, (h - y) as nat, fi@) is None);
                        assert(col_then_grid(
                            inp@,
                            pos_before,
                            (h - y) as nat,
                            x as int,
                            w as int,
                            h as nat,
                            fi@,
                            acc@,
                        ) is None);
                    }
                    return None;
                },
            };
            if (rep as usize) + 1 > h - y {
                proof {
                    reveal(col_then_grid);
                    assert(col_at(inp@, pos_before, (h - y) as nat, fi@) is None);
                    assert(col_then_grid(
                        inp@,
                        pos_before,
                        (h - y) as nat,
                        x as int,
                        w as int,
                        h as nat,
                        fi@,
                        acc@,
                    ) is None);
                }
                return None;
            }
            let mut k: usize = 0;
            while k < (rep as usize) + 1
                invariant
                    k <= rep as usize + 1,
                    acc@ == acc_before + Seq::new(k as nat, |i: int| t),
                decreases rep as usize + 1 - k,
            {
                acc.push(t);
                proof {
                    assert(acc@ =~= acc_before + Seq::new((k + 1) as nat, |i: int| t));
                }
                k = k + 1;
            }
            proof {
                lemma_col_then_grid_step(
                    inp@,
                    pos_before,
                    (h - y) as nat,
                    x as int,
                    w as int,
                    h as nat,
                    fi@,
                    acc_before,
                    t,
                    rep,
                    *pos as int,
                );
            }
            y = y + (rep as usize) + 1;
        }
        proof {
            lemma_col_then_grid_exit(
                inp@,
                *pos as int,
                x as int,
                w as int,
                h as nat,
                fi@,
                acc@,
            );
        }
        x = x + 1;
    }
    proof {
        lemma_grid_then_done(inp@, *pos as int, w as int, h as nat, fi@, acc@);
    }
    Some(acc)
}

/// A successful column parse yields exactly the requested number of tiles.
pub proof fn lemma_col_at_len(b: Seq<u8>, p: int, remaining: nat, fi: Seq<bool>)
    requires
        col_at(b, p, remaining, fi) is Some,
    ensures
        (col_at(b, p, remaining, fi)->0).0.len() == remaining,
    decreases remaining,
{
    if remaining != 0 {
        let (t, rep, q) = record_at(b, p, fi)->0;
        lemma_col_at_len(b, q, (remaining - rep - 1) as nat, fi);
    }
}

/// A successful grid parse yields exactly `cols * height` tiles.
pub proof fn lemma_grid_at_len(b: Seq<u8>, p: int, cols: nat, height: nat, fi: Seq<bool>)
    requires
        grid_at(b, p, cols, height, fi) is Some,
    ensures
        (grid_at(b, p, cols, height, fi)->0).0.len() == cols * height,
    decreases cols,
{
    if cols == 0 {
        assert(0 * height == 0) by (nonlinear_arith);
    } else {
        let (c, q) = col_at(b, p, height, fi)->0;
        lemma_col_at_len(b, p, height, fi);
        lemma_grid_at_len(b, q, (cols - 1) as nat, height, fi);
        assert(height + (cols - 1) * height == cols * height) by (nonlinear_arith);
    }
}

} // verus!
