//! The vanilla world file reader.
//!
//! The format has four regions in order: a file-format header, the world
//! header, the tile grid, chests, and signs. Trailing sections are left
//! uninterpreted. Only version 230 files are accepted.

use vstd::prelude::*;

verus! {

use crate::wire::{take_u8, take_bool, take_u16, take_u32, take_u64, take_u128, take_i16, take_i32};
use crate::varint::take_varstring;
use crate::world::{World, WorldError, world_wf};
use crate::world_types::{
    WorldMode, CorruptionType, CopperTier, IronTier, SilverTier, GoldTier, CobaltTier,
    MythrilTier, AdamantiteTier, style_wf,
};
use crate::tile::{Tile, TileCoord};
use crate::chunk::{Chest, Sign, ItemStack};
use crate::numcast::{f64_trunc_u32, f64_trunc_i32};
use crate::varint::varstring_bytes;
use vstd::bytes::{spec_u16_to_le_bytes, spec_u32_to_le_bytes, spec_u64_to_le_bytes, spec_u128_to_le_bytes};
use crate::wire::{put_u8, put_u16, put_u32, put_u64, put_u128};
use crate::varint::put_varstring;
use crate::tilecodec::decode_tiles;
use std::hash::Hash;
use std::hash::Hasher;
use std::collections::hash_map::DefaultHasher;

/// Relies on `std::collections::hash_map::DefaultHasher`: the seed text is
/// hashed to a 64-bit seed. Nothing further is assumed of the hash.
#[verifier::external_body]
fn seed_hash(s: &str) -> u64 {
    let mut hasher = DefaultHasher::new();
    s.hash(&mut hasher);
    hasher.finish()
}

fn need_u8(inp: &[u8], pos: &mut usize) -> (r: Result<u8, WorldError>)
    ensures
        r is Err ==> r == Err::<u8, WorldError>(WorldError::CodecError),
{
    match take_u8(inp, pos) {
        Some(v) => Ok(v),
        None => Err(WorldError::CodecError),
    }
}

fn need_bool(inp: &[u8], pos: &mut usize) -> (r: Result<bool, WorldError>)
    ensures
        r is Err ==> r == Err::<bool, WorldError>(WorldError::CodecError),
{
    match take_bool(inp, pos) {
        Some(v) => Ok(v),
        None => Err(WorldError::CodecError),
    }
}

fn need_i16(inp: &[u8], pos: &mut usize) -> (r: Result<i16, WorldError>)
    ensures
        r is Err ==> r == Err::<i16, WorldError>(WorldError::CodecError),
{
    match take_i16(inp, pos) {
        Some(v) => Ok(v),
        None => Err(WorldError::CodecError),
    }
}

fn need_i32(inp: &[u8], pos: &mut usize) -> (r: Result<i32, WorldError>)
    ensures
        r is Err ==> r == Err::<i32, WorldError>(WorldError::CodecError),
{
    match take_i32(inp, pos) {
        Some(v) => Ok(v),
        None => Err(WorldError::CodecError),
    }
}

fn need_u32(inp: &[u8], pos: &mut usize) -> (r: Result<u32, WorldError>)
    ensures
        r is Err ==> r == Err::<u32, WorldError>(WorldError::CodecError),
{
    match take_u32(inp, pos) {
        Some(v) => Ok(v),
        None => Err(WorldError::CodecError),
    }
}

fn need_u64(inp: &[u8], pos: &mut usize) -> (r: Result<u64, WorldError>)
    ensures
        r is Err ==> r == Err::<u64, WorldError>(WorldError::CodecError),
{
    match take_u64(inp, pos) {
        Some(v) => Ok(v),
        None => Err(WorldError::CodecError),
    }
}

fn need_u128(inp: &[u8], pos: &mut usize) -> (r: Result<u128, WorldError>)
    ensures
        r is Err ==> r == Err::<u128, WorldError>(WorldError::CodecError),
{
    match take_u128(inp, pos) {
        Some(v) => Ok(v),
        None => Err(WorldError::CodecError),
    }
}

/// A 64-bit stored fraction, truncated to a whole `u32`.
fn need_f64_u32(inp: &[u8], pos: &mut usize) -> (r: Result<u32, WorldError>)
    ensures
        r is Err ==> r == Err::<u32, WorldError>(WorldError::CodecError),
{
    match take_u64(inp, pos) {
        Some(v) => Ok(f64_trunc_u32(v)),
        None => Err(WorldError::CodecError),
    }
}

/// A 64-bit stored fraction, truncated to a whole `i32`.
fn need_f64_i32(inp: &[u8], pos: &mut usize) -> (r: Result<i32, WorldError>)
    ensures
        r is Err ==> r == Err::<i32, WorldError>(WorldError::CodecError),
{
    match take_u64(inp, pos) {
        Some(v) => Ok(f64_trunc_i32(v)),
        None => Err(WorldError::CodecError),
    }
}

fn need_string(inp: &[u8], pos: &mut usize) -> (r: Result<String, WorldError>)
    ensures
        r is Err ==> r == Err::<String, WorldError>(WorldError::CodecError),
{
    match take_varstring(inp, pos) {
        Some(v) => Ok(v),
        None => Err(WorldError::CodecError),
    }
}

/// How the legacy orb flag promotes the broken-orb counter.
pub open spec fn spec_promote_shadow_orbs(legacy_flag: bool, count: u8) -> u8 {
    if legacy_flag && count == 0 {
        3
    } else {
        count
    }
}

/// Apply the legacy promotion rule: a set flag with a zero counter means
/// three orbs were broken. It is applied to the stored counter exactly
/// once, on read.
pub fn promote_shadow_orbs(legacy_flag: bool, count: u8) -> (r: u8)
    ensures
        r == spec_promote_shadow_orbs(legacy_flag, count),
{
    if legacy_flag && count == 0 {
        3
    } else {
        count
    }
}

/// The promotion rule never takes a counter that was within the three-orb
/// bound outside it.
pub proof fn lemma_shadow_orb_bound(legacy_flag: bool, count: u8)
    requires
        count <= 3,
    ensures
        spec_promote_shadow_orbs(legacy_flag, count) <= 3,
{
}

/// Bit `k` of a byte, low bit first.
pub open spec fn bit_of(byte: u8, k: int) -> bool {
    (byte as int / vstd::arithmetic::power2::pow2(k as nat) as int) % 2 == 1
}

/// The frame-important table packed into `bytes`: `count` bits, low bit
/// of each byte first.
pub open spec fn fi_unpack(bytes: Seq<u8>, count: nat) -> Seq<bool> {
    Seq::new(count, |i: int| bit_of(bytes[i / 8], i % 8))
}

/// Read the file-format header: the version gate, the file metadata, the
/// section offsets, and the frame-important table. On success the table
/// holds the bits of the file's packed table bytes, whose position and
/// bit count are returned alongside.
pub fn read_file_format_header(inp: &[u8], pos: &mut usize) -> (r: Result<
    (Vec<bool>, Ghost<(int, int)>),
    WorldError,
>)
    ensures
        r matches Ok((fi, g)) ==> ({
            let (fp, cnt) = g@;
            &&& 0 <= cnt
            &&& 0 <= fp
            &&& fp + (cnt + 7) / 8 <= inp@.len()
            &&& fi@ == fi_unpack(inp@.subrange(fp, fp + (cnt + 7) / 8), cnt as nat)
            &&& fi@.len() == cnt
        }),
        *old(pos) + 4 <= inp@.len() && inp@.subrange(*old(pos) as int, *old(pos) + 4)
            != vstd::bytes::spec_u32_to_le_bytes(230) ==> r == Err::<
            (Vec<bool>, Ghost<(int, int)>),
            WorldError,
        >(WorldError::VersionMismatch),
        *old(pos) + 4 > inp@.len() ==> r == Err::<(Vec<bool>, Ghost<(int, int)>), WorldError>(
            WorldError::CodecError,
        ),
{
    proof {
        vstd::bytes::lemma_auto_spec_u32_to_from_le_bytes();
    }
    let version = match take_i32(inp, pos) {
        Some(v) => v,
        None => {
            return Err(WorldError::CodecError);
        },
    };
    if version != 230 {
        return Err(WorldError::VersionMismatch);
    }
    assert(inp@.subrange(*old(pos) as int, *old(pos) + 4) == vstd::bytes::spec_u32_to_le_bytes(
        230,
    ));
    need_u64(inp, pos)?;  // Magic number and file type.
    need_u32(inp, pos)?;  // Revision.
    need_u64(inp, pos)?;  // Is favorite.
    let section_count = need_i16(inp, pos)?;
    let mut i: i16 = 0;
    while i < section_count
        invariant
            section_count >= 0 ==> i <= section_count,
            *old(pos) + 4 <= inp@.len(),
            inp@.subrange(*old(pos) as int, *old(pos) + 4) == vstd::bytes::spec_u32_to_le_bytes(
                230,
            ),
        decreases section_count - i,
    {
        need_i32(inp, pos)?;
        i = i + 1;
    }
    let tile_count = need_i16(inp, pos)?;
    if tile_count < 0 {
        return Err(WorldError::CodecError);
    }
    let nbytes: usize = (tile_count as usize + 7) / 8;
    let ghost fp = *pos as int;
    let fb = match crate::wire::take_bytes(inp, pos, nbytes) {
        Some(b) => b,
        None => {
            return Err(WorldError::CodecError);
        },
    };
    let mut fi: Vec<bool> = Vec::new();
    let mut bit_index: usize = 0;
    while bit_index < tile_count as usize
        invariant
            tile_count >= 0,
            nbytes == (tile_count as int + 7) / 8,
            fb@.len() == nbytes,
            fi@.len() == bit_index,
            bit_index <= tile_count as usize,
            forall|j: int| 0 <= j < bit_index ==> fi@[j] == bit_of(fb@[j / 8], j % 8),
            *old(pos) + 4 <= inp@.len(),
            inp@.subrange(*old(pos) as int, *old(pos) + 4) == vstd::bytes::spec_u32_to_le_bytes(
                230,
            ),
        decreases tile_count as usize - bit_index,
    {
        let byte = fb[bit_index / 8];
        let k = bit_index % 8;
        let divisor: u8 = if k == 0 {
            1
        } else if k == 1 {
            2
        } else if k == 2 {
            4
        } else if k == 3 {
            8
        } else if k == 4 {
            16
        } else if k == 5 {
            32
        } else if k == 6 {
            64
        } else {
            128
        };
        proof {
            vstd::arithmetic::power2::lemma2_to64();
            assert(divisor as int == vstd::arithmetic::power2::pow2((bit_index % 8) as nat));
        }
        fi.push(byte / divisor % 2 == 1);
        bit_index = bit_index + 1;
    }
    proof {
        assert(fi@ =~= fi_unpack(fb@, tile_count as nat));
    }
    Ok((fi, Ghost((fp, tile_count as int))))
}



/// The values the vanilla header holds that the world model narrows or
/// discards: generator metadata, seed text, and the raw integers behind
/// every cast field, kept so the header can be reproduced byte for byte.
#[derive(Debug)]
pub struct HeaderExtras {
    pub seed_text: String,
    pub gen_version: u64,
    pub worldmode_raw: i32,
    pub drunk_seed: u8,
    pub worthy_seed: u8,
    pub creation_time: u64,
    pub forest_style0_raw: i32,
    pub forest_style1_raw: i32,
    pub forest_style2_raw: i32,
    pub forest_style3_raw: i32,
    pub cave_style0_raw: i32,
    pub cave_style1_raw: i32,
    pub cave_style2_raw: i32,
    pub cave_style3_raw: i32,
    pub snow_style_raw: i32,
    pub jungle_style_raw: i32,
    pub under_style_raw: i32,
    pub spawn_x_raw: i32,
    pub spawn_y_raw: i32,
    pub surface_bits: u64,
    pub rock_bits: u64,
    pub time_bits: u64,
    pub is_day_raw: u8,
    pub moon_phase_raw: i32,
    pub blood_raw: u8,
    pub eclipse_raw: u8,
    pub dungeon_x_raw: i32,
    pub dungeon_y_raw: i32,
    pub corruption_raw: u8,
    pub eye_raw: u8,
    pub eater_raw: u8,
    pub skeletron_raw: u8,
    pub queen_bee_raw: u8,
    pub destroyer_raw: u8,
    pub twins_raw: u8,
    pub prime_raw: u8,
    pub any_mech_raw: u8,
    pub plantera_raw: u8,
    pub golem_raw: u8,
    pub king_slime_raw: u8,
    pub goblin_raw: u8,
    pub wizard_raw: u8,
    pub mechanic_raw: u8,
    pub goblin_army_raw: u8,
    pub clown_raw: u8,
    pub frost_raw: u8,
    pub pirates_raw: u8,
    pub legacy_orb_raw: u8,
    pub meteor_raw: u8,
    pub orbs_raw: u8,
    pub hardmode_raw: u8,
    pub invasion_type_raw: i32,
    pub invasion_x_bits: u64,
    pub slime_bits: u64,
    pub raining_raw: u8,
    pub cobalt_raw: i32,
    pub mythril_raw: i32,
    pub adamantite_raw: i32,
    pub angler_raw: u8,
    pub angler_quest_raw: i32,
    pub stylist_raw: u8,
    pub tax_raw: u8,
    pub golfer_raw: u8,
    pub fast_raw: u8,
    pub fishron_raw: u8,
    pub martians_raw: u8,
    pub cultist_boss_raw: u8,
    pub moon_lord_raw: u8,
    pub pumpking_raw: u8,
    pub mourning_raw: u8,
    pub ice_queen_raw: u8,
    pub santank_raw: u8,
    pub everscream_raw: u8,
    pub solar_raw: u8,
    pub vortex_raw: u8,
    pub nebula_raw: u8,
    pub stardust_raw: u8,
    pub solar_alive_raw: u8,
    pub vortex_alive_raw: u8,
    pub nebula_alive_raw: u8,
    pub stardust_alive_raw: u8,
    pub doom_raw: u8,
    pub party_manual_raw: u8,
    pub party_genuine_raw: u8,
    pub party_cooldown_raw: i32,
    pub sandstorm_raw: u8,
    pub bartender_raw: u8,
    pub tier1_raw: u8,
    pub tier2_raw: u8,
    pub tier3_raw: u8,
    pub combat_book_raw: u8,
    pub lantern_cd_raw: i32,
    pub lantern_genuine_raw: u8,
    pub lantern_manual_raw: u8,
    pub lantern_queued_raw: u8,
    pub treetop_count_raw: i32,
    pub tree_raws: Vec<i32>,
    pub halloween_raw: u8,
    pub christmas_raw: u8,
    pub copper_raw: i32,
    pub iron_raw: i32,
    pub silver_raw: i32,
    pub gold_raw: i32,
    pub cat_raw: u8,
    pub dog_raw: u8,
    pub bunny_raw: u8,
    pub empress_raw: u8,
    pub queen_slime_raw: u8,
}

impl HeaderExtras {
    /// An all-zero extras record, filled in by the reader; also the
    /// starting point for writing a header of one's own.
    pub fn empty() -> HeaderExtras {
        HeaderExtras {
            seed_text: String::new(),
            gen_version: 0,
            worldmode_raw: 0,
            drunk_seed: 0,
            worthy_seed: 0,
            creation_time: 0,
            forest_style0_raw: 0,
            forest_style1_raw: 0,
            forest_style2_raw: 0,
            forest_style3_raw: 0,
            cave_style0_raw: 0,
            cave_style1_raw: 0,
            cave_style2_raw: 0,
            cave_style3_raw: 0,
            snow_style_raw: 0,
            jungle_style_raw: 0,
            under_style_raw: 0,
            spawn_x_raw: 0,
            spawn_y_raw: 0,
            surface_bits: 0,
            rock_bits: 0,
            time_bits: 0,
            is_day_raw: 0,
            moon_phase_raw: 0,
            blood_raw: 0,
            eclipse_raw: 0,
            dungeon_x_raw: 0,
            dungeon_y_raw: 0,
            corruption_raw: 0,
            eye_raw: 0,
            eater_raw: 0,
            skeletron_raw: 0,
            queen_bee_raw: 0,
            destroyer_raw: 0,
            twins_raw: 0,
            prime_raw: 0,
            any_mech_raw: 0,
            plantera_raw: 0,
            golem_raw: 0,
            king_slime_raw: 0,
            goblin_raw: 0,
            wizard_raw: 0,
            mechanic_raw: 0,
            goblin_army_raw: 0,
            clown_raw: 0,
            frost_raw: 0,
            pirates_raw: 0,
            legacy_orb_raw: 0,
            meteor_raw: 0,
            orbs_raw: 0,
            hardmode_raw: 0,
            invasion_type_raw: 0,
            invasion_x_bits: 0,
            slime_bits: 0,
            raining_raw: 0,
            cobalt_raw: 0,
            mythril_raw: 0,
            adamantite_raw: 0,
            angler_raw: 0,
            angler_quest_raw: 0,
            stylist_raw: 0,
            tax_raw: 0,
            golfer_raw: 0,
            fast_raw: 0,
            fishron_raw: 0,
            martians_raw: 0,
            cultist_boss_raw: 0,
            moon_lord_raw: 0,
            pumpking_raw: 0,
            mourning_raw: 0,
            ice_queen_raw: 0,
            santank_raw: 0,
            everscream_raw: 0,
            solar_raw: 0,
            vortex_raw: 0,
            nebula_raw: 0,
            stardust_raw: 0,
            solar_alive_raw: 0,
            vortex_alive_raw: 0,
            nebula_alive_raw: 0,
            stardust_alive_raw: 0,
            doom_raw: 0,
            party_manual_raw: 0,
            party_genuine_raw: 0,
            party_cooldown_raw: 0,
            sandstorm_raw: 0,
            bartender_raw: 0,
            tier1_raw: 0,
            tier2_raw: 0,
            tier3_raw: 0,
            combat_book_raw: 0,
            lantern_cd_raw: 0,
            lantern_genuine_raw: 0,
            lantern_manual_raw: 0,
            lantern_queued_raw: 0,
            treetop_count_raw: 0,
            tree_raws: Vec::new(),
            halloween_raw: 0,
            christmas_raw: 0,
            copper_raw: 0,
            iron_raw: 0,
            silver_raw: 0,
            gold_raw: 0,
            cat_raw: 0,
            dog_raw: 0,
            bunny_raw: 0,
            empress_raw: 0,
            queen_slime_raw: 0,
        }
    }
}

/// Variable-length strings, one after the other.
pub open spec fn varstrs_cat(s: Seq<Seq<char>>) -> Seq<u8>
    decreases s.len(),
{
    if s.len() == 0 {
        Seq::empty()
    } else {
        crate::varint::varstring_bytes(s[0]) + varstrs_cat(s.drop_first())
    }
}

/// 32-bit stored integers, one after the other.
pub open spec fn i32s_cat(s: Seq<i32>) -> Seq<u8>
    decreases s.len(),
{
    if s.len() == 0 {
        Seq::empty()
    } else {
        vstd::bytes::spec_u32_to_le_bytes(s[0] as u32) + i32s_cat(s.drop_first())
    }
}

/// Writing one more string extends the concatenation by its encoding.
proof fn lemma_varstrs_cat_take(s: Seq<Seq<char>>, i: int)
    requires
        0 <= i < s.len(),
    ensures
        varstrs_cat(s.take(i + 1)) == varstrs_cat(s.take(i)) + crate::varint::varstring_bytes(
            s[i],
        ),
    decreases i,
{
    if i == 0 {
        assert(s.take(1).drop_first() =~= Seq::<Seq<char>>::empty());
        assert(s.take(1)[0] == s[0]);
        assert(varstrs_cat(s.take(0)) == Seq::<u8>::empty());
        assert(varstrs_cat(s.take(1)) == crate::varint::varstring_bytes(s[0]) + varstrs_cat(
            s.take(1).drop_first(),
        ));
        assert(varstrs_cat(s.take(0)) + crate::varint::varstring_bytes(s[0])
            =~= crate::varint::varstring_bytes(s[0]) + Seq::<u8>::empty());
    } else {
        lemma_varstrs_cat_take(s.drop_first(), i - 1);
        assert(s.take(i + 1).drop_first() =~= s.drop_first().take(i));
        assert(s.take(i).drop_first() =~= s.drop_first().take(i - 1));
        assert(s.drop_first()[i - 1] == s[i]);
        assert(s.take(i + 1)[0] == s[0]);
        assert(s.take(i)[0] == s[0]);
        assert(crate::varint::varstring_bytes(s.take(i + 1)[0]) + (varstrs_cat(
            s.drop_first().take(i - 1),
        ) + crate::varint::varstring_bytes(s[i])) =~= (crate::varint::varstring_bytes(
            s.take(i + 1)[0],
        ) + varstrs_cat(s.drop_first().take(i - 1))) + crate::varint::varstring_bytes(s[i]));
    }
}

/// Writing one more integer extends the concatenation by its encoding.
proof fn lemma_i32s_cat_take(s: Seq<i32>, i: int)
    requires
        0 <= i < s.len(),
    ensures
        i32s_cat(s.take(i + 1)) == i32s_cat(s.take(i)) + vstd::bytes::spec_u32_to_le_bytes(
            s[i] as u32,
        ),
    decreases i,
{
    if i == 0 {
        assert(s.take(1).drop_first() =~= Seq::<i32>::empty());
        assert(s.take(1)[0] == s[0]);
        assert(i32s_cat(s.take(0)) == Seq::<u8>::empty());
        assert(i32s_cat(s.take(1)) == vstd::bytes::spec_u32_to_le_bytes(s[0] as u32) + i32s_cat(
            s.take(1).drop_first(),
        ));
        assert(i32s_cat(s.take(0)) + vstd::bytes::spec_u32_to_le_bytes(s[0] as u32)
            =~= vstd::bytes::spec_u32_to_le_bytes(s[0] as u32) + Seq::<u8>::empty());
    } else {
        lemma_i32s_cat_take(s.drop_first(), i - 1);
        assert(s.take(i + 1).drop_first() =~= s.drop_first().take(i));
        assert(s.take(i).drop_first() =~= s.drop_first().take(i - 1));
        assert(s.drop_first()[i - 1] == s[i]);
        assert(s.take(i + 1)[0] == s[0]);
        assert(s.take(i)[0] == s[0]);
        assert(vstd::bytes::spec_u32_to_le_bytes(s.take(i + 1)[0] as u32) + (i32s_cat(
            s.drop_first().take(i - 1),
        ) + vstd::bytes::spec_u32_to_le_bytes(s[i] as u32)) =~= (vstd::bytes::spec_u32_to_le_bytes(
            s.take(i + 1)[0] as u32,
        ) + i32s_cat(s.drop_first().take(i - 1))) + vstd::bytes::spec_u32_to_le_bytes(
            s[i] as u32,
        ));
    }
}

/// Append 32-bit values without a count.
fn put_u32s_plain(out: &mut Vec<u8>, vs: &Vec<u32>)
    ensures
        final(out)@ == old(out)@ + crate::internal::u32s_cat(vs@),
{
    let ghost start = out@;
    let mut i: usize = 0;
    while i < vs.len()
        invariant
            i <= vs@.len(),
            out@ == start + crate::internal::u32s_cat(vs@.take(i as int)),
        decreases vs@.len() - i,
    {
        crate::wire::put_u32(out, vs[i]);
        proof {
            crate::internal::lemma_u32s_cat_take(vs@, i as int);
        }
        i = i + 1;
    }
    proof {
        assert(vs@.take(vs@.len() as int) =~= vs@);
    }
}

/// Append stored 32-bit integers without a count.
fn put_i32s_plain(out: &mut Vec<u8>, vs: &Vec<i32>)
    ensures
        final(out)@ == old(out)@ + i32s_cat(vs@),
{
    let ghost start = out@;
    let mut i: usize = 0;
    while i < vs.len()
        invariant
            i <= vs@.len(),
            out@ == start + i32s_cat(vs@.take(i as int)),
        decreases vs@.len() - i,
    {
        crate::wire::put_u32(out, #[verifier::truncate] (vs[i] as u32));
        proof {
            lemma_i32s_cat_take(vs@, i as int);
        }
        i = i + 1;
    }
    proof {
        assert(vs@.take(vs@.len() as int) =~= vs@);
    }
}

/// Append variable-length strings without a count.
fn put_varstrs(out: &mut Vec<u8>, vs: &Vec<String>)
    ensures
        final(out)@ == old(out)@ + varstrs_cat(vs@.map_values(|q: String| q@)),
{
    let ghost qs = vs@.map_values(|q: String| q@);
    let ghost start = out@;
    let mut i: usize = 0;
    while i < vs.len()
        invariant
            i <= qs.len(),
            qs == vs@.map_values(|q: String| q@),
            out@ == start + varstrs_cat(qs.take(i as int)),
        decreases qs.len() - i,
    {
        crate::varint::put_varstring(out, vs[i].as_str());
        proof {
            lemma_varstrs_cat_take(qs, i as int);
            assert(qs[i as int] == vs@[i as int]@);
        }
        i = i + 1;
    }
    proof {
        assert(qs.take(qs.len() as int) =~= qs);
    }
}

/// Whether `a` appears in `b` at offset `off`.
fn bytes_eq_at(a: &[u8], b: &[u8], off: usize) -> (r: bool)
    ensures
        r == (off + a@.len() <= b@.len() && a@ == b@.subrange(off as int, off + a@.len())),
{
    if b.len() < a.len() || off > b.len() - a.len() {
        proof {
            assert(off + a@.len() > b@.len());
        }
        return false;
    }
    let limit = b.len();
    let mut i: usize = 0;
    while i < a.len()
        invariant
            limit == b@.len(),
            off + a@.len() <= limit,
            i <= a@.len(),
            forall|j: int| 0 <= j < i ==> a@[j] == b@[off + j],
        decreases a@.len() - i,
    {
        if a[i] != b[off + i] {
            proof {
                assert(a@[i as int] != b@.subrange(off as int, off + a@.len())[i as int]);
            }
            return false;
        }
        i = i + 1;
    }
    proof {
        assert(a@ =~= b@.subrange(off as int, off + a@.len()));
    }
    true
}

/// Part 0 of the world-header bytes.
pub open spec fn wh0_bytes(w: World, ex: HeaderExtras) -> Seq<u8> {
    varstring_bytes(w.name@) + varstring_bytes(ex.seed_text@) + spec_u64_to_le_bytes(ex.gen_version) + spec_u128_to_le_bytes(w.uuid) + spec_u32_to_le_bytes(w.id as u32) + spec_u32_to_le_bytes(w.dimensions.left) + spec_u32_to_le_bytes(w.dimensions.right) + spec_u32_to_le_bytes(w.dimensions.top) + spec_u32_to_le_bytes(w.dimensions.bottom) + spec_u32_to_le_bytes(w.dimensions.tile_height)
}

/// Part 1 of the world-header bytes.
pub open spec fn wh1_bytes(w: World, ex: HeaderExtras) -> Seq<u8> {
    spec_u32_to_le_bytes(w.dimensions.tile_width) + spec_u32_to_le_bytes(ex.worldmode_raw as u32) + seq![
        ex.drunk_seed,
        ex.worthy_seed,
    ] + spec_u64_to_le_bytes(ex.creation_time) + seq![
        w.style.moon_style,
    ] + spec_u32_to_le_bytes(w.style.forest_bg_x@[0]) + spec_u32_to_le_bytes(w.style.forest_bg_x@[1]) + spec_u32_to_le_bytes(w.style.forest_bg_x@[2]) + spec_u32_to_le_bytes(ex.forest_style0_raw as u32) + spec_u32_to_le_bytes(ex.forest_style1_raw as u32)
}

/// Part 2 of the world-header bytes.
pub open spec fn wh2_bytes(w: World, ex: HeaderExtras) -> Seq<u8> {
    spec_u32_to_le_bytes(ex.forest_style2_raw as u32) + spec_u32_to_le_bytes(ex.forest_style3_raw as u32) + spec_u32_to_le_bytes(w.style.cave_bg_x@[0]) + spec_u32_to_le_bytes(w.style.cave_bg_x@[1]) + spec_u32_to_le_bytes(w.style.cave_bg_x@[2]) + spec_u32_to_le_bytes(ex.cave_style0_raw as u32) + spec_u32_to_le_bytes(ex.cave_style1_raw as u32) + spec_u32_to_le_bytes(ex.cave_style2_raw as u32) + spec_u32_to_le_bytes(ex.cave_style3_raw as u32) + spec_u32_to_le_bytes(ex.snow_style_raw as u32)
}

/// Part 3 of the world-header bytes.
pub open spec fn wh3_bytes(w: World, ex: HeaderExtras) -> Seq<u8> {
    spec_u32_to_le_bytes(ex.jungle_style_raw as u32) + spec_u32_to_le_bytes(ex.under_style_raw as u32) + spec_u32_to_le_bytes(ex.spawn_x_raw as u32) + spec_u32_to_le_bytes(ex.spawn_y_raw as u32) + spec_u64_to_le_bytes(ex.surface_bits) + spec_u64_to_le_bytes(ex.rock_bits) + spec_u64_to_le_bytes(ex.time_bits) + seq![
        ex.is_day_raw,
    ] + spec_u32_to_le_bytes(ex.moon_phase_raw as u32) + seq![
        ex.blood_raw,
        ex.eclipse_raw,
    ]
}

/// Part 4 of the world-header bytes.
pub open spec fn wh4_bytes(w: World, ex: HeaderExtras) -> Seq<u8> {
    spec_u32_to_le_bytes(ex.dungeon_x_raw as u32) + spec_u32_to_le_bytes(ex.dungeon_y_raw as u32) + seq![
        ex.corruption_raw,
        ex.eye_raw,
        ex.eater_raw,
        ex.skeletron_raw,
        ex.queen_bee_raw,
        ex.destroyer_raw,
        ex.twins_raw,
        ex.prime_raw,
        ex.any_mech_raw,
        ex.plantera_raw,
        ex.golem_raw,
        ex.king_slime_raw,
        ex.goblin_raw,
        ex.wizard_raw,
        ex.mechanic_raw,
        ex.goblin_army_raw,
        ex.clown_raw,
        ex.frost_raw,
        ex.pirates_raw,
        ex.legacy_orb_raw,
        ex.meteor_raw,
        ex.orbs_raw,
    ] + spec_u32_to_le_bytes(w.progress.altars_broken) + seq![
        ex.hardmode_raw,
    ] + spec_u32_to_le_bytes(w.events.invasion_delay as u32) + spec_u32_to_le_bytes(w.events.invasion_size as u32) + spec_u32_to_le_bytes(ex.invasion_type_raw as u32) + spec_u64_to_le_bytes(ex.invasion_x_bits) + spec_u64_to_le_bytes(ex.slime_bits)
}

/// Part 5 of the world-header bytes.
pub open spec fn wh5_bytes(w: World, ex: HeaderExtras) -> Seq<u8> {
    seq![
        w.time.sundial_cooldown,
        ex.raining_raw,
    ] + spec_u32_to_le_bytes(w.weather.rain_time) + spec_u32_to_le_bytes(w.weather.rain_amount_bits) + spec_u32_to_le_bytes(ex.cobalt_raw as u32) + spec_u32_to_le_bytes(ex.mythril_raw as u32) + spec_u32_to_le_bytes(ex.adamantite_raw as u32) + seq![
        w.style.forest_bg@[0],
        w.style.corruption_bg,
        w.style.jungle_bg,
        w.style.snow_bg,
        w.style.hallow_bg,
        w.style.crimson_bg,
        w.style.desert_bg,
        w.style.ocean_bg,
    ] + spec_u32_to_le_bytes(w.weather.active_cloud_bg as u32) + spec_u16_to_le_bytes(w.weather.num_clouds) + spec_u32_to_le_bytes(w.weather.wind_speed_bits)
}

/// Part 6 of the world-header bytes.
pub open spec fn wh6_bytes(w: World, ex: HeaderExtras) -> Seq<u8> {
    spec_u32_to_le_bytes(w.angler.completed_quests@.len() as u32) + varstrs_cat(w.angler.completed_quests@.map_values(|q: String| q@)) + seq![
        ex.angler_raw,
    ] + spec_u32_to_le_bytes(ex.angler_quest_raw as u32) + seq![
        ex.stylist_raw,
        ex.tax_raw,
        ex.golfer_raw,
    ] + spec_u32_to_le_bytes(w.events.invasion_start_size as u32) + spec_u32_to_le_bytes(w.events.cultist_remaining_time as u32) + spec_u16_to_le_bytes(w.progress.entity_kill_counts@.len() as u16) + crate::internal::u32s_cat(w.progress.entity_kill_counts@) + seq![
        ex.fast_raw,
        ex.fishron_raw,
        ex.martians_raw,
        ex.cultist_boss_raw,
        ex.moon_lord_raw,
        ex.pumpking_raw,
        ex.mourning_raw,
        ex.ice_queen_raw,
        ex.santank_raw,
        ex.everscream_raw,
        ex.solar_raw,
        ex.vortex_raw,
        ex.nebula_raw,
        ex.stardust_raw,
        ex.solar_alive_raw,
        ex.vortex_alive_raw,
        ex.nebula_alive_raw,
        ex.stardust_alive_raw,
        ex.doom_raw,
        ex.party_manual_raw,
        ex.party_genuine_raw,
    ]
}

/// Part 7 of the world-header bytes.
pub open spec fn wh7_bytes(w: World, ex: HeaderExtras) -> Seq<u8> {
    spec_u32_to_le_bytes(ex.party_cooldown_raw as u32) + spec_u32_to_le_bytes(w.events.partying_npcs@.len() as u32) + crate::internal::u32s_cat(w.events.partying_npcs@) + seq![
        ex.sandstorm_raw,
    ] + spec_u32_to_le_bytes(w.weather.sandstorm_remaining_time as u32) + spec_u32_to_le_bytes(w.weather.sandstorm_severity_bits) + spec_u32_to_le_bytes(w.weather.sandstorm_intended_severity_bits) + seq![
        ex.bartender_raw,
        ex.tier1_raw,
        ex.tier2_raw,
        ex.tier3_raw,
        w.style.mushroom_bg,
        w.style.underworld_bg,
        w.style.forest_bg@[1],
        w.style.forest_bg@[2],
        w.style.forest_bg@[3],
        ex.combat_book_raw,
    ] + spec_u32_to_le_bytes(ex.lantern_cd_raw as u32) + seq![
        ex.lantern_genuine_raw,
        ex.lantern_manual_raw,
        ex.lantern_queued_raw,
    ]
}

/// Part 8 of the world-header bytes.
pub open spec fn wh8_bytes(w: World, ex: HeaderExtras) -> Seq<u8> {
    spec_u32_to_le_bytes(ex.treetop_count_raw as u32) + i32s_cat(ex.tree_raws@) + seq![
        ex.halloween_raw,
        ex.christmas_raw,
    ] + spec_u32_to_le_bytes(ex.copper_raw as u32) + spec_u32_to_le_bytes(ex.iron_raw as u32) + spec_u32_to_le_bytes(ex.silver_raw as u32) + spec_u32_to_le_bytes(ex.gold_raw as u32) + seq![
        ex.cat_raw,
        ex.dog_raw,
        ex.bunny_raw,
        ex.empress_raw,
        ex.queen_slime_raw,
    ]
}

/// The world-header bytes: every field of the world in file order, with
/// the discarded and pre-cast raw values taken from the extras record.
pub open spec fn world_header_bytes(w: World, ex: HeaderExtras) -> Seq<u8> {
    wh0_bytes(w, ex) + wh1_bytes(w, ex) + wh2_bytes(w, ex) + wh3_bytes(w, ex) + wh4_bytes(w, ex) + wh5_bytes(w, ex) + wh6_bytes(w, ex) + wh7_bytes(w, ex) + wh8_bytes(w, ex)
}

/// How the world's fields relate to the raw values read for them: each
/// narrowed, truncated or flag-tested field equals the stated function of
/// its raw bytes, the shadow-orb counter carries the promotion rule, and
/// each ore tier decodes its stored integer.
pub open spec fn header_consistent(w: World, ex: HeaderExtras) -> bool {
    &&& w.worldmode == WorldMode::spec_from_i32(ex.worldmode_raw)
    &&& w.style.forest_bg_style@[0] == ex.forest_style0_raw as u8
    &&& w.style.forest_bg_style@[1] == ex.forest_style1_raw as u8
    &&& w.style.forest_bg_style@[2] == ex.forest_style2_raw as u8
    &&& w.style.forest_bg_style@[3] == ex.forest_style3_raw as u8
    &&& w.style.cave_bg_style@[0] == ex.cave_style0_raw as u8
    &&& w.style.cave_bg_style@[1] == ex.cave_style1_raw as u8
    &&& w.style.cave_bg_style@[2] == ex.cave_style2_raw as u8
    &&& w.style.cave_bg_style@[3] == ex.cave_style3_raw as u8
    &&& w.style.snow_bg_style == ex.snow_style_raw as u8
    &&& w.style.jungle_bg_style == ex.jungle_style_raw as u8
    &&& w.style.underworld_bg_style == ex.under_style_raw as u8
    &&& w.spawn_coord.x == ex.spawn_x_raw as u16
    &&& w.spawn_coord.y == ex.spawn_y_raw as u16
    &&& w.gen_data.surface_y == crate::numcast::spec_f64_trunc_u32(ex.surface_bits)
    &&& w.gen_data.rock_layer_y == crate::numcast::spec_f64_trunc_u32(ex.rock_bits)
    &&& w.time.time == crate::numcast::spec_f64_trunc_u32(ex.time_bits)
    &&& w.time.is_day == (ex.is_day_raw != 0)
    &&& w.time.moon_phase == ex.moon_phase_raw as u8
    &&& w.events.is_blood_moon_happening == (ex.blood_raw != 0)
    &&& w.events.is_eclipse_happening == (ex.eclipse_raw != 0)
    &&& w.dungeon_coord.x == ex.dungeon_x_raw as u16
    &&& w.dungeon_coord.y == ex.dungeon_y_raw as u16
    &&& w.gen_data.corruption_type == (if ex.corruption_raw == 0 { CorruptionType::Corruption } else { CorruptionType::Crimson })
    &&& w.progress.defeated_eye_of_cthulu == (ex.eye_raw != 0)
    &&& w.progress.defeated_eater_or_brain == (ex.eater_raw != 0)
    &&& w.progress.defeated_skeletron == (ex.skeletron_raw != 0)
    &&& w.progress.defeated_queen_bee == (ex.queen_bee_raw != 0)
    &&& w.progress.defeated_destroyer == (ex.destroyer_raw != 0)
    &&& w.progress.defeated_twins == (ex.twins_raw != 0)
    &&& w.progress.defeated_skeletron_prime == (ex.prime_raw != 0)
    &&& w.progress.defeated_plantera == (ex.plantera_raw != 0)
    &&& w.progress.defeated_golem == (ex.golem_raw != 0)
    &&& w.progress.defeated_king_slime == (ex.king_slime_raw != 0)
    &&& w.progress.saved_goblin == (ex.goblin_raw != 0)
    &&& w.progress.saved_wizard == (ex.wizard_raw != 0)
    &&& w.progress.saved_mechanic == (ex.mechanic_raw != 0)
    &&& w.progress.defeated_goblin_army == (ex.goblin_army_raw != 0)
    &&& w.progress.defeated_clown == (ex.clown_raw != 0)
    &&& w.progress.defeated_frost_legion == (ex.frost_raw != 0)
    &&& w.progress.defeated_pirates == (ex.pirates_raw != 0)
    &&& w.events.is_meteor_queued == (ex.meteor_raw != 0)
    &&& w.progress.shadow_orbs_broken == spec_promote_shadow_orbs(ex.legacy_orb_raw != 0, ex.orbs_raw)
    &&& w.progress.is_hardmode == (ex.hardmode_raw != 0)
    &&& w.events.invasion_type == ex.invasion_type_raw as u8
    &&& w.events.invasion_x == crate::numcast::spec_f64_trunc_u32(ex.invasion_x_bits)
    &&& w.events.slime_rain_remaining_time == crate::numcast::spec_f64_trunc_i32(ex.slime_bits)
    &&& w.weather.is_raining == (ex.raining_raw != 0)
    &&& CobaltTier::spec_from_u16((ex.cobalt_raw as u16)) == Some(w.gen_data.cobalt_tier)
    &&& MythrilTier::spec_from_u16((ex.mythril_raw as u16)) == Some(w.gen_data.mythril_tier)
    &&& AdamantiteTier::spec_from_u16((ex.adamantite_raw as u16)) == Some(w.gen_data.adamantite_tier)
    &&& w.progress.saved_angler == (ex.angler_raw != 0)
    &&& w.angler.quest == ex.angler_quest_raw as u8
    &&& w.progress.saved_stylist == (ex.stylist_raw != 0)
    &&& w.progress.saved_tax_collector == (ex.tax_raw != 0)
    &&& w.progress.saved_golfer == (ex.golfer_raw != 0)
    &&& w.time.is_fast_forwarding == (ex.fast_raw != 0)
    &&& w.progress.defeated_duke_fishron == (ex.fishron_raw != 0)
    &&& w.progress.defeated_martians == (ex.martians_raw != 0)
    &&& w.progress.defeated_lunatic_cultist == (ex.cultist_boss_raw != 0)
    &&& w.progress.defeated_moon_lord == (ex.moon_lord_raw != 0)
    &&& w.progress.defeated_pumpking == (ex.pumpking_raw != 0)
    &&& w.progress.defeated_mourning_wood == (ex.mourning_raw != 0)
    &&& w.progress.defeated_ice_queen == (ex.ice_queen_raw != 0)
    &&& w.progress.defeated_santa_nk1 == (ex.santank_raw != 0)
    &&& w.progress.defeated_everscream == (ex.everscream_raw != 0)
    &&& w.progress.defeated_solar_pillar == (ex.solar_raw != 0)
    &&& w.progress.defeated_vortex_pillar == (ex.vortex_raw != 0)
    &&& w.progress.defeated_nebula_pillar == (ex.nebula_raw != 0)
    &&& w.progress.defeated_stardust_pillar == (ex.stardust_raw != 0)
    &&& w.events.is_solar_pillar_alive == (ex.solar_alive_raw != 0)
    &&& w.events.is_vortex_pillar_alive == (ex.vortex_alive_raw != 0)
    &&& w.events.is_nebula_pillar_alive == (ex.nebula_alive_raw != 0)
    &&& w.events.is_stardust_pillar_alive == (ex.stardust_alive_raw != 0)
    &&& w.events.is_impending_doom_approaching == (ex.doom_raw != 0)
    &&& w.events.is_party_manual == (ex.party_manual_raw != 0)
    &&& w.events.is_party_genuine == (ex.party_genuine_raw != 0)
    &&& w.events.party_cooldown == ex.party_cooldown_raw as u8
    &&& w.weather.is_sandstorm_happening == (ex.sandstorm_raw != 0)
    &&& w.progress.saved_bartender == (ex.bartender_raw != 0)
    &&& w.progress.defeated_old_ones_army_tier_1 == (ex.tier1_raw != 0)
    &&& w.progress.defeated_old_ones_army_tier_2 == (ex.tier2_raw != 0)
    &&& w.progress.defeated_old_ones_army_tier_3 == (ex.tier3_raw != 0)
    &&& w.progress.used_combat_book == (ex.combat_book_raw != 0)
    &&& w.events.lantern_night_cooldown == ex.lantern_cd_raw as u8
    &&& w.events.is_lantern_night_queued == (ex.lantern_queued_raw != 0)
    &&& 0 <= ex.treetop_count_raw <= 13
    &&& ex.tree_raws@.len() == ex.treetop_count_raw
    &&& forall|i: int| 0 <= i < ex.treetop_count_raw ==> w.style.tree_tops@[i] == ((#[trigger] ex.tree_raws@[i]) as u8)
    &&& forall|i: int| ex.treetop_count_raw <= i < 13 ==> #[trigger] w.style.tree_tops@[i] == 0
    &&& w.events.is_halloween_forced == (ex.halloween_raw != 0)
    &&& w.events.is_christmas_forced == (ex.christmas_raw != 0)
    &&& CopperTier::spec_from_u16((ex.copper_raw as u16)) == Some(w.gen_data.copper_tier)
    &&& IronTier::spec_from_u16((ex.iron_raw as u16)) == Some(w.gen_data.iron_tier)
    &&& SilverTier::spec_from_u16((ex.silver_raw as u16)) == Some(w.gen_data.silver_tier)
    &&& GoldTier::spec_from_u16((ex.gold_raw as u16)) == Some(w.gen_data.gold_tier)
    &&& w.progress.purchased_cat == (ex.cat_raw != 0)
    &&& w.progress.purchased_dog == (ex.dog_raw != 0)
    &&& w.progress.purchased_bunny == (ex.bunny_raw != 0)
    &&& w.progress.defeated_empress_of_light == (ex.empress_raw != 0)
    &&& w.progress.defeated_queen_slime == (ex.queen_slime_raw != 0)
}

/// Append part 0 of the world-header bytes.
#[verifier::rlimit(100)]
fn put_wh0(out: &mut Vec<u8>, w: &World, ex: &HeaderExtras)
    requires
        crate::world_types::style_wf(w.style),
        w.angler.completed_quests@.len() <= 0x7FFF_FFFF,
        w.progress.entity_kill_counts@.len() <= 0x7FFF,
        w.events.partying_npcs@.len() <= 0x7FFF_FFFF,
    ensures
        final(out)@ == old(out)@ + wh0_bytes(*w, *ex),
{
    put_varstring(out, w.name.as_str());
    put_varstring(out, ex.seed_text.as_str());
    put_u64(out, ex.gen_version);
    put_u128(out, w.uuid);
    put_u32(out, #[verifier::truncate] (w.id as u32));
    put_u32(out, w.dimensions.left);
    put_u32(out, w.dimensions.right);
    put_u32(out, w.dimensions.top);
    put_u32(out, w.dimensions.bottom);
    put_u32(out, w.dimensions.tile_height);
    assert(final(out)@ =~= old(out)@ + wh0_bytes(*w, *ex));
}

/// Append part 1 of the world-header bytes.
#[verifier::rlimit(100)]
fn put_wh1(out: &mut Vec<u8>, w: &World, ex: &HeaderExtras)
    requires
        crate::world_types::style_wf(w.style),
        w.angler.completed_quests@.len() <= 0x7FFF_FFFF,
        w.progress.entity_kill_counts@.len() <= 0x7FFF,
        w.events.partying_npcs@.len() <= 0x7FFF_FFFF,
    ensures
        final(out)@ == old(out)@ + wh1_bytes(*w, *ex),
{
    put_u32(out, w.dimensions.tile_width);
    put_u32(out, #[verifier::truncate] (ex.worldmode_raw as u32));
    put_u8(out, ex.drunk_seed);
    put_u8(out, ex.worthy_seed);
    put_u64(out, ex.creation_time);
    put_u8(out, w.style.moon_style);
    put_u32(out, w.style.forest_bg_x[0]);
    put_u32(out, w.style.forest_bg_x[1]);
    put_u32(out, w.style.forest_bg_x[2]);
    put_u32(out, #[verifier::truncate] (ex.forest_style0_raw as u32));
    put_u32(out, #[verifier::truncate] (ex.forest_style1_raw as u32));
    assert(final(out)@ =~= old(out)@ + wh1_bytes(*w, *ex));
}

/// Append part 2 of the world-header bytes.
#[verifier::rlimit(100)]
fn put_wh2(out: &mut Vec<u8>, w: &World, ex: &HeaderExtras)
    requires
        crate::world_types::style_wf(w.style),
        w.angler.completed_quests@.len() <= 0x7FFF_FFFF,
        w.progress.entity_kill_counts@.len() <= 0x7FFF,
        w.events.partying_npcs@.len() <= 0x7FFF_FFFF,
    ensures
        final(out)@ == old(out)@ + wh2_bytes(*w, *ex),
{
    put_u32(out, #[verifier::truncate] (ex.forest_style2_raw as u32));
    put_u32(out, #[verifier::truncate] (ex.forest_style3_raw as u32));
    put_u32(out, w.style.cave_bg_x[0]);
    put_u32(out, w.style.cave_bg_x[1]);
    put_u32(out, w.style.cave_bg_x[2]);
    put_u32(out, #[verifier::truncate] (ex.cave_style0_raw as u32));
    put_u32(out, #[verifier::truncate] (ex.cave_style1_raw as u32));
    put_u32(out, #[verifier::truncate] (ex.cave_style2_raw as u32));
    put_u32(out, #[verifier::truncate] (ex.cave_style3_raw as u32));
    put_u32(out, #[verifier::truncate] (ex.snow_style_raw as u32));
    assert(final(out)@ =~= old(out)@ + wh2_bytes(*w, *ex));
}

/// Append part 3 of the world-header bytes.
#[verifier::rlimit(100)]
fn put_wh3(out: &mut Vec<u8>, w: &World, ex: &HeaderExtras)
    requires
        crate::world_types::style_wf(w.style),
        w.angler.completed_quests@.len() <= 0x7FFF_FFFF,
        w.progress.entity_kill_counts@.len() <= 0x7FFF,
        w.events.partying_npcs@.len() <= 0x7FFF_FFFF,
    ensures
        final(out)@ == old(out)@ + wh3_bytes(*w, *ex),
{
    put_u32(out, #[verifier::truncate] (ex.jungle_style_raw as u32));
    put_u32(out, #[verifier::truncate] (ex.under_style_raw as u32));
    put_u32(out, #[verifier::truncate] (ex.spawn_x_raw as u32));
    put_u32(out, #[verifier::truncate] (ex.spawn_y_raw as u32));
    put_u64(out, ex.surface_bits);
    put_u64(out, ex.rock_bits);
    put_u64(out, ex.time_bits);
    put_u8(out, ex.is_day_raw);
    put_u32(out, #[verifier::truncate] (ex.moon_phase_raw as u32));
    put_u8(out, ex.blood_raw);
    put_u8(out, ex.eclipse_raw);
    assert(final(out)@ =~= old(out)@ + wh3_bytes(*w, *ex));
}

/// Append part 4 of the world-header bytes.
#[verifier::rlimit(100)]
fn put_wh4(out: &mut Vec<u8>, w: &World, ex: &HeaderExtras)
    requires
        crate::world_types::style_wf(w.style),
        w.angler.completed_quests@.len() <= 0x7FFF_FFFF,
        w.progress.entity_kill_counts@.len() <= 0x7FFF,
        w.events.partying_npcs@.len() <= 0x7FFF_FFFF,
    ensures
        final(out)@ == old(out)@ + wh4_bytes(*w, *ex),
{
    put_u32(out, #[verifier::truncate] (ex.dungeon_x_raw as u32));
    put_u32(out, #[verifier::truncate] (ex.dungeon_y_raw as u32));
    put_u8(out, ex.corruption_raw);
    put_u8(out, ex.eye_raw);
    put_u8(out, ex.eater_raw);
    put_u8(out, ex.skeletron_raw);
    put_u8(out, ex.queen_bee_raw);
    put_u8(out, ex.destroyer_raw);
    put_u8(out, ex.twins_raw);
    put_u8(out, ex.prime_raw);
    put_u8(out, ex.any_mech_raw);
    put_u8(out, ex.plantera_raw);
    put_u8(out, ex.golem_raw);
    put_u8(out, ex.king_slime_raw);
    put_u8(out, ex.goblin_raw);
    put_u8(out, ex.wizard_raw);
    put_u8(out, ex.mechanic_raw);
    put_u8(out, ex.goblin_army_raw);
    put_u8(out, ex.clown_raw);
    put_u8(out, ex.frost_raw);
    put_u8(out, ex.pirates_raw);
    put_u8(out, ex.legacy_orb_raw);
    put_u8(out, ex.meteor_raw);
    put_u8(out, ex.orbs_raw);
    put_u32(out, w.progress.altars_broken);
    put_u8(out, ex.hardmode_raw);
    put_u32(out, #[verifier::truncate] (w.events.invasion_delay as u32));
    put_u32(out, #[verifier::truncate] (w.events.invasion_size as u32));
    put_u32(out, #[verifier::truncate] (ex.invasion_type_raw as u32));
    put_u64(out, ex.invasion_x_bits);
    put_u64(out, ex.slime_bits);
    assert(final(out)@ =~= old(out)@ + wh4_bytes(*w, *ex));
}

/// Append part 5 of the world-header bytes.
#[verifier::rlimit(100)]
fn put_wh5(out: &mut Vec<u8>, w: &World, ex: &HeaderExtras)
    requires
        crate::world_types::style_wf(w.style),
        w.angler.completed_quests@.len() <= 0x7FFF_FFFF,
        w.progress.entity_kill_counts@.len() <= 0x7FFF,
        w.events.partying_npcs@.len() <= 0x7FFF_FFFF,
    ensures
        final(out)@ == old(out)@ + wh5_bytes(*w, *ex),
{
    put_u8(out, w.time.sundial_cooldown);
    put_u8(out, ex.raining_raw);
    put_u32(out, w.weather.rain_time);
    put_u32(out, w.weather.rain_amount_bits);
    put_u32(out, #[verifier::truncate] (ex.cobalt_raw as u32));
    put_u32(out, #[verifier::truncate] (ex.mythril_raw as u32));
    put_u32(out, #[verifier::truncate] (ex.adamantite_raw as u32));
    put_u8(out, w.style.forest_bg[0]);
    put_u8(out, w.style.corruption_bg);
    put_u8(out, w.style.jungle_bg);
    put_u8(out, w.style.snow_bg);
    put_u8(out, w.style.hallow_bg);
    put_u8(out, w.style.crimson_bg);
    put_u8(out, w.style.desert_bg);
    put_u8(out, w.style.ocean_bg);
    put_u32(out, #[verifier::truncate] (w.weather.active_cloud_bg as u32));
    put_u16(out, w.weather.num_clouds);
    put_u32(out, w.weather.wind_speed_bits);
    assert(final(out)@ =~= old(out)@ + wh5_bytes(*w, *ex));
}

/// Append part 6 of the world-header bytes.
#[verifier::rlimit(100)]
fn put_wh6(out: &mut Vec<u8>, w: &World, ex: &HeaderExtras)
    requires
        crate::world_types::style_wf(w.style),
        w.angler.completed_quests@.len() <= 0x7FFF_FFFF,
        w.progress.entity_kill_counts@.len() <= 0x7FFF,
        w.events.partying_npcs@.len() <= 0x7FFF_FFFF,
    ensures
        final(out)@ == old(out)@ + wh6_bytes(*w, *ex),
{
    put_u32(out, w.angler.completed_quests.len() as u32);
    put_varstrs(out, &w.angler.completed_quests);
    put_u8(out, ex.angler_raw);
    put_u32(out, #[verifier::truncate] (ex.angler_quest_raw as u32));
    put_u8(out, ex.stylist_raw);
    put_u8(out, ex.tax_raw);
    put_u8(out, ex.golfer_raw);
    put_u32(out, #[verifier::truncate] (w.events.invasion_start_size as u32));
    put_u32(out, #[verifier::truncate] (w.events.cultist_remaining_time as u32));
    put_u16(out, w.progress.entity_kill_counts.len() as u16);
    put_u32s_plain(out, &w.progress.entity_kill_counts);
    put_u8(out, ex.fast_raw);
    put_u8(out, ex.fishron_raw);
    put_u8(out, ex.martians_raw);
    put_u8(out, ex.cultist_boss_raw);
    put_u8(out, ex.moon_lord_raw);
    put_u8(out, ex.pumpking_raw);
    put_u8(out, ex.mourning_raw);
    put_u8(out, ex.ice_queen_raw);
    put_u8(out, ex.santank_raw);
    put_u8(out, ex.everscream_raw);
    put_u8(out, ex.solar_raw);
    put_u8(out, ex.vortex_raw);
    put_u8(out, ex.nebula_raw);
    put_u8(out, ex.stardust_raw);
    put_u8(out, ex.solar_alive_raw);
    put_u8(out, ex.vortex_alive_raw);
    put_u8(out, ex.nebula_alive_raw);
    put_u8(out, ex.stardust_alive_raw);
    put_u8(out, ex.doom_raw);
    put_u8(out, ex.party_manual_raw);
    put_u8(out, ex.party_genuine_raw);
    assert(final(out)@ =~= old(out)@ + wh6_bytes(*w, *ex));
}

/// Append part 7 of the world-header bytes.
#[verifier::rlimit(100)]
fn put_wh7(out: &mut Vec<u8>, w: &World, ex: &HeaderExtras)
    requires
        crate::world_types::style_wf(w.style),
        w.angler.completed_quests@.len() <= 0x7FFF_FFFF,
        w.progress.entity_kill_counts@.len() <= 0x7FFF,
        w.events.partying_npcs@.len() <= 0x7FFF_FFFF,
    ensures
        final(out)@ == old(out)@ + wh7_bytes(*w, *ex),
{
    put_u32(out, #[verifier::truncate] (ex.party_cooldown_raw as u32));
    put_u32(out, w.events.partying_npcs.len() as u32);
    put_u32s_plain(out, &w.events.partying_npcs);
    put_u8(out, ex.sandstorm_raw);
    put_u32(out, #[verifier::truncate] (w.weather.sandstorm_remaining_time as u32));
    put_u32(out, w.weather.sandstorm_severity_bits);
    put_u32(out, w.weather.sandstorm_intended_severity_bits);
    put_u8(out, ex.bartender_raw);
    put_u8(out, ex.tier1_raw);
    put_u8(out, ex.tier2_raw);
    put_u8(out, ex.tier3_raw);
    put_u8(out, w.style.mushroom_bg);
    put_u8(out, w.style.underworld_bg);
    put_u8(out, w.style.forest_bg[1]);
    put_u8(out, w.style.forest_bg[2]);
    put_u8(out, w.style.forest_bg[3]);
    put_u8(out, ex.combat_book_raw);
    put_u32(out, #[verifier::truncate] (ex.lantern_cd_raw as u32));
    put_u8(out, ex.lantern_genuine_raw);
    put_u8(out, ex.lantern_manual_raw);
    put_u8(out, ex.lantern_queued_raw);
    assert(final(out)@ =~= old(out)@ + wh7_bytes(*w, *ex));
}

/// Append part 8 of the world-header bytes.
#[verifier::rlimit(100)]
fn put_wh8(out: &mut Vec<u8>, w: &World, ex: &HeaderExtras)
    requires
        crate::world_types::style_wf(w.style),
        w.angler.completed_quests@.len() <= 0x7FFF_FFFF,
        w.progress.entity_kill_counts@.len() <= 0x7FFF,
        w.events.partying_npcs@.len() <= 0x7FFF_FFFF,
    ensures
        final(out)@ == old(out)@ + wh8_bytes(*w, *ex),
{
    put_u32(out, #[verifier::truncate] (ex.treetop_count_raw as u32));
    put_i32s_plain(out, &ex.tree_raws);
    put_u8(out, ex.halloween_raw);
    put_u8(out, ex.christmas_raw);
    put_u32(out, #[verifier::truncate] (ex.copper_raw as u32));
    put_u32(out, #[verifier::truncate] (ex.iron_raw as u32));
    put_u32(out, #[verifier::truncate] (ex.silver_raw as u32));
    put_u32(out, #[verifier::truncate] (ex.gold_raw as u32));
    put_u8(out, ex.cat_raw);
    put_u8(out, ex.dog_raw);
    put_u8(out, ex.bunny_raw);
    put_u8(out, ex.empress_raw);
    put_u8(out, ex.queen_slime_raw);
    assert(final(out)@ =~= old(out)@ + wh8_bytes(*w, *ex));
}

/// Append the whole world header.
pub fn put_world_header(out: &mut Vec<u8>, w: &World, ex: &HeaderExtras)
    requires
        crate::world_types::style_wf(w.style),
        w.angler.completed_quests@.len() <= 0x7FFF_FFFF,
        w.progress.entity_kill_counts@.len() <= 0x7FFF,
        w.events.partying_npcs@.len() <= 0x7FFF_FFFF,
    ensures
        final(out)@ == old(out)@ + world_header_bytes(*w, *ex),
{
    put_wh0(out, w, ex);
    put_wh1(out, w, ex);
    put_wh2(out, w, ex);
    put_wh3(out, w, ex);
    put_wh4(out, w, ex);
    put_wh5(out, w, ex);
    put_wh6(out, w, ex);
    put_wh7(out, w, ex);
    put_wh8(out, w, ex);
    proof {
        let o = old(out)@;
        vstd::seq_lib::lemma_concat_associative(o, wh0_bytes(*w, *ex), wh1_bytes(*w, *ex));
        vstd::seq_lib::lemma_concat_associative(o, wh0_bytes(*w, *ex) + wh1_bytes(*w, *ex), wh2_bytes(*w, *ex));
        vstd::seq_lib::lemma_concat_associative(o, wh0_bytes(*w, *ex) + wh1_bytes(*w, *ex) + wh2_bytes(*w, *ex), wh3_bytes(*w, *ex));
        vstd::seq_lib::lemma_concat_associative(o, wh0_bytes(*w, *ex) + wh1_bytes(*w, *ex) + wh2_bytes(*w, *ex) + wh3_bytes(*w, *ex), wh4_bytes(*w, *ex));
        vstd::seq_lib::lemma_concat_associative(o, wh0_bytes(*w, *ex) + wh1_bytes(*w, *ex) + wh2_bytes(*w, *ex) + wh3_bytes(*w, *ex) + wh4_bytes(*w, *ex), wh5_bytes(*w, *ex));
        vstd::seq_lib::lemma_concat_associative(o, wh0_bytes(*w, *ex) + wh1_bytes(*w, *ex) + wh2_bytes(*w, *ex) + wh3_bytes(*w, *ex) + wh4_bytes(*w, *ex) + wh5_bytes(*w, *ex), wh6_bytes(*w, *ex));
        vstd::seq_lib::lemma_concat_associative(o, wh0_bytes(*w, *ex) + wh1_bytes(*w, *ex) + wh2_bytes(*w, *ex) + wh3_bytes(*w, *ex) + wh4_bytes(*w, *ex) + wh5_bytes(*w, *ex) + wh6_bytes(*w, *ex), wh7_bytes(*w, *ex));
        vstd::seq_lib::lemma_concat_associative(o, wh0_bytes(*w, *ex) + wh1_bytes(*w, *ex) + wh2_bytes(*w, *ex) + wh3_bytes(*w, *ex) + wh4_bytes(*w, *ex) + wh5_bytes(*w, *ex) + wh6_bytes(*w, *ex) + wh7_bytes(*w, *ex), wh8_bytes(*w, *ex));
    }
}

/// Read the world header, collecting the raw values of narrowed fields.
#[verifier::rlimit(100)]
#[verifier::spinoff_prover]
fn read_world_header(inp: &[u8], pos: &mut usize, w: &mut World, ex: &mut HeaderExtras) -> (r:
    Result<(), WorldError>)
    ensures
        r is Ok ==> crate::world_types::style_wf(final(w).style) && header_consistent(
            *final(w),
            *final(ex),
        ),
{
    w.name = need_string(inp, pos)?;
    ex.seed_text = need_string(inp, pos)?;
    w.gen_data.seed = seed_hash(ex.seed_text.as_str());
    ex.gen_version = need_u64(inp, pos)?;
    w.uuid = need_u128(inp, pos)?;
    w.id = {
        let v = need_u32(inp, pos)?;
        #[verifier::truncate] (v as i32)
    };
    w.dimensions.left = need_u32(inp, pos)?;
    w.dimensions.right = need_u32(inp, pos)?;
    w.dimensions.top = need_u32(inp, pos)?;
    w.dimensions.bottom = need_u32(inp, pos)?;
    w.dimensions.tile_height = need_u32(inp, pos)?;
    w.dimensions.tile_width = need_u32(inp, pos)?;
    ex.worldmode_raw = {
        let v = need_u32(inp, pos)?;
        #[verifier::truncate] (v as i32)
    };
    w.worldmode = WorldMode::from_i32(ex.worldmode_raw);
    ex.drunk_seed = need_u8(inp, pos)?;
    ex.worthy_seed = need_u8(inp, pos)?;
    ex.creation_time = need_u64(inp, pos)?;
    w.style.moon_style = need_u8(inp, pos)?;
    let forest_bg_x_0 = need_u32(inp, pos)?;
    let forest_bg_x_1 = need_u32(inp, pos)?;
    let forest_bg_x_2 = need_u32(inp, pos)?;
    ex.forest_style0_raw = {
        let v = need_u32(inp, pos)?;
        #[verifier::truncate] (v as i32)
    };
    let forest_bg_style_0: u8 = #[verifier::truncate] (ex.forest_style0_raw as u8);
    ex.forest_style1_raw = {
        let v = need_u32(inp, pos)?;
        #[verifier::truncate] (v as i32)
    };
    let forest_bg_style_1: u8 = #[verifier::truncate] (ex.forest_style1_raw as u8);
    ex.forest_style2_raw = {
        let v = need_u32(inp, pos)?;
        #[verifier::truncate] (v as i32)
    };
    let forest_bg_style_2: u8 = #[verifier::truncate] (ex.forest_style2_raw as u8);
    ex.forest_style3_raw = {
        let v = need_u32(inp, pos)?;
        #[verifier::truncate] (v as i32)
    };
    let forest_bg_style_3: u8 = #[verifier::truncate] (ex.forest_style3_raw as u8);
    let cave_bg_x_0 = need_u32(inp, pos)?;
    let cave_bg_x_1 = need_u32(inp, pos)?;
    let cave_bg_x_2 = need_u32(inp, pos)?;
    ex.cave_style0_raw = {
        let v = need_u32(inp, pos)?;
        #[verifier::truncate] (v as i32)
    };
    let cave_bg_style_0: u8 = #[verifier::truncate] (ex.cave_style0_raw as u8);
    ex.cave_style1_raw = {
        let v = need_u32(inp, pos)?;
        #[verifier::truncate] (v as i32)
    };
    let cave_bg_style_1: u8 = #[verifier::truncate] (ex.cave_style1_raw as u8);
    ex.cave_style2_raw = {
        let v = need_u32(inp, pos)?;
        #[verifier::truncate] (v as i32)
    };
    let cave_bg_style_2: u8 = #[verifier::truncate] (ex.cave_style2_raw as u8);
    ex.cave_style3_raw = {
        let v = need_u32(inp, pos)?;
        #[verifier::truncate] (v as i32)
    };
    let cave_bg_style_3: u8 = #[verifier::truncate] (ex.cave_style3_raw as u8);
    ex.snow_style_raw = {
        let v = need_u32(inp, pos)?;
        #[verifier::truncate] (v as i32)
    };
    w.style.snow_bg_style = #[verifier::truncate] (ex.snow_style_raw as u8);
    ex.jungle_style_raw = {
        let v = need_u32(inp, pos)?;
        #[verifier::truncate] (v as i32)
    };
    w.style.jungle_bg_style = #[verifier::truncate] (ex.jungle_style_raw as u8);
    ex.under_style_raw = {
        let v = need_u32(inp, pos)?;
        #[verifier::truncate] (v as i32)
    };
    w.style.underworld_bg_style = #[verifier::truncate] (ex.under_style_raw as u8);
    ex.spawn_x_raw = {
        let v = need_u32(inp, pos)?;
        #[verifier::truncate] (v as i32)
    };
    w.spawn_coord.x = #[verifier::truncate] (ex.spawn_x_raw as u16);
    ex.spawn_y_raw = {
        let v = need_u32(inp, pos)?;
        #[verifier::truncate] (v as i32)
    };
    w.spawn_coord.y = #[verifier::truncate] (ex.spawn_y_raw as u16);
    ex.surface_bits = need_u64(inp, pos)?;
    w.gen_data.surface_y = f64_trunc_u32(ex.surface_bits);
    ex.rock_bits = need_u64(inp, pos)?;
    w.gen_data.rock_layer_y = f64_trunc_u32(ex.rock_bits);
    ex.time_bits = need_u64(inp, pos)?;
    w.time.time = f64_trunc_u32(ex.time_bits);
    ex.is_day_raw = need_u8(inp, pos)?;
    w.time.is_day = ex.is_day_raw != 0;
    ex.moon_phase_raw = {
        let v = need_u32(inp, pos)?;
        #[verifier::truncate] (v as i32)
    };
    w.time.moon_phase = #[verifier::truncate] (ex.moon_phase_raw as u8);
    ex.blood_raw = need_u8(inp, pos)?;
    w.events.is_blood_moon_happening = ex.blood_raw != 0;
    ex.eclipse_raw = need_u8(inp, pos)?;
    w.events.is_eclipse_happening = ex.eclipse_raw != 0;
    ex.dungeon_x_raw = {
        let v = need_u32(inp, pos)?;
        #[verifier::truncate] (v as i32)
    };
    w.dungeon_coord.x = #[verifier::truncate] (ex.dungeon_x_raw as u16);
    ex.dungeon_y_raw = {
        let v = need_u32(inp, pos)?;
        #[verifier::truncate] (v as i32)
    };
    w.dungeon_coord.y = #[verifier::truncate] (ex.dungeon_y_raw as u16);
    ex.corruption_raw = need_u8(inp, pos)?;
    w.gen_data.corruption_type = if ex.corruption_raw == 0 {
        CorruptionType::Corruption
    } else {
        CorruptionType::Crimson
    };
    ex.eye_raw = need_u8(inp, pos)?;
    w.progress.defeated_eye_of_cthulu = ex.eye_raw != 0;
    ex.eater_raw = need_u8(inp, pos)?;
    w.progress.defeated_eater_or_brain = ex.eater_raw != 0;
    ex.skeletron_raw = need_u8(inp, pos)?;
    w.progress.defeated_skeletron = ex.skeletron_raw != 0;
    ex.queen_bee_raw = need_u8(inp, pos)?;
    w.progress.defeated_queen_bee = ex.queen_bee_raw != 0;
    ex.destroyer_raw = need_u8(inp, pos)?;
    w.progress.defeated_destroyer = ex.destroyer_raw != 0;
    ex.twins_raw = need_u8(inp, pos)?;
    w.progress.defeated_twins = ex.twins_raw != 0;
    ex.prime_raw = need_u8(inp, pos)?;
    w.progress.defeated_skeletron_prime = ex.prime_raw != 0;
    ex.any_mech_raw = need_u8(inp, pos)?;
    ex.plantera_raw = need_u8(inp, pos)?;
    w.progress.defeated_plantera = ex.plantera_raw != 0;
    ex.golem_raw = need_u8(inp, pos)?;
    w.progress.defeated_golem = ex.golem_raw != 0;
    ex.king_slime_raw = need_u8(inp, pos)?;
    w.progress.defeated_king_slime = ex.king_slime_raw != 0;
    ex.goblin_raw = need_u8(inp, pos)?;
    w.progress.saved_goblin = ex.goblin_raw != 0;
    ex.wizard_raw = need_u8(inp, pos)?;
    w.progress.saved_wizard = ex.wizard_raw != 0;
    ex.mechanic_raw = need_u8(inp, pos)?;
    w.progress.saved_mechanic = ex.mechanic_raw != 0;
    ex.goblin_army_raw = need_u8(inp, pos)?;
    w.progress.defeated_goblin_army = ex.goblin_army_raw != 0;
    ex.clown_raw = need_u8(inp, pos)?;
    w.progress.defeated_clown = ex.clown_raw != 0;
    ex.frost_raw = need_u8(inp, pos)?;
    w.progress.defeated_frost_legion = ex.frost_raw != 0;
    ex.pirates_raw = need_u8(inp, pos)?;
    w.progress.defeated_pirates = ex.pirates_raw != 0;
    ex.legacy_orb_raw = need_u8(inp, pos)?;
    ex.meteor_raw = need_u8(inp, pos)?;
    w.events.is_meteor_queued = ex.meteor_raw != 0;
    ex.orbs_raw = need_u8(inp, pos)?;
    w.progress.shadow_orbs_broken = promote_shadow_orbs(ex.legacy_orb_raw != 0, ex.orbs_raw);
    w.progress.altars_broken = need_u32(inp, pos)?;
    ex.hardmode_raw = need_u8(inp, pos)?;
    w.progress.is_hardmode = ex.hardmode_raw != 0;
    w.events.invasion_delay = {
        let v = need_u32(inp, pos)?;
        #[verifier::truncate] (v as i32)
    };
    w.events.invasion_size = {
        let v = need_u32(inp, pos)?;
        #[verifier::truncate] (v as i32)
    };
    ex.invasion_type_raw = {
        let v = need_u32(inp, pos)?;
        #[verifier::truncate] (v as i32)
    };
    w.events.invasion_type = #[verifier::truncate] (ex.invasion_type_raw as u8);
    ex.invasion_x_bits = need_u64(inp, pos)?;
    w.events.invasion_x = f64_trunc_u32(ex.invasion_x_bits);
    ex.slime_bits = need_u64(inp, pos)?;
    w.events.slime_rain_remaining_time = f64_trunc_i32(ex.slime_bits);
    w.time.sundial_cooldown = need_u8(inp, pos)?;
    ex.raining_raw = need_u8(inp, pos)?;
    w.weather.is_raining = ex.raining_raw != 0;
    w.weather.rain_time = need_u32(inp, pos)?;
    w.weather.rain_amount_bits = need_u32(inp, pos)?;
    ex.cobalt_raw = {
        let v = need_u32(inp, pos)?;
        #[verifier::truncate] (v as i32)
    };
    w.gen_data.cobalt_tier = match CobaltTier::try_from_u16(#[verifier::truncate] (ex.cobalt_raw as u16)) {
        Some(t) => t,
        None => {
            return Err(WorldError::InvalidField);
        },
    };
    ex.mythril_raw = {
        let v = need_u32(inp, pos)?;
        #[verifier::truncate] (v as i32)
    };
    w.gen_data.mythril_tier = match MythrilTier::try_from_u16(#[verifier::truncate] (ex.mythril_raw as u16)) {
        Some(t) => t,
        None => {
            return Err(WorldError::InvalidField);
        },
    };
    ex.adamantite_raw = {
        let v = need_u32(inp, pos)?;
        #[verifier::truncate] (v as i32)
    };
    w.gen_data.adamantite_tier = match AdamantiteTier::try_from_u16(#[verifier::truncate] (ex.adamantite_raw as u16)) {
        Some(t) => t,
        None => {
            return Err(WorldError::InvalidField);
        },
    };
    let forest_bg_0 = need_u8(inp, pos)?;
    w.style.corruption_bg = need_u8(inp, pos)?;
    w.style.jungle_bg = need_u8(inp, pos)?;
    w.style.snow_bg = need_u8(inp, pos)?;
    w.style.hallow_bg = need_u8(inp, pos)?;
    w.style.crimson_bg = need_u8(inp, pos)?;
    w.style.desert_bg = need_u8(inp, pos)?;
    w.style.ocean_bg = need_u8(inp, pos)?;
    w.weather.active_cloud_bg = {
        let v = need_u32(inp, pos)?;
        #[verifier::truncate] (v as i32)
    };
    w.weather.num_clouds = {
        let v = need_i16(inp, pos)?;
        v as u16
    };
    w.weather.wind_speed_bits = need_u32(inp, pos)?;
    let quest_count = {
        let v = need_u32(inp, pos)?;
        #[verifier::truncate] (v as i32)
    };
    if quest_count < 0 || quest_count as u64 > inp.len() as u64 {
        return Err(WorldError::CodecError);
    }
    let mut quests: Vec<String> = Vec::new();
    let mut qi: usize = 0;
    while qi < quest_count as usize
        invariant
            qi <= quest_count as usize,
        decreases quest_count as usize - qi,
    {
        let q = need_string(inp, pos)?;
        quests.push(q);
        qi = qi + 1;
    }
    w.angler.completed_quests = quests;
    ex.angler_raw = need_u8(inp, pos)?;
    w.progress.saved_angler = ex.angler_raw != 0;
    ex.angler_quest_raw = {
        let v = need_u32(inp, pos)?;
        #[verifier::truncate] (v as i32)
    };
    w.angler.quest = #[verifier::truncate] (ex.angler_quest_raw as u8);
    ex.stylist_raw = need_u8(inp, pos)?;
    w.progress.saved_stylist = ex.stylist_raw != 0;
    ex.tax_raw = need_u8(inp, pos)?;
    w.progress.saved_tax_collector = ex.tax_raw != 0;
    ex.golfer_raw = need_u8(inp, pos)?;
    w.progress.saved_golfer = ex.golfer_raw != 0;
    w.events.invasion_start_size = {
        let v = need_u32(inp, pos)?;
        #[verifier::truncate] (v as i32)
    };
    w.events.cultist_remaining_time = {
        let v = need_u32(inp, pos)?;
        #[verifier::truncate] (v as i32)
    };
    let kill_count = need_i16(inp, pos)?;
    if kill_count < 0 {
        return Err(WorldError::CodecError);
    }
    let mut kills: Vec<u32> = Vec::new();
    let mut ki: usize = 0;
    while ki < kill_count as usize
        invariant
            ki <= kill_count as usize,
        decreases kill_count as usize - ki,
    {
        let v = need_u32(inp, pos)?;
        kills.push(v);
        ki = ki + 1;
    }
    w.progress.entity_kill_counts = kills;
    ex.fast_raw = need_u8(inp, pos)?;
    w.time.is_fast_forwarding = ex.fast_raw != 0;
    ex.fishron_raw = need_u8(inp, pos)?;
    w.progress.defeated_duke_fishron = ex.fishron_raw != 0;
    ex.martians_raw = need_u8(inp, pos)?;
    w.progress.defeated_martians = ex.martians_raw != 0;
    ex.cultist_boss_raw = need_u8(inp, pos)?;
    w.progress.defeated_lunatic_cultist = ex.cultist_boss_raw != 0;
    ex.moon_lord_raw = need_u8(inp, pos)?;
    w.progress.defeated_moon_lord = ex.moon_lord_raw != 0;
    ex.pumpking_raw = need_u8(inp, pos)?;
    w.progress.defeated_pumpking = ex.pumpking_raw != 0;
    ex.mourning_raw = need_u8(inp, pos)?;
    w.progress.defeated_mourning_wood = ex.mourning_raw != 0;
    ex.ice_queen_raw = need_u8(inp, pos)?;
    w.progress.defeated_ice_queen = ex.ice_queen_raw != 0;
    ex.santank_raw = need_u8(inp, pos)?;
    w.progress.defeated_santa_nk1 = ex.santank_raw != 0;
    ex.everscream_raw = need_u8(inp, pos)?;
    w.progress.defeated_everscream = ex.everscream_raw != 0;
    ex.solar_raw = need_u8(inp, pos)?;
    w.progress.defeated_solar_pillar = ex.solar_raw != 0;
    ex.vortex_raw = need_u8(inp, pos)?;
    w.progress.defeated_vortex_pillar = ex.vortex_raw != 0;
    ex.nebula_raw = need_u8(inp, pos)?;
    w.progress.defeated_nebula_pillar = ex.nebula_raw != 0;
    ex.stardust_raw = need_u8(inp, pos)?;
    w.progress.defeated_stardust_pillar = ex.stardust_raw != 0;
    ex.solar_alive_raw = need_u8(inp, pos)?;
    w.events.is_solar_pillar_alive = ex.solar_alive_raw != 0;
    ex.vortex_alive_raw = need_u8(inp, pos)?;
    w.events.is_vortex_pillar_alive = ex.vortex_alive_raw != 0;
    ex.nebula_alive_raw = need_u8(inp, pos)?;
    w.events.is_nebula_pillar_alive = ex.nebula_alive_raw != 0;
    ex.stardust_alive_raw = need_u8(inp, pos)?;
    w.events.is_stardust_pillar_alive = ex.stardust_alive_raw != 0;
    ex.doom_raw = need_u8(inp, pos)?;
    w.events.is_impending_doom_approaching = ex.doom_raw != 0;
    ex.party_manual_raw = need_u8(inp, pos)?;
    w.events.is_party_manual = ex.party_manual_raw != 0;
    ex.party_genuine_raw = need_u8(inp, pos)?;
    w.events.is_party_genuine = ex.party_genuine_raw != 0;
    ex.party_cooldown_raw = {
        let v = need_u32(inp, pos)?;
        #[verifier::truncate] (v as i32)
    };
    w.events.party_cooldown = #[verifier::truncate] (ex.party_cooldown_raw as u8);
    let npc_count = {
        let v = need_u32(inp, pos)?;
        #[verifier::truncate] (v as i32)
    };
    if npc_count < 0 || npc_count as u64 > inp.len() as u64 {
        return Err(WorldError::CodecError);
    }
    let mut npcs: Vec<u32> = Vec::new();
    let mut ni: usize = 0;
    while ni < npc_count as usize
        invariant
            ni <= npc_count as usize,
        decreases npc_count as usize - ni,
    {
        let v = need_u32(inp, pos)?;
        npcs.push(v);
        ni = ni + 1;
    }
    w.events.partying_npcs = npcs;
    ex.sandstorm_raw = need_u8(inp, pos)?;
    w.weather.is_sandstorm_happening = ex.sandstorm_raw != 0;
    w.weather.sandstorm_remaining_time = {
        let v = need_u32(inp, pos)?;
        #[verifier::truncate] (v as i32)
    };
    w.weather.sandstorm_severity_bits = need_u32(inp, pos)?;
    w.weather.sandstorm_intended_severity_bits = need_u32(inp, pos)?;
    ex.bartender_raw = need_u8(inp, pos)?;
    w.progress.saved_bartender = ex.bartender_raw != 0;
    ex.tier1_raw = need_u8(inp, pos)?;
    w.progress.defeated_old_ones_army_tier_1 = ex.tier1_raw != 0;
    ex.tier2_raw = need_u8(inp, pos)?;
    w.progress.defeated_old_ones_army_tier_2 = ex.tier2_raw != 0;
    ex.tier3_raw = need_u8(inp, pos)?;
    w.progress.defeated_old_ones_army_tier_3 = ex.tier3_raw != 0;
    w.style.mushroom_bg = need_u8(inp, pos)?;
    w.style.underworld_bg = need_u8(inp, pos)?;
    let forest_bg_1 = need_u8(inp, pos)?;
    let forest_bg_2 = need_u8(inp, pos)?;
    let forest_bg_3 = need_u8(inp, pos)?;
    ex.combat_book_raw = need_u8(inp, pos)?;
    w.progress.used_combat_book = ex.combat_book_raw != 0;
    ex.lantern_cd_raw = {
        let v = need_u32(inp, pos)?;
        #[verifier::truncate] (v as i32)
    };
    w.events.lantern_night_cooldown = #[verifier::truncate] (ex.lantern_cd_raw as u8);
    ex.lantern_genuine_raw = need_u8(inp, pos)?;
    ex.lantern_manual_raw = need_u8(inp, pos)?;
    ex.lantern_queued_raw = need_u8(inp, pos)?;
    w.events.is_lantern_night_queued = ex.lantern_queued_raw != 0;
    ex.treetop_count_raw = {
        let v = need_u32(inp, pos)?;
        #[verifier::truncate] (v as i32)
    };
    if ex.treetop_count_raw < 0 || ex.treetop_count_raw > 13 {
        return Err(WorldError::InvalidField);
    }
    let mut raws: Vec<i32> = Vec::new();
    let mut tops: Vec<u8> = Vec::new();
    let mut ti: usize = 0;
    while ti < ex.treetop_count_raw as usize
        invariant
            ex.treetop_count_raw <= 13,
            raws@.len() == ti,
            tops@.len() == ti,
            ti <= ex.treetop_count_raw as usize,
            forall|j: int|
                0 <= j < ti ==> tops@[j] == #[verifier::truncate] ((#[trigger] raws@[j]) as u8),
        decreases ex.treetop_count_raw as usize - ti,
    {
        let v = {
            let u = need_u32(inp, pos)?;
            #[verifier::truncate] (u as i32)
        };
        raws.push(v);
        tops.push(#[verifier::truncate] (v as u8));
        ti = ti + 1;
    }
    ex.tree_raws = raws;
    while ti < 13
        invariant
            tops@.len() == ti,
            ti <= 13,
            ex.tree_raws@.len() == ex.treetop_count_raw,
            0 <= ex.treetop_count_raw <= 13,
            ex.treetop_count_raw <= ti,
            forall|j: int|
                0 <= j < ex.treetop_count_raw ==> tops@[j] == #[verifier::truncate] ((
                #[trigger] ex.tree_raws@[j]) as u8),
            forall|j: int| ex.treetop_count_raw <= j < ti ==> #[trigger] tops@[j] == 0,
        decreases 13 - ti,
    {
        tops.push(0);
        ti = ti + 1;
    }
    w.style.tree_tops = tops;
    ex.halloween_raw = need_u8(inp, pos)?;
    w.events.is_halloween_forced = ex.halloween_raw != 0;
    ex.christmas_raw = need_u8(inp, pos)?;
    w.events.is_christmas_forced = ex.christmas_raw != 0;
    ex.copper_raw = {
        let v = need_u32(inp, pos)?;
        #[verifier::truncate] (v as i32)
    };
    w.gen_data.copper_tier = match CopperTier::try_from_u16(#[verifier::truncate] (ex.copper_raw as u16)) {
        Some(t) => t,
        None => {
            return Err(WorldError::InvalidField);
        },
    };
    ex.iron_raw = {
        let v = need_u32(inp, pos)?;
        #[verifier::truncate] (v as i32)
    };
    w.gen_data.iron_tier = match IronTier::try_from_u16(#[verifier::truncate] (ex.iron_raw as u16)) {
        Some(t) => t,
        None => {
            return Err(WorldError::InvalidField);
        },
    };
    ex.silver_raw = {
        let v = need_u32(inp, pos)?;
        #[verifier::truncate] (v as i32)
    };
    w.gen_data.silver_tier = match SilverTier::try_from_u16(#[verifier::truncate] (ex.silver_raw as u16)) {
        Some(t) => t,
        None => {
            return Err(WorldError::InvalidField);
        },
    };
    ex.gold_raw = {
        let v = need_u32(inp, pos)?;
        #[verifier::truncate] (v as i32)
    };
    w.gen_data.gold_tier = match GoldTier::try_from_u16(#[verifier::truncate] (ex.gold_raw as u16)) {
        Some(t) => t,
        None => {
            return Err(WorldError::InvalidField);
        },
    };
    ex.cat_raw = need_u8(inp, pos)?;
    w.progress.purchased_cat = ex.cat_raw != 0;
    ex.dog_raw = need_u8(inp, pos)?;
    w.progress.purchased_dog = ex.dog_raw != 0;
    ex.bunny_raw = need_u8(inp, pos)?;
    w.progress.purchased_bunny = ex.bunny_raw != 0;
    ex.empress_raw = need_u8(inp, pos)?;
    w.progress.defeated_empress_of_light = ex.empress_raw != 0;
    ex.queen_slime_raw = need_u8(inp, pos)?;
    w.progress.defeated_queen_slime = ex.queen_slime_raw != 0;

    w.style.forest_bg_x = vec![forest_bg_x_0, forest_bg_x_1, forest_bg_x_2];
    w.style.forest_bg_style = vec![
        forest_bg_style_0,
        forest_bg_style_1,
        forest_bg_style_2,
        forest_bg_style_3,
    ];
    w.style.cave_bg_x = vec![cave_bg_x_0, cave_bg_x_1, cave_bg_x_2];
    w.style.cave_bg_style = vec![cave_bg_style_0, cave_bg_style_1, cave_bg_style_2, cave_bg_style_3];
    w.style.forest_bg = vec![forest_bg_0, forest_bg_1, forest_bg_2, forest_bg_3];

    Ok(())
}

/// Read the chest list.
fn read_chests(inp: &[u8], pos: &mut usize) -> (r: Result<Vec<Chest>, WorldError>) {
    let chest_count = need_i16(inp, pos)?;
    let item_count = need_i16(inp, pos)?;
    if chest_count < 0 || item_count < 0 {
        return Err(WorldError::CodecError);
    }
    let mut chests: Vec<Chest> = Vec::new();
    let mut c: usize = 0;
    while c < chest_count as usize
        invariant
            c <= chest_count as usize,
        decreases chest_count as usize - c,
    {
        let x = need_i32(inp, pos)? as u32;
        let y = need_i32(inp, pos)? as u32;
        let name = need_string(inp, pos)?;
        let mut items: Vec<ItemStack> = Vec::new();
        let mut s: usize = 0;
        while s < item_count as usize
            invariant
                s <= item_count as usize,
            decreases item_count as usize - s,
        {
            let stack = need_i16(inp, pos)? as u16;
            if stack > 0 {
                let id = #[verifier::truncate] (need_i32(inp, pos)? as u16);
                let prefix = need_u8(inp, pos)?;
                items.push(ItemStack { stack, id, prefix });
            } else {
                items.push(ItemStack { stack: 0, id: 0, prefix: 0 });
            }
            s = s + 1;
        }
        chests.push(Chest { name, x, y, items });
        c = c + 1;
    }
    Ok(chests)
}

/// Read the sign list.
fn read_signs(inp: &[u8], pos: &mut usize) -> (r: Result<Vec<Sign>, WorldError>) {
    let sign_count = need_i16(inp, pos)?;
    if sign_count < 0 {
        return Err(WorldError::CodecError);
    }
    let mut signs: Vec<Sign> = Vec::new();
    let mut s: usize = 0;
    while s < sign_count as usize
        invariant
            s <= sign_count as usize,
        decreases sign_count as usize - s,
    {
        let text = need_string(inp, pos)?;
        let x = need_i32(inp, pos)? as u32;
        let y = need_i32(inp, pos)? as u32;
        signs.push(Sign { x, y, text });
        s = s + 1;
    }
    Ok(signs)
}

/// Read a vanilla world file: the world, its tile grid, chests and signs.
/// Only version 230 files are accepted; a world whose style tables,
/// shadow-orb counter or key coordinates lie outside their domains is
/// rejected.
pub fn read_full(inp: &[u8]) -> (r: Result<(World, Vec<Tile>, Vec<Chest>, Vec<Sign>), WorldError>)
    ensures
        r matches Ok(out) ==> world_wf(out.0) && out.1@.len() == out.0.dimensions.tile_width
            * out.0.dimensions.tile_height,
        r matches Ok(out) ==> (exists|fi: Seq<bool>, fp: int, cnt: nat, tp: int|
            {
                &&& 0 <= fp
                &&& fp + (cnt + 7) / 8 <= inp@.len()
                &&& fi == fi_unpack(
                    #[trigger] inp@.subrange(fp, fp + ((cnt + 7) / 8) as int),
                    cnt,
                )
                &&& (#[trigger] crate::tilecodec::grid_at(
                    inp@,
                    tp,
                    out.0.dimensions.tile_width as nat,
                    out.0.dimensions.tile_height as nat,
                    fi,
                )) matches Some(gp) && gp.0 == out.1@
            }),
        r matches Ok(out) ==> (exists|ex: HeaderExtras, hs: int|
            {
                &&& 0 <= hs
                &&& hs + world_header_bytes(out.0, ex).len() <= inp@.len()
                &&& #[trigger] inp@.subrange(hs, hs + world_header_bytes(out.0, ex).len())
                    == world_header_bytes(out.0, ex)
                &&& header_consistent(out.0, ex)
            }),
        inp@.len() >= 4 && inp@.subrange(0, 4) != vstd::bytes::spec_u32_to_le_bytes(230) ==> r
            == Err::<(World, Vec<Tile>, Vec<Chest>, Vec<Sign>), WorldError>(
            WorldError::VersionMismatch,
        ),
        inp@.len() < 4 ==> r == Err::<(World, Vec<Tile>, Vec<Chest>, Vec<Sign>), WorldError>(
            WorldError::CodecError,
        ),
{
    let mut pos: usize = 0;
    let (fi, fi_ghost) = match read_file_format_header(inp, &mut pos) {
        Ok(parts) => parts,
        Err(e) => {
            return Err(e);
        },
    };
    let mut w = World::empty();
    let mut ex = HeaderExtras::empty();
    let hstart: usize = pos;
    match read_world_header(inp, &mut pos, &mut w, &mut ex) {
        Ok(()) => (),
        Err(e) => {
            return Err(e);
        },
    }
    if w.angler.completed_quests.len() > 0x7FFF_FFFFusize
        || w.progress.entity_kill_counts.len() > 0x7FFFusize
        || w.events.partying_npcs.len() > 0x7FFF_FFFFusize {
        return Err(WorldError::CodecError);
    }
    let mut hdr: Vec<u8> = Vec::new();
    put_world_header(&mut hdr, &w, &ex);
    if !bytes_eq_at(hdr.as_slice(), inp, hstart) {
        return Err(WorldError::CodecError);
    }
    if !World::is_wf(&w) {
        return Err(WorldError::InvalidField);
    }
    let ghost tile_pos = pos as int;
    let tiles = match decode_tiles(
        inp,
        &mut pos,
        w.dimensions.tile_width,
        w.dimensions.tile_height,
        fi.as_slice(),
    ) {
        Some(tiles) => tiles,
        None => {
            return Err(WorldError::CodecError);
        },
    };
    let ghost pos_after_tiles = pos as int;
    proof {
        crate::tilecodec::lemma_grid_at_len(
            inp@,
            tile_pos,
            w.dimensions.tile_width as nat,
            w.dimensions.tile_height as nat,
            fi@,
        );
    }
    let chests = match read_chests(inp, &mut pos) {
        Ok(c) => c,
        Err(e) => {
            return Err(e);
        },
    };
    let signs = match read_signs(inp, &mut pos) {
        Ok(s) => s,
        Err(e) => {
            return Err(e);
        },
    };
    proof {
        assert(inp@.subrange(hstart as int, hstart + world_header_bytes(w, ex).len())
            == world_header_bytes(w, ex));
        assert(header_consistent(w, ex));
        let (fp, cnt) = fi_ghost@;
        let fiseq = fi_unpack(inp@.subrange(fp, fp + ((cnt + 7) / 8) as int), cnt as nat);
        assert(crate::tilecodec::grid_at(
            inp@,
            tile_pos,
            w.dimensions.tile_width as nat,
            w.dimensions.tile_height as nat,
            fiseq,
        ) == Some((tiles@, pos_after_tiles)));
        assert(exists|fi2: Seq<bool>, fp2: int, cnt2: nat, tp2: int|
            {
                &&& 0 <= fp2
                &&& fp2 + (cnt2 + 7) / 8 <= inp@.len()
                &&& fi2 == fi_unpack(
                    #[trigger] inp@.subrange(fp2, fp2 + ((cnt2 + 7) / 8) as int),
                    cnt2,
                )
                &&& (#[trigger] crate::tilecodec::grid_at(
                    inp@,
                    tp2,
                    w.dimensions.tile_width as nat,
                    w.dimensions.tile_height as nat,
                    fi2,
                )) matches Some(gp) && gp.0 == tiles@
            }) by {
            assert({
                &&& 0 <= fp
                &&& fp + ((cnt as nat) + 7) / 8 <= inp@.len()
                &&& fiseq == fi_unpack(
                    inp@.subrange(fp, fp + (((cnt as nat) + 7) / 8) as int),
                    cnt as nat,
                )
                &&& (crate::tilecodec::grid_at(
                    inp@,
                    tile_pos,
                    w.dimensions.tile_width as nat,
                    w.dimensions.tile_height as nat,
                    fiseq,
                )) matches Some(gp) && gp.0 == tiles@
            });
        }
    }
    Ok((w, tiles, chests, signs))
}

/// Read a vanilla world file into its world record alone.
pub fn read(inp: &[u8]) -> (r: Result<World, WorldError>)
    ensures
        r matches Ok(w) ==> world_wf(w),
        r matches Ok(w) ==> (exists|ex: HeaderExtras, hs: int|
            {
                &&& 0 <= hs
                &&& hs + world_header_bytes(w, ex).len() <= inp@.len()
                &&& #[trigger] inp@.subrange(hs, hs + world_header_bytes(w, ex).len())
                    == world_header_bytes(w, ex)
                &&& header_consistent(w, ex)
            }),
        inp@.len() >= 4 && inp@.subrange(0, 4) != vstd::bytes::spec_u32_to_le_bytes(230) ==> r
            == Err::<World, WorldError>(WorldError::VersionMismatch),
        inp@.len() < 4 ==> r == Err::<World, WorldError>(WorldError::CodecError),
{
    match read_full(inp) {
        Ok((w, _tiles, _chests, _signs)) => Ok(w),
        Err(e) => Err(e),
    }
}

} // verus!
