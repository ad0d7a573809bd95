use terrarium::varint::{put_varint, take_varint, put_varstring, take_varstring};
use terrarium::wire::{put_u16, take_u16};
use terrarium::tile::{Tile, Block, Wall, Liquid};
use terrarium::tilecodec::{encode_tiles, decode_tiles, encode_record, decode_record};
use terrarium::packet::{Packet, PacketCodec, PacketError, NetworkText, WorldInfo};
use terrarium::player::{Appearance, Status, Inventory, PlayerError};
use terrarium::world::World;
use terrarium::world_types::{CopperTier, GoldTier};
use terrarium::vanilla::promote_shadow_orbs;
use terrarium::numcast::f64_trunc_u32;
use terrarium::config::Config;
use terrarium::vanilla::{put_world_header, read_full, HeaderExtras};

#[test]
fn varint_round_trip() {
    for v in [0u64, 1, 127, 128, 300, 65535, 1 << 40, u64::MAX] {
        let mut out = Vec::new();
        put_varint(&mut out, v);
        let mut pos = 0usize;
        assert_eq!(take_varint(&out, &mut pos), Some(v));
        assert_eq!(pos, out.len());
    }
    let mut out = Vec::new();
    put_varint(&mut out, 300);
    assert_eq!(out.len(), 2);
    let mut small = Vec::new();
    put_varint(&mut small, 7);
    assert_eq!(small, vec![7]);
}

#[test]
fn empty_varstring_is_one_zero_byte() {
    let mut out = Vec::new();
    put_varstring(&mut out, "");
    assert_eq!(out, vec![0u8]);
    let mut pos = 0usize;
    assert_eq!(take_varstring(&out, &mut pos), Some(String::new()));
}

#[test]
fn varstring_multibyte_round_trip() {
    let mut out = Vec::new();
    put_varstring(&mut out, "Terraria230\u{00e9}");
    let mut pos = 0usize;
    assert_eq!(take_varstring(&out, &mut pos).unwrap(), "Terraria230\u{00e9}");
}

fn water() -> Tile {
    let mut t = Tile::empty();
    t.liquid = Some(Liquid { id: 1, amount: 128 });
    t
}

#[test]
fn tile_grid_round_trip() {
    let mut tiles = vec![water()];
    for _ in 0..3 {
        tiles.push(Tile::new(Block::new(1)));
    }
    let fi = vec![false, false];
    let bytes = encode_tiles(&tiles, 1, 4, &fi);
    let mut pos = 0usize;
    let back = decode_tiles(&bytes, &mut pos, 1, 4, &fi).unwrap();
    assert_eq!(back, tiles);
    assert_eq!(pos, bytes.len());
}

#[test]
fn tile_grid_wide_tiles_round_trip() {
    let mut t = Tile::new(Block {
        id: 700,
        color: 3,
        frame_width: 18,
        frame_height: 36,
        slope: 2,
        is_inactive: true,
    });
    t.wall = Some(Wall { id: 400, color: 9 });
    t.wire_red = true;
    t.wire_yellow = true;
    t.has_actuator = true;
    let mut fi = vec![false; 701];
    fi[700] = true;
    let tiles = vec![t, t, Tile::empty(), t];
    let bytes = encode_tiles(&tiles, 2, 2, &fi);
    let mut pos = 0usize;
    let back = decode_tiles(&bytes, &mut pos, 2, 2, &fi).unwrap();
    assert_eq!(back, tiles);
}

#[test]
fn long_run_uses_wide_count() {
    let tiles = vec![Tile::new(Block::new(1)); 300];
    let fi = vec![false, false];
    let bytes = encode_tiles(&tiles, 1, 300, &fi);
    assert!(bytes[0] & 0x80 != 0);
    let mut pos = 0usize;
    let back = decode_tiles(&bytes, &mut pos, 1, 300, &fi).unwrap();
    assert_eq!(back, tiles);
}

#[test]
fn single_record_round_trip() {
    let t = water();
    let fi = vec![false];
    let mut out = Vec::new();
    encode_record(&mut out, &t, 41, &fi);
    let mut pos = 0usize;
    let (back, rep) = decode_record(&out, &mut pos, &fi).unwrap();
    assert_eq!(back, t);
    assert_eq!(rep, 41);
}

fn round_trip(p: Packet) -> Packet {
    let codec = PacketCodec;
    let mut out = Vec::new();
    terrarium::packet::encode_frame(&p, &mut out).unwrap();
    let mut pos = 0usize;
    let back = codec.decode(&out, &mut pos).unwrap().unwrap();
    assert_eq!(pos, out.len());
    back
}

#[test]
fn packet_round_trips() {
    assert_eq!(
        round_trip(Packet::ConnectRequest("Terraria230".into())),
        Packet::ConnectRequest("Terraria230".into())
    );
    assert_eq!(round_trip(Packet::WorldDataRequest), Packet::WorldDataRequest);
    assert_eq!(
        round_trip(Packet::EssentialTilesRequest(-5, 900)),
        Packet::EssentialTilesRequest(-5, 900)
    );
    assert_eq!(
        round_trip(Packet::PlayerUUID("abc-def".into())),
        Packet::PlayerUUID("abc-def".into())
    );
    assert_eq!(round_trip(Packet::SetUserSlot(3)), Packet::SetUserSlot(3));
    assert_eq!(
        round_trip(Packet::PlayerHp { hp: 100, max_hp: 500 }),
        Packet::PlayerHp { hp: 100, max_hp: 500 }
    );
    assert_eq!(
        round_trip(Packet::PlayerMana { mana: 20, max_mana: 200 }),
        Packet::PlayerMana { mana: 20, max_mana: 200 }
    );
    let buffs: Vec<u16> = (0..22).collect();
    assert_eq!(
        round_trip(Packet::PlayerBuff { buffs: buffs.clone() }),
        Packet::PlayerBuff { buffs }
    );
    assert_eq!(
        round_trip(Packet::PlayerInventorySlot {
            slot_index: 179,
            amount: 2,
            item_prefix: 9,
            net_id: 757
        }),
        Packet::PlayerInventorySlot { slot_index: 179, amount: 2, item_prefix: 9, net_id: 757 }
    );
    assert_eq!(
        round_trip(Packet::WorldInfo(WorldInfo { data: vec![1, 2, 3] })),
        Packet::WorldInfo(WorldInfo { data: vec![1, 2, 3] })
    );
}

#[test]
fn appearance_packet_round_trip() {
    let mut a = Appearance::default();
    a.name = "Alice".into();
    a.skin = 2;
    a.hair = 14;
    a.hair_color.r = 255;
    a.shoe_color.b = 7;
    a.unknown_trait2 = 1;
    let before = Packet::PlayerAppearance(a.clone());
    assert_eq!(round_trip(before), Packet::PlayerAppearance(a));
}

#[test]
fn set_user_slot_frame_bytes() {
    let codec = PacketCodec;
    let mut out = Vec::new();
    codec.encode(&Packet::SetUserSlot(0), &mut out).unwrap();
    assert_eq!(out, vec![0x04, 0x00, 0x03, 0x00]);
}

#[test]
fn server_encoder_refuses_inbound_messages() {
    let codec = PacketCodec;
    let mut out = Vec::new();
    assert_eq!(
        codec.encode(&Packet::WorldDataRequest, &mut out),
        Err(PacketError::Unimplemented)
    );
    assert_eq!(
        codec.encode(&Packet::PlayerHp { hp: 1, max_hp: 2 }, &mut out),
        Err(PacketError::Unimplemented)
    );
    assert!(out.is_empty());
}

#[test]
fn zero_payload_frame_decodes() {
    let codec = PacketCodec;
    let bytes = vec![0x03, 0x00, 0x06];
    let mut pos = 0usize;
    assert_eq!(codec.decode(&bytes, &mut pos).unwrap(), Some(Packet::WorldDataRequest));
}

#[test]
fn empty_buffer_needs_more() {
    let codec = PacketCodec;
    let mut pos = 0usize;
    assert_eq!(codec.decode(&[], &mut pos).unwrap(), None);
}

#[test]
fn oversized_frame_is_invalid_size() {
    let codec = PacketCodec;
    let bytes = vec![0xFF, 0x00, 0x06];
    let mut pos = 0usize;
    assert_eq!(
        codec.decode(&bytes, &mut pos),
        Err(PacketError::InvalidSize { told: 255, found: 3 })
    );
}

#[test]
fn unknown_type_is_reported() {
    let codec = PacketCodec;
    let bytes = vec![0x03, 0x00, 0xAA];
    let mut pos = 0usize;
    assert_eq!(codec.decode(&bytes, &mut pos), Err(PacketError::UnknownType(0xAA)));
}

#[test]
fn empty_name_is_rejected() {
    // skin, hair, then an empty name.
    let bytes = vec![1u8, 2u8, 0u8];
    let mut pos = 0usize;
    assert_eq!(Appearance::read(&bytes, &mut pos), Err(PacketError::InvalidField));
}

#[test]
fn health_writes_once() {
    let mut status = Status::default();
    assert!(status.init(Packet::PlayerHp { hp: 100, max_hp: 500 }).is_ok());
    assert_eq!(status.max_hp, 500);
    assert_eq!(status.hp, 500);
    assert_eq!(
        status.init(Packet::PlayerHp { hp: 1, max_hp: 2 }),
        Err(PlayerError::WrongField)
    );
    assert_eq!(status.max_hp, 500);
}

#[test]
fn inventory_partitions() {
    let mut inv = Inventory::default();
    let set = |inv: &mut Inventory, idx: u16| {
        inv.update_slot(Packet::PlayerInventorySlot {
            slot_index: idx,
            amount: 1,
            item_prefix: 0,
            net_id: 42,
        })
    };
    assert!(set(&mut inv, 0).is_ok());
    assert!(set(&mut inv, 179).is_ok());
    assert!(set(&mut inv, 259).is_ok());
    assert_eq!(set(&mut inv, 260), Err(PlayerError::WrongField));
    assert_eq!(inv.trash.id, 42);
    assert_eq!(inv.inventory[0].id, 42);
    assert_eq!(inv.void_vault[39].id, 42);
}

#[test]
fn ore_tiers_re_encode() {
    for v in 0..1000u16 {
        if let Some(t) = CopperTier::try_from_u16(v) {
            assert_eq!(t.to_u16(), v);
        }
        if let Some(t) = GoldTier::try_from_u16(v) {
            assert_eq!(t.to_u16(), v);
        }
    }
    assert_eq!(CopperTier::try_from_u16(7), Some(CopperTier::CopperOre));
    assert_eq!(CopperTier::try_from_u16(166), Some(CopperTier::TinOre));
    assert_eq!(CopperTier::try_from_u16(8), None);
}

#[test]
fn shadow_orb_promotion() {
    assert_eq!(promote_shadow_orbs(true, 0), 3);
    assert_eq!(promote_shadow_orbs(false, 0), 0);
    assert_eq!(promote_shadow_orbs(true, 2), 2);
    assert!(promote_shadow_orbs(true, 3) <= 3);
}

#[test]
fn world_info_reflects_time() {
    let mut w = World::empty();
    w.time.time = 5;
    let info1 = WorldInfo::new(&w);
    assert_eq!(&info1.data[0..4], &[5, 0, 0, 0]);
    w.time.time = 600;
    let info2 = WorldInfo::new(&w);
    assert_eq!(&info2.data[0..4], &[0x58, 0x02, 0, 0]);
    assert_eq!(info1.data.len(), info2.data.len());
    assert_ne!(info1.data, info2.data);
}

#[test]
fn vanilla_version_gate() {
    let mut bytes = Vec::new();
    bytes.extend_from_slice(&229i32.to_le_bytes());
    bytes.extend_from_slice(&[0u8; 32]);
    assert_eq!(
        terrarium::vanilla::read(&bytes),
        Err(terrarium::world::WorldError::VersionMismatch)
    );
    assert_eq!(
        terrarium::vanilla::read(&[1, 2]),
        Err(terrarium::world::WorldError::CodecError)
    );
}

#[test]
fn fraction_bits_truncate() {
    assert_eq!(f64_trunc_u32(123.9f64.to_bits()), 123);
    assert_eq!(f64_trunc_u32(0.5f64.to_bits()), 0);
    assert_eq!(f64_trunc_u32((-3.0f64).to_bits()), 0);
    assert_eq!(f64_trunc_u32(4294967296.0f64.to_bits()), u32::MAX);
    assert_eq!(terrarium::numcast::f64_trunc_i32((-3.7f64).to_bits()), -3);
}

#[test]
fn wire_u16_round_trip() {
    let mut out = Vec::new();
    put_u16(&mut out, 0xBEEF);
    let mut pos = 0usize;
    assert_eq!(take_u16(&out, &mut pos), Some(0xBEEF));
}

#[test]
fn localized_text_bytes() {
    let t = NetworkText::key("LegacyMultiplayer.4");
    let mut out = Vec::new();
    t.write(&mut out);
    assert_eq!(out[0], 2);
    assert_eq!(out[1] as usize, "LegacyMultiplayer.4".len());
    assert_eq!(&out[2..21], "LegacyMultiplayer.4".as_bytes());
    assert_eq!(out[21], 0); // no substitutions
    let lit = NetworkText::new("hi");
    let mut out2 = Vec::new();
    lit.write(&mut out2);
    assert_eq!(out2, vec![0, 2, b'h', b'i']);
}

#[test]
fn config_address() {
    let c = Config::new("127.0.0.1", 7777, "world.twld");
    assert_eq!(c.get_address(), "127.0.0.1:7777");
    assert_eq!(Config::new("0.0.0.0", 0, "w").get_address(), "0.0.0.0:0");
}

#[test]
fn chunk_coord_and_test_chunk() {
    let coord = terrarium::tile::TileCoord { x: 250, y: 310 };
    let cc = terrarium::chunk::ChunkCoord::from_tilecoord(&coord, 100);
    assert_eq!((cc.x, cc.y), (2, 3));
    let ch = terrarium::chunk::Chunk::test_chunk(10);
    assert_eq!(ch.tiles.len(), 100);
    assert!(ch.tiles[9].block.is_some());
    assert!(ch.tiles[0].block.is_none());
}

#[test]
fn wrong_version_connect_request_decodes() {
    // A frame with a short declared length, as vanilla clients send it.
    let mut bytes = vec![0x01, 0x00, 0x01];
    bytes.push(11);
    bytes.extend_from_slice(b"Terraria229");
    let codec = PacketCodec;
    let mut pos = 0usize;
    assert_eq!(
        codec.decode(&bytes, &mut pos).unwrap(),
        Some(Packet::ConnectRequest("Terraria229".into()))
    );
    // The verified reply for a wrong version is the localization key.
    let reply = NetworkText::key("LegacyMultiplayer.4");
    let mut out = Vec::new();
    codec.encode(&Packet::Disconnect(reply), &mut out).unwrap();
    assert_eq!(out[2], 2); // message type: disconnect
    assert_eq!(out[3], 2); // text mode: localization key
}

#[test]
fn vanilla_fixture_round_trip() {
    let mut w = World::empty();
    w.name = "Fixture".into();
    w.id = 42;
    w.uuid = 99;
    w.dimensions.tile_width = 2;
    w.dimensions.tile_height = 2;
    w.dungeon_coord = terrarium::tile::TileCoord { x: 1, y: 1 };
    w.time.is_day = true;
    w.progress.defeated_eye_of_cthulu = true;
    w.progress.shadow_orbs_broken = 3;
    w.weather.num_clouds = 5;
    w.gen_data.surface_y = 100;

    let mut ex = HeaderExtras::empty();
    ex.seed_text = "123".into();
    ex.worldmode_raw = 0;
    ex.is_day_raw = 1;
    ex.eye_raw = 1;
    // The legacy promotion: flag set, counter zero, so three orbs.
    ex.legacy_orb_raw = 1;
    ex.orbs_raw = 0;
    ex.dungeon_x_raw = 1;
    ex.dungeon_y_raw = 1;
    ex.surface_bits = 100.0f64.to_bits();
    ex.copper_raw = 7;
    ex.iron_raw = 6;
    ex.silver_raw = 9;
    ex.gold_raw = 8;
    ex.cobalt_raw = 107;
    ex.mythril_raw = 108;
    ex.adamantite_raw = 111;

    let mut bytes: Vec<u8> = Vec::new();
    bytes.extend_from_slice(&230i32.to_le_bytes());
    bytes.extend_from_slice(&[0u8; 20]); // magic, revision, favorite
    bytes.extend_from_slice(&0i16.to_le_bytes()); // section offsets
    bytes.extend_from_slice(&0i16.to_le_bytes()); // frame-important bits
    put_world_header(&mut bytes, &w, &ex);

    let mut water = Tile::empty();
    water.liquid = Some(Liquid { id: 1, amount: 128 });
    let stone = Tile::new(Block::new(1));
    let tiles = vec![water, stone, stone, stone];
    let fi: Vec<bool> = Vec::new();
    bytes.extend_from_slice(&encode_tiles(&tiles, 2, 2, &fi));

    bytes.extend_from_slice(&0i16.to_le_bytes()); // chests
    bytes.extend_from_slice(&0i16.to_le_bytes()); // items per chest
    bytes.extend_from_slice(&0i16.to_le_bytes()); // signs

    let (w2, tiles2, chests, signs) = read_full(&bytes).expect("fixture should parse");
    let mut expected = w.clone();
    expected.gen_data.seed = w2.gen_data.seed; // the seed is a hash of the seed text
    assert_eq!(w2, expected);
    assert_eq!(tiles2, tiles);
    assert!(chests.is_empty());
    assert!(signs.is_empty());
}
