use terrarium::generator::{random_gen_data, NormalGen, WorldSize};
use terrarium::internal::{world_from_bytes, world_to_bytes};
use terrarium::packet::{NetworkText, NetworkTextMode, Packet, PacketCodec};
use terrarium::player::Player;
use terrarium::session::{handle_inbound, ChunkAction, ChunkTable, Registry, SessionReply};
use terrarium::tile::TileCoord;
use terrarium::world::World;
use terrarium::world_types::CorruptionType;
use terrarium::worldinfo::WorldInfoCache;

fn sample_world() -> World {
    let mut w = World::empty();
    w.name = "Isla".into();
    w.id = -7;
    w.uuid = 0x0123_4567_89AB_CDEF_0011_2233_4455_6677;
    w.dimensions.tile_width = 4200;
    w.dimensions.tile_height = 1200;
    w.spawn_coord = TileCoord { x: 2100, y: 300 };
    w.dungeon_coord = TileCoord { x: 90, y: 200 };
    w.progress.shadow_orbs_broken = 2;
    w.progress.entity_kill_counts = vec![3, 0, 99];
    w.events.partying_npcs = vec![17, 22];
    w.angler.completed_quests = vec!["quest one".into(), "qu\u{00e9}te".into()];
    w.weather.wind_speed_bits = 0x3F00_0000;
    w.time.time = 54000;
    w
}

#[test]
fn internal_record_round_trips() {
    let w = sample_world();
    let bytes = world_to_bytes(&w);
    let back = world_from_bytes(&bytes).unwrap();
    assert_eq!(back, w);
    // Serializing the deserialized record reproduces the file bytes.
    assert_eq!(world_to_bytes(&back), bytes);
}

#[test]
fn internal_file_round_trips() {
    let w = sample_world();
    let file = terrarium::internal::world_to_file_bytes(&w);
    let back = terrarium::internal::world_from_file_bytes(&file).unwrap();
    assert_eq!(back, w);
}

#[test]
fn internal_record_rejects_noise() {
    assert!(world_from_bytes(&[1, 2, 3]).is_err());
    let w = sample_world();
    let mut bytes = world_to_bytes(&w);
    bytes.push(0);
    assert!(world_from_bytes(&bytes).is_err());
}

fn round_trip(p: Packet) -> Packet {
    let codec = PacketCodec;
    let mut out = Vec::new();
    terrarium::packet::encode_frame(&p, &mut out).unwrap();
    let mut pos = 0usize;
    let back = codec.decode(&out, &mut pos).unwrap().unwrap();
    assert_eq!(pos, out.len());
    back
}

#[test]
fn localized_text_packets_round_trip() {
    let plain = Packet::Disconnect(NetworkText::key("LegacyMultiplayer.4"));
    assert_eq!(
        round_trip(plain),
        Packet::Disconnect(NetworkText::key("LegacyMultiplayer.4"))
    );
    let nested = NetworkText {
        mode: NetworkTextMode::Formattable,
        text: "{0} joined".into(),
        substitution: vec![NetworkText::new("Alice"), NetworkText::key("Game.Join")],
    };
    let nested2 = NetworkText {
        mode: NetworkTextMode::Formattable,
        text: "{0} joined".into(),
        substitution: vec![NetworkText::new("Alice"), NetworkText::key("Game.Join")],
    };
    assert_eq!(
        round_trip(Packet::Status(15, nested, 1)),
        Packet::Status(15, nested2, 1)
    );
}

#[test]
fn version_check_decides_slot_or_disconnect() {
    let cache = WorldInfoCache::from_snapshot(vec![9, 9]);
    let mut p = Player::default();
    let ok = handle_inbound(&mut p, &cache, Packet::ConnectRequest("Terraria230".into()));
    assert_eq!(ok, SessionReply::Send(Packet::SetUserSlot(0)));
    let bad = handle_inbound(&mut p, &cache, Packet::ConnectRequest("Terraria229".into()));
    match bad {
        SessionReply::Send(Packet::Disconnect(t)) => {
            assert_eq!(t.mode, NetworkTextMode::LocalizationKey);
            assert_eq!(t.text, "LegacyMultiplayer.4");
            assert!(t.substitution.is_empty());
        },
        other => panic!("unexpected reply: {:?}", other),
    }
}

#[test]
fn world_data_request_answers_from_snapshot() {
    let cache = WorldInfoCache::from_snapshot(vec![1, 2, 3, 4]);
    let mut p = Player::default();
    let reply = handle_inbound(&mut p, &cache, Packet::WorldDataRequest);
    match reply {
        SessionReply::Send(Packet::WorldInfo(wi)) => assert_eq!(wi.data, vec![1, 2, 3, 4]),
        other => panic!("unexpected reply: {:?}", other),
    }
}

#[test]
fn second_health_write_closes() {
    let cache = WorldInfoCache::from_snapshot(Vec::new());
    let mut p = Player::default();
    let first = handle_inbound(&mut p, &cache, Packet::PlayerHp { hp: 100, max_hp: 500 });
    assert_eq!(first, SessionReply::Ignore);
    assert_eq!(p.status.max_hp, 500);
    assert_eq!(p.status.hp, 500);
    let second = handle_inbound(&mut p, &cache, Packet::PlayerHp { hp: 1, max_hp: 2 });
    assert_eq!(second, SessionReply::Close);
    assert_eq!(p.status.max_hp, 500);
}

#[test]
fn broadcast_reaches_every_connected_client() {
    let mut reg = Registry::new();
    assert_eq!(reg.connect_client("a".into()), 0);
    assert_eq!(reg.connect_client("b".into()), 1);
    assert_eq!(reg.connect_client("c".into()), 2);
    let targets = reg.broadcast_targets();
    assert_eq!(targets, vec![0, 1, 2]);
    reg.prune(&vec![true, false, true]);
    assert_eq!(reg.names, vec!["a".to_owned(), "c".to_owned()]);
    assert_eq!(reg.broadcast_targets().len(), 2);
}

#[test]
fn same_chunk_gets_same_handle() {
    let mut table = ChunkTable::new();
    let a = table.chunk_handle_for(&TileCoord { x: 250, y: 160 }, 100);
    let b = table.chunk_handle_for(&TileCoord { x: 299, y: 101 }, 100);
    let c = table.chunk_handle_for(&TileCoord { x: 300, y: 101 }, 100);
    assert_eq!(a, b);
    assert_ne!(a, c);
}

#[test]
fn generated_data_is_in_range() {
    let g = random_gen_data(CorruptionType::Crimson);
    assert_eq!(g.corruption_type, CorruptionType::Crimson);
    assert!((100..200).contains(&g.surface_y));
    assert!((3000..3100).contains(&g.rock_layer_y));
    let small = NormalGen::new(WorldSize::Small, Some(CorruptionType::Corruption));
    assert_eq!(small.size, TileCoord { x: 4200, y: 1200 });
    assert_eq!(small.corruption_type, CorruptionType::Corruption);
}

#[test]
fn decode_keeps_cursor_on_need_more_and_errors() {
    let codec = PacketCodec;
    let mut pos = 0usize;
    assert_eq!(codec.decode(&[], &mut pos), Ok(None));
    assert_eq!(pos, 0);
    let bad = vec![0xFF, 0x00, 0x06];
    let mut pos2 = 0usize;
    assert!(codec.decode(&bad, &mut pos2).is_err());
    assert_eq!(pos2, 0);
}

#[test]
fn chunk_task_announces_edits_in_queue_order() {
    let actions = vec![
        ChunkAction::ModifyBlock(TileCoord { x: 1, y: 2 }),
        ChunkAction::RequestSections,
        ChunkAction::ModifyBlock(TileCoord { x: 3, y: 4 }),
        ChunkAction::AssignChunk(terrarium::chunk::Chunk::empty()),
        ChunkAction::ModifyBlock(TileCoord { x: 5, y: 6 }),
        ChunkAction::ForceCloseThread,
    ];
    let (chunks, announced) = terrarium::session::chunk_task_run(actions);
    assert_eq!(chunks.len(), 1);
    assert_eq!(
        announced,
        vec![
            TileCoord { x: 1, y: 2 },
            TileCoord { x: 3, y: 4 },
            TileCoord { x: 5, y: 6 },
        ]
    );
}

#[test]
fn disconnect_frees_the_slot() {
    let mut reg = Registry::new();
    reg.connect_client("a".into());
    reg.connect_client("b".into());
    reg.connect_client("c".into());
    assert_eq!(reg.disconnect_client("b"), Some(1));
    assert_eq!(reg.names, vec!["a".to_owned(), "c".to_owned()]);
    assert_eq!(reg.disconnect_client("nobody"), None);
}

#[test]
fn spawn_respects_world_bounds() {
    let mut table = ChunkTable::new();
    assert_eq!(
        table.spawn_chunk_handle(&TileCoord { x: 5000, y: 10 }, 100, 4200, 1200),
        None
    );
    let a = table.spawn_chunk_handle(&TileCoord { x: 250, y: 160 }, 100, 4200, 1200);
    let b = table.spawn_chunk_handle(&TileCoord { x: 299, y: 101 }, 100, 4200, 1200);
    assert!(a.is_some());
    assert_eq!(a, b);
}

#[test]
fn force_close_stops_the_chunk_task() {
    let actions = vec![
        ChunkAction::ModifyBlock(TileCoord { x: 1, y: 2 }),
        ChunkAction::ForceCloseThread,
        ChunkAction::ModifyBlock(TileCoord { x: 9, y: 9 }),
        ChunkAction::AssignChunk(terrarium::chunk::Chunk::empty()),
    ];
    let (chunks, announced) = terrarium::session::chunk_task_run(actions);
    assert!(chunks.is_empty());
    assert_eq!(announced, vec![TileCoord { x: 1, y: 2 }]);
}

#[test]
fn tiles_request_orders_status_before_sections() {
    let cache = WorldInfoCache::from_snapshot(Vec::new());
    let mut p = Player::default();
    let reply = handle_inbound(&mut p, &cache, Packet::EssentialTilesRequest(250, 160));
    match reply {
        SessionReply::SendThenRequestSections(Packet::Status(max, t, flags), coord) => {
            assert_eq!(max, 15);
            assert_eq!(flags, 0);
            assert_eq!(t.text, "LegacyInterface.44");
            assert_eq!(coord, TileCoord { x: 250, y: 160 });
        },
        other => panic!("unexpected reply: {:?}", other),
    }
}
