//! The session core as pure decision functions: what the reader replies to
//! each inbound message, how the registry assigns slots and fans a
//! broadcast out, and how spawn requests are routed to chunk handles. The
//! sockets, channels and tasks that carry these decisions out live outside
//! the library.

use vstd::prelude::*;

verus! {

use vstd::utf8::encode_utf8;
use crate::packet::{Packet, NetworkText, WorldInfo};
use crate::player::{Player, inventory_wf, inv_at, Item};
use crate::worldinfo::WorldInfoCache;
use crate::tile::TileCoord;

/// What the connection should do after one inbound message.
#[derive(Debug, PartialEq, Eq)]
pub enum SessionReply {
    /// Send this message back to the client.
    Send(Packet),
    /// Send this message, then ask the chunk task owning the given tile
    /// for its sections, in that order.
    SendThenRequestSections(Packet, TileCoord),
    /// Close the connection.
    Close,
    /// Nothing to send.
    Ignore,
}

/// Whether two strings hold the same characters.
pub fn str_eq(a: &str, b: &str) -> (r: bool)
    ensures
        r == (a@ == b@),
{
    proof {
        broadcast use vstd::utf8::encode_utf8_decode_utf8;

    }
    let ab = a.as_bytes();
    let bb = b.as_bytes();
    if ab.len() != bb.len() {
        proof {
            assert(a@ != b@);
        }
        return false;
    }
    let mut i: usize = 0;
    while i < ab.len()
        invariant
            ab@ == encode_utf8(a@),
            bb@ == encode_utf8(b@),
            ab@.len() == bb@.len(),
            i <= ab@.len(),
            forall|j: int| 0 <= j < i ==> ab@[j] == bb@[j],
        decreases ab@.len() - i,
    {
        if ab[i] != bb[i] {
            proof {
                broadcast use vstd::utf8::encode_utf8_decode_utf8;

                assert(encode_utf8(a@) != encode_utf8(b@));
            }
            return false;
        }
        i = i + 1;
    }
    proof {
        broadcast use vstd::utf8::encode_utf8_decode_utf8;

        assert(ab@ =~= bb@);
        assert(vstd::utf8::decode_utf8(encode_utf8(a@)) == a@);
        assert(vstd::utf8::decode_utf8(encode_utf8(b@)) == b@);
    }
    true
}

/// The decision the reader takes for one inbound message: the protocol
/// tag "Terraria230" earns the user slot, any other tag the localized
/// rejection; the one-write player fields close the connection when
/// rewritten; a world-data request is answered from the current cache
/// snapshot.
pub fn handle_inbound(p: &mut Player, cache: &WorldInfoCache, packet: Packet) -> (r: SessionReply)
    requires
        inventory_wf(old(p).inventory),
    ensures
        inventory_wf(final(p).inventory),
        packet matches Packet::ConnectRequest(tag) ==> *final(p) == *old(p) && (if tag@
            == "Terraria230"@ {
            r == SessionReply::Send(Packet::SetUserSlot(0))
        } else {
            r matches SessionReply::Send(reply) && reply matches Packet::Disconnect(t)
                && t.mode is LocalizationKey && t.text@ == "LegacyMultiplayer.4"@
                && t.substitution@.len() == 0
        }),
        packet matches Packet::WorldDataRequest ==> *final(p) == *old(p) && (r
            matches SessionReply::Send(reply) && reply matches Packet::WorldInfo(wi) && wi.data@
            == cache.view_bytes()),
        packet matches Packet::EssentialTilesRequest(x, y) ==> *final(p) == *old(p) && (r
            matches SessionReply::SendThenRequestSections(reply, coord) && reply
            matches Packet::Status(max, t, flags) && max == 15 && flags == 0
            && t.mode is LocalizationKey && t.text@ == "LegacyInterface.44"@
            && t.substitution@.len() == 0 && coord == (TileCoord {
            x: #[verifier::truncate] (x as u16),
            y: #[verifier::truncate] (y as u16),
        })),
        packet matches Packet::PlayerUUID(u) ==> r == SessionReply::Ignore && (if old(
            p,
        ).uuid@.len() == 0 {
            *final(p) == Player { uuid: u, ..*old(p) }
        } else {
            *final(p) == *old(p)
        }),
        packet matches Packet::PlayerAppearance(a) ==> (if old(p).appearance.name@.len() == 0 {
            r == SessionReply::Ignore && *final(p) == Player { appearance: a, ..*old(p) }
        } else {
            r == SessionReply::Close && *final(p) == *old(p)
        }),
        packet matches Packet::PlayerHp { hp, max_hp } ==> (if old(p).status.max_hp == 0 {
            r == SessionReply::Ignore && *final(p) == Player {
                status: crate::player::Status { hp: max_hp, max_hp, ..old(p).status },
                ..*old(p)
            }
        } else {
            r == SessionReply::Close && *final(p) == *old(p)
        }),
        packet matches Packet::PlayerMana { mana, max_mana } ==> (if old(p).status.max_mana == 0 {
            r == SessionReply::Ignore && *final(p) == Player {
                status: crate::player::Status { mana: max_mana, max_mana, ..old(p).status },
                ..*old(p)
            }
        } else {
            r == SessionReply::Close && *final(p) == *old(p)
        }),
        packet matches Packet::PlayerBuff { buffs } ==> (if (forall|i: int|
            0 <= i < old(p).status.buffs@.len() ==> old(p).status.buffs@[i] == 0) {
            r == SessionReply::Ignore && *final(p) == Player {
                status: crate::player::Status { buffs: buffs, ..old(p).status },
                ..*old(p)
            }
        } else {
            r == SessionReply::Close && *final(p) == *old(p)
        }),
        packet matches Packet::PlayerInventorySlot { slot_index, amount, item_prefix, net_id }
            ==> (if slot_index <= 259 {
            r == SessionReply::Ignore && *final(p) == Player {
                inventory: final(p).inventory,
                ..*old(p)
            } && (forall|j: int|
                0 <= j <= 259 ==> inv_at(final(p).inventory, j) == (if j == slot_index {
                    Item { id: net_id, amount, prefix: item_prefix }
                } else {
                    inv_at(old(p).inventory, j)
                }))
        } else {
            r == SessionReply::Close && *final(p) == *old(p)
        }),
        ((packet matches Packet::Empty) || (packet matches Packet::SetUserSlot(_)) || (packet
            matches Packet::WorldInfo(_)) || (packet matches Packet::Disconnect(_)) || (packet
            matches Packet::Status(_, _, _))) ==> r == SessionReply::Ignore && *final(p) == *old(p),
{
    match packet {
        Packet::ConnectRequest(tag) => {
            if str_eq(tag.as_str(), "Terraria230") {
                SessionReply::Send(Packet::SetUserSlot(0))
            } else {
                SessionReply::Send(Packet::Disconnect(NetworkText::key("LegacyMultiplayer.4")))
            }
        },
        Packet::WorldDataRequest => SessionReply::Send(
            Packet::WorldInfo(cache.snapshot()),
        ),
        Packet::EssentialTilesRequest(x, y) => SessionReply::SendThenRequestSections(
            Packet::Status(15, NetworkText::key("LegacyInterface.44"), 0),
            TileCoord {
                x: #[verifier::truncate] (x as u16),
                y: #[verifier::truncate] (y as u16),
            },
        ),
        Packet::PlayerUUID(u) => {
            if p.uuid.as_str().is_empty() {
                p.uuid = u;
            }
            SessionReply::Ignore
        },
        Packet::PlayerAppearance(a) => {
            match p.appearance.init(a) {
                Ok(()) => SessionReply::Ignore,
                Err(_) => SessionReply::Close,
            }
        },
        Packet::PlayerHp { .. } | Packet::PlayerMana { .. } | Packet::PlayerBuff { .. } => {
            match p.status.init(packet) {
                Ok(()) => SessionReply::Ignore,
                Err(_) => SessionReply::Close,
            }
        },
        Packet::PlayerInventorySlot { .. } => {
            match p.inventory.update_slot(packet) {
                Ok(()) => SessionReply::Ignore,
                Err(_) => SessionReply::Close,
            }
        },
        _ => SessionReply::Ignore,
    }
}

/// The table of connected clients: the name under each slot, in slot
/// order.
#[derive(Debug, PartialEq, Eq)]
pub struct Registry {
    /// The connected names; the slot of a client is its index.
    pub names: Vec<String>,
}

/// The slot of the first client registered under a name.
pub open spec fn name_index(names: Seq<String>, name: Seq<char>) -> Option<int>
    decreases names.len(),
{
    if names.len() == 0 {
        None
    } else if names[0]@ == name {
        Some(0int)
    } else {
        match name_index(names.drop_first(), name) {
            Some(i) => Some(i + 1),
            None => None,
        }
    }
}

/// The names that survive pruning: those whose delivery succeeded.
pub open spec fn survivors(names: Seq<String>, delivered: Seq<bool>) -> Seq<String>
    decreases names.len(),
{
    if names.len() == 0 {
        Seq::empty()
    } else {
        (if delivered[0] {
            seq![names[0]]
        } else {
            Seq::empty()
        }) + survivors(names.drop_first(), delivered.drop_first())
    }
}

impl Registry {
    /// An empty registry.
    pub fn new() -> (r: Registry)
        ensures
            r.names@.len() == 0,
    {
        Registry { names: Vec::new() }
    }

    /// Register a client: it is assigned the next slot, the count of
    /// clients registered before it.
    pub fn connect_client(&mut self, name: String) -> (slot: usize)
        ensures
            slot == old(self).names@.len(),
            final(self).names@ == old(self).names@.push(name),
    {
        let slot = self.names.len();
        self.names.push(name);
        slot
    }

    /// The slots a broadcast goes to: one per registered client. A
    /// broadcast issued after any run of connections reaches every one of
    /// them.
    pub fn broadcast_targets(&self) -> (r: Vec<usize>)
        ensures
            r@.len() == self.names@.len(),
            forall|i: int| 0 <= i < r@.len() ==> r@[i] == i,
    {
        let mut r: Vec<usize> = Vec::new();
        let mut i: usize = 0;
        while i < self.names.len()
            invariant
                i <= self.names@.len(),
                r@.len() == i,
                forall|j: int| 0 <= j < i ==> r@[j] == j,
            decreases self.names@.len() - i,
        {
            r.push(i);
            i = i + 1;
        }
        r
    }

    /// Free the slot registered under a name: the first client of that
    /// name leaves the table, the rest close ranks in order. A name not
    /// registered changes nothing.
    pub fn disconnect_client(&mut self, name: &str) -> (r: Option<usize>)
        ensures
            name_index(old(self).names@, name@) matches Some(i) ==> (r matches Some(s) && s == i
                && final(self).names@ == old(self).names@.remove(i)),
            name_index(old(self).names@, name@) is None ==> r is None && *final(self) == *old(
                self,
            ),
    {
        let mut i: usize = 0;
        proof {
            assert(self.names@.skip(0) =~= self.names@);
        }
        while i < self.names.len()
            invariant
                *self == *old(self),
                i <= self.names@.len(),
                name_index(self.names@, name@) == (match name_index(
                    self.names@.skip(i as int),
                    name@,
                ) {
                    Some(j) => Some(j + i),
                    None => None::<int>,
                }),
        decreases self.names@.len() - i,
        {
            proof {
                assert(self.names@.skip(i as int)[0] == self.names@[i as int]);
                assert(self.names@.skip(i as int).drop_first() =~= self.names@.skip(i as int + 1));
            }
            if str_eq(self.names[i].as_str(), name) {
                self.names.remove(i);
                return Some(i);
            }
            i = i + 1;
        }
        proof {
            assert(self.names@.skip(self.names@.len() as int) =~= Seq::<String>::empty());
        }
        None
    }

    /// Drop the clients whose broadcast delivery failed, keeping the rest
    /// in order; `delivered` holds one outcome per slot.
    pub fn prune(&mut self, delivered: &Vec<bool>)
        requires
            delivered@.len() == old(self).names@.len(),
        ensures
            final(self).names@ == survivors(old(self).names@, delivered@),
    {
        let mut kept: Vec<String> = Vec::new();
        let mut i: usize = 0;
        proof {
            assert(self.names@.skip(0) =~= self.names@);
            assert(delivered@.skip(0) =~= delivered@);
            assert(Seq::<String>::empty() + survivors(self.names@, delivered@) =~= survivors(
                self.names@,
                delivered@,
            ));
        }
        while i < self.names.len()
            invariant
                delivered@.len() == self.names@.len(),
                i <= self.names@.len(),
                survivors(self.names@, delivered@) == kept@ + survivors(
                    self.names@.skip(i as int),
                    delivered@.skip(i as int),
                ),
            decreases self.names@.len() - i,
        {
            proof {
                lemma_survivors_step(self.names@, delivered@, i as int);
            }
            if delivered[i] {
                let name = self.names[i].clone();
                proof {
                    assert(name@ == self.names@[i as int]@);
                }
                kept.push(name);
                proof {
                    assert(kept@.drop_last() + (seq![self.names@[i as int]] + survivors(
                        self.names@.skip(i as int + 1),
                        delivered@.skip(i as int + 1),
                    )) =~= kept@ + survivors(
                        self.names@.skip(i as int + 1),
                        delivered@.skip(i as int + 1),
                    ));
                }
            } else {
                proof {
                    assert(kept@ + (Seq::<String>::empty() + survivors(
                        self.names@.skip(i as int + 1),
                        delivered@.skip(i as int + 1),
                    )) =~= kept@ + survivors(
                        self.names@.skip(i as int + 1),
                        delivered@.skip(i as int + 1),
                    ));
                }
            }
            i = i + 1;
        }
        proof {
            assert(self.names@.skip(self.names@.len() as int) =~= Seq::<String>::empty());
            assert(kept@ + Seq::<String>::empty() =~= kept@);
        }
        self.names = kept;
    }
}

/// Unfolding one step of the survivor list at position `i`.
proof fn lemma_survivors_step(names: Seq<String>, delivered: Seq<bool>, i: int)
    requires
        names.len() == delivered.len(),
        0 <= i < names.len(),
    ensures
        survivors(names.skip(i), delivered.skip(i)) == (if delivered[i] {
            seq![names[i]]
        } else {
            Seq::<String>::empty()
        }) + survivors(names.skip(i + 1), delivered.skip(i + 1)),
{
    assert(names.skip(i).len() == names.len() - i);
    assert(names.skip(i)[0] == names[i]);
    assert(delivered.skip(i)[0] == delivered[i]);
    assert(names.skip(i).drop_first() =~= names.skip(i + 1));
    assert(delivered.skip(i).drop_first() =~= delivered.skip(i + 1));
}

/// The table of loaded chunks: each entry maps a chunk coordinate to the
/// id of the handle that owns it.
#[derive(Debug, PartialEq, Eq)]
pub struct ChunkTable {
    /// Chunk x, chunk y, handle id.
    pub entries: Vec<(u16, u16, u32)>,
    /// The id the next fresh handle gets.
    pub next_id: u32,
}

/// The handle registered for a chunk coordinate, if any: the first entry
/// with that key.
pub open spec fn chunk_lookup(entries: Seq<(u16, u16, u32)>, cx: u16, cy: u16) -> Option<u32>
    decreases entries.len(),
{
    if entries.len() == 0 {
        None
    } else if entries[0].0 == cx && entries[0].1 == cy {
        Some(entries[0].2)
    } else {
        chunk_lookup(entries.drop_first(), cx, cy)
    }
}

impl ChunkTable {
    /// An empty table.
    pub fn new() -> (r: ChunkTable)
        ensures
            r.entries@.len() == 0,
            r.next_id == 0,
    {
        ChunkTable { entries: Vec::new(), next_id: 0 }
    }

    /// The handle owning the chunk of the given tile: the registered one
    /// when the chunk is already owned, a fresh one otherwise. Two spawns
    /// into the same chunk therefore receive the same handle, so every
    /// edit to that chunk flows through one queue.
    pub fn chunk_handle_for(&mut self, coord: &TileCoord, chunk_size: u16) -> (id: u32)
        requires
            chunk_size > 0,
            old(self).next_id < 0xFFFF_FFFF,
        ensures
            ({
                let cx = coord.x / chunk_size;
                let cy = coord.y / chunk_size;
                &&& chunk_lookup(final(self).entries@, cx, cy) == Some(id)
                &&& (chunk_lookup(old(self).entries@, cx, cy) matches Some(h) ==> id == h
                    && *final(self) == *old(self))
                &&& (chunk_lookup(old(self).entries@, cx, cy) is None ==> id == old(self).next_id
                    && final(self).entries@ == old(self).entries@.push((cx, cy, id)) && final(self).next_id == old(self).next_id + 1)
            }),
    {
        let cx = coord.x / chunk_size;
        let cy = coord.y / chunk_size;
        let mut i: usize = 0;
        proof {
            assert(self.entries@.skip(0) =~= self.entries@);
        }
        while i < self.entries.len()
            invariant
                *self == *old(self),
                cx == coord.x / chunk_size,
                cy == coord.y / chunk_size,
                i <= self.entries@.len(),
                chunk_lookup(self.entries@, cx, cy) == chunk_lookup(
                    self.entries@.skip(i as int),
                    cx,
                    cy,
                ),
            decreases self.entries@.len() - i,
        {
            let e = self.entries[i];
            proof {
                assert(self.entries@.skip(i as int)[0] == self.entries@[i as int]);
                assert(self.entries@.skip(i as int).drop_first() =~= self.entries@.skip(
                    i as int + 1,
                ));
            }
            if e.0 == cx && e.1 == cy {
                proof {
                    assert(chunk_lookup(self.entries@.skip(i as int), cx, cy) == Some(e.2));
                }
                return e.2;
            }
            i = i + 1;
        }
        proof {
            assert(self.entries@.skip(self.entries@.len() as int) =~= Seq::<
                (u16, u16, u32),
            >::empty());
        }
        let id = self.next_id;
        self.entries.push((cx, cy, id));
        self.next_id = self.next_id + 1;
        proof {
            lemma_chunk_lookup_push(old(self).entries@, cx, cy, id);
        }
        id
    }
}

/// Registering a missing key makes it found.
proof fn lemma_chunk_lookup_push(entries: Seq<(u16, u16, u32)>, cx: u16, cy: u16, id: u32)
    requires
        chunk_lookup(entries, cx, cy) is None,
    ensures
        chunk_lookup(entries.push((cx, cy, id)), cx, cy) == Some(id),
    decreases entries.len(),
{
    if entries.len() == 0 {
        assert(entries.push((cx, cy, id))[0] == (cx, cy, id));
    } else {
        assert(entries.push((cx, cy, id))[0] == entries[0]);
        assert(entries.push((cx, cy, id)).drop_first() =~= entries.drop_first().push(
            (cx, cy, id),
        ));
        lemma_chunk_lookup_push(entries.drop_first(), cx, cy, id);
    }
}

/// One inbound message to a chunk task.
#[derive(Debug, PartialEq, Eq)]
pub enum ChunkAction {
    /// Take ownership of another chunk's tiles.
    AssignChunk(crate::chunk::Chunk),
    /// Send the cached tile runs to a client.
    RequestSections,
    /// Edit one tile, to be announced to every watcher.
    ModifyBlock(TileCoord),
    /// Stop the task.
    ForceCloseThread,
}

/// The edits among a run of chunk actions, in arrival order, up to but
/// not past the first force-close.
pub open spec fn edits_of(actions: Seq<ChunkAction>) -> Seq<TileCoord>
    decreases actions.len(),
{
    if actions.len() == 0 {
        Seq::empty()
    } else {
        match actions[0] {
            ChunkAction::ModifyBlock(c) => seq![c] + edits_of(actions.drop_first()),
            ChunkAction::ForceCloseThread => Seq::empty(),
            _ => edits_of(actions.drop_first()),
        }
    }
}

/// The chunks assigned by a run of chunk actions, in arrival order, up to
/// but not past the first force-close.
pub open spec fn assigned_of(actions: Seq<ChunkAction>) -> Seq<crate::chunk::Chunk>
    decreases actions.len(),
{
    if actions.len() == 0 {
        Seq::empty()
    } else {
        match actions[0] {
            ChunkAction::AssignChunk(c) => seq![c] + assigned_of(actions.drop_first()),
            ChunkAction::ForceCloseThread => Seq::empty(),
            _ => assigned_of(actions.drop_first()),
        }
    }
}

/// One chunk task processing its queue in arrival order: assigned chunks
/// join its working set in arrival order, the edits it announces are
/// exactly the inbound edits, oldest first, and a force-close ends the
/// task with nothing after it processed. Concurrent writers to one chunk
/// are therefore observed in some total order: the order their requests
/// entered the queue.
pub fn chunk_task_run(actions: Vec<ChunkAction>) -> (r: (
    Vec<crate::chunk::Chunk>,
    Vec<TileCoord>,
))
    ensures
        r.0@ == assigned_of(actions@),
        r.1@ == edits_of(actions@),
{
    let ghost all = actions@;
    let mut acted = actions;
    let mut chunks: Vec<crate::chunk::Chunk> = Vec::new();
    let mut announced: Vec<TileCoord> = Vec::new();
    proof {
        assert(announced@ + edits_of(all) =~= edits_of(all));
        assert(chunks@ + assigned_of(all) =~= assigned_of(all));
    }
    while acted.len() > 0
        invariant
            all == actions@,
            edits_of(all) == announced@ + edits_of(acted@),
            assigned_of(all) == chunks@ + assigned_of(acted@),
        decreases acted@.len(),
    {
        let ghost before = acted@;
        let a = acted.remove(0);
        proof {
            assert(acted@ =~= before.drop_first());
            assert(before[0] == a);
        }
        match a {
            ChunkAction::AssignChunk(c) => {
                chunks.push(c);
                proof {
                    assert(chunks@.drop_last() + (seq![chunks@.last()] + assigned_of(acted@))
                        =~= chunks@ + assigned_of(acted@));
                }
            },
            ChunkAction::RequestSections => {},
            ChunkAction::ModifyBlock(coord) => {
                announced.push(coord);
                proof {
                    assert(announced@.drop_last() + (seq![coord] + edits_of(acted@)) =~= announced@
                        + edits_of(acted@));
                }
            },
            ChunkAction::ForceCloseThread => {
                proof {
                    assert(edits_of(before) =~= Seq::<TileCoord>::empty());
                    assert(assigned_of(before) =~= Seq::<crate::chunk::Chunk>::empty());
                    assert(announced@ + Seq::<TileCoord>::empty() =~= announced@);
                    assert(chunks@ + Seq::<crate::chunk::Chunk>::empty() =~= chunks@);
                }
                return (chunks, announced);
            },
        }
    }
    proof {
        assert(edits_of(acted@) =~= Seq::<TileCoord>::empty());
        assert(assigned_of(acted@) =~= Seq::<crate::chunk::Chunk>::empty());
        assert(announced@ + Seq::<TileCoord>::empty() =~= announced@);
        assert(chunks@ + Seq::<crate::chunk::Chunk>::empty() =~= chunks@);
    }
    (chunks, announced)
}

impl ChunkTable {
    /// Route a spawn request: a tile outside the world is refused, a tile
    /// inside it receives the handle owning its chunk, registered fresh if
    /// the chunk had none.
    pub fn spawn_chunk_handle(
        &mut self,
        coord: &TileCoord,
        chunk_size: u16,
        tile_width: u32,
        tile_height: u32,
    ) -> (r: Option<u32>)
        requires
            chunk_size > 0,
            old(self).next_id < 0xFFFF_FFFF,
        ensures
            (coord.x as u32 >= tile_width || coord.y as u32 >= tile_height) ==> r is None
                && *final(self) == *old(self),
            ((coord.x as u32) < tile_width && (coord.y as u32) < tile_height) ==> ({
                let cx = coord.x / chunk_size;
                let cy = coord.y / chunk_size;
                &&& r matches Some(id) && chunk_lookup(final(self).entries@, cx, cy) == Some(id)
                &&& (chunk_lookup(old(self).entries@, cx, cy) matches Some(h) ==> r == Some(h)
                    && *final(self) == *old(self))
                &&& (chunk_lookup(old(self).entries@, cx, cy) is None ==> r == Some(
                    old(self).next_id,
                ) && final(self).entries@ == old(self).entries@.push(
                    (cx, cy, old(self).next_id),
                ) && final(self).next_id == old(self).next_id + 1)
            }),
    {
        if coord.x as u32 >= tile_width || coord.y as u32 >= tile_height {
            return None;
        }
        Some(self.chunk_handle_for(coord, chunk_size))
    }
}

} // verus!
