//! Per-connection player state: appearance, status and inventory, with
//! the one-write rule for fields that may be set only once.

use vstd::prelude::*;

verus! {

use crate::wire::take_u8;

/// Why a player-state update was refused.
#[derive(Debug, Clone, Copy, PartialEq, Eq, Structural)]
pub enum PlayerError {
    /// The bytes of a player packet could not be parsed.
    ReadError,
    /// A packet wrote to a field that may be written only once, or to a
    /// slot that does not exist.
    WrongField,
}

/// Difficulty flag bits carried by the appearance packet.
#[derive(Debug, Default, Clone, Copy, PartialEq, Eq, Structural)]
pub struct Difficulty {
    pub bits: u8,
}

/// Torch-preference flag bits carried by the appearance packet.
#[derive(Debug, Default, Clone, Copy, PartialEq, Eq, Structural)]
pub struct TorchState {
    pub bits: u8,
}

/// An RGB colour triple.
#[derive(Debug, Default, Clone, Copy, PartialEq, Eq, Structural)]
pub struct Color {
    pub r: u8,
    pub g: u8,
    pub b: u8,
}

impl Color {
    /// Read three bytes as red, green, blue.
    pub fn read(inp: &[u8], pos: &mut usize) -> (r: Option<Color>)
        ensures
            r is Some <==> *old(pos) + 3 <= inp@.len(),
            r is Some ==> *final(pos) == *old(pos) + 3 && r->0 == (Color {
                r: inp@[*old(pos) as int],
                g: inp@[*old(pos) + 1],
                b: inp@[*old(pos) + 2],
            }),
            r is None ==> *final(pos) == *old(pos),
    {
        if inp.len() >= 3 && *pos <= inp.len() - 3 {
            let rr = inp[*pos];
            let gg = inp[*pos + 1];
            let bb = inp[*pos + 2];
            *pos = *pos + 3;
            Some(Color { r: rr, g: gg, b: bb })
        } else {
            None
        }
    }
}

/// One item slot: the kind, the amount and the prefix.
#[derive(Debug, Default, Clone, Copy, PartialEq, Eq, Structural)]
pub struct Item {
    pub id: u16,
    pub amount: u16,
    pub prefix: u8,
}

/// The player inventory, partitioned by index range into the main slots,
/// the trash slot, armor, dyes, equipment and the four storage banks.
#[derive(Debug, Clone, PartialEq, Eq)]
pub struct Inventory {
    /// Indices 0 to 58.
    pub inventory: Vec<Item>,
    /// Index 179.
    pub trash: Item,
    /// Indices 59 to 78.
    pub armor: Vec<Item>,
    /// Indices 79 to 88.
    pub dye: Vec<Item>,
    /// Indices 89 to 93.
    pub misc_equips: Vec<Item>,
    /// Indices 94 to 98.
    pub misc_dyes: Vec<Item>,
    /// Indices 99 to 138.
    pub piggy_bank: Vec<Item>,
    /// Indices 139 to 178.
    pub safe: Vec<Item>,
    /// Indices 180 to 219.
    pub defenders_forge: Vec<Item>,
    /// Indices 220 to 259.
    pub void_vault: Vec<Item>,
}

/// Every partition holds exactly its protocol-fixed number of slots.
pub open spec fn inventory_wf(inv: Inventory) -> bool {
    &&& inv.inventory@.len() == 59
    &&& inv.armor@.len() == 20
    &&& inv.dye@.len() == 10
    &&& inv.misc_equips@.len() == 5
    &&& inv.misc_dyes@.len() == 5
    &&& inv.piggy_bank@.len() == 40
    &&& inv.safe@.len() == 40
    &&& inv.defenders_forge@.len() == 40
    &&& inv.void_vault@.len() == 40
}

/// Fill a vector with `n` empty item slots.
fn empty_items(n: usize) -> (r: Vec<Item>)
    ensures
        r@.len() == n,
{
    let mut v: Vec<Item> = Vec::new();
    let mut i: usize = 0;
    while i < n
        invariant
            v@.len() == i,
            i <= n,
        decreases n - i,
    {
        v.push(Item { id: 0, amount: 0, prefix: 0 });
        i = i + 1;
    }
    v
}

impl Default for Inventory {
    /// An inventory of empty slots, one per index of every partition.
    fn default() -> (r: Inventory)
        ensures
            inventory_wf(r),
    {
        Inventory {
            inventory: empty_items(59),
            trash: Item { id: 0, amount: 0, prefix: 0 },
            armor: empty_items(20),
            dye: empty_items(10),
            misc_equips: empty_items(5),
            misc_dyes: empty_items(5),
            piggy_bank: empty_items(40),
            safe: empty_items(40),
            defenders_forge: empty_items(40),
            void_vault: empty_items(40),
        }
    }
}

/// The item stored under a global inventory index, resolved through the
/// partition table.
pub open spec fn inv_at(inv: Inventory, idx: int) -> Item {
    if 0 <= idx <= 58 {
        inv.inventory@[idx]
    } else if 59 <= idx <= 78 {
        inv.armor@[idx - 59]
    } else if 79 <= idx <= 88 {
        inv.dye@[idx - 79]
    } else if 89 <= idx <= 93 {
        inv.misc_equips@[idx - 89]
    } else if 94 <= idx <= 98 {
        inv.misc_dyes@[idx - 94]
    } else if 99 <= idx <= 138 {
        inv.piggy_bank@[idx - 99]
    } else if 139 <= idx <= 178 {
        inv.safe@[idx - 139]
    } else if idx == 179 {
        inv.trash
    } else if 180 <= idx <= 219 {
        inv.defenders_forge@[idx - 180]
    } else {
        inv.void_vault@[idx - 220]
    }
}

impl Inventory {
    /// Store an inventory-slot update into the partition its index names.
    /// Indices outside every partition are refused; packets of any other
    /// kind leave the inventory unchanged.
    pub fn update_slot(&mut self, packet: crate::packet::Packet) -> (r: Result<(), PlayerError>)
        requires
            inventory_wf(*old(self)),
        ensures
            inventory_wf(*final(self)),
            packet matches crate::packet::Packet::PlayerInventorySlot {
                slot_index,
                amount,
                item_prefix,
                net_id,
            } ==> {
                &&& (r is Ok <==> slot_index <= 259)
                &&& (slot_index > 259 ==> r == Err::<(), PlayerError>(PlayerError::WrongField)
                    && *final(self) == *old(self))
                &&& (slot_index <= 259 ==> forall|j: int|
                    0 <= j <= 259 ==> inv_at(*final(self), j) == (if j == slot_index {
                        Item { id: net_id, amount, prefix: item_prefix }
                    } else {
                        inv_at(*old(self), j)
                    }))
            },
            !(packet matches crate::packet::Packet::PlayerInventorySlot { .. }) ==> r is Ok
                && *final(self) == *old(self),
    {
        if let crate::packet::Packet::PlayerInventorySlot {
            slot_index,
            amount,
            item_prefix,
            net_id,
        } = packet {
            let index = slot_index as usize;
            let item = Item { id: net_id, amount, prefix: item_prefix };
            if index <= 58 {
                self.inventory.set(index, item);
            } else if index == 179 {
                self.trash = item;
            } else if 59 <= index && index <= 78 {
                self.armor.set(index - 59, item);
            } else if 79 <= index && index <= 88 {
                self.dye.set(index - 79, item);
            } else if 89 <= index && index <= 93 {
                self.misc_equips.set(index - 89, item);
            } else if 94 <= index && index <= 98 {
                self.misc_dyes.set(index - 94, item);
            } else if 99 <= index && index <= 138 {
                self.piggy_bank.set(index - 99, item);
            } else if 139 <= index && index <= 178 {
                self.safe.set(index - 139, item);
            } else if 180 <= index && index <= 219 {
                self.defenders_forge.set(index - 180, item);
            } else if 220 <= index && index <= 259 {
                self.void_vault.set(index - 220, item);
            } else {
                return Err(PlayerError::WrongField);
            }
            Ok(())
        } else {
            Ok(())
        }
    }
}

/// How a player looks: name, hair, skin and clothing colours.
#[derive(Debug, Clone, PartialEq, Eq)]
pub struct Appearance {
    pub name: String,
    pub skin: u8,
    pub hair: u8,
    pub hair_dye: u8,
    pub hide_visuals_1: u8,
    pub hide_visuals_2: u8,
    pub hide_misc: u8,
    pub hair_color: Color,
    pub skin_color: Color,
    pub eye_color: Color,
    pub shirt_color: Color,
    pub under_shift_color: Color,
    pub pants_color: Color,
    pub shoe_color: Color,
    pub unknown_trait: u8,
    pub unknown_trait2: u8,
}

impl Default for Appearance {
    /// A blank appearance with an empty name.
    fn default() -> (r: Appearance)
        ensures
            r.name@.len() == 0,
    {
        Appearance {
            name: String::new(),
            skin: 0,
            hair: 0,
            hair_dye: 0,
            hide_visuals_1: 0,
            hide_visuals_2: 0,
            hide_misc: 0,
            hair_color: Color { r: 0, g: 0, b: 0 },
            skin_color: Color { r: 0, g: 0, b: 0 },
            eye_color: Color { r: 0, g: 0, b: 0 },
            shirt_color: Color { r: 0, g: 0, b: 0 },
            under_shift_color: Color { r: 0, g: 0, b: 0 },
            pants_color: Color { r: 0, g: 0, b: 0 },
            shoe_color: Color { r: 0, g: 0, b: 0 },
            unknown_trait: 0,
            unknown_trait2: 0,
        }
    }
}

impl Appearance {
    /// Read an appearance payload: skin, hair, then the name, then the
    /// dye, visibility, colour and trait fields. An empty name is
    /// rejected.
    pub fn read(inp: &[u8], pos: &mut usize) -> (r: Result<
        Appearance,
        crate::packet::PacketError,
    >)
        ensures
            r matches Ok(a) ==> (crate::packet::appearance_at(inp@, *old(pos) as int) matches Ok(
                (v, e),
            ) && v == crate::packet::appearance_view(a) && *final(pos) as int == e && a.name@.len()
                > 0),
            r matches Err(er) ==> crate::packet::appearance_at(inp@, *old(pos) as int)
                == Err::<(crate::packet::AppearanceView, int), crate::packet::PacketError>(er),
    {
        let skin = match take_u8(inp, pos) {
            Some(v) => v,
            None => {
                return Err(crate::packet::PacketError::CodecError);
            },
        };
        let hair = match take_u8(inp, pos) {
            Some(v) => v,
            None => {
                return Err(crate::packet::PacketError::CodecError);
            },
        };
        let name = match crate::varint::take_varstring(inp, pos) {
            Some(v) => v,
            None => {
                return Err(crate::packet::PacketError::CodecError);
            },
        };
        if name.as_str().is_empty() {
            return Err(crate::packet::PacketError::InvalidField);
        }
        let hair_dye = match take_u8(inp, pos) {
            Some(v) => v,
            None => {
                return Err(crate::packet::PacketError::CodecError);
            },
        };
        let hide_visuals_1 = match take_u8(inp, pos) {
            Some(v) => v,
            None => {
                return Err(crate::packet::PacketError::CodecError);
            },
        };
        let hide_visuals_2 = match take_u8(inp, pos) {
            Some(v) => v,
            None => {
                return Err(crate::packet::PacketError::CodecError);
            },
        };
        let hide_misc = match take_u8(inp, pos) {
            Some(v) => v,
            None => {
                return Err(crate::packet::PacketError::CodecError);
            },
        };
        let hair_color = match Color::read(inp, pos) {
            Some(v) => v,
            None => {
                return Err(crate::packet::PacketError::CodecError);
            },
        };
        let skin_color = match Color::read(inp, pos) {
            Some(v) => v,
            None => {
                return Err(crate::packet::PacketError::CodecError);
            },
        };
        let eye_color = match Color::read(inp, pos) {
            Some(v) => v,
            None => {
                return Err(crate::packet::PacketError::CodecError);
            },
        };
        let shirt_color = match Color::read(inp, pos) {
            Some(v) => v,
            None => {
                return Err(crate::packet::PacketError::CodecError);
            },
        };
        let under_shift_color = match Color::read(inp, pos) {
            Some(v) => v,
            None => {
                return Err(crate::packet::PacketError::CodecError);
            },
        };
        let pants_color = match Color::read(inp, pos) {
            Some(v) => v,
            None => {
                return Err(crate::packet::PacketError::CodecError);
            },
        };
        let shoe_color = match Color::read(inp, pos) {
            Some(v) => v,
            None => {
                return Err(crate::packet::PacketError::CodecError);
            },
        };
        let unknown_trait = match take_u8(inp, pos) {
            Some(v) => v,
            None => {
                return Err(crate::packet::PacketError::CodecError);
            },
        };
        let unknown_trait2 = match take_u8(inp, pos) {
            Some(v) => v,
            None => {
                return Err(crate::packet::PacketError::CodecError);
            },
        };
        Ok(
            Appearance {
                name,
                skin,
                hair,
                hair_dye,
                hide_visuals_1,
                hide_visuals_2,
                hide_misc,
                hair_color,
                skin_color,
                eye_color,
                shirt_color,
                under_shift_color,
                pants_color,
                shoe_color,
                unknown_trait,
                unknown_trait2,
            },
        )
    }

    /// Set the appearance for the first time. Once the name is set, any
    /// further write is refused.
    pub fn init(&mut self, other: Appearance) -> (r: Result<(), PlayerError>)
        ensures
            old(self).name@.len() > 0 ==> r == Err::<(), PlayerError>(PlayerError::WrongField)
                && *final(self) == *old(self),
            old(self).name@.len() == 0 ==> r is Ok && *final(self) == other,
    {
        if !self.name.as_str().is_empty() {
            Err(PlayerError::WrongField)
        } else {
            *self = other;
            Ok(())
        }
    }
}

/// Health, mana and buffs, each settable exactly once.
#[derive(Debug, Clone, PartialEq, Eq)]
pub struct Status {
    pub hp: u16,
    pub max_hp: u16,
    pub mana: u16,
    pub max_mana: u16,
    pub buffs: Vec<u16>,
}

impl Default for Status {
    /// A fresh status: nothing set, twenty-two empty buff slots.
    fn default() -> (r: Status)
        ensures
            r.hp == 0 && r.max_hp == 0 && r.mana == 0 && r.max_mana == 0,
            r.buffs@.len() == 22,
            forall|i: int| 0 <= i < 22 ==> r.buffs@[i] == 0,
    {
        let mut buffs: Vec<u16> = Vec::new();
        let mut i: usize = 0;
        while i < 22
            invariant
                buffs@.len() == i,
                i <= 22,
                forall|j: int| 0 <= j < i ==> buffs@[j] == 0,
            decreases 22 - i,
        {
            buffs.push(0);
            i = i + 1;
        }
        Status { hp: 0, max_hp: 0, mana: 0, max_mana: 0, buffs }
    }
}

impl Status {
    /// Apply the first write of a health, mana or buff packet. A field
    /// already set, or a packet of any other kind, is refused. The first
    /// health packet sets the maximum and fills the current value to it;
    /// mana behaves the same; buffs may be set while all slots are empty.
    pub fn init(&mut self, packet: crate::packet::Packet) -> (r: Result<(), PlayerError>)
        ensures
            packet matches crate::packet::Packet::PlayerHp { hp, max_hp } ==> {
                &&& (old(self).max_hp == 0 ==> r is Ok && *final(self) == Status {
                    hp: max_hp,
                    max_hp,
                    ..*old(self)
                })
                &&& (old(self).max_hp != 0 ==> r == Err::<(), PlayerError>(PlayerError::WrongField)
                    && *final(self) == *old(self))
            },
            packet matches crate::packet::Packet::PlayerMana { mana, max_mana } ==> {
                &&& (old(self).max_mana == 0 ==> r is Ok && *final(self) == Status {
                    mana: max_mana,
                    max_mana,
                    ..*old(self)
                })
                &&& (old(self).max_mana != 0 ==> r == Err::<(), PlayerError>(
                    PlayerError::WrongField,
                ) && *final(self) == *old(self))
            },
            packet matches crate::packet::Packet::PlayerBuff { buffs } ==> {
                &&& ((forall|i: int| 0 <= i < old(self).buffs@.len() ==> old(self).buffs@[i] == 0)
                    ==> r is Ok && *final(self) == Status { buffs: buffs, ..*old(self) })
                &&& (!(forall|i: int| 0 <= i < old(self).buffs@.len() ==> old(self).buffs@[i] == 0)
                    ==> r == Err::<(), PlayerError>(PlayerError::WrongField) && *final(self)
                    == *old(self))
            },
            !(packet matches crate::packet::Packet::PlayerHp { .. }) && !(packet
                matches crate::packet::Packet::PlayerMana { .. }) && !(packet
                matches crate::packet::Packet::PlayerBuff { .. }) ==> r == Err::<(), PlayerError>(
                PlayerError::WrongField,
            ) && *final(self) == *old(self),
    {
        match packet {
            crate::packet::Packet::PlayerHp { hp: _, max_hp } => {
                if self.max_hp == 0 {
                    self.max_hp = max_hp;
                    self.hp = max_hp;
                    Ok(())
                } else {
                    Err(PlayerError::WrongField)
                }
            },
            crate::packet::Packet::PlayerMana { mana: _, max_mana } => {
                if self.max_mana == 0 {
                    self.max_mana = max_mana;
                    self.mana = max_mana;
                    Ok(())
                } else {
                    Err(PlayerError::WrongField)
                }
            },
            crate::packet::Packet::PlayerBuff { buffs } => {
                let mut all_zero = true;
                let mut i: usize = 0;
                while i < self.buffs.len()
                    invariant
                        i <= self.buffs@.len(),
                        all_zero == (forall|j: int| 0 <= j < i ==> self.buffs@[j] == 0),
                    decreases self.buffs@.len() - i,
                {
                    if self.buffs[i] != 0 {
                        all_zero = false;
                    }
                    i = i + 1;
                }
                if all_zero {
                    self.buffs = buffs;
                    Ok(())
                } else {
                    Err(PlayerError::WrongField)
                }
            },
            _ => Err(PlayerError::WrongField),
        }
    }
}

/// One connected player.
#[derive(Debug, Clone, PartialEq, Eq)]
pub struct Player {
    /// The slot the client believes it occupies.
    pub id: u8,
    /// The client-supplied identity string, settable until first set.
    pub uuid: String,
    /// Health, mana and buffs.
    pub status: Status,
    /// The slot contents.
    pub inventory: Inventory,
    /// Name and looks.
    pub appearance: Appearance,
    /// Difficulty flags.
    pub difficulty: Difficulty,
    /// Torch flags.
    pub torch_state: TorchState,
}

impl Default for Player {
    /// A fresh player with nothing set.
    fn default() -> (r: Player)
        ensures
            r.id == 0,
            r.uuid@.len() == 0,
            r.status.max_hp == 0 && r.status.max_mana == 0,
            r.appearance.name@.len() == 0,
            inventory_wf(r.inventory),
    {
        Player {
            id: 0,
            uuid: String::new(),
            status: Default::default(),
            inventory: Default::default(),
            appearance: Default::default(),
            difficulty: Difficulty { bits: 0 },
            torch_state: TorchState { bits: 0 },
        }
    }
}

} // verus!
