//! The wire protocol: frames, message types and their payloads.
//!
//! Every frame starts with a little-endian 16-bit total length counting
//! itself, one message-type byte, and the payload.

use vstd::prelude::*;

verus! {

use crate::varint::{varstring_bytes, put_varstring, take_varstring, varstring_at};
use crate::wire::{put_u8, put_u16, put_i32, take_u8, take_u16, take_u32};
use crate::player::Appearance;

/// Why a frame could not be encoded or decoded.
#[derive(Debug, Clone, Copy, PartialEq, Eq, Structural)]
pub enum PacketError {
    /// The bytes of a frame could not be parsed.
    CodecError,
    /// A field value lies outside its domain.
    InvalidField,
    /// The type byte has no handler; it is carried along.
    UnknownType(u8),
    /// The message cannot be encoded.
    Unimplemented,
    /// The declared frame length is inconsistent with the buffer: `told`
    /// is the declared length, `found` how many bytes were available.
    InvalidSize { told: usize, found: usize },
}

/// How a piece of localized text is to be interpreted.
#[derive(Debug, Clone, Copy, PartialEq, Eq, Structural)]
pub enum NetworkTextMode {
    /// The text is shown as it is.
    Literal,
    /// The text is a format template filled by the substitutions.
    Formattable,
    /// The text is a localization key looked up client-side.
    LocalizationKey,
}

/// A localized text: a mode, a template or key, and substitutions.
#[derive(Debug, PartialEq, Eq)]
pub struct NetworkText {
    pub mode: NetworkTextMode,
    pub text: String,
    pub substitution: Vec<NetworkText>,
}

/// The mode byte of a localized text.
pub open spec fn text_mode_byte(m: NetworkTextMode) -> u8 {
    match m {
        NetworkTextMode::Literal => 0,
        NetworkTextMode::Formattable => 1,
        NetworkTextMode::LocalizationKey => 2,
    }
}

/// The wire bytes of a localized text: the mode byte, the text, and, for
/// non-literal modes, the substitution count and the substitutions.
pub open spec fn text_bytes(t: NetworkText) -> Seq<u8>
    decreases t,
{
    seq![text_mode_byte(t.mode)] + varstring_bytes(t.text@) + (if t.mode is Literal {
        Seq::empty()
    } else {
        seq![t.substitution@.len() as u8] + texts_bytes(t.substitution@)
    })
}

/// The concatenated wire bytes of a list of localized texts.
pub open spec fn texts_bytes(ts: Seq<NetworkText>) -> Seq<u8>
    decreases ts,
{
    if ts.len() == 0 {
        Seq::empty()
    } else {
        text_bytes(ts[0]) + texts_bytes(ts.drop_first())
    }
}

/// A localized text as the wire can carry it: substitution lists fit in a
/// count byte, and a literal text, whose substitutions are never written,
/// has none.
pub open spec fn text_wf(t: NetworkText) -> bool
    decreases t,
{
    &&& t.substitution@.len() <= 255
    &&& (t.mode is Literal ==> t.substitution@.len() == 0)
    &&& (forall|i: int| 0 <= i < t.substitution@.len() ==> text_wf(#[trigger] t.substitution@[i]))
}

impl NetworkText {
    /// A literal text with no substitutions.
    pub fn new(string: &str) -> (r: NetworkText)
        ensures
            r.mode is Literal,
            r.text@ == string@,
            r.substitution@.len() == 0,
            text_wf(r),
    {
        NetworkText { mode: NetworkTextMode::Literal, text: string.to_owned(), substitution: Vec::new() }
    }

    /// A localization key with no substitutions.
    pub fn key(string: &str) -> (r: NetworkText)
        ensures
            r.mode is LocalizationKey,
            r.text@ == string@,
            r.substitution@.len() == 0,
            text_wf(r),
    {
        NetworkText {
            mode: NetworkTextMode::LocalizationKey,
            text: string.to_owned(),
            substitution: Vec::new(),
        }
    }

    /// Append the wire bytes of this text.
    pub fn write(&self, out: &mut Vec<u8>)
        requires
            text_wf(*self),
        ensures
            final(out)@ == old(out)@ + text_bytes(*self),
        decreases *self,
    {
        match self.mode {
            NetworkTextMode::Literal => put_u8(out, 0),
            NetworkTextMode::Formattable => put_u8(out, 1),
            NetworkTextMode::LocalizationKey => put_u8(out, 2),
        }
        put_varstring(out, self.text.as_str());
        match self.mode {
            NetworkTextMode::Literal => {
                assert(final(out)@ =~= old(out)@ + text_bytes(*self));
            },
            _ => {
                put_u8(out, self.substitution.len() as u8);
                let ghost before = out@;
                let mut i: usize = 0;
                while i < self.substitution.len()
                    invariant
                        text_wf(*self),
                        i <= self.substitution@.len(),
                        out@ == before + texts_bytes(self.substitution@.take(i as int)),
                    decreases self.substitution@.len() - i,
                {
                    self.substitution[i].write(out);
                    proof {
                        lemma_texts_bytes_take(self.substitution@, i as int);
                    }
                    i = i + 1;
                }
                proof {
                    assert(self.substitution@.take(self.substitution@.len() as int)
                        =~= self.substitution@);
                    assert(final(out)@ =~= old(out)@ + text_bytes(*self));
                }
            },
        }
    }
}

/// Taking one more text extends the concatenated bytes by that text.
proof fn lemma_texts_bytes_take(ts: Seq<NetworkText>, i: int)
    requires
        0 <= i < ts.len(),
    ensures
        texts_bytes(ts.take(i + 1)) == texts_bytes(ts.take(i)) + text_bytes(ts[i]),
    decreases i,
{
    if i == 0 {
        assert(ts.take(1).drop_first() =~= Seq::<NetworkText>::empty());
        assert(ts.take(1).len() == 1);
        assert(ts.take(1)[0] == ts[0]);
        assert(texts_bytes(ts.take(1)) == text_bytes(ts.take(1)[0]) + texts_bytes(
            ts.take(1).drop_first(),
        ));
        assert(texts_bytes(Seq::<NetworkText>::empty()) == Seq::<u8>::empty());
        assert(text_bytes(ts[0]) + Seq::<u8>::empty() =~= text_bytes(ts[0]));
        assert(texts_bytes(ts.take(0)) =~= Seq::<u8>::empty());
        assert(texts_bytes(ts.take(0)) + text_bytes(ts[0]) =~= text_bytes(ts[0]));
    } else {
        lemma_texts_bytes_take(ts.drop_first(), i - 1);
        assert(ts.take(i + 1).drop_first() =~= ts.drop_first().take(i));
        assert(ts.take(i).drop_first() =~= ts.drop_first().take(i - 1));
        assert(texts_bytes(ts.take(i + 1)) == text_bytes(ts[0]) + texts_bytes(
            ts.drop_first().take(i),
        ));
        assert(texts_bytes(ts.take(i)) == text_bytes(ts[0]) + texts_bytes(
            ts.drop_first().take(i - 1),
        ));
        assert(ts.drop_first()[i - 1] == ts[i]);
        assert(text_bytes(ts[0]) + (texts_bytes(ts.drop_first().take(i - 1)) + text_bytes(ts[i]))
            =~= (text_bytes(ts[0]) + texts_bytes(ts.drop_first().take(i - 1))) + text_bytes(
            ts[i],
        ));
    }
}

/// The pre-serialized world-info payload.
#[derive(Debug, Default, Clone, PartialEq, Eq)]
pub struct WorldInfo {
    /// The payload bytes of the world-info message.
    pub data: Vec<u8>,
}

/// One wire message.
#[derive(Debug, PartialEq, Eq)]
pub enum Packet {
    /// A placeholder with no wire form.
    Empty,
    /// The client asks whether its protocol version is accepted.
    ConnectRequest(String),
    /// The client asks for the world metadata.
    WorldDataRequest,
    /// The client asks for the tiles around a point.
    EssentialTilesRequest(i32, i32),
    /// The client reports its identity string.
    PlayerUUID(String),
    /// The server assigns the client its slot.
    SetUserSlot(u8),
    /// The server sends the pre-serialized world metadata.
    WorldInfo(WorldInfo),
    /// The server closes the connection with a reason.
    Disconnect(NetworkText),
    /// The server reports loading progress.
    Status(i32, NetworkText, u8),
    /// The client reports its looks and name.
    PlayerAppearance(Appearance),
    /// The client reports its health.
    PlayerHp { hp: u16, max_hp: u16 },
    /// The client reports its mana.
    PlayerMana { mana: u16, max_mana: u16 },
    /// The client reports its buffs.
    PlayerBuff { buffs: Vec<u16> },
    /// The client stores an item into an inventory slot.
    PlayerInventorySlot { slot_index: u16, amount: u16, item_prefix: u8, net_id: u16 },
}

/// A localized text as its mathematical content.
pub struct TextView {
    pub mode: NetworkTextMode,
    pub text: Seq<char>,
    pub substitution: Seq<TextView>,
}

/// The content of a localized text.
pub open spec fn text_view(t: NetworkText) -> TextView
    decreases t,
{
    TextView { mode: t.mode, text: t.text@, substitution: texts_view(t.substitution@) }
}

/// The contents of a list of localized texts.
pub open spec fn texts_view(ts: Seq<NetworkText>) -> Seq<TextView>
    decreases ts,
{
    if ts.len() == 0 {
        Seq::empty()
    } else {
        seq![text_view(ts[0])] + texts_view(ts.drop_first())
    }
}

/// How deeply substitutions nest below this text.
pub open spec fn text_depth(t: NetworkText) -> nat
    decreases t,
{
    1 + texts_depth(t.substitution@)
}

/// The deepest nesting among a list of texts.
pub open spec fn texts_depth(ts: Seq<NetworkText>) -> nat
    decreases ts,
{
    if ts.len() == 0 {
        0
    } else if text_depth(ts[0]) >= texts_depth(ts.drop_first()) {
        text_depth(ts[0])
    } else {
        texts_depth(ts.drop_first())
    }
}

/// Every template in the text tree has a byte count its varstring prefix
/// can carry.
pub open spec fn text_small(t: NetworkText) -> bool
    decreases t,
{
    vstd::utf8::encode_utf8(t.text@).len() <= u64::MAX && (forall|i: int|
        0 <= i < t.substitution@.len() ==> text_small(#[trigger] t.substitution@[i]))
}

/// The localized text starting at position `p` of `b`: its content and
/// the position just past it. `fuel` bounds how deep substitutions may
/// nest; the byte form of a text is strictly longer than its nesting, so
/// any fuel at least the frame length suffices.
pub open spec fn text_at(b: Seq<u8>, p: int, fuel: nat) -> Option<(TextView, int)>
    decreases fuel, 1int, 0int,
{
    if fuel == 0 || p < 0 || p + 1 > b.len() {
        None
    } else {
        let mode = if b[p] == 0 {
            Some(NetworkTextMode::Literal)
        } else if b[p] == 1 {
            Some(NetworkTextMode::Formattable)
        } else if b[p] == 2 {
            Some(NetworkTextMode::LocalizationKey)
        } else {
            None
        };
        match mode {
            None => None,
            Some(m) => match varstring_at(b, p + 1) {
                None => None,
                Some((s, q)) => {
                    if m is Literal {
                        Some((TextView { mode: m, text: s, substitution: Seq::empty() }, q))
                    } else if q + 1 > b.len() {
                        None
                    } else {
                        match texts_at(b, q + 1, b[q] as nat, fuel) {
                            None => None,
                            Some((subs, e)) => Some(
                                (TextView { mode: m, text: s, substitution: subs }, e),
                            ),
                        }
                    }
                },
            },
        }
    }
}

/// `count` localized texts, one after the other.
pub open spec fn texts_at(b: Seq<u8>, p: int, count: nat, fuel: nat) -> Option<
    (Seq<TextView>, int),
>
    decreases fuel, 0int, count,
{
    if count == 0 {
        Some((Seq::empty(), p))
    } else if fuel == 0 {
        None
    } else {
        match text_at(b, p, (fuel - 1) as nat) {
            None => None,
            Some((t, q)) => match texts_at(b, q, (count - 1) as nat, fuel) {
                None => None,
                Some((rest, e)) => Some((seq![t] + rest, e)),
            },
        }
    }
}

/// An appearance as its mathematical content.
pub struct AppearanceView {
    pub name: Seq<char>,
    pub skin: u8,
    pub hair: u8,
    pub hair_dye: u8,
    pub hide_visuals_1: u8,
    pub hide_visuals_2: u8,
    pub hide_misc: u8,
    pub hair_color: crate::player::Color,
    pub skin_color: crate::player::Color,
    pub eye_color: crate::player::Color,
    pub shirt_color: crate::player::Color,
    pub under_shift_color: crate::player::Color,
    pub pants_color: crate::player::Color,
    pub shoe_color: crate::player::Color,
    pub unknown_trait: u8,
    pub unknown_trait2: u8,
}

/// The content of an appearance.
pub open spec fn appearance_view(a: Appearance) -> AppearanceView {
    AppearanceView {
        name: a.name@,
        skin: a.skin,
        hair: a.hair,
        hair_dye: a.hair_dye,
        hide_visuals_1: a.hide_visuals_1,
        hide_visuals_2: a.hide_visuals_2,
        hide_misc: a.hide_misc,
        hair_color: a.hair_color,
        skin_color: a.skin_color,
        eye_color: a.eye_color,
        shirt_color: a.shirt_color,
        under_shift_color: a.under_shift_color,
        pants_color: a.pants_color,
        shoe_color: a.shoe_color,
        unknown_trait: a.unknown_trait,
        unknown_trait2: a.unknown_trait2,
    }
}

/// A message as its mathematical content: strings as character sequences,
/// buffers as byte sequences.
pub enum PacketView {
    ConnectRequest(Seq<char>),
    WorldDataRequest,
    EssentialTilesRequest(i32, i32),
    PlayerUUID(Seq<char>),
    SetUserSlot(u8),
    WorldInfo(Seq<u8>),
    PlayerAppearance(AppearanceView),
    PlayerHp { hp: u16, max_hp: u16 },
    PlayerMana { mana: u16, max_mana: u16 },
    PlayerBuff { buffs: Seq<u16> },
    PlayerInventorySlot { slot_index: u16, amount: u16, item_prefix: u8, net_id: u16 },
    Disconnect(TextView),
    Status(i32, TextView, u8),
    Other,
}

/// The content of a message.
pub open spec fn packet_view(p: Packet) -> PacketView {
    match p {
        Packet::ConnectRequest(s) => PacketView::ConnectRequest(s@),
        Packet::WorldDataRequest => PacketView::WorldDataRequest,
        Packet::EssentialTilesRequest(x, y) => PacketView::EssentialTilesRequest(x, y),
        Packet::PlayerUUID(s) => PacketView::PlayerUUID(s@),
        Packet::SetUserSlot(id) => PacketView::SetUserSlot(id),
        Packet::WorldInfo(wi) => PacketView::WorldInfo(wi.data@),
        Packet::PlayerAppearance(a) => PacketView::PlayerAppearance(appearance_view(a)),
        Packet::PlayerHp { hp, max_hp } => PacketView::PlayerHp { hp, max_hp },
        Packet::PlayerMana { mana, max_mana } => PacketView::PlayerMana { mana, max_mana },
        Packet::PlayerBuff { buffs } => PacketView::PlayerBuff { buffs: buffs@ },
        Packet::PlayerInventorySlot { slot_index, amount, item_prefix, net_id } => {
            PacketView::PlayerInventorySlot { slot_index, amount, item_prefix, net_id }
        },
        Packet::Disconnect(t) => PacketView::Disconnect(text_view(t)),
        Packet::Status(max, t, flags) => PacketView::Status(max, text_view(t), flags),
        Packet::Empty => PacketView::Other,
    }
}

/// The message-type byte of an encodable message.
pub open spec fn type_byte(p: Packet) -> u8 {
    match p {
        Packet::ConnectRequest(_) => 1,
        Packet::Disconnect(_) => 2,
        Packet::SetUserSlot(_) => 3,
        Packet::PlayerAppearance(_) => 4,
        Packet::PlayerInventorySlot { .. } => 5,
        Packet::WorldDataRequest => 6,
        Packet::WorldInfo(_) => 7,
        Packet::EssentialTilesRequest(_, _) => 8,
        Packet::Status(_, _, _) => 9,
        Packet::PlayerHp { .. } => 16,
        Packet::PlayerMana { .. } => 42,
        Packet::PlayerBuff { .. } => 50,
        Packet::PlayerUUID(_) => 68,
        Packet::Empty => 0,
    }
}

/// Little-endian 16-bit values, one after the other.
pub open spec fn u16s_bytes(s: Seq<u16>) -> Seq<u8>
    decreases s.len(),
{
    if s.len() == 0 {
        Seq::empty()
    } else {
        vstd::bytes::spec_u16_to_le_bytes(s[0]) + u16s_bytes(s.drop_first())
    }
}

/// An RGB triple on the wire.
pub open spec fn color_bytes(c: crate::player::Color) -> Seq<u8> {
    seq![c.r, c.g, c.b]
}

/// The appearance payload after the slot byte.
pub open spec fn appearance_bytes(a: Appearance) -> Seq<u8> {
    seq![a.skin, a.hair] + varstring_bytes(a.name@) + seq![
        a.hair_dye,
        a.hide_visuals_1,
        a.hide_visuals_2,
        a.hide_misc,
    ] + color_bytes(a.hair_color) + color_bytes(a.skin_color) + color_bytes(a.eye_color)
        + color_bytes(a.shirt_color) + color_bytes(a.under_shift_color) + color_bytes(
        a.pants_color,
    ) + color_bytes(a.shoe_color) + seq![a.unknown_trait, a.unknown_trait2]
}

/// The payload of a message, without the frame header.
pub open spec fn payload_bytes(p: Packet) -> Seq<u8> {
    match p {
        Packet::ConnectRequest(s) => varstring_bytes(s@),
        Packet::WorldDataRequest => Seq::empty(),
        Packet::EssentialTilesRequest(x, y) => vstd::bytes::spec_u32_to_le_bytes(x as u32)
            + vstd::bytes::spec_u32_to_le_bytes(y as u32),
        Packet::PlayerUUID(s) => varstring_bytes(s@),
        Packet::SetUserSlot(id) => seq![id],
        Packet::WorldInfo(wi) => wi.data@,
        Packet::Disconnect(t) => text_bytes(t),
        Packet::Status(max, t, flags) => vstd::bytes::spec_u32_to_le_bytes(max as u32)
            + text_bytes(t) + seq![flags],
        Packet::PlayerAppearance(a) => seq![0u8] + appearance_bytes(a),
        Packet::PlayerHp { hp, max_hp } => seq![0u8] + vstd::bytes::spec_u16_to_le_bytes(hp)
            + vstd::bytes::spec_u16_to_le_bytes(max_hp),
        Packet::PlayerMana { mana, max_mana } => seq![0u8] + vstd::bytes::spec_u16_to_le_bytes(
            mana,
        ) + vstd::bytes::spec_u16_to_le_bytes(max_mana),
        Packet::PlayerBuff { buffs } => seq![0u8] + u16s_bytes(buffs@),
        Packet::PlayerInventorySlot { slot_index, amount, item_prefix, net_id } => seq![0u8]
            + vstd::bytes::spec_u16_to_le_bytes(slot_index) + vstd::bytes::spec_u16_to_le_bytes(
            amount,
        ) + seq![item_prefix] + vstd::bytes::spec_u16_to_le_bytes(net_id),
        Packet::Empty => Seq::empty(),
    }
}

/// The whole frame of a message: the length, the type byte, the payload.
pub open spec fn packet_bytes(p: Packet) -> Seq<u8> {
    vstd::bytes::spec_u16_to_le_bytes((payload_bytes(p).len() + 3) as u16) + seq![type_byte(p)]
        + payload_bytes(p)
}

/// A message whose parts are in shape for the wire: localized texts with
/// byte-sized substitution lists, exactly twenty-two buff slots.
pub open spec fn packet_wf(p: Packet) -> bool {
    match p {
        Packet::Disconnect(t) => text_wf(t),
        Packet::Status(_, t, _) => text_wf(t),
        Packet::PlayerBuff { buffs } => buffs@.len() == 22,
        Packet::PlayerAppearance(a) => a.name@.len() > 0,
        _ => true,
    }
}

/// The frame fits its 16-bit length field.
pub open spec fn packet_fits(p: Packet) -> bool {
    payload_bytes(p).len() + 3 <= 65535
}


/// Append an appearance payload.
fn put_appearance(out: &mut Vec<u8>, a: &Appearance)
    ensures
        final(out)@ == old(out)@ + appearance_bytes(*a),
{
    put_u8(out, a.skin);
    put_u8(out, a.hair);
    put_varstring(out, a.name.as_str());
    put_u8(out, a.hair_dye);
    put_u8(out, a.hide_visuals_1);
    put_u8(out, a.hide_visuals_2);
    put_u8(out, a.hide_misc);
    put_color(out, &a.hair_color);
    put_color(out, &a.skin_color);
    put_color(out, &a.eye_color);
    put_color(out, &a.shirt_color);
    put_color(out, &a.under_shift_color);
    put_color(out, &a.pants_color);
    put_color(out, &a.shoe_color);
    put_u8(out, a.unknown_trait);
    put_u8(out, a.unknown_trait2);
    assert(final(out)@ =~= old(out)@ + appearance_bytes(*a));
}

/// Append a colour triple.
fn put_color(out: &mut Vec<u8>, c: &crate::player::Color)
    ensures
        final(out)@ == old(out)@ + color_bytes(*c),
{
    put_u8(out, c.r);
    put_u8(out, c.g);
    put_u8(out, c.b);
    assert(final(out)@ =~= old(out)@ + color_bytes(*c));
}

/// Append little-endian 16-bit values, one after the other.
fn put_u16s(out: &mut Vec<u8>, vs: &Vec<u16>)
    ensures
        final(out)@ == old(out)@ + u16s_bytes(vs@),
{
    let ghost start = out@;
    let mut i: usize = 0;
    while i < vs.len()
        invariant
            i <= vs@.len(),
            out@ == start + u16s_bytes(vs@.take(i as int)),
        decreases vs@.len() - i,
    {
        put_u16(out, vs[i]);
        proof {
            lemma_u16s_bytes_take(vs@, i as int);
        }
        i = i + 1;
    }
    proof {
        assert(vs@.take(vs@.len() as int) =~= vs@);
    }
}

/// Taking one more value extends the concatenated bytes by its encoding.
proof fn lemma_u16s_bytes_take(s: Seq<u16>, i: int)
    requires
        0 <= i < s.len(),
    ensures
        u16s_bytes(s.take(i + 1)) == u16s_bytes(s.take(i)) + vstd::bytes::spec_u16_to_le_bytes(
            s[i],
        ),
    decreases i,
{
    if i == 0 {
        assert(s.take(1).drop_first() =~= Seq::<u16>::empty());
        assert(s.take(1)[0] == s[0]);
        assert(u16s_bytes(s.take(0)) == Seq::<u8>::empty());
        assert(u16s_bytes(s.take(1)) == vstd::bytes::spec_u16_to_le_bytes(s[0]) + u16s_bytes(
            s.take(1).drop_first(),
        ));
        assert(u16s_bytes(s.take(0)) + vstd::bytes::spec_u16_to_le_bytes(s[0])
            =~= vstd::bytes::spec_u16_to_le_bytes(s[0]) + Seq::<u8>::empty());
    } else {
        lemma_u16s_bytes_take(s.drop_first(), i - 1);
        assert(s.take(i + 1).drop_first() =~= s.drop_first().take(i));
        assert(s.take(i).drop_first() =~= s.drop_first().take(i - 1));
        assert(s.drop_first()[i - 1] == s[i]);
        assert(vstd::bytes::spec_u16_to_le_bytes(s.take(i + 1)[0]) + (u16s_bytes(
            s.drop_first().take(i - 1),
        ) + vstd::bytes::spec_u16_to_le_bytes(s[i])) =~= (vstd::bytes::spec_u16_to_le_bytes(
            s.take(i + 1)[0],
        ) + u16s_bytes(s.drop_first().take(i - 1))) + vstd::bytes::spec_u16_to_le_bytes(s[i]));
        assert(s.take(i + 1)[0] == s[0]);
        assert(s.take(i)[0] == s[0]);
    }
}

/// Append the payload of a message.
#[verifier::rlimit(50)]
fn put_payload(out: &mut Vec<u8>, p: &Packet)
    requires
        packet_wf(*p),
        !(p matches Packet::Empty),
    ensures
        final(out)@ == old(out)@ + payload_bytes(*p),
{
    match p {
        Packet::ConnectRequest(s) => {
            put_varstring(out, s.as_str());
        },
        Packet::WorldDataRequest => {
            assert(final(out)@ =~= old(out)@ + payload_bytes(*p));
        },
        Packet::EssentialTilesRequest(x, y) => {
            put_i32(out, *x);
            put_i32(out, *y);
            assert(final(out)@ =~= old(out)@ + payload_bytes(*p));
        },
        Packet::PlayerUUID(s) => {
            put_varstring(out, s.as_str());
        },
        Packet::SetUserSlot(id) => {
            put_u8(out, *id);
            assert(final(out)@ =~= old(out)@ + payload_bytes(*p));
        },
        Packet::WorldInfo(wi) => {
            out.extend_from_slice(wi.data.as_slice());
        },
        Packet::Disconnect(t) => {
            t.write(out);
        },
        Packet::Status(max, t, flags) => {
            put_i32(out, *max);
            t.write(out);
            put_u8(out, *flags);
            assert(final(out)@ =~= old(out)@ + payload_bytes(*p));
        },
        Packet::PlayerAppearance(a) => {
            put_u8(out, 0);
            put_appearance(out, a);
            assert(final(out)@ =~= old(out)@ + payload_bytes(*p));
        },
        Packet::PlayerHp { hp, max_hp } => {
            put_u8(out, 0);
            put_u16(out, *hp);
            put_u16(out, *max_hp);
            assert(final(out)@ =~= old(out)@ + payload_bytes(*p));
        },
        Packet::PlayerMana { mana, max_mana } => {
            put_u8(out, 0);
            put_u16(out, *mana);
            put_u16(out, *max_mana);
            assert(final(out)@ =~= old(out)@ + payload_bytes(*p));
        },
        Packet::PlayerBuff { buffs } => {
            put_u8(out, 0);
            put_u16s(out, buffs);
            assert(final(out)@ =~= old(out)@ + payload_bytes(*p));
        },
        Packet::PlayerInventorySlot { slot_index, amount, item_prefix, net_id } => {
            put_u8(out, 0);
            put_u16(out, *slot_index);
            put_u16(out, *amount);
            put_u8(out, *item_prefix);
            put_u16(out, *net_id);
            assert(final(out)@ =~= old(out)@ + payload_bytes(*p));
        },
        Packet::Empty => {},
    }
}

/// The frame codec: encodes messages into frames and decodes frames into
/// messages.
#[derive(Debug, Default, Clone, PartialEq, Eq, Structural)]
pub struct PacketCodec;

/// The messages the server sends; the rest arrive from clients and the
/// server's encoder refuses them.
pub open spec fn server_sends(p: Packet) -> bool {
    match p {
        Packet::SetUserSlot(_) => true,
        Packet::Disconnect(_) => true,
        Packet::WorldInfo(_) => true,
        Packet::Status(_, _, _) => true,
        _ => false,
    }
}

impl PacketCodec {
    /// Encode one server-to-client message as a frame, appending its
    /// bytes. Messages the server only receives are refused with the
    /// output untouched; a frame whose payload outgrows the 16-bit length
    /// field is refused too.
    pub fn encode(&self, p: &Packet, out: &mut Vec<u8>) -> (r: Result<(), PacketError>)
        requires
            packet_wf(*p),
        ensures
            !server_sends(*p) ==> r == Err::<(), PacketError>(PacketError::Unimplemented)
                && *final(out) == *old(out),
            server_sends(*p) && packet_fits(*p) ==> r is Ok && final(out)@ == old(out)@
                + packet_bytes(*p),
            server_sends(*p) && !packet_fits(*p) ==> r == Err::<(), PacketError>(
                PacketError::InvalidField,
            ) && *final(out) == *old(out),
    {
        let ok = match p {
            Packet::SetUserSlot(_) => true,
            Packet::Disconnect(_) => true,
            Packet::WorldInfo(_) => true,
            Packet::Status(_, _, _) => true,
            _ => false,
        };
        if !ok {
            return Err(PacketError::Unimplemented);
        }
        encode_frame(p, out)
    }
}

/// Encode any message as a frame, appending its bytes; this is the
/// client-side dual of the decoder, and what round-trip statements and
/// rebroadcast use. A placeholder message cannot be encoded; a frame
/// whose payload outgrows the 16-bit length field is refused.
pub fn encode_frame(p: &Packet, out: &mut Vec<u8>) -> (r: Result<(), PacketError>)
    requires
        packet_wf(*p),
    ensures
        p matches Packet::Empty ==> r == Err::<(), PacketError>(PacketError::Unimplemented)
            && *final(out) == *old(out),
        !(p matches Packet::Empty) && packet_fits(*p) ==> r is Ok && final(out)@ == old(out)@
            + packet_bytes(*p),
        !(p matches Packet::Empty) && !packet_fits(*p) ==> r == Err::<(), PacketError>(
            PacketError::InvalidField,
        ) && *final(out) == *old(out),
{
    {
        if let Packet::Empty = p {
            return Err(PacketError::Unimplemented);
        }
        let mut payload: Vec<u8> = Vec::new();
        put_payload(&mut payload, p);
        if payload.len() > 65532 {
            return Err(PacketError::InvalidField);
        }
        put_u16(out, (payload.len() + 3) as u16);
        let ty: u8 = match p {
            Packet::ConnectRequest(_) => 1,
            Packet::Disconnect(_) => 2,
            Packet::SetUserSlot(_) => 3,
            Packet::PlayerAppearance(_) => 4,
            Packet::PlayerInventorySlot { .. } => 5,
            Packet::WorldDataRequest => 6,
            Packet::WorldInfo(_) => 7,
            Packet::EssentialTilesRequest(_, _) => 8,
            Packet::Status(_, _, _) => 9,
            Packet::PlayerHp { .. } => 16,
            Packet::PlayerMana { .. } => 42,
            Packet::PlayerBuff { .. } => 50,
            Packet::PlayerUUID(_) => 68,
            Packet::Empty => 0,
        };
        put_u8(out, ty);
        out.extend_from_slice(payload.as_slice());
        assert(final(out)@ =~= old(out)@ + packet_bytes(*p));
        Ok(())
    }
}

/// Little-endian 16-bit values read back from bytes, `n` of them.
pub open spec fn u16s_at(b: Seq<u8>, q: int, n: nat) -> Seq<u16>
    decreases n,
{
    if n == 0 {
        Seq::empty()
    } else {
        seq![vstd::bytes::spec_u16_from_le_bytes(b.subrange(q, q + 2))] + u16s_at(
            b,
            q + 2,
            (n - 1) as nat,
        )
    }
}

/// An appearance parsed from position `q`.
pub open spec fn appearance_at(b: Seq<u8>, q: int) -> Result<(AppearanceView, int), PacketError> {
    if q < 0 || q + 2 > b.len() {
        Err(PacketError::CodecError)
    } else {
        match varstring_at(b, q + 2) {
            None => Err(PacketError::CodecError),
            Some((name, e)) => {
                if name.len() == 0 {
                    Err(PacketError::InvalidField)
                } else if e + 27 > b.len() {
                    Err(PacketError::CodecError)
                } else {
                    Ok(
                        (
                            AppearanceView {
                                name,
                                skin: b[q],
                                hair: b[q + 1],
                                hair_dye: b[e],
                                hide_visuals_1: b[e + 1],
                                hide_visuals_2: b[e + 2],
                                hide_misc: b[e + 3],
                                hair_color: crate::player::Color {
                                    r: b[e + 4],
                                    g: b[e + 5],
                                    b: b[e + 6],
                                },
                                skin_color: crate::player::Color {
                                    r: b[e + 7],
                                    g: b[e + 8],
                                    b: b[e + 9],
                                },
                                eye_color: crate::player::Color {
                                    r: b[e + 10],
                                    g: b[e + 11],
                                    b: b[e + 12],
                                },
                                shirt_color: crate::player::Color {
                                    r: b[e + 13],
                                    g: b[e + 14],
                                    b: b[e + 15],
                                },
                                under_shift_color: crate::player::Color {
                                    r: b[e + 16],
                                    g: b[e + 17],
                                    b: b[e + 18],
                                },
                                pants_color: crate::player::Color {
                                    r: b[e + 19],
                                    g: b[e + 20],
                                    b: b[e + 21],
                                },
                                shoe_color: crate::player::Color {
                                    r: b[e + 22],
                                    g: b[e + 23],
                                    b: b[e + 24],
                                },
                                unknown_trait: b[e + 25],
                                unknown_trait2: b[e + 26],
                            },
                            e + 27,
                        ),
                    )
                }
            },
        }
    }
}

/// A payload of the given type parsed from position `q`; `paylen` is the
/// payload length the frame header declared.
pub open spec fn payload_at(b: Seq<u8>, q: int, ty: u8, paylen: int) -> Result<
    (PacketView, int),
    PacketError,
> {
    if ty == 1 {
        match varstring_at(b, q) {
            Some((s, e)) => Ok((PacketView::ConnectRequest(s), e)),
            None => Err(PacketError::CodecError),
        }
    } else if ty == 68 {
        match varstring_at(b, q) {
            Some((s, e)) => Ok((PacketView::PlayerUUID(s), e)),
            None => Err(PacketError::CodecError),
        }
    } else if ty == 6 {
        Ok((PacketView::WorldDataRequest, q))
    } else if ty == 8 {
        if q + 8 <= b.len() {
            Ok(
                (
                    PacketView::EssentialTilesRequest(
                        vstd::bytes::spec_u32_from_le_bytes(b.subrange(q, q + 4)) as i32,
                        vstd::bytes::spec_u32_from_le_bytes(b.subrange(q + 4, q + 8)) as i32,
                    ),
                    q + 8,
                ),
            )
        } else {
            Err(PacketError::CodecError)
        }
    } else if ty == 3 {
        if q + 1 <= b.len() {
            Ok((PacketView::SetUserSlot(b[q]), q + 1))
        } else {
            Err(PacketError::CodecError)
        }
    } else if ty == 7 {
        if 0 <= paylen && q + paylen <= b.len() {
            Ok((PacketView::WorldInfo(b.subrange(q, q + paylen)), q + paylen))
        } else {
            Err(PacketError::CodecError)
        }
    } else if ty == 16 {
        if q + 5 <= b.len() {
            Ok(
                (
                    PacketView::PlayerHp {
                        hp: vstd::bytes::spec_u16_from_le_bytes(b.subrange(q + 1, q + 3)),
                        max_hp: vstd::bytes::spec_u16_from_le_bytes(b.subrange(q + 3, q + 5)),
                    },
                    q + 5,
                ),
            )
        } else {
            Err(PacketError::CodecError)
        }
    } else if ty == 42 {
        if q + 5 <= b.len() {
            Ok(
                (
                    PacketView::PlayerMana {
                        mana: vstd::bytes::spec_u16_from_le_bytes(b.subrange(q + 1, q + 3)),
                        max_mana: vstd::bytes::spec_u16_from_le_bytes(b.subrange(q + 3, q + 5)),
                    },
                    q + 5,
                ),
            )
        } else {
            Err(PacketError::CodecError)
        }
    } else if ty == 50 {
        if q + 45 <= b.len() {
            Ok((PacketView::PlayerBuff { buffs: u16s_at(b, q + 1, 22) }, q + 45))
        } else {
            Err(PacketError::CodecError)
        }
    } else if ty == 5 {
        if q + 8 <= b.len() {
            Ok(
                (
                    PacketView::PlayerInventorySlot {
                        slot_index: vstd::bytes::spec_u16_from_le_bytes(b.subrange(q + 1, q + 3)),
                        amount: vstd::bytes::spec_u16_from_le_bytes(b.subrange(q + 3, q + 5)),
                        item_prefix: b[q + 5],
                        net_id: vstd::bytes::spec_u16_from_le_bytes(b.subrange(q + 6, q + 8)),
                    },
                    q + 8,
                ),
            )
        } else {
            Err(PacketError::CodecError)
        }
    } else if ty == 4 {
        if q + 1 <= b.len() {
            match appearance_at(b, q + 1) {
                Ok((a, e)) => Ok((PacketView::PlayerAppearance(a), e)),
                Err(e) => Err(e),
            }
        } else {
            Err(PacketError::CodecError)
        }
    } else if ty == 2 {
        match text_at(b, q, text_fuel(b)) {
            Some((t, e)) => Ok((PacketView::Disconnect(t), e)),
            None => Err(PacketError::CodecError),
        }
    } else if ty == 9 {
        if q + 4 <= b.len() {
            match text_at(b, q + 4, text_fuel(b)) {
                Some((t, e)) => {
                    if e + 1 <= b.len() {
                        Ok(
                            (
                                PacketView::Status(
                                    vstd::bytes::spec_u32_from_le_bytes(
                                        b.subrange(q, q + 4),
                                    ) as i32,
                                    t,
                                    b[e],
                                ),
                                e + 1,
                            ),
                        )
                    } else {
                        Err(PacketError::CodecError)
                    }
                },
                None => Err(PacketError::CodecError),
            }
        } else {
            Err(PacketError::CodecError)
        }
    } else {
        Err(PacketError::UnknownType(ty))
    }
}

/// The nesting budget for parsing localized text out of `b`: one level
/// per byte is always enough, since every nested text costs at least one
/// byte.
pub open spec fn text_fuel(b: Seq<u8>) -> nat {
    b.len() as nat
}

/// One frame parsed from position `p`: `Ok(None)` when no byte is
/// available, the message and the position past it when a whole frame is,
/// an error when the frame is malformed or of an unknown type.
pub open spec fn decode_at(b: Seq<u8>, p: int) -> Result<Option<(PacketView, int)>, PacketError> {
    if p == b.len() {
        Ok(None)
    } else if p + 2 > b.len() {
        Err(PacketError::CodecError)
    } else {
        let size = vstd::bytes::spec_u16_from_le_bytes(b.subrange(p, p + 2)) as int;
        if size > b.len() - p {
            Err(
                PacketError::InvalidSize {
                    told: size as usize,
                    found: (b.len() - p) as usize,
                },
            )
        } else if p + 3 > b.len() {
            Err(PacketError::CodecError)
        } else {
            match payload_at(b, p + 3, b[p + 2], size - 3) {
                Ok((v, e)) => Ok(Some((v, e))),
                Err(err) => Err(err),
            }
        }
    }
}

/// Reading one more value appends its decoding.
proof fn lemma_u16s_at_snoc(b: Seq<u8>, q: int, k: nat)
    ensures
        u16s_at(b, q, k + 1) == u16s_at(b, q, k).push(
            vstd::bytes::spec_u16_from_le_bytes(b.subrange(q + 2 * k, q + 2 * k + 2)),
        ),
    decreases k,
{
    if k == 0 {
        assert(u16s_at(b, q + 2, 0) == Seq::<u16>::empty());
        assert(u16s_at(b, q, 0) == Seq::<u16>::empty());
        assert(u16s_at(b, q, 1) == seq![vstd::bytes::spec_u16_from_le_bytes(b.subrange(q, q + 2))]
            + Seq::<u16>::empty());
        assert(u16s_at(b, q, 1) =~= u16s_at(b, q, 0).push(
            vstd::bytes::spec_u16_from_le_bytes(b.subrange(q, q + 2)),
        ));
    } else {
        lemma_u16s_at_snoc(b, q + 2, (k - 1) as nat);
        let f = vstd::bytes::spec_u16_from_le_bytes(b.subrange(q, q + 2));
        let e = vstd::bytes::spec_u16_from_le_bytes(b.subrange(q + 2 * k, q + 2 * k + 2));
        assert((q + 2) + 2 * (k - 1) == q + 2 * k);
        assert(u16s_at(b, q + 2, ((k - 1) as nat) + 1) == u16s_at(b, q + 2, (k - 1) as nat).push(
            e,
        ));
        assert(u16s_at(b, q, (k + 1) as nat) == seq![f] + u16s_at(b, q + 2, k));
        assert(u16s_at(b, q, k) == seq![f] + u16s_at(b, q + 2, (k - 1) as nat));
        assert(seq![f] + u16s_at(b, q + 2, (k - 1) as nat).push(e) =~= (seq![f] + u16s_at(
            b,
            q + 2,
            (k - 1) as nat,
        )).push(e));
    }
}

/// Read `n` little-endian 16-bit values.
fn take_u16s(inp: &[u8], pos: &mut usize, n: usize) -> (r: Option<Vec<u16>>)
    ensures
        r is Some <==> *old(pos) + 2 * n <= inp@.len(),
        r is Some ==> (r->0)@ == u16s_at(inp@, *old(pos) as int, n as nat) && *final(pos)
            == *old(pos) + 2 * n && (r->0)@.len() == n,
{
    let start: usize = *pos;
    if start > inp.len() {
        return None;
    }
    let avail = inp.len() - start;
    if n > avail / 2 {
        proof {
            assert(2 * n > avail);
        }
        return None;
    }
    proof {
        assert(2 * n <= avail);
    }
    let mut vs: Vec<u16> = Vec::new();
    let mut i: usize = 0;
    while i < n
        invariant
            start + 2 * n <= inp@.len(),
            i <= n,
            *pos == start + 2 * i,
            vs@ == u16s_at(inp@, start as int, i as nat),
            vs@.len() == i,
        decreases n - i,
    {
        let v = match take_u16(inp, pos) {
            Some(v) => v,
            None => {
                proof {
                    assert(false);
                }
                return None;
            },
        };
        vs.push(v);
        proof {
            lemma_u16s_at_snoc(inp@, start as int, i as nat);
        }
        i = i + 1;
    }
    Some(vs)
}

/// Read one frame at the cursor; the cursor may stop mid-frame on failure.
#[verifier::rlimit(100)]
#[verifier::spinoff_prover]
fn decode_frame(inp: &[u8], pos: &mut usize) -> (r: Result<Option<Packet>, PacketError>)
    ensures
        r matches Ok(Some(pkt)) ==> (decode_at(inp@, *old(pos) as int) matches Ok(Some(
            (v, e),
        )) && v == packet_view(pkt) && *final(pos) as int == e && packet_wf(pkt)),
        r matches Ok(None) <==> decode_at(inp@, *old(pos) as int) == Ok::<
            Option<(PacketView, int)>,
            PacketError,
        >(None),
        r matches Err(er) ==> decode_at(inp@, *old(pos) as int) == Err::<
            Option<(PacketView, int)>,
            PacketError,
        >(er),
{
        let start: usize = *pos;
        if start == inp.len() {
            return Ok(None);
        }
        let size = match take_u16(inp, pos) {
            Some(v) => v,
            None => {
                return Err(PacketError::CodecError);
            },
        };
        let bytes_left = inp.len() - start;
        if size as usize > bytes_left {
            return Err(PacketError::InvalidSize { told: size as usize, found: bytes_left });
        }
        let ty = match take_u8(inp, pos) {
            Some(v) => v,
            None => {
                return Err(PacketError::CodecError);
            },
        };
        if ty == 1 {
            match take_varstring(inp, pos) {
                Some(t) => Ok(Some(Packet::ConnectRequest(t))),
                None => Err(PacketError::CodecError),
            }
        } else if ty == 68 {
            match take_varstring(inp, pos) {
                Some(t) => Ok(Some(Packet::PlayerUUID(t))),
                None => Err(PacketError::CodecError),
            }
        } else if ty == 6 {
            Ok(Some(Packet::WorldDataRequest))
        } else if ty == 8 {
            let xr = match take_u32(inp, pos) {
                Some(v) => v,
                None => {
                    return Err(PacketError::CodecError);
                },
            };
            let yr = match take_u32(inp, pos) {
                Some(v) => v,
                None => {
                    return Err(PacketError::CodecError);
                },
            };
            let x = #[verifier::truncate] (xr as i32);
            let y = #[verifier::truncate] (yr as i32);
            Ok(Some(Packet::EssentialTilesRequest(x, y)))
        } else if ty == 3 {
            match take_u8(inp, pos) {
                Some(v) => Ok(Some(Packet::SetUserSlot(v))),
                None => Err(PacketError::CodecError),
            }
        } else if ty == 7 {
            if size < 3 {
                return Err(PacketError::CodecError);
            }
            match crate::wire::take_bytes(inp, pos, (size - 3) as usize) {
                Some(data) => Ok(Some(Packet::WorldInfo(WorldInfo { data }))),
                None => Err(PacketError::CodecError),
            }
        } else if ty == 16 {
            let _slot = match take_u8(inp, pos) {
                Some(v) => v,
                None => {
                    return Err(PacketError::CodecError);
                },
            };
            let hp = match take_u16(inp, pos) {
                Some(v) => v,
                None => {
                    return Err(PacketError::CodecError);
                },
            };
            let max_hp = match take_u16(inp, pos) {
                Some(v) => v,
                None => {
                    return Err(PacketError::CodecError);
                },
            };
            Ok(Some(Packet::PlayerHp { hp, max_hp }))
        } else if ty == 42 {
            let _slot = match take_u8(inp, pos) {
                Some(v) => v,
                None => {
                    return Err(PacketError::CodecError);
                },
            };
            let mana = match take_u16(inp, pos) {
                Some(v) => v,
                None => {
                    return Err(PacketError::CodecError);
                },
            };
            let max_mana = match take_u16(inp, pos) {
                Some(v) => v,
                None => {
                    return Err(PacketError::CodecError);
                },
            };
            Ok(Some(Packet::PlayerMana { mana, max_mana }))
        } else if ty == 50 {
            let _slot = match take_u8(inp, pos) {
                Some(v) => v,
                None => {
                    return Err(PacketError::CodecError);
                },
            };
            let buffs = match take_u16s(inp, pos, 22) {
                Some(v) => v,
                None => {
                    return Err(PacketError::CodecError);
                },
            };
            Ok(Some(Packet::PlayerBuff { buffs }))
        } else if ty == 5 {
            let _slot = match take_u8(inp, pos) {
                Some(v) => v,
                None => {
                    return Err(PacketError::CodecError);
                },
            };
            let slot_index = match take_u16(inp, pos) {
                Some(v) => v,
                None => {
                    return Err(PacketError::CodecError);
                },
            };
            let amount = match take_u16(inp, pos) {
                Some(v) => v,
                None => {
                    return Err(PacketError::CodecError);
                },
            };
            let item_prefix = match take_u8(inp, pos) {
                Some(v) => v,
                None => {
                    return Err(PacketError::CodecError);
                },
            };
            let net_id = match take_u16(inp, pos) {
                Some(v) => v,
                None => {
                    return Err(PacketError::CodecError);
                },
            };
            Ok(Some(Packet::PlayerInventorySlot { slot_index, amount, item_prefix, net_id }))
        } else if ty == 4 {
            let _slot = match take_u8(inp, pos) {
                Some(v) => v,
                None => {
                    return Err(PacketError::CodecError);
                },
            };
            match Appearance::read(inp, pos) {
                Ok(a) => Ok(Some(Packet::PlayerAppearance(a))),
                Err(e) => Err(e),
            }
    } else if ty == 2 {
        match read_text(inp, pos, inp.len()) {
            Some(t) => Ok(Some(Packet::Disconnect(t))),
            None => Err(PacketError::CodecError),
        }
    } else if ty == 9 {
        let maxr = match take_u32(inp, pos) {
            Some(v) => v,
            None => {
                return Err(PacketError::CodecError);
            },
        };
        let max = #[verifier::truncate] (maxr as i32);
        let t = match read_text(inp, pos, inp.len()) {
            Some(v) => v,
            None => {
                return Err(PacketError::CodecError);
            },
        };
        let flags = match take_u8(inp, pos) {
            Some(v) => v,
            None => {
                return Err(PacketError::CodecError);
            },
        };
        Ok(Some(Packet::Status(max, t, flags)))
    } else {
        Err(PacketError::UnknownType(ty))
    }
}

impl PacketCodec {
    /// Decode one frame at the cursor: `Ok(None)` when the buffer holds no
    /// byte, the message with the cursor moved past its frame when a whole
    /// frame is present, an error when the frame is malformed, oversized
    /// or of an unknown type. On `Ok(None)` and on every error the cursor
    /// stays where it was.
    pub fn decode(&self, inp: &[u8], pos: &mut usize) -> (r: Result<Option<Packet>, PacketError>)
        ensures
            r matches Ok(Some(pkt)) ==> (decode_at(inp@, *old(pos) as int) matches Ok(Some(
                (v, e),
            )) && v == packet_view(pkt) && *final(pos) as int == e && packet_wf(pkt)),
            r matches Ok(None) <==> decode_at(inp@, *old(pos) as int) == Ok::<
                Option<(PacketView, int)>,
                PacketError,
            >(None),
            r matches Err(er) ==> decode_at(inp@, *old(pos) as int) == Err::<
                Option<(PacketView, int)>,
                PacketError,
            >(er),
            !(r matches Ok(Some(_))) ==> *final(pos) == *old(pos),
    {
        let start: usize = *pos;
        let r = decode_frame(inp, pos);
        match &r {
            Ok(Some(_)) => {},
            _ => {
                *pos = start;
            },
        }
        r
    }
}

/// The message types the decoder handles.
pub open spec fn decodable(p: Packet) -> bool {
    !(p matches Packet::Empty)
}

/// Decoding an embedded run of encoded 16-bit values yields them back.
proof fn lemma_u16s_embed(b: Seq<u8>, q: int, s: Seq<u16>)
    requires
        0 <= q,
        q + 2 * s.len() <= b.len(),
        b.subrange(q, q + 2 * s.len()) == u16s_bytes(s),
    ensures
        u16s_at(b, q, s.len()) == s,
    decreases s.len(),
{
    vstd::bytes::lemma_auto_spec_u16_to_from_le_bytes();
    if s.len() == 0 {
        assert(u16s_at(b, q, 0) =~= s);
    } else {
        let first = vstd::bytes::spec_u16_to_le_bytes(s[0]);
        let rest = u16s_bytes(s.drop_first());
        assert(u16s_bytes(s) == first + rest);
        assert(u16s_bytes(s).len() == 2 + rest.len()) by {
            lemma_u16s_bytes_len(s.drop_first());
        }
        lemma_u16s_bytes_len(s);
        assert(b.subrange(q, q + 2) =~= first) by {
            assert forall|k: int| 0 <= k < 2 implies b.subrange(q, q + 2)[k] == first[k] by {
                assert(b.subrange(q, q + 2 * s.len())[k] == (first + rest)[k]);
            }
        }
        assert(b.subrange(q + 2, q + 2 + 2 * s.drop_first().len()) =~= rest) by {
            assert forall|k: int|
                0 <= k < rest.len() implies b.subrange(
                q + 2,
                q + 2 + 2 * s.drop_first().len(),
            )[k] == rest[k] by {
                assert(b.subrange(q, q + 2 * s.len())[2 + k] == (first + rest)[2 + k]);
            }
        }
        lemma_u16s_embed(b, q + 2, s.drop_first());
        assert(u16s_at(b, q, s.len()) =~= s) by {
            assert(u16s_at(b, q, s.len()) == seq![
                vstd::bytes::spec_u16_from_le_bytes(b.subrange(q, q + 2)),
            ] + u16s_at(b, q + 2, (s.len() - 1) as nat));
            assert(vstd::bytes::spec_u16_from_le_bytes(b.subrange(q, q + 2)) == s[0]);
        }
    }
}

/// Encoded 16-bit runs take two bytes per value.
proof fn lemma_u16s_bytes_len(s: Seq<u16>)
    ensures
        u16s_bytes(s).len() == 2 * s.len(),
    decreases s.len(),
{
    vstd::bytes::lemma_auto_spec_u16_to_from_le_bytes();
    if s.len() > 0 {
        lemma_u16s_bytes_len(s.drop_first());
    }
}

/// Decoding an embedded appearance payload yields the appearance back.
#[verifier::rlimit(100)]
#[verifier::spinoff_prover]
proof fn lemma_appearance_embed(b: Seq<u8>, q: int, a: Appearance)
    requires
        0 <= q,
        a.name@.len() > 0,
        crate::varint::varstring_bytes(a.name@).len() <= 65535,
        q + appearance_bytes(a).len() <= b.len(),
        b.subrange(q, q + appearance_bytes(a).len()) == appearance_bytes(a),
    ensures
        appearance_at(b, q) == Ok::<(AppearanceView, int), PacketError>(
            (appearance_view(a), q + appearance_bytes(a).len()),
        ),
{
    let ab = appearance_bytes(a);
    let n = ab.len();
    let vs = varstring_bytes(a.name@);
    assert forall|i: int| 0 <= i < n implies b[q + i] == ab[i] by {
        assert(b.subrange(q, q + n)[i] == b[q + i]);
    }
    let head = seq![a.skin, a.hair];
    let mids = seq![a.hair_dye, a.hide_visuals_1, a.hide_visuals_2, a.hide_misc];
    let tail = mids + color_bytes(a.hair_color) + color_bytes(a.skin_color) + color_bytes(
        a.eye_color,
    ) + color_bytes(a.shirt_color) + color_bytes(a.under_shift_color) + color_bytes(
        a.pants_color,
    ) + color_bytes(a.shoe_color) + seq![a.unknown_trait, a.unknown_trait2];
    assert(ab =~= head + vs + tail);
    assert(tail.len() == 27);
    assert(b[q + 0] == ab[0] && ab[0] == a.skin);
    assert(b[q + 1] == ab[1] && ab[1] == a.hair);
    assert(b.subrange(q + 2, q + 2 + vs.len()) =~= vs) by {
        assert forall|k: int| 0 <= k < vs.len() implies b.subrange(q + 2, q + 2 + vs.len())[k]
            == vs[k] by {
            assert(b[q + (2 + k)] == ab[2 + k]);
            assert(ab[2 + k] == (head + vs + tail)[2 + k]);
        }
    }
    crate::varint::lemma_varstring_round_trip(b, q + 2, a.name@);
    let e = q + 2 + vs.len() as int;
    assert(b[e + 0] == a.hair_dye) by {
        assert(b[q + (2 + vs.len() as int + 0)] == ab[2 + vs.len() as int + 0]);
        assert(ab[2 + vs.len() as int + 0] == (head + vs + tail)[2 + vs.len() as int + 0]);
        assert(tail[0] == a.hair_dye);
    }
    assert(b[e + 1] == a.hide_visuals_1) by {
        assert(b[q + (2 + vs.len() as int + 1)] == ab[2 + vs.len() as int + 1]);
        assert(ab[2 + vs.len() as int + 1] == (head + vs + tail)[2 + vs.len() as int + 1]);
        assert(tail[1] == a.hide_visuals_1);
    }
    assert(b[e + 2] == a.hide_visuals_2) by {
        assert(b[q + (2 + vs.len() as int + 2)] == ab[2 + vs.len() as int + 2]);
        assert(ab[2 + vs.len() as int + 2] == (head + vs + tail)[2 + vs.len() as int + 2]);
        assert(tail[2] == a.hide_visuals_2);
    }
    assert(b[e + 3] == a.hide_misc) by {
        assert(b[q + (2 + vs.len() as int + 3)] == ab[2 + vs.len() as int + 3]);
        assert(ab[2 + vs.len() as int + 3] == (head + vs + tail)[2 + vs.len() as int + 3]);
        assert(tail[3] == a.hide_misc);
    }
    assert(b[e + 4] == a.hair_color.r) by {
        assert(b[q + (2 + vs.len() as int + 4)] == ab[2 + vs.len() as int + 4]);
        assert(ab[2 + vs.len() as int + 4] == (head + vs + tail)[2 + vs.len() as int + 4]);
        assert(tail[4] == a.hair_color.r);
    }
    assert(b[e + 5] == a.hair_color.g) by {
        assert(b[q + (2 + vs.len() as int + 5)] == ab[2 + vs.len() as int + 5]);
        assert(ab[2 + vs.len() as int + 5] == (head + vs + tail)[2 + vs.len() as int + 5]);
        assert(tail[5] == a.hair_color.g);
    }
    assert(b[e + 6] == a.hair_color.b) by {
        assert(b[q + (2 + vs.len() as int + 6)] == ab[2 + vs.len() as int + 6]);
        assert(ab[2 + vs.len() as int + 6] == (head + vs + tail)[2 + vs.len() as int + 6]);
        assert(tail[6] == a.hair_color.b);
    }
    assert(b[e + 7] == a.skin_color.r) by {
        assert(b[q + (2 + vs.len() as int + 7)] == ab[2 + vs.len() as int + 7]);
        assert(ab[2 + vs.len() as int + 7] == (head + vs + tail)[2 + vs.len() as int + 7]);
        assert(tail[7] == a.skin_color.r);
    }
    assert(b[e + 8] == a.skin_color.g) by {
        assert(b[q + (2 + vs.len() as int + 8)] == ab[2 + vs.len() as int + 8]);
        assert(ab[2 + vs.len() as int + 8] == (head + vs + tail)[2 + vs.len() as int + 8]);
        assert(tail[8] == a.skin_color.g);
    }
    assert(b[e + 9] == a.skin_color.b) by {
        assert(b[q + (2 + vs.len() as int + 9)] == ab[2 + vs.len() as int + 9]);
        assert(ab[2 + vs.len() as int + 9] == (head + vs + tail)[2 + vs.len() as int + 9]);
        assert(tail[9] == a.skin_color.b);
    }
    assert(b[e + 10] == a.eye_color.r) by {
        assert(b[q + (2 + vs.len() as int + 10)] == ab[2 + vs.len() as int + 10]);
        assert(ab[2 + vs.len() as int + 10] == (head + vs + tail)[2 + vs.len() as int + 10]);
        assert(tail[10] == a.eye_color.r);
    }
    assert(b[e + 11] == a.eye_color.g) by {
        assert(b[q + (2 + vs.len() as int + 11)] == ab[2 + vs.len() as int + 11]);
        assert(ab[2 + vs.len() as int + 11] == (head + vs + tail)[2 + vs.len() as int + 11]);
        assert(tail[11] == a.eye_color.g);
    }
    assert(b[e + 12] == a.eye_color.b) by {
        assert(b[q + (2 + vs.len() as int + 12)] == ab[2 + vs.len() as int + 12]);
        assert(ab[2 + vs.len() as int + 12] == (head + vs + tail)[2 + vs.len() as int + 12]);
        assert(tail[12] == a.eye_color.b);
    }
    assert(b[e + 13] == a.shirt_color.r) by {
        assert(b[q + (2 + vs.len() as int + 13)] == ab[2 + vs.len() as int + 13]);
        assert(ab[2 + vs.len() as int + 13] == (head + vs + tail)[2 + vs.len() as int + 13]);
        assert(tail[13] == a.shirt_color.r);
    }
    assert(b[e + 14] == a.shirt_color.g) by {
        assert(b[q + (2 + vs.len() as int + 14)] == ab[2 + vs.len() as int + 14]);
        assert(ab[2 + vs.len() as int + 14] == (head + vs + tail)[2 + vs.len() as int + 14]);
        assert(tail[14] == a.shirt_color.g);
    }
    assert(b[e + 15] == a.shirt_color.b) by {
        assert(b[q + (2 + vs.len() as int + 15)] == ab[2 + vs.len() as int + 15]);
        assert(ab[2 + vs.len() as int + 15] == (head + vs + tail)[2 + vs.len() as int + 15]);
        assert(tail[15] == a.shirt_color.b);
    }
    assert(b[e + 16] == a.under_shift_color.r) by {
        assert(b[q + (2 + vs.len() as int + 16)] == ab[2 + vs.len() as int + 16]);
        assert(ab[2 + vs.len() as int + 16] == (head + vs + tail)[2 + vs.len() as int + 16]);
        assert(tail[16] == a.under_shift_color.r);
    }
    assert(b[e + 17] == a.under_shift_color.g) by {
        assert(b[q + (2 + vs.len() as int + 17)] == ab[2 + vs.len() as int + 17]);
        assert(ab[2 + vs.len() as int + 17] == (head + vs + tail)[2 + vs.len() as int + 17]);
        assert(tail[17] == a.under_shift_color.g);
    }
    assert(b[e + 18] == a.under_shift_color.b) by {
        assert(b[q + (2 + vs.len() as int + 18)] == ab[2 + vs.len() as int + 18]);
        assert(ab[2 + vs.len() as int + 18] == (head + vs + tail)[2 + vs.len() as int + 18]);
        assert(tail[18] == a.under_shift_color.b);
    }
    assert(b[e + 19] == a.pants_color.r) by {
        assert(b[q + (2 + vs.len() as int + 19)] == ab[2 + vs.len() as int + 19]);
        assert(ab[2 + vs.len() as int + 19] == (head + vs + tail)[2 + vs.len() as int + 19]);
        assert(tail[19] == a.pants_color.r);
    }
    assert(b[e + 20] == a.pants_color.g) by {
        assert(b[q + (2 + vs.len() as int + 20)] == ab[2 + vs.len() as int + 20]);
        assert(ab[2 + vs.len() as int + 20] == (head + vs + tail)[2 + vs.len() as int + 20]);
        assert(tail[20] == a.pants_color.g);
    }
    assert(b[e + 21] == a.pants_color.b) by {
        assert(b[q + (2 + vs.len() as int + 21)] == ab[2 + vs.len() as int + 21]);
        assert(ab[2 + vs.len() as int + 21] == (head + vs + tail)[2 + vs.len() as int + 21]);
        assert(tail[21] == a.pants_color.b);
    }
    assert(b[e + 22] == a.shoe_color.r) by {
        assert(b[q + (2 + vs.len() as int + 22)] == ab[2 + vs.len() as int + 22]);
        assert(ab[2 + vs.len() as int + 22] == (head + vs + tail)[2 + vs.len() as int + 22]);
        assert(tail[22] == a.shoe_color.r);
    }
    assert(b[e + 23] == a.shoe_color.g) by {
        assert(b[q + (2 + vs.len() as int + 23)] == ab[2 + vs.len() as int + 23]);
        assert(ab[2 + vs.len() as int + 23] == (head + vs + tail)[2 + vs.len() as int + 23]);
        assert(tail[23] == a.shoe_color.g);
    }
    assert(b[e + 24] == a.shoe_color.b) by {
        assert(b[q + (2 + vs.len() as int + 24)] == ab[2 + vs.len() as int + 24]);
        assert(ab[2 + vs.len() as int + 24] == (head + vs + tail)[2 + vs.len() as int + 24]);
        assert(tail[24] == a.shoe_color.b);
    }
    assert(b[e + 25] == a.unknown_trait) by {
        assert(b[q + (2 + vs.len() as int + 25)] == ab[2 + vs.len() as int + 25]);
        assert(ab[2 + vs.len() as int + 25] == (head + vs + tail)[2 + vs.len() as int + 25]);
        assert(tail[25] == a.unknown_trait);
    }
    assert(b[e + 26] == a.unknown_trait2) by {
        assert(b[q + (2 + vs.len() as int + 26)] == ab[2 + vs.len() as int + 26]);
        assert(ab[2 + vs.len() as int + 26] == (head + vs + tail)[2 + vs.len() as int + 26]);
        assert(tail[26] == a.unknown_trait2);
    }
}

/// Law: decoding an encoded message yields the message back, for every
/// message kind the decoder handles. The two localized-text messages are
/// sent but never received, so no decoding is defined for them.
#[verifier::rlimit(100)]
#[verifier::spinoff_prover]
pub proof fn lemma_packet_round_trip(b: Seq<u8>, p: int, pkt: Packet)
    requires
        packet_wf(pkt),
        packet_fits(pkt),
        decodable(pkt),
        0 <= p,
        p + packet_bytes(pkt).len() <= b.len(),
        b.subrange(p, p + packet_bytes(pkt).len()) == packet_bytes(pkt),
    ensures
        decode_at(b, p) == Ok::<Option<(PacketView, int)>, PacketError>(
            Some((packet_view(pkt), p + packet_bytes(pkt).len())),
        ),
{
    vstd::bytes::lemma_auto_spec_u16_to_from_le_bytes();
    vstd::bytes::lemma_auto_spec_u32_to_from_le_bytes();
    let pb = packet_bytes(pkt);
    let pl = payload_bytes(pkt);
    let n = pb.len();
    let lenseg = vstd::bytes::spec_u16_to_le_bytes((pl.len() + 3) as u16);
    assert(pb == lenseg + seq![type_byte(pkt)] + pl);
    assert forall|i: int| 0 <= i < n implies b[p + i] == pb[i] by {
        assert(b.subrange(p, p + n)[i] == b[p + i]);
    }
    assert(b.subrange(p, p + 2) =~= lenseg) by {
        assert forall|k: int| 0 <= k < 2 implies b.subrange(p, p + 2)[k] == lenseg[k] by {
            assert(b[p + k] == pb[k]);
            assert(pb[k] == (lenseg + seq![type_byte(pkt)] + pl)[k]);
        }
    }
    assert(b[p + 2] == type_byte(pkt)) by {
        assert(pb[2] == (lenseg + seq![type_byte(pkt)] + pl)[2]);
    }
    let q = p + 3;
    assert(b.subrange(q, q + pl.len()) =~= pl) by {
        assert forall|k: int| 0 <= k < pl.len() implies b.subrange(q, q + pl.len())[k]
            == pl[k] by {
            assert(b[p + (3 + k)] == pb[3 + k]);
            assert(pb[3 + k] == (lenseg + seq![type_byte(pkt)] + pl)[3 + k]);
        }
    }
    assert(vstd::bytes::spec_u16_from_le_bytes(b.subrange(p, p + 2)) == pl.len() + 3);
    match pkt {
        Packet::ConnectRequest(s) => {
            crate::varint::lemma_varstring_round_trip(b, q, s@);
        },
        Packet::PlayerUUID(s) => {
            crate::varint::lemma_varstring_round_trip(b, q, s@);
        },
        Packet::WorldDataRequest => {},
        Packet::SetUserSlot(id) => {
            assert(b[q + 0] == pl[0]);
        },
        Packet::EssentialTilesRequest(x, y) => {
            let xb = vstd::bytes::spec_u32_to_le_bytes(x as u32);
            let yb = vstd::bytes::spec_u32_to_le_bytes(y as u32);
            assert(b.subrange(q, q + 4) =~= xb) by {
                assert forall|k: int| 0 <= k < 4 implies b.subrange(q, q + 4)[k] == xb[k] by {
                    assert(b.subrange(q, q + pl.len())[k] == (xb + yb)[k]);
                }
            }
            assert(b.subrange(q + 4, q + 8) =~= yb) by {
                assert forall|k: int| 0 <= k < 4 implies b.subrange(q + 4, q + 8)[k] == yb[k] by {
                    assert(b.subrange(q, q + pl.len())[4 + k] == (xb + yb)[4 + k]);
                }
            }
            let xv = x;
            let yv = y;
            assert((#[verifier::truncate] ((xv as u32) as i32)) == xv) by (bit_vector);
            assert((#[verifier::truncate] ((yv as u32) as i32)) == yv) by (bit_vector);
        },
        Packet::WorldInfo(wi) => {
            assert(b.subrange(q, q + pl.len()) == wi.data@);
        },
        Packet::PlayerHp { hp, max_hp } => {
            lemma_fixed_u16_pair(b, q, pl, hp, max_hp);
        },
        Packet::PlayerMana { mana, max_mana } => {
            lemma_fixed_u16_pair(b, q, pl, mana, max_mana);
        },
        Packet::PlayerBuff { buffs } => {
            lemma_u16s_bytes_len(buffs@);
            assert(b.subrange(q + 1, q + 1 + 44) =~= u16s_bytes(buffs@)) by {
                assert forall|k: int| 0 <= k < 44 implies b.subrange(q + 1, q + 1 + 44)[k]
                    == u16s_bytes(buffs@)[k] by {
                    assert(b.subrange(q, q + pl.len())[1 + k] == (seq![0u8] + u16s_bytes(
                        buffs@,
                    ))[1 + k]);
                }
            }
            lemma_u16s_embed(b, q + 1, buffs@);
        },
        Packet::PlayerInventorySlot { slot_index, amount, item_prefix, net_id } => {
            let sb = vstd::bytes::spec_u16_to_le_bytes(slot_index);
            let ab2 = vstd::bytes::spec_u16_to_le_bytes(amount);
            let nb = vstd::bytes::spec_u16_to_le_bytes(net_id);
            assert forall|k: int| 0 <= k < pl.len() implies b[q + k] == pl[k] by {
                assert(b.subrange(q, q + pl.len())[k] == pl[k]);
            }
            assert(b.subrange(q + 1, q + 3) =~= sb) by {
                assert forall|k: int| 0 <= k < 2 implies b.subrange(q + 1, q + 3)[k] == sb[k] by {
                    assert(b[q + (1 + k)] == pl[1 + k]);
                    assert(pl[1 + k] == (seq![0u8] + sb + ab2 + seq![item_prefix] + nb)[1 + k]);
                }
            }
            assert(b.subrange(q + 3, q + 5) =~= ab2) by {
                assert forall|k: int| 0 <= k < 2 implies b.subrange(q + 3, q + 5)[k] == ab2[k] by {
                    assert(b[q + (3 + k)] == pl[3 + k]);
                    assert(pl[3 + k] == (seq![0u8] + sb + ab2 + seq![item_prefix] + nb)[3 + k]);
                }
            }
            assert(b[q + 5] == item_prefix) by {
                assert(pl[5] == (seq![0u8] + sb + ab2 + seq![item_prefix] + nb)[5]);
            }
            assert(b.subrange(q + 6, q + 8) =~= nb) by {
                assert forall|k: int| 0 <= k < 2 implies b.subrange(q + 6, q + 8)[k] == nb[k] by {
                    assert(b[q + (6 + k)] == pl[6 + k]);
                    assert(pl[6 + k] == (seq![0u8] + sb + ab2 + seq![item_prefix] + nb)[6 + k]);
                }
            }
        },
        Packet::PlayerAppearance(a) => {
            let ab3 = appearance_bytes(a);
            assert(b.subrange(q + 1, q + 1 + ab3.len()) =~= ab3) by {
                assert forall|k: int| 0 <= k < ab3.len() implies b.subrange(
                    q + 1,
                    q + 1 + ab3.len(),
                )[k] == ab3[k] by {
                    assert(b.subrange(q, q + pl.len())[1 + k] == (seq![0u8] + ab3)[1 + k]);
                }
            }
            assert(varstring_bytes(a.name@).len() <= 65535);
            lemma_appearance_embed(b, q + 1, a);
        },
        Packet::Disconnect(t) => {
            assert(b.subrange(q, q + pl.len()) == text_bytes(t));
            lemma_text_depth_le_len(t);
            lemma_text_bytes_small(t);
            lemma_text_embed(b, q, t, text_fuel(b));
        },
        Packet::Status(max, t, flags) => {
            let mb = vstd::bytes::spec_u32_to_le_bytes(max as u32);
            let tb = text_bytes(t);
            assert(pl == mb + tb + seq![flags]);
            assert forall|k: int| 0 <= k < pl.len() implies b[q + k] == pl[k] by {
                assert(b.subrange(q, q + pl.len())[k] == pl[k]);
            }
            assert(b.subrange(q, q + 4) =~= mb) by {
                assert forall|k: int| 0 <= k < 4 implies b.subrange(q, q + 4)[k] == mb[k] by {
                    assert(b[q + k] == pl[k]);
                    assert(pl[k] == (mb + tb + seq![flags])[k]);
                }
            }
            assert(b.subrange(q + 4, q + 4 + tb.len()) =~= tb) by {
                assert forall|k: int| 0 <= k < tb.len() implies b.subrange(
                    q + 4,
                    q + 4 + tb.len(),
                )[k] == tb[k] by {
                    assert(b[q + (4 + k)] == pl[4 + k]);
                    assert(pl[4 + k] == (mb + tb + seq![flags])[4 + k]);
                }
            }
            lemma_text_depth_le_len(t);
            lemma_text_bytes_small(t);
            lemma_text_embed(b, q + 4, t, text_fuel(b));
            assert(b[q + (4 + tb.len() as int)] == pl[4 + tb.len() as int]);
            assert(pl[4 + tb.len() as int] == (mb + tb + seq![flags])[4 + tb.len() as int]);
            let mv = max;
            assert((#[verifier::truncate] ((mv as u32) as i32)) == mv) by (bit_vector);
        },
        Packet::Empty => {},
    }
}

/// A slot byte then two little-endian 16-bit fields.
proof fn lemma_fixed_u16_pair(b: Seq<u8>, q: int, pl: Seq<u8>, v1: u16, v2: u16)
    requires
        0 <= q,
        pl == seq![0u8] + vstd::bytes::spec_u16_to_le_bytes(v1) + vstd::bytes::spec_u16_to_le_bytes(
            v2,
        ),
        q + 5 <= b.len(),
        b.subrange(q, q + pl.len()) == pl,
    ensures
        vstd::bytes::spec_u16_from_le_bytes(b.subrange(q + 1, q + 3)) == v1,
        vstd::bytes::spec_u16_from_le_bytes(b.subrange(q + 3, q + 5)) == v2,
{
    vstd::bytes::lemma_auto_spec_u16_to_from_le_bytes();
    let b1 = vstd::bytes::spec_u16_to_le_bytes(v1);
    let b2 = vstd::bytes::spec_u16_to_le_bytes(v2);
    assert(b.subrange(q + 1, q + 3) =~= b1) by {
        assert forall|k: int| 0 <= k < 2 implies b.subrange(q + 1, q + 3)[k] == b1[k] by {
            assert(b.subrange(q, q + pl.len())[1 + k] == (seq![0u8] + b1 + b2)[1 + k]);
        }
    }
    assert(b.subrange(q + 3, q + 5) =~= b2) by {
        assert forall|k: int| 0 <= k < 2 implies b.subrange(q + 3, q + 5)[k] == b2[k] by {
            assert(b.subrange(q, q + pl.len())[3 + k] == (seq![0u8] + b1 + b2)[3 + k]);
        }
    }
}

/// One more text appended to a list extends its content list by its view.
proof fn lemma_texts_view_push(ts: Seq<NetworkText>, t: NetworkText)
    ensures
        texts_view(ts.push(t)) == texts_view(ts).push(text_view(t)),
    decreases ts,
{
    if ts.len() == 0 {
        assert(ts.push(t)[0] == t);
        assert(ts.push(t).drop_first() =~= Seq::<NetworkText>::empty());
        assert(texts_view(Seq::<NetworkText>::empty()) == Seq::<TextView>::empty());
        assert(texts_view(ts.push(t)) == seq![text_view(t)] + Seq::<TextView>::empty());
        assert(seq![text_view(t)] + Seq::<TextView>::empty() =~= texts_view(ts).push(
            text_view(t),
        ));
    } else {
        assert(ts.push(t)[0] == ts[0]);
        assert(ts.push(t).drop_first() =~= ts.drop_first().push(t));
        lemma_texts_view_push(ts.drop_first(), t);
        assert(seq![text_view(ts[0])] + texts_view(ts.drop_first()).push(text_view(t)) =~= (
        seq![text_view(ts[0])] + texts_view(ts.drop_first())).push(text_view(t)));
    }
}

/// Read a localized text at the cursor, with a nesting budget.
#[verifier::rlimit(100)]
fn read_text(inp: &[u8], pos: &mut usize, fuel: usize) -> (r: Option<NetworkText>)
    ensures
        r is Some <==> text_at(inp@, *old(pos) as int, fuel as nat) is Some,
        r is Some ==> (text_at(inp@, *old(pos) as int, fuel as nat) matches Some((tv, e)) && tv
            == text_view(r->0) && *final(pos) as int == e && text_wf(r->0)),
    decreases fuel,
{
    if fuel == 0 {
        return None;
    }
    let mode_byte = match take_u8(inp, pos) {
        Some(v) => v,
        None => {
            return None;
        },
    };
    let mode = if mode_byte == 0 {
        NetworkTextMode::Literal
    } else if mode_byte == 1 {
        NetworkTextMode::Formattable
    } else if mode_byte == 2 {
        NetworkTextMode::LocalizationKey
    } else {
        return None;
    };
    let text = match take_varstring(inp, pos) {
        Some(v) => v,
        None => {
            return None;
        },
    };
    if let NetworkTextMode::Literal = mode {
        let t = NetworkText { mode, text, substitution: Vec::new() };
        proof {
            assert(texts_view(t.substitution@) =~= Seq::<TextView>::empty());
        }
        return Some(t);
    }
    let count = match take_u8(inp, pos) {
        Some(v) => v,
        None => {
            return None;
        },
    };
    let ghost p0 = *pos as int;
    let mut subs: Vec<NetworkText> = Vec::new();
    let mut k: usize = 0;
    while k < count as usize
        invariant
            fuel >= 1,
            k <= count as usize,
            text_at(inp@, *old(pos) as int, fuel as nat) == (match texts_at(
                inp@,
                p0,
                count as nat,
                fuel as nat,
            ) {
                Some((subs2, e)) => Some(
                    (TextView { mode: mode, text: text@, substitution: subs2 }, e),
                ),
                None => None::<(TextView, int)>,
            }),
            !(mode is Literal),
            count as int <= 255,
            text_wf(NetworkText { mode: mode, text: text, substitution: subs }),
            texts_view(subs@).len() == subs@.len(),
            subs@.len() == k,
            forall|j: int| 0 <= j < subs@.len() ==> text_wf(#[trigger] subs@[j]),
            texts_at(inp@, p0, count as nat, fuel as nat) == (match texts_at(
                inp@,
                *pos as int,
                (count - k) as nat,
                fuel as nat,
            ) {
                Some((rest, e)) => Some(
                    (texts_view(subs@) + rest, e),
                ),
                None => None::<(Seq<TextView>, int)>,
            }),
        decreases count as usize - k,
    {
        let ghost before = *pos as int;
        let child = match read_text(inp, pos, fuel - 1) {
            Some(v) => v,
            None => {
                proof {
                    assert(texts_at(inp@, before, (count - k) as nat, fuel as nat) is None);
                }
                return None;
            },
        };
        proof {
            let tv = text_view(child);
            let e = *pos as int;
            assert(texts_at(inp@, before, (count - k) as nat, fuel as nat) == (match texts_at(
                inp@,
                e,
                (count - k - 1) as nat,
                fuel as nat,
            ) {
                Some((rest2, e2)) => Some((seq![tv] + rest2, e2)),
                None => None::<(Seq<TextView>, int)>,
            }));
            lemma_texts_view_push(subs@, child);
            if texts_at(inp@, e, (count - k - 1) as nat, fuel as nat) is Some {
                let (rest2, e2) = texts_at(inp@, e, (count - k - 1) as nat, fuel as nat)->0;
                assert(texts_view(subs@) + (seq![tv] + rest2) =~= (texts_view(subs@).push(tv))
                    + rest2);
            }
        }
        subs.push(child);
        k = k + 1;
    }
    proof {
        assert(texts_at(inp@, *pos as int, 0, fuel as nat) == Some(
            (Seq::<TextView>::empty(), *pos as int),
        ));
        assert(texts_view(subs@) + Seq::<TextView>::empty() =~= texts_view(subs@));
    }
    Some(NetworkText { mode, text, substitution: subs })
}

/// The nesting of a well-formed text never exceeds its byte length.
proof fn lemma_text_depth_le_len(t: NetworkText)
    requires
        text_wf(t),
    ensures
        text_depth(t) <= text_bytes(t).len(),
    decreases t, 1int, 0int,
{
    if t.mode is Literal {
    } else {
        lemma_texts_depth_le_len(t.substitution@);
    }
}

/// The nesting of a list of well-formed texts never exceeds its byte
/// length, and a non-empty list has positive byte length.
proof fn lemma_texts_depth_le_len(ts: Seq<NetworkText>)
    requires
        forall|i: int| 0 <= i < ts.len() ==> text_wf(#[trigger] ts[i]),
    ensures
        texts_depth(ts) <= texts_bytes(ts).len(),
    decreases ts, 0int, 0int,
{
    if ts.len() == 0 {
    } else {
        assert(text_wf(ts[0]));
        lemma_text_depth_le_len(ts[0]);
        assert(forall|i: int|
            0 <= i < ts.drop_first().len() ==> text_wf(#[trigger] ts.drop_first()[i]));
        lemma_texts_depth_le_len(ts.drop_first());
    }
}

/// A well-formed text whose byte form fits the frame has templates whose
/// varstring prefixes fit too.
proof fn lemma_text_bytes_small(t: NetworkText)
    requires
        text_wf(t),
        text_bytes(t).len() <= u64::MAX,
    ensures
        text_small(t),
    decreases t, 1int, 0int,
{
    if !(t.mode is Literal) {
        lemma_texts_bytes_small(t.substitution@);
    }
}

/// As `lemma_text_bytes_small`, over a list.
proof fn lemma_texts_bytes_small(ts: Seq<NetworkText>)
    requires
        forall|i: int| 0 <= i < ts.len() ==> text_wf(#[trigger] ts[i]),
        texts_bytes(ts).len() <= u64::MAX,
    ensures
        forall|i: int| 0 <= i < ts.len() ==> text_small(#[trigger] ts[i]),
    decreases ts, 0int, 0int,
{
    if ts.len() > 0 {
        assert(text_wf(ts[0]));
        lemma_text_bytes_small(ts[0]);
        lemma_texts_bytes_small(ts.drop_first());
        assert(forall|i: int|
            1 <= i < ts.len() ==> text_small(#[trigger] ts.drop_first()[i - 1]));
        assert forall|i: int| 0 <= i < ts.len() implies text_small(#[trigger] ts[i]) by {
            if i > 0 {
                assert(ts[i] == ts.drop_first()[i - 1]);
            }
        }
    }
}

/// Decoding an embedded encoded text yields its content back.
#[verifier::rlimit(100)]
#[verifier::spinoff_prover]
proof fn lemma_text_embed(b: Seq<u8>, p: int, t: NetworkText, fuel: nat)
    requires
        text_wf(t),
        text_small(t),
        text_depth(t) <= fuel,
        0 <= p,
        p + text_bytes(t).len() <= b.len(),
        b.subrange(p, p + text_bytes(t).len()) == text_bytes(t),
    ensures
        text_at(b, p, fuel) == Some((text_view(t), p + text_bytes(t).len())),
    decreases fuel, 1int, 0int,
{
    let tb = text_bytes(t);
    let n = tb.len();
    let vs = varstring_bytes(t.text@);
    assert forall|i: int| 0 <= i < n implies b[p + i] == tb[i] by {
        assert(b.subrange(p, p + n)[i] == b[p + i]);
    }
    assert(b[p + 0] == tb[0]) by {
        assert(b.subrange(p, p + n)[0] == b[p + 0]);
    }
    assert(tb[0] == text_mode_byte(t.mode));
    if t.mode is Literal {
        assert(b.subrange(p + 1, p + 1 + vs.len()) =~= vs) by {
            assert forall|k: int| 0 <= k < vs.len() implies b.subrange(
                p + 1,
                p + 1 + vs.len(),
            )[k] == vs[k] by {
                assert(b[p + (1 + k)] == tb[1 + k]);
                assert(tb[1 + k] == (seq![text_mode_byte(t.mode)] + vs + Seq::<u8>::empty())[1
                    + k]);
            }
        }
        crate::varint::lemma_varstring_round_trip(b, p + 1, t.text@);
        assert(texts_view(t.substitution@) =~= Seq::<TextView>::empty());
    } else {
        let tail = seq![t.substitution@.len() as u8] + texts_bytes(t.substitution@);
        assert(tb == seq![text_mode_byte(t.mode)] + vs + tail);
        assert(b.subrange(p + 1, p + 1 + vs.len()) =~= vs) by {
            assert forall|k: int| 0 <= k < vs.len() implies b.subrange(
                p + 1,
                p + 1 + vs.len(),
            )[k] == vs[k] by {
                assert(b[p + (1 + k)] == tb[1 + k]);
                assert(tb[1 + k] == (seq![text_mode_byte(t.mode)] + vs + tail)[1 + k]);
            }
        }
        crate::varint::lemma_varstring_round_trip(b, p + 1, t.text@);
        let q = p + 1 + vs.len() as int;
        assert(b[q] == t.substitution@.len() as u8) by {
            assert(b[p + (1 + vs.len() as int)] == tb[1 + vs.len() as int]);
            assert(tb[1 + vs.len() as int] == (seq![text_mode_byte(t.mode)] + vs + tail)[1
                + vs.len() as int]);
        }
        let sb = texts_bytes(t.substitution@);
        assert(b.subrange(q + 1, q + 1 + sb.len()) =~= sb) by {
            assert forall|k: int| 0 <= k < sb.len() implies b.subrange(
                q + 1,
                q + 1 + sb.len(),
            )[k] == sb[k] by {
                assert(b[p + (1 + vs.len() + 1 + k)] == tb[1 + vs.len() as int + 1 + k]);
                assert(tb[1 + vs.len() as int + 1 + k] == (seq![text_mode_byte(t.mode)] + vs
                    + tail)[1 + vs.len() as int + 1 + k]);
            }
        }
        lemma_texts_embed(b, q + 1, t.substitution@, fuel);
    }
}

/// Decoding an embedded list of encoded texts yields their contents back.
#[verifier::rlimit(100)]
#[verifier::spinoff_prover]
proof fn lemma_texts_embed(b: Seq<u8>, p: int, ts: Seq<NetworkText>, fuel: nat)
    requires
        forall|i: int| 0 <= i < ts.len() ==> text_wf(#[trigger] ts[i]),
        forall|i: int| 0 <= i < ts.len() ==> text_small(#[trigger] ts[i]),
        texts_depth(ts) < fuel,
        0 <= p,
        p + texts_bytes(ts).len() <= b.len(),
        b.subrange(p, p + texts_bytes(ts).len()) == texts_bytes(ts),
    ensures
        texts_at(b, p, ts.len(), fuel) == Some((texts_view(ts), p + texts_bytes(ts).len())),
    decreases fuel, 0int, ts.len(),
{
    if ts.len() == 0 {
    } else {
        let first = text_bytes(ts[0]);
        let rest = texts_bytes(ts.drop_first());
        assert(texts_bytes(ts) == first + rest);
        assert forall|i: int| 0 <= i < texts_bytes(ts).len() implies b[p + i] == texts_bytes(
            ts,
        )[i] by {
            assert(b.subrange(p, p + texts_bytes(ts).len())[i] == b[p + i]);
        }
        assert(b.subrange(p, p + first.len() as int) =~= first) by {
            assert forall|k: int| 0 <= k < first.len() implies b.subrange(
                p,
                p + first.len() as int,
            )[k] == first[k] by {
                assert(b[p + k] == (first + rest)[k]);
            }
        }
        assert(text_depth(ts[0]) <= texts_depth(ts));
        lemma_text_embed(b, p, ts[0], (fuel - 1) as nat);
        let q = p + first.len() as int;
        assert(b.subrange(q, q + rest.len()) =~= rest) by {
            assert forall|k: int| 0 <= k < rest.len() implies b.subrange(q, q + rest.len())[k]
                == rest[k] by {
                assert(b[p + (first.len() + k)] == (first + rest)[first.len() + k]);
            }
        }
        assert(texts_depth(ts.drop_first()) <= texts_depth(ts));
        lemma_texts_embed(b, q, ts.drop_first(), fuel);
        assert(seq![text_view(ts[0])] + texts_view(ts.drop_first()) == texts_view(ts));
    }
}

} // verus!
