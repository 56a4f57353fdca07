//! MIDI 1.0 channel voice messages, in the word form and the byte form, and
//! the dispatch of a packet to the message its status names.
use vstd::prelude::*;
use crate::bits::{fits, layout_ok, lemma_fits_low, lemma_flip_bit, lemma_get_bounded, lemma_get_zero_all};
use crate::error::{Discriminant, Error};
use crate::packet::{
    blank, field_value, lemma_read_written, lemma_write_keeps_other, with_field, Field, Packet,
    Schema, UnitKind,
};

verus! {

/// Packet type of MIDI 1.0 channel voice messages in the word form.
pub const MIDI1_CHANNEL_VOICE_TYPE: u32 = 0x2;

pub const NOTE_OFF: u32 = 0x8;

pub const NOTE_ON: u32 = 0x9;

pub const KEY_PRESSURE: u32 = 0xA;

pub const CONTROL_CHANGE: u32 = 0xB;

pub const PROGRAM_CHANGE: u32 = 0xC;

pub const CHANNEL_PRESSURE: u32 = 0xD;

pub const PITCH_BEND: u32 = 0xE;

/// The fields of a MIDI 1.0 channel voice message.
#[derive(Debug, Clone, Copy, PartialEq, Eq, Structural)]
pub enum Midi1Field {
    /// Packet type, always 0x2; absent from the byte form.
    UmpType,
    /// Group, 4 bits; absent from the byte form.
    Group,
    /// Status: which channel voice message.
    Status,
    /// Channel, 4 bits.
    Channel,
    /// First data byte, 7 bits.
    Data1,
    /// Second data byte, 7 bits.
    Data2,
}

pub open spec fn spec_midi1_ump_field(id: Midi1Field) -> Field {
    match id {
        Midi1Field::UmpType => Field { index: 0, mask: 0xF0000000, shift: 28 },
        Midi1Field::Group => Field { index: 0, mask: 0x0F000000, shift: 24 },
        Midi1Field::Status => Field { index: 0, mask: 0x00F00000, shift: 20 },
        Midi1Field::Channel => Field { index: 0, mask: 0x000F0000, shift: 16 },
        Midi1Field::Data1 => Field { index: 0, mask: 0x00007F00, shift: 8 },
        Midi1Field::Data2 => Field { index: 0, mask: 0x0000007F, shift: 0 },
    }
}

/// Where each field lives in the word form, counted from the first unit of the message.
#[verifier::when_used_as_spec(spec_midi1_ump_field)]
pub fn midi1_ump_field(id: Midi1Field) -> (r: Field)
    ensures
        r == spec_midi1_ump_field(id),
{
    match id {
        Midi1Field::UmpType => Field { index: 0, mask: 0xF0000000, shift: 28 },
        Midi1Field::Group => Field { index: 0, mask: 0x0F000000, shift: 24 },
        Midi1Field::Status => Field { index: 0, mask: 0x00F00000, shift: 20 },
        Midi1Field::Channel => Field { index: 0, mask: 0x000F0000, shift: 16 },
        Midi1Field::Data1 => Field { index: 0, mask: 0x00007F00, shift: 8 },
        Midi1Field::Data2 => Field { index: 0, mask: 0x0000007F, shift: 0 },
    }
}

/// The masks of the layout are well formed and pairwise disjoint.
proof fn lemma_midi1_ump_masks()
    by (bit_vector)
    ensures
        0xF0000000u32 >> 28u32 == 0xFu32,
        (0xF0000000u32 >> 28u32) << 28u32 == 0xF0000000u32,
        0x0F000000u32 >> 24u32 == 0xFu32,
        (0x0F000000u32 >> 24u32) << 24u32 == 0x0F000000u32,
        0x00F00000u32 >> 20u32 == 0xFu32,
        (0x00F00000u32 >> 20u32) << 20u32 == 0x00F00000u32,
        0x000F0000u32 >> 16u32 == 0xFu32,
        (0x000F0000u32 >> 16u32) << 16u32 == 0x000F0000u32,
        0x00007F00u32 >> 8u32 == 0x7Fu32,
        (0x00007F00u32 >> 8u32) << 8u32 == 0x00007F00u32,
        0x0000007Fu32 >> 0u32 == 0x7Fu32,
        (0x0000007Fu32 >> 0u32) << 0u32 == 0x0000007Fu32,
        0xF0000000u32 & 0x0F000000u32 == 0,
        0x0F000000u32 & 0xF0000000u32 == 0,
        0xF0000000u32 & 0x00F00000u32 == 0,
        0x00F00000u32 & 0xF0000000u32 == 0,
        0xF0000000u32 & 0x000F0000u32 == 0,
        0x000F0000u32 & 0xF0000000u32 == 0,
        0xF0000000u32 & 0x00007F00u32 == 0,
        0x00007F00u32 & 0xF0000000u32 == 0,
        0xF0000000u32 & 0x0000007Fu32 == 0,
        0x0000007Fu32 & 0xF0000000u32 == 0,
        0x0F000000u32 & 0x00F00000u32 == 0,
        0x00F00000u32 & 0x0F000000u32 == 0,
        0x0F000000u32 & 0x000F0000u32 == 0,
        0x000F0000u32 & 0x0F000000u32 == 0,
        0x0F000000u32 & 0x00007F00u32 == 0,
        0x00007F00u32 & 0x0F000000u32 == 0,
        0x0F000000u32 & 0x0000007Fu32 == 0,
        0x0000007Fu32 & 0x0F000000u32 == 0,
        0x00F00000u32 & 0x000F0000u32 == 0,
        0x000F0000u32 & 0x00F00000u32 == 0,
        0x00F00000u32 & 0x00007F00u32 == 0,
        0x00007F00u32 & 0x00F00000u32 == 0,
        0x00F00000u32 & 0x0000007Fu32 == 0,
        0x0000007Fu32 & 0x00F00000u32 == 0,
        0x000F0000u32 & 0x00007F00u32 == 0,
        0x00007F00u32 & 0x000F0000u32 == 0,
        0x000F0000u32 & 0x0000007Fu32 == 0,
        0x0000007Fu32 & 0x000F0000u32 == 0,
        0x00007F00u32 & 0x0000007Fu32 == 0,
        0x0000007Fu32 & 0x00007F00u32 == 0,
{
}

/// Every field of the layout is well formed, and two distinct fields share
/// no bit.
pub proof fn lemma_midi1_ump_field(a: Midi1Field, b: Midi1Field)
    ensures
        layout_ok(spec_midi1_ump_field(a).mask, spec_midi1_ump_field(a).shift),
        a != b ==> spec_midi1_ump_field(a).disjoint(spec_midi1_ump_field(b)),
{
    lemma_midi1_ump_masks();
}

/// The layout's fields are well formed and pairwise disjoint.
pub proof fn lemma_midi1_ump_layout()
    ensures
        forall|a: Midi1Field| #[trigger] layout_ok(spec_midi1_ump_field(a).mask, spec_midi1_ump_field(a).shift),
        forall|a: Midi1Field, b: Midi1Field|
            a != b ==> (#[trigger] spec_midi1_ump_field(a)).disjoint(#[trigger] spec_midi1_ump_field(b)),
{
    assert forall|a: Midi1Field| #[trigger] layout_ok(spec_midi1_ump_field(a).mask, spec_midi1_ump_field(a).shift) by {
        lemma_midi1_ump_field(a, a);
    }
    assert forall|a: Midi1Field, b: Midi1Field|
        a != b implies (#[trigger] spec_midi1_ump_field(a)).disjoint(#[trigger] spec_midi1_ump_field(b)) by {
        lemma_midi1_ump_field(a, b);
    }
}

/// Writing one field of the layout makes it read back the value written and
/// leaves every other field as it was.
pub proof fn lemma_midi1_ump_write(units: Seq<u32>, id: Midi1Field, offset: int, v: u32)
    requires
        0 <= offset,
        offset + spec_midi1_ump_field(id).index < units.len(),
        fits(v, spec_midi1_ump_field(id).mask, spec_midi1_ump_field(id).shift),
    ensures
        field_value(with_field(units, spec_midi1_ump_field(id), offset, v), spec_midi1_ump_field(id), offset) == v,
        with_field(units, spec_midi1_ump_field(id), offset, v).len() == units.len(),
        forall|g: Midi1Field|
            g != id && offset + spec_midi1_ump_field(g).index < units.len() ==> #[trigger] field_value(
                with_field(units, spec_midi1_ump_field(id), offset, v),
                spec_midi1_ump_field(g),
                offset,
            ) == field_value(units, spec_midi1_ump_field(g), offset),
{
    lemma_midi1_ump_field(id, id);
    lemma_read_written(units, spec_midi1_ump_field(id), offset, v);
    assert forall|g: Midi1Field|
        g != id && offset + spec_midi1_ump_field(g).index < units.len() implies #[trigger] field_value(
            with_field(units, spec_midi1_ump_field(id), offset, v),
            spec_midi1_ump_field(g),
            offset,
        ) == field_value(units, spec_midi1_ump_field(g), offset) by {
        lemma_midi1_ump_field(id, g);
        lemma_write_keeps_other(units, spec_midi1_ump_field(id), spec_midi1_ump_field(g), offset, v);
    }
}

pub open spec fn spec_midi1_byte_field(id: Midi1Field) -> Field {
    match id {
        Midi1Field::UmpType => Field { index: 0, mask: 0x00000000, shift: 0 },
        Midi1Field::Group => Field { index: 0, mask: 0x00000000, shift: 0 },
        Midi1Field::Status => Field { index: 0, mask: 0x000000F0, shift: 4 },
        Midi1Field::Channel => Field { index: 0, mask: 0x0000000F, shift: 0 },
        Midi1Field::Data1 => Field { index: 1, mask: 0x0000007F, shift: 0 },
        Midi1Field::Data2 => Field { index: 2, mask: 0x0000007F, shift: 0 },
    }
}

/// Where each field lives in the byte form, counted from the first unit of the message.
#[verifier::when_used_as_spec(spec_midi1_byte_field)]
pub fn midi1_byte_field(id: Midi1Field) -> (r: Field)
    ensures
        r == spec_midi1_byte_field(id),
{
    match id {
        Midi1Field::UmpType => Field { index: 0, mask: 0x00000000, shift: 0 },
        Midi1Field::Group => Field { index: 0, mask: 0x00000000, shift: 0 },
        Midi1Field::Status => Field { index: 0, mask: 0x000000F0, shift: 4 },
        Midi1Field::Channel => Field { index: 0, mask: 0x0000000F, shift: 0 },
        Midi1Field::Data1 => Field { index: 1, mask: 0x0000007F, shift: 0 },
        Midi1Field::Data2 => Field { index: 2, mask: 0x0000007F, shift: 0 },
    }
}

/// The masks of the layout are well formed and pairwise disjoint.
proof fn lemma_midi1_byte_masks()
    by (bit_vector)
    ensures
        0x00000000u32 >> 0u32 == 0x0u32,
        (0x00000000u32 >> 0u32) << 0u32 == 0x00000000u32,
        0x00000000u32 >> 0u32 == 0x0u32,
        (0x00000000u32 >> 0u32) << 0u32 == 0x00000000u32,
        0x000000F0u32 >> 4u32 == 0xFu32,
        (0x000000F0u32 >> 4u32) << 4u32 == 0x000000F0u32,
        0x0000000Fu32 >> 0u32 == 0xFu32,
        (0x0000000Fu32 >> 0u32) << 0u32 == 0x0000000Fu32,
        0x0000007Fu32 >> 0u32 == 0x7Fu32,
        (0x0000007Fu32 >> 0u32) << 0u32 == 0x0000007Fu32,
        0x0000007Fu32 >> 0u32 == 0x7Fu32,
        (0x0000007Fu32 >> 0u32) << 0u32 == 0x0000007Fu32,
        0x00000000u32 & 0x00000000u32 == 0,
        0x00000000u32 & 0x00000000u32 == 0,
        0x00000000u32 & 0x000000F0u32 == 0,
        0x000000F0u32 & 0x00000000u32 == 0,
        0x00000000u32 & 0x0000000Fu32 == 0,
        0x0000000Fu32 & 0x00000000u32 == 0,
        0x000000F0u32 & 0x0000000Fu32 == 0,
        0x0000000Fu32 & 0x000000F0u32 == 0,
{
}

/// Every field of the layout is well formed, and two distinct fields share
/// no bit.
pub proof fn lemma_midi1_byte_field(a: Midi1Field, b: Midi1Field)
    ensures
        layout_ok(spec_midi1_byte_field(a).mask, spec_midi1_byte_field(a).shift),
        a != b ==> spec_midi1_byte_field(a).disjoint(spec_midi1_byte_field(b)),
{
    lemma_midi1_byte_masks();
}

/// The layout's fields are well formed and pairwise disjoint.
pub proof fn lemma_midi1_byte_layout()
    ensures
        forall|a: Midi1Field| #[trigger] layout_ok(spec_midi1_byte_field(a).mask, spec_midi1_byte_field(a).shift),
        forall|a: Midi1Field, b: Midi1Field|
            a != b ==> (#[trigger] spec_midi1_byte_field(a)).disjoint(#[trigger] spec_midi1_byte_field(b)),
{
    assert forall|a: Midi1Field| #[trigger] layout_ok(spec_midi1_byte_field(a).mask, spec_midi1_byte_field(a).shift) by {
        lemma_midi1_byte_field(a, a);
    }
    assert forall|a: Midi1Field, b: Midi1Field|
        a != b implies (#[trigger] spec_midi1_byte_field(a)).disjoint(#[trigger] spec_midi1_byte_field(b)) by {
        lemma_midi1_byte_field(a, b);
    }
}

/// Writing one field of the layout makes it read back the value written and
/// leaves every other field as it was.
pub proof fn lemma_midi1_byte_write(units: Seq<u32>, id: Midi1Field, offset: int, v: u32)
    requires
        0 <= offset,
        offset + spec_midi1_byte_field(id).index < units.len(),
        fits(v, spec_midi1_byte_field(id).mask, spec_midi1_byte_field(id).shift),
    ensures
        field_value(with_field(units, spec_midi1_byte_field(id), offset, v), spec_midi1_byte_field(id), offset) == v,
        with_field(units, spec_midi1_byte_field(id), offset, v).len() == units.len(),
        forall|g: Midi1Field|
            g != id && offset + spec_midi1_byte_field(g).index < units.len() ==> #[trigger] field_value(
                with_field(units, spec_midi1_byte_field(id), offset, v),
                spec_midi1_byte_field(g),
                offset,
            ) == field_value(units, spec_midi1_byte_field(g), offset),
{
    lemma_midi1_byte_field(id, id);
    lemma_read_written(units, spec_midi1_byte_field(id), offset, v);
    assert forall|g: Midi1Field|
        g != id && offset + spec_midi1_byte_field(g).index < units.len() implies #[trigger] field_value(
            with_field(units, spec_midi1_byte_field(id), offset, v),
            spec_midi1_byte_field(g),
            offset,
        ) == field_value(units, spec_midi1_byte_field(g), offset) by {
        lemma_midi1_byte_field(id, g);
        lemma_write_keeps_other(units, spec_midi1_byte_field(id), spec_midi1_byte_field(g), offset, v);
    }
}

/// The layout of a field in both unit kinds.
pub open spec fn spec_midi1_schema(id: Midi1Field) -> Schema {
    Schema { ump: spec_midi1_ump_field(id), bytes: spec_midi1_byte_field(id) }
}

/// The layout of a field in units of `kind`.
pub open spec fn spec_midi1_field(kind: UnitKind, id: Midi1Field) -> Field {
    spec_midi1_schema(id).spec_pick(kind)
}

#[verifier::when_used_as_spec(spec_midi1_field)]
pub fn midi1_field(kind: UnitKind, id: Midi1Field) -> (r: Field)
    ensures
        r == spec_midi1_field(kind, id),
{
    let schema = Schema { ump: midi1_ump_field(id), bytes: midi1_byte_field(id) };
    schema.pick(kind)
}

/// The value of a field of a packet; a field that the unit kind lacks reads
/// as zero.
pub open spec fn midi1_value(p: Packet, id: Midi1Field) -> u32 {
    midi1_unit_value(p.kind(), p.units(), id)
}

/// The value of a field of units of `kind`.
pub open spec fn midi1_unit_value(kind: UnitKind, units: Seq<u32>, id: Midi1Field) -> u32 {
    field_value(units, spec_midi1_field(kind, id), 0)
}

/// `p` with field `id` replaced by `v`; a field that the unit kind lacks is
/// left out.
pub open spec fn midi1_with(p: Packet, id: Midi1Field, v: u32) -> Seq<u32> {
    with_field(p.units(), spec_midi1_field(p.kind(), id), 0, v)
}

/// The statuses of the channel voice messages.
pub open spec fn is_channel_voice_status(s: u32) -> bool {
    0x8 <= s <= 0xE
}

/// Minimum number of units of a message with status `status`.
pub open spec fn midi1_min_len(kind: UnitKind, status: u32) -> nat {
    match kind {
        UnitKind::Word32 => 1,
        UnitKind::Byte8 => if status == PROGRAM_CHANGE || status == CHANNEL_PRESSURE {
            2
        } else {
            3
        },
    }
}

/// The outcome of validating `p` as the message with status `status`: the
/// packet type (word form only) first, then the status, then the size.
pub open spec fn midi1_check(p: Packet, status: u32) -> Result<(), Error> {
    midi1_units_check(p.kind(), p.units(), status)
}

/// [`midi1_check`] over the unit kind and the units.
pub open spec fn midi1_units_check(kind: UnitKind, units: Seq<u32>, status: u32) -> Result<
    (),
    Error,
> {
    if units.len() == 0 {
        Err(Error::BufferTooShort)
    } else if kind == UnitKind::Word32 && midi1_unit_value(kind, units, Midi1Field::UmpType)
        != MIDI1_CHANNEL_VOICE_TYPE {
        Err(Error::InvalidDiscriminant(Discriminant::PacketType))
    } else if midi1_unit_value(kind, units, Midi1Field::Status) != status {
        Err(Error::InvalidDiscriminant(Discriminant::Status))
    } else if units.len() < midi1_min_len(kind, status) {
        Err(Error::BufferTooShort)
    } else {
        Ok(())
    }
}

/// The largest value of each field in units of `kind`.
pub open spec fn midi1_max(kind: UnitKind, id: Midi1Field) -> u32 {
    match id {
        Midi1Field::Data1 | Midi1Field::Data2 => 0x7F,
        Midi1Field::UmpType | Midi1Field::Group => if kind == UnitKind::Word32 {
            0xF
        } else {
            0
        },
        _ => 0xF,
    }
}

/// The layouts of both unit kinds are well formed and disjoint.
proof fn lemma_midi1_field(kind: UnitKind, a: Midi1Field, b: Midi1Field)
    ensures
        spec_midi1_field(kind, a).ok_for(kind),
        a != b ==> spec_midi1_field(kind, a).disjoint(spec_midi1_field(kind, b)),
        spec_midi1_field(kind, a).mask >> spec_midi1_field(kind, a).shift == midi1_max(kind, a),
{
    lemma_midi1_ump_field(a, b);
    lemma_midi1_byte_field(a, b);
    lemma_midi1_ump_masks();
    lemma_midi1_byte_masks();
}

/// Round trip and non-overlap, in both unit kinds: writing a value of a
/// field's range into a valid packet keeps it valid, the field then decodes
/// to that value, and every other field keeps its value.
pub proof fn lemma_midi1_round_trip(kind: UnitKind, units: Seq<u32>, status: u32, id: Midi1Field, v: u32)
    requires
        midi1_units_check(kind, units, status) is Ok,
        id != Midi1Field::UmpType,
        id != Midi1Field::Status,
        spec_midi1_field(kind, id).index < units.len(),
        v <= midi1_max(kind, id),
    ensures
        midi1_units_check(kind, with_field(units, spec_midi1_field(kind, id), 0, v), status) is Ok,
        midi1_unit_value(kind, with_field(units, spec_midi1_field(kind, id), 0, v), id) == v,
        forall|g: Midi1Field|
            g != id && #[trigger] spec_midi1_field(kind, g).index < units.len() ==> midi1_unit_value(
                kind,
                with_field(units, spec_midi1_field(kind, id), 0, v),
                g,
            ) == midi1_unit_value(kind, units, g),
{
    let f = spec_midi1_field(kind, id);
    lemma_midi1_field(kind, id, id);
    lemma_fits_low(v, midi1_max(kind, id));
    lemma_read_written(units, f, 0, v);
    assert forall|g: Midi1Field|
        g != id && #[trigger] spec_midi1_field(kind, g).index < units.len() implies midi1_unit_value(
        kind,
        with_field(units, f, 0, v),
        g,
    ) == midi1_unit_value(kind, units, g) by {
        lemma_midi1_field(kind, id, g);
        lemma_write_keeps_other(units, f, spec_midi1_field(kind, g), 0, v);
    }
    lemma_midi1_field(kind, Midi1Field::UmpType, Midi1Field::UmpType);
    lemma_midi1_field(kind, Midi1Field::Status, Midi1Field::Status);
}

/// Discriminant rejection: flipping any bit of the status, or of the packet
/// type in the word form, of a valid packet makes validation for that
/// status fail at that level.
pub proof fn lemma_midi1_discriminant_flip(
    kind: UnitKind,
    units: Seq<u32>,
    status: u32,
    id: Midi1Field,
    bit: u32,
)
    requires
        midi1_units_check(kind, units, status) is Ok,
        id == Midi1Field::Status || (id == Midi1Field::UmpType && kind == UnitKind::Word32),
        bit < 4,
    ensures
        midi1_units_check(
            kind,
            with_field(
                units,
                spec_midi1_field(kind, id),
                0,
                midi1_unit_value(kind, units, id) ^ (1u32 << bit),
            ),
            status,
        ) == Err::<(), Error>(
            if id == Midi1Field::UmpType {
                Error::InvalidDiscriminant(Discriminant::PacketType)
            } else {
                Error::InvalidDiscriminant(Discriminant::Status)
            },
        ),
{
    let f = spec_midi1_field(kind, id);
    let x = midi1_unit_value(kind, units, id);
    lemma_midi1_field(kind, id, id);
    lemma_get_bounded(units[f.index as int], f.mask, f.shift);
    lemma_flip_bit(x, 0xF, bit);
    let v = x ^ (1u32 << bit);
    lemma_fits_low(v, 0xF);
    lemma_read_written(units, f, 0, v);
    lemma_midi1_field(kind, Midi1Field::UmpType, Midi1Field::Status);
    lemma_midi1_field(kind, Midi1Field::Status, Midi1Field::UmpType);
    if id == Midi1Field::Status {
        lemma_write_keeps_other(units, f, spec_midi1_field(kind, Midi1Field::UmpType), 0, v);
    } else {
        lemma_write_keeps_other(units, f, spec_midi1_field(kind, Midi1Field::Status), 0, v);
    }
}

/// Reads a field of a packet.
fn read_midi1(p: &Packet, id: Midi1Field) -> (r: u32)
    requires
        p.units().len() > spec_midi1_field(p.kind(), id).index,
    ensures
        r == midi1_value(*p, id),
        r <= midi1_max(p.kind(), id),
{
    let f = midi1_field(p.unit_kind(), id);
    proof {
        lemma_midi1_field(p.kind(), id, id);
        lemma_get_bounded(p.units()[f.index as int], f.mask, f.shift);
    }
    p.read_field(f, 0)
}

/// Writes a field of a valid packet other than a discriminant; the packet
/// stays valid for `status`.
fn write_midi1(p: &mut Packet, id: Midi1Field, v: u32, status: u32)
    requires
        midi1_check(*old(p), status) is Ok,
        id != Midi1Field::UmpType,
        id != Midi1Field::Status,
        old(p).units().len() > spec_midi1_field(old(p).kind(), id).index,
    ensures
        midi1_check(*final(p), status) is Ok,
        final(p).kind() == old(p).kind(),
        final(p).units() == midi1_with(*old(p), id, v),
        forall|g: Midi1Field|
            g != id && #[trigger] spec_midi1_field(old(p).kind(), g).index < old(p).units().len()
                ==> midi1_value(*final(p), g) == midi1_value(*old(p), g),
{
    let ghost q = *p;
    proof {
        lemma_midi1_field(q.kind(), id, id);
        assert forall|g: Midi1Field|
            g != id && #[trigger] spec_midi1_field(q.kind(), g).index < q.units().len() implies field_value(
            with_field(q.units(), spec_midi1_field(q.kind(), id), 0, v),
            spec_midi1_field(q.kind(), g),
            0,
        ) == field_value(q.units(), spec_midi1_field(q.kind(), g), 0) by {
            lemma_midi1_field(q.kind(), id, g);
            lemma_write_keeps_other(q.units(), spec_midi1_field(q.kind(), id), spec_midi1_field(q.kind(), g), 0, v);
        }
        lemma_midi1_field(q.kind(), Midi1Field::UmpType, Midi1Field::UmpType);
        lemma_midi1_field(q.kind(), Midi1Field::Status, Midi1Field::Status);
    }
    let f = midi1_field(p.unit_kind(), id);
    p.write_field(f, 0, v);
    proof {
        assert(midi1_value(*p, Midi1Field::Status) == midi1_value(q, Midi1Field::Status));
        if q.kind() == UnitKind::Word32 {
            assert(midi1_value(*p, Midi1Field::UmpType) == midi1_value(q, Midi1Field::UmpType));
        }
    }
}

/// Validates `p` as the message with status `status`.
fn check_midi1(p: &Packet, status: u32) -> (r: Result<(), Error>)
    ensures
        r == midi1_check(*p, status),
{
    if p.len() == 0 {
        return Err(Error::BufferTooShort);
    }
    proof {
        lemma_midi1_field(p.kind(), Midi1Field::UmpType, Midi1Field::UmpType);
        lemma_midi1_field(p.kind(), Midi1Field::Status, Midi1Field::Status);
    }
    let kind = p.unit_kind();
    if kind == UnitKind::Word32 && read_midi1(p, Midi1Field::UmpType) != MIDI1_CHANNEL_VOICE_TYPE {
        return Err(Error::InvalidDiscriminant(Discriminant::PacketType));
    }
    if read_midi1(p, Midi1Field::Status) != status {
        return Err(Error::InvalidDiscriminant(Discriminant::Status));
    }
    let min: usize = match kind {
        UnitKind::Word32 => 1,
        UnitKind::Byte8 => if status == PROGRAM_CHANGE || status == CHANNEL_PRESSURE {
            2
        } else {
            3
        },
    };
    if p.len() < min {
        return Err(Error::BufferTooShort);
    }
    Ok(())
}

/// A program change message, in either unit kind.
pub struct ProgramChangeMessage {
    packet: Packet,
}

impl View for ProgramChangeMessage {
    type V = Packet;

    closed spec fn view(&self) -> Packet {
        self.packet
    }
}

impl ProgramChangeMessage {
    /// The packet holds a valid program change message.
    pub open spec fn wf(&self) -> bool {
        midi1_check(self@, PROGRAM_CHANGE) is Ok
    }

    /// A builder over `buffer`; see [`ProgramChangeBuilder::new`].
    pub fn builder(buffer: Packet) -> (r: ProgramChangeBuilder)
        ensures
            r.wf(),
            buffer.units().len() < midi1_min_len(buffer.kind(), PROGRAM_CHANGE) ==> r@ == Err::<
                Packet,
                Error,
            >(Error::BufferTooShort),
            buffer.units().len() >= midi1_min_len(buffer.kind(), PROGRAM_CHANGE) ==> (r@ matches Ok(
                q,
            ) && q.kind() == buffer.kind() && q.units() == midi1_blank(
                buffer.kind(),
                buffer.units().len(),
                PROGRAM_CHANGE,
            )),
    {
        ProgramChangeBuilder::new(buffer)
    }

    /// Binds to `data` after validating it as a program change message.
    pub fn from_data(data: Packet) -> (r: Result<Self, Error>)
        ensures
            midi1_check(data, PROGRAM_CHANGE) is Ok ==> (r matches Ok(m) && m@ == data && m.wf()),
            midi1_check(data, PROGRAM_CHANGE) matches Err(e) ==> (r matches Err(x) && x == e),
    {
        match check_midi1(&data, PROGRAM_CHANGE) {
            Ok(()) => Ok(ProgramChangeMessage { packet: data }),
            Err(e) => Err(e),
        }
    }

    /// The message's packet.
    pub fn data(&self) -> (r: &Packet)
        ensures
            *r == self@,
    {
        &self.packet
    }

    /// The group; zero in the byte form, which has none.
    pub fn group(&self) -> (r: u8)
        requires
            self.wf(),
        ensures
            r as u32 == midi1_value(self@, Midi1Field::Group),
            r <= 0xF,
    {
        proof {
            lemma_midi1_field(self@.kind(), Midi1Field::Group, Midi1Field::Group);
        }
        read_midi1(&self.packet, Midi1Field::Group) as u8
    }

    pub fn channel(&self) -> (r: u8)
        requires
            self.wf(),
        ensures
            r as u32 == midi1_value(self@, Midi1Field::Channel),
            r <= 0xF,
    {
        proof {
            lemma_midi1_field(self@.kind(), Midi1Field::Channel, Midi1Field::Channel);
        }
        read_midi1(&self.packet, Midi1Field::Channel) as u8
    }

    pub fn program(&self) -> (r: u8)
        requires
            self.wf(),
        ensures
            r as u32 == midi1_value(self@, Midi1Field::Data1),
            r <= 0x7F,
    {
        proof {
            lemma_midi1_field(self@.kind(), Midi1Field::Data1, Midi1Field::Data1);
        }
        read_midi1(&self.packet, Midi1Field::Data1) as u8
    }
}

/// The units of a fresh message: zeroes with the packet type (word form
/// only) and the status written.
pub open spec fn midi1_blank(kind: UnitKind, len: nat, status: u32) -> Seq<u32> {
    with_field(
        with_field(
            blank(len),
            spec_midi1_field(kind, Midi1Field::UmpType),
            0,
            MIDI1_CHANNEL_VOICE_TYPE,
        ),
        spec_midi1_field(kind, Midi1Field::Status),
        0,
        status,
    )
}

/// Zeroes `buffer` and writes the discriminants, or fails when it is too
/// short for a message with status `status`.
fn midi1_start(buffer: Packet, status: u32) -> (r: Result<Packet, Error>)
    requires
        is_channel_voice_status(status),
    ensures
        buffer.units().len() < midi1_min_len(buffer.kind(), status) ==> r == Err::<Packet, Error>(
            Error::BufferTooShort,
        ),
        buffer.units().len() >= midi1_min_len(buffer.kind(), status) ==> (r matches Ok(q)
            && q.kind() == buffer.kind() && q.units() == midi1_blank(
            buffer.kind(),
            buffer.units().len(),
            status,
        )),
        r matches Ok(q) ==> midi1_check(q, status) is Ok,
{
    let kind = buffer.unit_kind();
    let min: usize = match kind {
        UnitKind::Word32 => 1,
        UnitKind::Byte8 => if status == PROGRAM_CHANGE || status == CHANNEL_PRESSURE {
            2
        } else {
            3
        },
    };
    if buffer.len() < min {
        return Err(Error::BufferTooShort);
    }
    let mut p = buffer;
    p.clear();
    let ghost zero = p.units();
    proof {
        lemma_midi1_field(kind, Midi1Field::UmpType, Midi1Field::Status);
        lemma_midi1_field(kind, Midi1Field::Status, Midi1Field::UmpType);
        lemma_get_zero_all();
    }
    p.write_field(midi1_field(kind, Midi1Field::UmpType), 0, MIDI1_CHANNEL_VOICE_TYPE);
    let ghost typed = p.units();
    proof {
        lemma_write_keeps_other(zero, spec_midi1_field(kind, Midi1Field::UmpType), spec_midi1_field(kind, Midi1Field::Status), 0, MIDI1_CHANNEL_VOICE_TYPE);
        if kind == UnitKind::Word32 {
            lemma_fits_low(MIDI1_CHANNEL_VOICE_TYPE, 0xF);
            lemma_read_written(zero, spec_midi1_field(kind, Midi1Field::UmpType), 0, MIDI1_CHANNEL_VOICE_TYPE);
            lemma_write_keeps_other(typed, spec_midi1_field(kind, Midi1Field::Status), spec_midi1_field(kind, Midi1Field::UmpType), 0, status);
        }
        lemma_fits_low(status, 0xF);
        lemma_read_written(typed, spec_midi1_field(kind, Midi1Field::Status), 0, status);
    }
    p.write_field(midi1_field(kind, Midi1Field::Status), 0, status);
    Ok(p)
}

/// Builds a program change message in a caller-given packet. A packet that
/// is too short makes every later call a no-op and `build` return the error.
pub struct ProgramChangeBuilder {
    state: Result<Packet, Error>,
}

impl View for ProgramChangeBuilder {
    type V = Result<Packet, Error>;

    closed spec fn view(&self) -> Result<Packet, Error> {
        self.state
    }
}

/// The state of a builder after a setter: an error stays, a packet gets the
/// field.
pub open spec fn midi1_set(state: Result<Packet, Error>, id: Midi1Field, v: u32) -> Result<
    Seq<u32>,
    Error,
> {
    match state {
        Ok(p) => Ok(midi1_with(p, id, v)),
        Err(e) => Err(e),
    }
}

/// After a setter of field `id` to `v`, on a packet that was kept: the field
/// reads `v` when the unit kind has room for it, and every other field reads
/// as before.
pub open spec fn midi1_reads(
    before: Result<Packet, Error>,
    after: Result<Packet, Error>,
    id: Midi1Field,
    v: u32,
) -> bool {
    match (before, after) {
        (Ok(a), Ok(b)) => {
            &&& v <= midi1_max(a.kind(), id) ==> midi1_value(b, id) == v
            &&& forall|g: Midi1Field|
                g != id && #[trigger] spec_midi1_field(a.kind(), g).index < a.units().len()
                    ==> midi1_value(b, g) == midi1_value(a, g)
        },
        _ => true,
    }
}

/// The units held by a builder state.
pub open spec fn state_units(state: Result<Packet, Error>) -> Result<Seq<u32>, Error> {
    match state {
        Ok(p) => Ok(p.units()),
        Err(e) => Err(e),
    }
}

impl ProgramChangeBuilder {
    /// The packet built so far holds a valid program change message.
    pub open spec fn wf(&self) -> bool {
        self@ matches Ok(p) ==> midi1_check(p, PROGRAM_CHANGE) is Ok
    }

    /// Zeroes `buffer` and writes the packet type and status; a packet too
    /// short for the message gives a builder that holds `BufferTooShort`.
    pub fn new(buffer: Packet) -> (r: Self)
        ensures
            r.wf(),
            buffer.units().len() < midi1_min_len(buffer.kind(), PROGRAM_CHANGE) ==> r@ == Err::<
                Packet,
                Error,
            >(Error::BufferTooShort),
            buffer.units().len() >= midi1_min_len(buffer.kind(), PROGRAM_CHANGE) ==> (r@ matches Ok(
                q,
            ) && q.kind() == buffer.kind() && q.units() == midi1_blank(
                buffer.kind(),
                buffer.units().len(),
                PROGRAM_CHANGE,
            )),
    {
        ProgramChangeBuilder { state: midi1_start(buffer, PROGRAM_CHANGE) }
    }

    fn set(self, id: Midi1Field, v: u32) -> (r: Self)
        requires
            self.wf(),
            id == Midi1Field::Group || id == Midi1Field::Channel || id == Midi1Field::Data1,
        ensures
            r.wf(),
            state_units(r@) == midi1_set(self@, id, v),
            r@ matches Ok(q) ==> self@ matches Ok(p) && q.kind() == p.kind(),
            midi1_reads(self@, r@, id, v),
    {
        match self.state {
            Ok(mut p) => {
                proof {
                    lemma_midi1_field(p.kind(), id, id);
                    if v <= midi1_max(p.kind(), id) {
                        lemma_midi1_round_trip(p.kind(), p.units(), PROGRAM_CHANGE, id, v);
                    }
                }
                write_midi1(&mut p, id, v, PROGRAM_CHANGE);
                ProgramChangeBuilder { state: Ok(p) }
            },
            Err(e) => ProgramChangeBuilder { state: Err(e) },
        }
    }

    /// Sets the group; the byte form has none and is left as it is.
    pub fn group(self, v: u8) -> (r: Self)
        requires
            self.wf(),
            v <= 0xF,
        ensures
            r.wf(),
            state_units(r@) == midi1_set(self@, Midi1Field::Group, v as u32),
            midi1_reads(self@, r@, Midi1Field::Group, v as u32),
    {
        self.set(Midi1Field::Group, v as u32)
    }

    pub fn channel(self, v: u8) -> (r: Self)
        requires
            self.wf(),
            v <= 0xF,
        ensures
            r.wf(),
            state_units(r@) == midi1_set(self@, Midi1Field::Channel, v as u32),
            midi1_reads(self@, r@, Midi1Field::Channel, v as u32),
    {
        self.set(Midi1Field::Channel, v as u32)
    }

    pub fn program(self, v: u8) -> (r: Self)
        requires
            self.wf(),
            v <= 0x7F,
        ensures
            r.wf(),
            state_units(r@) == midi1_set(self@, Midi1Field::Data1, v as u32),
            midi1_reads(self@, r@, Midi1Field::Data1, v as u32),
    {
        self.set(Midi1Field::Data1, v as u32)
    }

    /// The message built, or the error recorded by `new`.
    pub fn build(self) -> (r: Result<ProgramChangeMessage, Error>)
        requires
            self.wf(),
        ensures
            match self@ {
                Ok(p) => r matches Ok(m) && m@ == p && m.wf(),
                Err(e) => r matches Err(x) && x == e,
            },
    {
        match self.state {
            Ok(packet) => Ok(ProgramChangeMessage { packet }),
            Err(e) => Err(e),
        }
    }
}

/// Sets the group of a valid packet; the byte form has none and is left as
/// it is.
fn set_midi1_group(p: &mut Packet, v: u8, status: u32)
    requires
        midi1_check(*old(p), status) is Ok,
        v <= 0xF,
    ensures
        midi1_check(*final(p), status) is Ok,
        final(p).kind() == old(p).kind(),
        final(p).units() == midi1_with(*old(p), Midi1Field::Group, v as u32),
        midi1_value(*final(p), Midi1Field::Status) == midi1_value(*old(p), Midi1Field::Status),
{
    proof {
        lemma_midi1_field(old(p).kind(), Midi1Field::Group, Midi1Field::Group);
        lemma_midi1_field(old(p).kind(), Midi1Field::Status, Midi1Field::Status);
    }
    write_midi1(p, Midi1Field::Group, v as u32, status);
}

impl ProgramChangeMessage {
    /// Sets the group; the byte form has none and is left as it is.
    pub fn set_group(&mut self, v: u8)
        requires
            old(self).wf(),
            v <= 0xF,
        ensures
            final(self).wf(),
            final(self)@.kind() == old(self)@.kind(),
            final(self)@.units() == midi1_with(old(self)@, Midi1Field::Group, v as u32),
    {
        set_midi1_group(&mut self.packet, v, PROGRAM_CHANGE);
    }
}

/// A MIDI 1.0 channel voice message, in either unit kind, read through the
/// fields that all such messages share.
pub struct Midi1Message {
    packet: Packet,
}

impl View for Midi1Message {
    type V = Packet;

    closed spec fn view(&self) -> Packet {
        self.packet
    }
}

impl Midi1Message {
    /// The packet holds a valid channel voice message of its status.
    pub open spec fn wf(&self) -> bool {
        &&& is_channel_voice_status(midi1_value(self@, Midi1Field::Status))
        &&& midi1_check(self@, midi1_value(self@, Midi1Field::Status)) is Ok
    }

    /// The message's packet.
    pub fn data(&self) -> (r: &Packet)
        ensures
            *r == self@,
    {
        &self.packet
    }

    /// The group; zero in the byte form, which has none.
    pub fn group(&self) -> (r: u8)
        requires
            self.wf(),
        ensures
            r as u32 == midi1_value(self@, Midi1Field::Group),
            r <= 0xF,
    {
        proof {
            lemma_midi1_field(self@.kind(), Midi1Field::Group, Midi1Field::Group);
        }
        read_midi1(&self.packet, Midi1Field::Group) as u8
    }

    pub fn channel(&self) -> (r: u8)
        requires
            self.wf(),
        ensures
            r as u32 == midi1_value(self@, Midi1Field::Channel),
            r <= 0xF,
    {
        proof {
            lemma_midi1_field(self@.kind(), Midi1Field::Channel, Midi1Field::Channel);
        }
        read_midi1(&self.packet, Midi1Field::Channel) as u8
    }

    /// The first data byte (a note number, a controller number, or the low
    /// seven bits of a pitch bend, depending on the status).
    pub fn data1(&self) -> (r: u8)
        requires
            self.wf(),
        ensures
            r as u32 == midi1_value(self@, Midi1Field::Data1),
            r <= 0x7F,
    {
        proof {
            lemma_midi1_field(self@.kind(), Midi1Field::Data1, Midi1Field::Data1);
        }
        read_midi1(&self.packet, Midi1Field::Data1) as u8
    }

    /// Sets the group; the byte form has none and is left as it is.
    pub fn set_group(&mut self, v: u8)
        requires
            old(self).wf(),
            v <= 0xF,
        ensures
            final(self).wf(),
            final(self)@.kind() == old(self)@.kind(),
            final(self)@.units() == midi1_with(old(self)@, Midi1Field::Group, v as u32),
            midi1_value(final(self)@, Midi1Field::Status) == midi1_value(old(self)@, Midi1Field::Status),
    {
        proof {
            lemma_midi1_field(self@.kind(), Midi1Field::Status, Midi1Field::Status);
        }
        let s = read_midi1(&self.packet, Midi1Field::Status);
        set_midi1_group(&mut self.packet, v, s);
    }
}

/// The MIDI 1.0 channel voice family: one variant per status.
pub enum Midi1ChannelVoice {
    ChannelPressure(Midi1Message),
    ControlChange(Midi1Message),
    KeyPressure(Midi1Message),
    NoteOff(Midi1Message),
    NoteOn(Midi1Message),
    PitchBend(Midi1Message),
    ProgramChange(ProgramChangeMessage),
}

/// The outcome of classifying `p`: the packet type (word form only) must be
/// that of the family and the status one of its seven; then the message of
/// that status must validate.
pub open spec fn midi1_dispatch(p: Packet) -> Result<u32, Error> {
    if p.units().len() == 0 {
        Err(Error::BufferTooShort)
    } else if p.kind() == UnitKind::Word32 && midi1_value(p, Midi1Field::UmpType)
        != MIDI1_CHANNEL_VOICE_TYPE {
        Err(Error::UnknownVariant(Discriminant::PacketType))
    } else if !is_channel_voice_status(midi1_value(p, Midi1Field::Status)) {
        Err(Error::UnknownVariant(Discriminant::Status))
    } else {
        match midi1_check(p, midi1_value(p, Midi1Field::Status)) {
            Ok(()) => Ok(midi1_value(p, Midi1Field::Status)),
            Err(e) => Err(e),
        }
    }
}

impl Midi1ChannelVoice {
    /// The packet of the message held.
    pub open spec fn packet(self) -> Packet {
        match self {
            Midi1ChannelVoice::ChannelPressure(m) => m@,
            Midi1ChannelVoice::ControlChange(m) => m@,
            Midi1ChannelVoice::KeyPressure(m) => m@,
            Midi1ChannelVoice::NoteOff(m) => m@,
            Midi1ChannelVoice::NoteOn(m) => m@,
            Midi1ChannelVoice::PitchBend(m) => m@,
            Midi1ChannelVoice::ProgramChange(m) => m@,
        }
    }

    /// The status that the variant stands for.
    pub open spec fn status_code(self) -> u32 {
        match self {
            Midi1ChannelVoice::ChannelPressure(_) => CHANNEL_PRESSURE,
            Midi1ChannelVoice::ControlChange(_) => CONTROL_CHANGE,
            Midi1ChannelVoice::KeyPressure(_) => KEY_PRESSURE,
            Midi1ChannelVoice::NoteOff(_) => NOTE_OFF,
            Midi1ChannelVoice::NoteOn(_) => NOTE_ON,
            Midi1ChannelVoice::PitchBend(_) => PITCH_BEND,
            Midi1ChannelVoice::ProgramChange(_) => PROGRAM_CHANGE,
        }
    }

    /// The packet is a valid message of the variant's status.
    pub open spec fn wf(self) -> bool {
        &&& midi1_check(self.packet(), self.status_code()) is Ok
        &&& midi1_value(self.packet(), Midi1Field::Status) == self.status_code()
    }

    /// Classifies `data` by packet type and status and binds it to the
    /// message of that status.
    pub fn from_data(data: Packet) -> (r: Result<Self, Error>)
        ensures
            midi1_dispatch(data) matches Ok(s) ==> (r matches Ok(m) && m.packet() == data
                && m.status_code() == s && m.wf()),
            midi1_dispatch(data) matches Err(e) ==> (r matches Err(x) && x == e),
    {
        if data.len() == 0 {
            return Err(Error::BufferTooShort);
        }
        proof {
            lemma_midi1_field(data.kind(), Midi1Field::UmpType, Midi1Field::UmpType);
            lemma_midi1_field(data.kind(), Midi1Field::Status, Midi1Field::Status);
        }
        if data.unit_kind() == UnitKind::Word32 && read_midi1(&data, Midi1Field::UmpType)
            != MIDI1_CHANNEL_VOICE_TYPE {
            return Err(Error::UnknownVariant(Discriminant::PacketType));
        }
        let status = read_midi1(&data, Midi1Field::Status);
        if status < NOTE_OFF || status > PITCH_BEND {
            return Err(Error::UnknownVariant(Discriminant::Status));
        }
        if let Err(e) = check_midi1(&data, status) {
            return Err(e);
        }
        Ok(match status {
        CHANNEL_PRESSURE => Midi1ChannelVoice::ChannelPressure(Midi1Message { packet: data }),
        CONTROL_CHANGE => Midi1ChannelVoice::ControlChange(Midi1Message { packet: data }),
        KEY_PRESSURE => Midi1ChannelVoice::KeyPressure(Midi1Message { packet: data }),
        NOTE_OFF => Midi1ChannelVoice::NoteOff(Midi1Message { packet: data }),
        NOTE_ON => Midi1ChannelVoice::NoteOn(Midi1Message { packet: data }),
        PITCH_BEND => Midi1ChannelVoice::PitchBend(Midi1Message { packet: data }),
            _ => Midi1ChannelVoice::ProgramChange(ProgramChangeMessage { packet: data }),
        })
    }

    /// The group of the message held; zero in the byte form.
    pub fn group(&self) -> (r: u8)
        requires
            self.wf(),
        ensures
            r as u32 == midi1_value(self.packet(), Midi1Field::Group),
    {
        match self {
            Midi1ChannelVoice::ChannelPressure(m) => m.group(),
            Midi1ChannelVoice::ControlChange(m) => m.group(),
            Midi1ChannelVoice::KeyPressure(m) => m.group(),
            Midi1ChannelVoice::NoteOff(m) => m.group(),
            Midi1ChannelVoice::NoteOn(m) => m.group(),
            Midi1ChannelVoice::PitchBend(m) => m.group(),
            Midi1ChannelVoice::ProgramChange(m) => m.group(),
        }
    }

    /// The channel of the message held.
    pub fn channel(&self) -> (r: u8)
        requires
            self.wf(),
        ensures
            r as u32 == midi1_value(self.packet(), Midi1Field::Channel),
    {
        match self {
            Midi1ChannelVoice::ChannelPressure(m) => m.channel(),
            Midi1ChannelVoice::ControlChange(m) => m.channel(),
            Midi1ChannelVoice::KeyPressure(m) => m.channel(),
            Midi1ChannelVoice::NoteOff(m) => m.channel(),
            Midi1ChannelVoice::NoteOn(m) => m.channel(),
            Midi1ChannelVoice::PitchBend(m) => m.channel(),
            Midi1ChannelVoice::ProgramChange(m) => m.channel(),
        }
    }

    /// Sets the group of the message held; the byte form has none.
    pub fn set_group(&mut self, v: u8)
        requires
            old(self).wf(),
            v <= 0xF,
        ensures
            final(self).wf(),
            final(self).status_code() == old(self).status_code(),
            final(self).packet().kind() == old(self).packet().kind(),
            final(self).packet().units() == midi1_with(old(self).packet(), Midi1Field::Group, v as u32),
    {
        match self {
            Midi1ChannelVoice::ChannelPressure(m) => m.set_group(v),
            Midi1ChannelVoice::ControlChange(m) => m.set_group(v),
            Midi1ChannelVoice::KeyPressure(m) => m.set_group(v),
            Midi1ChannelVoice::NoteOff(m) => m.set_group(v),
            Midi1ChannelVoice::NoteOn(m) => m.set_group(v),
            Midi1ChannelVoice::PitchBend(m) => m.set_group(v),
            Midi1ChannelVoice::ProgramChange(m) => m.set_group(v),
        }
    }
}

} // verus!
