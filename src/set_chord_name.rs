//! The chord-name record of the flex-data family, with its optional
//! jitter-reduction prefix word.
use vstd::prelude::*;
use vstd::slice::slice_to_vec;
use crate::bits::{
    fits, layout_ok, lemma_fits_low, lemma_flip_bit, lemma_get_bounded, lemma_get_zero_all,
};
use crate::chord::{
    alteration_code, alteration_decodes, alteration_from_octet, alteration_into_octet, alteration_wf, Alteration,
    ChordType, SharpsFlats, Tonic,
};
use crate::error::{Discriminant, Error, FieldKind};
use crate::packet::{
    blank, field_value, lemma_read_written, lemma_write_keeps_other, read_word_field,
    with_field, write_word_field, Field,
};

verus! {

/// Packet type of flex-data messages.
pub const FLEX_DATA_TYPE: u32 = 0xD;

/// Packet type of utility messages, which a jitter-reduction word carries.
pub const UTILITY_TYPE: u32 = 0x0;

/// Format code of a message complete in one packet.
pub const COMPLETE_FORMAT: u32 = 0x0;

/// Status bank of setup and performance messages.
pub const SETUP_AND_PERFORMANCE_BANK: u32 = 0x00;

/// Status of the chord-name record.
pub const CHORD_NAME_STATUS: u32 = 0x06;

/// Number of words of a chord-name record, without the prefix.
pub const CHORD_NAME_WORDS: usize = 4;

/// The fields of a chord-name record, counted from its first word after the prefix.
#[derive(Debug, Clone, Copy, PartialEq, Eq, Structural)]
pub enum ChordField {
    /// Packet type, always 0xD.
    UmpType,
    /// Group, 4 bits.
    Group,
    /// Format, always complete (0).
    Format,
    /// Addressing: 0 for one channel, 1 for the whole group.
    Address,
    /// Channel, meaningful when addressed to a channel.
    Channel,
    /// Status bank, always setup and performance (0).
    Bank,
    /// Status, always 0x06.
    Status,
    /// Accidental of the tonic.
    TonicSharpsFlats,
    /// Tonic note.
    Tonic,
    /// Chord type.
    ChordType,
    /// First chord alteration.
    ChordAlteration1,
    /// Second chord alteration.
    ChordAlteration2,
    /// Third chord alteration.
    ChordAlteration3,
    /// Fourth chord alteration.
    ChordAlteration4,
    /// Accidental of the bass note.
    BassSharpsFlats,
    /// Bass note.
    BassNote,
    /// Bass chord type.
    BassChordType,
    /// First bass alteration.
    BassAlteration1,
    /// Second bass alteration.
    BassAlteration2,
}

pub open spec fn spec_chord_field(id: ChordField) -> Field {
    match id {
        ChordField::UmpType => Field { index: 0, mask: 0xF0000000, shift: 28 },
        ChordField::Group => Field { index: 0, mask: 0x0F000000, shift: 24 },
        ChordField::Format => Field { index: 0, mask: 0x00C00000, shift: 22 },
        ChordField::Address => Field { index: 0, mask: 0x00300000, shift: 20 },
        ChordField::Channel => Field { index: 0, mask: 0x000F0000, shift: 16 },
        ChordField::Bank => Field { index: 0, mask: 0x0000FF00, shift: 8 },
        ChordField::Status => Field { index: 0, mask: 0x000000FF, shift: 0 },
        ChordField::TonicSharpsFlats => Field { index: 1, mask: 0xF0000000, shift: 28 },
        ChordField::Tonic => Field { index: 1, mask: 0x0F000000, shift: 24 },
        ChordField::ChordType => Field { index: 1, mask: 0x00FF0000, shift: 16 },
        ChordField::ChordAlteration1 => Field { index: 1, mask: 0x0000FF00, shift: 8 },
        ChordField::ChordAlteration2 => Field { index: 1, mask: 0x000000FF, shift: 0 },
        ChordField::ChordAlteration3 => Field { index: 2, mask: 0xFF000000, shift: 24 },
        ChordField::ChordAlteration4 => Field { index: 2, mask: 0x00FF0000, shift: 16 },
        ChordField::BassSharpsFlats => Field { index: 3, mask: 0xF0000000, shift: 28 },
        ChordField::BassNote => Field { index: 3, mask: 0x0F000000, shift: 24 },
        ChordField::BassChordType => Field { index: 3, mask: 0x00FF0000, shift: 16 },
        ChordField::BassAlteration1 => Field { index: 3, mask: 0x0000FF00, shift: 8 },
        ChordField::BassAlteration2 => Field { index: 3, mask: 0x000000FF, shift: 0 },
    }
}

/// Where each field lives, counted from the first unit of the message.
#[verifier::when_used_as_spec(spec_chord_field)]
pub fn chord_field(id: ChordField) -> (r: Field)
    ensures
        r == spec_chord_field(id),
{
    match id {
        ChordField::UmpType => Field { index: 0, mask: 0xF0000000, shift: 28 },
        ChordField::Group => Field { index: 0, mask: 0x0F000000, shift: 24 },
        ChordField::Format => Field { index: 0, mask: 0x00C00000, shift: 22 },
        ChordField::Address => Field { index: 0, mask: 0x00300000, shift: 20 },
        ChordField::Channel => Field { index: 0, mask: 0x000F0000, shift: 16 },
        ChordField::Bank => Field { index: 0, mask: 0x0000FF00, shift: 8 },
        ChordField::Status => Field { index: 0, mask: 0x000000FF, shift: 0 },
        ChordField::TonicSharpsFlats => Field { index: 1, mask: 0xF0000000, shift: 28 },
        ChordField::Tonic => Field { index: 1, mask: 0x0F000000, shift: 24 },
        ChordField::ChordType => Field { index: 1, mask: 0x00FF0000, shift: 16 },
        ChordField::ChordAlteration1 => Field { index: 1, mask: 0x0000FF00, shift: 8 },
        ChordField::ChordAlteration2 => Field { index: 1, mask: 0x000000FF, shift: 0 },
        ChordField::ChordAlteration3 => Field { index: 2, mask: 0xFF000000, shift: 24 },
        ChordField::ChordAlteration4 => Field { index: 2, mask: 0x00FF0000, shift: 16 },
        ChordField::BassSharpsFlats => Field { index: 3, mask: 0xF0000000, shift: 28 },
        ChordField::BassNote => Field { index: 3, mask: 0x0F000000, shift: 24 },
        ChordField::BassChordType => Field { index: 3, mask: 0x00FF0000, shift: 16 },
        ChordField::BassAlteration1 => Field { index: 3, mask: 0x0000FF00, shift: 8 },
        ChordField::BassAlteration2 => Field { index: 3, mask: 0x000000FF, shift: 0 },
    }
}

/// The masks of the layout are well formed and pairwise disjoint.
proof fn lemma_chord_masks()
    by (bit_vector)
    ensures
        0xF0000000u32 >> 28u32 == 0xFu32,
        (0xF0000000u32 >> 28u32) << 28u32 == 0xF0000000u32,
        0x0F000000u32 >> 24u32 == 0xFu32,
        (0x0F000000u32 >> 24u32) << 24u32 == 0x0F000000u32,
        0x00C00000u32 >> 22u32 == 0x3u32,
        (0x00C00000u32 >> 22u32) << 22u32 == 0x00C00000u32,
        0x00300000u32 >> 20u32 == 0x3u32,
        (0x00300000u32 >> 20u32) << 20u32 == 0x00300000u32,
        0x000F0000u32 >> 16u32 == 0xFu32,
        (0x000F0000u32 >> 16u32) << 16u32 == 0x000F0000u32,
        0x0000FF00u32 >> 8u32 == 0xFFu32,
        (0x0000FF00u32 >> 8u32) << 8u32 == 0x0000FF00u32,
        0x000000FFu32 >> 0u32 == 0xFFu32,
        (0x000000FFu32 >> 0u32) << 0u32 == 0x000000FFu32,
        0xF0000000u32 >> 28u32 == 0xFu32,
        (0xF0000000u32 >> 28u32) << 28u32 == 0xF0000000u32,
        0x0F000000u32 >> 24u32 == 0xFu32,
        (0x0F000000u32 >> 24u32) << 24u32 == 0x0F000000u32,
        0x00FF0000u32 >> 16u32 == 0xFFu32,
        (0x00FF0000u32 >> 16u32) << 16u32 == 0x00FF0000u32,
        0x0000FF00u32 >> 8u32 == 0xFFu32,
        (0x0000FF00u32 >> 8u32) << 8u32 == 0x0000FF00u32,
        0x000000FFu32 >> 0u32 == 0xFFu32,
        (0x000000FFu32 >> 0u32) << 0u32 == 0x000000FFu32,
        0xFF000000u32 >> 24u32 == 0xFFu32,
        (0xFF000000u32 >> 24u32) << 24u32 == 0xFF000000u32,
        0x00FF0000u32 >> 16u32 == 0xFFu32,
        (0x00FF0000u32 >> 16u32) << 16u32 == 0x00FF0000u32,
        0xF0000000u32 >> 28u32 == 0xFu32,
        (0xF0000000u32 >> 28u32) << 28u32 == 0xF0000000u32,
        0x0F000000u32 >> 24u32 == 0xFu32,
        (0x0F000000u32 >> 24u32) << 24u32 == 0x0F000000u32,
        0x00FF0000u32 >> 16u32 == 0xFFu32,
        (0x00FF0000u32 >> 16u32) << 16u32 == 0x00FF0000u32,
        0x0000FF00u32 >> 8u32 == 0xFFu32,
        (0x0000FF00u32 >> 8u32) << 8u32 == 0x0000FF00u32,
        0x000000FFu32 >> 0u32 == 0xFFu32,
        (0x000000FFu32 >> 0u32) << 0u32 == 0x000000FFu32,
        0xF0000000u32 & 0x0F000000u32 == 0,
        0x0F000000u32 & 0xF0000000u32 == 0,
        0xF0000000u32 & 0x00C00000u32 == 0,
        0x00C00000u32 & 0xF0000000u32 == 0,
        0xF0000000u32 & 0x00300000u32 == 0,
        0x00300000u32 & 0xF0000000u32 == 0,
        0xF0000000u32 & 0x000F0000u32 == 0,
        0x000F0000u32 & 0xF0000000u32 == 0,
        0xF0000000u32 & 0x0000FF00u32 == 0,
        0x0000FF00u32 & 0xF0000000u32 == 0,
        0xF0000000u32 & 0x000000FFu32 == 0,
        0x000000FFu32 & 0xF0000000u32 == 0,
        0x0F000000u32 & 0x00C00000u32 == 0,
        0x00C00000u32 & 0x0F000000u32 == 0,
        0x0F000000u32 & 0x00300000u32 == 0,
        0x00300000u32 & 0x0F000000u32 == 0,
        0x0F000000u32 & 0x000F0000u32 == 0,
        0x000F0000u32 & 0x0F000000u32 == 0,
        0x0F000000u32 & 0x0000FF00u32 == 0,
        0x0000FF00u32 & 0x0F000000u32 == 0,
        0x0F000000u32 & 0x000000FFu32 == 0,
        0x000000FFu32 & 0x0F000000u32 == 0,
        0x00C00000u32 & 0x00300000u32 == 0,
        0x00300000u32 & 0x00C00000u32 == 0,
        0x00C00000u32 & 0x000F0000u32 == 0,
        0x000F0000u32 & 0x00C00000u32 == 0,
        0x00C00000u32 & 0x0000FF00u32 == 0,
        0x0000FF00u32 & 0x00C00000u32 == 0,
        0x00C00000u32 & 0x000000FFu32 == 0,
        0x000000FFu32 & 0x00C00000u32 == 0,
        0x00300000u32 & 0x000F0000u32 == 0,
        0x000F0000u32 & 0x00300000u32 == 0,
        0x00300000u32 & 0x0000FF00u32 == 0,
        0x0000FF00u32 & 0x00300000u32 == 0,
        0x00300000u32 & 0x000000FFu32 == 0,
        0x000000FFu32 & 0x00300000u32 == 0,
        0x000F0000u32 & 0x0000FF00u32 == 0,
        0x0000FF00u32 & 0x000F0000u32 == 0,
        0x000F0000u32 & 0x000000FFu32 == 0,
        0x000000FFu32 & 0x000F0000u32 == 0,
        0x0000FF00u32 & 0x000000FFu32 == 0,
        0x000000FFu32 & 0x0000FF00u32 == 0,
        0xF0000000u32 & 0x00FF0000u32 == 0,
        0x00FF0000u32 & 0xF0000000u32 == 0,
        0x0F000000u32 & 0x00FF0000u32 == 0,
        0x00FF0000u32 & 0x0F000000u32 == 0,
        0x00FF0000u32 & 0x0000FF00u32 == 0,
        0x0000FF00u32 & 0x00FF0000u32 == 0,
        0x00FF0000u32 & 0x000000FFu32 == 0,
        0x000000FFu32 & 0x00FF0000u32 == 0,
        0xFF000000u32 & 0x00FF0000u32 == 0,
        0x00FF0000u32 & 0xFF000000u32 == 0,
{
}

/// Every field of the layout is well formed, and two distinct fields share
/// no bit.
pub proof fn lemma_chord_field(a: ChordField, b: ChordField)
    ensures
        layout_ok(spec_chord_field(a).mask, spec_chord_field(a).shift),
        a != b ==> spec_chord_field(a).disjoint(spec_chord_field(b)),
{
    lemma_chord_masks();
}

/// The layout's fields are well formed and pairwise disjoint.
pub proof fn lemma_chord_layout()
    ensures
        forall|a: ChordField| #[trigger] layout_ok(spec_chord_field(a).mask, spec_chord_field(a).shift),
        forall|a: ChordField, b: ChordField|
            a != b ==> (#[trigger] spec_chord_field(a)).disjoint(#[trigger] spec_chord_field(b)),
{
    assert forall|a: ChordField| #[trigger] layout_ok(spec_chord_field(a).mask, spec_chord_field(a).shift) by {
        lemma_chord_field(a, a);
    }
    assert forall|a: ChordField, b: ChordField|
        a != b implies (#[trigger] spec_chord_field(a)).disjoint(#[trigger] spec_chord_field(b)) by {
        lemma_chord_field(a, b);
    }
}

/// Writing one field of the layout makes it read back the value written and
/// leaves every other field as it was.
pub proof fn lemma_chord_write(units: Seq<u32>, id: ChordField, offset: int, v: u32)
    requires
        0 <= offset,
        offset + 4 <= units.len(),
        fits(v, spec_chord_field(id).mask, spec_chord_field(id).shift),
    ensures
        field_value(with_field(units, spec_chord_field(id), offset, v), spec_chord_field(id), offset) == v,
        with_field(units, spec_chord_field(id), offset, v).len() == units.len(),
        forall|g: ChordField|
            g != id ==> #[trigger] field_value(
                with_field(units, spec_chord_field(id), offset, v),
                spec_chord_field(g),
                offset,
            ) == field_value(units, spec_chord_field(g), offset),
{
    lemma_chord_field(id, id);
    lemma_read_written(units, spec_chord_field(id), offset, v);
    assert forall|g: ChordField|
        g != id implies #[trigger] field_value(
            with_field(units, spec_chord_field(id), offset, v),
            spec_chord_field(g),
            offset,
        ) == field_value(units, spec_chord_field(g), offset) by {
        lemma_chord_field(id, g);
        lemma_write_keeps_other(units, spec_chord_field(id), spec_chord_field(g), offset, v);
    }
}

/// The fields of the optional leading jitter-reduction word.
#[derive(Debug, Clone, Copy, PartialEq, Eq, Structural)]
pub enum PrefixField {
    /// Packet type, 0 for a utility word.
    UmpType,
    /// Utility status: 0 no-op, 1 clock, 2 timestamp.
    Status,
    /// Clock or timestamp value.
    Value,
}

pub open spec fn spec_prefix_field(id: PrefixField) -> Field {
    match id {
        PrefixField::UmpType => Field { index: 0, mask: 0xF0000000, shift: 28 },
        PrefixField::Status => Field { index: 0, mask: 0x00F00000, shift: 20 },
        PrefixField::Value => Field { index: 0, mask: 0x0000FFFF, shift: 0 },
    }
}

/// Where each field lives, counted from the first unit of the message.
#[verifier::when_used_as_spec(spec_prefix_field)]
pub fn prefix_field(id: PrefixField) -> (r: Field)
    ensures
        r == spec_prefix_field(id),
{
    match id {
        PrefixField::UmpType => Field { index: 0, mask: 0xF0000000, shift: 28 },
        PrefixField::Status => Field { index: 0, mask: 0x00F00000, shift: 20 },
        PrefixField::Value => Field { index: 0, mask: 0x0000FFFF, shift: 0 },
    }
}

/// The masks of the layout are well formed and pairwise disjoint.
proof fn lemma_prefix_masks()
    by (bit_vector)
    ensures
        0xF0000000u32 >> 28u32 == 0xFu32,
        (0xF0000000u32 >> 28u32) << 28u32 == 0xF0000000u32,
        0x00F00000u32 >> 20u32 == 0xFu32,
        (0x00F00000u32 >> 20u32) << 20u32 == 0x00F00000u32,
        0x0000FFFFu32 >> 0u32 == 0xFFFFu32,
        (0x0000FFFFu32 >> 0u32) << 0u32 == 0x0000FFFFu32,
        0xF0000000u32 & 0x00F00000u32 == 0,
        0x00F00000u32 & 0xF0000000u32 == 0,
        0xF0000000u32 & 0x0000FFFFu32 == 0,
        0x0000FFFFu32 & 0xF0000000u32 == 0,
        0x00F00000u32 & 0x0000FFFFu32 == 0,
        0x0000FFFFu32 & 0x00F00000u32 == 0,
{
}

/// Every field of the layout is well formed, and two distinct fields share
/// no bit.
pub proof fn lemma_prefix_field(a: PrefixField, b: PrefixField)
    ensures
        layout_ok(spec_prefix_field(a).mask, spec_prefix_field(a).shift),
        a != b ==> spec_prefix_field(a).disjoint(spec_prefix_field(b)),
{
    lemma_prefix_masks();
}

/// The layout's fields are well formed and pairwise disjoint.
pub proof fn lemma_prefix_layout()
    ensures
        forall|a: PrefixField| #[trigger] layout_ok(spec_prefix_field(a).mask, spec_prefix_field(a).shift),
        forall|a: PrefixField, b: PrefixField|
            a != b ==> (#[trigger] spec_prefix_field(a)).disjoint(#[trigger] spec_prefix_field(b)),
{
    assert forall|a: PrefixField| #[trigger] layout_ok(spec_prefix_field(a).mask, spec_prefix_field(a).shift) by {
        lemma_prefix_field(a, a);
    }
    assert forall|a: PrefixField, b: PrefixField|
        a != b implies (#[trigger] spec_prefix_field(a)).disjoint(#[trigger] spec_prefix_field(b)) by {
        lemma_prefix_field(a, b);
    }
}

/// Writing one field of the layout makes it read back the value written and
/// leaves every other field as it was.
pub proof fn lemma_prefix_write(units: Seq<u32>, id: PrefixField, offset: int, v: u32)
    requires
        0 <= offset,
        offset + 1 <= units.len(),
        fits(v, spec_prefix_field(id).mask, spec_prefix_field(id).shift),
    ensures
        field_value(with_field(units, spec_prefix_field(id), offset, v), spec_prefix_field(id), offset) == v,
        with_field(units, spec_prefix_field(id), offset, v).len() == units.len(),
        forall|g: PrefixField|
            g != id ==> #[trigger] field_value(
                with_field(units, spec_prefix_field(id), offset, v),
                spec_prefix_field(g),
                offset,
            ) == field_value(units, spec_prefix_field(g), offset),
{
    lemma_prefix_field(id, id);
    lemma_read_written(units, spec_prefix_field(id), offset, v);
    assert forall|g: PrefixField|
        g != id implies #[trigger] field_value(
            with_field(units, spec_prefix_field(id), offset, v),
            spec_prefix_field(g),
            offset,
        ) == field_value(units, spec_prefix_field(g), offset) by {
        lemma_prefix_field(id, g);
        lemma_write_keeps_other(units, spec_prefix_field(id), spec_prefix_field(g), offset, v);
    }
}

/// A value carried by the jitter-reduction prefix word.
#[derive(Debug, Clone, Copy, PartialEq, Eq, Structural)]
pub enum JitterReduction {
    Clock(u16),
    Timestamp(u16),
}

/// The prefix word that carries an optional jitter-reduction value; absence
/// is the no-op utility word.
pub open spec fn jitter_word(jr: Option<JitterReduction>) -> u32 {
    match jr {
        None => 0,
        Some(JitterReduction::Clock(v)) => 0x0010_0000u32 | (v as u32),
        Some(JitterReduction::Timestamp(v)) => 0x0020_0000u32 | (v as u32),
    }
}

/// A field of a prefix word.
pub open spec fn prefix_value(word: u32, id: PrefixField) -> u32 {
    field_value(seq![word], spec_prefix_field(id), 0)
}

/// The value that a prefix word carries: a clock or timestamp status gives
/// one, any other status none.
pub open spec fn jitter_decode(word: u32) -> Option<JitterReduction> {
    if prefix_value(word, PrefixField::Status) == 1 {
        Some(JitterReduction::Clock(prefix_value(word, PrefixField::Value) as u16))
    } else if prefix_value(word, PrefixField::Status) == 2 {
        Some(JitterReduction::Timestamp(prefix_value(word, PrefixField::Value) as u16))
    } else {
        None
    }
}

/// Number of prefix words: one when the first word is a utility word.
pub open spec fn prefix_len(words: Seq<u32>) -> int {
    if words.len() > 0 && prefix_value(words[0], PrefixField::UmpType) == UTILITY_TYPE {
        1
    } else {
        0
    }
}

/// The jitter-reduction value of a record: none without a prefix word.
pub open spec fn jitter_of(words: Seq<u32>) -> Option<JitterReduction> {
    if prefix_len(words) == 0 {
        None
    } else {
        jitter_decode(words[0])
    }
}

/// The value of a field, placed after the prefix word if there is one.
pub open spec fn chord_value(words: Seq<u32>, id: ChordField) -> u32 {
    field_value(words, spec_chord_field(id), prefix_len(words))
}

/// The values that a field may hold in a valid record.
pub open spec fn chord_value_ok(id: ChordField, v: u32) -> bool {
    match id {
        ChordField::UmpType => v == FLEX_DATA_TYPE,
        ChordField::Format => v == COMPLETE_FORMAT,
        ChordField::Bank => v == SETUP_AND_PERFORMANCE_BANK,
        ChordField::Status => v == CHORD_NAME_STATUS,
        ChordField::TonicSharpsFlats => SharpsFlats::is_code(v as u8),
        ChordField::Tonic => (v as u8) <= 0x7,
        ChordField::ChordType => (v as u8) <= 0x1A,
        ChordField::ChordAlteration1 => (v as u8) / 16 <= 4,
        ChordField::ChordAlteration2 => (v as u8) / 16 <= 4,
        ChordField::ChordAlteration3 => (v as u8) / 16 <= 4,
        ChordField::ChordAlteration4 => (v as u8) / 16 <= 4,
        ChordField::BassSharpsFlats => SharpsFlats::is_code(v as u8),
        ChordField::BassNote => (v as u8) <= 0x7,
        ChordField::BassChordType => (v as u8) <= 0x1A,
        ChordField::BassAlteration1 => (v as u8) / 16 <= 4,
        ChordField::BassAlteration2 => (v as u8) / 16 <= 4,
        _ => true,
    }
}

/// The error reported for a field holding a value it may not hold; the
/// fields that accept every value (group, addressing, channel) report none.
pub open spec fn chord_error(id: ChordField) -> Error {
    match id {
        ChordField::UmpType => Error::InvalidDiscriminant(Discriminant::PacketType),
        ChordField::Format => Error::InvalidDiscriminant(Discriminant::Format),
        ChordField::Bank => Error::InvalidDiscriminant(Discriminant::Bank),
        ChordField::Status => Error::InvalidDiscriminant(Discriminant::Status),
        ChordField::TonicSharpsFlats => Error::InvalidFieldValue(FieldKind::SharpsFlats),
        ChordField::Tonic => Error::InvalidFieldValue(FieldKind::Tonic),
        ChordField::ChordType => Error::InvalidFieldValue(FieldKind::ChordType),
        ChordField::ChordAlteration1 => Error::InvalidFieldValue(FieldKind::Alteration),
        ChordField::ChordAlteration2 => Error::InvalidFieldValue(FieldKind::Alteration),
        ChordField::ChordAlteration3 => Error::InvalidFieldValue(FieldKind::Alteration),
        ChordField::ChordAlteration4 => Error::InvalidFieldValue(FieldKind::Alteration),
        ChordField::BassSharpsFlats => Error::InvalidFieldValue(FieldKind::SharpsFlats),
        ChordField::BassNote => Error::InvalidFieldValue(FieldKind::Tonic),
        ChordField::BassChordType => Error::InvalidFieldValue(FieldKind::ChordType),
        ChordField::BassAlteration1 => Error::InvalidFieldValue(FieldKind::Alteration),
        ChordField::BassAlteration2 => Error::InvalidFieldValue(FieldKind::Alteration),
        _ => Error::BufferTooShort,
    }
}

/// The outcome of validating `words` as a chord-name record: the size first,
/// then the prefix status, the discriminants (packet type, format, bank,
/// status) and the variable fields, in the order of the record.
pub open spec fn chord_check(words: Seq<u32>) -> Result<(), Error> {
    if words.len() < prefix_len(words) + CHORD_NAME_WORDS {
        Err(Error::BufferTooShort)
    } else if prefix_len(words) == 1 && prefix_value(words[0], PrefixField::Status) > 2 {
        Err(Error::InvalidFieldValue(FieldKind::JitterReduction))
    } else if !chord_value_ok(ChordField::UmpType, chord_value(words, ChordField::UmpType)) {
        Err(chord_error(ChordField::UmpType))
    } else if !chord_value_ok(ChordField::Format, chord_value(words, ChordField::Format)) {
        Err(chord_error(ChordField::Format))
    } else if !chord_value_ok(ChordField::Bank, chord_value(words, ChordField::Bank)) {
        Err(chord_error(ChordField::Bank))
    } else if !chord_value_ok(ChordField::Status, chord_value(words, ChordField::Status)) {
        Err(chord_error(ChordField::Status))
    } else if !chord_value_ok(ChordField::TonicSharpsFlats, chord_value(words, ChordField::TonicSharpsFlats)) {
        Err(chord_error(ChordField::TonicSharpsFlats))
    } else if !chord_value_ok(ChordField::Tonic, chord_value(words, ChordField::Tonic)) {
        Err(chord_error(ChordField::Tonic))
    } else if !chord_value_ok(ChordField::ChordType, chord_value(words, ChordField::ChordType)) {
        Err(chord_error(ChordField::ChordType))
    } else if !chord_value_ok(ChordField::ChordAlteration1, chord_value(words, ChordField::ChordAlteration1)) {
        Err(chord_error(ChordField::ChordAlteration1))
    } else if !chord_value_ok(ChordField::ChordAlteration2, chord_value(words, ChordField::ChordAlteration2)) {
        Err(chord_error(ChordField::ChordAlteration2))
    } else if !chord_value_ok(ChordField::ChordAlteration3, chord_value(words, ChordField::ChordAlteration3)) {
        Err(chord_error(ChordField::ChordAlteration3))
    } else if !chord_value_ok(ChordField::ChordAlteration4, chord_value(words, ChordField::ChordAlteration4)) {
        Err(chord_error(ChordField::ChordAlteration4))
    } else if !chord_value_ok(ChordField::BassSharpsFlats, chord_value(words, ChordField::BassSharpsFlats)) {
        Err(chord_error(ChordField::BassSharpsFlats))
    } else if !chord_value_ok(ChordField::BassNote, chord_value(words, ChordField::BassNote)) {
        Err(chord_error(ChordField::BassNote))
    } else if !chord_value_ok(ChordField::BassChordType, chord_value(words, ChordField::BassChordType)) {
        Err(chord_error(ChordField::BassChordType))
    } else if !chord_value_ok(ChordField::BassAlteration1, chord_value(words, ChordField::BassAlteration1)) {
        Err(chord_error(ChordField::BassAlteration1))
    } else if !chord_value_ok(ChordField::BassAlteration2, chord_value(words, ChordField::BassAlteration2)) {
        Err(chord_error(ChordField::BassAlteration2))
    } else {
        Ok(())
    }
}

/// The largest value of each field.
pub open spec fn chord_max(id: ChordField) -> u32 {
    match id {
        ChordField::Format | ChordField::Address => 0x3,
        ChordField::UmpType | ChordField::Group | ChordField::Channel | ChordField::TonicSharpsFlats
        | ChordField::Tonic | ChordField::BassSharpsFlats | ChordField::BassNote => 0xF,
        _ => 0xFF,
    }
}

/// The words of a fresh record: a no-op prefix word, then zeroes with the
/// discriminants written.
pub open spec fn chord_blank() -> Seq<u32> {
    with_field(
        with_field(blank(5), spec_chord_field(ChordField::UmpType), 1, FLEX_DATA_TYPE),
        spec_chord_field(ChordField::Status),
        1,
        CHORD_NAME_STATUS,
    )
}

/// The bits of the prefix words that this record writes.
proof fn lemma_jitter_words(v: u32)
    by (bit_vector)
    requires
        v <= 0xFFFF,
    ensures
        ((0x0010_0000u32 | v) & 0xF000_0000u32) >> 28u32 == 0,
        ((0x0010_0000u32 | v) & 0x00F0_0000u32) >> 20u32 == 1,
        ((0x0010_0000u32 | v) & 0x0000_FFFFu32) >> 0u32 == v,
        ((0x0020_0000u32 | v) & 0xF000_0000u32) >> 28u32 == 0,
        ((0x0020_0000u32 | v) & 0x00F0_0000u32) >> 20u32 == 2,
        ((0x0020_0000u32 | v) & 0x0000_FFFFu32) >> 0u32 == v,
        (0u32 & 0xF000_0000u32) >> 28u32 == 0,
        (0u32 & 0x00F0_0000u32) >> 20u32 == 0,
        (0u32 & 0x0000_FFFFu32) >> 0u32 == 0,
{
}

/// Every prefix word that this record writes is a utility word and decodes
/// to the value written.
proof fn lemma_jitter_word(jr: Option<JitterReduction>)
    ensures
        prefix_value(jitter_word(jr), PrefixField::UmpType) == UTILITY_TYPE,
        prefix_value(jitter_word(jr), PrefixField::Status) <= 2,
        jitter_decode(jitter_word(jr)) == jr,
{
    match jr {
        None => lemma_jitter_words(0),
        Some(JitterReduction::Clock(v)) => lemma_jitter_words(v as u32),
        Some(JitterReduction::Timestamp(v)) => lemma_jitter_words(v as u32),
    }
}

/// Number of prefix words of `words`.
fn prefix_of(words: &[u32]) -> (r: usize)
    ensures
        r == prefix_len(words@),
{
    if words.len() > 0 && read_word_field(words, prefix_field(PrefixField::UmpType), 0)
        == UTILITY_TYPE {
        assert(words@[0] == seq![words@[0]][0]);
        1
    } else {
        0
    }
}

/// Validates `words` as a chord-name record.
fn check_chord_name(words: &[u32]) -> (r: Result<(), Error>)
    ensures
        r == chord_check(words@),
{
    let off = prefix_of(words);
    if words.len() < off + CHORD_NAME_WORDS {
        return Err(Error::BufferTooShort);
    }
    if off == 1 && read_word_field(words, prefix_field(PrefixField::Status), 0) > 2 {
        assert(words@[0] == seq![words@[0]][0]);
        return Err(Error::InvalidFieldValue(FieldKind::JitterReduction));
    }
    assert(off == 1 ==> words@[0] == seq![words@[0]][0]);
    if read_word_field(words, chord_field(ChordField::UmpType), off) != FLEX_DATA_TYPE {
        return Err(Error::InvalidDiscriminant(Discriminant::PacketType));
    }
    if read_word_field(words, chord_field(ChordField::Format), off) != COMPLETE_FORMAT {
        return Err(Error::InvalidDiscriminant(Discriminant::Format));
    }
    if read_word_field(words, chord_field(ChordField::Bank), off) != SETUP_AND_PERFORMANCE_BANK {
        return Err(Error::InvalidDiscriminant(Discriminant::Bank));
    }
    if read_word_field(words, chord_field(ChordField::Status), off) != CHORD_NAME_STATUS {
        return Err(Error::InvalidDiscriminant(Discriminant::Status));
    }
    if let Err(e) = SharpsFlats::from_nibble(read_word_field(words, chord_field(ChordField::TonicSharpsFlats), off) as u8) {
        return Err(e);
    }
    if let Err(e) = Tonic::from_nibble(read_word_field(words, chord_field(ChordField::Tonic), off) as u8) {
        return Err(e);
    }
    if let Err(e) = ChordType::from_octet(read_word_field(words, chord_field(ChordField::ChordType), off) as u8) {
        return Err(e);
    }
    if let Err(e) = alteration_from_octet(read_word_field(words, chord_field(ChordField::ChordAlteration1), off) as u8) {
        return Err(e);
    }
    if let Err(e) = alteration_from_octet(read_word_field(words, chord_field(ChordField::ChordAlteration2), off) as u8) {
        return Err(e);
    }
    if let Err(e) = alteration_from_octet(read_word_field(words, chord_field(ChordField::ChordAlteration3), off) as u8) {
        return Err(e);
    }
    if let Err(e) = alteration_from_octet(read_word_field(words, chord_field(ChordField::ChordAlteration4), off) as u8) {
        return Err(e);
    }
    if let Err(e) = SharpsFlats::from_nibble(read_word_field(words, chord_field(ChordField::BassSharpsFlats), off) as u8) {
        return Err(e);
    }
    if let Err(e) = Tonic::from_nibble(read_word_field(words, chord_field(ChordField::BassNote), off) as u8) {
        return Err(e);
    }
    if let Err(e) = ChordType::from_octet(read_word_field(words, chord_field(ChordField::BassChordType), off) as u8) {
        return Err(e);
    }
    if let Err(e) = alteration_from_octet(read_word_field(words, chord_field(ChordField::BassAlteration1), off) as u8) {
        return Err(e);
    }
    if let Err(e) = alteration_from_octet(read_word_field(words, chord_field(ChordField::BassAlteration2), off) as u8) {
        return Err(e);
    }
    Ok(())
}

/// `words` with field `id`, placed after the prefix word if there is one,
/// replaced by `v`.
pub open spec fn chord_with(words: Seq<u32>, id: ChordField, v: u32) -> Seq<u32> {
    with_field(words, spec_chord_field(id), prefix_len(words), v)
}

/// A field whose value the record carries, as opposed to a fixed discriminant.
pub open spec fn is_variable(id: ChordField) -> bool {
    id != ChordField::UmpType && id != ChordField::Format && id != ChordField::Bank && id
        != ChordField::Status
}

/// The width in bits of each discriminant field.
pub open spec fn discriminant_width(id: ChordField) -> u32 {
    match id {
        ChordField::UmpType => 4,
        ChordField::Format => 2,
        _ => 8,
    }
}

/// Writing a field of a valid record keeps it valid, the prefix unchanged,
/// and every other field as it was.
proof fn lemma_chord_write_valid(words: Seq<u32>, id: ChordField, v: u32)
    requires
        chord_check(words) is Ok,
        is_variable(id),
        chord_value_ok(id, v),
        v <= chord_max(id),
    ensures
        chord_check(chord_with(words, id, v)) is Ok,
        prefix_len(chord_with(words, id, v)) == prefix_len(words),
        jitter_of(chord_with(words, id, v)) == jitter_of(words),
        chord_value(chord_with(words, id, v), id) == v,
        forall|g: ChordField|
            g != id ==> #[trigger] chord_value(chord_with(words, id, v), g) == chord_value(words, g),
{
    let off = prefix_len(words);
    let nw = chord_with(words, id, v);
    lemma_chord_masks();
    lemma_chord_field(id, id);
    lemma_fits_low(v, chord_max(id));
    lemma_chord_write(words, id, off, v);
    assert(chord_value(words, ChordField::UmpType) == FLEX_DATA_TYPE);
    if off == 0 {
        assert(field_value(nw, spec_chord_field(ChordField::UmpType), 0) == field_value(
            words,
            spec_chord_field(ChordField::UmpType),
            0,
        ));
        assert(seq![nw[0]][0] == nw[0]);
        assert(seq![words[0]][0] == words[0]);
    }
    assert(prefix_len(nw) == prefix_len(words));
    assert forall|g: ChordField| g != id implies #[trigger] chord_value(nw, g) == chord_value(
        words,
        g,
    ) by {}
}

/// Round trip: writing any allowed value into a variable field of a valid
/// record gives a valid record from which the field decodes to that value.
pub proof fn lemma_chord_round_trip(words: Seq<u32>, id: ChordField, v: u32)
    requires
        chord_check(words) is Ok,
        is_variable(id),
        chord_value_ok(id, v),
        v <= chord_max(id),
    ensures
        chord_check(chord_with(words, id, v)) is Ok,
        chord_value(chord_with(words, id, v), id) == v,
{
    lemma_chord_write_valid(words, id, v);
}

/// Non-overlap: writing one field of a valid record changes no other
/// field's value, nor the prefix value.
pub proof fn lemma_chord_non_overlap(words: Seq<u32>, id: ChordField, v: u32, other: ChordField)
    requires
        chord_check(words) is Ok,
        is_variable(id),
        chord_value_ok(id, v),
        v <= chord_max(id),
        other != id,
    ensures
        chord_value(chord_with(words, id, v), other) == chord_value(words, other),
        jitter_of(chord_with(words, id, v)) == jitter_of(words),
{
    lemma_chord_write_valid(words, id, v);
}

/// Discriminant rejection: flipping any bit of a discriminant field of a
/// valid record makes validation fail with that discriminant's error.
pub proof fn lemma_chord_discriminant_flip(words: Seq<u32>, id: ChordField, bit: u32)
    requires
        chord_check(words) is Ok,
        !is_variable(id),
        bit < discriminant_width(id),
    ensures
        chord_check(chord_with(words, id, chord_value(words, id) ^ (1u32 << bit))) == Err::<(), Error>(
            chord_error(id),
        ),
        chord_error(id) is InvalidDiscriminant,
{
    let off = prefix_len(words);
    let x = chord_value(words, id);
    lemma_chord_masks();
    lemma_chord_field(id, id);
    lemma_get_bounded(words[off + spec_chord_field(id).index], spec_chord_field(id).mask, spec_chord_field(id).shift);
    lemma_flip_bit(x, chord_max(id), bit);
    let v = x ^ (1u32 << bit);
    let nw = chord_with(words, id, v);
    lemma_fits_low(v, chord_max(id));
    lemma_chord_write(words, id, off, v);
    if off == 0 {
        assert(seq![nw[0]][0] == nw[0]);
        assert(seq![words[0]][0] == words[0]);
        if id == ChordField::UmpType {
            assert(0xDu32 ^ (1u32 << bit) != 0) by (bit_vector)
                requires
                    bit < 4,
            ;
        } else {
            assert(field_value(nw, spec_chord_field(ChordField::UmpType), 0) == field_value(
                words,
                spec_chord_field(ChordField::UmpType),
                0,
            ));
        }
    }
    assert(prefix_len(nw) == prefix_len(words));
}

/// Optional channel: addressing to a channel reads back that channel, and
/// addressing to the whole group reads back no channel.
pub proof fn lemma_optional_channel(words: Seq<u32>, c: u32)
    requires
        chord_check(words) is Ok,
        c <= 0xF,
    ensures
        chord_value(chord_with(chord_with(words, ChordField::Address, 0), ChordField::Channel, c), ChordField::Address) == 0,
        chord_value(chord_with(chord_with(words, ChordField::Address, 0), ChordField::Channel, c), ChordField::Channel) == c,
        chord_value(chord_with(words, ChordField::Address, 1), ChordField::Address) != 0,
{
    lemma_chord_write_valid(words, ChordField::Address, 0);
    lemma_chord_write_valid(chord_with(words, ChordField::Address, 0), ChordField::Channel, c);
    lemma_chord_write_valid(words, ChordField::Address, 1);
}

/// Prefix detection: a valid record without a prefix word decodes with no
/// jitter-reduction value; with a utility word put in front it decodes with
/// that word's value, and every field is the same.
pub proof fn lemma_prefix_detection(words: Seq<u32>, prefix: u32)
    requires
        chord_check(words) is Ok,
        prefix_len(words) == 0,
        prefix_value(prefix, PrefixField::UmpType) == UTILITY_TYPE,
        prefix_value(prefix, PrefixField::Status) <= 2,
    ensures
        jitter_of(words) is None,
        chord_check(seq![prefix] + words) is Ok,
        jitter_of(seq![prefix] + words) == jitter_decode(prefix),
        forall|id: ChordField| #[trigger] chord_value(seq![prefix] + words, id) == chord_value(words, id),
{
    let nw = seq![prefix] + words;
    assert(nw[0] == prefix);
    assert(prefix_len(nw) == 1);
    assert forall|id: ChordField| #[trigger] chord_value(nw, id) == chord_value(words, id) by {
        lemma_chord_field(id, id);
        assert(nw[1 + spec_chord_field(id).index] == words[spec_chord_field(id).index as int]);
    }
}

/// A chord-name record of the flex-data family, in its own words.
pub struct SetChordName {
    words: Vec<u32>,
}

impl View for SetChordName {
    type V = Seq<u32>;

    closed spec fn view(&self) -> Seq<u32> {
        self.words@
    }
}

impl SetChordName {
    /// The words hold a valid chord-name record.
    pub open spec fn wf(&self) -> bool {
        chord_check(self@) is Ok
    }

    /// A fresh record: a no-op prefix word, the discriminants, and every
    /// other field zero.
    pub fn new() -> (r: Self)
        ensures
            r.wf(),
            r@ == chord_blank(),
    {
        let mut words: Vec<u32> = Vec::new();
        let mut i: usize = 0;
        while i < 5
            invariant
                i <= 5,
                words@ == blank(i as nat),
            decreases 5 - i,
        {
            words.push(0);
            i = i + 1;
            assert(words@ =~= blank(i as nat));
        }
        let ghost zero = words@;
        proof {
            lemma_chord_masks();
            lemma_fits_low(FLEX_DATA_TYPE, 0xF);
            lemma_fits_low(CHORD_NAME_STATUS, 0xFF);
            lemma_chord_write(zero, ChordField::UmpType, 1, FLEX_DATA_TYPE);
        }
        write_word_field(&mut words, chord_field(ChordField::UmpType), 1, FLEX_DATA_TYPE);
        let ghost typed = words@;
        proof {
            lemma_chord_write(typed, ChordField::Status, 1, CHORD_NAME_STATUS);
        }
        write_word_field(&mut words, chord_field(ChordField::Status), 1, CHORD_NAME_STATUS);
        proof {
            lemma_get_zero_all();
            assert(words@[0] == 0);
            assert(prefix_value(words@[0], PrefixField::UmpType) == 0);
            assert(prefix_len(words@) == 1);
            assert forall|g: ChordField|
                g != ChordField::UmpType && g != ChordField::Status implies #[trigger] chord_value(words@, g) == 0 by {
                lemma_chord_field(g, g);
            }
        }
        SetChordName { words }
    }

    /// Binds to a copy of `data` after validating it as a chord-name record.
    pub fn from_data(data: &[u32]) -> (r: Result<Self, Error>)
        ensures
            chord_check(data@) is Ok ==> (r matches Ok(m) && m@ == data@ && m.wf()),
            chord_check(data@) matches Err(e) ==> (r matches Err(x) && x == e),
    {
        match check_chord_name(data) {
            Ok(()) => Ok(SetChordName { words: slice_to_vec(data) }),
            Err(e) => Err(e),
        }
    }

    /// The record's words, the prefix word included.
    pub fn data(&self) -> (r: &[u32])
        ensures
            r@ == self@,
    {
        self.words.as_slice()
    }

    fn read(&self, id: ChordField) -> (r: u32)
        requires
            self.wf(),
        ensures
            r == chord_value(self@, id),
            r <= chord_max(id),
    {
        let off = prefix_of(self.words.as_slice());
        let f = chord_field(id);
        proof {
            lemma_chord_masks();
            lemma_chord_field(id, id);
            lemma_get_bounded(self@[off + f.index], f.mask, f.shift);
        }
        read_word_field(self.words.as_slice(), f, off)
    }

    /// Writes a variable field; the record stays valid.
    fn write(&mut self, id: ChordField, v: u32)
        requires
            old(self).wf(),
            id != ChordField::UmpType,
            id != ChordField::Format,
            id != ChordField::Bank,
            id != ChordField::Status,
            chord_value_ok(id, v),
            v <= chord_max(id),
        ensures
            final(self).wf(),
            final(self)@ == chord_with(old(self)@, id, v),
            prefix_len(final(self)@) == prefix_len(old(self)@),
            chord_value(final(self)@, id) == v,
            jitter_of(final(self)@) == jitter_of(old(self)@),
            forall|g: ChordField|
                g != id ==> #[trigger] chord_value(final(self)@, g) == chord_value(old(self)@, g),
    {
        let off = prefix_of(self.words.as_slice());
        let ghost w = self@;
        proof {
            lemma_chord_masks();
            lemma_chord_field(id, id);
            lemma_fits_low(v, chord_max(id));
            lemma_chord_write(w, id, off as int, v);
        }
        write_word_field(&mut self.words, chord_field(id), off, v);
        proof {
            let nw = self@;
            assert(chord_value(w, ChordField::UmpType) == FLEX_DATA_TYPE);
            assert(nw[0] == w[0] || off == 0);
            if off == 0 {
                assert(field_value(nw, spec_chord_field(ChordField::UmpType), 0) == field_value(
                    w,
                    spec_chord_field(ChordField::UmpType),
                    0,
                ));
                assert(seq![nw[0]][0] == nw[0]);
                assert(seq![w[0]][0] == w[0]);
            }
            assert(prefix_len(nw) == prefix_len(w));
            lemma_chord_write_valid(w, id, v);
        }
    }

    pub fn group(&self) -> (r: u8)
        requires
            self.wf(),
        ensures
            r as u32 == chord_value(self@, ChordField::Group),
            r <= 0xF,
    {
        self.read(ChordField::Group) as u8
    }

    pub fn set_group(&mut self, v: u8)
        requires
            old(self).wf(),
            v <= 0xF,
        ensures
            final(self).wf(),
            final(self)@ == chord_with(old(self)@, ChordField::Group, v as u32),
            chord_value(final(self)@, ChordField::Group) == v as u32,
            forall|g: ChordField|
                g != ChordField::Group ==> #[trigger] chord_value(final(self)@, g) == chord_value(
                    old(self)@,
                    g,
                ),
            jitter_of(final(self)@) == jitter_of(old(self)@),
    {
        self.write(ChordField::Group, v as u32);
    }

    /// The channel when the record is addressed to one channel, none when it
    /// is addressed to the whole group.
    pub fn optional_channel(&self) -> (r: Option<u8>)
        requires
            self.wf(),
        ensures
            r == (if chord_value(self@, ChordField::Address) == 0 {
                Some(chord_value(self@, ChordField::Channel) as u8)
            } else {
                None
            }),
            r matches Some(c) ==> c <= 0xF,
    {
        if self.read(ChordField::Address) == 0 {
            Some(self.read(ChordField::Channel) as u8)
        } else {
            None
        }
    }

    /// Addresses the record to one channel, or with none to the whole group.
    pub fn set_optional_channel(&mut self, v: Option<u8>)
        requires
            old(self).wf(),
            v matches Some(c) ==> c <= 0xF,
        ensures
            final(self).wf(),
            final(self)@ == match v {
                Some(c) => chord_with(
                    chord_with(old(self)@, ChordField::Address, 0),
                    ChordField::Channel,
                    c as u32,
                ),
                None => chord_with(old(self)@, ChordField::Address, 1),
            },
            chord_value(final(self)@, ChordField::Address) == (if v is Some {
                0u32
            } else {
                1u32
            }),
            v matches Some(c) ==> chord_value(final(self)@, ChordField::Channel) == c as u32,
            forall|g: ChordField|
                g != ChordField::Address && g != ChordField::Channel ==> #[trigger] chord_value(
                    final(self)@,
                    g,
                ) == chord_value(old(self)@, g),
            jitter_of(final(self)@) == jitter_of(old(self)@),
    {
        match v {
            Some(c) => {
                self.write(ChordField::Address, 0);
                self.write(ChordField::Channel, c as u32);
            },
            None => {
                self.write(ChordField::Address, 1);
            },
        }
    }

    pub fn tonic_sharps_flats(&self) -> (r: SharpsFlats)
        requires
            self.wf(),
        ensures
            r.code() == chord_value(self@, ChordField::TonicSharpsFlats) as u8,
    {
        SharpsFlats::from_nibble(self.read(ChordField::TonicSharpsFlats) as u8).unwrap()
    }

    pub fn tonic(&self) -> (r: Tonic)
        requires
            self.wf(),
        ensures
            r.code() == chord_value(self@, ChordField::Tonic) as u8,
    {
        Tonic::from_nibble(self.read(ChordField::Tonic) as u8).unwrap()
    }

    pub fn chord_type(&self) -> (r: ChordType)
        requires
            self.wf(),
        ensures
            r.code() == chord_value(self@, ChordField::ChordType) as u8,
    {
        ChordType::from_octet(self.read(ChordField::ChordType) as u8).unwrap()
    }

    pub fn chord_alteration1(&self) -> (r: Option<Alteration>)
        requires
            self.wf(),
        ensures
            alteration_decodes(r, chord_value(self@, ChordField::ChordAlteration1) as u8),
    {
        alteration_from_octet(self.read(ChordField::ChordAlteration1) as u8).unwrap()
    }

    pub fn chord_alteration2(&self) -> (r: Option<Alteration>)
        requires
            self.wf(),
        ensures
            alteration_decodes(r, chord_value(self@, ChordField::ChordAlteration2) as u8),
    {
        alteration_from_octet(self.read(ChordField::ChordAlteration2) as u8).unwrap()
    }

    pub fn chord_alteration3(&self) -> (r: Option<Alteration>)
        requires
            self.wf(),
        ensures
            alteration_decodes(r, chord_value(self@, ChordField::ChordAlteration3) as u8),
    {
        alteration_from_octet(self.read(ChordField::ChordAlteration3) as u8).unwrap()
    }

    pub fn chord_alteration4(&self) -> (r: Option<Alteration>)
        requires
            self.wf(),
        ensures
            alteration_decodes(r, chord_value(self@, ChordField::ChordAlteration4) as u8),
    {
        alteration_from_octet(self.read(ChordField::ChordAlteration4) as u8).unwrap()
    }

    pub fn bass_sharps_flats(&self) -> (r: SharpsFlats)
        requires
            self.wf(),
        ensures
            r.code() == chord_value(self@, ChordField::BassSharpsFlats) as u8,
    {
        SharpsFlats::from_nibble(self.read(ChordField::BassSharpsFlats) as u8).unwrap()
    }

    pub fn bass_note(&self) -> (r: Tonic)
        requires
            self.wf(),
        ensures
            r.code() == chord_value(self@, ChordField::BassNote) as u8,
    {
        Tonic::from_nibble(self.read(ChordField::BassNote) as u8).unwrap()
    }

    pub fn bass_chord_type(&self) -> (r: ChordType)
        requires
            self.wf(),
        ensures
            r.code() == chord_value(self@, ChordField::BassChordType) as u8,
    {
        ChordType::from_octet(self.read(ChordField::BassChordType) as u8).unwrap()
    }

    pub fn bass_alteration1(&self) -> (r: Option<Alteration>)
        requires
            self.wf(),
        ensures
            alteration_decodes(r, chord_value(self@, ChordField::BassAlteration1) as u8),
    {
        alteration_from_octet(self.read(ChordField::BassAlteration1) as u8).unwrap()
    }

    pub fn bass_alteration2(&self) -> (r: Option<Alteration>)
        requires
            self.wf(),
        ensures
            alteration_decodes(r, chord_value(self@, ChordField::BassAlteration2) as u8),
    {
        alteration_from_octet(self.read(ChordField::BassAlteration2) as u8).unwrap()
    }

    pub fn set_tonic_sharps_flats(&mut self, v: SharpsFlats)
        requires
            old(self).wf(),
        ensures
            final(self).wf(),
            final(self)@ == chord_with(old(self)@, ChordField::TonicSharpsFlats, v.code() as u32),
            chord_value(final(self)@, ChordField::TonicSharpsFlats) == v.code() as u32,
            forall|g: ChordField|
                g != ChordField::TonicSharpsFlats ==> #[trigger] chord_value(final(self)@, g) == chord_value(
                    old(self)@,
                    g,
                ),
            jitter_of(final(self)@) == jitter_of(old(self)@),
    {
        self.write(ChordField::TonicSharpsFlats, v.into_nibble() as u32);
    }

    pub fn set_tonic(&mut self, v: Tonic)
        requires
            old(self).wf(),
        ensures
            final(self).wf(),
            final(self)@ == chord_with(old(self)@, ChordField::Tonic, v.code() as u32),
            chord_value(final(self)@, ChordField::Tonic) == v.code() as u32,
            forall|g: ChordField|
                g != ChordField::Tonic ==> #[trigger] chord_value(final(self)@, g) == chord_value(
                    old(self)@,
                    g,
                ),
            jitter_of(final(self)@) == jitter_of(old(self)@),
    {
        self.write(ChordField::Tonic, v.into_nibble() as u32);
    }

    pub fn set_chord_type(&mut self, v: ChordType)
        requires
            old(self).wf(),
        ensures
            final(self).wf(),
            final(self)@ == chord_with(old(self)@, ChordField::ChordType, v.code() as u32),
            chord_value(final(self)@, ChordField::ChordType) == v.code() as u32,
            forall|g: ChordField|
                g != ChordField::ChordType ==> #[trigger] chord_value(final(self)@, g) == chord_value(
                    old(self)@,
                    g,
                ),
            jitter_of(final(self)@) == jitter_of(old(self)@),
    {
        self.write(ChordField::ChordType, v.into_octet() as u32);
    }

    pub fn set_chord_alteration1(&mut self, v: Option<Alteration>)
        requires
            old(self).wf(),
            alteration_wf(v),
        ensures
            final(self).wf(),
            final(self)@ == chord_with(old(self)@, ChordField::ChordAlteration1, alteration_code(v) as u32),
            chord_value(final(self)@, ChordField::ChordAlteration1) == alteration_code(v) as u32,
            forall|g: ChordField|
                g != ChordField::ChordAlteration1 ==> #[trigger] chord_value(final(self)@, g) == chord_value(
                    old(self)@,
                    g,
                ),
            jitter_of(final(self)@) == jitter_of(old(self)@),
    {
        self.write(ChordField::ChordAlteration1, alteration_into_octet(v) as u32);
    }

    pub fn set_chord_alteration2(&mut self, v: Option<Alteration>)
        requires
            old(self).wf(),
            alteration_wf(v),
        ensures
            final(self).wf(),
            final(self)@ == chord_with(old(self)@, ChordField::ChordAlteration2, alteration_code(v) as u32),
            chord_value(final(self)@, ChordField::ChordAlteration2) == alteration_code(v) as u32,
            forall|g: ChordField|
                g != ChordField::ChordAlteration2 ==> #[trigger] chord_value(final(self)@, g) == chord_value(
                    old(self)@,
                    g,
                ),
            jitter_of(final(self)@) == jitter_of(old(self)@),
    {
        self.write(ChordField::ChordAlteration2, alteration_into_octet(v) as u32);
    }

    pub fn set_chord_alteration3(&mut self, v: Option<Alteration>)
        requires
            old(self).wf(),
            alteration_wf(v),
        ensures
            final(self).wf(),
            final(self)@ == chord_with(old(self)@, ChordField::ChordAlteration3, alteration_code(v) as u32),
            chord_value(final(self)@, ChordField::ChordAlteration3) == alteration_code(v) as u32,
            forall|g: ChordField|
                g != ChordField::ChordAlteration3 ==> #[trigger] chord_value(final(self)@, g) == chord_value(
                    old(self)@,
                    g,
                ),
            jitter_of(final(self)@) == jitter_of(old(self)@),
    {
        self.write(ChordField::ChordAlteration3, alteration_into_octet(v) as u32);
    }

    pub fn set_chord_alteration4(&mut self, v: Option<Alteration>)
        requires
            old(self).wf(),
            alteration_wf(v),
        ensures
            final(self).wf(),
            final(self)@ == chord_with(old(self)@, ChordField::ChordAlteration4, alteration_code(v) as u32),
            chord_value(final(self)@, ChordField::ChordAlteration4) == alteration_code(v) as u32,
            forall|g: ChordField|
                g != ChordField::ChordAlteration4 ==> #[trigger] chord_value(final(self)@, g) == chord_value(
                    old(self)@,
                    g,
                ),
            jitter_of(final(self)@) == jitter_of(old(self)@),
    {
        self.write(ChordField::ChordAlteration4, alteration_into_octet(v) as u32);
    }

    pub fn set_bass_sharps_flats(&mut self, v: SharpsFlats)
        requires
            old(self).wf(),
        ensures
            final(self).wf(),
            final(self)@ == chord_with(old(self)@, ChordField::BassSharpsFlats, v.code() as u32),
            chord_value(final(self)@, ChordField::BassSharpsFlats) == v.code() as u32,
            forall|g: ChordField|
                g != ChordField::BassSharpsFlats ==> #[trigger] chord_value(final(self)@, g) == chord_value(
                    old(self)@,
                    g,
                ),
            jitter_of(final(self)@) == jitter_of(old(self)@),
    {
        self.write(ChordField::BassSharpsFlats, v.into_nibble() as u32);
    }

    pub fn set_bass_note(&mut self, v: Tonic)
        requires
            old(self).wf(),
        ensures
            final(self).wf(),
            final(self)@ == chord_with(old(self)@, ChordField::BassNote, v.code() as u32),
            chord_value(final(self)@, ChordField::BassNote) == v.code() as u32,
            forall|g: ChordField|
                g != ChordField::BassNote ==> #[trigger] chord_value(final(self)@, g) == chord_value(
                    old(self)@,
                    g,
                ),
            jitter_of(final(self)@) == jitter_of(old(self)@),
    {
        self.write(ChordField::BassNote, v.into_nibble() as u32);
    }

    pub fn set_bass_chord_type(&mut self, v: ChordType)
        requires
            old(self).wf(),
        ensures
            final(self).wf(),
            final(self)@ == chord_with(old(self)@, ChordField::BassChordType, v.code() as u32),
            chord_value(final(self)@, ChordField::BassChordType) == v.code() as u32,
            forall|g: ChordField|
                g != ChordField::BassChordType ==> #[trigger] chord_value(final(self)@, g) == chord_value(
                    old(self)@,
                    g,
                ),
            jitter_of(final(self)@) == jitter_of(old(self)@),
    {
        self.write(ChordField::BassChordType, v.into_octet() as u32);
    }

    pub fn set_bass_alteration1(&mut self, v: Option<Alteration>)
        requires
            old(self).wf(),
            alteration_wf(v),
        ensures
            final(self).wf(),
            final(self)@ == chord_with(old(self)@, ChordField::BassAlteration1, alteration_code(v) as u32),
            chord_value(final(self)@, ChordField::BassAlteration1) == alteration_code(v) as u32,
            forall|g: ChordField|
                g != ChordField::BassAlteration1 ==> #[trigger] chord_value(final(self)@, g) == chord_value(
                    old(self)@,
                    g,
                ),
            jitter_of(final(self)@) == jitter_of(old(self)@),
    {
        self.write(ChordField::BassAlteration1, alteration_into_octet(v) as u32);
    }

    pub fn set_bass_alteration2(&mut self, v: Option<Alteration>)
        requires
            old(self).wf(),
            alteration_wf(v),
        ensures
            final(self).wf(),
            final(self)@ == chord_with(old(self)@, ChordField::BassAlteration2, alteration_code(v) as u32),
            chord_value(final(self)@, ChordField::BassAlteration2) == alteration_code(v) as u32,
            forall|g: ChordField|
                g != ChordField::BassAlteration2 ==> #[trigger] chord_value(final(self)@, g) == chord_value(
                    old(self)@,
                    g,
                ),
            jitter_of(final(self)@) == jitter_of(old(self)@),
    {
        self.write(ChordField::BassAlteration2, alteration_into_octet(v) as u32);
    }


    /// The jitter-reduction value of the prefix word; none without one.
    pub fn jitter_reduction(&self) -> (r: Option<JitterReduction>)
        requires
            self.wf(),
        ensures
            r == jitter_of(self@),
    {
        if prefix_of(self.words.as_slice()) == 0 {
            return None;
        }
        proof {
            assert(self@[0] == seq![self@[0]][0]);
        }
        let status = read_word_field(self.words.as_slice(), prefix_field(PrefixField::Status), 0);
        let value = read_word_field(self.words.as_slice(), prefix_field(PrefixField::Value), 0);
        if status == 1 {
            Some(JitterReduction::Clock(value as u16))
        } else if status == 2 {
            Some(JitterReduction::Timestamp(value as u16))
        } else {
            None
        }
    }

    /// Writes the jitter-reduction value. A record with a prefix word has it
    /// replaced; one without gets a new leading word when a value is given.
    pub fn set_jitter_reduction(&mut self, v: Option<JitterReduction>)
        requires
            old(self).wf(),
        ensures
            final(self).wf(),
            final(self)@ == (if prefix_len(old(self)@) == 1 {
                old(self)@.update(0, jitter_word(v))
            } else if v is Some {
                seq![jitter_word(v)] + old(self)@
            } else {
                old(self)@
            }),
            jitter_of(final(self)@) == v,
            forall|id: ChordField| #[trigger] chord_value(final(self)@, id) == chord_value(old(self)@, id),
    {
        let word: u32 = match v {
            None => 0,
            Some(JitterReduction::Clock(x)) => 0x0010_0000u32 | (x as u32),
            Some(JitterReduction::Timestamp(x)) => 0x0020_0000u32 | (x as u32),
        };
        let ghost w = self@;
        proof {
            lemma_jitter_word(v);
            assert(seq![word][0] == word);
        }
        if prefix_of(self.words.as_slice()) == 1 {
            self.words.set(0, word);
            proof {
                let nw = self@;
                assert(nw[0] == word);
                assert(prefix_len(nw) == 1);
                assert forall|id: ChordField| #[trigger] chord_value(nw, id) == chord_value(w, id) by {
                    lemma_chord_field(id, id);
                }
            }
        } else if v.is_some() {
            self.words.insert(0, word);
            proof {
                let nw = self@;
                assert(nw =~= seq![word] + w);
                assert(nw[0] == word);
                assert(prefix_len(nw) == 1);
                assert forall|id: ChordField| #[trigger] chord_value(nw, id) == chord_value(w, id) by {
                    lemma_chord_field(id, id);
                    assert(nw[1 + spec_chord_field(id).index] == w[spec_chord_field(id).index as int]);
                }
            }
        }
    }

}

} // verus!
