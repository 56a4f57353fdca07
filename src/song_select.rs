//! The song select message of the system common family, held as plain
//! values and converted to and from its word.
use vstd::prelude::*;
use crate::bits::{fits, layout_ok, lemma_fits_low, lemma_flip_bit, lemma_get_bounded};
use crate::error::{Discriminant, Error};
use crate::packet::{
    blank, field_value, lemma_read_written, lemma_write_keeps_other, read_word_field,
    with_field, write_word_field, Field,
};

verus! {

/// Packet type of system common messages.
pub const SYSTEM_COMMON_TYPE: u32 = 0x1;

/// Status of the song select message.
pub const SONG_SELECT_STATUS: u32 = 0xF3;

/// The fields of a song select message.
#[derive(Debug, Clone, Copy, PartialEq, Eq, Structural)]
pub enum SongSelectField {
    /// Packet type, always 0x1.
    UmpType,
    /// Group, 4 bits.
    Group,
    /// Status, always 0xF3.
    Status,
    /// Song number, 7 bits.
    Song,
}

pub open spec fn spec_song_select_field(id: SongSelectField) -> Field {
    match id {
        SongSelectField::UmpType => Field { index: 0, mask: 0xF0000000, shift: 28 },
        SongSelectField::Group => Field { index: 0, mask: 0x0F000000, shift: 24 },
        SongSelectField::Status => Field { index: 0, mask: 0x00FF0000, shift: 16 },
        SongSelectField::Song => Field { index: 0, mask: 0x00007F00, shift: 8 },
    }
}

/// Where each field lives, counted from the first unit of the message.
#[verifier::when_used_as_spec(spec_song_select_field)]
pub fn song_select_field(id: SongSelectField) -> (r: Field)
    ensures
        r == spec_song_select_field(id),
{
    match id {
        SongSelectField::UmpType => Field { index: 0, mask: 0xF0000000, shift: 28 },
        SongSelectField::Group => Field { index: 0, mask: 0x0F000000, shift: 24 },
        SongSelectField::Status => Field { index: 0, mask: 0x00FF0000, shift: 16 },
        SongSelectField::Song => Field { index: 0, mask: 0x00007F00, shift: 8 },
    }
}

/// The masks of the layout are well formed and pairwise disjoint.
proof fn lemma_song_select_masks()
    by (bit_vector)
    ensures
        0xF0000000u32 >> 28u32 == 0xFu32,
        (0xF0000000u32 >> 28u32) << 28u32 == 0xF0000000u32,
        0x0F000000u32 >> 24u32 == 0xFu32,
        (0x0F000000u32 >> 24u32) << 24u32 == 0x0F000000u32,
        0x00FF0000u32 >> 16u32 == 0xFFu32,
        (0x00FF0000u32 >> 16u32) << 16u32 == 0x00FF0000u32,
        0x00007F00u32 >> 8u32 == 0x7Fu32,
        (0x00007F00u32 >> 8u32) << 8u32 == 0x00007F00u32,
        0xF0000000u32 & 0x0F000000u32 == 0,
        0x0F000000u32 & 0xF0000000u32 == 0,
        0xF0000000u32 & 0x00FF0000u32 == 0,
        0x00FF0000u32 & 0xF0000000u32 == 0,
        0xF0000000u32 & 0x00007F00u32 == 0,
        0x00007F00u32 & 0xF0000000u32 == 0,
        0x0F000000u32 & 0x00FF0000u32 == 0,
        0x00FF0000u32 & 0x0F000000u32 == 0,
        0x0F000000u32 & 0x00007F00u32 == 0,
        0x00007F00u32 & 0x0F000000u32 == 0,
        0x00FF0000u32 & 0x00007F00u32 == 0,
        0x00007F00u32 & 0x00FF0000u32 == 0,
{
}

/// Every field of the layout is well formed, and two distinct fields share
/// no bit.
pub proof fn lemma_song_select_field(a: SongSelectField, b: SongSelectField)
    ensures
        layout_ok(spec_song_select_field(a).mask, spec_song_select_field(a).shift),
        a != b ==> spec_song_select_field(a).disjoint(spec_song_select_field(b)),
{
    lemma_song_select_masks();
}

/// The layout's fields are well formed and pairwise disjoint.
pub proof fn lemma_song_select_layout()
    ensures
        forall|a: SongSelectField| #[trigger] layout_ok(spec_song_select_field(a).mask, spec_song_select_field(a).shift),
        forall|a: SongSelectField, b: SongSelectField|
            a != b ==> (#[trigger] spec_song_select_field(a)).disjoint(#[trigger] spec_song_select_field(b)),
{
    assert forall|a: SongSelectField| #[trigger] layout_ok(spec_song_select_field(a).mask, spec_song_select_field(a).shift) by {
        lemma_song_select_field(a, a);
    }
    assert forall|a: SongSelectField, b: SongSelectField|
        a != b implies (#[trigger] spec_song_select_field(a)).disjoint(#[trigger] spec_song_select_field(b)) by {
        lemma_song_select_field(a, b);
    }
}

/// Writing one field of the layout makes it read back the value written and
/// leaves every other field as it was.
pub proof fn lemma_song_select_write(units: Seq<u32>, id: SongSelectField, offset: int, v: u32)
    requires
        0 <= offset,
        offset + 1 <= units.len(),
        fits(v, spec_song_select_field(id).mask, spec_song_select_field(id).shift),
    ensures
        field_value(with_field(units, spec_song_select_field(id), offset, v), spec_song_select_field(id), offset) == v,
        with_field(units, spec_song_select_field(id), offset, v).len() == units.len(),
        forall|g: SongSelectField|
            g != id ==> #[trigger] field_value(
                with_field(units, spec_song_select_field(id), offset, v),
                spec_song_select_field(g),
                offset,
            ) == field_value(units, spec_song_select_field(g), offset),
{
    lemma_song_select_field(id, id);
    lemma_read_written(units, spec_song_select_field(id), offset, v);
    assert forall|g: SongSelectField|
        g != id implies #[trigger] field_value(
            with_field(units, spec_song_select_field(id), offset, v),
            spec_song_select_field(g),
            offset,
        ) == field_value(units, spec_song_select_field(g), offset) by {
        lemma_song_select_field(id, g);
        lemma_write_keeps_other(units, spec_song_select_field(id), spec_song_select_field(g), offset, v);
    }
}

/// A song select message.
#[derive(Debug, Clone, Copy, PartialEq, Eq, Structural)]
pub struct Message {
    pub group: u8,
    pub song: u8,
}

/// The value of a field of `words`.
pub open spec fn song_select_value(words: Seq<u32>, id: SongSelectField) -> u32 {
    field_value(words, spec_song_select_field(id), 0)
}

/// The word of a message: packet type, group, status and song in place,
/// every other bit zero.
pub open spec fn song_select_encode(m: Message) -> Seq<u32> {
    with_field(
        with_field(
            with_field(
                with_field(blank(1), spec_song_select_field(SongSelectField::UmpType), 0, SYSTEM_COMMON_TYPE),
                spec_song_select_field(SongSelectField::Group),
                0,
                m.group as u32,
            ),
            spec_song_select_field(SongSelectField::Status),
            0,
            SONG_SELECT_STATUS,
        ),
        spec_song_select_field(SongSelectField::Song),
        0,
        m.song as u32,
    )
}

/// The outcome of decoding `words`: the packet type first, then the status.
pub open spec fn song_select_decode(words: Seq<u32>) -> Result<Message, Error> {
    if words.len() == 0 {
        Err(Error::BufferTooShort)
    } else if song_select_value(words, SongSelectField::UmpType) != SYSTEM_COMMON_TYPE {
        Err(Error::InvalidDiscriminant(Discriminant::PacketType))
    } else if song_select_value(words, SongSelectField::Status) != SONG_SELECT_STATUS {
        Err(Error::InvalidDiscriminant(Discriminant::Status))
    } else {
        Ok(
            Message {
                group: song_select_value(words, SongSelectField::Group) as u8,
                song: song_select_value(words, SongSelectField::Song) as u8,
            },
        )
    }
}

impl Message {
    /// The group fits in 4 bits and the song in 7.
    pub open spec fn wf(self) -> bool {
        self.group <= 0xF && self.song <= 0x7F
    }

    /// Decodes a message from its word.
    pub fn from_data(data: &[u32]) -> (r: Result<Message, Error>)
        ensures
            r == song_select_decode(data@),
            r matches Ok(m) ==> m.wf(),
    {
        if data.len() == 0 {
            return Err(Error::BufferTooShort);
        }
        proof {
            lemma_song_select_masks();
            lemma_get_bounded(data@[0], 0x0F00_0000, 24);
            lemma_get_bounded(data@[0], 0x0000_7F00, 8);
        }
        if read_word_field(data, song_select_field(SongSelectField::UmpType), 0) != SYSTEM_COMMON_TYPE {
            return Err(Error::InvalidDiscriminant(Discriminant::PacketType));
        }
        if read_word_field(data, song_select_field(SongSelectField::Status), 0) != SONG_SELECT_STATUS {
            return Err(Error::InvalidDiscriminant(Discriminant::Status));
        }
        Ok(
            Message {
                group: read_word_field(data, song_select_field(SongSelectField::Group), 0) as u8,
                song: read_word_field(data, song_select_field(SongSelectField::Song), 0) as u8,
            },
        )
    }

    /// The message's word.
    pub fn to_data(&self) -> (r: Vec<u32>)
        requires
            self.wf(),
        ensures
            r@ == song_select_encode(*self),
    {
        let mut words: Vec<u32> = Vec::new();
        words.push(0);
        assert(words@ =~= blank(1));
        write_word_field(&mut words, song_select_field(SongSelectField::UmpType), 0, SYSTEM_COMMON_TYPE);
        write_word_field(&mut words, song_select_field(SongSelectField::Group), 0, self.group as u32);
        write_word_field(&mut words, song_select_field(SongSelectField::Status), 0, SONG_SELECT_STATUS);
        write_word_field(&mut words, song_select_field(SongSelectField::Song), 0, self.song as u32);
        words
    }
}

/// Round trip: decoding the word of a message gives the message back.
pub proof fn lemma_song_select_round_trip(m: Message)
    requires
        m.wf(),
    ensures
        song_select_decode(song_select_encode(m)) == Ok::<Message, Error>(m),
{
    lemma_song_select_masks();
    lemma_fits_low(SYSTEM_COMMON_TYPE, 0xF);
    lemma_fits_low(m.group as u32, 0xF);
    lemma_fits_low(SONG_SELECT_STATUS, 0xFF);
    lemma_fits_low(m.song as u32, 0x7F);
    let w0 = blank(1);
    let w1 = with_field(w0, spec_song_select_field(SongSelectField::UmpType), 0, SYSTEM_COMMON_TYPE);
    let w2 = with_field(w1, spec_song_select_field(SongSelectField::Group), 0, m.group as u32);
    let w3 = with_field(w2, spec_song_select_field(SongSelectField::Status), 0, SONG_SELECT_STATUS);
    lemma_song_select_write(w0, SongSelectField::UmpType, 0, SYSTEM_COMMON_TYPE);
    lemma_song_select_write(w1, SongSelectField::Group, 0, m.group as u32);
    lemma_song_select_write(w2, SongSelectField::Status, 0, SONG_SELECT_STATUS);
    lemma_song_select_write(w3, SongSelectField::Song, 0, m.song as u32);
    let w4 = song_select_encode(m);
    assert(song_select_value(w4, SongSelectField::UmpType) == SYSTEM_COMMON_TYPE);
    assert(song_select_value(w4, SongSelectField::Status) == SONG_SELECT_STATUS);
    assert(song_select_value(w4, SongSelectField::Group) == m.group as u32);
    assert(song_select_value(w4, SongSelectField::Song) == m.song as u32);
}

/// Discriminant rejection: flipping any bit of the packet type or of the
/// status of a valid word makes decoding fail at that level.
pub proof fn lemma_song_select_discriminant_flip(words: Seq<u32>, id: SongSelectField, bit: u32)
    requires
        song_select_decode(words) is Ok,
        (id == SongSelectField::UmpType && bit < 4) || (id == SongSelectField::Status && bit < 8),
    ensures
        song_select_decode(
            with_field(
                words,
                spec_song_select_field(id),
                0,
                song_select_value(words, id) ^ (1u32 << bit),
            ),
        ) == Err::<Message, Error>(
            if id == SongSelectField::UmpType {
                Error::InvalidDiscriminant(Discriminant::PacketType)
            } else {
                Error::InvalidDiscriminant(Discriminant::Status)
            },
        ),
{
    let f = spec_song_select_field(id);
    let x = song_select_value(words, id);
    let low: u32 = if id == SongSelectField::UmpType { 0xF } else { 0xFF };
    lemma_song_select_masks();
    lemma_get_bounded(words[0], f.mask, f.shift);
    lemma_flip_bit(x, low, bit);
    let v = x ^ (1u32 << bit);
    lemma_fits_low(v, low);
    lemma_song_select_write(words, id, 0, v);
}

} // verus!
