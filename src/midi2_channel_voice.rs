//! MIDI 2.0 relative controller messages (registered and assignable).
//!
//! Both are two-word channel voice messages with the same layout; they differ
//! only in the status code in word 0.
use vstd::prelude::*;
use vstd::slice::slice_to_vec;
use crate::bits::{fits, layout_ok, lemma_fits_low, lemma_flip_bit, lemma_get_bounded};
use crate::error::{Discriminant, Error};
use crate::packet::{
    blank, clear_words, field_value, lemma_read_written, lemma_write_keeps_other, read_word_field,
    with_field, write_word_field, Field,
};

verus! {

/// Packet type of MIDI 2.0 channel voice messages.
pub const CHANNEL_VOICE_TYPE: u32 = 0x4;

/// Status of a relative registered controller message.
pub const REGISTERED_OPCODE: u32 = 0x4;

/// Status of a relative assignable controller message.
pub const ASSIGNABLE_OPCODE: u32 = 0x5;

/// Number of words of a relative controller message.
pub const CONTROLLER_WORDS: usize = 2;

/// The fields of a MIDI 2.0 relative controller message.
#[derive(Debug, Clone, Copy, PartialEq, Eq, Structural)]
pub enum ControllerField {
    /// Packet type, always 0x4.
    UmpType,
    /// Group, 4 bits.
    Group,
    /// Status of the controller kind.
    OpCode,
    /// Channel, 4 bits.
    Channel,
    /// Controller bank, 7 bits.
    Bank,
    /// Controller index, 7 bits.
    Index,
    /// Controller data, a whole word.
    Data,
}

pub open spec fn spec_controller_field(id: ControllerField) -> Field {
    match id {
        ControllerField::UmpType => Field { index: 0, mask: 0xF0000000, shift: 28 },
        ControllerField::Group => Field { index: 0, mask: 0x0F000000, shift: 24 },
        ControllerField::OpCode => Field { index: 0, mask: 0x00F00000, shift: 20 },
        ControllerField::Channel => Field { index: 0, mask: 0x000F0000, shift: 16 },
        ControllerField::Bank => Field { index: 0, mask: 0x00007F00, shift: 8 },
        ControllerField::Index => Field { index: 0, mask: 0x0000007F, shift: 0 },
        ControllerField::Data => Field { index: 1, mask: 0xFFFFFFFF, shift: 0 },
    }
}

/// Where each field lives, counted from the first unit of the message.
#[verifier::when_used_as_spec(spec_controller_field)]
pub fn controller_field(id: ControllerField) -> (r: Field)
    ensures
        r == spec_controller_field(id),
{
    match id {
        ControllerField::UmpType => Field { index: 0, mask: 0xF0000000, shift: 28 },
        ControllerField::Group => Field { index: 0, mask: 0x0F000000, shift: 24 },
        ControllerField::OpCode => Field { index: 0, mask: 0x00F00000, shift: 20 },
        ControllerField::Channel => Field { index: 0, mask: 0x000F0000, shift: 16 },
        ControllerField::Bank => Field { index: 0, mask: 0x00007F00, shift: 8 },
        ControllerField::Index => Field { index: 0, mask: 0x0000007F, shift: 0 },
        ControllerField::Data => Field { index: 1, mask: 0xFFFFFFFF, shift: 0 },
    }
}

/// The masks of the layout are well formed and pairwise disjoint.
proof fn lemma_controller_masks()
    by (bit_vector)
    ensures
        0xF0000000u32 >> 28u32 == 0xFu32,
        (0xF0000000u32 >> 28u32) << 28u32 == 0xF0000000u32,
        0x0F000000u32 >> 24u32 == 0xFu32,
        (0x0F000000u32 >> 24u32) << 24u32 == 0x0F000000u32,
        0x00F00000u32 >> 20u32 == 0xFu32,
        (0x00F00000u32 >> 20u32) << 20u32 == 0x00F00000u32,
        0x000F0000u32 >> 16u32 == 0xFu32,
        (0x000F0000u32 >> 16u32) << 16u32 == 0x000F0000u32,
        0x00007F00u32 >> 8u32 == 0x7Fu32,
        (0x00007F00u32 >> 8u32) << 8u32 == 0x00007F00u32,
        0x0000007Fu32 >> 0u32 == 0x7Fu32,
        (0x0000007Fu32 >> 0u32) << 0u32 == 0x0000007Fu32,
        0xFFFFFFFFu32 >> 0u32 == 0xFFFFFFFFu32,
        (0xFFFFFFFFu32 >> 0u32) << 0u32 == 0xFFFFFFFFu32,
        0xF0000000u32 & 0x0F000000u32 == 0,
        0x0F000000u32 & 0xF0000000u32 == 0,
        0xF0000000u32 & 0x00F00000u32 == 0,
        0x00F00000u32 & 0xF0000000u32 == 0,
        0xF0000000u32 & 0x000F0000u32 == 0,
        0x000F0000u32 & 0xF0000000u32 == 0,
        0xF0000000u32 & 0x00007F00u32 == 0,
        0x00007F00u32 & 0xF0000000u32 == 0,
        0xF0000000u32 & 0x0000007Fu32 == 0,
        0x0000007Fu32 & 0xF0000000u32 == 0,
        0x0F000000u32 & 0x00F00000u32 == 0,
        0x00F00000u32 & 0x0F000000u32 == 0,
        0x0F000000u32 & 0x000F0000u32 == 0,
        0x000F0000u32 & 0x0F000000u32 == 0,
        0x0F000000u32 & 0x00007F00u32 == 0,
        0x00007F00u32 & 0x0F000000u32 == 0,
        0x0F000000u32 & 0x0000007Fu32 == 0,
        0x0000007Fu32 & 0x0F000000u32 == 0,
        0x00F00000u32 & 0x000F0000u32 == 0,
        0x000F0000u32 & 0x00F00000u32 == 0,
        0x00F00000u32 & 0x00007F00u32 == 0,
        0x00007F00u32 & 0x00F00000u32 == 0,
        0x00F00000u32 & 0x0000007Fu32 == 0,
        0x0000007Fu32 & 0x00F00000u32 == 0,
        0x000F0000u32 & 0x00007F00u32 == 0,
        0x00007F00u32 & 0x000F0000u32 == 0,
        0x000F0000u32 & 0x0000007Fu32 == 0,
        0x0000007Fu32 & 0x000F0000u32 == 0,
        0x00007F00u32 & 0x0000007Fu32 == 0,
        0x0000007Fu32 & 0x00007F00u32 == 0,
{
}

/// Every field of the layout is well formed, and two distinct fields share
/// no bit.
pub proof fn lemma_controller_field(a: ControllerField, b: ControllerField)
    ensures
        layout_ok(spec_controller_field(a).mask, spec_controller_field(a).shift),
        a != b ==> spec_controller_field(a).disjoint(spec_controller_field(b)),
{
    lemma_controller_masks();
}

/// The layout's fields are well formed and pairwise disjoint.
pub proof fn lemma_controller_layout()
    ensures
        forall|a: ControllerField| #[trigger] layout_ok(spec_controller_field(a).mask, spec_controller_field(a).shift),
        forall|a: ControllerField, b: ControllerField|
            a != b ==> (#[trigger] spec_controller_field(a)).disjoint(#[trigger] spec_controller_field(b)),
{
    assert forall|a: ControllerField| #[trigger] layout_ok(spec_controller_field(a).mask, spec_controller_field(a).shift) by {
        lemma_controller_field(a, a);
    }
    assert forall|a: ControllerField, b: ControllerField|
        a != b implies (#[trigger] spec_controller_field(a)).disjoint(#[trigger] spec_controller_field(b)) by {
        lemma_controller_field(a, b);
    }
}

/// Writing one field of the layout makes it read back the value written and
/// leaves every other field as it was.
pub proof fn lemma_controller_write(units: Seq<u32>, id: ControllerField, offset: int, v: u32)
    requires
        0 <= offset,
        offset + 2 <= units.len(),
        fits(v, spec_controller_field(id).mask, spec_controller_field(id).shift),
    ensures
        field_value(with_field(units, spec_controller_field(id), offset, v), spec_controller_field(id), offset) == v,
        with_field(units, spec_controller_field(id), offset, v).len() == units.len(),
        forall|g: ControllerField|
            g != id ==> #[trigger] field_value(
                with_field(units, spec_controller_field(id), offset, v),
                spec_controller_field(g),
                offset,
            ) == field_value(units, spec_controller_field(g), offset),
{
    lemma_controller_field(id, id);
    lemma_read_written(units, spec_controller_field(id), offset, v);
    assert forall|g: ControllerField|
        g != id implies #[trigger] field_value(
            with_field(units, spec_controller_field(id), offset, v),
            spec_controller_field(g),
            offset,
        ) == field_value(units, spec_controller_field(g), offset) by {
        lemma_controller_field(id, g);
        lemma_write_keeps_other(units, spec_controller_field(id), spec_controller_field(g), offset, v);
    }
}

/// The value of a field of a controller message's words.
pub open spec fn controller_value(words: Seq<u32>, id: ControllerField) -> u32 {
    field_value(words, spec_controller_field(id), 0)
}

/// The outcome of validating `words` as a controller message with status
/// `opcode`: the packet type is checked first, then the status, then the size.
pub open spec fn controller_check(words: Seq<u32>, opcode: u32) -> Result<(), Error> {
    if words.len() == 0 {
        Err(Error::BufferTooShort)
    } else if controller_value(words, ControllerField::UmpType) != CHANNEL_VOICE_TYPE {
        Err(Error::InvalidDiscriminant(Discriminant::PacketType))
    } else if controller_value(words, ControllerField::OpCode) != opcode {
        Err(Error::InvalidDiscriminant(Discriminant::Status))
    } else if words.len() < CONTROLLER_WORDS {
        Err(Error::BufferTooShort)
    } else {
        Ok(())
    }
}

/// The words that a fresh builder holds: zeroes, with the packet type and the
/// status written.
pub open spec fn controller_blank(len: nat, opcode: u32) -> Seq<u32> {
    with_field(
        with_field(
            blank(len),
            spec_controller_field(ControllerField::UmpType),
            0,
            CHANNEL_VOICE_TYPE,
        ),
        spec_controller_field(ControllerField::OpCode),
        0,
        opcode,
    )
}

/// The state of a builder after a setter: an error stays, words get the field.
pub open spec fn controller_set(
    state: Result<Seq<u32>, Error>,
    id: ControllerField,
    v: u32,
) -> Result<Seq<u32>, Error> {
    match state {
        Ok(w) => Ok(with_field(w, spec_controller_field(id), 0, v)),
        Err(e) => Err(e),
    }
}

/// After a setter of field `id` to `v`, on words that were kept: the field
/// reads `v` and every other field reads as before.
pub open spec fn controller_reads(
    before: Result<Seq<u32>, Error>,
    after: Result<Seq<u32>, Error>,
    id: ControllerField,
    v: u32,
) -> bool {
    match (before, after) {
        (Ok(a), Ok(b)) => {
            &&& controller_value(b, id) == v
            &&& forall|g: ControllerField|
                g != id ==> #[trigger] controller_value(b, g) == controller_value(a, g)
        },
        _ => true,
    }
}

/// The largest value of each variable field.
pub open spec fn controller_max(id: ControllerField) -> u32 {
    match id {
        ControllerField::Bank | ControllerField::Index => 0x7F,
        ControllerField::Data => 0xFFFF_FFFF,
        _ => 0xF,
    }
}

/// A field that a builder sets, as opposed to a fixed discriminant.
pub open spec fn is_variable(id: ControllerField) -> bool {
    id != ControllerField::UmpType && id != ControllerField::OpCode
}

/// Round trip: writing any value of a variable field's range into a valid
/// message gives a valid message from which the field decodes to that value.
pub proof fn lemma_controller_round_trip(words: Seq<u32>, opcode: u32, id: ControllerField, v: u32)
    requires
        controller_check(words, opcode) is Ok,
        is_variable(id),
        v <= controller_max(id),
    ensures
        controller_check(with_field(words, spec_controller_field(id), 0, v), opcode) is Ok,
        controller_value(with_field(words, spec_controller_field(id), 0, v), id) == v,
{
    lemma_controller_write_valid(words, opcode, id, v);
}

/// Non-overlap: writing one field of a valid message changes no other
/// field's value.
pub proof fn lemma_controller_non_overlap(
    words: Seq<u32>,
    opcode: u32,
    id: ControllerField,
    v: u32,
    other: ControllerField,
)
    requires
        controller_check(words, opcode) is Ok,
        is_variable(id),
        v <= controller_max(id),
        other != id,
    ensures
        controller_value(with_field(words, spec_controller_field(id), 0, v), other)
            == controller_value(words, other),
{
    lemma_controller_write_valid(words, opcode, id, v);
}

proof fn lemma_controller_write_valid(words: Seq<u32>, opcode: u32, id: ControllerField, v: u32)
    requires
        controller_check(words, opcode) is Ok,
        is_variable(id),
        v <= controller_max(id),
    ensures
        controller_check(with_field(words, spec_controller_field(id), 0, v), opcode) is Ok,
        controller_value(with_field(words, spec_controller_field(id), 0, v), id) == v,
        forall|g: ControllerField|
            g != id ==> #[trigger] controller_value(
                with_field(words, spec_controller_field(id), 0, v),
                g,
            ) == controller_value(words, g),
{
    lemma_controller_masks();
    lemma_controller_field(id, id);
    lemma_fits_low(v, controller_max(id));
    lemma_controller_write(words, id, 0, v);
}

/// Discriminant rejection: flipping any bit of the packet type or the status
/// of a valid message makes validation fail at that level.
pub proof fn lemma_controller_discriminant_flip(
    words: Seq<u32>,
    opcode: u32,
    id: ControllerField,
    bit: u32,
)
    requires
        controller_check(words, opcode) is Ok,
        !is_variable(id),
        bit < 4,
    ensures
        controller_check(
            with_field(words, spec_controller_field(id), 0, controller_value(words, id) ^ (1u32 << bit)),
            opcode,
        ) == Err::<(), Error>(
            if id == ControllerField::UmpType {
                Error::InvalidDiscriminant(Discriminant::PacketType)
            } else {
                Error::InvalidDiscriminant(Discriminant::Status)
            },
        ),
{
    let x = controller_value(words, id);
    lemma_controller_masks();
    lemma_controller_field(id, id);
    lemma_get_bounded(words[spec_controller_field(id).index as int], spec_controller_field(id).mask, spec_controller_field(id).shift);
    lemma_flip_bit(x, 0xF, bit);
    let v = x ^ (1u32 << bit);
    lemma_fits_low(v, 0xF);
    lemma_controller_write(words, id, 0, v);
}

/// Validates `words` as a controller message with status `opcode`.
fn check_controller(words: &[u32], opcode: u32) -> (r: Result<(), Error>)
    ensures
        r == controller_check(words@, opcode),
{
    if words.len() == 0 {
        return Err(Error::BufferTooShort);
    }
    proof {
        lemma_controller_field(ControllerField::UmpType, ControllerField::OpCode);
    }
    if read_word_field(words, controller_field(ControllerField::UmpType), 0) != CHANNEL_VOICE_TYPE {
        return Err(Error::InvalidDiscriminant(Discriminant::PacketType));
    }
    if read_word_field(words, controller_field(ControllerField::OpCode), 0) != opcode {
        return Err(Error::InvalidDiscriminant(Discriminant::Status));
    }
    if words.len() < CONTROLLER_WORDS {
        return Err(Error::BufferTooShort);
    }
    Ok(())
}

/// Reads a field of validated controller words.
fn read_controller(words: &[u32], id: ControllerField) -> (r: u32)
    requires
        words@.len() >= CONTROLLER_WORDS,
    ensures
        r == controller_value(words@, id),
        r <= controller_max(id),
{
    proof {
        lemma_controller_field(id, id);
        lemma_controller_masks();
    }
    let f = controller_field(id);
    proof {
        lemma_get_bounded(words@[f.index as int], f.mask, f.shift);
    }
    read_word_field(words, f, 0)
}

/// Zeroes `buffer` and writes the discriminants, or fails when it is too short.
fn controller_start(buffer: Vec<u32>, opcode: u32) -> (r: Result<Vec<u32>, Error>)
    requires
        opcode <= 0xF,
    ensures
        buffer@.len() < CONTROLLER_WORDS ==> r == Err::<Vec<u32>, Error>(Error::BufferTooShort),
        buffer@.len() >= CONTROLLER_WORDS ==> (r matches Ok(w) && w@ == controller_blank(
            buffer@.len(),
            opcode,
        )),
        r matches Ok(w) ==> controller_check(w@, opcode) is Ok,
{
    if buffer.len() < CONTROLLER_WORDS {
        return Err(Error::BufferTooShort);
    }
    let mut words = buffer;
    clear_words(&mut words);
    let ghost zero = words@;
    proof {
        lemma_controller_masks();
        lemma_fits_low(CHANNEL_VOICE_TYPE, 0xF);
        lemma_fits_low(opcode, 0xF);
        lemma_controller_write(
            zero,
            ControllerField::UmpType,
            0,
            CHANNEL_VOICE_TYPE,
        );
    }
    write_word_field(&mut words, controller_field(ControllerField::UmpType), 0, CHANNEL_VOICE_TYPE);
    let ghost typed = words@;
    proof {
        lemma_controller_write(
            typed,
            ControllerField::OpCode,
            0,
            opcode,
        );
    }
    write_word_field(&mut words, controller_field(ControllerField::OpCode), 0, opcode);
    Ok(words)
}

/// Writes one variable field of a builder's words, unless it holds an error.
fn controller_write(
    state: Result<Vec<u32>, Error>,
    id: ControllerField,
    v: u32,
    opcode: u32,
) -> (r: Result<Vec<u32>, Error>)
    requires
        state matches Ok(w) ==> controller_check(w@, opcode) is Ok,
        id != ControllerField::UmpType,
        id != ControllerField::OpCode,
        v <= controller_max(id),
    ensures
        r matches Ok(w) ==> controller_check(w@, opcode) is Ok,
        state matches Ok(w0) ==> (r matches Ok(w1) && controller_value(w1@, id) == v && forall|
            g: ControllerField,
        | g != id ==> #[trigger] controller_value(w1@, g) == controller_value(w0@, g)),
        match state {
            Ok(w) => r matches Ok(x) && x@ == with_field(w@, spec_controller_field(id), 0, v),
            Err(e) => r matches Err(x) && x == e,
        },
{
    match state {
        Ok(mut words) => {
            proof {
                lemma_controller_masks();
                lemma_controller_field(id, id);
                lemma_fits_low(v, controller_max(id));
                lemma_controller_write(
                    words@,
                    id,
                    0,
                    v,
                );
                assert(controller_value(with_field(words@, spec_controller_field(id), 0, v), ControllerField::UmpType)
                    == controller_value(words@, ControllerField::UmpType));
                assert(controller_value(with_field(words@, spec_controller_field(id), 0, v), ControllerField::OpCode)
                    == controller_value(words@, ControllerField::OpCode));
            }
            write_word_field(&mut words, controller_field(id), 0, v);
            Ok(words)
        },
        Err(e) => Err(e),
    }
}


/// Writes one variable field of a builder's words in place, unless it holds
/// an error.
fn controller_write_in_place(
    state: &mut Result<Vec<u32>, Error>,
    id: ControllerField,
    v: u32,
    opcode: u32,
)
    requires
        *old(state) matches Ok(w) ==> controller_check(w@, opcode) is Ok,
        id != ControllerField::UmpType,
        id != ControllerField::OpCode,
        v <= controller_max(id),
    ensures
        *final(state) matches Ok(w) ==> controller_check(w@, opcode) is Ok,
        *old(state) matches Ok(w0) ==> (*final(state) matches Ok(w1) && controller_value(w1@, id)
            == v && forall|g: ControllerField|
            g != id ==> #[trigger] controller_value(w1@, g) == controller_value(w0@, g)),
        match *old(state) {
            Ok(w) => *final(state) matches Ok(x) && x@ == with_field(w@, spec_controller_field(id), 0, v),
            Err(e) => *final(state) matches Err(x) && x == e,
        },
{
    if let Ok(words) = state {
        proof {
            lemma_controller_masks();
            lemma_controller_field(id, id);
            lemma_fits_low(v, controller_max(id));
            lemma_controller_write(words@, id, 0, v);
        }
        write_word_field(words, controller_field(id), 0, v);
    }
}

/// A relative assignable controller message over its words.
pub struct RelativeAssignableControllerMessage {
    words: Vec<u32>,
}

impl View for RelativeAssignableControllerMessage {
    type V = Seq<u32>;

    closed spec fn view(&self) -> Seq<u32> {
        self.words@
    }
}

impl RelativeAssignableControllerMessage {
    /// The words hold a valid relative assignable controller message.
    pub open spec fn wf(&self) -> bool {
        controller_check(self@, ASSIGNABLE_OPCODE) is Ok
    }

    /// A builder over `buffer`; see [`RelativeAssignableControllerBuilder::new`].
    pub fn builder(buffer: Vec<u32>) -> (r: RelativeAssignableControllerBuilder)
        ensures
            r.wf(),
            buffer@.len() < CONTROLLER_WORDS ==> r@ == Err::<Seq<u32>, Error>(Error::BufferTooShort),
            buffer@.len() >= CONTROLLER_WORDS ==> r@ == Ok::<Seq<u32>, Error>(
                controller_blank(buffer@.len(), ASSIGNABLE_OPCODE),
            ),
    {
        RelativeAssignableControllerBuilder::new(buffer)
    }

    pub fn group(&self) -> (r: u8)
        requires
            self.wf(),
        ensures
            r as u32 == controller_value(self@, ControllerField::Group),
            r <= 0xF,
    {
        read_controller(self.words.as_slice(), ControllerField::Group) as u8
    }

    pub fn channel(&self) -> (r: u8)
        requires
            self.wf(),
        ensures
            r as u32 == controller_value(self@, ControllerField::Channel),
            r <= 0xF,
    {
        read_controller(self.words.as_slice(), ControllerField::Channel) as u8
    }

    pub fn bank(&self) -> (r: u8)
        requires
            self.wf(),
        ensures
            r as u32 == controller_value(self@, ControllerField::Bank),
            r <= 0x7F,
    {
        read_controller(self.words.as_slice(), ControllerField::Bank) as u8
    }

    pub fn index(&self) -> (r: u8)
        requires
            self.wf(),
        ensures
            r as u32 == controller_value(self@, ControllerField::Index),
            r <= 0x7F,
    {
        read_controller(self.words.as_slice(), ControllerField::Index) as u8
    }

    pub fn controller_data(&self) -> (r: u32)
        requires
            self.wf(),
        ensures
            r == controller_value(self@, ControllerField::Data),
    {
        read_controller(self.words.as_slice(), ControllerField::Data)
    }

    /// The message's words.
    pub fn data(&self) -> (r: &[u32])
        ensures
            r@ == self@,
    {
        self.words.as_slice()
    }

    /// Binds to a copy of `data` after checking the packet type, the status
    /// and the size, in that order.
    pub fn from_data(data: &[u32]) -> (r: Result<Self, Error>)
        ensures
            controller_check(data@, ASSIGNABLE_OPCODE) is Ok ==> (r matches Ok(m) && m@ == data@ && m.wf()),
            controller_check(data@, ASSIGNABLE_OPCODE) matches Err(e) ==> (r matches Err(x) && x == e),
    {
        match check_controller(data, ASSIGNABLE_OPCODE) {
            Ok(()) => Ok(RelativeAssignableControllerMessage { words: slice_to_vec(data) }),
            Err(e) => Err(e),
        }
    }
}

/// Builds a relative assignable controller message in a caller-given buffer.
/// A buffer that is too short makes every later call a no-op and `build`
/// return the error.
pub struct RelativeAssignableControllerBuilder {
    state: Result<Vec<u32>, Error>,
}

impl View for RelativeAssignableControllerBuilder {
    type V = Result<Seq<u32>, Error>;

    closed spec fn view(&self) -> Result<Seq<u32>, Error> {
        match self.state {
            Ok(w) => Ok(w@),
            Err(e) => Err(e),
        }
    }
}

impl RelativeAssignableControllerBuilder {
    /// The words built so far hold a valid message.
    pub open spec fn wf(&self) -> bool {
        self@ matches Ok(w) ==> controller_check(w, ASSIGNABLE_OPCODE) is Ok
    }

    /// Zeroes `buffer` and writes the packet type and status; a buffer of
    /// fewer than two words gives a builder that holds `BufferTooShort`.
    pub fn new(buffer: Vec<u32>) -> (r: Self)
        ensures
            r.wf(),
            buffer@.len() < CONTROLLER_WORDS ==> r@ == Err::<Seq<u32>, Error>(Error::BufferTooShort),
            buffer@.len() >= CONTROLLER_WORDS ==> r@ == Ok::<Seq<u32>, Error>(
                controller_blank(buffer@.len(), ASSIGNABLE_OPCODE),
            ),
    {
        RelativeAssignableControllerBuilder { state: controller_start(buffer, ASSIGNABLE_OPCODE) }
    }

    pub fn group(self, v: u8) -> (r: Self)
        requires
            self.wf(),
            v <= 0xF,
        ensures
            r.wf(),
            r@ == controller_set(self@, ControllerField::Group, v as u32),
            controller_reads(self@, r@, ControllerField::Group, v as u32),
    {
        RelativeAssignableControllerBuilder {
            state: controller_write(self.state, ControllerField::Group, v as u32, ASSIGNABLE_OPCODE),
        }
    }

    pub fn channel(self, v: u8) -> (r: Self)
        requires
            self.wf(),
            v <= 0xF,
        ensures
            r.wf(),
            r@ == controller_set(self@, ControllerField::Channel, v as u32),
            controller_reads(self@, r@, ControllerField::Channel, v as u32),
    {
        RelativeAssignableControllerBuilder {
            state: controller_write(self.state, ControllerField::Channel, v as u32, ASSIGNABLE_OPCODE),
        }
    }

    pub fn bank(self, v: u8) -> (r: Self)
        requires
            self.wf(),
            v <= 0x7F,
        ensures
            r.wf(),
            r@ == controller_set(self@, ControllerField::Bank, v as u32),
            controller_reads(self@, r@, ControllerField::Bank, v as u32),
    {
        RelativeAssignableControllerBuilder {
            state: controller_write(self.state, ControllerField::Bank, v as u32, ASSIGNABLE_OPCODE),
        }
    }

    pub fn index(self, v: u8) -> (r: Self)
        requires
            self.wf(),
            v <= 0x7F,
        ensures
            r.wf(),
            r@ == controller_set(self@, ControllerField::Index, v as u32),
            controller_reads(self@, r@, ControllerField::Index, v as u32),
    {
        RelativeAssignableControllerBuilder {
            state: controller_write(self.state, ControllerField::Index, v as u32, ASSIGNABLE_OPCODE),
        }
    }

    pub fn controller_data(self, v: u32) -> (r: Self)
        requires
            self.wf(),
        ensures
            r.wf(),
            r@ == controller_set(self@, ControllerField::Data, v),
            controller_reads(self@, r@, ControllerField::Data, v),
    {
        RelativeAssignableControllerBuilder {
            state: controller_write(self.state, ControllerField::Data, v, ASSIGNABLE_OPCODE),
        }
    }

    /// The message built, or the error recorded by `new`.
    pub fn build(self) -> (r: Result<RelativeAssignableControllerMessage, Error>)
        requires
            self.wf(),
        ensures
            match self@ {
                Ok(w) => r matches Ok(m) && m@ == w && m.wf(),
                Err(e) => r matches Err(x) && x == e,
            },
    {
        match self.state {
            Ok(words) => Ok(RelativeAssignableControllerMessage { words }),
            Err(e) => Err(e),
        }
    }
}

/// A relative registered controller message over its words.
pub struct RelativeRegisteredControllerMessage {
    words: Vec<u32>,
}

impl View for RelativeRegisteredControllerMessage {
    type V = Seq<u32>;

    closed spec fn view(&self) -> Seq<u32> {
        self.words@
    }
}

impl RelativeRegisteredControllerMessage {
    /// The words hold a valid relative registered controller message.
    pub open spec fn wf(&self) -> bool {
        controller_check(self@, REGISTERED_OPCODE) is Ok
    }

    /// A builder over `buffer`; see [`RelativeRegisteredControllerBuilder::new`].
    pub fn builder(buffer: Vec<u32>) -> (r: RelativeRegisteredControllerBuilder)
        ensures
            r.wf(),
            buffer@.len() < CONTROLLER_WORDS ==> r@ == Err::<Seq<u32>, Error>(Error::BufferTooShort),
            buffer@.len() >= CONTROLLER_WORDS ==> r@ == Ok::<Seq<u32>, Error>(
                controller_blank(buffer@.len(), REGISTERED_OPCODE),
            ),
    {
        RelativeRegisteredControllerBuilder::new(buffer)
    }

    pub fn group(&self) -> (r: u8)
        requires
            self.wf(),
        ensures
            r as u32 == controller_value(self@, ControllerField::Group),
            r <= 0xF,
    {
        read_controller(self.words.as_slice(), ControllerField::Group) as u8
    }

    pub fn channel(&self) -> (r: u8)
        requires
            self.wf(),
        ensures
            r as u32 == controller_value(self@, ControllerField::Channel),
            r <= 0xF,
    {
        read_controller(self.words.as_slice(), ControllerField::Channel) as u8
    }

    pub fn bank(&self) -> (r: u8)
        requires
            self.wf(),
        ensures
            r as u32 == controller_value(self@, ControllerField::Bank),
            r <= 0x7F,
    {
        read_controller(self.words.as_slice(), ControllerField::Bank) as u8
    }

    pub fn index(&self) -> (r: u8)
        requires
            self.wf(),
        ensures
            r as u32 == controller_value(self@, ControllerField::Index),
            r <= 0x7F,
    {
        read_controller(self.words.as_slice(), ControllerField::Index) as u8
    }

    pub fn controller_data(&self) -> (r: u32)
        requires
            self.wf(),
        ensures
            r == controller_value(self@, ControllerField::Data),
    {
        read_controller(self.words.as_slice(), ControllerField::Data)
    }

    /// The message's words.
    pub fn data(&self) -> (r: &[u32])
        ensures
            r@ == self@,
    {
        self.words.as_slice()
    }

    /// Binds to a copy of `data` after checking the packet type, the status
    /// and the size, in that order.
    pub fn from_data(data: &[u32]) -> (r: Result<Self, Error>)
        ensures
            controller_check(data@, REGISTERED_OPCODE) is Ok ==> (r matches Ok(m) && m@ == data@ && m.wf()),
            controller_check(data@, REGISTERED_OPCODE) matches Err(e) ==> (r matches Err(x) && x == e),
    {
        match check_controller(data, REGISTERED_OPCODE) {
            Ok(()) => Ok(RelativeRegisteredControllerMessage { words: slice_to_vec(data) }),
            Err(e) => Err(e),
        }
    }
}

/// Builds a relative registered controller message in a caller-given buffer.
/// A buffer that is too short makes every later call a no-op and `build`
/// return the error.
pub struct RelativeRegisteredControllerBuilder {
    state: Result<Vec<u32>, Error>,
}

impl View for RelativeRegisteredControllerBuilder {
    type V = Result<Seq<u32>, Error>;

    closed spec fn view(&self) -> Result<Seq<u32>, Error> {
        match self.state {
            Ok(w) => Ok(w@),
            Err(e) => Err(e),
        }
    }
}

impl RelativeRegisteredControllerBuilder {
    /// The words built so far hold a valid message.
    pub open spec fn wf(&self) -> bool {
        self@ matches Ok(w) ==> controller_check(w, REGISTERED_OPCODE) is Ok
    }

    /// Zeroes `buffer` and writes the packet type and status; a buffer of
    /// fewer than two words gives a builder that holds `BufferTooShort`.
    pub fn new(buffer: Vec<u32>) -> (r: Self)
        ensures
            r.wf(),
            buffer@.len() < CONTROLLER_WORDS ==> r@ == Err::<Seq<u32>, Error>(Error::BufferTooShort),
            buffer@.len() >= CONTROLLER_WORDS ==> r@ == Ok::<Seq<u32>, Error>(
                controller_blank(buffer@.len(), REGISTERED_OPCODE),
            ),
    {
        RelativeRegisteredControllerBuilder { state: controller_start(buffer, REGISTERED_OPCODE) }
    }

    pub fn group(&mut self, v: u8) -> (r: &mut Self)
        requires
            old(self).wf(),
            v <= 0xF,
        ensures
            r.wf(),
            r@ == controller_set(old(self)@, ControllerField::Group, v as u32),
            controller_reads(old(self)@, r@, ControllerField::Group, v as u32),
            *final(self) == *final(r),
    {
        controller_write_in_place(&mut self.state, ControllerField::Group, v as u32, REGISTERED_OPCODE);
        self
    }

    pub fn channel(&mut self, v: u8) -> (r: &mut Self)
        requires
            old(self).wf(),
            v <= 0xF,
        ensures
            r.wf(),
            r@ == controller_set(old(self)@, ControllerField::Channel, v as u32),
            controller_reads(old(self)@, r@, ControllerField::Channel, v as u32),
            *final(self) == *final(r),
    {
        controller_write_in_place(&mut self.state, ControllerField::Channel, v as u32, REGISTERED_OPCODE);
        self
    }

    pub fn bank(&mut self, v: u8) -> (r: &mut Self)
        requires
            old(self).wf(),
            v <= 0x7F,
        ensures
            r.wf(),
            r@ == controller_set(old(self)@, ControllerField::Bank, v as u32),
            controller_reads(old(self)@, r@, ControllerField::Bank, v as u32),
            *final(self) == *final(r),
    {
        controller_write_in_place(&mut self.state, ControllerField::Bank, v as u32, REGISTERED_OPCODE);
        self
    }

    pub fn index(&mut self, v: u8) -> (r: &mut Self)
        requires
            old(self).wf(),
            v <= 0x7F,
        ensures
            r.wf(),
            r@ == controller_set(old(self)@, ControllerField::Index, v as u32),
            controller_reads(old(self)@, r@, ControllerField::Index, v as u32),
            *final(self) == *final(r),
    {
        controller_write_in_place(&mut self.state, ControllerField::Index, v as u32, REGISTERED_OPCODE);
        self
    }

    pub fn controller_data(&mut self, v: u32) -> (r: &mut Self)
        requires
            old(self).wf(),
        ensures
            r.wf(),
            r@ == controller_set(old(self)@, ControllerField::Data, v),
            controller_reads(old(self)@, r@, ControllerField::Data, v),
            *final(self) == *final(r),
    {
        controller_write_in_place(&mut self.state, ControllerField::Data, v, REGISTERED_OPCODE);
        self
    }

    /// The message built, or the error recorded by `new`.
    pub fn build(&self) -> (r: Result<RelativeRegisteredControllerMessage, Error>)
        requires
            self.wf(),
        ensures
            match self@ {
                Ok(w) => r matches Ok(m) && m@ == w && m.wf(),
                Err(e) => r matches Err(x) && x == e,
            },
    {
        match &self.state {
            Ok(words) => Ok(RelativeRegisteredControllerMessage { words: words.clone() }),
            Err(e) => Err(*e),
        }
    }
}

} // verus!
