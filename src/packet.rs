//! Buffers of units, and fields laid out over them.
//!
//! A packet is either a sequence of 32-bit words (the Universal MIDI Packet
//! form) or a sequence of bytes (the MIDI 1.0 byte-stream form). Both are seen
//! through the same view: a sequence of units, each held in a `u32`.
use vstd::prelude::*;
use crate::bits::{
    fits, get_bits, layout_ok, lemma_get_set_disjoint, lemma_get_set_same, lemma_set_stays_byte,
    read_bits, set_bits, write_bits,
};

verus! {

/// The physical size of a buffer's units.
#[derive(Debug, Clone, Copy, PartialEq, Eq, Structural)]
pub enum UnitKind {
    Word32,
    Byte8,
}

/// An owned buffer of units of one kind.
#[derive(Debug, PartialEq, Eq)]
pub enum Packet {
    Ump(Vec<u32>),
    Bytes(Vec<u8>),
}

/// Where a field lives in one unit kind: a unit index and an in-place mask.
/// A zero mask means that the field does not exist in that unit kind.
#[derive(Debug, Clone, Copy, PartialEq, Eq, Structural)]
pub struct Field {
    pub index: usize,
    pub mask: u32,
    pub shift: u32,
}

/// The layout of one field in each of the two unit kinds.
#[derive(Debug, Clone, Copy, PartialEq, Eq, Structural)]
pub struct Schema {
    pub ump: Field,
    pub bytes: Field,
}

impl Field {
    /// The mask is well formed and fits the unit size of `kind`.
    pub open spec fn ok_for(self, kind: UnitKind) -> bool {
        &&& layout_ok(self.mask, self.shift)
        &&& (kind == UnitKind::Byte8 ==> self.mask < 0x100)
    }

    /// Two fields that share no bit.
    pub open spec fn disjoint(self, other: Field) -> bool {
        self.index != other.index || self.mask & other.mask == 0
    }
}

impl Schema {
    pub open spec fn spec_pick(self, kind: UnitKind) -> Field {
        match kind {
            UnitKind::Word32 => self.ump,
            UnitKind::Byte8 => self.bytes,
        }
    }

    /// The layout for units of `kind`.
    #[verifier::when_used_as_spec(spec_pick)]
    pub fn pick(self, kind: UnitKind) -> (r: Field)
        ensures
            r == self.spec_pick(kind),
    {
        match kind {
            UnitKind::Word32 => self.ump,
            UnitKind::Byte8 => self.bytes,
        }
    }
}

/// The value of field `f` in `units`, with every index moved by `offset`.
pub open spec fn field_value(units: Seq<u32>, f: Field, offset: int) -> u32 {
    get_bits(units[offset + f.index], f.mask, f.shift)
}

/// `units` with field `f` (moved by `offset`) replaced by `v`.
pub open spec fn with_field(units: Seq<u32>, f: Field, offset: int, v: u32) -> Seq<u32> {
    units.update(offset + f.index, set_bits(units[offset + f.index], f.mask, f.shift, v))
}

/// The units of a byte buffer, each widened to 32 bits.
pub open spec fn widen(bytes: Seq<u8>) -> Seq<u32> {
    bytes.map_values(|b: u8| b as u32)
}

/// Reads field `f` of a word buffer, its unit index moved by `offset`.
pub fn read_word_field(words: &[u32], f: Field, offset: usize) -> (r: u32)
    requires
        offset + f.index < words@.len(),
        f.shift < 32,
    ensures
        r == field_value(words@, f, offset as int),
{
    let _n = words.len();
    read_bits(words[offset + f.index], f.mask, f.shift)
}

/// Writes `v` into field `f` of a word buffer, its unit index moved by
/// `offset`; every other bit is kept.
pub fn write_word_field(words: &mut Vec<u32>, f: Field, offset: usize, v: u32)
    requires
        offset + f.index < old(words)@.len(),
        f.shift < 32,
    ensures
        final(words)@ == with_field(old(words)@, f, offset as int, v),
{
    let _n = words.len();
    let i = offset + f.index;
    let u = write_bits(words[i], f.mask, f.shift, v);
    words.set(i, u);
}

/// Reads field `f` of a byte buffer, its unit index moved by `offset`.
pub fn read_byte_field(bytes: &[u8], f: Field, offset: usize) -> (r: u32)
    requires
        offset + f.index < bytes@.len(),
        f.shift < 32,
    ensures
        r == field_value(widen(bytes@), f, offset as int),
{
    let _n = bytes.len();
    read_bits(bytes[offset + f.index] as u32, f.mask, f.shift)
}

/// Writes `v` into field `f` of a byte buffer, its unit index moved by
/// `offset`; every other bit is kept.
pub fn write_byte_field(bytes: &mut Vec<u8>, f: Field, offset: usize, v: u32)
    requires
        offset + f.index < old(bytes)@.len(),
        f.ok_for(UnitKind::Byte8),
    ensures
        widen(final(bytes)@) == with_field(widen(old(bytes)@), f, offset as int, v),
        final(bytes)@.len() == old(bytes)@.len(),
{
    let _n = bytes.len();
    let i = offset + f.index;
    let old_unit = bytes[i] as u32;
    let u = write_bits(old_unit, f.mask, f.shift, v);
    proof {
        lemma_set_stays_byte(old_unit, f.mask, f.shift, v);
    }
    bytes.set(i, u as u8);
    assert(widen(bytes@) =~= with_field(widen(old(bytes)@), f, offset as int, v));
}

impl Packet {
    pub open spec fn kind(&self) -> UnitKind {
        match self {
            Packet::Ump(_) => UnitKind::Word32,
            Packet::Bytes(_) => UnitKind::Byte8,
        }
    }

    /// The units, each widened to 32 bits.
    pub open spec fn units(&self) -> Seq<u32> {
        match self {
            Packet::Ump(v) => v@,
            Packet::Bytes(v) => widen(v@),
        }
    }

    pub fn unit_kind(&self) -> (r: UnitKind)
        ensures
            r == self.kind(),
    {
        match self {
            Packet::Ump(_) => UnitKind::Word32,
            Packet::Bytes(_) => UnitKind::Byte8,
        }
    }

    pub fn len(&self) -> (r: usize)
        ensures
            r == self.units().len(),
    {
        match self {
            Packet::Ump(v) => v.len(),
            Packet::Bytes(v) => v.len(),
        }
    }

    /// Appends zero units until the packet holds at least `len`; never
    /// removes a unit.
    pub fn ensure_len(&mut self, len: usize)
        ensures
            final(self).kind() == old(self).kind(),
            old(self).units().len() >= len ==> final(self).units() == old(self).units(),
            old(self).units().len() < len ==> final(self).units() == old(self).units() + blank(
                (len - old(self).units().len()) as nat,
            ),
    {
        let ghost start = self.units();
        match self {
            Packet::Ump(w) => {
                while w.len() < len
                    invariant
                        start == old(self).units(),
                        w@.len() <= len || w@.len() == start.len(),
                        w@ == start + blank((w@.len() - start.len()) as nat),
                        w@.len() >= start.len(),
                    decreases len - w@.len(),
                {
                    w.push(0);
                    assert(w@ =~= start + blank((w@.len() - start.len()) as nat));
                }
                assert(w@ =~= start + blank((w@.len() - start.len()) as nat));
            },
            Packet::Bytes(b) => {
                while b.len() < len
                    invariant
                        start == old(self).units(),
                        b@.len() <= len || b@.len() == start.len(),
                        widen(b@) == start + blank((b@.len() - start.len()) as nat),
                        b@.len() >= start.len(),
                    decreases len - b@.len(),
                {
                    let ghost before = b@;
                    b.push(0);
                    assert(widen(b@) =~= widen(before).push(0u32));
                    assert(start + blank((b@.len() - start.len()) as nat) =~= (start + blank(
                        (before.len() - start.len()) as nat,
                    )).push(0u32));
                }
            },
        }
        proof {
            if old(self).units().len() >= len {
                assert(self.units() =~= old(self).units());
            }
        }
    }

    /// Sets every unit to zero.
    pub fn clear(&mut self)
        ensures
            final(self).kind() == old(self).kind(),
            final(self).units() == blank(old(self).units().len()),
    {
        match self {
            Packet::Ump(w) => clear_words(w),
            Packet::Bytes(b) => {
                let n = b.len();
                let mut i: usize = 0;
                while i < n
                    invariant
                        n == b@.len(),
                        i <= n,
                        forall|j: int| 0 <= j < i ==> b@[j] == 0,
                    decreases n - i,
                {
                    b.set(i, 0);
                    i = i + 1;
                }
                assert(widen(b@) =~= blank(n as nat));
            },
        }
    }

    /// Reads field `f`, its unit index moved by `offset`.
    pub fn read_field(&self, f: Field, offset: usize) -> (r: u32)
        requires
            offset + f.index < self.units().len(),
            f.shift < 32,
        ensures
            r == field_value(self.units(), f, offset as int),
    {
        match self {
            Packet::Ump(v) => read_word_field(v.as_slice(), f, offset),
            Packet::Bytes(v) => read_byte_field(v.as_slice(), f, offset),
        }
    }

    /// Writes `v` into field `f`, its unit index moved by `offset`; every
    /// other bit of the packet is kept.
    pub fn write_field(&mut self, f: Field, offset: usize, v: u32)
        requires
            offset + f.index < old(self).units().len(),
            f.ok_for(old(self).kind()),
        ensures
            final(self).kind() == old(self).kind(),
            final(self).units() == with_field(old(self).units(), f, offset as int, v),
    {
        match self {
            Packet::Ump(w) => write_word_field(w, f, offset, v),
            Packet::Bytes(b) => write_byte_field(b, f, offset, v),
        }
    }
}

/// A field reads back the value last written to it.
pub proof fn lemma_read_written(units: Seq<u32>, f: Field, offset: int, v: u32)
    requires
        0 <= offset + f.index < units.len(),
        layout_ok(f.mask, f.shift),
        fits(v, f.mask, f.shift),
    ensures
        field_value(with_field(units, f, offset, v), f, offset) == v,
{
    lemma_get_set_same(units[offset + f.index], f.mask, f.shift, v);
}

/// Writing one field leaves every disjoint field's value unchanged.
pub proof fn lemma_write_keeps_other(units: Seq<u32>, f: Field, g: Field, offset: int, v: u32)
    requires
        0 <= offset + f.index < units.len(),
        0 <= offset + g.index < units.len(),
        f.shift < 32,
        g.shift < 32,
        f.disjoint(g),
    ensures
        field_value(with_field(units, f, offset, v), g, offset) == field_value(units, g, offset),
{
    if f.index == g.index {
        lemma_get_set_disjoint(units[offset + f.index], f.mask, f.shift, v, g.mask, g.shift);
    }
}

/// A buffer of `len` zero units.
pub open spec fn blank(len: nat) -> Seq<u32> {
    Seq::new(len, |i: int| 0u32)
}

/// Sets every word of `words` to zero.
pub fn clear_words(words: &mut Vec<u32>)
    ensures
        final(words)@ == blank(old(words)@.len()),
{
    let n = words.len();
    let mut i: usize = 0;
    while i < n
        invariant
            n == words@.len(),
            n == old(words)@.len(),
            i <= n,
            forall|j: int| 0 <= j < i ==> words@[j] == 0,
        decreases n - i,
    {
        words.set(i, 0);
        i = i + 1;
    }
    assert(words@ =~= blank(n as nat));
}

} // verus!
