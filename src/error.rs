//! Errors of parsing and building messages.
use vstd::prelude::*;

verus! {

/// The level of a layered discriminant.
#[derive(Debug, Clone, Copy, PartialEq, Eq, Structural)]
pub enum Discriminant {
    PacketType,
    Format,
    Bank,
    Status,
}

/// A field whose wire code lies outside its domain.
#[derive(Debug, Clone, Copy, PartialEq, Eq, Structural)]
pub enum FieldKind {
    SharpsFlats,
    Tonic,
    ChordType,
    Alteration,
    JitterReduction,
}

#[derive(Debug, Clone, Copy, PartialEq, Eq, Structural)]
pub enum Error {
    /// The buffer holds fewer units than the message needs.
    BufferTooShort,
    /// A fixed-constant field did not hold its constant.
    InvalidDiscriminant(Discriminant),
    /// A variable field holds a reserved or undefined code.
    InvalidFieldValue(FieldKind),
    /// Dispatch found no message shape for the code at this level.
    UnknownVariant(Discriminant),
}

} // verus!
