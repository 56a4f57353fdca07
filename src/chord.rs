//! Field domains of the chord-name record.
use vstd::prelude::*;
use crate::error::{Error, FieldKind};

verus! {

/// Accidental of a note.
#[derive(Debug, Clone, Copy, PartialEq, Eq, Structural)]
pub enum SharpsFlats {
    DoubleSharp,
    Sharp,
    Natural,
    Flat,
    DoubleFlat,
}

impl SharpsFlats {
    /// The 4-bit wire code (two's complement of the number of sharps).
    pub open spec fn code(self) -> u8 {
        match self {
            SharpsFlats::DoubleSharp => 0x2,
            SharpsFlats::Sharp => 0x1,
            SharpsFlats::Natural => 0x0,
            SharpsFlats::Flat => 0xF,
            SharpsFlats::DoubleFlat => 0xE,
        }
    }

    pub open spec fn is_code(n: u8) -> bool {
        n == 0x0 || n == 0x1 || n == 0x2 || n == 0xE || n == 0xF
    }

    /// Decodes a nibble; reserved codes are rejected.
    pub fn from_nibble(nibble: u8) -> (r: Result<SharpsFlats, Error>)
        ensures
            r.is_ok() <==> Self::is_code(nibble),
            r matches Ok(s) ==> s.code() == nibble,
            r matches Err(e) ==> e == Error::InvalidFieldValue(FieldKind::SharpsFlats),
    {
        match nibble {
            0x2 => Ok(SharpsFlats::DoubleSharp),
            0x1 => Ok(SharpsFlats::Sharp),
            0x0 => Ok(SharpsFlats::Natural),
            0xF => Ok(SharpsFlats::Flat),
            0xE => Ok(SharpsFlats::DoubleFlat),
            _ => Err(Error::InvalidFieldValue(FieldKind::SharpsFlats)),
        }
    }

    pub fn into_nibble(self) -> (r: u8)
        ensures
            r == self.code(),
            Self::is_code(r),
    {
        match self {
            SharpsFlats::DoubleSharp => 0x2,
            SharpsFlats::Sharp => 0x1,
            SharpsFlats::Natural => 0x0,
            SharpsFlats::Flat => 0xF,
            SharpsFlats::DoubleFlat => 0xE,
        }
    }
}

impl Default for SharpsFlats {
    fn default() -> (r: Self)
        ensures
            r == SharpsFlats::Natural,
    {
        SharpsFlats::Natural
    }
}

/// Note letter of a tonic or bass note.
#[derive(Debug, Clone, Copy, PartialEq, Eq, Structural)]
pub enum Tonic {
    NonStandard,
    A,
    B,
    C,
    D,
    E,
    F,
    G,
}

impl Tonic {
    /// The 4-bit wire code: 0 for a non-standard note, 1 to 7 for A to G.
    pub open spec fn code(self) -> u8 {
        match self {
            Tonic::NonStandard => 0x0,
            Tonic::A => 0x1,
            Tonic::B => 0x2,
            Tonic::C => 0x3,
            Tonic::D => 0x4,
            Tonic::E => 0x5,
            Tonic::F => 0x6,
            Tonic::G => 0x7,
        }
    }

    /// Decodes a nibble; codes above 7 are rejected.
    pub fn from_nibble(nibble: u8) -> (r: Result<Tonic, Error>)
        ensures
            r.is_ok() <==> nibble <= 0x7,
            r matches Ok(t) ==> t.code() == nibble,
            r matches Err(e) ==> e == Error::InvalidFieldValue(FieldKind::Tonic),
    {
        match nibble {
            0x0 => Ok(Tonic::NonStandard),
            0x1 => Ok(Tonic::A),
            0x2 => Ok(Tonic::B),
            0x3 => Ok(Tonic::C),
            0x4 => Ok(Tonic::D),
            0x5 => Ok(Tonic::E),
            0x6 => Ok(Tonic::F),
            0x7 => Ok(Tonic::G),
            _ => Err(Error::InvalidFieldValue(FieldKind::Tonic)),
        }
    }

    pub fn into_nibble(self) -> (r: u8)
        ensures
            r == self.code(),
            r <= 0x7,
    {
        match self {
            Tonic::NonStandard => 0x0,
            Tonic::A => 0x1,
            Tonic::B => 0x2,
            Tonic::C => 0x3,
            Tonic::D => 0x4,
            Tonic::E => 0x5,
            Tonic::F => 0x6,
            Tonic::G => 0x7,
        }
    }
}

/// Quality of a chord.
#[derive(Debug, Clone, Copy, PartialEq, Eq, Structural)]
pub enum ChordType {
    ClearChord,
    Major,
    Major6th,
    Major7th,
    Major9th,
    Major11th,
    Major13th,
    Minor,
    Minor6th,
    Minor7th,
    Minor9th,
    Minor11th,
    Minor13th,
    Dominant,
    Dominant9th,
    Dominant11th,
    Dominant13th,
    Augmented,
    Augmented7th,
    Diminished,
    Diminished7th,
    HalfDiminished,
    MajorMinor,
    Pedal,
    Power,
    Suspended2nd,
    Suspended4th,
}

impl ChordType {
    /// The 8-bit wire code; the codes run from 0x00 to 0x1A in declaration order.
    pub open spec fn code(self) -> u8 {
        match self {
            ChordType::ClearChord => 0x00,
            ChordType::Major => 0x01,
            ChordType::Major6th => 0x02,
            ChordType::Major7th => 0x03,
            ChordType::Major9th => 0x04,
            ChordType::Major11th => 0x05,
            ChordType::Major13th => 0x06,
            ChordType::Minor => 0x07,
            ChordType::Minor6th => 0x08,
            ChordType::Minor7th => 0x09,
            ChordType::Minor9th => 0x0A,
            ChordType::Minor11th => 0x0B,
            ChordType::Minor13th => 0x0C,
            ChordType::Dominant => 0x0D,
            ChordType::Dominant9th => 0x0E,
            ChordType::Dominant11th => 0x0F,
            ChordType::Dominant13th => 0x10,
            ChordType::Augmented => 0x11,
            ChordType::Augmented7th => 0x12,
            ChordType::Diminished => 0x13,
            ChordType::Diminished7th => 0x14,
            ChordType::HalfDiminished => 0x15,
            ChordType::MajorMinor => 0x16,
            ChordType::Pedal => 0x17,
            ChordType::Power => 0x18,
            ChordType::Suspended2nd => 0x19,
            ChordType::Suspended4th => 0x1A,
        }
    }

    /// Decodes an octet; codes above 0x1A are rejected.
    pub fn from_octet(octet: u8) -> (r: Result<ChordType, Error>)
        ensures
            r.is_ok() <==> octet <= 0x1A,
            r matches Ok(c) ==> c.code() == octet,
            r matches Err(e) ==> e == Error::InvalidFieldValue(FieldKind::ChordType),
    {
        match octet {
            0x00 => Ok(ChordType::ClearChord),
            0x01 => Ok(ChordType::Major),
            0x02 => Ok(ChordType::Major6th),
            0x03 => Ok(ChordType::Major7th),
            0x04 => Ok(ChordType::Major9th),
            0x05 => Ok(ChordType::Major11th),
            0x06 => Ok(ChordType::Major13th),
            0x07 => Ok(ChordType::Minor),
            0x08 => Ok(ChordType::Minor6th),
            0x09 => Ok(ChordType::Minor7th),
            0x0A => Ok(ChordType::Minor9th),
            0x0B => Ok(ChordType::Minor11th),
            0x0C => Ok(ChordType::Minor13th),
            0x0D => Ok(ChordType::Dominant),
            0x0E => Ok(ChordType::Dominant9th),
            0x0F => Ok(ChordType::Dominant11th),
            0x10 => Ok(ChordType::Dominant13th),
            0x11 => Ok(ChordType::Augmented),
            0x12 => Ok(ChordType::Augmented7th),
            0x13 => Ok(ChordType::Diminished),
            0x14 => Ok(ChordType::Diminished7th),
            0x15 => Ok(ChordType::HalfDiminished),
            0x16 => Ok(ChordType::MajorMinor),
            0x17 => Ok(ChordType::Pedal),
            0x18 => Ok(ChordType::Power),
            0x19 => Ok(ChordType::Suspended2nd),
            0x1A => Ok(ChordType::Suspended4th),
            _ => Err(Error::InvalidFieldValue(FieldKind::ChordType)),
        }
    }

    pub fn into_octet(self) -> (r: u8)
        ensures
            r == self.code(),
            r <= 0x1A,
    {
        match self {
            ChordType::ClearChord => 0x00,
            ChordType::Major => 0x01,
            ChordType::Major6th => 0x02,
            ChordType::Major7th => 0x03,
            ChordType::Major9th => 0x04,
            ChordType::Major11th => 0x05,
            ChordType::Major13th => 0x06,
            ChordType::Minor => 0x07,
            ChordType::Minor6th => 0x08,
            ChordType::Minor7th => 0x09,
            ChordType::Minor9th => 0x0A,
            ChordType::Minor11th => 0x0B,
            ChordType::Minor13th => 0x0C,
            ChordType::Dominant => 0x0D,
            ChordType::Dominant9th => 0x0E,
            ChordType::Dominant11th => 0x0F,
            ChordType::Dominant13th => 0x10,
            ChordType::Augmented => 0x11,
            ChordType::Augmented7th => 0x12,
            ChordType::Diminished => 0x13,
            ChordType::Diminished7th => 0x14,
            ChordType::HalfDiminished => 0x15,
            ChordType::MajorMinor => 0x16,
            ChordType::Pedal => 0x17,
            ChordType::Power => 0x18,
            ChordType::Suspended2nd => 0x19,
            ChordType::Suspended4th => 0x1A,
        }
    }
}

impl Default for ChordType {
    fn default() -> (r: Self)
        ensures
            r == ChordType::ClearChord,
    {
        ChordType::ClearChord
    }
}

/// An alteration of a chord degree; each carries a 4-bit degree.
#[derive(Debug, Clone, Copy, PartialEq, Eq, Structural)]
pub enum Alteration {
    Add(u8),
    Subtract(u8),
    Raise(u8),
    Lower(u8),
}

impl Alteration {
    pub open spec fn degree(self) -> u8 {
        match self {
            Alteration::Add(d) => d,
            Alteration::Subtract(d) => d,
            Alteration::Raise(d) => d,
            Alteration::Lower(d) => d,
        }
    }

    /// The kind nibble: 1 add, 2 subtract, 3 raise, 4 lower.
    pub open spec fn kind_code(self) -> u8 {
        match self {
            Alteration::Add(_) => 0x1,
            Alteration::Subtract(_) => 0x2,
            Alteration::Raise(_) => 0x3,
            Alteration::Lower(_) => 0x4,
        }
    }

    /// The degree fits in a nibble.
    pub open spec fn wf(self) -> bool {
        self.degree() < 16
    }
}

/// An optional alteration is well formed when absent or when its degree fits.
pub open spec fn alteration_wf(a: Option<Alteration>) -> bool {
    a matches Some(x) ==> x.wf()
}

/// The wire octet of an optional alteration: zero when absent, else the kind
/// in the high nibble and the degree in the low nibble.
pub open spec fn alteration_code(a: Option<Alteration>) -> u8 {
    match a {
        None => 0,
        Some(x) => (x.kind_code() * 16 + x.degree()) as u8,
    }
}

/// `a` is what octet `o` decodes to: absent for a zero kind nibble, else the
/// alteration whose code is `o`.
pub open spec fn alteration_decodes(a: Option<Alteration>, o: u8) -> bool {
    &&& alteration_wf(a)
    &&& (a.is_none() <==> o / 16 == 0)
    &&& (a is Some ==> alteration_code(a) == o)
}

/// Decodes an alteration octet: a zero kind nibble means absent, kinds above
/// 4 are rejected.
pub fn alteration_from_octet(octet: u8) -> (r: Result<Option<Alteration>, Error>)
    ensures
        r.is_ok() <==> octet / 16 <= 4,
        r matches Ok(a) ==> alteration_decodes(a, octet),
        r matches Err(e) ==> e == Error::InvalidFieldValue(FieldKind::Alteration),
{
    let kind = octet / 16;
    let degree = octet % 16;
    match kind {
        0x0 => Ok(None),
        0x1 => Ok(Some(Alteration::Add(degree))),
        0x2 => Ok(Some(Alteration::Subtract(degree))),
        0x3 => Ok(Some(Alteration::Raise(degree))),
        0x4 => Ok(Some(Alteration::Lower(degree))),
        _ => Err(Error::InvalidFieldValue(FieldKind::Alteration)),
    }
}

pub fn alteration_into_octet(alteration: Option<Alteration>) -> (r: u8)
    requires
        alteration_wf(alteration),
    ensures
        r == alteration_code(alteration),
        r / 16 <= 4,
{
    match alteration {
        None => 0x0,
        Some(Alteration::Add(degree)) => 0x10 + degree,
        Some(Alteration::Subtract(degree)) => 0x20 + degree,
        Some(Alteration::Raise(degree)) => 0x30 + degree,
        Some(Alteration::Lower(degree)) => 0x40 + degree,
    }
}

/// The wire code of an accidental determines it.
pub proof fn lemma_sharps_flats_code(a: SharpsFlats, b: SharpsFlats)
    requires
        a.code() == b.code(),
    ensures
        a == b,
{
}

/// The wire code of a note determines it.
pub proof fn lemma_tonic_code(a: Tonic, b: Tonic)
    requires
        a.code() == b.code(),
    ensures
        a == b,
{
}

/// The wire code of a chord type determines it.
pub proof fn lemma_chord_type_code(a: ChordType, b: ChordType)
    requires
        a.code() == b.code(),
    ensures
        a == b,
{
}

/// Sentinel optionality: the octet of an absent alteration decodes to
/// absence, and the octet of each present alteration decodes to the same
/// kind and degree.
pub proof fn lemma_alteration_round_trip(a: Option<Alteration>, decoded: Option<Alteration>)
    requires
        alteration_wf(a),
        alteration_decodes(decoded, alteration_code(a)),
    ensures
        decoded == a,
{
}

} // verus!
