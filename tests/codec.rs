use midi2::bits::{read_bits, write_bits};
use midi2::chord::{
    alteration_from_octet, alteration_into_octet, Alteration, ChordType, SharpsFlats, Tonic,
};
use midi2::error::{Error, FieldKind};
use midi2::packet::{Field, Packet, Schema, UnitKind};

#[test]
fn bits_write_keeps_neighbours() {
    let u = write_bits(0xFFFF_FFFF, 0x00F0_0000, 20, 0x3);
    assert_eq!(u, 0xFF3F_FFFF);
    assert_eq!(read_bits(u, 0x00F0_0000, 20), 0x3);
    assert_eq!(read_bits(u, 0x0F00_0000, 24), 0xF);
}

#[test]
fn packet_fields_in_both_unit_kinds() {
    let schema = Schema {
        ump: Field { index: 0, mask: 0x000F_0000, shift: 16 },
        bytes: Field { index: 0, mask: 0x0F, shift: 0 },
    };
    let mut w = Packet::Ump(vec![0x2090_0000]);
    w.write_field(schema.pick(w.unit_kind()), 0, 0xA);
    assert_eq!(w, Packet::Ump(vec![0x209A_0000]));
    let mut b = Packet::Bytes(vec![0x90, 0x40]);
    b.write_field(schema.pick(b.unit_kind()), 0, 0xA);
    assert_eq!(b, Packet::Bytes(vec![0x9A, 0x40]));
    assert_eq!(b.read_field(schema.pick(UnitKind::Byte8), 0), 0xA);
    assert_eq!(w.read_field(schema.pick(UnitKind::Word32), 0), 0xA);
}

#[test]
fn packet_offset_moves_field() {
    let f = Field { index: 0, mask: 0xFF00_0000, shift: 24 };
    let mut p = Packet::Ump(vec![0x0, 0x0]);
    p.write_field(f, 1, 0xAB);
    assert_eq!(p, Packet::Ump(vec![0x0, 0xAB00_0000]));
    p.clear();
    assert_eq!(p, Packet::Ump(vec![0x0, 0x0]));
}

#[test]
fn sharps_flats_codes() {
    assert_eq!(SharpsFlats::from_nibble(0x2), Ok(SharpsFlats::DoubleSharp));
    assert_eq!(SharpsFlats::from_nibble(0xE), Ok(SharpsFlats::DoubleFlat));
    assert_eq!(
        SharpsFlats::from_nibble(0x3),
        Err(Error::InvalidFieldValue(FieldKind::SharpsFlats)),
    );
    assert_eq!(SharpsFlats::Flat.into_nibble(), 0xF);
    assert_eq!(SharpsFlats::default(), SharpsFlats::Natural);
}

#[test]
fn tonic_codes() {
    assert_eq!(Tonic::from_nibble(0x0), Ok(Tonic::NonStandard));
    assert_eq!(Tonic::from_nibble(0x7), Ok(Tonic::G));
    assert_eq!(Tonic::from_nibble(0x8), Err(Error::InvalidFieldValue(FieldKind::Tonic)));
    assert_eq!(Tonic::C.into_nibble(), 0x3);
}

#[test]
fn chord_type_codes() {
    assert_eq!(ChordType::from_octet(0x00), Ok(ChordType::ClearChord));
    assert_eq!(ChordType::from_octet(0x1A), Ok(ChordType::Suspended4th));
    assert_eq!(
        ChordType::from_octet(0x1B),
        Err(Error::InvalidFieldValue(FieldKind::ChordType)),
    );
    assert_eq!(ChordType::HalfDiminished.into_octet(), 0x15);
    assert_eq!(ChordType::default(), ChordType::ClearChord);
}

#[test]
fn alteration_codes() {
    assert_eq!(alteration_from_octet(0x00), Ok(None));
    assert_eq!(alteration_from_octet(0x0C), Ok(None));
    assert_eq!(alteration_from_octet(0x35), Ok(Some(Alteration::Raise(0x5))));
    assert_eq!(alteration_from_octet(0x4B), Ok(Some(Alteration::Lower(0xB))));
    assert_eq!(
        alteration_from_octet(0x51),
        Err(Error::InvalidFieldValue(FieldKind::Alteration)),
    );
    assert_eq!(alteration_into_octet(None), 0x00);
    assert_eq!(alteration_into_octet(Some(Alteration::Add(0x9))), 0x19);
    assert_eq!(alteration_into_octet(Some(Alteration::Subtract(0x0))), 0x20);
}

#[test]
fn packet_ensure_len_appends_zeroes() {
    let mut p = Packet::Bytes(vec![0xC7]);
    p.ensure_len(3);
    assert_eq!(p, Packet::Bytes(vec![0xC7, 0x00, 0x00]));
    p.ensure_len(1);
    assert_eq!(p.len(), 3);
    let mut w = Packet::Ump(vec![0x1234_5678, 0x9ABC_DEF0]);
    w.ensure_len(4);
    assert_eq!(w, Packet::Ump(vec![0x1234_5678, 0x9ABC_DEF0, 0x0, 0x0]));
}
