use midi2::chord::{Alteration, ChordType, SharpsFlats, Tonic};
use midi2::error::{Discriminant, Error, FieldKind};
use midi2::set_chord_name::{JitterReduction, SetChordName};

#[test]
fn setters() {
    let mut message = SetChordName::new();
    message.set_jitter_reduction(Some(JitterReduction::Timestamp(0x1234)));
    message.set_group(0x7);
    message.set_optional_channel(Some(0xB));
    message.set_tonic_sharps_flats(SharpsFlats::Flat);
    message.set_tonic(Tonic::G);
    message.set_chord_type(ChordType::Major7th);
    message.set_chord_alteration1(Some(Alteration::Raise(0x5)));
    message.set_chord_alteration2(Some(Alteration::Add(0x9)));
    message.set_chord_alteration3(Some(Alteration::Lower(0xB)));
    message.set_chord_alteration4(None);
    message.set_bass_sharps_flats(SharpsFlats::Sharp);
    message.set_bass_note(Tonic::A);
    message.set_bass_chord_type(ChordType::Minor9th);
    message.set_bass_alteration1(None);
    message.set_bass_alteration2(Some(Alteration::Subtract(0x0)));
    assert_eq!(
        message.data(),
        &[0x0020_1234, 0xD70B_0006, 0xF703_3519, 0x4B00_0000, 0x110A_0020],
    );
}

#[test]
fn set_chord_name_channel() {
    assert_eq!(
        SetChordName::from_data(&[0xD70B_0006, 0xF703_3519, 0x4B00_0000, 0x110A_0020]).unwrap().optional_channel(),
        Some(0xB),
    );
}

#[test]
fn tonic_sharps_flats() {
    assert_eq!(
        SetChordName::from_data(&[0xD70B_0006, 0xF703_3519, 0x4B00_0000, 0x110A_0020]).unwrap().tonic_sharps_flats(),
        SharpsFlats::Flat,
    );
}

#[test]
fn tonic() {
    assert_eq!(
        SetChordName::from_data(&[0xD70B_0006, 0xF703_3519, 0x4B00_0000, 0x110A_0020]).unwrap().tonic(),
        Tonic::G,
    );
}

#[test]
fn chord_type() {
    assert_eq!(
        SetChordName::from_data(&[0xD70B_0006, 0xF703_3519, 0x4B00_0000, 0x110A_0020]).unwrap().chord_type(),
        ChordType::Major7th,
    );
}

#[test]
fn chord_alteration1() {
    assert_eq!(
        SetChordName::from_data(&[0xD70B_0006, 0xF703_3519, 0x4B00_0000, 0x110A_0020]).unwrap().chord_alteration1(),
        Some(Alteration::Raise(0x5)),
    );
}

#[test]
fn chord_alteration2() {
    assert_eq!(
        SetChordName::from_data(&[0xD70B_0006, 0xF703_3519, 0x4B00_0000, 0x110A_0020]).unwrap().chord_alteration2(),
        Some(Alteration::Add(0x9)),
    );
}

#[test]
fn chord_alteration3() {
    assert_eq!(
        SetChordName::from_data(&[0xD70B_0006, 0xF703_3519, 0x4B00_0000, 0x110A_0020]).unwrap().chord_alteration3(),
        Some(Alteration::Lower(0xB)),
    );
}

#[test]
fn chord_alteration4() {
    assert_eq!(
        SetChordName::from_data(&[0xD70B_0006, 0xF703_3519, 0x4B00_0000, 0x110A_0020]).unwrap().chord_alteration4(),
        None,
    );
}

#[test]
fn bass_sharps_flats() {
    assert_eq!(
        SetChordName::from_data(&[0xD70B_0006, 0xF703_3519, 0x4B00_0000, 0x110A_0020]).unwrap().bass_sharps_flats(),
        SharpsFlats::Sharp,
    );
}

#[test]
fn bass_note() {
    assert_eq!(
        SetChordName::from_data(&[0xD70B_0006, 0xF703_3519, 0x4B00_0000, 0x110A_0020]).unwrap().bass_note(),
        Tonic::A,
    );
}

#[test]
fn bass_chord_type() {
    assert_eq!(
        SetChordName::from_data(&[0xD70B_0006, 0xF703_3519, 0x4B00_0000, 0x110A_0020]).unwrap().bass_chord_type(),
        ChordType::Minor9th,
    );
}

#[test]
fn bass_alteration1() {
    assert_eq!(
        SetChordName::from_data(&[0xD70B_0006, 0xF703_3519, 0x4B00_0000, 0x110A_0020]).unwrap().bass_alteration1(),
        None,
    );
}

#[test]
fn bass_alteration2() {
    assert_eq!(
        SetChordName::from_data(&[0xD70B_0006, 0xF703_3519, 0x4B00_0000, 0x110A_0020]).unwrap().bass_alteration2(),
        Some(Alteration::Subtract(0x0)),
    );
}

#[test]
fn no_jitter_reduction() {
    assert_eq!(
        SetChordName::from_data(&[0xD70B_0006, 0xF703_3519, 0x4B00_0000, 0x110A_0020]).unwrap().jitter_reduction(),
        None,
    );
}

#[test]
fn jitter_reduction() {
    assert_eq!(
        SetChordName::from_data(&[0x0020_1234, 0xD70B_0006, 0xF703_3519, 0x4B00_0000, 0x110A_0020])
            .unwrap()
            .jitter_reduction(),
        Some(JitterReduction::Timestamp(0x1234)),
    );
}

#[test]
fn chord_name_scenario_decodes_every_field() {
    let m = SetChordName::from_data(&[
        0x0020_1234,
        0xD70B_0006,
        0xF703_3519,
        0x4B00_0000,
        0x110A_0020,
    ])
    .unwrap();
    assert_eq!(m.jitter_reduction(), Some(JitterReduction::Timestamp(0x1234)));
    assert_eq!(m.group(), 0x7);
    assert_eq!(m.optional_channel(), Some(0xB));
    assert_eq!(m.tonic_sharps_flats(), SharpsFlats::Flat);
    assert_eq!(m.tonic(), Tonic::G);
    assert_eq!(m.chord_type(), ChordType::Major7th);
    assert_eq!(m.chord_alteration1(), Some(Alteration::Raise(0x5)));
    assert_eq!(m.chord_alteration2(), Some(Alteration::Add(0x9)));
    assert_eq!(m.chord_alteration3(), Some(Alteration::Lower(0xB)));
    assert_eq!(m.chord_alteration4(), None);
    assert_eq!(m.bass_sharps_flats(), SharpsFlats::Sharp);
    assert_eq!(m.bass_note(), Tonic::A);
    assert_eq!(m.bass_chord_type(), ChordType::Minor9th);
    assert_eq!(m.bass_alteration1(), None);
    assert_eq!(m.bass_alteration2(), Some(Alteration::Subtract(0x0)));
}

#[test]
fn chord_name_new_is_blank_with_noop_prefix() {
    let m = SetChordName::new();
    assert_eq!(m.data(), &[0x0000_0000, 0xD000_0006, 0x0, 0x0, 0x0]);
    assert_eq!(m.jitter_reduction(), None);
    assert_eq!(m.optional_channel(), Some(0x0));
    assert_eq!(m.tonic_sharps_flats(), SharpsFlats::Natural);
    assert_eq!(m.chord_type(), ChordType::ClearChord);
    assert_eq!(m.chord_alteration1(), None);
}

#[test]
fn chord_name_prefix_inserted_when_absent() {
    let mut m =
        SetChordName::from_data(&[0xD70B_0006, 0xF703_3519, 0x4B00_0000, 0x110A_0020]).unwrap();
    m.set_jitter_reduction(Some(JitterReduction::Clock(0xBEEF)));
    assert_eq!(
        m.data(),
        &[0x0010_BEEF, 0xD70B_0006, 0xF703_3519, 0x4B00_0000, 0x110A_0020],
    );
    assert_eq!(m.jitter_reduction(), Some(JitterReduction::Clock(0xBEEF)));
    assert_eq!(m.tonic(), Tonic::G);
    m.set_jitter_reduction(None);
    assert_eq!(m.jitter_reduction(), None);
    assert_eq!(m.data()[0], 0);
    assert_eq!(m.bass_note(), Tonic::A);
}

#[test]
fn chord_name_prefix_leaves_fields_alone() {
    let plain =
        SetChordName::from_data(&[0xD70B_0006, 0xF703_3519, 0x4B00_0000, 0x110A_0020]).unwrap();
    let prefixed = SetChordName::from_data(&[
        0x0020_1234,
        0xD70B_0006,
        0xF703_3519,
        0x4B00_0000,
        0x110A_0020,
    ])
    .unwrap();
    assert_eq!(plain.jitter_reduction(), None);
    assert_eq!(prefixed.jitter_reduction(), Some(JitterReduction::Timestamp(0x1234)));
    assert_eq!(plain.group(), prefixed.group());
    assert_eq!(plain.chord_type(), prefixed.chord_type());
    assert_eq!(plain.chord_alteration3(), prefixed.chord_alteration3());
    assert_eq!(plain.bass_alteration2(), prefixed.bass_alteration2());
}

#[test]
fn chord_name_setter_keeps_other_fields() {
    let mut m =
        SetChordName::from_data(&[0xD70B_0006, 0xF703_3519, 0x4B00_0000, 0x110A_0020]).unwrap();
    m.set_chord_type(ChordType::Suspended4th);
    assert_eq!(m.chord_type(), ChordType::Suspended4th);
    assert_eq!(m.tonic(), Tonic::G);
    assert_eq!(m.tonic_sharps_flats(), SharpsFlats::Flat);
    assert_eq!(m.chord_alteration1(), Some(Alteration::Raise(0x5)));
    assert_eq!(m.chord_alteration2(), Some(Alteration::Add(0x9)));
    assert_eq!(m.data(), &[0xD70B_0006, 0xF71A_3519, 0x4B00_0000, 0x110A_0020]);
}

#[test]
fn chord_name_group_address() {
    let mut m =
        SetChordName::from_data(&[0xD70B_0006, 0xF703_3519, 0x4B00_0000, 0x110A_0020]).unwrap();
    m.set_optional_channel(None);
    assert_eq!(m.optional_channel(), None);
    assert_eq!(m.data()[0], 0xD71B_0006);
    m.set_optional_channel(Some(0x2));
    assert_eq!(m.optional_channel(), Some(0x2));
    assert_eq!(m.group(), 0x7);
}

#[test]
fn chord_name_every_alteration_round_trips() {
    let mut m = SetChordName::new();
    let cases = [
        None,
        Some(Alteration::Add(0x0)),
        Some(Alteration::Subtract(0xF)),
        Some(Alteration::Raise(0x7)),
        Some(Alteration::Lower(0x1)),
    ];
    for a in cases {
        m.set_bass_alteration1(a);
        assert_eq!(m.bass_alteration1(), a);
        assert_eq!(m.chord_type(), ChordType::ClearChord);
    }
}

#[test]
fn chord_name_too_short() {
    assert_eq!(
        SetChordName::from_data(&[0xD70B_0006, 0xF703_3519, 0x4B00_0000]).err(),
        Some(Error::BufferTooShort),
    );
    assert_eq!(
        SetChordName::from_data(&[0x0020_1234, 0xD70B_0006, 0xF703_3519, 0x4B00_0000]).err(),
        Some(Error::BufferTooShort),
    );
    assert_eq!(SetChordName::from_data(&[]).err(), Some(Error::BufferTooShort));
}

#[test]
fn chord_name_discriminant_flips_rejected() {
    let good = [0xD70B_0006u32, 0xF703_3519, 0x4B00_0000, 0x110A_0020];
    for bit in 28..32 {
        let mut w = good;
        w[0] ^= 1 << bit;
        assert_eq!(
            SetChordName::from_data(&w).err(),
            Some(Error::InvalidDiscriminant(Discriminant::PacketType)),
        );
    }
    for bit in 22..24 {
        let mut w = good;
        w[0] ^= 1 << bit;
        assert_eq!(
            SetChordName::from_data(&w).err(),
            Some(Error::InvalidDiscriminant(Discriminant::Format)),
        );
    }
    for bit in 8..16 {
        let mut w = good;
        w[0] ^= 1 << bit;
        assert_eq!(
            SetChordName::from_data(&w).err(),
            Some(Error::InvalidDiscriminant(Discriminant::Bank)),
        );
    }
    for bit in 0..8 {
        let mut w = good;
        w[0] ^= 1 << bit;
        assert_eq!(
            SetChordName::from_data(&w).err(),
            Some(Error::InvalidDiscriminant(Discriminant::Status)),
        );
    }
}

#[test]
fn chord_name_invalid_fields() {
    assert_eq!(
        SetChordName::from_data(&[0xD70B_0006, 0x5703_3519, 0x4B00_0000, 0x110A_0020]).err(),
        Some(Error::InvalidFieldValue(FieldKind::SharpsFlats)),
    );
    assert_eq!(
        SetChordName::from_data(&[0xD70B_0006, 0xF803_3519, 0x4B00_0000, 0x110A_0020]).err(),
        Some(Error::InvalidFieldValue(FieldKind::Tonic)),
    );
    assert_eq!(
        SetChordName::from_data(&[0xD70B_0006, 0xF71B_3519, 0x4B00_0000, 0x110A_0020]).err(),
        Some(Error::InvalidFieldValue(FieldKind::ChordType)),
    );
    assert_eq!(
        SetChordName::from_data(&[0xD70B_0006, 0xF703_3519, 0x5B00_0000, 0x110A_0020]).err(),
        Some(Error::InvalidFieldValue(FieldKind::Alteration)),
    );
    assert_eq!(
        SetChordName::from_data(&[0x0030_0000, 0xD70B_0006, 0xF703_3519, 0x4B00_0000, 0x110A_0020])
            .err(),
        Some(Error::InvalidFieldValue(FieldKind::JitterReduction)),
    );
}
