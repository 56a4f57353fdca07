use midi2::error::{Discriminant, Error};
use midi2::midi1_channel_voice::{Midi1ChannelVoice, ProgramChangeMessage};
use midi2::packet::Packet;

#[test]
fn mod_channel() {
    assert_eq!(
        Midi1ChannelVoice::from_data(Packet::Ump(vec![0x2FD6_0900])).unwrap().channel(),
        0x6,
    );
}

#[test]
fn program_change_builder() {
    let m = ProgramChangeMessage::builder(Packet::Ump(vec![0x1111_1111, 0x2222_2222, 0x3, 0x4]))
        .group(0x4)
        .channel(0x7)
        .program(0x63)
        .build()
        .unwrap();
    assert_eq!(m.data(), &Packet::Ump(vec![0x24C7_6300, 0x0, 0x0, 0x0]));
}

#[test]
fn program_change_group() {
    assert_eq!(
        ProgramChangeMessage::from_data(Packet::Ump(vec![0x24C7_6300, 0x0, 0x0, 0x0]))
            .unwrap()
            .group(),
        0x4,
    );
}

#[test]
fn program_change_channel() {
    assert_eq!(
        ProgramChangeMessage::from_data(Packet::Ump(vec![0x24C7_6300, 0x0, 0x0, 0x0]))
            .unwrap()
            .channel(),
        0x7,
    );
}

#[test]
fn program() {
    assert_eq!(
        ProgramChangeMessage::from_data(Packet::Ump(vec![0x24C7_6300, 0x0, 0x0, 0x0]))
            .unwrap()
            .program(),
        0x63,
    );
}

#[test]
fn builder_bytes() {
    let m = ProgramChangeMessage::builder(Packet::Bytes(vec![0x5A, 0xA5, 0xFF]))
        .channel(0x7)
        .program(0x63)
        .build()
        .unwrap();
    assert_eq!(m.data(), &Packet::Bytes(vec![0xC7, 0x63, 0x00]));
}

#[test]
fn channel_bytes() {
    assert_eq!(
        ProgramChangeMessage::from_data(Packet::Bytes(vec![0xC7, 0x63, 0x00])).unwrap().channel(),
        0x7,
    );
}

#[test]
fn program_bytes() {
    assert_eq!(
        ProgramChangeMessage::from_data(Packet::Bytes(vec![0xC7, 0x63, 0x00])).unwrap().program(),
        0x63,
    );
}

#[test]
fn program_change_byte_form_has_no_group() {
    let m = ProgramChangeMessage::builder(Packet::Bytes(vec![0x0, 0x0]))
        .group(0x9)
        .channel(0x2)
        .program(0x10)
        .build()
        .unwrap();
    assert_eq!(m.data(), &Packet::Bytes(vec![0xC2, 0x10]));
    assert_eq!(m.group(), 0x0);
}

#[test]
fn program_change_too_short() {
    assert_eq!(
        ProgramChangeMessage::builder(Packet::Bytes(vec![0x0])).program(0x1).build().err(),
        Some(Error::BufferTooShort),
    );
    assert_eq!(
        ProgramChangeMessage::builder(Packet::Ump(vec![])).build().err(),
        Some(Error::BufferTooShort),
    );
    assert_eq!(
        ProgramChangeMessage::from_data(Packet::Bytes(vec![0xC7])).err(),
        Some(Error::BufferTooShort),
    );
}

#[test]
fn program_change_wrong_discriminants() {
    assert_eq!(
        ProgramChangeMessage::from_data(Packet::Ump(vec![0x34C7_6300])).err(),
        Some(Error::InvalidDiscriminant(Discriminant::PacketType)),
    );
    assert_eq!(
        ProgramChangeMessage::from_data(Packet::Bytes(vec![0xB7, 0x63, 0x00])).err(),
        Some(Error::InvalidDiscriminant(Discriminant::Status)),
    );
}

#[test]
fn dispatch_byte_form() {
    let m = Midi1ChannelVoice::from_data(Packet::Bytes(vec![0x93, 0x40, 0x7F])).unwrap();
    assert!(matches!(m, Midi1ChannelVoice::NoteOn(_)));
    assert_eq!(m.channel(), 0x3);
    assert_eq!(m.group(), 0x0);
    let m = Midi1ChannelVoice::from_data(Packet::Bytes(vec![0xC5, 0x01])).unwrap();
    assert!(matches!(m, Midi1ChannelVoice::ProgramChange(_)));
}

#[test]
fn dispatch_every_status() {
    let cases: [(u32, fn(&Midi1ChannelVoice) -> bool); 7] = [
        (0x8, |m| matches!(m, Midi1ChannelVoice::NoteOff(_))),
        (0x9, |m| matches!(m, Midi1ChannelVoice::NoteOn(_))),
        (0xA, |m| matches!(m, Midi1ChannelVoice::KeyPressure(_))),
        (0xB, |m| matches!(m, Midi1ChannelVoice::ControlChange(_))),
        (0xC, |m| matches!(m, Midi1ChannelVoice::ProgramChange(_))),
        (0xD, |m| matches!(m, Midi1ChannelVoice::ChannelPressure(_))),
        (0xE, |m| matches!(m, Midi1ChannelVoice::PitchBend(_))),
    ];
    for (status, is_variant) in cases {
        let m = Midi1ChannelVoice::from_data(Packet::Ump(vec![0x2500_0000 | (status << 20) | 0x4_0000]))
            .unwrap();
        assert!(is_variant(&m));
        assert_eq!(m.group(), 0x5);
        assert_eq!(m.channel(), 0x4);
    }
}

#[test]
fn dispatch_unknown_codes() {
    assert_eq!(
        Midi1ChannelVoice::from_data(Packet::Ump(vec![0x4FD6_0900])).err(),
        Some(Error::UnknownVariant(Discriminant::PacketType)),
    );
    assert_eq!(
        Midi1ChannelVoice::from_data(Packet::Ump(vec![0x2F76_0900])).err(),
        Some(Error::UnknownVariant(Discriminant::Status)),
    );
    assert_eq!(
        Midi1ChannelVoice::from_data(Packet::Bytes(vec![0xF0, 0x00, 0x00])).err(),
        Some(Error::UnknownVariant(Discriminant::Status)),
    );
    assert_eq!(
        Midi1ChannelVoice::from_data(Packet::Bytes(vec![])).err(),
        Some(Error::BufferTooShort),
    );
    assert_eq!(
        Midi1ChannelVoice::from_data(Packet::Bytes(vec![0x90, 0x40])).err(),
        Some(Error::BufferTooShort),
    );
}

#[test]
fn dispatch_set_group() {
    let mut m = Midi1ChannelVoice::from_data(Packet::Ump(vec![0x2FD6_0900])).unwrap();
    m.set_group(0x2);
    assert_eq!(m.group(), 0x2);
    assert_eq!(m.channel(), 0x6);
}
