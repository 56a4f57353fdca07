use midi2::error::{Discriminant, Error};
use midi2::song_select::Message;

#[test]
fn deserialize() {
    assert_eq!(
        Message::from_data(&[0x17F3_3000]),
        Ok(Message { group: 0x7, song: 0x30 }),
    );
}

#[test]
fn serialize() {
    assert_eq!(Message { group: 0x5, song: 0x01 }.to_data(), vec![0x15F3_0100]);
}

#[test]
fn song_select_round_trip() {
    let m = Message { group: 0xF, song: 0x7F };
    assert_eq!(m.to_data(), vec![0x1FF3_7F00]);
    assert_eq!(Message::from_data(&m.to_data()), Ok(m));
}

#[test]
fn song_select_errors() {
    assert_eq!(Message::from_data(&[]), Err(Error::BufferTooShort));
    assert_eq!(
        Message::from_data(&[0x27F3_3000]),
        Err(Error::InvalidDiscriminant(Discriminant::PacketType)),
    );
    assert_eq!(
        Message::from_data(&[0x17F2_3000]),
        Err(Error::InvalidDiscriminant(Discriminant::Status)),
    );
}
