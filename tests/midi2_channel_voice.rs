use midi2::error::{Discriminant, Error};
use midi2::midi2_channel_voice::{
    RelativeAssignableControllerBuilder, RelativeAssignableControllerMessage,
    RelativeRegisteredControllerMessage,
};

#[test]
fn relative_assignable_controller_builder() {
    let message = RelativeAssignableControllerMessage::builder(vec![0x9A3C_71E2, 0x0F0F_F0F0])
        .group(0x3)
        .channel(0x1)
        .bank(0x24)
        .index(0x52)
        .controller_data(0x898874E4)
        .build()
        .unwrap();
    assert_eq!(message.data(), &[0x4351_2452, 0x898874E4]);
}

#[test]
fn relative_assignable_controller_group() {
    assert_eq!(
        RelativeAssignableControllerMessage::from_data(&[0x4351_2452, 0x898874E4]).unwrap().group(),
        0x3,
    );
}

#[test]
fn relative_assignable_controller_channel() {
    assert_eq!(
        RelativeAssignableControllerMessage::from_data(&[0x4351_2452, 0x898874E4])
            .unwrap()
            .channel(),
        0x1,
    );
}

#[test]
fn relative_assignable_controller_bank() {
    assert_eq!(
        RelativeAssignableControllerMessage::from_data(&[0x4351_2452, 0x898874E4]).unwrap().bank(),
        0x24,
    );
}

#[test]
fn relative_assignable_controller_index() {
    assert_eq!(
        RelativeAssignableControllerMessage::from_data(&[0x4351_2452, 0x898874E4]).unwrap().index(),
        0x52,
    );
}

#[test]
fn relative_assignable_controller_controller_data() {
    assert_eq!(
        RelativeAssignableControllerMessage::from_data(&[0x4351_2452, 0x898874E4])
            .unwrap()
            .controller_data(),
        0x898874E4,
    );
}

#[test]
fn relative_registered_controller_builder() {
    let message = RelativeRegisteredControllerMessage::builder(vec![0x0, 0x0])
        .group(0x1)
        .channel(0xE)
        .bank(0x45)
        .index(0x02)
        .controller_data(0xAF525908)
        .build()
        .unwrap();
    assert_eq!(message.data(), &[0x414E_4502, 0xAF525908]);
}

#[test]
fn relative_registered_controller_group() {
    assert_eq!(
        RelativeRegisteredControllerMessage::from_data(&[0x414E_4502, 0xAF525908]).unwrap().group(),
        0x1,
    );
}

#[test]
fn relative_registered_controller_channel() {
    assert_eq!(
        RelativeRegisteredControllerMessage::from_data(&[0x414E_4502, 0xAF525908])
            .unwrap()
            .channel(),
        0xE,
    );
}

#[test]
fn relative_registered_controller_bank() {
    assert_eq!(
        RelativeRegisteredControllerMessage::from_data(&[0x414E_4502, 0xAF525908]).unwrap().bank(),
        0x45,
    );
}

#[test]
fn relative_registered_controller_index() {
    assert_eq!(
        RelativeRegisteredControllerMessage::from_data(&[0x414E_4502, 0xAF525908]).unwrap().index(),
        0x02,
    );
}

#[test]
fn relative_registered_controller_controller_data() {
    assert_eq!(
        RelativeRegisteredControllerMessage::from_data(&[0x414E_4502, 0xAF525908])
            .unwrap()
            .controller_data(),
        0xAF525908,
    );
}

#[test]
fn controller_builder_too_short() {
    let b = RelativeAssignableControllerBuilder::new(vec![0x1234_5678]);
    let b = b.group(0x2).bank(0x7F);
    assert_eq!(b.build().err(), Some(Error::BufferTooShort));
}

#[test]
fn controller_builder_longer_buffer_zeroed() {
    let m = RelativeRegisteredControllerMessage::builder(vec![0xFFFF_FFFF; 4])
        .index(0x7F)
        .build()
        .unwrap();
    assert_eq!(m.data(), &[0x4040_007F, 0x0, 0x0, 0x0]);
    assert_eq!(m.bank(), 0x0);
    assert_eq!(m.index(), 0x7F);
}

#[test]
fn controller_fields_do_not_overlap() {
    let m = RelativeAssignableControllerMessage::builder(vec![0x0, 0x0])
        .bank(0x7F)
        .index(0x7F)
        .group(0xF)
        .channel(0xF)
        .controller_data(0xFFFF_FFFF)
        .bank(0x00)
        .build()
        .unwrap();
    assert_eq!(m.bank(), 0x00);
    assert_eq!(m.index(), 0x7F);
    assert_eq!(m.group(), 0xF);
    assert_eq!(m.channel(), 0xF);
    assert_eq!(m.controller_data(), 0xFFFF_FFFF);
}

#[test]
fn controller_from_data_errors() {
    assert_eq!(
        RelativeAssignableControllerMessage::from_data(&[]).err(),
        Some(Error::BufferTooShort),
    );
    assert_eq!(
        RelativeAssignableControllerMessage::from_data(&[0x4351_2452]).err(),
        Some(Error::BufferTooShort),
    );
    assert_eq!(
        RelativeAssignableControllerMessage::from_data(&[0x414E_4502, 0xAF525908]).err(),
        Some(Error::InvalidDiscriminant(Discriminant::Status)),
    );
    assert_eq!(
        RelativeRegisteredControllerMessage::from_data(&[0x4351_2452, 0x898874E4]).err(),
        Some(Error::InvalidDiscriminant(Discriminant::Status)),
    );
    for bit in 28..32 {
        assert_eq!(
            RelativeAssignableControllerMessage::from_data(&[0x4351_2452 ^ (1 << bit), 0x0]).err(),
            Some(Error::InvalidDiscriminant(Discriminant::PacketType)),
        );
    }
    for bit in 20..24 {
        assert_eq!(
            RelativeAssignableControllerMessage::from_data(&[0x4351_2452 ^ (1 << bit), 0x0]).err(),
            Some(Error::InvalidDiscriminant(Discriminant::Status)),
        );
    }
}
