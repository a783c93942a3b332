use pong_sim::command::{Command, SerializationError};

#[test]
fn command_encodes_as_its_variant_tag() {
    assert_eq!(Command::GetState.to_bytes().unwrap(), vec![0u8]);
    assert_eq!(Command::PostAction.to_bytes().unwrap(), vec![1u8]);
    assert_eq!(Command::Step.to_bytes().unwrap(), vec![2u8]);
    assert_eq!(Command::Reset.to_bytes().unwrap(), vec![3u8]);
}

#[test]
fn command_round_trips_through_self_describing_bytes() {
    for c in [Command::GetState, Command::PostAction, Command::Step, Command::Reset] {
        let bytes = c.to_bytes().unwrap();
        assert_eq!(Command::from_bytes(&bytes).unwrap(), c);
    }
}

#[test]
fn command_decoding_ignores_trailing_bytes() {
    assert_eq!(Command::from_bytes(&[2, 9, 9]).unwrap(), Command::Step);
}

#[test]
fn command_accepts_a_wide_tag_form() {
    assert_eq!(Command::from_bytes(&[251, 3, 0]).unwrap(), Command::Reset);
}

#[test]
fn command_unknown_tag_is_rejected() {
    match Command::from_bytes(&[7]) {
        Err(SerializationError::UnknownVariant(7)) => {}
        other => panic!("unexpected {:?}", other),
    }
    match Command::from_bytes(&[252, 0, 0, 1, 0]) {
        Err(SerializationError::UnknownVariant(65536)) => {}
        other => panic!("unexpected {:?}", other),
    }
}

#[test]
fn command_empty_or_short_input_is_a_decode_error() {
    assert!(matches!(Command::from_bytes(&[]), Err(SerializationError::DecodeError(_))));
    assert!(matches!(Command::from_bytes(&[251, 3]), Err(SerializationError::DecodeError(_))));
    assert!(matches!(Command::from_bytes(&[255]), Err(SerializationError::DecodeError(_))));
}
