use vellum::protocol::{read_message, Command, MessageError, CONTROL_SOCKET, MAX_SOCKET_MESSAGE};

#[test]
fn commands_are_sent_as_their_names() {
    assert_eq!(Command::Toggle.serialize(), b"toggle");
    assert_eq!(Command::Exit.serialize(), b"exit");
    assert_eq!(CONTROL_SOCKET, "vellum.sock");
}

#[test]
fn commands_survive_the_round_trip() {
    for command in [Command::Toggle, Command::Exit] {
        assert_eq!(Command::deserialize(command.serialize()), Ok(command));
    }
}

#[test]
fn unknown_datagrams_are_refused() {
    assert_eq!(Command::deserialize(b""), Err("invalid command"));
    assert_eq!(Command::deserialize(b"toggl"), Err("invalid command"));
    assert_eq!(Command::deserialize(b"toggle "), Err("invalid command"));
    assert_eq!(Command::deserialize(b"EXIT"), Err("invalid command"));
}

#[test]
fn received_messages_are_checked_for_length_first() {
    assert_eq!(read_message(b"toggle"), Ok(Command::Toggle));
    assert_eq!(read_message(b"exit"), Ok(Command::Exit));
    assert_eq!(read_message(b"exit\n"), Err(MessageError::Invalid("invalid command")));
    let long = vec![b'x'; MAX_SOCKET_MESSAGE + 1];
    assert_eq!(read_message(&long), Err(MessageError::TooLong));
    let limit = vec![b'x'; MAX_SOCKET_MESSAGE];
    assert_eq!(read_message(&limit), Err(MessageError::Invalid("invalid command")));
}
