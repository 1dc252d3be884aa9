//! The datagram protocol spoken over the overlay's control socket.

use vstd::prelude::*;

verus! {

/// The abstract socket name the overlay listens on.
pub const CONTROL_SOCKET: &'static str = "vellum.sock";

/// A command sent by `vellum <command>` to a running overlay.
#[derive(Debug, PartialEq, Eq, Structural, Clone, Copy)]
pub enum Command {
    /// Activate or deactivate drawing mode
    Toggle,
    /// Exit the running overlay
    Exit,
}

/// The bytes that stand for `command` on the wire.
pub open spec fn command_bytes(command: Command) -> Seq<u8> {
    match command {
        Command::Toggle => seq![0x74u8, 0x6fu8, 0x67u8, 0x67u8, 0x6cu8, 0x65u8],
        Command::Exit => seq![0x65u8, 0x78u8, 0x69u8, 0x74u8],
    }
}

/// The command whose bytes `message` is, if any.
pub open spec fn decoded_command(message: Seq<u8>) -> Option<Command> {
    if message == command_bytes(Command::Toggle) {
        Some(Command::Toggle)
    } else if message == command_bytes(Command::Exit) {
        Some(Command::Exit)
    } else {
        None
    }
}

/// Decoding the bytes of a command gives that command back, so every command
/// sent by the client reaches the overlay unchanged.
pub proof fn lemma_command_round_trip(command: Command)
    ensures
        decoded_command(command_bytes(command)) == Some(command),
{
    assert(command_bytes(Command::Toggle).len() != command_bytes(Command::Exit).len());
}

/// Distinct commands are sent as distinct datagrams.
pub proof fn lemma_command_bytes_injective(a: Command, b: Command)
    ensures
        command_bytes(a) == command_bytes(b) ==> a == b,
{
    assert(command_bytes(Command::Toggle).len() != command_bytes(Command::Exit).len());
}

const TOGGLE_BYTES: [u8; 6] = [0x74, 0x6f, 0x67, 0x67, 0x6c, 0x65];

const EXIT_BYTES: [u8; 4] = [0x65, 0x78, 0x69, 0x74];

impl Command {
    /// Encodes the command as the bytes of one datagram.
    pub fn serialize(&self) -> (bytes: &'static [u8])
        ensures
            bytes@ == command_bytes(*self),
    {
        match self {
            Command::Toggle => TOGGLE_BYTES.as_slice(),
            Command::Exit => EXIT_BYTES.as_slice(),
        }
    }

    /// Decodes one datagram; anything but the exact bytes of a command is refused.
    pub fn deserialize(message: &[u8]) -> (result: Result<Command, &'static str>)
        ensures
            match result {
                Ok(command) => decoded_command(message@) == Some(command),
                Err(error) => decoded_command(message@) is None && error@ == "invalid command"@,
            },
    {
        if bytes_equal(message, TOGGLE_BYTES.as_slice()) {
            Ok(Command::Toggle)
        } else if bytes_equal(message, EXIT_BYTES.as_slice()) {
            Ok(Command::Exit)
        } else {
            proof {
                reveal_strlit("invalid command");
            }
            Err("invalid command")
        }
    }
}

/// The longest datagram the overlay takes in; it reads into a buffer one
/// byte longer, so that a longer datagram shows.
pub const MAX_SOCKET_MESSAGE: usize = 4096;

/// Why a received datagram was not acted on.
#[derive(Debug, PartialEq, Eq, Clone, Copy)]
pub enum MessageError {
    /// The datagram was longer than `MAX_SOCKET_MESSAGE`.
    TooLong,
    /// The datagram was no command; the message says so.
    Invalid(&'static str),
}

/// What a received datagram asks the overlay to do: a datagram over the
/// limit is refused whatever it holds, any other is decoded.
pub fn read_message(received: &[u8]) -> (result: Result<Command, MessageError>)
    ensures
        received@.len() > MAX_SOCKET_MESSAGE ==> result == Err::<Command, MessageError>(
            MessageError::TooLong,
        ),
        received@.len() <= MAX_SOCKET_MESSAGE ==> match decoded_command(received@) {
            Some(command) => result == Ok::<Command, MessageError>(command),
            None => (result matches Err(MessageError::Invalid(error)) && error@
                == "invalid command"@),
        },
{
    if received.len() > MAX_SOCKET_MESSAGE {
        return Err(MessageError::TooLong);
    }
    match Command::deserialize(received) {
        Ok(command) => Ok(command),
        Err(error) => Err(MessageError::Invalid(error)),
    }
}

/// Compares two byte strings.
pub fn bytes_equal(a: &[u8], b: &[u8]) -> (equal: bool)
    ensures
        equal == (a@ == b@),
{
    if a.len() != b.len() {
        return false;
    }
    let mut i: usize = 0;
    while i < a.len()
        invariant
            a@.len() == b@.len(),
            0 <= i <= a@.len(),
            forall|j: int| 0 <= j < i ==> a@[j] == b@[j],
        decreases a@.len() - i,
    {
        if a[i] != b[i] {
            return false;
        }
        i += 1;
    }
    assert(a@ =~= b@);
    true
}

} // verus!
