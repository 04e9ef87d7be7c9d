use vstd::prelude::*;

use crate::error::{Result, TrojanError};

verus! {

/// The request command carried in a Trojan header.
#[derive(Debug, Clone, Copy, PartialEq, Eq, Structural)]
pub enum Command {
    Connect,
    UdpAssociate,
}

/// Wire byte of each command.
pub open spec fn command_byte(c: Command) -> u8 {
    match c {
        Command::Connect => 0x01,
        Command::UdpAssociate => 0x03,
    }
}

/// The command encoded by `b`, if any.
pub open spec fn command_of_byte(b: u8) -> Option<Command> {
    if b == 0x01 {
        Some(Command::Connect)
    } else if b == 0x03 {
        Some(Command::UdpAssociate)
    } else {
        None
    }
}

impl Command {
    /// Decodes a command byte; unknown bytes are rejected.
    pub fn from_u8(value: u8) -> (r: Result<Self>)
        ensures
            match command_of_byte(value) {
                Some(c) => r == Ok::<Command, TrojanError>(c),
                None => r matches Err(TrojanError::InvalidCommand(v)) && v == value,
            },
    {
        match value {
            0x01 => Ok(Command::Connect),
            0x03 => Ok(Command::UdpAssociate),
            _ => Err(TrojanError::InvalidCommand(value)),
        }
    }

    /// The wire byte of this command.
    pub fn as_u8(&self) -> (b: u8)
        ensures
            b == command_byte(*self),
    {
        match self {
            Command::Connect => 0x01,
            Command::UdpAssociate => 0x03,
        }
    }
}

/// Encoding a command and decoding the byte gives the command back, and every
/// byte that decodes is the encoding of what it decodes to.
pub proof fn lemma_command_roundtrip(c: Command, b: u8)
    ensures
        command_of_byte(command_byte(c)) == Some(c),
        command_of_byte(b) matches Some(d) ==> command_byte(d) == b,
{
}

} // verus!
