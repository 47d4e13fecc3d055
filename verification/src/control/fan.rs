//! Commands of the fan page, forwarded to the bridge.

use vstd::prelude::*;

use super::{BridgeRequest, CommandError};
use crate::bridge_protocol::{FAN_GET_TACH, FAN_SET_SPEED, PAGE_FAN};

verus! {

#[derive(Clone, Copy, Debug, PartialEq, Eq, Structural)]
pub enum Command {
    SetSpeed(u8),
    GetTach,
}

/// The fan command that the data bytes after the page byte name; a speed is a
/// percentage and above 100 is refused.
pub open spec fn decoded(buf: Seq<u8>) -> Option<Command> {
    if buf.len() == 2 && buf[0] == 0x10 && buf[1] <= 100 {
        Some(Command::SetSpeed(buf[1]))
    } else if buf.len() == 1 && buf[0] == 0x20 {
        Some(Command::GetTach)
    } else {
        None
    }
}

impl Command {
    /// The bridge request that carries out this command.
    pub open spec fn forwarded(self) -> BridgeRequest {
        match self {
            Command::SetSpeed(speed) => BridgeRequest {
                page: PAGE_FAN,
                command: FAN_SET_SPEED,
                argument: Some(speed),
            },
            Command::GetTach => BridgeRequest { page: PAGE_FAN, command: FAN_GET_TACH, argument: None },
        }
    }

    pub fn from_bytes(buf: &[u8]) -> (r: Result<Self, CommandError>)
        ensures
            match r {
                Ok(command) => decoded(buf@) == Some(command),
                Err(e) => e == CommandError::Invalid && decoded(buf@) is None,
            },
    {
        if buf.len() == 2 && buf[0] == 0x10 && buf[1] <= 100 {
            Ok(Self::SetSpeed(buf[1]))
        } else if buf.len() == 1 && buf[0] == 0x20 {
            Ok(Self::GetTach)
        } else {
            Err(CommandError::Invalid)
        }
    }

    pub fn bridge_request(&self) -> (r: BridgeRequest)
        ensures
            r == self.forwarded(),
    {
        match self {
            Self::SetSpeed(speed) => BridgeRequest {
                page: PAGE_FAN,
                command: FAN_SET_SPEED,
                argument: Some(*speed),
            },
            Self::GetTach => BridgeRequest { page: PAGE_FAN, command: FAN_GET_TACH, argument: None },
        }
    }
}

/// A fan command is forwarded to the bridge in the host's own encoding: the
/// request reads back as the same command.
pub proof fn law_forwarding_preserves_command(data: Seq<u8>, c: Command)
    requires
        decoded(data) == Some(c),
    ensures
        ({
            let request = c.forwarded();
            let sent = match request.argument {
                Some(b) => seq![request.command, b],
                None => seq![request.command],
            };
            request.page == PAGE_FAN && decoded(sent) == Some(c)
        }),
{
}

/// A set-speed command is accepted exactly for speeds 0 to 100 and carries the
/// speed byte unchanged, which the bridge request forwards as its argument; a
/// tach read is the single byte 0x20.
pub proof fn law_speed_range(s: u8)
    ensures
        s <= 100 ==> decoded(seq![0x10u8, s]) == Some(Command::SetSpeed(s)),
        s > 100 ==> decoded(seq![0x10u8, s]) is None,
        decoded(seq![0x20u8]) == Some(Command::GetTach),
        (Command::SetSpeed(s)).forwarded() == (BridgeRequest {
            page: 0x09,
            command: 0x10,
            argument: Some(s),
        }),
        Command::GetTach.forwarded() == (BridgeRequest { page: 0x09, command: 0x20, argument: None }),
{
}

} // verus!
