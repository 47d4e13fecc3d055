//! Commands of the system page, all of which are answered by the bridge.

use vstd::prelude::*;

use super::CommandError;
use crate::bridge_protocol::{SYSTEM_GET_INFO, SYSTEM_GET_RX_STATS, SYSTEM_GET_SAFETY_STATUS};

verus! {

#[derive(Clone, Copy, Debug, PartialEq, Eq, Structural)]
pub enum Command {
    GetInfo,
    GetRxStats,
    GetSafetyStatus,
}

/// The system command that the data bytes after the page byte name.
pub open spec fn decoded(buf: Seq<u8>) -> Option<Command> {
    if buf.len() != 1 {
        None
    } else if buf[0] == SYSTEM_GET_INFO {
        Some(Command::GetInfo)
    } else if buf[0] == SYSTEM_GET_RX_STATS {
        Some(Command::GetRxStats)
    } else if buf[0] == SYSTEM_GET_SAFETY_STATUS {
        Some(Command::GetSafetyStatus)
    } else {
        None
    }
}

impl Command {
    /// The system-page command byte that asks the bridge for this.
    pub open spec fn wire_command(self) -> u8 {
        match self {
            Command::GetInfo => SYSTEM_GET_INFO,
            Command::GetRxStats => SYSTEM_GET_RX_STATS,
            Command::GetSafetyStatus => SYSTEM_GET_SAFETY_STATUS,
        }
    }

    pub fn from_bytes(buf: &[u8]) -> (r: Result<Self, CommandError>)
        ensures
            match r {
                Ok(command) => decoded(buf@) == Some(command),
                Err(e) => e == CommandError::Invalid && decoded(buf@) is None,
            },
    {
        if buf.len() != 1 {
            return Err(CommandError::Invalid);
        }
        if buf[0] == SYSTEM_GET_INFO {
            Ok(Self::GetInfo)
        } else if buf[0] == SYSTEM_GET_RX_STATS {
            Ok(Self::GetRxStats)
        } else if buf[0] == SYSTEM_GET_SAFETY_STATUS {
            Ok(Self::GetSafetyStatus)
        } else {
            Err(CommandError::Invalid)
        }
    }

    /// The command byte forwarded to the bridge on the system page.
    pub fn bridge_command(&self) -> (r: u8)
        ensures
            r == self.wire_command(),
    {
        match self {
            Self::GetInfo => SYSTEM_GET_INFO,
            Self::GetRxStats => SYSTEM_GET_RX_STATS,
            Self::GetSafetyStatus => SYSTEM_GET_SAFETY_STATUS,
        }
    }
}

/// The system page takes one command byte: 0x01 bridge info, 0x02 receive
/// statistics, 0x10 safety status; each is forwarded under the same byte.
pub proof fn law_system_commands(b: u8)
    ensures
        decoded(seq![0x01u8]) == Some(Command::GetInfo),
        decoded(seq![0x02u8]) == Some(Command::GetRxStats),
        decoded(seq![0x10u8]) == Some(Command::GetSafetyStatus),
        (b != 0x01 && b != 0x02 && b != 0x10) ==> decoded(seq![b]) is None,
        decoded(seq![b]) matches Some(c) ==> c.wire_command() == b,
{
}

} // verus!
