//! Commands of the GPIO page. The 5 V enable, ASIC reset and trip lines live
//! on the bridge; the regulator enable and power-good lines on the ESP32-S3.

use vstd::prelude::*;

use super::{BridgeRequest, CommandError};
use crate::bridge_protocol::{GPIO_5V_ENABLE, GPIO_ASIC_RESET, GPIO_ASIC_TRIP, PAGE_GPIO};

verus! {

#[derive(Clone, Copy, Debug, PartialEq, Eq, Structural)]
pub enum Command {
    SetAsicResetn { level: bool },
    GetAsicResetn,
    Set5vEn { level: bool },
    Get5vEn,
    SetAsicRst { level: bool },
    GetAsicRst,
    GetAsicTrip,
    SetVrEn { level: bool },
    GetVrEn,
    GetVrPgood,
}

/// The GPIO command that the data bytes after the page byte name: a pin
/// number alone reads it, a pin number and a level byte (non-zero is high) sets it.
pub open spec fn decoded(buf: Seq<u8>) -> Option<Command> {
    if buf.len() == 1 {
        if buf[0] == 0x00 {
            Some(Command::GetAsicResetn)
        } else if buf[0] == 0x01 {
            Some(Command::Get5vEn)
        } else if buf[0] == 0x02 {
            Some(Command::GetAsicRst)
        } else if buf[0] == 0x03 {
            Some(Command::GetAsicTrip)
        } else if buf[0] == 0x04 {
            Some(Command::GetVrEn)
        } else if buf[0] == 0x05 {
            Some(Command::GetVrPgood)
        } else {
            None
        }
    } else if buf.len() == 2 {
        let level = buf[1] > 0;
        if buf[0] == 0x00 {
            Some(Command::SetAsicResetn { level })
        } else if buf[0] == 0x01 {
            Some(Command::Set5vEn { level })
        } else if buf[0] == 0x02 {
            Some(Command::SetAsicRst { level })
        } else if buf[0] == 0x04 {
            Some(Command::SetVrEn { level })
        } else {
            None
        }
    } else {
        None
    }
}

/// The one-byte argument that carries a level to the bridge.
pub open spec fn level_byte(level: bool) -> u8 {
    if level {
        1
    } else {
        0
    }
}

impl Command {
    /// The bridge request that carries out this command, or `None` for the
    /// pins the ESP32-S3 drives itself. The `RST_N` alias (pin 0) goes to the
    /// bridge's ASIC reset line, as pin 2 does.
    pub open spec fn forwarded(self) -> Option<BridgeRequest> {
        match self {
            Command::GetAsicResetn => Some(
                BridgeRequest { page: PAGE_GPIO, command: GPIO_ASIC_RESET, argument: None },
            ),
            Command::SetAsicResetn { level } => Some(
                BridgeRequest {
                    page: PAGE_GPIO,
                    command: GPIO_ASIC_RESET,
                    argument: Some(level_byte(level)),
                },
            ),
            Command::Get5vEn => Some(
                BridgeRequest { page: PAGE_GPIO, command: GPIO_5V_ENABLE, argument: None },
            ),
            Command::Set5vEn { level } => Some(
                BridgeRequest {
                    page: PAGE_GPIO,
                    command: GPIO_5V_ENABLE,
                    argument: Some(level_byte(level)),
                },
            ),
            Command::GetAsicRst => Some(
                BridgeRequest { page: PAGE_GPIO, command: GPIO_ASIC_RESET, argument: None },
            ),
            Command::SetAsicRst { level } => Some(
                BridgeRequest {
                    page: PAGE_GPIO,
                    command: GPIO_ASIC_RESET,
                    argument: Some(level_byte(level)),
                },
            ),
            Command::GetAsicTrip => Some(
                BridgeRequest { page: PAGE_GPIO, command: GPIO_ASIC_TRIP, argument: None },
            ),
            Command::SetVrEn { .. } => None,
            Command::GetVrEn => None,
            Command::GetVrPgood => None,
        }
    }

    pub fn from_bytes(buf: &[u8]) -> (r: Result<Self, CommandError>)
        ensures
            match r {
                Ok(command) => decoded(buf@) == Some(command),
                Err(e) => e == CommandError::Invalid && decoded(buf@) is None,
            },
    {
        if buf.len() == 1 {
            if buf[0] == 0x00 {
                Ok(Self::GetAsicResetn)
            } else if buf[0] == 0x01 {
                Ok(Self::Get5vEn)
            } else if buf[0] == 0x02 {
                Ok(Self::GetAsicRst)
            } else if buf[0] == 0x03 {
                Ok(Self::GetAsicTrip)
            } else if buf[0] == 0x04 {
                Ok(Self::GetVrEn)
            } else if buf[0] == 0x05 {
                Ok(Self::GetVrPgood)
            } else {
                Err(CommandError::Invalid)
            }
        } else if buf.len() == 2 {
            let level = buf[1] > 0;
            if buf[0] == 0x00 {
                Ok(Self::SetAsicResetn { level })
            } else if buf[0] == 0x01 {
                Ok(Self::Set5vEn { level })
            } else if buf[0] == 0x02 {
                Ok(Self::SetAsicRst { level })
            } else if buf[0] == 0x04 {
                Ok(Self::SetVrEn { level })
            } else {
                Err(CommandError::Invalid)
            }
        } else {
            Err(CommandError::Invalid)
        }
    }

    pub fn bridge_request(&self) -> (r: Option<BridgeRequest>)
        ensures
            r == self.forwarded(),
    {
        match self {
            Self::GetAsicResetn | Self::GetAsicRst => Some(
                BridgeRequest { page: PAGE_GPIO, command: GPIO_ASIC_RESET, argument: None },
            ),
            Self::SetAsicResetn { level } | Self::SetAsicRst { level } => Some(
                BridgeRequest {
                    page: PAGE_GPIO,
                    command: GPIO_ASIC_RESET,
                    argument: Some(if *level { 1 } else { 0 }),
                },
            ),
            Self::Get5vEn => Some(
                BridgeRequest { page: PAGE_GPIO, command: GPIO_5V_ENABLE, argument: None },
            ),
            Self::Set5vEn { level } => Some(
                BridgeRequest {
                    page: PAGE_GPIO,
                    command: GPIO_5V_ENABLE,
                    argument: Some(if *level { 1 } else { 0 }),
                },
            ),
            Self::GetAsicTrip => Some(
                BridgeRequest { page: PAGE_GPIO, command: GPIO_ASIC_TRIP, argument: None },
            ),
            Self::SetVrEn { .. } | Self::GetVrEn | Self::GetVrPgood => None,
        }
    }
}

/// The `RST_N` alias (pin 0) reaches the bridge as the ASIC reset line (pin 2):
/// reading or setting either sends the same request.
pub proof fn law_reset_alias(level: bool)
    ensures
        Command::GetAsicResetn.forwarded() == Command::GetAsicRst.forwarded(),
        (Command::SetAsicResetn { level }).forwarded() == (Command::SetAsicRst { level }).forwarded(),
{
}

/// A command forwarded to the bridge names, in the bridge's own GPIO numbering,
/// a command that reads back as the one the host sent, with the alias resolved.
pub proof fn law_forwarding_preserves_command(data: Seq<u8>, c: Command)
    requires
        decoded(data) == Some(c),
        c.forwarded() is Some,
    ensures
        ({
            let request = c.forwarded().unwrap();
            let sent = match request.argument {
                Some(b) => seq![request.command, b],
                None => seq![request.command],
            };
            decoded(sent) == Some(
                match c {
                    Command::GetAsicResetn => Command::GetAsicRst,
                    Command::SetAsicResetn { level } => Command::SetAsicRst { level },
                    _ => c,
                },
            )
        }),
{
}

/// A set command's level is its level byte being non-zero, on every settable
/// pin (0 the `RST_N` alias, 1 the 5 V enable, 2 the ASIC reset, 4 the
/// regulator enable), and the trip input (3) and power-good (5) cannot be set.
/// A bridge-side level is sent as the argument 1 for high and 0 for low.
pub proof fn law_set_level_is_nonzero_byte(b: u8)
    ensures
        decoded(seq![0x00u8, b]) == Some(Command::SetAsicResetn { level: b != 0 }),
        decoded(seq![0x01u8, b]) == Some(Command::Set5vEn { level: b != 0 }),
        decoded(seq![0x02u8, b]) == Some(Command::SetAsicRst { level: b != 0 }),
        decoded(seq![0x04u8, b]) == Some(Command::SetVrEn { level: b != 0 }),
        decoded(seq![0x03u8, b]) is None,
        decoded(seq![0x05u8, b]) is None,
        (Command::Set5vEn { level: b != 0 }).forwarded() == Some(
            BridgeRequest { page: 0x06, command: 0x01, argument: Some(if b != 0 { 1u8 } else { 0u8 }) },
        ),
        (Command::SetAsicResetn { level: b != 0 }).forwarded() == Some(
            BridgeRequest { page: 0x06, command: 0x02, argument: Some(if b != 0 { 1u8 } else { 0u8 }) },
        ),
        (Command::SetAsicRst { level: b != 0 }).forwarded() == Some(
            BridgeRequest { page: 0x06, command: 0x02, argument: Some(if b != 0 { 1u8 } else { 0u8 }) },
        ),
{
}

/// A pin number alone reads that pin: 0 and 2 the ASIC reset line, 1 the 5 V
/// enable, 3 the trip input, 4 the regulator enable, 5 the power-good input;
/// any other pin, and any command of other than one or two bytes, is refused.
pub proof fn law_read_commands(pin: u8, data: Seq<u8>)
    ensures
        decoded(seq![0x00u8]) == Some(Command::GetAsicResetn),
        decoded(seq![0x01u8]) == Some(Command::Get5vEn),
        decoded(seq![0x02u8]) == Some(Command::GetAsicRst),
        decoded(seq![0x03u8]) == Some(Command::GetAsicTrip),
        decoded(seq![0x04u8]) == Some(Command::GetVrEn),
        decoded(seq![0x05u8]) == Some(Command::GetVrPgood),
        pin > 5 ==> decoded(seq![pin]) is None && decoded(seq![pin, 0u8]) is None,
        (data.len() == 0 || data.len() > 2) ==> decoded(data) is None,
        Command::GetAsicTrip.forwarded() == Some(
            BridgeRequest { page: 0x06, command: 0x03, argument: None },
        ),
{
}

} // verus!
