//! The host-facing control serial link: command packets in, reply frames out.
//!
//! A command packet is `LEN LO, LEN HI, ID, BUS, PAGE, CMD, DATA...`; the reply
//! is `LEN LO, LEN HI, ID, PAYLOAD...`, or an error reply whose payload is one
//! error code byte (or `0xff` and a text).

pub mod bridge;
pub mod buffers;
pub mod fan;
pub mod gpio;
pub mod host_link;
pub mod system;

use vstd::prelude::*;
use vstd::string::StringSliceAdditionalSpecFns;

use crate::bridge_protocol::ProtocolError;
use buffers::{frame_as_slice, frame_extend, frame_new, frame_push, frame_set, reply_as_slice};

verus! {

pub const SYSTEM_COMMAND: u8 = 0;
pub const I2C_COMMAND: u8 = 5;
pub const GPIO_COMMAND: u8 = 6;
pub const ADC_COMMAND: u8 = 7;
pub const FAN_COMMAND: u8 = 9;

#[derive(Clone, Copy, Debug, PartialEq, Eq)]
pub enum CommandError {
    Timeout,
    Invalid,
    Denied,
    Fault,
    BufferOverflow,
    Message(&'static str),
}

/// How a failure on the bridge link is reported to the host.
pub open spec fn command_error_of(error: ProtocolError) -> CommandError {
    match error {
        ProtocolError::Timeout => CommandError::Timeout,
        ProtocolError::InvalidCommand => CommandError::Invalid,
        ProtocolError::InvalidFrame => CommandError::Invalid,
        ProtocolError::InvalidResponse => CommandError::Invalid,
        ProtocolError::Denied => CommandError::Denied,
        ProtocolError::Fault => CommandError::Fault,
        ProtocolError::BufferTooSmall => CommandError::BufferOverflow,
    }
}

impl CommandError {
    pub fn from_protocol(error: ProtocolError) -> (r: Self)
        ensures
            r == command_error_of(error),
    {
        match error {
            ProtocolError::Timeout => Self::Timeout,
            ProtocolError::InvalidCommand | ProtocolError::InvalidFrame
            | ProtocolError::InvalidResponse => Self::Invalid,
            ProtocolError::Denied => Self::Denied,
            ProtocolError::Fault => Self::Fault,
            ProtocolError::BufferTooSmall => Self::BufferOverflow,
        }
    }

    /// The payload of the error reply: one error code byte, or `0xff` and a text.
    pub open spec fn reply_body(self) -> Seq<u8> {
        match self {
            CommandError::Timeout => seq![0x10u8],
            CommandError::Invalid => seq![0x11u8],
            CommandError::Denied => seq![0x12u8],
            CommandError::Fault => seq![0x13u8],
            CommandError::BufferOverflow => seq![0xffu8, 0x42u8, 0x75u8, 0x66u8],
            CommandError::Message(text) => seq![0xffu8] + text.spec_bytes(),
        }
    }

    /// The error reply fits in a frame buffer: a text holds at most 256 bytes.
    pub open spec fn fits_reply(self) -> bool {
        self matches CommandError::Message(text) ==> text.spec_bytes().len() <= 256
    }

    /// The error reply frame, with `0xff` in place of the command id.
    pub fn to_bytes(&self) -> (r: heapless::Vec<u8, 260>)
        requires
            self.fits_reply(),
        ensures
            buffers::frame_bytes(r) == crate::bridge_protocol::response_frame(
                0xff,
                self.reply_body(),
            ),
    {
        let mut buf = frame_new();
        let header: [u8; 3] = [0x00, 0x00, 0xff];
        frame_extend(&mut buf, &header).unwrap();
        match self {
            CommandError::Timeout => {
                frame_push(&mut buf, 0x10).unwrap();
            },
            CommandError::Invalid => {
                frame_push(&mut buf, 0x11).unwrap();
            },
            CommandError::Denied => {
                frame_push(&mut buf, 0x12).unwrap();
            },
            CommandError::Fault => {
                frame_push(&mut buf, 0x13).unwrap();
            },
            CommandError::BufferOverflow => {
                let text: [u8; 4] = [0xff, 0x42, 0x75, 0x66];
                frame_extend(&mut buf, &text).unwrap();
            },
            CommandError::Message(msg) => {
                frame_push(&mut buf, 0xff).unwrap();
                frame_extend(&mut buf, msg.as_bytes()).unwrap();
            },
        }
        let len = frame_as_slice(&buf).len();
        frame_set(&mut buf, 0, (len % 256) as u8);
        frame_set(&mut buf, 1, (len / 256) as u8);
        proof {
            assert(buffers::frame_bytes(buf) =~= crate::bridge_protocol::response_frame(
                0xff,
                self.reply_body(),
            ));
        }
        buf
    }
}

/// A request that the bridge carries out: a page, a command and at most one argument byte.
#[derive(Clone, Copy, Debug, PartialEq, Eq)]
pub struct BridgeRequest {
    pub page: u8,
    pub command: u8,
    pub argument: Option<u8>,
}

/// What a command packet asks for. The I2C and ADC pages keep their command
/// bytes, which their own handlers decode.
#[derive(Debug, PartialEq, Eq)]
pub enum CommandInner {
    System(system::Command),
    I2c(Vec<u8>),
    Gpio(gpio::Command),
    Adc(Vec<u8>),
    Fan(fan::Command),
    Error(CommandError),
}

#[derive(Debug, PartialEq, Eq)]
pub struct Command {
    pub id: u8,
    pub bus: u8,
    pub inner: CommandInner,
}

/// The page accepts the command bytes that follow it.
pub open spec fn page_accepts(page: u8, data: Seq<u8>) -> bool {
    if page == SYSTEM_COMMAND {
        system::decoded(data) is Some
    } else if page == GPIO_COMMAND {
        gpio::decoded(data) is Some
    } else if page == FAN_COMMAND {
        fan::decoded(data) is Some
    } else {
        page == I2C_COMMAND || page == ADC_COMMAND
    }
}

/// `inner` is what `page` makes of the command bytes that follow it.
pub open spec fn routed_as(page: u8, data: Seq<u8>, inner: CommandInner) -> bool {
    match inner {
        CommandInner::System(c) => page == SYSTEM_COMMAND && system::decoded(data) == Some(c),
        CommandInner::I2c(bytes) => page == I2C_COMMAND && bytes@ == data,
        CommandInner::Gpio(c) => page == GPIO_COMMAND && gpio::decoded(data) == Some(c),
        CommandInner::Adc(bytes) => page == ADC_COMMAND && bytes@ == data,
        CommandInner::Fan(c) => page == FAN_COMMAND && fan::decoded(data) == Some(c),
        CommandInner::Error(_) => false,
    }
}

/// The bytes `ID, BUS, PAGE, CMD, DATA...` form a command this firmware understands.
pub open spec fn command_accepted(buf: Seq<u8>) -> bool {
    buf.len() >= 3 && page_accepts(buf[2], buf.skip(3))
}

/// `command` is what the bytes `ID, BUS, PAGE, CMD, DATA...` ask for.
pub open spec fn parsed_as(buf: Seq<u8>, command: Command) -> bool {
    &&& buf.len() >= 3
    &&& command.id == buf[0]
    &&& command.bus == buf[1]
    &&& routed_as(buf[2], buf.skip(3), command.inner)
}

impl Command {
    /// Parses `ID, BUS, PAGE, CMD, DATA...`.
    pub fn from_bytes(buf: &[u8]) -> (r: Result<Self, CommandError>)
        ensures
            r is Ok <==> command_accepted(buf@),
            match r {
                Ok(command) => parsed_as(buf@, command),
                Err(e) => e == CommandError::Invalid,
            },
    {
        if buf.len() < 3 {
            return Err(CommandError::Invalid);
        }
        let id = buf[0];
        let bus = buf[1];
        let page = buf[2];
        let data = vstd::slice::slice_subrange(buf, 3, buf.len());
        assert(data@ == buf@.skip(3));
        if page == SYSTEM_COMMAND {
            match system::Command::from_bytes(data) {
                Ok(c) => Ok(Self { id, bus, inner: CommandInner::System(c) }),
                Err(e) => Err(e),
            }
        } else if page == I2C_COMMAND {
            Ok(Self { id, bus, inner: CommandInner::I2c(vstd::slice::slice_to_vec(data)) })
        } else if page == GPIO_COMMAND {
            match gpio::Command::from_bytes(data) {
                Ok(c) => Ok(Self { id, bus, inner: CommandInner::Gpio(c) }),
                Err(e) => Err(e),
            }
        } else if page == ADC_COMMAND {
            Ok(Self { id, bus, inner: CommandInner::Adc(vstd::slice::slice_to_vec(data)) })
        } else if page == FAN_COMMAND {
            match fan::Command::from_bytes(data) {
                Ok(c) => Ok(Self { id, bus, inner: CommandInner::Fan(c) }),
                Err(e) => Err(e),
            }
        } else {
            Err(CommandError::Invalid)
        }
    }
}

/// The bytes of the frame that answers command `id` with `result`.
pub open spec fn reply_frame_bytes(id: u8, result: Result<Seq<u8>, CommandError>) -> Seq<u8> {
    match result {
        Ok(payload) => crate::bridge_protocol::response_frame(id, payload),
        Err(e) => crate::bridge_protocol::response_frame(id, e.reply_body()),
    }
}

/// The frame that answers command `id`: its reply, or its error reply.
pub fn reply_frame(id: u8, result: &Result<heapless::Vec<u8, 256>, CommandError>) -> (r:
    heapless::Vec<u8, 260>)
    requires
        result matches Err(e) ==> e.fits_reply(),
    ensures
        buffers::frame_bytes(r) == match result {
            Ok(reply) => reply_frame_bytes(id, Ok(buffers::reply_bytes(*reply))),
            Err(e) => reply_frame_bytes(id, Err(*e)),
        },
{
    match result {
        Ok(res) => {
            let payload = reply_as_slice(res);
            let total = payload.len() + 3;
            let mut buf = frame_new();
            let length: [u8; 2] = [(total % 256) as u8, (total / 256) as u8];
            frame_extend(&mut buf, &length).unwrap();
            frame_push(&mut buf, id).unwrap();
            frame_extend(&mut buf, payload).unwrap();
            proof {
                assert(buffers::frame_bytes(buf) =~= crate::bridge_protocol::response_frame(
                    id,
                    buffers::reply_bytes(*res),
                ));
            }
            buf
        },
        Err(err) => {
            let mut buf = err.to_bytes();
            frame_set(&mut buf, 2, id);
            proof {
                assert(buffers::frame_bytes(buf) =~= crate::bridge_protocol::response_frame(
                    id,
                    err.reply_body(),
                ));
            }
            buf
        },
    }
}

/// The host reads an error reply back as the error the firmware reported: the
/// four error codes are recognised as such, and an overflow or text reply
/// arrives as its `0xff`-led payload.
pub proof fn law_error_reply_read_back(id: u8, error: CommandError)
    requires
        error.fits_reply(),
    ensures
        ({
            let status = crate::bridge_protocol::response_status(
                id,
                reply_frame_bytes(id, Err(error)),
            );
            match error {
                CommandError::BufferOverflow => status == Ok::<Seq<u8>, ProtocolError>(
                    error.reply_body(),
                ),
                CommandError::Message(_) => status == Ok::<Seq<u8>, ProtocolError>(
                    error.reply_body(),
                ),
                _ => status matches Err(e) && command_error_of(e) == error,
            }
        }),
{
    match error {
        CommandError::BufferOverflow => {
            crate::bridge_protocol::law_response_read_back(id, error.reply_body());
        },
        CommandError::Message(_) => {
            crate::bridge_protocol::law_response_read_back(id, error.reply_body());
        },
        _ => {
            crate::bridge_protocol::law_error_code_read_back(id, error.reply_body()[0]);
            assert(error.reply_body() =~= seq![error.reply_body()[0]]);
        },
    }
}

/// The host reads a reply back as the payload it carries, unless that
/// payload is a single error code.
pub proof fn law_reply_read_back(id: u8, payload: Seq<u8>)
    requires
        payload.len() <= 256,
        !(payload.len() == 1 && crate::bridge_protocol::bridge_error(payload[0]) is Some),
    ensures
        crate::bridge_protocol::response_status(id, reply_frame_bytes(id, Ok(payload))) == Ok::<
            Seq<u8>,
            ProtocolError,
        >(payload),
{
    crate::bridge_protocol::law_response_read_back(id, payload);
}

/// A packet on the I2C (0x05) or ADC (0x07) page is accepted whatever its
/// command bytes, and the command carries the packet's id and bus and every
/// byte after the page byte, unchanged.
pub proof fn law_raw_pages_keep_every_byte(id: u8, bus: u8, data: Seq<u8>, c: Command)
    ensures
        command_accepted(seq![id, bus, 0x05u8] + data),
        command_accepted(seq![id, bus, 0x07u8] + data),
        parsed_as(seq![id, bus, 0x05u8] + data, c) ==> c.id == id && c.bus == bus && (
        c.inner matches CommandInner::I2c(bytes) && bytes@ == data),
        parsed_as(seq![id, bus, 0x07u8] + data, c) ==> c.id == id && c.bus == bus && (
        c.inner matches CommandInner::Adc(bytes) && bytes@ == data),
{
    assert((seq![id, bus, 0x05u8] + data).skip(3) =~= data);
    assert((seq![id, bus, 0x07u8] + data).skip(3) =~= data);
}

/// A packet on the system (0x00), GPIO (0x06) or fan (0x09) page is accepted
/// exactly when that page accepts the bytes after the page byte, and parses to
/// that page's command under the packet's id and bus; any other page, and a
/// packet shorter than three bytes, is refused.
pub proof fn law_pages_route(id: u8, bus: u8, page: u8, data: Seq<u8>, c: Command)
    ensures
        page == 0x00 ==> (command_accepted(seq![id, bus, page] + data) <==> system::decoded(data) is Some),
        page == 0x06 ==> (command_accepted(seq![id, bus, page] + data) <==> gpio::decoded(data) is Some),
        page == 0x09 ==> (command_accepted(seq![id, bus, page] + data) <==> fan::decoded(data) is Some),
        page != 0x00 && page != 0x05 && page != 0x06 && page != 0x07 && page != 0x09
            ==> !command_accepted(seq![id, bus, page] + data),
        page == 0x00 && parsed_as(seq![id, bus, page] + data, c) ==> c.id == id && c.bus == bus
            && (c.inner matches CommandInner::System(s) && system::decoded(data) == Some(s)),
        page == 0x06 && parsed_as(seq![id, bus, page] + data, c) ==> c.id == id && c.bus == bus
            && (c.inner matches CommandInner::Gpio(g) && gpio::decoded(data) == Some(g)),
        page == 0x09 && parsed_as(seq![id, bus, page] + data, c) ==> c.id == id && c.bus == bus
            && (c.inner matches CommandInner::Fan(f) && fan::decoded(data) == Some(f)),
        forall|short: Seq<u8>| short.len() < 3 ==> !command_accepted(short),
{
    assert((seq![id, bus, page] + data).skip(3) =~= data);
}

} // verus!
