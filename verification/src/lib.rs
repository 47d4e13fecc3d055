//! Protocol and control logic of the bitaxe-raw-bonanza control serial link: the
//! wire format spoken with the RP2040 bridge, the host command parser, and
//! the framing state machines on both links.

pub mod bridge_protocol;
pub mod control;
