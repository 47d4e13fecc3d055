use bitaxe_raw_bonanza::bridge_protocol::{
    decode_response, encode_request, ProtocolError, FAN_GET_TACH, FAN_SET_SPEED, GPIO_5V_ENABLE,
    GPIO_ASIC_RESET, GPIO_ASIC_TRIP, PAGE_FAN, PAGE_GPIO, SYSTEM_GET_INFO, SYSTEM_GET_RX_STATS,
    SYSTEM_GET_SAFETY_STATUS,
};
use bitaxe_raw_bonanza::control::{
    fan, gpio, reply_frame, system, BridgeRequest, Command, CommandError, CommandInner,
};

#[test]
fn protocol_errors_map_to_host_errors() {
    assert_eq!(CommandError::from_protocol(ProtocolError::Timeout), CommandError::Timeout);
    assert_eq!(CommandError::from_protocol(ProtocolError::InvalidCommand), CommandError::Invalid);
    assert_eq!(CommandError::from_protocol(ProtocolError::InvalidFrame), CommandError::Invalid);
    assert_eq!(CommandError::from_protocol(ProtocolError::InvalidResponse), CommandError::Invalid);
    assert_eq!(CommandError::from_protocol(ProtocolError::Denied), CommandError::Denied);
    assert_eq!(CommandError::from_protocol(ProtocolError::Fault), CommandError::Fault);
    assert_eq!(CommandError::from_protocol(ProtocolError::BufferTooSmall), CommandError::BufferOverflow);
}

#[test]
fn error_replies_carry_their_codes() {
    assert_eq!(&CommandError::Timeout.to_bytes()[..], &[4, 0, 0xff, 0x10]);
    assert_eq!(&CommandError::Invalid.to_bytes()[..], &[4, 0, 0xff, 0x11]);
    assert_eq!(&CommandError::Denied.to_bytes()[..], &[4, 0, 0xff, 0x12]);
    assert_eq!(&CommandError::Fault.to_bytes()[..], &[4, 0, 0xff, 0x13]);
    assert_eq!(&CommandError::BufferOverflow.to_bytes()[..], &[7, 0, 0xff, 0xff, b'B', b'u', b'f']);
    let message = CommandError::Message("Bridge UART Read Error").to_bytes();
    assert_eq!(message.len(), 4 + 22);
    assert_eq!(&message[..4], &[26, 0, 0xff, 0xff]);
    assert_eq!(&message[4..], b"Bridge UART Read Error");
}

#[test]
fn replies_are_framed_under_the_command_id() {
    let reply: heapless::Vec<u8, 256> = heapless::Vec::from_slice(&[0xde, 0xad]).unwrap();
    let frame = reply_frame(0x42, &Ok(reply));
    assert_eq!(&frame[..], &[5, 0, 0x42, 0xde, 0xad]);
    assert_eq!(decode_response(0x42, &frame), Ok(&[0xde, 0xad][..]));

    let full: heapless::Vec<u8, 256> = heapless::Vec::from_slice(&[7u8; 256]).unwrap();
    let frame = reply_frame(1, &Ok(full));
    assert_eq!(frame.len(), 259);
    assert_eq!(&frame[..3], &[3, 1, 1]);

    let frame = reply_frame(0x42, &Err(CommandError::Denied));
    assert_eq!(&frame[..], &[4, 0, 0x42, 0x12]);
    assert_eq!(decode_response(0x42, &frame), Err(ProtocolError::Denied));
    let frame = reply_frame(9, &Err(CommandError::BufferOverflow));
    assert_eq!(&frame[..], &[7, 0, 9, 0xff, b'B', b'u', b'f']);
}

#[test]
fn error_replies_read_back_as_the_same_error() {
    for error in [CommandError::Timeout, CommandError::Invalid, CommandError::Denied, CommandError::Fault] {
        let frame = reply_frame(3, &Err(error));
        let read = decode_response(3, &frame).unwrap_err();
        assert_eq!(CommandError::from_protocol(read), error);
    }
}

#[test]
fn command_packets_are_routed_by_page() {
    let c = Command::from_bytes(&[7, 0, 0x09, 0x10, 50]).unwrap();
    assert_eq!(c, Command { id: 7, bus: 0, inner: CommandInner::Fan(fan::Command::SetSpeed(50)) });
    let c = Command::from_bytes(&[1, 3, 0x06, 0x00, 0x00]).unwrap();
    assert_eq!(c.bus, 3);
    assert_eq!(c.inner, CommandInner::Gpio(gpio::Command::SetAsicResetn { level: false }));
    let c = Command::from_bytes(&[2, 0, 0x00, 0x10]).unwrap();
    assert_eq!(c.inner, CommandInner::System(system::Command::GetSafetyStatus));
    let c = Command::from_bytes(&[1, 0, 0x05, 0x30, 0x4c, 0x01]).unwrap();
    assert_eq!(c.inner, CommandInner::I2c(vec![0x30, 0x4c, 0x01]));
    let c = Command::from_bytes(&[0, 0, 0x07, 0x50]).unwrap();
    assert_eq!(c.inner, CommandInner::Adc(vec![0x50]));

    assert_eq!(Command::from_bytes(&[1, 0]), Err(CommandError::Invalid));
    assert_eq!(Command::from_bytes(&[1, 0, 0x08, 0]), Err(CommandError::Invalid));
    assert_eq!(Command::from_bytes(&[1, 0, 0x09, 0x10, 101]), Err(CommandError::Invalid));
    assert_eq!(Command::from_bytes(&[1, 0, 0x06, 0x03, 1]), Err(CommandError::Invalid));
    assert_eq!(Command::from_bytes(&[1, 0, 0x00]), Err(CommandError::Invalid));
}

#[test]
fn gpio_commands_follow_the_readme() {
    assert_eq!(gpio::Command::from_bytes(&[0x00]), Ok(gpio::Command::GetAsicResetn));
    assert_eq!(gpio::Command::from_bytes(&[0x00, 0x00]), Ok(gpio::Command::SetAsicResetn { level: false }));
    assert_eq!(gpio::Command::from_bytes(&[0x01, 0x01]), Ok(gpio::Command::Set5vEn { level: true }));
    assert_eq!(gpio::Command::from_bytes(&[0x01]), Ok(gpio::Command::Get5vEn));
    assert_eq!(gpio::Command::from_bytes(&[0x02, 7]), Ok(gpio::Command::SetAsicRst { level: true }));
    assert_eq!(gpio::Command::from_bytes(&[0x02]), Ok(gpio::Command::GetAsicRst));
    assert_eq!(gpio::Command::from_bytes(&[0x03]), Ok(gpio::Command::GetAsicTrip));
    assert_eq!(gpio::Command::from_bytes(&[0x04]), Ok(gpio::Command::GetVrEn));
    assert_eq!(gpio::Command::from_bytes(&[0x04, 1]), Ok(gpio::Command::SetVrEn { level: true }));
    assert_eq!(gpio::Command::from_bytes(&[0x05]), Ok(gpio::Command::GetVrPgood));
    assert_eq!(gpio::Command::from_bytes(&[0x05, 1]), Err(CommandError::Invalid));
    assert_eq!(gpio::Command::from_bytes(&[0x06]), Err(CommandError::Invalid));
    assert_eq!(gpio::Command::from_bytes(&[]), Err(CommandError::Invalid));
    assert_eq!(gpio::Command::from_bytes(&[0x01, 0, 0]), Err(CommandError::Invalid));
}

#[test]
fn reset_alias_reaches_the_bridge_reset_line() {
    let alias = gpio::Command::SetAsicResetn { level: false }.bridge_request();
    let direct = gpio::Command::SetAsicRst { level: false }.bridge_request();
    assert_eq!(alias, direct);
    assert_eq!(alias, Some(BridgeRequest { page: PAGE_GPIO, command: GPIO_ASIC_RESET, argument: Some(0) }));
    assert_eq!(
        gpio::Command::GetAsicResetn.bridge_request(),
        Some(BridgeRequest { page: PAGE_GPIO, command: GPIO_ASIC_RESET, argument: None })
    );
    assert_eq!(
        gpio::Command::Set5vEn { level: true }.bridge_request(),
        Some(BridgeRequest { page: PAGE_GPIO, command: GPIO_5V_ENABLE, argument: Some(1) })
    );
    assert_eq!(
        gpio::Command::GetAsicTrip.bridge_request(),
        Some(BridgeRequest { page: PAGE_GPIO, command: GPIO_ASIC_TRIP, argument: None })
    );
    assert_eq!(gpio::Command::GetVrEn.bridge_request(), None);
    assert_eq!(gpio::Command::SetVrEn { level: true }.bridge_request(), None);
    assert_eq!(gpio::Command::GetVrPgood.bridge_request(), None);
}

#[test]
fn fan_commands_are_forwarded_unchanged() {
    assert_eq!(fan::Command::from_bytes(&[0x10, 100]), Ok(fan::Command::SetSpeed(100)));
    assert_eq!(fan::Command::from_bytes(&[0x10, 101]), Err(CommandError::Invalid));
    assert_eq!(fan::Command::from_bytes(&[0x20]), Ok(fan::Command::GetTach));
    assert_eq!(fan::Command::from_bytes(&[0x20, 0]), Err(CommandError::Invalid));
    assert_eq!(
        fan::Command::SetSpeed(50).bridge_request(),
        BridgeRequest { page: PAGE_FAN, command: FAN_SET_SPEED, argument: Some(50) }
    );
    assert_eq!(
        fan::Command::GetTach.bridge_request(),
        BridgeRequest { page: PAGE_FAN, command: FAN_GET_TACH, argument: None }
    );
}

#[test]
fn system_commands_name_the_bridge_command() {
    assert_eq!(system::Command::from_bytes(&[0x01]), Ok(system::Command::GetInfo));
    assert_eq!(system::Command::from_bytes(&[0x02]), Ok(system::Command::GetRxStats));
    assert_eq!(system::Command::from_bytes(&[0x10]), Ok(system::Command::GetSafetyStatus));
    assert_eq!(system::Command::from_bytes(&[0x11]), Err(CommandError::Invalid));
    assert_eq!(system::Command::from_bytes(&[0x01, 0]), Err(CommandError::Invalid));
    assert_eq!(system::Command::GetInfo.bridge_command(), SYSTEM_GET_INFO);
    assert_eq!(system::Command::GetRxStats.bridge_command(), SYSTEM_GET_RX_STATS);
    assert_eq!(system::Command::GetSafetyStatus.bridge_command(), SYSTEM_GET_SAFETY_STATUS);
}

#[test]
fn host_packet_in_request_format_parses_to_its_command() {
    let mut packet = [0u8; 8];
    let n = encode_request(0x33, PAGE_FAN, FAN_SET_SPEED, &[25], &mut packet).unwrap();
    let c = Command::from_bytes(&packet[2..n]).unwrap();
    assert_eq!(c, Command { id: 0x33, bus: 0, inner: CommandInner::Fan(fan::Command::SetSpeed(25)) });
}
