use bitaxe_raw_bonanza::bridge_protocol::{encode_request, PAGE_FAN, PAGE_GPIO, FAN_SET_SPEED};
use bitaxe_raw_bonanza::control::bridge::{BridgeControl, FRAME_BUF_LEN};
use bitaxe_raw_bonanza::control::host_link::{CommandFramer, HOST_BUF_LEN};
use bitaxe_raw_bonanza::control::{fan, gpio, Command, CommandError, CommandInner};

#[test]
fn request_ids_count_up_and_wrap() {
    let mut bridge = BridgeControl::new();
    let first = bridge.begin_transaction(PAGE_FAN, FAN_SET_SPEED, &[40]).ok().unwrap();
    assert_eq!(first.id, 0);
    assert_eq!(first.len, 7);
    assert_eq!(&first.frame[..first.len], &[7, 0, 0, 0, PAGE_FAN, FAN_SET_SPEED, 40]);
    let second = bridge.begin_transaction(PAGE_GPIO, 3, &[]).ok().unwrap();
    assert_eq!(second.id, 1);
    assert_eq!(&second.frame[..second.len], &[6, 0, 1, 0, PAGE_GPIO, 3]);
    for _ in 2..255 {
        bridge.begin_transaction(0, 1, &[]).ok().unwrap();
    }
    assert_eq!(bridge.begin_transaction(0, 1, &[]).ok().unwrap().id, 255);
    assert_eq!(bridge.begin_transaction(0, 1, &[]).ok().unwrap().id, 0);
}

#[test]
fn oversized_request_uses_up_its_id() {
    let mut bridge = BridgeControl::new();
    let data = [0u8; 255];
    assert!(matches!(bridge.begin_transaction(0, 1, &data), Err(CommandError::BufferOverflow)));
    let data = [0u8; 254];
    let request = bridge.begin_transaction(0, 1, &data).ok().unwrap();
    assert_eq!(request.id, 1);
    assert_eq!(request.len, 260);
}

#[test]
fn fragmented_reply_is_delivered_once_complete() {
    let mut bridge = BridgeControl::new();
    assert_eq!(bridge.poll_response(0), None);
    assert_eq!(bridge.receive(&[6, 0]), 2);
    assert_eq!(bridge.poll_response(0), None);
    assert_eq!(bridge.receive(&[0, 1, 2]), 3);
    assert_eq!(bridge.poll_response(0), None);
    assert_eq!(bridge.receive(&[3, 4, 0]), 3);
    let reply = bridge.poll_response(0).unwrap().unwrap();
    assert_eq!(&reply[..], &[1, 2, 3]);
    assert_eq!(bridge.free_space(), FRAME_BUF_LEN - 2);
    assert_eq!(bridge.receive(&[0]), 1);
    assert_eq!(bridge.poll_response(0), None);
    assert_eq!(bridge.receive(&[0x55]), 1);
    assert_eq!(&bridge.poll_response(0).unwrap().unwrap()[..], &[0x55]);
}

#[test]
fn replies_to_other_requests_are_dropped() {
    let mut bridge = BridgeControl::new();
    bridge.receive(&[4, 0, 9, 0xaa, 5, 0, 2, 0xbb, 0xcc]);
    let reply = bridge.poll_response(2).unwrap().unwrap();
    assert_eq!(&reply[..], &[0xbb, 0xcc]);
    assert_eq!(bridge.free_space(), FRAME_BUF_LEN);
}

#[test]
fn error_replies_fail_the_request() {
    let mut bridge = BridgeControl::new();
    bridge.receive(&[4, 0, 5, 0x12]);
    assert_eq!(bridge.poll_response(5), Some(Err(CommandError::Denied)));
    bridge.receive(&[4, 0, 5, 0x10]);
    assert_eq!(bridge.poll_response(5), Some(Err(CommandError::Timeout)));
    bridge.receive(&[4, 0, 5, 0x11]);
    assert_eq!(bridge.poll_response(5), Some(Err(CommandError::Invalid)));
    bridge.receive(&[4, 0, 5, 0x13]);
    assert_eq!(bridge.poll_response(5), Some(Err(CommandError::Fault)));
}

#[test]
fn impossible_length_drops_everything() {
    let mut bridge = BridgeControl::new();
    bridge.receive(&[2, 0, 1, 2, 3]);
    assert_eq!(bridge.poll_response(1), Some(Err(CommandError::Invalid)));
    assert_eq!(bridge.free_space(), FRAME_BUF_LEN);
    bridge.receive(&[0x01, 0x02]);
    assert_eq!(bridge.poll_response(1), Some(Err(CommandError::Invalid)));
}

#[test]
fn reply_longer_than_a_reply_buffer_overflows() {
    let mut bridge = BridgeControl::new();
    let mut frame = vec![0u8; 3 + 300];
    frame[0] = (303 % 256) as u8;
    frame[1] = (303 / 256) as u8;
    frame[2] = 4;
    assert_eq!(bridge.receive(&frame), 303);
    assert_eq!(bridge.poll_response(4), Some(Err(CommandError::BufferOverflow)));
    assert_eq!(bridge.free_space(), FRAME_BUF_LEN);
}

#[test]
fn receive_stops_at_capacity_and_abandon_clears() {
    let mut bridge = BridgeControl::new();
    let data = [0xffu8; 600];
    assert_eq!(bridge.receive(&data), FRAME_BUF_LEN);
    assert_eq!(bridge.free_space(), 0);
    assert_eq!(bridge.receive(&data), 0);
    bridge.abandon_response();
    assert_eq!(bridge.free_space(), FRAME_BUF_LEN);
}

#[test]
fn host_packets_become_commands() {
    let mut framer = CommandFramer::new();
    let mut packet = [0u8; 16];
    let n = encode_request(0x21, PAGE_GPIO, 0x01, &[1], &mut packet).unwrap();
    assert_eq!(framer.make_room(), None);
    assert_eq!(framer.receive(&packet[..3]), 3);
    assert_eq!(framer.next_command(), None);
    framer.receive(&packet[3..n]);
    framer.receive(&[6, 0, 0x22, 0, 0x09, 0x20]);
    assert_eq!(
        framer.next_command(),
        Some(Command { id: 0x21, bus: 0, inner: CommandInner::Gpio(gpio::Command::Set5vEn { level: true }) })
    );
    assert_eq!(
        framer.next_command(),
        Some(Command { id: 0x22, bus: 0, inner: CommandInner::Fan(fan::Command::GetTach) })
    );
    assert_eq!(framer.next_command(), None);
    assert_eq!(framer.free_space(), HOST_BUF_LEN);
}

#[test]
fn unparseable_host_packet_is_refused_under_its_id() {
    let mut framer = CommandFramer::new();
    framer.receive(&[7, 0, 0x55, 0, 0x09, 0x10, 200]);
    assert_eq!(
        framer.next_command(),
        Some(Command { id: 0x55, bus: 0, inner: CommandInner::Error(CommandError::Invalid) })
    );
}

#[test]
fn bad_host_length_is_refused_and_buffer_reset() {
    let mut framer = CommandFramer::new();
    framer.receive(&[5, 0, 0x66, 0, 0]);
    assert_eq!(
        framer.next_command(),
        Some(Command { id: 0x66, bus: 0, inner: CommandInner::Error(CommandError::Invalid) })
    );
    assert_eq!(framer.free_space(), HOST_BUF_LEN);
    assert_eq!(framer.next_command(), None);
}

#[test]
fn full_host_buffer_is_refused_as_overflow() {
    let mut framer = CommandFramer::new();
    let mut data = vec![0u8; HOST_BUF_LEN];
    data[0] = (4098 % 256) as u8;
    data[1] = (4098 / 256) as u8;
    data[2] = 0x77;
    assert_eq!(framer.receive(&data[..HOST_BUF_LEN - 1]), HOST_BUF_LEN - 1);
    assert_eq!(framer.next_command(), None);
    assert_eq!(framer.receive(&data[..10]), 1);
    assert_eq!(framer.free_space(), 0);
    assert_eq!(
        framer.make_room(),
        Some(Command { id: 0x77, bus: 0, inner: CommandInner::Error(CommandError::BufferOverflow) })
    );
    assert_eq!(framer.free_space(), HOST_BUF_LEN);
}

fn commands_for_split(stream: &[u8], sizes: &[usize]) -> Vec<Command> {
    let mut framer = CommandFramer::new();
    let mut commands = Vec::new();
    let mut at = 0;
    let mut k = 0;
    while at < stream.len() {
        let size = sizes[k % sizes.len()].min(stream.len() - at);
        k += 1;
        if let Some(c) = framer.make_room() {
            commands.push(c);
        }
        assert_eq!(framer.receive(&stream[at..at + size]), size);
        at += size;
        while let Some(c) = framer.next_command() {
            commands.push(c);
        }
    }
    commands
}

#[test]
fn framing_does_not_depend_on_read_boundaries() {
    let mut stream = Vec::new();
    let mut packet = [0u8; 80];
    for (id, page, command, data) in [
        (1u8, 0x09u8, 0x10u8, vec![30u8]),
        (2, 0x06, 0x02, vec![]),
        (3, 0x05, 0x20, vec![0x4f; 70]),
        (4, 0x00, 0x10, vec![]),
        (5, 0x08, 0x00, vec![1, 2]),
    ] {
        let n = encode_request(id, page, command, &data, &mut packet).unwrap();
        stream.extend_from_slice(&packet[..n]);
    }
    let whole = commands_for_split(&stream, &[stream.len()]);
    assert_eq!(whole.len(), 5);
    assert_eq!(whole[0], Command { id: 1, bus: 0, inner: CommandInner::Fan(fan::Command::SetSpeed(30)) });
    assert_eq!(whole[4], Command { id: 5, bus: 0, inner: CommandInner::Error(CommandError::Invalid) });
    for sizes in [&[1usize][..], &[2, 3], &[64], &[7, 64, 1], &[5]] {
        assert_eq!(commands_for_split(&stream, sizes), whole);
    }
}
