use craft_worker::handshake::{
    frame, handshake_state, required_varint, AcceptAction, AcceptEvent, AcceptState, Packets,
};
use craft_worker::varint::{read_varint, varint};

fn handshake_packet(protocol: u32, host: &[u8], state: u32) -> Vec<u8> {
    let mut packet = varint(0);
    packet.extend(varint(protocol));
    packet.extend(varint(host.len() as u32));
    packet.extend_from_slice(host);
    packet.extend_from_slice(&[0x63, 0xdd]);
    packet.extend(varint(state));
    packet
}

#[test]
fn varint_writes_seven_bits_per_byte() {
    assert_eq!(varint(0), vec![0]);
    assert_eq!(varint(1), vec![1]);
    assert_eq!(varint(127), vec![127]);
    assert_eq!(varint(128), vec![0x80, 0x01]);
    assert_eq!(varint(300), vec![0xac, 0x02]);
    assert_eq!(varint(25565), vec![0xdd, 0xc7, 0x01]);
    assert_eq!(varint(u32::MAX), vec![0xff, 0xff, 0xff, 0xff, 0x0f]);
}

#[test]
fn read_varint_reads_back_what_varint_writes() {
    for value in [0u32, 1, 127, 128, 255, 300, 16383, 16384, 2097151, 2097152, u32::MAX] {
        let mut bytes = varint(value);
        let len = bytes.len();
        bytes.extend_from_slice(&[0x81, 0x7f]);
        assert_eq!(read_varint(&bytes), Ok(Some((value, len))));
    }
}

#[test]
fn read_varint_waits_for_more_bytes() {
    assert_eq!(read_varint(&[]), Ok(None));
    assert_eq!(read_varint(&[0x80]), Ok(None));
    assert_eq!(read_varint(&[0xff, 0xff, 0xff, 0xff]), Ok(None));
}

#[test]
fn read_varint_refuses_more_than_32_bits() {
    assert_eq!(
        read_varint(&[0xff, 0xff, 0xff, 0xff, 0x10]),
        Err("Invalid VarInt".to_string())
    );
    assert_eq!(
        read_varint(&[0x80, 0x80, 0x80, 0x80, 0x80, 0x00]),
        Err("Invalid VarInt".to_string())
    );
}

#[test]
fn read_varint_accepts_padded_encodings() {
    assert_eq!(read_varint(&[0x80, 0x00]), Ok(Some((0, 2))));
    assert_eq!(read_varint(&[0x81, 0x80, 0x00]), Ok(Some((1, 3))));
}

#[test]
fn required_varint_reports_truncation() {
    assert_eq!(required_varint(&[0x80]), Err("Truncated handshake".to_string()));
    assert_eq!(required_varint(&[0x05, 0x01]), Ok((5, 1)));
    assert_eq!(
        required_varint(&[0xff, 0xff, 0xff, 0xff, 0xff]),
        Err("Invalid VarInt".to_string())
    );
}

#[test]
fn frame_prefixes_length_and_id() {
    assert_eq!(frame(0, &[]), vec![1, 0]);
    assert_eq!(frame(0, &[1, 2]), vec![3, 0, 1, 2]);
    assert_eq!(frame(1, &[9; 8]), vec![9, 1, 9, 9, 9, 9, 9, 9, 9, 9]);
    let body = vec![7u8; 200];
    let framed = frame(300, &body);
    assert_eq!(&framed[..4], &[0xca, 0x01, 0xac, 0x02]);
    assert_eq!(framed.len(), 204);
}

#[test]
fn handshake_state_reads_protocol_and_state() {
    assert_eq!(handshake_state(&handshake_packet(765, b"localhost", 1)), Ok((765, 1)));
    assert_eq!(handshake_state(&handshake_packet(4, b"example.org", 2)), Ok((4, 2)));
    assert_eq!(handshake_state(&handshake_packet(776, b"", 3)), Ok((776, 3)));
    assert_eq!(handshake_state(&handshake_packet(1, &[b'a'; 1024], 1)), Ok((1, 1)));
}

#[test]
fn handshake_state_refuses_unknown_states() {
    assert_eq!(
        handshake_state(&handshake_packet(765, b"localhost", 0)),
        Err("Invalid handshake state".to_string())
    );
    assert_eq!(
        handshake_state(&handshake_packet(765, b"localhost", 4)),
        Err("Invalid handshake state".to_string())
    );
}

#[test]
fn handshake_state_refuses_malformed_packets() {
    let mut wrong_id = handshake_packet(765, b"localhost", 1);
    wrong_id[0] = 1;
    assert_eq!(handshake_state(&wrong_id), Err("Invalid handshake".to_string()));
    assert_eq!(
        handshake_state(&handshake_packet(765, &[b'a'; 1025], 1)),
        Err("Invalid handshake".to_string())
    );
    let mut trailing = handshake_packet(765, b"localhost", 1);
    trailing.push(0);
    assert_eq!(handshake_state(&trailing), Err("Invalid handshake length".to_string()));
    let full = handshake_packet(765, b"localhost", 1);
    assert_eq!(
        handshake_state(&full[..full.len() - 1]),
        Err("Invalid handshake".to_string())
    );
    assert_eq!(handshake_state(&[]), Err("Truncated handshake".to_string()));
    assert_eq!(handshake_state(&[0, 0x80]), Err("Truncated handshake".to_string()));
    assert_eq!(
        handshake_state(&[0, 0xff, 0xff, 0xff, 0xff, 0x7f]),
        Err("Invalid VarInt".to_string())
    );
}

#[test]
fn packets_take_whole_packets_and_keep_every_byte() {
    let mut packets = Packets::new();
    assert_eq!(packets.next_packet(), Ok(None));
    let first = frame(0, &[1, 2, 3]);
    let second = frame(0, &[]);
    packets.feed(&first[..2]);
    assert_eq!(packets.next_packet(), Ok(None));
    packets.feed(&first[2..]);
    packets.feed(&second);
    packets.feed(&[0x05]);
    assert_eq!(packets.next_packet(), Ok(Some(vec![0, 1, 2, 3])));
    assert_eq!(packets.next_packet(), Ok(Some(vec![0])));
    assert_eq!(packets.next_packet(), Ok(None));
    assert_eq!(
        packets.finish(),
        Err("Truncated handshake/status packet".to_string())
    );
    let mut all = first.clone();
    all.extend_from_slice(&second);
    all.push(0x05);
    assert_eq!(packets.into_consumed(), all);
}

#[test]
fn packets_refuse_bad_sizes() {
    let mut packets = Packets::new();
    packets.feed(&[0x00]);
    assert_eq!(
        packets.next_packet(),
        Err("Invalid handshake/status packet size".to_string())
    );
    let mut packets = Packets::new();
    packets.feed(&varint(1025));
    assert_eq!(
        packets.next_packet(),
        Err("Invalid handshake/status packet size".to_string())
    );
    let mut packets = Packets::new();
    packets.feed(&[0xff, 0xff, 0xff, 0xff, 0xff]);
    assert_eq!(packets.next_packet(), Err("Invalid VarInt".to_string()));
}

#[test]
fn packets_finish_cleanly_when_empty() {
    let packets = Packets::new();
    assert_eq!(packets.finish(), Ok(()));
    assert_eq!(packets.into_consumed(), Vec::<u8>::new());
}

fn step(state: AcceptState, event: AcceptEvent) -> (AcceptState, AcceptAction) {
    state.step(event)
}

#[test]
fn status_exchange_is_answered() {
    let (state, action) = step(
        AcceptState::AwaitHandshake,
        AcceptEvent::Packet(Some(handshake_packet(765, b"localhost", 1))),
    );
    assert_eq!(state, AcceptState::AwaitRequest { protocol: 765 });
    assert!(matches!(action, AcceptAction::Read));
    let (state, action) = step(state, AcceptEvent::Packet(Some(vec![0])));
    assert_eq!(state, AcceptState::AwaitServerList);
    assert!(matches!(action, AcceptAction::FetchServerList(765)));
    let (state, action) = step(state, AcceptEvent::ServerList("{}".to_string()));
    assert_eq!(state, AcceptState::AwaitPing);
    match action {
        AcceptAction::Respond(bytes) => assert_eq!(bytes, vec![4, 0, 2, b'{', b'}']),
        _ => panic!("expected a response"),
    }
    let ping = vec![1, 0, 0, 0, 0, 0, 0, 0, 42];
    let (state, action) = step(state, AcceptEvent::Packet(Some(ping)));
    assert_eq!(state, AcceptState::Done);
    match action {
        AcceptAction::Pong(bytes) => assert_eq!(bytes, vec![9, 1, 0, 0, 0, 0, 0, 0, 0, 42]),
        _ => panic!("expected a pong"),
    }
}

#[test]
fn status_response_counts_utf8_bytes() {
    let (_, action) = step(AcceptState::AwaitServerList, AcceptEvent::ServerList("é".to_string()));
    match action {
        AcceptAction::Respond(bytes) => assert_eq!(bytes, vec![4, 0, 2, 0xc3, 0xa9]),
        _ => panic!("expected a response"),
    }
}

#[test]
fn status_exchange_may_end_without_ping() {
    let (state, action) = step(AcceptState::AwaitPing, AcceptEvent::Packet(None));
    assert_eq!(state, AcceptState::Done);
    assert!(matches!(action, AcceptAction::Status));
    let (state, action) = step(AcceptState::AwaitHandshake, AcceptEvent::Packet(None));
    assert_eq!(state, AcceptState::Done);
    assert!(matches!(action, AcceptAction::Status));
}

#[test]
fn login_handshakes_are_forwarded() {
    for next in [2, 3] {
        let (state, action) = step(
            AcceptState::AwaitHandshake,
            AcceptEvent::Packet(Some(handshake_packet(765, b"localhost", next))),
        );
        assert_eq!(state, AcceptState::Done);
        assert!(matches!(action, AcceptAction::Login));
    }
}

#[test]
fn invalid_exchanges_fail() {
    let (_, action) = step(
        AcceptState::AwaitHandshake,
        AcceptEvent::Packet(Some(handshake_packet(765, b"localhost", 7))),
    );
    assert!(matches!(action, AcceptAction::Fail(m) if m == "Invalid handshake state"));
    let (_, action) = step(
        AcceptState::AwaitRequest { protocol: 765 },
        AcceptEvent::Packet(Some(vec![1])),
    );
    assert!(matches!(action, AcceptAction::Fail(m) if m == "Invalid status request"));
    let (_, action) = step(AcceptState::AwaitRequest { protocol: 765 }, AcceptEvent::Packet(None));
    assert!(matches!(action, AcceptAction::Fail(m) if m == "Invalid status request"));
    let (_, action) = step(AcceptState::AwaitPing, AcceptEvent::Packet(Some(vec![1, 2, 3])));
    assert!(matches!(action, AcceptAction::Fail(m) if m == "Invalid status ping"));
    let (_, action) = step(AcceptState::AwaitPing, AcceptEvent::Packet(Some(vec![2; 9])));
    assert!(matches!(action, AcceptAction::Fail(m) if m == "Invalid status ping"));
}
