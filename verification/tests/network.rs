use bytes::Bytes;
use gateway::channel::{ChannelTable, Recv};
use gateway::network::{
    admission, metrics, receive_datagram, Admission, CloseReason, Connection, Counters, Ingest,
    WsAction, WsEvent, PING_INTERVAL_NS, PONG_TIMEOUT_NS, UDP_BUFFER_LEN, WS_CHANNEL_CAPACITY,
};
use gateway::protocol::{DecodeError, PacketHeader, PacketType, TargetType};
use gateway::routing::Router;

struct Gateway {
    router: Router,
    table: ChannelTable<Bytes>,
    counters: Counters,
}

impl Gateway {
    fn new() -> Self {
        Gateway {
            router: Router::new(),
            table: ChannelTable::new(),
            counters: Counters::new(),
        }
    }

    fn open(&mut self, room: &str, user: &str) -> Connection {
        Connection::open(&mut self.router, &mut self.table, &mut self.counters, room, user, 0).0
    }

    fn datagram(&mut self, raw: &[u8]) -> Option<DecodeError> {
        match receive_datagram(&mut self.counters, raw) {
            Ingest::Route { header, frame } => {
                self.router.route(&mut self.table, &header, frame);
                None
            }
            Ingest::Refused(e) => Some(e),
        }
    }

    fn message(&mut self, connection: &mut Connection, raw: &[u8]) {
        let event = WsEvent::Binary(Bytes::copy_from_slice(raw));
        match connection.step(&mut self.counters, event, 1) {
            WsAction::Route { header, frame } => {
                self.router.route(&mut self.table, &header, frame);
            }
            other => panic!("{other:?}"),
        }
    }

    fn written(&mut self, connection: &mut Connection) -> Option<Bytes> {
        let found = connection.rx.recv(&mut self.table);
        match connection.step(&mut self.counters, WsEvent::Outbound(found), 2) {
            WsAction::Write(frame) => Some(frame),
            WsAction::Wait => None,
            other => panic!("{other:?}"),
        }
    }
}

fn packet(room: &str, user: &str, sequence: u32, payload: &[u8]) -> Bytes {
    PacketHeader::new(
        PacketType::AiEvent,
        TargetType::Broadcast,
        room,
        user,
        sequence,
        payload.len(),
    )
    .unwrap()
    .encode(payload)
}

#[test]
fn constants() {
    assert_eq!(PING_INTERVAL_NS, 10_000_000_000);
    assert_eq!(PONG_TIMEOUT_NS, 30_000_000_000);
    assert_eq!(WS_CHANNEL_CAPACITY, 64);
    assert_eq!(UDP_BUFFER_LEN, 65535);
}

#[test]
fn ws_connect_and_send() {
    let mut g = Gateway::new();
    let mut a = g.open("test", "A");
    let wire = packet("test", "A", 0, b"hello");
    g.message(&mut a, &wire);
    assert_eq!(g.written(&mut a), Some(wire));
    assert_eq!(g.written(&mut a), None);
}

#[test]
fn ws_two_users_broadcast() {
    let mut g = Gateway::new();
    let mut alice = g.open("roomx", "Alice");
    let mut bob = g.open("roomx", "Bob");
    let wire = packet("roomx", "Alice", 0, b"yo");
    g.message(&mut alice, &wire);
    assert_eq!(g.written(&mut alice), Some(wire.clone()));
    assert_eq!(g.written(&mut bob), Some(wire));
}

#[test]
fn ws_sequence_preserved() {
    let mut g = Gateway::new();
    let mut s = g.open("seq", "S");
    for seq in [0u32, 1, 42, u32::MAX] {
        g.message(&mut s, &packet("seq", "S", seq, b""));
        let data = g.written(&mut s).unwrap();
        let (hdr, payload) = PacketHeader::decode(data).unwrap();
        assert_eq!(hdr.sequence, seq);
        assert!(payload.is_empty());
    }
}

#[test]
fn datagram_reaches_a_connection_whole() {
    let mut g = Gateway::new();
    let mut a = g.open("udpts", "A");
    assert_eq!(g.datagram(&packet("udpts", "sensor", 7, b"udp!!")), None);
    let (hdr, payload) = PacketHeader::decode(g.written(&mut a).unwrap()).unwrap();
    assert_eq!(hdr.user_id_str(), "sensor");
    assert_eq!(hdr.sequence, 7);
    assert_eq!(payload.as_ref(), b"udp!!");
}

#[test]
fn truncated_datagram_is_dropped() {
    let mut g = Gateway::new();
    let mut a = g.open("udpdr", "A");
    assert_eq!(g.datagram(&[0u8; 10]), Some(DecodeError::TooShort));
    assert_eq!(g.written(&mut a), None);
    assert_eq!(g.datagram(&packet("udpdr", "s", 0, b"")), None);
    assert!(g.written(&mut a).is_some());
    let m = metrics(&g.counters);
    assert_eq!((m.udp_packets_received, m.udp_decode_errors), (2, 1));
}

#[test]
fn udp_wrong_version_dropped() {
    let mut g = Gateway::new();
    let mut a = g.open("udpver", "A");
    let mut raw = vec![0u8; 24];
    raw[0] = 0x99;
    raw[1] = PacketType::AiEvent.as_u8();
    raw[2] = TargetType::Broadcast.as_u8();
    raw[4..10].copy_from_slice(b"udpver");
    raw[10..18].copy_from_slice(b"badver\0\0");
    assert_eq!(g.datagram(&raw), Some(DecodeError::UnsupportedVersion(0x99)));
    assert_eq!(g.datagram(&packet("udpver", "ok", 0, b"")), None);
    assert!(g.written(&mut a).is_some());
    assert_eq!(g.written(&mut a), None);
}

#[test]
fn ws_duplicate_user_kicks_old() {
    let mut g = Gateway::new();
    let mut first = g.open("kick", "X");
    let (mut second, kicked) = Connection::open(
        &mut g.router,
        &mut g.table,
        &mut g.counters,
        "kick",
        "X",
        0,
    );
    assert_eq!(kicked, Some(first.rx.id));
    assert_eq!(metrics(&g.counters).ws_connections_active, 2);

    let found = first.rx.recv(&mut g.table);
    assert_eq!(found, Recv::Closed);
    assert!(matches!(
        first.step(&mut g.counters, WsEvent::Outbound(found), 1),
        WsAction::Close(CloseReason::SendersGone)
    ));
    let r = first.close(&mut g.router, &mut g.table, &mut g.counters);
    assert_eq!(r.channel, None);
    assert_eq!(metrics(&g.counters).ws_connections_active, 1);

    let wire = packet("kick", "X", 0, b"");
    g.message(&mut second, &wire);
    assert_eq!(g.written(&mut second), Some(wire));
}

#[test]
fn closing_undoes_opening() {
    let mut g = Gateway::new();
    let before = g.counters;
    let c = g.open("room", "user");
    assert_eq!(c.room, "room");
    assert_eq!(c.user, "user");
    assert_eq!((g.router.room_count(), g.router.user_count()), (1, 1));
    let id = c.rx.id;
    let r = c.close(&mut g.router, &mut g.table, &mut g.counters);
    assert_eq!(r.channel, Some(id));
    assert!(r.room_destroyed);
    assert_eq!((g.router.room_count(), g.router.user_count()), (0, 0));
    assert_eq!(g.counters, before);
}

#[test]
fn ws_reject_non_ascii_room() {
    match admission("房间", "ok") {
        Admission::Rejected { status, .. } => assert_eq!(status, 400),
        Admission::Accepted => panic!("accepted"),
    }
}

#[test]
fn identifiers_must_be_ascii() {
    assert_eq!(admission("lobby", "ok"), Admission::Accepted);
    assert_eq!(admission("longer than a field", "ok"), Admission::Accepted);
    assert_eq!(
        admission("房间", "ok"),
        Admission::Rejected { status: 400, reason: "room must be ASCII" }
    );
    assert_eq!(
        admission("ok", "é"),
        Admission::Rejected { status: 400, reason: "user must be ASCII" }
    );
    assert_eq!(
        admission("é", "é"),
        Admission::Rejected { status: 400, reason: "room must be ASCII" }
    );
}

#[test]
fn messages_show_life() {
    let mut g = Gateway::new();
    let mut c = g.open("r", "u");
    assert_eq!(c.last_alive_ns, 0);
    for (i, event) in [WsEvent::Pong, WsEvent::Ping, WsEvent::Other].into_iter().enumerate() {
        let now = 100 + i as u128;
        assert!(matches!(c.step(&mut g.counters, event, now), WsAction::Wait));
        assert_eq!(c.last_alive_ns, now);
    }
    let bad = WsEvent::Binary(Bytes::from_static(b"short"));
    assert!(matches!(
        c.step(&mut g.counters, bad, 200),
        WsAction::Report(DecodeError::TooShort)
    ));
    assert_eq!(c.last_alive_ns, 200);
    let m = metrics(&g.counters);
    assert_eq!((m.ws_messages_received, m.ws_decode_errors), (1, 1));
}

#[test]
fn silent_connection_is_ended_after_the_timeout() {
    let mut g = Gateway::new();
    let mut c = g.open("r", "u");
    assert!(matches!(
        c.step(&mut g.counters, WsEvent::PingDue, PING_INTERVAL_NS),
        WsAction::WritePing
    ));
    assert!(matches!(
        c.step(&mut g.counters, WsEvent::PingWritten { ok: true }, PONG_TIMEOUT_NS),
        WsAction::Wait
    ));
    assert_eq!(metrics(&g.counters).ws_pong_timeouts, 0);
    assert!(matches!(
        c.step(&mut g.counters, WsEvent::PingWritten { ok: true }, PONG_TIMEOUT_NS + 1),
        WsAction::Close(CloseReason::PongTimeout)
    ));
    assert_eq!(metrics(&g.counters).ws_pong_timeouts, 1);
}

#[test]
fn live_connection_is_kept() {
    let mut g = Gateway::new();
    let mut c = g.open("r", "u");
    let mut now: u128 = 0;
    for _ in 0..10 {
        now += PONG_TIMEOUT_NS;
        assert!(matches!(
            c.step(&mut g.counters, WsEvent::PingWritten { ok: true }, now),
            WsAction::Wait
        ));
        c.step(&mut g.counters, WsEvent::Pong, now);
    }
}

#[test]
fn failures_end_a_connection() {
    let mut g = Gateway::new();
    let mut c = g.open("r", "u");
    let reason = |action: WsAction| match action {
        WsAction::Close(reason) => Some(reason),
        _ => None,
    };
    assert_eq!(
        reason(c.step(&mut g.counters, WsEvent::Closed, 1)),
        Some(CloseReason::ClientClosed)
    );
    assert_eq!(
        reason(c.step(&mut g.counters, WsEvent::ReadFailed, 1)),
        Some(CloseReason::ReadFailed)
    );
    assert_eq!(
        reason(c.step(&mut g.counters, WsEvent::Written { ok: false }, 1)),
        Some(CloseReason::WriteFailed)
    );
    assert_eq!(
        reason(c.step(&mut g.counters, WsEvent::PingWritten { ok: false }, 1)),
        Some(CloseReason::WriteFailed)
    );
    assert_eq!(reason(c.step(&mut g.counters, WsEvent::Written { ok: true }, 1)), None);
    assert_eq!(c.last_alive_ns, 0);
}

#[test]
fn counts_start_again_at_zero() {
    let mut counters = Counters::new();
    counters.udp_packets_received = u64::MAX;
    counters.udp_decode_errors = u64::MAX;
    receive_datagram(&mut counters, b"");
    let m = metrics(&counters);
    assert_eq!((m.udp_packets_received, m.udp_decode_errors), (0, 0));
}
