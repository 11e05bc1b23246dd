//! What the network layer decides: what to do with a datagram, whom to let in, and
//! when a WebSocket connection goes on, sends or ends. Sockets and clocks are up
//! to the program, which reports events and performs the actions asked for.

use bytes::Bytes;
use vstd::prelude::*;
use vstd::string::*;
use vstd::utf8::*;

use crate::buffer::bytes_of;
use crate::channel::{
    bounded, most_after_bounded, BoundedReceiver, ChannelState, ChannelTable, Recv,
};
use crate::observability::{
    field_value, no_fields, plain_record, records, FieldContent, FieldValue, Level, LogField,
    LogRecord,
};
use crate::protocol::{
    decode_fault, reads_header, DecodeError, PacketHeader, HEADER_LEN, PROTOCOL_VERSION,
};
use crate::routing::{after_release, channel_of, released, with_user, Router, Unregistered};
use crate::text::{append_decimal, append_hexadecimal, decimal, hexadecimal};

verus! {

/// The time between two pings to a client, in nanoseconds.
pub const PING_INTERVAL_NS: u128 = 10_000_000_000;

/// How long a client may show no sign of life, in nanoseconds.
pub const PONG_TIMEOUT_NS: u128 = 30_000_000_000;

/// How many items may wait for a connection.
pub const WS_CHANNEL_CAPACITY: usize = 64;

/// How many bytes of a datagram are read.
pub const UDP_BUFFER_LEN: usize = 65535;

/// The running counts of the network layer. A count that reaches its greatest
/// value starts again at zero.
#[derive(Debug, Clone, Copy, PartialEq, Eq)]
pub struct Counters {
    pub udp_packets_received: u64,
    pub udp_decode_errors: u64,
    pub ws_messages_received: u64,
    pub ws_decode_errors: u64,
    pub ws_connections_active: u64,
    pub ws_pong_timeouts: u64,
}

/// A snapshot of the counts.
#[derive(Debug, Clone, Copy, PartialEq, Eq)]
pub struct Metrics {
    pub udp_packets_received: u64,
    pub udp_decode_errors: u64,
    pub ws_messages_received: u64,
    pub ws_decode_errors: u64,
    pub ws_connections_active: u64,
    pub ws_pong_timeouts: u64,
}

/// What to do with received bytes.
#[derive(Debug)]
pub enum Ingest {
    /// Hand the whole frame to the receivers that its header names.
    Route { header: PacketHeader, frame: Bytes },
    /// Drop the frame.
    Refused(DecodeError),
}

/// The answer to a request for a WebSocket connection.
#[derive(Debug, PartialEq, Eq)]
pub enum Admission {
    /// The connection may be opened.
    Accepted,
    /// The request is answered with this HTTP status and text.
    Rejected { status: u16, reason: &'static str },
}

/// What happened on a WebSocket connection.
#[derive(Debug)]
pub enum WsEvent {
    /// The client sent a binary message.
    Binary(Bytes),
    /// The client sent a pong.
    Pong,
    /// The client sent a ping.
    Ping,
    /// The client sent another message, such as text.
    Other,
    /// The client closed the connection, or the stream ended.
    Closed,
    /// Reading failed.
    ReadFailed,
    /// The channel of the connection was looked at.
    Outbound(Recv<Bytes>),
    /// A frame was written, or writing it failed.
    Written { ok: bool },
    /// It is time for a ping.
    PingDue,
    /// A ping was written, or writing it failed.
    PingWritten { ok: bool },
}

/// Why a WebSocket connection ends.
#[derive(Debug, Clone, Copy, PartialEq, Eq)]
pub enum CloseReason {
    /// The client closed the connection.
    ClientClosed,
    /// Reading failed.
    ReadFailed,
    /// Writing failed.
    WriteFailed,
    /// No sender of the connection's channel is left.
    SendersGone,
    /// The client showed no sign of life for too long.
    PongTimeout,
}

/// What to do next on a WebSocket connection.
#[derive(Debug)]
pub enum WsAction {
    /// Wait for the next event.
    Wait,
    /// Hand the whole frame to the receivers that its header names.
    Route { header: PacketHeader, frame: Bytes },
    /// Report that a message could not be decoded.
    Report(DecodeError),
    /// Write a binary message to the client.
    Write(Bytes),
    /// Write a ping to the client.
    WritePing,
    /// End the connection.
    Close(CloseReason),
}

/// An open WebSocket connection of a user in a room.
#[derive(Debug)]
pub struct Connection {
    pub room: String,
    pub user: String,
    /// The receiver of what is routed to this user.
    pub rx: BoundedReceiver,
    /// When the client last showed a sign of life.
    pub last_alive_ns: u128,
}

/// The count after one more.
pub open spec fn one_more(n: u64) -> u64 {
    if n == u64::MAX {
        0
    } else {
        (n + 1) as u64
    }
}

/// The count after one fewer.
pub open spec fn one_fewer(n: u64) -> u64 {
    if n == 0 {
        u64::MAX
    } else {
        (n - 1) as u64
    }
}

/// `frame` is all of `raw`, and `header` is its header; or `raw` was refused.
pub open spec fn ingested(raw: Seq<u8>, r: Ingest) -> bool {
    match r {
        Ingest::Route { header, frame } => {
            &&& decode_fault(raw) is None
            &&& reads_header(header, raw)
            &&& bytes_of(frame) == raw
        },
        Ingest::Refused(e) => decode_fault(raw) == Some(e),
    }
}

/// Whether an event shows that the client is there.
pub open spec fn shows_life(event: WsEvent) -> bool {
    event is Binary || event is Pong || event is Ping || event is Other
}

/// When the client last showed a sign of life, after `event` at `now_ns`.
pub open spec fn alive_after(last_alive_ns: u128, event: WsEvent, now_ns: u128) -> u128 {
    if shows_life(event) {
        now_ns
    } else {
        last_alive_ns
    }
}

/// Whether more than the permitted time has passed since the last sign of life.
pub open spec fn timed_out(last_alive_ns: u128, now_ns: u128) -> bool {
    now_ns - last_alive_ns > PONG_TIMEOUT_NS
}

/// The counts after `event` at `now_ns`.
pub open spec fn counted(c: Counters, last_alive_ns: u128, event: WsEvent, now_ns: u128) -> Counters {
    match event {
        WsEvent::Binary(data) => Counters {
            ws_messages_received: one_more(c.ws_messages_received),
            ws_decode_errors: if decode_fault(bytes_of(data)) is Some {
                one_more(c.ws_decode_errors)
            } else {
                c.ws_decode_errors
            },
            ..c
        },
        WsEvent::PingWritten { ok: true } => Counters {
            ws_pong_timeouts: if timed_out(last_alive_ns, now_ns) {
                one_more(c.ws_pong_timeouts)
            } else {
                c.ws_pong_timeouts
            },
            ..c
        },
        _ => c,
    }
}

/// `action` is what `event` at `now_ns` asks for.
pub open spec fn answers(
    action: WsAction,
    last_alive_ns: u128,
    event: WsEvent,
    now_ns: u128,
) -> bool {
    match event {
        WsEvent::Binary(data) => match decode_fault(bytes_of(data)) {
            None => action matches WsAction::Route { header, frame } && reads_header(
                header,
                bytes_of(data),
            ) && bytes_of(frame) == bytes_of(data),
            Some(e) => action == WsAction::Report(e),
        },
        WsEvent::Pong | WsEvent::Ping | WsEvent::Other => action is Wait,
        WsEvent::Closed => action == WsAction::Close(CloseReason::ClientClosed),
        WsEvent::ReadFailed => action == WsAction::Close(CloseReason::ReadFailed),
        WsEvent::Outbound(Recv::Item(item)) => action matches WsAction::Write(frame) && bytes_of(
            frame,
        ) == bytes_of(item),
        WsEvent::Outbound(Recv::Closed) => action == WsAction::Close(CloseReason::SendersGone),
        WsEvent::Outbound(Recv::Wait) => action is Wait,
        WsEvent::Written { ok } => if ok {
            action is Wait
        } else {
            action == WsAction::Close(CloseReason::WriteFailed)
        },
        WsEvent::PingDue => action is WritePing,
        WsEvent::PingWritten { ok } => if !ok {
            action == WsAction::Close(CloseReason::WriteFailed)
        } else if timed_out(last_alive_ns, now_ns) {
            action == WsAction::Close(CloseReason::PongTimeout)
        } else {
            action is Wait
        },
    }
}

/// `m` says what the counts are.
pub open spec fn snapshot(c: Counters, m: Metrics) -> bool {
    &&& m.udp_packets_received == c.udp_packets_received
    &&& m.udp_decode_errors == c.udp_decode_errors
    &&& m.ws_messages_received == c.ws_messages_received
    &&& m.ws_decode_errors == c.ws_decode_errors
    &&& m.ws_connections_active == c.ws_connections_active
    &&& m.ws_pong_timeouts == c.ws_pong_timeouts
}

/// A datagram of the bytes `raw` was taken in and counted.
pub open spec fn datagram_received(
    before: Counters,
    raw: Seq<u8>,
    r: Ingest,
    after: Counters,
) -> bool {
    &&& ingested(raw, r)
    &&& after == (Counters {
        udp_packets_received: one_more(before.udp_packets_received),
        udp_decode_errors: if r is Refused {
            one_more(before.udp_decode_errors)
        } else {
            before.udp_decode_errors
        },
        ..before
    })
}

/// `a` is the answer to a user who asks for a connection in a room.
pub open spec fn admitted(room: Seq<char>, user: Seq<char>, a: Admission) -> bool {
    match a {
        Admission::Accepted => is_ascii_chars(room) && is_ascii_chars(user),
        Admission::Rejected { status, reason } => {
            &&& status == 400
            &&& if !is_ascii_chars(room) {
                reason@ == "room must be ASCII"@
            } else {
                &&& !is_ascii_chars(user)
                &&& reason@ == "user must be ASCII"@
            }
        },
    }
}

/// `connection` was opened, in the place of channel `kicked`.
pub open spec fn opened(
    rooms: Map<Seq<char>, Map<Seq<char>, u64>>,
    table: Map<u64, ChannelState<Bytes>>,
    counters: Counters,
    room: Seq<char>,
    user: Seq<char>,
    now_ns: u128,
    connection: Connection,
    kicked: Option<u64>,
    rooms_after: Map<Seq<char>, Map<Seq<char>, u64>>,
    table_after: Map<u64, ChannelState<Bytes>>,
    counters_after: Counters,
) -> bool {
    let id = connection.rx.id;
    &&& connection.room@ == room
    &&& connection.user@ == user
    &&& connection.last_alive_ns == now_ns
    &&& !table.contains_key(id)
    &&& kicked == channel_of(rooms, room, user)
    &&& rooms_after == with_user(rooms, room, user, id)
    &&& table_after == after_release(
        table.insert(id, ChannelState::empty(WS_CHANNEL_CAPACITY as nat)),
        kicked,
    )
    &&& counters_after == (Counters {
        ws_connections_active: one_more(counters.ws_connections_active),
        ..counters
    })
}

/// `connection` took note of `event`, and `action` is what to do about it.
pub open spec fn stepped(
    connection: Connection,
    counters: Counters,
    event: WsEvent,
    now_ns: u128,
    action: WsAction,
    connection_after: Connection,
    counters_after: Counters,
) -> bool {
    &&& connection_after.room == connection.room
    &&& connection_after.user == connection.user
    &&& connection_after.rx == connection.rx
    &&& connection_after.last_alive_ns == alive_after(connection.last_alive_ns, event, now_ns)
    &&& counters_after == counted(counters, connection.last_alive_ns, event, now_ns)
    &&& answers(action, connection.last_alive_ns, event, now_ns)
}

/// `connection` was ended.
pub open spec fn ended(
    connection: Connection,
    rooms: Map<Seq<char>, Map<Seq<char>, u64>>,
    table: Map<u64, ChannelState<Bytes>>,
    counters: Counters,
    r: Unregistered,
    rooms_after: Map<Seq<char>, Map<Seq<char>, u64>>,
    table_after: Map<u64, ChannelState<Bytes>>,
    counters_after: Counters,
) -> bool {
    &&& released(
        rooms,
        table,
        connection.room@,
        connection.user@,
        connection.rx.id,
        r,
        rooms_after,
        table_after,
    )
    &&& counters_after == (Counters {
        ws_connections_active: one_fewer(counters.ws_connections_active),
        ..counters
    })
}

/// Nothing counted yet.
pub open spec fn zero_counters() -> Counters {
    Counters {
        udp_packets_received: 0,
        udp_decode_errors: 0,
        ws_messages_received: 0,
        ws_decode_errors: 0,
        ws_connections_active: 0,
        ws_pong_timeouts: 0,
    }
}

impl Counters {
    /// Nothing counted yet.
    pub fn new() -> (c: Self)
        ensures
            c == zero_counters(),
    {
        Counters {
            udp_packets_received: 0,
            udp_decode_errors: 0,
            ws_messages_received: 0,
            ws_decode_errors: 0,
            ws_connections_active: 0,
            ws_pong_timeouts: 0,
        }
    }
}

/// A snapshot of the counts.
pub fn metrics(counters: &Counters) -> (m: Metrics)
    ensures
        snapshot(*counters, m),
{
    Metrics {
        udp_packets_received: counters.udp_packets_received,
        udp_decode_errors: counters.udp_decode_errors,
        ws_messages_received: counters.ws_messages_received,
        ws_decode_errors: counters.ws_decode_errors,
        ws_connections_active: counters.ws_connections_active,
        ws_pong_timeouts: counters.ws_pong_timeouts,
    }
}

/// Reads the header of a frame. The frame is passed on with its header, so that
/// its receivers can read it too.
fn ingest(raw: Bytes) -> (r: Ingest)
    ensures
        ingested(bytes_of(raw), r),
{
    let frame = raw.clone();
    match PacketHeader::decode(raw) {
        Ok((header, _)) => Ingest::Route { header, frame },
        Err(e) => Ingest::Refused(e),
    }
}

/// Takes in a datagram: counts it, and counts it as an error when it is refused.
pub fn receive_datagram(counters: &mut Counters, datagram: &[u8]) -> (r: Ingest)
    ensures
        datagram_received(*old(counters), datagram@, r, *final(counters)),
{
    counters.udp_packets_received = counters.udp_packets_received.wrapping_add(1);
    let r = ingest(Bytes::copy_from_slice(datagram));
    if let Ingest::Refused(_) = &r {
        counters.udp_decode_errors = counters.udp_decode_errors.wrapping_add(1);
    }
    r
}

/// Whom to let in: identifiers must be ASCII.
pub fn admission(room: &str, user: &str) -> (a: Admission)
    ensures
        admitted(room@, user@, a),
{
    if !room.is_ascii() {
        return Admission::Rejected { status: 400, reason: "room must be ASCII" };
    }
    if !user.is_ascii() {
        return Admission::Rejected { status: 400, reason: "user must be ASCII" };
    }
    Admission::Accepted
}

impl Connection {
    /// Opens a connection: makes its channel and registers it. A connection that
    /// the user had in the room before is kicked; its channel is the second part
    /// of the result.
    pub fn open(
        router: &mut Router,
        table: &mut ChannelTable<Bytes>,
        counters: &mut Counters,
        room: &str,
        user: &str,
        now_ns: u128,
    ) -> (r: (Connection, Option<u64>))
        requires
            old(router).wf(),
            old(table).wf(),
            old(table).next_id() < u64::MAX,
        ensures
            final(router).wf(),
            final(table).wf(),
            r.0.rx.id == old(table).next_id(),
            final(table).next_id() == old(table).next_id() + 1,
            final(table).most_senders() == most_after_bounded(old(table).most_senders()),
            opened(
                old(router)@,
                old(table)@,
                *old(counters),
                room@,
                user@,
                now_ns,
                r.0,
                r.1,
                final(router)@,
                final(table)@,
                *final(counters),
            ),
    {
        let (tx, rx) = bounded(table, WS_CHANNEL_CAPACITY);
        let kicked = router.register(table, room, user, tx);
        counters.ws_connections_active = counters.ws_connections_active.wrapping_add(1);
        (Connection { room: room.to_owned(), user: user.to_owned(), rx, last_alive_ns: now_ns }, kicked)
    }

    /// What to do about `event`, which happened at `now_ns`.
    pub fn step(&mut self, counters: &mut Counters, event: WsEvent, now_ns: u128) -> (
        action: WsAction)
        ensures
            stepped(
                *old(self),
                *old(counters),
                event,
                now_ns,
                action,
                *final(self),
                *final(counters),
            ),
    {
        match event {
            WsEvent::Binary(data) => {
                self.last_alive_ns = now_ns;
                counters.ws_messages_received = counters.ws_messages_received.wrapping_add(1);
                match ingest(data) {
                    Ingest::Route { header, frame } => WsAction::Route { header, frame },
                    Ingest::Refused(e) => {
                        counters.ws_decode_errors = counters.ws_decode_errors.wrapping_add(1);
                        WsAction::Report(e)
                    },
                }
            },
            WsEvent::Pong | WsEvent::Ping | WsEvent::Other => {
                self.last_alive_ns = now_ns;
                WsAction::Wait
            },
            WsEvent::Closed => WsAction::Close(CloseReason::ClientClosed),
            WsEvent::ReadFailed => WsAction::Close(CloseReason::ReadFailed),
            WsEvent::Outbound(found) => match found {
                Recv::Item(frame) => WsAction::Write(frame),
                Recv::Closed => WsAction::Close(CloseReason::SendersGone),
                Recv::Wait => WsAction::Wait,
            },
            WsEvent::Written { ok } => if ok {
                WsAction::Wait
            } else {
                WsAction::Close(CloseReason::WriteFailed)
            },
            WsEvent::PingDue => WsAction::WritePing,
            WsEvent::PingWritten { ok } => {
                if !ok {
                    return WsAction::Close(CloseReason::WriteFailed);
                }
                let silent: u128 = now_ns.saturating_sub(self.last_alive_ns);
                if silent > PONG_TIMEOUT_NS {
                    counters.ws_pong_timeouts = counters.ws_pong_timeouts.wrapping_add(1);
                    WsAction::Close(CloseReason::PongTimeout)
                } else {
                    WsAction::Wait
                }
            },
        }
    }

    /// Ends the connection: takes the user out of the room, unless another
    /// connection has taken this one's place, and gives up the channel.
    pub fn close(
        self,
        router: &mut Router,
        table: &mut ChannelTable<Bytes>,
        counters: &mut Counters,
    ) -> (r: Unregistered)
        requires
            old(router).wf(),
            old(table).wf(),
        ensures
            final(router).wf(),
            final(table).wf(),
            final(table).next_id() == old(table).next_id(),
            final(table).most_senders() == old(table).most_senders(),
            ended(
                self,
                old(router)@,
                old(table)@,
                *old(counters),
                r,
                final(router)@,
                final(table)@,
                *final(counters),
            ),
    {
        let Connection { room, user, rx, last_alive_ns: _ } = self;
        counters.ws_connections_active = counters.ws_connections_active.wrapping_sub(1);
        router.release(table, room.as_str(), user.as_str(), rx)
    }
}

/// The message of the log record of a refused packet.
pub open spec fn decode_log_text(e: DecodeError) -> Seq<char> {
    match e {
        DecodeError::TooShort => "decode: packet too short (min "@ + decimal(HEADER_LEN as nat)
            + " B, protocol v"@ + hexadecimal(PROTOCOL_VERSION) + ")"@,
        DecodeError::UnsupportedVersion(_) => "decode: unsupported protocol version"@,
        DecodeError::NonZeroReserved(_) => "decode: reserved field must be 0x00"@,
        DecodeError::UnknownPacketType(_) => "decode: unknown packet type"@,
        DecodeError::UnknownTargetType(_) => "decode: unknown target type"@,
        DecodeError::NonAsciiRoomId => "decode: room_id contains non-ASCII bytes"@,
        DecodeError::NonAsciiUserId => "decode: user_id contains non-ASCII bytes"@,
        DecodeError::LengthMismatch { .. } => "decode: payload length mismatch"@,
    }
}

/// The fields of the log record of a refused packet.
pub open spec fn decode_log_fields(e: DecodeError) -> Seq<(Seq<char>, FieldContent)> {
    match e {
        DecodeError::UnsupportedVersion(v) => seq![("version"@, FieldContent::Number(v as nat))],
        DecodeError::NonZeroReserved(v) => seq![("value"@, FieldContent::Number(v as nat))],
        DecodeError::UnknownPacketType(v) => seq![("raw_type"@, FieldContent::Number(v as nat))],
        DecodeError::UnknownTargetType(v) => seq![("raw_type"@, FieldContent::Number(v as nat))],
        DecodeError::LengthMismatch { declared, actual } => seq![
            ("declared"@, FieldContent::Number(declared as nat)),
            ("actual"@, FieldContent::Number(actual as nat)),
        ],
        DecodeError::TooShort | DecodeError::NonAsciiRoomId | DecodeError::NonAsciiUserId =>
            no_fields(),
    }
}

/// A warning with one number.
fn number_record(message: &str, name: &'static str, n: u64) -> (r: LogRecord)
    ensures
        records(r, Level::Warn, message@, seq![(name@, FieldContent::Number(n as nat))]),
{
    let fields = vec![LogField { name, value: FieldValue::Number(n) }];
    let r = LogRecord { level: Level::Warn, message: message.to_owned(), fields };
    assert(r.fields@.map_values(|f: LogField| (f.name@, field_value(f.value))) =~= seq![
        (name@, FieldContent::Number(n as nat)),
    ]);
    r
}

/// The log record of a refused packet.
pub fn record_decode_metric(e: &DecodeError) -> (r: LogRecord)
    ensures
        records(r, Level::Warn, decode_log_text(*e), decode_log_fields(*e)),
{
    match e {
        DecodeError::TooShort => {
            let mut message = "decode: packet too short (min ".to_owned();
            append_decimal(&mut message, HEADER_LEN as u64);
            message.append(" B, protocol v");
            append_hexadecimal(&mut message, PROTOCOL_VERSION);
            message.append(")");
            plain_record(Level::Warn, message.as_str())
        },
        DecodeError::UnsupportedVersion(v) => {
            number_record("decode: unsupported protocol version", "version", *v as u64)
        },
        DecodeError::NonZeroReserved(v) => {
            number_record("decode: reserved field must be 0x00", "value", *v as u64)
        },
        DecodeError::UnknownPacketType(v) => {
            number_record("decode: unknown packet type", "raw_type", *v as u64)
        },
        DecodeError::UnknownTargetType(v) => {
            number_record("decode: unknown target type", "raw_type", *v as u64)
        },
        DecodeError::NonAsciiRoomId => {
            plain_record(Level::Warn, "decode: room_id contains non-ASCII bytes")
        },
        DecodeError::NonAsciiUserId => {
            plain_record(Level::Warn, "decode: user_id contains non-ASCII bytes")
        },
        DecodeError::LengthMismatch { declared, actual } => {
            let fields = vec![
                LogField { name: "declared", value: FieldValue::Number(*declared as u64) },
                LogField { name: "actual", value: FieldValue::Number(*actual as u64) },
            ];
            let r = LogRecord {
                level: Level::Warn,
                message: "decode: payload length mismatch".to_owned(),
                fields,
            };
            assert(r.fields@.map_values(|f: LogField| (f.name@, field_value(f.value)))
                =~= decode_log_fields(*e));
            r
        },
    }
}

} // verus!
