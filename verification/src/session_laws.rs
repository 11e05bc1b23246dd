//! What the network layer does with datagrams and connections: for every call of
//! its functions, how action, counts, rooms and channels after it relate to the
//! arguments.

use bytes::Bytes;
use vstd::prelude::*;

use crate::buffer::bytes_of;
use crate::channel::{ChannelTable, Recv};
use crate::network::{
    admission, metrics, receive_datagram, record_decode_metric, Admission, CloseReason, Connection,
    Counters, Ingest, Metrics, WsAction, WsEvent,
};
use crate::observability::{field_value, FieldValue, Level, LogField, LogRecord};
use crate::protocol::{decode_fault, header_bytes, valid_field, DecodeError, PacketHeader};
use crate::protocol_laws::{law_decode_undoes_encode, law_header_is_determined};
use crate::room_map::nobody;
use crate::routing::{Router, Unregistered};
use crate::routing_laws::law_unregister_undoes_register;
use crate::text::{decimal, hexadecimal};

verus! {

/// The counts begin at zero, and a snapshot says each of them as it is.
pub proof fn law_counts_and_snapshots(zero: Counters, c: &Counters, m: Metrics)
    requires
        call_ensures(Counters::new, (), zero),
        call_ensures(metrics, (c,), m),
    ensures
        zero.udp_packets_received == 0,
        zero.udp_decode_errors == 0,
        zero.ws_messages_received == 0,
        zero.ws_decode_errors == 0,
        zero.ws_connections_active == 0,
        zero.ws_pong_timeouts == 0,
        m.udp_packets_received == c.udp_packets_received,
        m.udp_decode_errors == c.udp_decode_errors,
        m.ws_messages_received == c.ws_messages_received,
        m.ws_decode_errors == c.ws_decode_errors,
        m.ws_connections_active == c.ws_connections_active,
        m.ws_pong_timeouts == c.ws_pong_timeouts,
{
}

/// Every datagram is counted, and every refused one is counted as an error, modulo
/// the range of a counter. No other count changes.
pub proof fn law_datagrams_are_counted(counters: &mut Counters, datagram: &[u8], r: Ingest)
    requires
        call_ensures(receive_datagram, (counters, datagram), r),
    ensures
        ({
            let (before, after) = (*old(counters), *final(counters));
            let range = 0x1_0000_0000_0000_0000int;
            &&& after.udp_packets_received == (before.udp_packets_received + 1) % range
            &&& r is Refused ==> after.udp_decode_errors == (before.udp_decode_errors + 1) % range
            &&& r is Route ==> after.udp_decode_errors == before.udp_decode_errors
            &&& after.ws_messages_received == before.ws_messages_received
            &&& after.ws_decode_errors == before.ws_decode_errors
            &&& after.ws_connections_active == before.ws_connections_active
            &&& after.ws_pong_timeouts == before.ws_pong_timeouts
        }),
{
}

/// A datagram is treated as `decode` treats its bytes: what `decode` accepts is
/// routed under the header that it reads, with all of its bytes; and what `decode`
/// refuses is refused with the same error.
pub proof fn law_datagrams_are_routed_as_decoded(
    counters: &mut Counters,
    datagram: &[u8],
    r: Ingest,
    buf: Bytes,
    decoded: Result<(PacketHeader, Bytes), DecodeError>,
)
    requires
        call_ensures(receive_datagram, (counters, datagram), r),
        bytes_of(buf) == datagram@,
        call_ensures(PacketHeader::decode, (buf,), decoded),
    ensures
        decoded matches Ok((h, payload)) ==> (r matches Ingest::Route { header, frame } && header
            == h && bytes_of(frame) == datagram@),
        decoded matches Err(e) ==> r == Ingest::Refused(e),
{
    if let Ok((h, payload)) = decoded {
        if let Ingest::Route { header, frame } = r {
            law_header_is_determined(h, header, datagram@);
        }
    }
}

/// A datagram that holds an encoded packet, of whatever packet type and target
/// type, is routed whole under the packet's header.
pub proof fn law_encoded_datagrams_are_routed(
    h: &PacketHeader,
    payload: &[u8],
    wire: Bytes,
    counters: &mut Counters,
    datagram: &[u8],
    r: Ingest,
)
    requires
        call_ensures(PacketHeader::encode, (h, payload), wire),
        h.version == 2,
        valid_field(h.room_id@),
        valid_field(h.user_id@),
        h.length == payload@.len(),
        datagram@ == bytes_of(wire),
        call_ensures(receive_datagram, (counters, datagram), r),
    ensures
        r matches Ingest::Route { header, frame } && header == *h && bytes_of(frame) == bytes_of(
            wire,
        ),
{
    law_decode_undoes_encode(*h, payload@);
    assert(decode_fault(datagram@) is None);
}

/// A binary message that holds an encoded packet, of whatever packet type and
/// target type, is routed whole under the packet's header.
pub proof fn law_encoded_messages_are_routed(
    h: &PacketHeader,
    payload: &[u8],
    wire: Bytes,
    connection: &mut Connection,
    counters: &mut Counters,
    data: Bytes,
    now_ns: u128,
    action: WsAction,
)
    requires
        call_ensures(PacketHeader::encode, (h, payload), wire),
        h.version == 2,
        valid_field(h.room_id@),
        valid_field(h.user_id@),
        h.length == payload@.len(),
        bytes_of(data) == bytes_of(wire),
        call_ensures(
            Connection::step,
            (connection, counters, WsEvent::Binary(data), now_ns),
            action,
        ),
    ensures
        action matches WsAction::Route { header, frame } && header == *h && bytes_of(frame)
            == bytes_of(wire),
{
    law_decode_undoes_encode(*h, payload@);
    assert(decode_fault(bytes_of(data)) is None);
}

/// A binary message of the bytes of a well-formed header and a payload of the
/// declared length is routed under that header, with those very bytes, for every
/// packet type and target type.
pub proof fn law_well_formed_messages_are_routed(
    h: PacketHeader,
    payload: Seq<u8>,
    connection: &mut Connection,
    counters: &mut Counters,
    data: Bytes,
    now_ns: u128,
    action: WsAction,
)
    requires
        h.version == 2,
        valid_field(h.room_id@),
        valid_field(h.user_id@),
        h.length == payload.len(),
        bytes_of(data) == header_bytes(h) + payload,
        call_ensures(
            Connection::step,
            (connection, counters, WsEvent::Binary(data), now_ns),
            action,
        ),
    ensures
        action matches WsAction::Route { header, frame } && header == h && bytes_of(frame)
            == bytes_of(data),
{
    law_decode_undoes_encode(h, payload);
}

/// A binary message is treated as `decode` treats its bytes: what `decode` accepts
/// is routed under the header that it reads, with all of its bytes; and what
/// `decode` refuses is reported with the same error.
pub proof fn law_messages_are_routed_as_decoded(
    connection: &mut Connection,
    counters: &mut Counters,
    data: Bytes,
    now_ns: u128,
    action: WsAction,
    decoded: Result<(PacketHeader, Bytes), DecodeError>,
)
    requires
        call_ensures(
            Connection::step,
            (connection, counters, WsEvent::Binary(data), now_ns),
            action,
        ),
        call_ensures(PacketHeader::decode, (data,), decoded),
    ensures
        decoded matches Ok((h, payload)) ==> (action matches WsAction::Route { header, frame }
            && header == h && bytes_of(frame) == bytes_of(data)),
        decoded matches Err(e) ==> action == WsAction::Report(e),
{
    if let Ok((h, payload)) = decoded {
        if let WsAction::Route { header, frame } = action {
            law_header_is_determined(h, header, bytes_of(data));
        }
    }
}

/// Every binary message is counted, and every one that cannot be decoded is counted
/// as an error, modulo the range of a counter. No other count changes.
pub proof fn law_messages_are_counted(
    connection: &mut Connection,
    counters: &mut Counters,
    data: Bytes,
    now_ns: u128,
    action: WsAction,
)
    requires
        call_ensures(
            Connection::step,
            (connection, counters, WsEvent::Binary(data), now_ns),
            action,
        ),
    ensures
        ({
            let (before, after) = (*old(counters), *final(counters));
            let range = 0x1_0000_0000_0000_0000int;
            &&& after.ws_messages_received == (before.ws_messages_received + 1) % range
            &&& action is Report ==> after.ws_decode_errors == (before.ws_decode_errors + 1) % range
            &&& action is Route ==> after.ws_decode_errors == before.ws_decode_errors
            &&& action is Report || action is Route
            &&& after.udp_packets_received == before.udp_packets_received
            &&& after.udp_decode_errors == before.udp_decode_errors
            &&& after.ws_connections_active == before.ws_connections_active
            &&& after.ws_pong_timeouts == before.ws_pong_timeouts
        }),
{
}

/// A connection stays that of its user in its room, with its channel. A message of
/// the client, whatever it holds, is a sign of life; nothing else is.
pub proof fn law_signs_of_life(
    connection: &mut Connection,
    counters: &mut Counters,
    event: WsEvent,
    now_ns: u128,
    action: WsAction,
)
    requires
        call_ensures(Connection::step, (connection, counters, event, now_ns), action),
    ensures
        final(connection).room@ == old(connection).room@,
        final(connection).user@ == old(connection).user@,
        final(connection).rx.id == old(connection).rx.id,
        event is Binary || event is Pong || event is Ping || event is Other
            ==> final(connection).last_alive_ns == now_ns,
        event is Closed || event is ReadFailed || event is Outbound || event is Written
            || event is PingDue || event is PingWritten ==> final(connection).last_alive_ns
            == old(connection).last_alive_ns,
{
}

/// What is done about the events that are no binary message and no ping. Other
/// messages of the client ask for nothing. What waits for the client is written to
/// it, byte for byte. The connection ends when the client closes it, when reading or
/// writing fails, and when nothing waits and no sender is left; else it goes on. No
/// count changes.
pub proof fn law_other_events(
    connection: &mut Connection,
    counters: &mut Counters,
    event: WsEvent,
    now_ns: u128,
    action: WsAction,
)
    requires
        call_ensures(Connection::step, (connection, counters, event, now_ns), action),
        !(event is Binary),
        !(event is PingWritten),
    ensures
        *final(counters) == *old(counters),
        event is Pong || event is Ping || event is Other ==> action is Wait,
        event is Closed ==> action == WsAction::Close(CloseReason::ClientClosed),
        event is ReadFailed ==> action == WsAction::Close(CloseReason::ReadFailed),
        event matches WsEvent::Outbound(Recv::Item(item)) ==> (action matches WsAction::Write(frame)
            && bytes_of(frame) == bytes_of(item)),
        event matches WsEvent::Outbound(Recv::Closed) ==> action == WsAction::Close(
            CloseReason::SendersGone,
        ),
        event matches WsEvent::Outbound(Recv::Wait) ==> action is Wait,
        event matches WsEvent::Written { ok } ==> if ok {
            action is Wait
        } else {
            action == WsAction::Close(CloseReason::WriteFailed)
        },
        event is PingDue ==> action is WritePing,
{
}

/// After a ping was written, a connection is ended just where more than 30 s have
/// passed since the last sign of life, and only then a timeout is counted. Where it
/// could not be written, the connection is ended for that. No other count changes.
pub proof fn law_pings_and_silence(
    connection: &mut Connection,
    counters: &mut Counters,
    ok: bool,
    now_ns: u128,
    action: WsAction,
)
    requires
        call_ensures(
            Connection::step,
            (connection, counters, WsEvent::PingWritten { ok }, now_ns),
            action,
        ),
    ensures
        ({
            let (before, after) = (*old(counters), *final(counters));
            let silent = now_ns - old(connection).last_alive_ns > 30_000_000_000;
            let range = 0x1_0000_0000_0000_0000int;
            &&& !ok ==> action == WsAction::Close(CloseReason::WriteFailed)
            &&& ok && silent ==> action == WsAction::Close(CloseReason::PongTimeout)
            &&& ok && !silent ==> action is Wait
            &&& ok && silent ==> after.ws_pong_timeouts == (before.ws_pong_timeouts + 1) % range
            &&& !(ok && silent) ==> after.ws_pong_timeouts == before.ws_pong_timeouts
            &&& after.udp_packets_received == before.udp_packets_received
            &&& after.udp_decode_errors == before.udp_decode_errors
            &&& after.ws_messages_received == before.ws_messages_received
            &&& after.ws_decode_errors == before.ws_decode_errors
            &&& after.ws_connections_active == before.ws_connections_active
        }),
{
}

/// A client is let in just where room and user are ASCII. Else the answer is a bad
/// request, which names the room if that is at fault and else the user.
pub proof fn law_who_is_let_in(room: &str, user: &str, a: Admission)
    requires
        call_ensures(admission, (room, user), a),
    ensures
        ({
            let room_is_ascii = forall|i: int|
                0 <= i < room@.len() ==> '\0' <= #[trigger] room@[i] <= '\u{7f}';
            let user_is_ascii = forall|i: int|
                0 <= i < user@.len() ==> '\0' <= #[trigger] user@[i] <= '\u{7f}';
            &&& a is Accepted <==> room_is_ascii && user_is_ascii
            &&& a matches Admission::Rejected { status, reason } ==> {
                &&& status == 400
                &&& !room_is_ascii ==> reason@ == "room must be ASCII"@
                &&& room_is_ascii ==> reason@ == "user must be ASCII"@
            }
        }),
{
}

/// A connection that is opened is that of its user in its room, alive now. The user
/// is in the room on its channel, which is new, empty, holds 64 items and has one
/// sender. All other users stay where they are, and one connection more is counted.
pub proof fn law_opening_a_connection(
    router: &mut Router,
    table: &mut ChannelTable<Bytes>,
    counters: &mut Counters,
    room: &str,
    user: &str,
    now_ns: u128,
    connection: Connection,
    kicked: Option<u64>,
)
    requires
        call_ensures(
            Connection::open,
            (router, table, counters, room, user, now_ns),
            (connection, kicked),
        ),
        forall|r: Seq<char>, u: Seq<char>|
            #![trigger old(router)@[r].contains_key(u)]
            old(router)@.contains_key(r) && old(router)@[r].contains_key(u)
                ==> old(router)@[r][u] != connection.rx.id,
    ensures
        connection.room@ == room@,
        connection.user@ == user@,
        connection.last_alive_ns == now_ns,
        ({
            let (rooms, after) = (old(router)@, final(router)@);
            &&& after.contains_key(room@)
            &&& after[room@].contains_key(user@)
            &&& after[room@][user@] == connection.rx.id
            &&& after.remove(room@) == rooms.remove(room@)
            &&& rooms.contains_key(room@) ==> after[room@].remove(user@) == rooms[room@].remove(
                user@,
            )
            &&& !rooms.contains_key(room@) ==> forall|u: Seq<char>|
                u != user@ ==> !(#[trigger] after[room@].contains_key(u))
            &&& kicked is Some <==> rooms.contains_key(room@) && rooms[room@].contains_key(user@)
            &&& kicked matches Some(k) ==> k == rooms[room@][user@]
        }),
        ({
            let (before, after, id) = (old(table)@, final(table)@, connection.rx.id);
            &&& !before.contains_key(id)
            &&& after.contains_key(id)
            &&& after[id].queue.len() == 0
            &&& after[id].capacity == 64
            &&& after[id].senders == 1
            &&& kicked is None ==> after.remove(id) == before
            &&& kicked matches Some(k) ==> {
                &&& after.remove(id).remove(k) == before.remove(k)
                &&& before.contains_key(k) ==> {
                    &&& after.contains_key(k)
                    &&& after[k].queue == before[k].queue
                    &&& after[k].capacity == before[k].capacity
                    &&& before[k].senders > 0 ==> after[k].senders == before[k].senders - 1
                }
            }
        }),
        ({
            let (before, after) = (*old(counters), *final(counters));
            &&& after.ws_connections_active == (before.ws_connections_active + 1)
                % 0x1_0000_0000_0000_0000int
            &&& after.udp_packets_received == before.udp_packets_received
            &&& after.udp_decode_errors == before.udp_decode_errors
            &&& after.ws_messages_received == before.ws_messages_received
            &&& after.ws_decode_errors == before.ws_decode_errors
            &&& after.ws_pong_timeouts == before.ws_pong_timeouts
        }),
{
    let (rooms, rooms_after) = (old(router)@, final(router)@);
    let (before, after, id) = (old(table)@, final(table)@, connection.rx.id);
    assert(rooms_after.remove(room@) =~= rooms.remove(room@));
    if rooms.contains_key(room@) {
        assert(rooms_after[room@].remove(user@) =~= rooms[room@].remove(user@));
    }
    match kicked {
        None => {
            assert(after.remove(id) =~= before);
        },
        Some(k) => {
            assert(rooms[room@].contains_key(user@));
            assert(k != id);
            assert(after.remove(id).remove(k) =~= before.remove(k));
        },
    }
}

/// A connection that ends gives up its channel, and no other channel changes. It
/// takes its user out of the room just where the user is still there on its
/// channel; all others stay. One connection fewer is counted.
pub proof fn law_closing_a_connection(
    connection: Connection,
    router: &mut Router,
    table: &mut ChannelTable<Bytes>,
    counters: &mut Counters,
    r: Unregistered,
    other: Seq<char>,
)
    requires
        call_ensures(Connection::close, (connection, router, table, counters), r),
    ensures
        final(table)@ == old(table)@.remove(connection.rx.id),
        ({
            let (rooms, after) = (old(router)@, final(router)@);
            let (room, user, id) = (connection.room@, connection.user@, connection.rx.id);
            let own = rooms.contains_key(room) && rooms[room].contains_key(user)
                && rooms[room][user] == id;
            &&& !own ==> after == rooms && r.channel is None && !r.room_destroyed
            &&& own ==> {
                &&& r.channel == Some(id)
                &&& !(after.contains_key(room) && after[room].contains_key(user))
                &&& after.remove(room) == rooms.remove(room)
                &&& after.contains_key(room) ==> after[room] == rooms[room].remove(user)
                &&& other != user && rooms[room].contains_key(other) ==> after.contains_key(room)
                &&& r.room_destroyed <==> !after.contains_key(room)
            }
        }),
        ({
            let (before, after) = (*old(counters), *final(counters));
            &&& before.ws_connections_active == (after.ws_connections_active + 1)
                % 0x1_0000_0000_0000_0000int
            &&& after.udp_packets_received == before.udp_packets_received
            &&& after.udp_decode_errors == before.udp_decode_errors
            &&& after.ws_messages_received == before.ws_messages_received
            &&& after.ws_decode_errors == before.ws_decode_errors
            &&& after.ws_pong_timeouts == before.ws_pong_timeouts
        }),
{
    let (rooms, after) = (old(router)@, final(router)@);
    let (room, user, id) = (connection.room@, connection.user@, connection.rx.id);
    if rooms.contains_key(room) && rooms[room].contains_key(user) && rooms[room][user] == id {
        assert(after.remove(room) =~= rooms.remove(room));
        if other != user && rooms[room].contains_key(other) {
            assert(rooms[room].remove(user).contains_key(other));
        }
    }
}

/// Closing a connection right after it was opened leaves rooms, channels and counts
/// as they were, where the user was not in the room before and no room was empty.
pub proof fn law_open_and_close(
    router: &mut Router,
    table: &mut ChannelTable<Bytes>,
    counters: &mut Counters,
    room: &str,
    user: &str,
    now_ns: u128,
    connection: Connection,
    kicked: Option<u64>,
    later_router: &mut Router,
    later_table: &mut ChannelTable<Bytes>,
    later_counters: &mut Counters,
    r: Unregistered,
)
    requires
        call_ensures(
            Connection::open,
            (router, table, counters, room, user, now_ns),
            (connection, kicked),
        ),
        *old(later_router) == *final(router),
        *old(later_table) == *final(table),
        *old(later_counters) == *final(counters),
        call_ensures(
            Connection::close,
            (connection, later_router, later_table, later_counters),
            r,
        ),
        !(old(router)@.contains_key(room@) && old(router)@[room@].contains_key(user@)),
        forall|r: Seq<char>| #[trigger]
            old(router)@.contains_key(r) ==> old(router)@[r].dom() != Set::<Seq<char>>::empty(),
    ensures
        final(later_router)@ == old(router)@,
        final(later_table)@ == old(table)@,
        *final(later_counters) == *old(counters),
{
    let rooms = old(router)@;
    assert forall|r: Seq<char>| #[trigger] rooms.contains_key(r) implies rooms[r]
        != nobody() by {
        if rooms[r] == nobody() {
            assert(rooms[r].dom() =~= Set::<Seq<char>>::empty());
        }
    }
    law_unregister_undoes_register(rooms, room@, user@, connection.rx.id);
    assert(final(later_table)@ =~= old(table)@);
}

/// What is logged of a refused packet: a warning that says what is wrong, with the
/// values that were found.
pub proof fn law_refusals_are_logged(e: &DecodeError, r: LogRecord, v: u8, d: u16, a: usize)
    requires
        call_ensures(record_decode_metric, (e,), r),
    ensures
        r.level is Warn,
        e is TooShort ==> r.message@ == "decode: packet too short (min "@ + decimal(24)
            + " B, protocol v"@ + hexadecimal(2) + ")"@,
        e is UnsupportedVersion ==> r.message@ == "decode: unsupported protocol version"@,
        e is NonZeroReserved ==> r.message@ == "decode: reserved field must be 0x00"@,
        e is UnknownPacketType ==> r.message@ == "decode: unknown packet type"@,
        e is UnknownTargetType ==> r.message@ == "decode: unknown target type"@,
        e is NonAsciiRoomId ==> r.message@ == "decode: room_id contains non-ASCII bytes"@,
        e is NonAsciiUserId ==> r.message@ == "decode: user_id contains non-ASCII bytes"@,
        e is LengthMismatch ==> r.message@ == "decode: payload length mismatch"@,
        e is TooShort || e is NonAsciiRoomId || e is NonAsciiUserId ==> r.fields@.len() == 0,
        *e == DecodeError::UnsupportedVersion(v) ==> r.fields@.len() == 1 && r.fields@[0].name@
            == "version"@ && r.fields@[0].value == FieldValue::Number(v as u64),
        *e == DecodeError::NonZeroReserved(v) ==> r.fields@.len() == 1 && r.fields@[0].name@
            == "value"@ && r.fields@[0].value == FieldValue::Number(v as u64),
        *e == DecodeError::UnknownPacketType(v) || *e == DecodeError::UnknownTargetType(v)
            ==> r.fields@.len() == 1 && r.fields@[0].name@ == "raw_type"@ && r.fields@[0].value
            == FieldValue::Number(v as u64),
        (*e == DecodeError::LengthMismatch { declared: d, actual: a }) ==> r.fields@.len() == 2
            && r.fields@[0].name@ == "declared"@ && r.fields@[0].value == FieldValue::Number(
            d as u64,
        ) && r.fields@[1].name@ == "actual"@ && r.fields@[1].value == FieldValue::Number(a as u64),
{
    let shown = r.fields@.map_values(|f: LogField| (f.name@, field_value(f.value)));
    assert(shown.len() == r.fields@.len());
    if shown.len() > 0 {
        assert(shown[0] == (r.fields@[0].name@, field_value(r.fields@[0].value)));
    }
    if shown.len() > 1 {
        assert(shown[1] == (r.fields@[1].name@, field_value(r.fields@[1].value)));
    }
    assert(r.level == Level::Warn);
}

} // verus!
