//! What holds of the network layer as a whole.

use bytes::Bytes;
use vstd::prelude::*;

use crate::buffer::bytes_of;
use crate::channel::ChannelState;
use crate::network::{
    alive_after, answers, ingested, one_fewer, one_more, shows_life, CloseReason,
    Ingest, WsAction, WsEvent, PONG_TIMEOUT_NS,
};
use crate::protocol::{decode_fault, header_bytes, reads_header, PacketHeader, HEADER_LEN};
use crate::protocol_laws::{law_decode_undoes_encode, well_formed_header};
use crate::routing::{
    after_delivery, after_release, channel_of, delivery_verdict, with_user, without_user,
};
use crate::routing_laws::{law_unregister_undoes_register, no_empty_rooms};

verus! {

/// When the client last showed a sign of life, after the events of `history`,
/// each with its time.
pub open spec fn alive_after_all(last_alive_ns: u128, history: Seq<(WsEvent, u128)>) -> u128
    decreases history.len(),
{
    if history.len() == 0 {
        last_alive_ns
    } else {
        let (event, now_ns) = history.last();
        alive_after(alive_after_all(last_alive_ns, history.drop_last()), event, now_ns)
    }
}

/// A frame that is let in and delivered arrives whole: its receiver reads from it
/// the same header, with the same sequence number, and the same payload.
pub proof fn law_frame_arrives_as_sent(
    header: PacketHeader,
    payload: Seq<u8>,
    taken_in: Ingest,
    table: Map<u64, ChannelState<Seq<u8>>>,
    id: u64,
)
    requires
        well_formed_header(header),
        header.length == payload.len(),
        ingested(header_bytes(header) + payload, taken_in),
        table.contains_key(id),
        delivery_verdict(table, id, header.packet_type) is Delivered,
    ensures
        taken_in matches Ingest::Route { header: read, frame } && read == header && {
            let arrived = after_delivery(
                table,
                id,
                header.packet_type,
                bytes_of(frame),
            )[id].queue.last();
            &&& decode_fault(arrived) is None
            &&& reads_header(header, arrived)
            &&& arrived.skip(HEADER_LEN as int) == payload
        },
{
    law_decode_undoes_encode(header, payload);
    let raw = header_bytes(header) + payload;
    assert(reads_header(header, raw));
}

/// Frames that are let in are those that can be decoded.
pub proof fn law_only_sound_frames_are_routed(raw: Seq<u8>, taken_in: Ingest)
    requires
        ingested(raw, taken_in),
    ensures
        taken_in is Route <==> decode_fault(raw) is None,
        taken_in is Refused <==> decode_fault(raw) is Some,
{
}

/// A connection is not ended by a ping within the permitted time after a sign of
/// life, if the ping can be written.
pub proof fn law_live_connection_is_kept(
    last_alive_ns: u128,
    event: WsEvent,
    event_ns: u128,
    ping_ns: u128,
    action: WsAction,
)
    requires
        shows_life(event),
        ping_ns - event_ns <= PONG_TIMEOUT_NS,
        answers(
            action,
            alive_after(last_alive_ns, event, event_ns),
            WsEvent::PingWritten { ok: true },
            ping_ns,
        ),
    ensures
        action is Wait,
{
}

/// A connection whose client shows no sign of life, whatever else happens on it,
/// is ended by the first ping after the permitted time.
pub proof fn law_silent_connection_is_ended(
    last_alive_ns: u128,
    history: Seq<(WsEvent, u128)>,
    ping_ns: u128,
    action: WsAction,
)
    requires
        forall|i: int| 0 <= i < history.len() ==> !shows_life((#[trigger] history[i]).0),
        ping_ns - last_alive_ns > PONG_TIMEOUT_NS,
        answers(
            action,
            alive_after_all(last_alive_ns, history),
            WsEvent::PingWritten { ok: true },
            ping_ns,
        ),
    ensures
        alive_after_all(last_alive_ns, history) == last_alive_ns,
        action == WsAction::Close(CloseReason::PongTimeout),
{
    lemma_silence(last_alive_ns, history);
}

/// Without a sign of life the time of the last one stays.
proof fn lemma_silence(last_alive_ns: u128, history: Seq<(WsEvent, u128)>)
    requires
        forall|i: int| 0 <= i < history.len() ==> !shows_life((#[trigger] history[i]).0),
    ensures
        alive_after_all(last_alive_ns, history) == last_alive_ns,
    decreases history.len(),
{
    if history.len() > 0 {
        let front = history.drop_last();
        assert forall|i: int| 0 <= i < front.len() implies !shows_life((#[trigger] front[i]).0) by {
            assert(front[i] == history[i]);
        }
        assert(!shows_life(history[history.len() - 1].0));
        lemma_silence(last_alive_ns, front);
    }
}

/// A message of the client never ends its connection.
pub proof fn law_messages_do_not_end_a_connection(
    last_alive_ns: u128,
    event: WsEvent,
    now_ns: u128,
    action: WsAction,
)
    requires
        shows_life(event),
        answers(action, last_alive_ns, event, now_ns),
    ensures
        !(action is Close),
{
}

/// Closing a connection undoes opening it: where the user was not in the room
/// before, rooms, channels and the count of connections are as they were.
pub proof fn law_close_undoes_open(
    rooms: Map<Seq<char>, Map<Seq<char>, u64>>,
    table: Map<u64, ChannelState<Bytes>>,
    active: u64,
    room: Seq<char>,
    user: Seq<char>,
    id: u64,
    capacity: nat,
)
    requires
        no_empty_rooms(rooms),
        channel_of(rooms, room, user) is None,
        !table.contains_key(id),
    ensures
        channel_of(with_user(rooms, room, user, id), room, user) == Some(id),
        without_user(with_user(rooms, room, user, id), room, user) == rooms,
        after_release(
            table.insert(id, ChannelState::empty(capacity)),
            channel_of(rooms, room, user),
        ).remove(id) == table,
        one_fewer(one_more(active)) == active,
{
    law_unregister_undoes_register(rooms, room, user, id);
    assert(table.insert(id, ChannelState::empty(capacity)).remove(id) =~= table);
}

} // verus!
