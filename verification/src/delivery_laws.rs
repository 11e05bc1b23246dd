//! Where a packet goes and what it leaves there: for every call of `Router::route`,
//! how the deliveries and the channels after it relate to the header, the payload,
//! the rooms and the channels before it.

use bytes::Bytes;
use vstd::prelude::*;

use crate::buffer::bytes_of;
use crate::channel::{ChannelState, ChannelTable};
use crate::payload_laws::law_verdict_ignores_payload_and_order;
use crate::protocol::{field_text, PacketHeader, PacketType};
use crate::routing::{
    after_deliveries, after_delivery, delivery_channels, traffic, wire_state, Delivery,
    Disposition, PendingRetry, RetryStep, RouteOutcome, Router,
};
use crate::routing_laws::{
    law_broadcast_serves_everybody_once, law_unicast_serves_one, lemma_deliveries_keep_channels,
};

verus! {

/// The bytes of the items of a queue, in their order.
pub open spec fn wire(queue: Seq<Bytes>) -> Seq<Seq<u8>> {
    queue.map_values(|item: Bytes| bytes_of(item))
}

/// The bytes of a queue are those of its items, one by one.
pub proof fn law_wire_is_item_by_item(queue: Seq<Bytes>)
    ensures
        wire(queue).len() == queue.len(),
        forall|i: int| 0 <= i < queue.len() ==> #[trigger] wire(queue)[i] == bytes_of(queue[i]),
{
}

/// The channels as bytes are those channels, each with the bytes of its items, in
/// their order.
pub proof fn law_traffic_is_channel_by_channel(table: Map<u64, ChannelState<Bytes>>, id: u64)
    ensures
        traffic(table).contains_key(id) <==> table.contains_key(id),
        table.contains_key(id) ==> {
            &&& traffic(table)[id].queue == wire(table[id].queue)
            &&& traffic(table)[id].capacity == table[id].capacity
            &&& traffic(table)[id].senders == table[id].senders
        },
{
    if table.contains_key(id) {
        assert(traffic(table)[id] == wire_state(table[id]));
    }
}

/// What a packet does to the channel of one receiver. Motion data is put behind all
/// that waits, and only the oldest item goes if the channel was full. Any other
/// packet is put behind all that waits if there is room, and nothing goes. If there
/// is none, the queue stays as it is; a command then holds a sender more, to be
/// tried again. Nothing else changes, in this channel or in others.
pub proof fn law_delivery_policy(
    table: Map<u64, ChannelState<Seq<u8>>>,
    id: u64,
    t: PacketType,
    payload: Seq<u8>,
)
    requires
        table.contains_key(id),
    ensures
        ({
            let after = after_delivery(table, id, t, payload);
            let (queue, capacity) = (table[id].queue, table[id].capacity);
            &&& after.contains_key(id)
            &&& after.remove(id) == table.remove(id)
            &&& after[id].capacity == capacity
            &&& queue.len() < capacity || (t is RawMotion && queue.len() == 0) ==> {
                &&& after[id].queue == queue.push(payload)
                &&& after[id].senders == table[id].senders
            }
            &&& queue.len() >= capacity && queue.len() > 0 && t is RawMotion ==> {
                &&& after[id].queue == queue.skip(1).push(payload)
                &&& after[id].senders == table[id].senders
            }
            &&& queue.len() >= capacity && !(t is RawMotion) ==> {
                &&& after[id].queue == queue
                &&& after[id].senders == if t is SystemCmd {
                    table[id].senders + 1
                } else {
                    table[id].senders
                }
            }
        }),
{
    assert(after_delivery(table, id, t, payload).remove(id) =~= table.remove(id));
}

/// A packet finds no room just where there is none of the name in its header, and
/// no user just where it is for one user and the room has none of that name. Both
/// leave all channels as they are. Else it is handed out.
pub proof fn law_where_a_packet_goes(
    router: &Router,
    table: &mut ChannelTable<Bytes>,
    header: &PacketHeader,
    payload: Bytes,
    outcome: RouteOutcome,
    room: &str,
    user: &str,
)
    requires
        call_ensures(Router::route, (router, table, header, payload), outcome),
        call_ensures(PacketHeader::room_id_str, (header,), room),
        call_ensures(PacketHeader::user_id_str, (header,), user),
    ensures
        outcome is RoomNotFound <==> !router@.contains_key(room@),
        outcome is UserNotFound <==> router@.contains_key(room@) && header.target_type is Unicast
            && !router@[room@].contains_key(user@),
        !(outcome is Dispatched) ==> final(table)@ == old(table)@,
        final(table)@.dom() == old(table)@.dom(),
{
    if let RouteOutcome::Dispatched(deliveries) = outcome {
        let before = traffic(old(table)@);
        lemma_deliveries_keep_channels(
            before,
            delivery_channels(deliveries@),
            header.packet_type,
            bytes_of(payload),
        );
        assert(traffic(final(table)@).dom() == before.dom());
        assert forall|id: u64| final(table)@.contains_key(id) <==> old(table)@.contains_key(
            id,
        ) by {
            law_traffic_is_channel_by_channel(final(table)@, id);
            law_traffic_is_channel_by_channel(old(table)@, id);
            assert(traffic(final(table)@).dom().contains(id) == before.dom().contains(id));
        }
    }
    assert(final(table)@.dom() =~= old(table)@.dom());
}

/// A packet for everybody in a room is handed to every user there, whatever its
/// type and whoever sent it: each once, on that user's channel, and to nobody else.
pub proof fn law_broadcast_goes_to_everybody(
    router: &Router,
    table: &mut ChannelTable<Bytes>,
    header: &PacketHeader,
    payload: Bytes,
    outcome: RouteOutcome,
    room: &str,
)
    requires
        call_ensures(Router::route, (router, table, header, payload), outcome),
        call_ensures(PacketHeader::room_id_str, (header,), room),
        header.target_type is Broadcast,
        router@.contains_key(room@),
    ensures
        outcome matches RouteOutcome::Dispatched(d) && {
            let users = router@[room@];
            &&& forall|u: Seq<char>| #[trigger]
                users.contains_key(u) ==> exists|i: int|
                    #![trigger d@[i]]
                    0 <= i < d@.len() && d@[i].user_id@ == u && d@[i].channel == users[u]
            &&& forall|i: int|
                #![trigger d@[i]]
                0 <= i < d@.len() ==> users.contains_key(d@[i].user_id@) && d@[i].channel
                    == users[d@[i].user_id@]
            &&& forall|i: int, j: int|
                #![trigger d@[i], d@[j]]
                0 <= i < j < d@.len() ==> d@[i].user_id@ != d@[j].user_id@
        },
{
    if let RouteOutcome::Dispatched(d) = outcome {
        let users = router@[room@];
        let listed = d@.map_values(|d: Delivery| (d.user_id, d.channel));
        assert forall|u: Seq<char>| #[trigger] users.contains_key(u) implies exists|i: int|
            #![trigger d@[i]]
            0 <= i < d@.len() && d@[i].user_id@ == u && d@[i].channel == users[u] by {
            let i = choose|i: int| #![trigger listed[i]] 0 <= i < listed.len() && listed[i].0@ == u;
            assert(d@[i].user_id == listed[i].0 && d@[i].channel == listed[i].1);
        }
        assert forall|i: int| #![trigger d@[i]] 0 <= i < d@.len() implies users.contains_key(
            d@[i].user_id@,
        ) && d@[i].channel == users[d@[i].user_id@] by {
            assert(d@[i].user_id == listed[i].0 && d@[i].channel == listed[i].1);
        }
        assert forall|i: int, j: int|
            #![trigger d@[i], d@[j]]
            0 <= i < j < d@.len() implies d@[i].user_id@ != d@[j].user_id@ by {
            assert(d@[i].user_id == listed[i].0 && d@[j].user_id == listed[j].0);
        }
    }
}

/// A packet for one user in a room is handed to that user, on that user's channel,
/// once, and to nobody else.
pub proof fn law_unicast_goes_to_the_named_user(
    router: &Router,
    table: &mut ChannelTable<Bytes>,
    header: &PacketHeader,
    payload: Bytes,
    outcome: RouteOutcome,
    room: &str,
    user: &str,
)
    requires
        call_ensures(Router::route, (router, table, header, payload), outcome),
        call_ensures(PacketHeader::room_id_str, (header,), room),
        call_ensures(PacketHeader::user_id_str, (header,), user),
        header.target_type is Unicast,
        router@.contains_key(room@),
        router@[room@].contains_key(user@),
    ensures
        outcome matches RouteOutcome::Dispatched(d) && {
            &&& d@.len() == 1
            &&& d@[0].user_id@ == user@
            &&& d@[0].channel == router@[room@][user@]
        },
{
    if let RouteOutcome::Dispatched(d) = outcome {
        let listed = d@.map_values(|d: Delivery| (d.user_id, d.channel));
        assert(d@[0].user_id == listed[0].0 && d@[0].channel == listed[0].1);
    }
}

/// What a packet that was handed to channel `id` alone has done there, and what
/// it has done to a channel to which it was not handed.
proof fn lemma_served_channel(
    before: Map<u64, ChannelState<Bytes>>,
    after: Map<u64, ChannelState<Bytes>>,
    id: u64,
    t: PacketType,
    payload: Seq<u8>,
)
    requires
        before.contains_key(id),
        after.contains_key(id),
        traffic(after)[id] == after_delivery(traffic(before), id, t, payload)[id],
    ensures
        ({
            let (queue, capacity) = (wire(before[id].queue), before[id].capacity);
            &&& after[id].capacity == capacity
            &&& queue.len() < capacity || (t is RawMotion && queue.len() == 0) ==> {
                &&& wire(after[id].queue) == queue.push(payload)
                &&& after[id].senders == before[id].senders
            }
            &&& queue.len() >= capacity && queue.len() > 0 && t is RawMotion ==> {
                &&& wire(after[id].queue) == queue.skip(1).push(payload)
                &&& after[id].senders == before[id].senders
            }
            &&& queue.len() >= capacity && !(t is RawMotion) ==> {
                &&& wire(after[id].queue) == queue
                &&& after[id].senders == if t is SystemCmd {
                    before[id].senders + 1
                } else {
                    before[id].senders
                }
            }
        }),
{
    law_traffic_is_channel_by_channel(before, id);
    law_traffic_is_channel_by_channel(after, id);
    law_delivery_policy(traffic(before), id, t, payload);
}

/// A packet for everybody in a room in which each user has a channel of its own
/// leaves each of these channels as if it had been handed to that user alone:
/// motion data behind all that waits, with only the oldest item gone if the channel
/// was full; any other packet behind all that waits if there is room; and else the
/// queue as it was. All other channels stay as they are.
pub proof fn law_broadcast_leaves_the_packet_with_everybody(
    router: &Router,
    table: &mut ChannelTable<Bytes>,
    header: &PacketHeader,
    payload: Bytes,
    outcome: RouteOutcome,
    room: &str,
    id: u64,
)
    requires
        call_ensures(Router::route, (router, table, header, payload), outcome),
        call_ensures(PacketHeader::room_id_str, (header,), room),
        header.target_type is Broadcast,
        router@.contains_key(room@),
        forall|a: Seq<char>, b: Seq<char>|
            #![trigger router@[room@][a], router@[room@][b]]
            router@[room@].contains_key(a) && router@[room@].contains_key(b)
                && router@[room@][a] == router@[room@][b] ==> a == b,
        old(table)@.contains_key(id),
    ensures
        ({
            let (before, after) = (old(table)@[id], final(table)@[id]);
            let (queue, capacity) = (wire(before.queue), before.capacity);
            let p = bytes_of(payload);
            let t = header.packet_type;
            let member = exists|u: Seq<char>|
                #![trigger router@[room@][u]]
                router@[room@].contains_key(u) && router@[room@][u] == id;
            &&& final(table)@.contains_key(id)
            &&& after.capacity == capacity
            &&& !member ==> wire(after.queue) == queue && after.senders == before.senders
            &&& member && (queue.len() < capacity || (t is RawMotion && queue.len() == 0)) ==> {
                &&& wire(after.queue) == queue.push(p)
                &&& after.senders == before.senders
            }
            &&& member && queue.len() >= capacity && queue.len() > 0 && t is RawMotion ==> {
                &&& wire(after.queue) == queue.skip(1).push(p)
                &&& after.senders == before.senders
            }
            &&& member && queue.len() >= capacity && !(t is RawMotion) ==> {
                &&& wire(after.queue) == queue
                &&& after.senders == if t is SystemCmd {
                    before.senders + 1
                } else {
                    before.senders
                }
            }
        }),
{
    law_broadcast_goes_to_everybody(router, table, header, payload, outcome, room);
    let users = router@[room@];
    let t = header.packet_type;
    let p = bytes_of(payload);
    let before = traffic(old(table)@);
    law_traffic_is_channel_by_channel(old(table)@, id);
    law_traffic_is_channel_by_channel(final(table)@, id);
    if let RouteOutcome::Dispatched(d) = outcome {
        law_broadcast_serves_everybody_once(before, users, Seq::empty(), d@, t, p);
        let after = after_deliveries(before, delivery_channels(d@), t, p);
        assert(after.dom().contains(id));
        if exists|u: Seq<char>| #![trigger users[u]] users.contains_key(u) && users[u] == id {
            let u = choose|u: Seq<char>|
                #![trigger users[u]]
                users.contains_key(u) && users[u] == id;
            assert(after[users[u]] == after_delivery(before, users[u], t, p)[users[u]]);
            lemma_served_channel(old(table)@, final(table)@, id, t, p);
        } else {
            assert(after[id] == before[id]);
        }
    }
}

/// A packet for one user in a room leaves that user's channel with the packet:
/// motion data behind all that waits, with only the oldest item gone if the channel
/// was full; any other packet behind all that waits if there is room; and else the
/// queue as it was. All other channels stay as they are.
pub proof fn law_unicast_leaves_the_packet_with_the_named_user(
    router: &Router,
    table: &mut ChannelTable<Bytes>,
    header: &PacketHeader,
    payload: Bytes,
    outcome: RouteOutcome,
    room: &str,
    user: &str,
    id: u64,
)
    requires
        call_ensures(Router::route, (router, table, header, payload), outcome),
        call_ensures(PacketHeader::room_id_str, (header,), room),
        call_ensures(PacketHeader::user_id_str, (header,), user),
        header.target_type is Unicast,
        router@.contains_key(room@),
        router@[room@].contains_key(user@),
        old(table)@.contains_key(id),
    ensures
        ({
            let (before, after) = (old(table)@[id], final(table)@[id]);
            let (queue, capacity) = (wire(before.queue), before.capacity);
            let p = bytes_of(payload);
            let t = header.packet_type;
            let named = router@[room@][user@] == id;
            &&& final(table)@.contains_key(id)
            &&& after.capacity == capacity
            &&& !named ==> wire(after.queue) == queue && after.senders == before.senders
            &&& named && (queue.len() < capacity || (t is RawMotion && queue.len() == 0)) ==> {
                &&& wire(after.queue) == queue.push(p)
                &&& after.senders == before.senders
            }
            &&& named && queue.len() >= capacity && queue.len() > 0 && t is RawMotion ==> {
                &&& wire(after.queue) == queue.skip(1).push(p)
                &&& after.senders == before.senders
            }
            &&& named && queue.len() >= capacity && !(t is RawMotion) ==> {
                &&& wire(after.queue) == queue
                &&& after.senders == if t is SystemCmd {
                    before.senders + 1
                } else {
                    before.senders
                }
            }
        }),
{
    law_unicast_goes_to_the_named_user(router, table, header, payload, outcome, room, user);
    let t = header.packet_type;
    let p = bytes_of(payload);
    let before = traffic(old(table)@);
    let receiver = router@[room@][user@];
    law_traffic_is_channel_by_channel(old(table)@, id);
    law_traffic_is_channel_by_channel(final(table)@, id);
    if let RouteOutcome::Dispatched(d) = outcome {
        law_unicast_serves_one(before, router@[room@], user@, d@, t, p);
        if receiver == id {
            law_delivery_policy(before, id, t, p);
            lemma_served_channel(old(table)@, final(table)@, id, t, p);
        } else if before.contains_key(receiver) {
            law_delivery_policy(before, receiver, t, p);
            let after = after_delivery(before, receiver, t, p);
            assert(after.remove(receiver)[id] == before.remove(receiver)[id]);
            assert(after.remove(receiver).contains_key(id));
        }
    }
}

/// What is said of a delivery: that the packet was delivered just where it is
/// motion data or the receiver's channel has room (or no receiver any more), that it
/// is to be tried again just where it is a command and the channel is full, and
/// that it was dropped in the other cases. What is to be tried again is the payload
/// itself, for that user in that room, on that channel.
pub proof fn law_what_is_said_of_a_delivery(
    router: &Router,
    table: &mut ChannelTable<Bytes>,
    header: &PacketHeader,
    payload: Bytes,
    d: Vec<Delivery>,
    room: &str,
    i: int,
)
    requires
        call_ensures(
            Router::route,
            (router, table, header, payload),
            RouteOutcome::Dispatched(d),
        ),
        call_ensures(PacketHeader::room_id_str, (header,), room),
        forall|a: Seq<char>, b: Seq<char>|
            #![trigger router@[room@][a], router@[room@][b]]
            router@[room@].contains_key(a) && router@[room@].contains_key(b)
                && router@[room@][a] == router@[room@][b] ==> a == b,
        0 <= i < d@.len(),
    ensures
        ({
            let (before, id) = (old(table)@, d@[i].channel);
            let full = before.contains_key(id) && before[id].queue.len() >= before[id].capacity;
            let t = header.packet_type;
            let said = d@[i].disposition;
            &&& said is Delivered <==> t is RawMotion || !full
            &&& said is Retrying <==> t is SystemCmd && full
            &&& said is Dropped <==> (t is AiEvent || t is Heartbeat) && full
            &&& said matches Disposition::Retrying(retry) ==> {
                &&& retry.tx.id == id
                &&& bytes_of(retry.item) == bytes_of(payload)
                &&& retry.room_id@ == room@
                &&& retry.user_id@ == d@[i].user_id@
            }
        }),
{
    let before = traffic(old(table)@);
    let user = field_text(header.user_id@);
    law_traffic_is_channel_by_channel(old(table)@, d@[i].channel);
    law_wire_is_item_by_item(old(table)@[d@[i].channel].queue);
    law_verdict_ignores_payload_and_order(
        before,
        header.target_type,
        router@[room@],
        user,
        d@,
        header.packet_type,
        bytes_of(payload),
        room@,
        i,
    );
}

/// What is set aside to be tried again is the payload itself, whatever its length,
/// also where users share a channel; and when it is delivered later, the payload
/// stands behind all that waits in the receiver's channel, byte for byte.
pub proof fn law_retried_command_arrives_whole(
    router: &Router,
    table: &mut ChannelTable<Bytes>,
    header: &PacketHeader,
    payload: Bytes,
    d: Vec<Delivery>,
    i: int,
    retry: PendingRetry,
    later_router: &mut Router,
    later_table: &mut ChannelTable<Bytes>,
    elapsed_ns: u128,
)
    requires
        call_ensures(
            Router::route,
            (router, table, header, payload),
            RouteOutcome::Dispatched(d),
        ),
        0 <= i < d@.len(),
        d@[i].disposition == Disposition::Retrying(retry),
        call_ensures(
            PendingRetry::attempt,
            (retry, later_router, later_table, elapsed_ns),
            RetryStep::Delivered,
        ),
        old(later_table)@.contains_key(d@[i].channel),
    ensures
        header.packet_type is SystemCmd,
        bytes_of(retry.item) == bytes_of(payload),
        ({
            let (before, after) = (old(later_table)@, final(later_table)@);
            let id = d@[i].channel;
            &&& after.contains_key(id)
            &&& wire(after[id].queue) == wire(before[id].queue).push(bytes_of(payload))
            &&& bytes_of(after[id].queue.last()) == bytes_of(payload)
            &&& before[id].senders > 0 ==> after[id].senders == before[id].senders - 1
        }),
{
    let (before, after) = (old(later_table)@, final(later_table)@);
    let id = d@[i].channel;
    assert(wire(after[id].queue) =~= wire(before[id].queue).push(bytes_of(payload)));
}

/// A packet that is not motion data loses nothing that waits, in no channel, also
/// where users share a channel: all of it stays in front, and what comes behind it
/// is the payload and nothing else. No channel gets beyond its capacity by it.
pub proof fn law_nothing_that_waits_is_lost(
    router: &Router,
    table: &mut ChannelTable<Bytes>,
    header: &PacketHeader,
    payload: Bytes,
    outcome: RouteOutcome,
    id: u64,
)
    requires
        call_ensures(Router::route, (router, table, header, payload), outcome),
        !(header.packet_type is RawMotion),
        old(table)@.contains_key(id),
    ensures
        final(table)@.contains_key(id),
        ({
            let queue = wire(old(table)@[id].queue);
            let after = wire(final(table)@[id].queue);
            &&& queue.len() <= after.len()
            &&& after.take(queue.len() as int) == queue
            &&& forall|k: int|
                queue.len() <= k < after.len() ==> #[trigger] after[k] == bytes_of(payload)
            &&& after.len() > queue.len() ==> after.len() <= old(table)@[id].capacity
        }),
{
    let before = traffic(old(table)@);
    law_traffic_is_channel_by_channel(old(table)@, id);
    law_traffic_is_channel_by_channel(final(table)@, id);
    match outcome {
        RouteOutcome::Dispatched(d) => {
            lemma_nothing_lost(
                before,
                delivery_channels(d@),
                header.packet_type,
                bytes_of(payload),
                id,
            );
        },
        _ => {
            assert(before[id].queue.take(before[id].queue.len() as int) =~= before[id].queue);
        },
    }
}

/// A packet that is not motion data only appends, however often it goes somewhere.
proof fn lemma_nothing_lost(
    table: Map<u64, ChannelState<Seq<u8>>>,
    ids: Seq<u64>,
    t: PacketType,
    payload: Seq<u8>,
    id: u64,
)
    requires
        table.contains_key(id),
        !(t is RawMotion),
    ensures
        after_deliveries(table, ids, t, payload).contains_key(id),
        ({
            let queue = table[id].queue;
            let c = after_deliveries(table, ids, t, payload)[id];
            let after = c.queue;
            &&& c.capacity == table[id].capacity
            &&& queue.len() <= after.len()
            &&& after.take(queue.len() as int) == queue
            &&& forall|k: int| queue.len() <= k < after.len() ==> #[trigger] after[k] == payload
            &&& after.len() > queue.len() ==> after.len() <= table[id].capacity
        }),
    decreases ids.len(),
{
    let queue = table[id].queue;
    if ids.len() == 0 {
        assert(queue.take(queue.len() as int) =~= queue);
    } else {
        lemma_nothing_lost(table, ids.drop_last(), t, payload, id);
        let middle = after_deliveries(table, ids.drop_last(), t, payload);
        let after = after_deliveries(table, ids, t, payload)[id].queue;
        assert(after.take(queue.len() as int) =~= middle[id].queue.take(queue.len() as int));
    }
}

} // verus!
