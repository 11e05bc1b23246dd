//! Routing looks neither at what a packet carries nor at the order of its
//! receivers.

use vstd::prelude::*;

use crate::channel::ChannelState;
use crate::protocol::{field_text, PacketHeader, PacketType, TargetType};
use crate::room_map::{lemma_lists_entries_len, lists_entries};
use crate::routing::{
    after_deliveries, after_delivery, carried_out, delivery_channels, delivery_verdict, receivers,
    routed, verdict_of, Delivery, RouteOutcome,
};
use crate::routing_laws::{
    law_broadcast_serves_everybody_once, law_other_channels_are_untouched, law_unicast_serves_one,
    lemma_broadcast_channels, lemma_deliveries_keep_channels, own_channels, serves_room,
};

verus! {

/// Two headers send their packets the same way. They may differ in version,
/// sequence number and length.
pub open spec fn same_address(one: PacketHeader, another: PacketHeader) -> bool {
    &&& one.packet_type == another.packet_type
    &&& one.target_type == another.target_type
    &&& one.room_id@ == another.room_id@
    &&& one.user_id@ == another.user_id@
}

/// Whether two packets ended in the same way: dropped for the same reason, or
/// handed to as many receivers.
pub open spec fn same_outcome(one: RouteOutcome, another: RouteOutcome) -> bool {
    match (one, another) {
        (RouteOutcome::RoomNotFound, RouteOutcome::RoomNotFound) => true,
        (RouteOutcome::UserNotFound, RouteOutcome::UserNotFound) => true,
        (RouteOutcome::Dispatched(a), RouteOutcome::Dispatched(b)) => a@.len() == b@.len(),
        _ => false,
    }
}

/// The two channels hold the same, but for their `k` newest items: these are `p`
/// in the one and `q` in the other.
pub open spec fn alike_before(
    a: ChannelState<Seq<u8>>,
    b: ChannelState<Seq<u8>>,
    p: Seq<u8>,
    q: Seq<u8>,
    k: int,
) -> bool {
    &&& a.capacity == b.capacity
    &&& a.senders == b.senders
    &&& a.queue.len() == b.queue.len()
    &&& 0 <= k <= a.queue.len()
    &&& a.queue.take(a.queue.len() - k) == b.queue.take(b.queue.len() - k)
    &&& forall|i: int|
        #![trigger a.queue[i]]
        #![trigger b.queue[i]]
        a.queue.len() - k <= i < a.queue.len() ==> a.queue[i] == p && b.queue[i] == q
}

/// The two channels hold the same, but for their newest items: these are `p` in
/// the one and `q` in the other.
pub open spec fn alike(
    a: ChannelState<Seq<u8>>,
    b: ChannelState<Seq<u8>>,
    p: Seq<u8>,
    q: Seq<u8>,
) -> bool {
    exists|k: int| alike_before(a, b, p, q, k)
}

/// Whether channel `id` is that of a receiver of a packet in a room.
pub open spec fn addressed(
    target: TargetType,
    room: Map<Seq<char>, u64>,
    user: Seq<char>,
    id: u64,
) -> bool {
    match target {
        TargetType::Broadcast => serves_room(room, id),
        TargetType::Unicast => room[user] == id,
    }
}

/// How often `id` stands in `ids`.
spec fn count_of(ids: Seq<u64>, id: u64) -> nat
    decreases ids.len(),
{
    if ids.len() == 0 {
        0
    } else {
        count_of(ids.drop_last(), id) + if ids.last() == id {
            1nat
        } else {
            0
        }
    }
}

/// A channel after `payload` was handed to it `n` times.
spec fn served(
    c: ChannelState<Seq<u8>>,
    n: nat,
    t: PacketType,
    payload: Seq<u8>,
) -> ChannelState<Seq<u8>>
    decreases n,
{
    if n == 0 {
        c
    } else {
        let id = 0u64;
        after_delivery(map![id => served(c, (n - 1) as nat, t, payload)], id, t, payload)[id]
    }
}

/// What a delivery does to a channel depends on that channel alone.
proof fn lemma_delivery_is_local(
    table: Map<u64, ChannelState<Seq<u8>>>,
    id: u64,
    t: PacketType,
    payload: Seq<u8>,
)
    requires
        table.contains_key(id),
    ensures
        after_delivery(table, id, t, payload)[id] == after_delivery(
            map![0u64 => table[id]],
            0u64,
            t,
            payload,
        )[0u64],
{
}

/// What a packet does to a channel depends only on how often it goes there.
proof fn lemma_served(
    table: Map<u64, ChannelState<Seq<u8>>>,
    ids: Seq<u64>,
    t: PacketType,
    payload: Seq<u8>,
    id: u64,
)
    requires
        table.contains_key(id),
    ensures
        after_deliveries(table, ids, t, payload).contains_key(id),
        after_deliveries(table, ids, t, payload)[id] == served(
            table[id],
            count_of(ids, id),
            t,
            payload,
        ),
    decreases ids.len(),
{
    if ids.len() > 0 {
        lemma_served(table, ids.drop_last(), t, payload, id);
        if ids.last() == id {
            lemma_delivery_is_local(
                after_deliveries(table, ids.drop_last(), t, payload),
                id,
                t,
                payload,
            );
        }
    }
}

/// Channels that are alike stay alike when each is handed its packet.
proof fn lemma_delivery_keeps_alike(
    a: ChannelState<Seq<u8>>,
    b: ChannelState<Seq<u8>>,
    t: PacketType,
    p: Seq<u8>,
    q: Seq<u8>,
)
    requires
        alike(a, b, p, q),
    ensures
        alike(
            after_delivery(map![0u64 => a], 0u64, t, p)[0u64],
            after_delivery(map![0u64 => b], 0u64, t, q)[0u64],
            p,
            q,
        ),
{
    let a2 = after_delivery(map![0u64 => a], 0u64, t, p)[0u64];
    let b2 = after_delivery(map![0u64 => b], 0u64, t, q)[0u64];
    let k = choose|k: int| alike_before(a, b, p, q, k);
    assert forall|i: int| 0 <= i < a.queue.len() - k implies a.queue[i] == b.queue[i] by {
        assert(a.queue.take(a.queue.len() - k)[i] == b.queue.take(b.queue.len() - k)[i]);
    }
    if a2.queue == a.queue && b2.queue == b.queue && !(delivery_verdict(
        map![0u64 => a],
        0u64,
        t,
    ) is Delivered) {
        assert(alike_before(a2, b2, p, q, k));
    } else {
        let evicts = t is RawMotion && a.full() && a.queue.len() > 0;
        let k2 = if evicts && k == a.queue.len() {
            k
        } else {
            k + 1
        };
        if evicts {
            assert(a2.queue == a.queue.skip(1).push(p));
            assert(b2.queue == b.queue.skip(1).push(q));
        } else {
            assert(a2.queue == a.queue.push(p));
            assert(b2.queue == b.queue.push(q));
        }
        assert(a2.queue.take(a2.queue.len() - k2) =~= b2.queue.take(b2.queue.len() - k2));
        assert(alike_before(a2, b2, p, q, k2));
    }
}

/// A channel that is handed two packets of one type, the one as often as the
/// other, is left alike.
proof fn lemma_served_alike(
    c: ChannelState<Seq<u8>>,
    n: nat,
    t: PacketType,
    p: Seq<u8>,
    q: Seq<u8>,
)
    ensures
        alike(served(c, n, t, p), served(c, n, t, q), p, q),
    decreases n,
{
    if n == 0 {
        assert(alike_before(c, c, p, q, 0));
    } else {
        lemma_served_alike(c, (n - 1) as nat, t, p, q);
        lemma_delivery_keeps_alike(
            served(c, (n - 1) as nat, t, p),
            served(c, (n - 1) as nat, t, q),
            t,
            p,
            q,
        );
    }
}

/// How often a channel stands in a list of the users of a room: once for each
/// user that has it.
proof fn lemma_count_listed(list: Seq<(String, u64)>, room: Map<Seq<char>, u64>, id: u64)
    requires
        lists_entries(list, room),
    ensures
        room.dom().finite(),
        room.dom().filter(|u: Seq<char>| room[u] == id).finite(),
        count_of(list.map_values(|e: (String, u64)| e.1), id) == room.dom().filter(
            |u: Seq<char>| room[u] == id,
        ).len(),
    decreases list.len(),
{
    let ids = list.map_values(|e: (String, u64)| e.1);
    let users = room.dom().filter(|u: Seq<char>| room[u] == id);
    if list.len() == 0 {
        assert(room.dom() =~= Set::empty());
        assert(users =~= Set::empty());
    } else {
        let front = list.drop_last();
        let last = list.last().0@;
        let rest = room.remove(last);
        assert(list[list.len() - 1].0@ == last);
        assert forall|i: int| #![trigger front[i]] 0 <= i < front.len() implies rest.contains_key(
            front[i].0@,
        ) && rest[front[i].0@] == front[i].1 by {
            assert(front[i] == list[i]);
            assert(list[i].0@ != list[list.len() - 1].0@);
        }
        assert forall|i: int, j: int|
            #![trigger front[i], front[j]]
            0 <= i < j < front.len() implies front[i].0@ != front[j].0@ by {
            assert(front[i] == list[i] && front[j] == list[j]);
        }
        assert forall|k: Seq<char>| #[trigger] rest.contains_key(k) implies exists|i: int|
            #![trigger front[i]]
            0 <= i < front.len() && front[i].0@ == k by {
            assert(room.contains_key(k));
            let i = choose|i: int| #![trigger list[i]] 0 <= i < list.len() && list[i].0@ == k;
            assert(i < front.len());
            assert(front[i].0@ == k);
        }
        lemma_count_listed(front, rest, id);
        let fewer = rest.dom().filter(|u: Seq<char>| rest[u] == id);
        assert(ids.drop_last() =~= front.map_values(|e: (String, u64)| e.1));
        assert(ids.last() == room[last]);
        assert(room.dom() =~= rest.dom().insert(last));
        if room[last] == id {
            assert(users =~= fewer.insert(last));
            assert(!fewer.contains(last));
        } else {
            assert(users =~= fewer);
        }
    }
}

/// Two lists of the receivers of a packet name each channel as often.
proof fn lemma_same_counts(
    target: TargetType,
    room: Map<Seq<char>, u64>,
    user: Seq<char>,
    one: Seq<Delivery>,
    another: Seq<Delivery>,
    id: u64,
)
    requires
        receivers(target, room, user, one),
        receivers(target, room, user, another),
    ensures
        one.len() == another.len(),
        count_of(delivery_channels(one), id) == count_of(delivery_channels(another), id),
{
    let a = one.map_values(|d: Delivery| (d.user_id, d.channel));
    let b = another.map_values(|d: Delivery| (d.user_id, d.channel));
    assert(a.map_values(|e: (String, u64)| e.1) =~= delivery_channels(one));
    assert(b.map_values(|e: (String, u64)| e.1) =~= delivery_channels(another));
    match target {
        TargetType::Broadcast => {
            lemma_count_listed(a, room, id);
            lemma_count_listed(b, room, id);
            lemma_lists_entries_len(a, room);
            lemma_lists_entries_len(b, room);
        },
        TargetType::Unicast => {
            assert(delivery_channels(one) =~= seq![room[user]]);
            assert(delivery_channels(another) =~= seq![room[user]]);
        },
    }
}

/// The order in which a packet goes to its receivers does not matter.
pub proof fn law_order_of_receivers_does_not_matter(
    before: Map<u64, ChannelState<Seq<u8>>>,
    target: TargetType,
    room: Map<Seq<char>, u64>,
    user: Seq<char>,
    one: Seq<Delivery>,
    another: Seq<Delivery>,
    t: PacketType,
    payload: Seq<u8>,
)
    requires
        receivers(target, room, user, one),
        receivers(target, room, user, another),
    ensures
        after_deliveries(before, delivery_channels(one), t, payload) == after_deliveries(
            before,
            delivery_channels(another),
            t,
            payload,
        ),
{
    let a = after_deliveries(before, delivery_channels(one), t, payload);
    let b = after_deliveries(before, delivery_channels(another), t, payload);
    lemma_deliveries_keep_channels(before, delivery_channels(one), t, payload);
    lemma_deliveries_keep_channels(before, delivery_channels(another), t, payload);
    assert forall|id: u64| before.contains_key(id) implies #[trigger] a[id] == b[id] by {
        lemma_same_counts(target, room, user, one, another, id);
        lemma_served(before, delivery_channels(one), t, payload, id);
        lemma_served(before, delivery_channels(another), t, payload, id);
    }
    assert(a =~= b);
}

/// Routing looks neither at the payload nor at the version, the sequence number or
/// the length: two packets with the same address, routed in the same state, end in
/// the same way and leave every channel alike. What they add stands at the same
/// places, and is the payload itself.
pub proof fn law_routing_ignores_the_payload(
    rooms: Map<Seq<char>, Map<Seq<char>, u64>>,
    before: Map<u64, ChannelState<Seq<u8>>>,
    one: PacketHeader,
    p: Seq<u8>,
    one_outcome: RouteOutcome,
    after_one: Map<u64, ChannelState<Seq<u8>>>,
    another: PacketHeader,
    q: Seq<u8>,
    another_outcome: RouteOutcome,
    after_another: Map<u64, ChannelState<Seq<u8>>>,
)
    requires
        same_address(one, another),
        routed(rooms, one, p, before, one_outcome, after_one),
        routed(rooms, another, q, before, another_outcome, after_another),
    ensures
        same_outcome(one_outcome, another_outcome),
        after_one.dom() == before.dom(),
        after_another.dom() == before.dom(),
        forall|id: u64| #[trigger]
            before.contains_key(id) ==> alike(after_one[id], after_another[id], p, q),
{
    let room = field_text(one.room_id@);
    let user = field_text(one.user_id@);
    let t = one.packet_type;
    match (one_outcome, another_outcome) {
        (RouteOutcome::Dispatched(a), RouteOutcome::Dispatched(b)) => {
            lemma_same_counts(one.target_type, rooms[room], user, a@, b@, 0);
            lemma_deliveries_keep_channels(before, delivery_channels(a@), t, p);
            lemma_deliveries_keep_channels(before, delivery_channels(b@), t, q);
            assert forall|id: u64| #[trigger] before.contains_key(id) implies alike(
                after_one[id],
                after_another[id],
                p,
                q,
            ) by {
                lemma_same_counts(one.target_type, rooms[room], user, a@, b@, id);
                lemma_served(before, delivery_channels(a@), t, p, id);
                lemma_served(before, delivery_channels(b@), t, q, id);
                lemma_served_alike(before[id], count_of(delivery_channels(a@), id), t, p, q);
            }
        },
        _ => {
            assert forall|id: u64| #[trigger] before.contains_key(id) implies alike(
                after_one[id],
                after_another[id],
                p,
                q,
            ) by {
                assert(alike_before(before[id], before[id], p, q, 0));
            }
        },
    }
}

/// What one list of deliveries does where each user has a channel of its own.
proof fn lemma_own_channel(
    before: Map<u64, ChannelState<Seq<u8>>>,
    target: TargetType,
    room: Map<Seq<char>, u64>,
    user: Seq<char>,
    deliveries: Seq<Delivery>,
    t: PacketType,
    payload: Seq<u8>,
    id: u64,
)
    requires
        own_channels(room),
        receivers(target, room, user, deliveries),
        before.contains_key(id),
    ensures
        ({
            let after = after_deliveries(before, delivery_channels(deliveries), t, payload);
            &&& addressed(target, room, user, id) ==> after[id] == after_delivery(
                before,
                id,
                t,
                payload,
            )[id]
            &&& !addressed(target, room, user, id) ==> after[id] == before[id]
        }),
{
    let after = after_deliveries(before, delivery_channels(deliveries), t, payload);
    match target {
        TargetType::Broadcast => {
            law_broadcast_serves_everybody_once(before, room, user, deliveries, t, payload);
            if serves_room(room, id) {
                let u = choose|u: Seq<char>|
                    #![trigger room[u]]
                    room.contains_key(u) && room[u] == id;
                assert(after[room[u]] == after_delivery(before, room[u], t, payload)[room[u]]);
            } else {
                assert(after[id] == before[id]);
            }
        },
        TargetType::Unicast => {
            law_unicast_serves_one(before, room, user, deliveries, t, payload);
        },
    }
}

/// Where each user of a room has a channel of its own, two payloads in packets
/// with the same address leave each channel with the same items, but for the one
/// that a delivery appends: that is the payload itself. Channels to which the
/// packet does not go, or where it is not delivered, are left the same.
pub proof fn law_payload_is_carried_unseen(
    before: Map<u64, ChannelState<Seq<u8>>>,
    target: TargetType,
    room: Map<Seq<char>, u64>,
    user: Seq<char>,
    one: Seq<Delivery>,
    another: Seq<Delivery>,
    t: PacketType,
    p: Seq<u8>,
    q: Seq<u8>,
    id: u64,
)
    requires
        own_channels(room),
        receivers(target, room, user, one),
        receivers(target, room, user, another),
        before.contains_key(id),
    ensures
        ({
            let a = after_deliveries(before, delivery_channels(one), t, p)[id];
            let b = after_deliveries(before, delivery_channels(another), t, q)[id];
            &&& a.queue.len() == b.queue.len()
            &&& a.capacity == b.capacity
            &&& a.senders == b.senders
            &&& if addressed(target, room, user, id) && delivery_verdict(
                before,
                id,
                t,
            ) is Delivered {
                &&& a.queue.len() > 0
                &&& a.queue.drop_last() == b.queue.drop_last()
                &&& a.queue.last() == p
                &&& b.queue.last() == q
            } else {
                a == b
            }
        }),
{
    lemma_own_channel(before, target, room, user, one, t, p, id);
    lemma_own_channel(before, target, room, user, another, t, q, id);
    let a = after_deliveries(before, delivery_channels(one), t, p)[id];
    let b = after_deliveries(before, delivery_channels(another), t, q)[id];
    if addressed(target, room, user, id) && delivery_verdict(before, id, t) is Delivered {
        let queue = before[id].queue;
        if t is RawMotion && before[id].full() && queue.len() > 0 {
            assert(a.queue.drop_last() =~= queue.skip(1));
            assert(b.queue.drop_last() =~= queue.skip(1));
        } else {
            assert(a.queue.drop_last() =~= queue);
            assert(b.queue.drop_last() =~= queue);
        }
    }
}

/// Where each user of a room has a channel of its own, what becomes of a packet at
/// a receiver depends on the type of the packet and on the receiver's channel
/// before it: neither on the payload nor on the order of the receivers.
pub proof fn law_verdict_ignores_payload_and_order(
    before: Map<u64, ChannelState<Seq<u8>>>,
    target: TargetType,
    room: Map<Seq<char>, u64>,
    user: Seq<char>,
    deliveries: Seq<Delivery>,
    t: PacketType,
    payload: Seq<u8>,
    room_id: Seq<char>,
    i: int,
)
    requires
        own_channels(room),
        receivers(target, room, user, deliveries),
        carried_out(before, deliveries, t, payload, room_id),
        0 <= i < deliveries.len(),
    ensures
        verdict_of(deliveries[i].disposition) == delivery_verdict(before, deliveries[i].channel, t),
{
    let id = deliveries[i].channel;
    let ids = delivery_channels(deliveries);
    let earlier = delivery_channels(deliveries.take(i));
    match target {
        TargetType::Broadcast => {
            lemma_broadcast_channels(room, user, deliveries);
        },
        TargetType::Unicast => {
            assert(deliveries.map_values(|d: Delivery| (d.user_id, d.channel)).len() == 1);
        },
    }
    assert(!earlier.contains(id)) by {
        if earlier.contains(id) {
            let k = choose|k: int| 0 <= k < earlier.len() && earlier[k] == id;
            assert(ids[k] == id && ids[i] == id);
        }
    }
    lemma_deliveries_keep_channels(before, earlier, t, payload);
    if before.contains_key(id) {
        law_other_channels_are_untouched(before, earlier, t, payload, id);
    } else {
        assert(!after_deliveries(before, earlier, t, payload).dom().contains(id));
    }
}

} // verus!
