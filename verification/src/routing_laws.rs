//! What holds of rooms and of routing as a whole.

use vstd::prelude::*;

use crate::channel::{after_clone, after_close, after_send, ChannelState};
use crate::protocol::{PacketType, TargetType};
use crate::room_map::nobody;
use crate::routing::{
    after_deliveries, after_delivery, after_release, channel_of, delivery_channels,
    delivery_verdict, receivers, users_in, with_user, without_user, Delivery,
};

verus! {

/// There is no room with nobody in it.
pub open spec fn no_empty_rooms(rooms: Map<Seq<char>, Map<Seq<char>, u64>>) -> bool {
    forall|room: Seq<char>| #[trigger] rooms.contains_key(room) ==> rooms[room] != nobody()
}

/// No two users of a room have the same channel.
pub open spec fn own_channels(room: Map<Seq<char>, u64>) -> bool {
    forall|a: Seq<char>, b: Seq<char>|
        #![trigger room[a], room[b]]
        room.contains_key(a) && room.contains_key(b) && room[a] == room[b] ==> a == b
}

/// Whether channel `id` is that of a user in the room.
pub open spec fn serves_room(room: Map<Seq<char>, u64>, id: u64) -> bool {
    exists|user: Seq<char>| #![trigger room[user]] room.contains_key(user) && room[user] == id
}

/// Every channel in the rooms has a number below `bound`, and no two
/// registrations, in whatever rooms, have the same channel.
pub open spec fn channels_apart(
    rooms: Map<Seq<char>, Map<Seq<char>, u64>>,
    bound: int,
) -> bool {
    &&& forall|room: Seq<char>, user: Seq<char>|
        (#[trigger] channel_of(rooms, room, user)) matches Some(id) ==> id < bound
    &&& forall|room: Seq<char>, user: Seq<char>, room2: Seq<char>, user2: Seq<char>|
        #![trigger channel_of(rooms, room, user), channel_of(rooms, room2, user2)]
        channel_of(rooms, room, user) is Some && channel_of(rooms, room, user) == channel_of(
            rooms,
            room2,
            user2,
        ) ==> room == room2 && user == user2
}

/// Registrations stay apart when each takes the number of a channel that was just
/// made, and when one is removed; and then each user of a room has a channel of
/// its own.
pub proof fn law_registrations_stay_apart(
    rooms: Map<Seq<char>, Map<Seq<char>, u64>>,
    room: Seq<char>,
    user: Seq<char>,
    id: u64,
)
    requires
        channels_apart(rooms, id as int),
    ensures
        channels_apart(with_user(rooms, room, user, id), id + 1),
        channels_apart(without_user(rooms, room, user), id as int),
        own_channels(users_in(rooms, room)),
{
    let more = with_user(rooms, room, user, id);
    let fewer = without_user(rooms, room, user);
    assert forall|r: Seq<char>, u: Seq<char>| #[trigger] channel_of(more, r, u) == if (r, u) == (
        room,
        user,
    ) {
        Some(id)
    } else {
        channel_of(rooms, r, u)
    } by {
        law_registered_user_is_found(rooms, room, user, id, r, u);
    }
    assert forall|r: Seq<char>, u: Seq<char>| #[trigger] channel_of(fewer, r, u) == if (r, u) == (
        room,
        user,
    ) {
        None
    } else {
        channel_of(rooms, r, u)
    } by {
        law_unregistered_user_is_gone(rooms, room, user, r, u);
    }
    let here = users_in(rooms, room);
    assert forall|a: Seq<char>, b: Seq<char>|
        #![trigger here[a], here[b]]
        here.contains_key(a) && here.contains_key(b) && here[a] == here[b] implies a == b by {
        assert(channel_of(rooms, room, a) == Some(here[a]));
        assert(channel_of(rooms, room, b) == Some(here[b]));
    }
}

/// A user who was registered is found under the channel of the registration, and
/// no other user is affected.
pub proof fn law_registered_user_is_found(
    rooms: Map<Seq<char>, Map<Seq<char>, u64>>,
    room: Seq<char>,
    user: Seq<char>,
    id: u64,
    other_room: Seq<char>,
    other_user: Seq<char>,
)
    ensures
        channel_of(with_user(rooms, room, user, id), room, user) == Some(id),
        (other_room, other_user) != (room, user) ==> channel_of(
            with_user(rooms, room, user, id),
            other_room,
            other_user,
        ) == channel_of(rooms, other_room, other_user),
{
}

/// A user who was taken out of a room is not found there, and no other user is
/// affected.
pub proof fn law_unregistered_user_is_gone(
    rooms: Map<Seq<char>, Map<Seq<char>, u64>>,
    room: Seq<char>,
    user: Seq<char>,
    other_room: Seq<char>,
    other_user: Seq<char>,
)
    ensures
        channel_of(without_user(rooms, room, user), room, user) is None,
        (other_room, other_user) != (room, user) ==> channel_of(
            without_user(rooms, room, user),
            other_room,
            other_user,
        ) == channel_of(rooms, other_room, other_user),
{
    let rest = users_in(rooms, room).remove(user);
    if other_room == room && other_user != user && rest == nobody() {
        assert(!rest.contains_key(other_user));
        assert(!users_in(rooms, room).contains_key(other_user));
    }
}

/// Taking a user out of a room undoes putting the user in, if the user was not
/// there before.
pub proof fn law_unregister_undoes_register(
    rooms: Map<Seq<char>, Map<Seq<char>, u64>>,
    room: Seq<char>,
    user: Seq<char>,
    id: u64,
)
    requires
        no_empty_rooms(rooms),
        channel_of(rooms, room, user) is None,
    ensures
        without_user(with_user(rooms, room, user, id), room, user) == rooms,
{
    let rest = users_in(with_user(rooms, room, user, id), room).remove(user);
    assert(rest =~= users_in(rooms, room));
    if rooms.contains_key(room) {
        assert(rest != nobody());
    } else {
        assert(rest =~= nobody());
    }
    assert(without_user(with_user(rooms, room, user, id), room, user) =~= rooms);
}

/// Taking out a user who is not there changes nothing; so taking a user out
/// twice is taking the user out once.
pub proof fn law_unregister_is_idempotent(
    rooms: Map<Seq<char>, Map<Seq<char>, u64>>,
    room: Seq<char>,
    user: Seq<char>,
)
    requires
        no_empty_rooms(rooms),
    ensures
        channel_of(rooms, room, user) is None ==> without_user(rooms, room, user) == rooms,
        without_user(without_user(rooms, room, user), room, user) == without_user(
            rooms,
            room,
            user,
        ),
{
    let once = without_user(rooms, room, user);
    let rest = users_in(rooms, room).remove(user);
    if channel_of(rooms, room, user) is None {
        assert(rest =~= users_in(rooms, room));
        assert(once =~= rooms);
    }
    assert(users_in(once, room) =~= rest);
    assert(rest.remove(user) =~= rest);
    assert(without_user(once, room, user) =~= once);
}

/// `after` is `before` without a user in a room, and nothing else has changed: the
/// user is gone and all others keep their channels. If no room was empty, none is;
/// and if the user was not there, nothing has changed at all.
pub open spec fn clean_removal(
    before: Map<Seq<char>, Map<Seq<char>, u64>>,
    room: Seq<char>,
    user: Seq<char>,
    after: Map<Seq<char>, Map<Seq<char>, u64>>,
) -> bool {
    &&& channel_of(after, room, user) is None
    &&& forall|r: Seq<char>, u: Seq<char>|
        (r, u) != (room, user) ==> #[trigger] channel_of(after, r, u) == channel_of(before, r, u)
    &&& no_empty_rooms(before) ==> no_empty_rooms(after)
    &&& no_empty_rooms(before) && channel_of(before, room, user) is None ==> after == before
}

/// Taking a user out of a room changes nothing else, and doing it a second time
/// changes nothing.
pub proof fn law_unregister_is_a_clean_removal(
    rooms: Map<Seq<char>, Map<Seq<char>, u64>>,
    room: Seq<char>,
    user: Seq<char>,
)
    ensures
        clean_removal(rooms, room, user, without_user(rooms, room, user)),
        no_empty_rooms(rooms) ==> without_user(without_user(rooms, room, user), room, user)
            == without_user(rooms, room, user),
{
    let after = without_user(rooms, room, user);
    law_unregistered_user_is_gone(rooms, room, user, room, user);
    assert forall|r: Seq<char>, u: Seq<char>| (r, u) != (room, user) implies #[trigger] channel_of(
        after,
        r,
        u,
    ) == channel_of(rooms, r, u) by {
        law_unregistered_user_is_gone(rooms, room, user, r, u);
    }
    if no_empty_rooms(rooms) {
        law_room_goes_with_its_last_user(rooms, room, user);
        law_unregister_is_idempotent(rooms, room, user);
    }
}

/// A room is there just as long as somebody is in it.
pub proof fn law_room_goes_with_its_last_user(
    rooms: Map<Seq<char>, Map<Seq<char>, u64>>,
    room: Seq<char>,
    user: Seq<char>,
)
    requires
        no_empty_rooms(rooms),
    ensures
        no_empty_rooms(without_user(rooms, room, user)),
        without_user(rooms, room, user).contains_key(room) <==> exists|other: Seq<char>|
            other != user && #[trigger] users_in(rooms, room).contains_key(other),
        forall|id: u64| no_empty_rooms(#[trigger] with_user(rooms, room, user, id)),
{
    let rest = users_in(rooms, room).remove(user);
    if rest != nobody() {
        if forall|other: Seq<char>| !rest.contains_key(other) {
            assert(rest =~= nobody());
        }
        let other = choose|other: Seq<char>| rest.contains_key(other);
        assert(users_in(rooms, room).contains_key(other));
    } else {
        assert forall|other: Seq<char>| other != user implies !(#[trigger] users_in(
            rooms,
            room,
        ).contains_key(other)) by {
            assert(!rest.contains_key(other));
        }
    }
    assert forall|id: u64| no_empty_rooms(#[trigger] with_user(rooms, room, user, id)) by {
        assert(users_in(rooms, room).insert(user, id).contains_key(user));
    }
}

/// A second registration of a user in a room takes the place of the first. The
/// first connection is then no longer the registered one.
pub proof fn law_later_registration_wins(
    rooms: Map<Seq<char>, Map<Seq<char>, u64>>,
    room: Seq<char>,
    user: Seq<char>,
    first: u64,
    second: u64,
)
    ensures
        with_user(with_user(rooms, room, user, first), room, user, second) == with_user(
            rooms,
            room,
            user,
            second,
        ),
        first != second ==> channel_of(
            with_user(with_user(rooms, room, user, first), room, user, second),
            room,
            user,
        ) != Some(first),
{
    assert(users_in(rooms, room).insert(user, first).insert(user, second) =~= users_in(
        rooms,
        room,
    ).insert(user, second));
    assert(with_user(with_user(rooms, room, user, first), room, user, second) =~= with_user(
        rooms,
        room,
        user,
        second,
    ));
}

/// When a connection is kicked that held the only sender of its channel, no
/// sender is left, and what waits there stays.
pub proof fn law_kick_closes_the_old_channel<T>(table: Map<u64, ChannelState<T>>, kicked: u64)
    requires
        table.contains_key(kicked),
        table[kicked].senders == 1,
    ensures
        after_release(table, Some(kicked)).contains_key(kicked),
        after_release(table, Some(kicked))[kicked].senders == 0,
        after_release(table, Some(kicked))[kicked].queue == table[kicked].queue,
{
}

/// Handing a packet to a channel makes no channel and removes none.
pub proof fn lemma_deliveries_keep_channels(
    table: Map<u64, ChannelState<Seq<u8>>>,
    ids: Seq<u64>,
    t: PacketType,
    payload: Seq<u8>,
)
    ensures
        after_deliveries(table, ids, t, payload).dom() == table.dom(),
    decreases ids.len(),
{
    if ids.len() > 0 {
        lemma_deliveries_keep_channels(table, ids.drop_last(), t, payload);
        assert(after_deliveries(table, ids, t, payload).dom() =~= table.dom());
    }
}

/// A packet changes nothing in the channels to which it does not go.
pub proof fn law_other_channels_are_untouched(
    table: Map<u64, ChannelState<Seq<u8>>>,
    ids: Seq<u64>,
    t: PacketType,
    payload: Seq<u8>,
    other: u64,
)
    requires
        !ids.contains(other),
        table.contains_key(other),
    ensures
        after_deliveries(table, ids, t, payload).contains_key(other),
        after_deliveries(table, ids, t, payload)[other] == table[other],
    decreases ids.len(),
{
    if ids.len() > 0 {
        let front = ids.drop_last();
        assert(!front.contains(other)) by {
            if front.contains(other) {
                let k = choose|k: int| 0 <= k < front.len() && front[k] == other;
                assert(ids[k] == other);
            }
        }
        assert(ids[ids.len() - 1] != other);
        law_other_channels_are_untouched(table, front, t, payload, other);
    }
}

/// A packet that goes to several channels, each named once, does to each what it
/// would do if it went there alone.
pub proof fn law_each_channel_is_served_once(
    table: Map<u64, ChannelState<Seq<u8>>>,
    ids: Seq<u64>,
    t: PacketType,
    payload: Seq<u8>,
    id: u64,
)
    requires
        ids.no_duplicates(),
        ids.contains(id),
        table.contains_key(id),
    ensures
        after_deliveries(table, ids, t, payload).contains_key(id),
        after_deliveries(table, ids, t, payload)[id] == after_delivery(table, id, t, payload)[id],
    decreases ids.len(),
{
    let front = ids.drop_last();
    let k = choose|k: int| 0 <= k < ids.len() && ids[k] == id;
    if k == ids.len() - 1 {
        assert(!front.contains(id)) by {
            if front.contains(id) {
                let j = choose|j: int| 0 <= j < front.len() && front[j] == id;
                assert(ids[j] == ids[k]);
            }
        }
        law_other_channels_are_untouched(table, front, t, payload, id);
    } else {
        assert(front[k] == id);
        assert(front.no_duplicates());
        law_each_channel_is_served_once(table, front, t, payload, id);
        assert(ids.last() != id);
    }
}

/// The channels of a broadcast to a room in which each user has a channel of its
/// own: those of the users, each once.
pub proof fn lemma_broadcast_channels(
    room: Map<Seq<char>, u64>,
    user: Seq<char>,
    deliveries: Seq<Delivery>,
)
    requires
        own_channels(room),
        receivers(TargetType::Broadcast, room, user, deliveries),
    ensures
        delivery_channels(deliveries).no_duplicates(),
        forall|u: Seq<char>|
            #![trigger room[u]]
            room.contains_key(u) ==> delivery_channels(deliveries).contains(room[u]),
        forall|id: u64| #[trigger]
            delivery_channels(deliveries).contains(id) ==> serves_room(room, id),
{
    let listed = deliveries.map_values(|d: Delivery| (d.user_id, d.channel));
    let ids = delivery_channels(deliveries);
    assert forall|i: int, j: int|
        0 <= i < ids.len() && 0 <= j < ids.len() && i != j implies ids[i] != ids[j] by {
        assert(listed[i].1 == ids[i] && listed[j].1 == ids[j]);
        if i < j {
            assert(listed[i].0@ != listed[j].0@);
        } else {
            assert(listed[j].0@ != listed[i].0@);
        }
        assert(room[listed[i].0@] == ids[i] && room[listed[j].0@] == ids[j]);
    }
    assert forall|u: Seq<char>| #![trigger room[u]] room.contains_key(u) implies ids.contains(
        room[u],
    ) by {
        let i = choose|i: int| #![trigger listed[i]] 0 <= i < listed.len() && listed[i].0@ == u;
        assert(ids[i] == room[u]);
    }
    assert forall|id: u64| #[trigger] ids.contains(id) implies serves_room(room, id) by {
        let i = choose|i: int| 0 <= i < ids.len() && ids[i] == id;
        assert(listed[i].1 == id);
        assert(room.contains_key(listed[i].0@) && room[listed[i].0@] == id);
    }
}

/// A broadcast serves every user in the room once, as if the packet went to that
/// user alone, and leaves the channels of all others untouched.
pub proof fn law_broadcast_serves_everybody_once(
    table: Map<u64, ChannelState<Seq<u8>>>,
    room: Map<Seq<char>, u64>,
    user: Seq<char>,
    deliveries: Seq<Delivery>,
    t: PacketType,
    payload: Seq<u8>,
)
    requires
        own_channels(room),
        receivers(TargetType::Broadcast, room, user, deliveries),
    ensures
        ({
            let after = after_deliveries(table, delivery_channels(deliveries), t, payload);
            &&& after.dom() == table.dom()
            &&& forall|u: Seq<char>|
                #![trigger room[u]]
                room.contains_key(u) && table.contains_key(room[u]) ==> after[room[u]]
                    == after_delivery(table, room[u], t, payload)[room[u]]
            &&& forall|id: u64|
                #![trigger after[id]]
                table.contains_key(id) && !serves_room(room, id) ==> after[id] == table[id]
        }),
{
    let ids = delivery_channels(deliveries);
    let after = after_deliveries(table, ids, t, payload);
    lemma_broadcast_channels(room, user, deliveries);
    lemma_deliveries_keep_channels(table, ids, t, payload);
    assert forall|u: Seq<char>|
        #![trigger room[u]]
        room.contains_key(u) && table.contains_key(room[u]) implies after[room[u]]
        == after_delivery(table, room[u], t, payload)[room[u]] by {
        law_each_channel_is_served_once(table, ids, t, payload, room[u]);
    }
    assert forall|id: u64|
        #![trigger after[id]]
        table.contains_key(id) && !serves_room(room, id) implies after[id] == table[id] by {
        assert(!ids.contains(id));
        law_other_channels_are_untouched(table, ids, t, payload, id);
    }
}

/// A packet for one user goes to that user's channel and nowhere else.
pub proof fn law_unicast_serves_one(
    table: Map<u64, ChannelState<Seq<u8>>>,
    room: Map<Seq<char>, u64>,
    user: Seq<char>,
    deliveries: Seq<Delivery>,
    t: PacketType,
    payload: Seq<u8>,
)
    requires
        receivers(TargetType::Unicast, room, user, deliveries),
    ensures
        after_deliveries(table, delivery_channels(deliveries), t, payload) == after_delivery(
            table,
            room[user],
            t,
            payload,
        ),
{
    let listed = deliveries.map_values(|d: Delivery| (d.user_id, d.channel));
    let ids = delivery_channels(deliveries);
    assert(listed[0].1 == ids[0]);
    assert(ids.len() == 1);
    reveal_with_fuel(after_deliveries, 2);
}

/// What is delivered stands behind everything else in its channel. Motion data
/// is always delivered; other packets are, where the channel has room.
pub proof fn law_delivered_packet_is_newest(
    table: Map<u64, ChannelState<Seq<u8>>>,
    id: u64,
    t: PacketType,
    payload: Seq<u8>,
)
    requires
        table.contains_key(id),
    ensures
        delivery_verdict(table, id, t) is Delivered <==> t is RawMotion || !table[id].full(),
        delivery_verdict(table, id, t) is Delivered ==> {
            let queue = after_delivery(table, id, t, payload)[id].queue;
            queue.len() > 0 && queue.last() == payload
        },
{
}

/// A packet that is not delivered leaves what waits as it is. One that is
/// dropped changes nothing at all.
pub proof fn law_undelivered_packet_leaves_the_queue(
    table: Map<u64, ChannelState<Seq<u8>>>,
    id: u64,
    t: PacketType,
    payload: Seq<u8>,
)
    requires
        table.contains_key(id),
        !(delivery_verdict(table, id, t) is Delivered),
    ensures
        after_delivery(table, id, t, payload)[id].queue == table[id].queue,
        delivery_verdict(table, id, t) is Dropped ==> after_delivery(table, id, t, payload)
            == table,
        delivery_verdict(table, id, t) is Retrying <==> t is SystemCmd,
{
}

/// No packet leaves more in a channel than it may hold.
pub proof fn law_delivery_keeps_capacity(
    table: Map<u64, ChannelState<Seq<u8>>>,
    id: u64,
    t: PacketType,
    payload: Seq<u8>,
)
    requires
        table.contains_key(id),
        table[id].capacity > 0,
        table[id].queue.len() <= table[id].capacity,
    ensures
        after_delivery(table, id, t, payload)[id].queue.len() <= table[id].capacity,
{
}

/// A command that is delivered when it is tried again leaves behind itself and
/// nothing else: its own sender is given up.
pub proof fn law_successful_retry_leaves_only_the_item<T>(
    table: Map<u64, ChannelState<T>>,
    id: u64,
    item: T,
)
    ensures
        after_close(after_send(after_clone(table, id), id, item), id) == after_send(
            table,
            id,
            item,
        ),
{
    assert(after_close(after_send(after_clone(table, id), id, item), id) =~= after_send(
        table,
        id,
        item,
    ));
}

/// When a command cannot be delivered in time, its receiver is disconnected: the
/// registration's sender and the command's own are given up, so that none is left.
pub proof fn law_failed_retry_closes_the_channel<T>(table: Map<u64, ChannelState<T>>, id: u64)
    requires
        table.contains_key(id),
        table[id].senders == 1,
    ensures
        after_close(after_release(after_clone(table, id), Some(id)), id).contains_key(id),
        after_close(after_release(after_clone(table, id), Some(id)), id)[id].senders == 0,
{
}

/// The channel, if there is one, has a receiver and a sender.
pub open spec fn in_service<T>(table: Map<u64, ChannelState<T>>, id: Option<u64>) -> bool {
    id matches Some(id) ==> table.contains_key(id) && table[id].senders > 0
}

/// The channel of every registered user has a receiver and a sender.
pub open spec fn all_reachable<T>(
    rooms: Map<Seq<char>, Map<Seq<char>, u64>>,
    table: Map<u64, ChannelState<T>>,
) -> bool {
    forall|room: Seq<char>, user: Seq<char>|
        in_service(table, #[trigger] channel_of(rooms, room, user))
}

/// Opening a connection keeps every registered user reachable, also where it
/// takes the place of another.
pub proof fn law_opening_keeps_users_reachable<T>(
    rooms: Map<Seq<char>, Map<Seq<char>, u64>>,
    table: Map<u64, ChannelState<T>>,
    room: Seq<char>,
    user: Seq<char>,
    id: u64,
    capacity: nat,
)
    requires
        channels_apart(rooms, id as int),
        all_reachable(rooms, table),
    ensures
        all_reachable(
            with_user(rooms, room, user, id),
            after_release(
                table.insert(id, ChannelState::empty(capacity)),
                channel_of(rooms, room, user),
            ),
        ),
{
    let more = with_user(rooms, room, user, id);
    let kicked = channel_of(rooms, room, user);
    let after = after_release(table.insert(id, ChannelState::empty(capacity)), kicked);
    assert forall|r: Seq<char>, u: Seq<char>|
        in_service(after, #[trigger] channel_of(more, r, u)) by {
        law_registered_user_is_found(rooms, room, user, id, r, u);
        if (r, u) != (room, user) {
            assert(channel_of(rooms, r, u) == channel_of(more, r, u));
        }
    }
}

/// Taking a user out of a room keeps every other user reachable; so does giving
/// up that user's channel after it.
pub proof fn law_leaving_keeps_users_reachable<T>(
    rooms: Map<Seq<char>, Map<Seq<char>, u64>>,
    table: Map<u64, ChannelState<T>>,
    room: Seq<char>,
    user: Seq<char>,
    bound: int,
)
    requires
        channels_apart(rooms, bound),
        all_reachable(rooms, table),
    ensures
        all_reachable(
            without_user(rooms, room, user),
            after_release(table, channel_of(rooms, room, user)),
        ),
        channel_of(rooms, room, user) matches Some(id) ==> all_reachable(
            without_user(rooms, room, user),
            table.remove(id),
        ),
{
    let fewer = without_user(rooms, room, user);
    let left = channel_of(rooms, room, user);
    let after = after_release(table, left);
    assert forall|r: Seq<char>, u: Seq<char>|
        #![trigger channel_of(fewer, r, u)]
        {
            &&& in_service(after, channel_of(fewer, r, u))
            &&& in_service(table, channel_of(fewer, r, u))
            &&& channel_of(fewer, r, u) is Some ==> channel_of(fewer, r, u) != left
        } by {
        law_unregistered_user_is_gone(rooms, room, user, r, u);
        if (r, u) != (room, user) {
            assert(channel_of(rooms, r, u) == channel_of(fewer, r, u));
        }
    }
}

/// Routing a packet keeps every registered user reachable.
pub proof fn law_routing_keeps_users_reachable(
    rooms: Map<Seq<char>, Map<Seq<char>, u64>>,
    table: Map<u64, ChannelState<Seq<u8>>>,
    ids: Seq<u64>,
    t: PacketType,
    payload: Seq<u8>,
)
    requires
        all_reachable(rooms, table),
    ensures
        all_reachable(rooms, after_deliveries(table, ids, t, payload)),
    decreases ids.len(),
{
    if ids.len() > 0 {
        law_routing_keeps_users_reachable(rooms, table, ids.drop_last(), t, payload);
    }
}

/// Every channel that serves a registration has a sender besides the one that a
/// pending retry on channel `id` holds.
pub open spec fn holds_own_sender<T>(
    rooms: Map<Seq<char>, Map<Seq<char>, u64>>,
    table: Map<u64, ChannelState<T>>,
    id: u64,
) -> bool {
    forall|room: Seq<char>, user: Seq<char>|
        #[trigger] channel_of(rooms, room, user) == Some(id) ==> table.contains_key(id)
            && table[id].senders >= 2
}

/// All registered users but those on channel `id` are reachable.
pub open spec fn others_reachable<T>(
    rooms: Map<Seq<char>, Map<Seq<char>, u64>>,
    table: Map<u64, ChannelState<T>>,
    id: u64,
) -> bool {
    forall|room: Seq<char>, user: Seq<char>|
        #[trigger] channel_of(rooms, room, user) != Some(id) ==> in_service(
            table,
            channel_of(rooms, room, user),
        )
}

/// A command that waits to be tried again on the channel of a reachable user
/// holds a sender of its own there.
pub proof fn law_pending_retry_holds_own_sender(
    rooms: Map<Seq<char>, Map<Seq<char>, u64>>,
    table: Map<u64, ChannelState<Seq<u8>>>,
    id: u64,
    t: PacketType,
    payload: Seq<u8>,
)
    requires
        all_reachable(rooms, table),
        delivery_verdict(table, id, t) is Retrying,
    ensures
        holds_own_sender(rooms, after_delivery(table, id, t, payload), id),
{
}

/// A retry keeps every other registered user reachable, whichever way it ends:
/// the command is delivered, or the time is up and its receiver is disconnected,
/// or the time is up after another connection took the receiver's place. It keeps
/// the receiver reachable too, unless it disconnects it.
pub proof fn law_retry_keeps_users_reachable<T>(
    rooms: Map<Seq<char>, Map<Seq<char>, u64>>,
    table: Map<u64, ChannelState<T>>,
    room: Seq<char>,
    user: Seq<char>,
    id: u64,
    item: T,
    bound: int,
)
    requires
        channels_apart(rooms, bound),
        all_reachable(rooms, table),
    ensures
        others_reachable(rooms, after_close(after_send(table, id, item), id), id),
        holds_own_sender(rooms, table, id) ==> all_reachable(
            rooms,
            after_close(after_send(table, id, item), id),
        ),
        channel_of(rooms, room, user) == Some(id) ==> all_reachable(
            without_user(rooms, room, user),
            after_close(after_release(table, Some(id)), id),
        ),
        channel_of(rooms, room, user) != Some(id) ==> others_reachable(
            rooms,
            after_close(table, id),
            id,
        ),
        channel_of(rooms, room, user) != Some(id) && holds_own_sender(rooms, table, id)
            ==> all_reachable(rooms, after_close(table, id)),
{
    let fewer = without_user(rooms, room, user);
    assert forall|r: Seq<char>, u: Seq<char>| (r, u) != (room, user) implies #[trigger] channel_of(
        fewer,
        r,
        u,
    ) == channel_of(rooms, r, u) by {
        law_unregistered_user_is_gone(rooms, room, user, r, u);
    }
    law_unregistered_user_is_gone(rooms, room, user, room, user);
}

} // verus!
