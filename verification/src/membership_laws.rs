//! What joining and leaving rooms do: for every call of the router's functions on
//! users, how rooms and channels after it relate to those before it.

use bytes::Bytes;
use vstd::prelude::*;

use crate::channel::{BoundedReceiver, BoundedSender, ChannelTable};
use crate::protocol::PacketHeader;
use crate::routing::{all_users, PendingRetry, RetryStep, Router, Unregistered};

verus! {

/// A new router has no rooms.
pub proof fn law_new_router_is_empty(router: Router, other: Router)
    requires
        call_ensures(Router::new, (), router),
        call_ensures(<Router as Default>::default, (), other),
    ensures
        forall|room: Seq<char>| !(#[trigger] router@.contains_key(room)),
        forall|room: Seq<char>| !(#[trigger] other@.contains_key(room)),
{
}

/// A user who joins a room is in it, on the channel of the sender that was given.
/// Every other user in every room stays, on the same channel, and no room but this
/// one appears.
pub proof fn law_joining_a_room(
    router: &mut Router,
    table: &mut ChannelTable<Bytes>,
    room: &str,
    user: &str,
    tx: BoundedSender,
    kicked: Option<u64>,
)
    requires
        call_ensures(Router::register, (router, table, room, user, tx), kicked),
    ensures
        ({
            let (rooms, after) = (old(router)@, final(router)@);
            &&& after.contains_key(room@)
            &&& after[room@].contains_key(user@)
            &&& after[room@][user@] == tx.id
            &&& rooms.contains_key(room@) ==> after[room@].remove(user@) == rooms[room@].remove(
                user@,
            )
            &&& !rooms.contains_key(room@) ==> forall|u: Seq<char>|
                u != user@ ==> !(#[trigger] after[room@].contains_key(u))
            &&& after.remove(room@) == rooms.remove(room@)
        }),
{
    let (rooms, after) = (old(router)@, final(router)@);
    if rooms.contains_key(room@) {
        assert(after[room@].remove(user@) =~= rooms[room@].remove(user@));
    }
    assert(after.remove(room@) =~= rooms.remove(room@));
}

/// A user who joins a room again kicks the connection that was there: its channel
/// loses the sender that the room held, and keeps what waits in it. No other
/// channel changes; and where the user was not there, none does.
pub proof fn law_joining_again_kicks(
    router: &mut Router,
    table: &mut ChannelTable<Bytes>,
    room: &str,
    user: &str,
    tx: BoundedSender,
    kicked: Option<u64>,
)
    requires
        call_ensures(Router::register, (router, table, room, user, tx), kicked),
    ensures
        ({
            let rooms = old(router)@;
            let (before, after) = (old(table)@, final(table)@);
            &&& kicked is Some <==> rooms.contains_key(room@) && rooms[room@].contains_key(user@)
            &&& kicked is None ==> after == before
            &&& kicked matches Some(id) ==> {
                &&& id == rooms[room@][user@]
                &&& after.remove(id) == before.remove(id)
                &&& after.contains_key(id) == before.contains_key(id)
                &&& before.contains_key(id) ==> {
                    &&& after[id].queue == before[id].queue
                    &&& after[id].capacity == before[id].capacity
                    &&& before[id].senders > 0 ==> after[id].senders == before[id].senders - 1
                }
            }
        }),
{
    if let Some(id) = kicked {
        assert(final(table)@.remove(id) =~= old(table)@.remove(id));
    }
}

/// A user who leaves a room is no longer in it. Every other user in every room
/// stays, on the same channel. The room is gone just where nobody is left in it,
/// and that is said.
pub proof fn law_leaving_a_room(
    router: &mut Router,
    table: &mut ChannelTable<Bytes>,
    room: &str,
    user: &str,
    r: Unregistered,
    other: Seq<char>,
)
    requires
        call_ensures(Router::unregister, (router, table, room, user), r),
    ensures
        ({
            let (rooms, after) = (old(router)@, final(router)@);
            &&& !(after.contains_key(room@) && after[room@].contains_key(user@))
            &&& after.remove(room@) == rooms.remove(room@)
            &&& rooms.contains_key(room@) && after.contains_key(room@) ==> after[room@]
                == rooms[room@].remove(user@)
            &&& rooms.contains_key(room@) && other != user@ && rooms[room@].contains_key(other)
                ==> after.contains_key(room@)
            &&& after.contains_key(room@) ==> rooms.contains_key(room@) && after[room@].dom()
                != Set::<Seq<char>>::empty()
            &&& r.room_destroyed <==> rooms.contains_key(room@) && !after.contains_key(room@)
        }),
{
    let (rooms, after) = (old(router)@, final(router)@);
    assert(after.remove(room@) =~= rooms.remove(room@));
    if rooms.contains_key(room@) && other != user@ && rooms[room@].contains_key(other) {
        assert(rooms[room@].remove(user@).contains_key(other));
    }
    if after.contains_key(room@) {
        if after[room@].dom() == Set::<Seq<char>>::empty() {
            assert(after[room@] =~= Map::empty());
        }
        if !rooms.contains_key(room@) {
            assert(Map::<Seq<char>, u64>::empty().remove(user@) =~= Map::empty());
        }
    }
}

/// When a user leaves a room, the channel of that user loses the sender that the
/// room held, and keeps what waits in it. No other channel changes; and where the
/// user was not there, none does.
pub proof fn law_leaving_gives_up_the_sender(
    router: &mut Router,
    table: &mut ChannelTable<Bytes>,
    room: &str,
    user: &str,
    r: Unregistered,
)
    requires
        call_ensures(Router::unregister, (router, table, room, user), r),
    ensures
        ({
            let rooms = old(router)@;
            let (before, after) = (old(table)@, final(table)@);
            &&& r.channel is Some <==> rooms.contains_key(room@) && rooms[room@].contains_key(
                user@,
            )
            &&& r.channel is None ==> after == before
            &&& r.channel matches Some(id) ==> {
                &&& id == rooms[room@][user@]
                &&& after.remove(id) == before.remove(id)
                &&& after.contains_key(id) == before.contains_key(id)
                &&& before.contains_key(id) ==> {
                    &&& after[id].queue == before[id].queue
                    &&& after[id].capacity == before[id].capacity
                    &&& before[id].senders > 0 ==> after[id].senders == before[id].senders - 1
                }
            }
        }),
{
    if let Some(id) = r.channel {
        assert(final(table)@.remove(id) =~= old(table)@.remove(id));
    }
}

/// A connection that ends gives up its channel, and no other channel changes. It
/// takes its user out of the room just where the user is still there on its
/// channel; all others stay.
pub proof fn law_ending_a_connection(
    router: &mut Router,
    table: &mut ChannelTable<Bytes>,
    room: &str,
    user: &str,
    rx: BoundedReceiver,
    r: Unregistered,
    other: Seq<char>,
)
    requires
        call_ensures(Router::release, (router, table, room, user, rx), r),
    ensures
        final(table)@ == old(table)@.remove(rx.id),
        ({
            let (rooms, after) = (old(router)@, final(router)@);
            let own = rooms.contains_key(room@) && rooms[room@].contains_key(user@)
                && rooms[room@][user@] == rx.id;
            &&& !own ==> after == rooms && r.channel is None && !r.room_destroyed
            &&& own ==> {
                &&& r.channel == Some(rx.id)
                &&& !(after.contains_key(room@) && after[room@].contains_key(user@))
                &&& after.remove(room@) == rooms.remove(room@)
                &&& after.contains_key(room@) ==> after[room@] == rooms[room@].remove(user@)
                &&& other != user@ && rooms[room@].contains_key(other) ==> after.contains_key(
                    room@,
                )
                &&& r.room_destroyed <==> !after.contains_key(room@)
            }
        }),
{
    let (rooms, after) = (old(router)@, final(router)@);
    if rooms.contains_key(room@) && rooms[room@].contains_key(user@) && rooms[room@][user@]
        == rx.id {
        assert(after.remove(room@) =~= rooms.remove(room@));
        if other != user@ && rooms[room@].contains_key(other) {
            assert(rooms[room@].remove(user@).contains_key(other));
        }
    }
}

/// A command that is tried again is delivered just where its channel has room (or
/// has no receiver any more). It then stands behind all that waits there, and the
/// command's own sender is given up. No room and no other channel changes.
pub proof fn law_retry_that_delivers(
    retry: PendingRetry,
    router: &mut Router,
    table: &mut ChannelTable<Bytes>,
    elapsed_ns: u128,
    step: RetryStep,
)
    requires
        call_ensures(PendingRetry::attempt, (retry, router, table, elapsed_ns), step),
    ensures
        ({
            let (before, after, id) = (old(table)@, final(table)@, retry.tx.id);
            &&& step is Delivered <==> !before.contains_key(id) || before[id].queue.len()
                < before[id].capacity
            &&& step is Delivered ==> {
                &&& final(router)@ == old(router)@
                &&& after.remove(id) == before.remove(id)
                &&& after.contains_key(id) == before.contains_key(id)
                &&& before.contains_key(id) ==> {
                    &&& after[id].queue == before[id].queue.push(retry.item)
                    &&& after[id].capacity == before[id].capacity
                    &&& before[id].senders > 0 ==> after[id].senders == before[id].senders - 1
                }
            }
        }),
{
    assert(final(table)@.remove(retry.tx.id) =~= old(table)@.remove(retry.tx.id));
}

/// A command that finds its channel full is tried again for 50 ms, and nothing
/// changes meanwhile. After that it is not tried any more: its receiver is taken
/// out of the room, if still there on that channel, and all others stay. What
/// waits in the channels stays.
pub proof fn law_retry_that_fails(
    retry: PendingRetry,
    router: &mut Router,
    table: &mut ChannelTable<Bytes>,
    elapsed_ns: u128,
    step: RetryStep,
    other: Seq<char>,
)
    requires
        call_ensures(PendingRetry::attempt, (retry, router, table, elapsed_ns), step),
        old(table)@.contains_key(retry.tx.id),
        old(table)@[retry.tx.id].queue.len() >= old(table)@[retry.tx.id].capacity,
    ensures
        elapsed_ns < 50_000_000 ==> {
            &&& step == RetryStep::Again(retry)
            &&& final(router)@ == old(router)@
            &&& final(table)@ == old(table)@
        },
        elapsed_ns >= 50_000_000 ==> {
            let (rooms, left) = (old(router)@, final(router)@);
            let (before, after, id) = (old(table)@, final(table)@, retry.tx.id);
            let (room, user) = (retry.room_id@, retry.user_id@);
            let own = rooms.contains_key(room) && rooms[room].contains_key(user)
                && rooms[room][user] == id;
            &&& after.remove(id) == before.remove(id)
            &&& after.contains_key(id)
            &&& after[id].queue == before[id].queue
            &&& after[id].capacity == before[id].capacity
            &&& own && before[id].senders >= 2 ==> after[id].senders == before[id].senders - 2
            &&& !own && before[id].senders >= 1 ==> after[id].senders == before[id].senders - 1
            &&& step matches RetryStep::Disconnected(r) && {
                &&& own ==> r.channel == Some(id)
                &&& !own ==> r.channel is None
                &&& r.room_destroyed <==> own && !left.contains_key(room)
            }
            &&& !own ==> left == rooms
            &&& own ==> {
                &&& !(left.contains_key(room) && left[room].contains_key(user))
                &&& left.remove(room) == rooms.remove(room)
                &&& left.contains_key(room) ==> left[room] == rooms[room].remove(user)
                &&& other != user && rooms[room].contains_key(other) ==> left.contains_key(room)
            }
        },
{
    let (rooms, left) = (old(router)@, final(router)@);
    let (room, user) = (retry.room_id@, retry.user_id@);
    assert(final(table)@.remove(retry.tx.id) =~= old(table)@.remove(retry.tx.id));
    if elapsed_ns >= 50_000_000 && rooms.contains_key(room) && rooms[room].contains_key(user)
        && rooms[room][user] == retry.tx.id {
        assert(left.remove(room) =~= rooms.remove(room));
        if other != user && rooms[room].contains_key(other) {
            assert(rooms[room].remove(user).contains_key(other));
        }
    }
}

/// The numbers of rooms, of users in a room, of users in all rooms, and of the
/// receivers that a packet can have, are what they say.
pub proof fn law_counting(
    router: &Router,
    rooms: usize,
    users: usize,
    room: &str,
    in_room: usize,
    header: &PacketHeader,
    named: &str,
    in_named: usize,
    receivers: usize,
    all: Set<(Seq<char>, Seq<char>)>,
)
    requires
        call_ensures(Router::room_count, (router,), rooms),
        call_ensures(Router::user_count, (router,), users),
        call_ensures(Router::room_size, (router, room), in_room),
        call_ensures(PacketHeader::room_id_str, (header,), named),
        call_ensures(Router::room_size, (router, named), in_named),
        call_ensures(Router::audience_size, (router, header), receivers),
        forall|r: Seq<char>, u: Seq<char>|
            #[trigger] all.contains((r, u)) <==> router@.contains_key(r)
                && router@[r].contains_key(u),
    ensures
        rooms == router@.dom().len(),
        users == all.len(),
        router@.contains_key(room@) ==> in_room == router@[room@].dom().len(),
        !router@.contains_key(room@) ==> in_room == 0,
        header.target_type is Broadcast ==> receivers == in_named,
        header.target_type is Unicast ==> receivers == 1,
{
    assert forall|p: (Seq<char>, Seq<char>)| all.contains(p) <==> all_users(router@).contains(
        p,
    ) by {
        assert(all.contains((p.0, p.1)) <==> router@.contains_key(p.0)
            && router@[p.0].contains_key(p.1));
    }
    assert(all =~= all_users(router@));
    if !router@.contains_key(room@) {
        assert(Map::<Seq<char>, u64>::empty().dom() =~= Set::empty());
    }
}

} // verus!
