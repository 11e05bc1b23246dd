//! Rooms, and which connections a packet goes to.
//!
//! - A room exists while at least one user is in it.
//! - A user has one connection in a room: a new one takes the place of the old
//!   one, whose sender is given up.
//! - What happens when the channel of a receiver is full depends on the type of
//!   the packet. `RawMotion` drops the oldest item. `SystemCmd` is tried again
//!   for up to 50 ms, and then the receiver is disconnected. `AiEvent` and
//!   `Heartbeat` are dropped.

use bytes::Bytes;
use dashmap::DashMap;
use vstd::prelude::*;

use crate::buffer::bytes_of;
use crate::channel::{
    after_clone, after_close, after_evicting_send, after_send, most_after_clone, refuses,
    senders_to_spare, BoundedReceiver, BoundedSender, ChannelState, ChannelTable, SendAttempt,
};
use crate::protocol::{field_text, PacketHeader, PacketType, TargetType};
use crate::room_map::{
    count_members, count_rooms, entry_room, get_member, get_room, has_size, is_empty_room,
    lemma_lists_entries_len, list_members, list_rooms, lists_entries, members_of, new_room,
    new_rooms, no_rooms, nobody, put_member, put_room, rooms_of, take_member, take_room,
};
use crate::routing_laws::{clean_removal, law_unregister_is_a_clean_removal};

verus! {

/// How long a `SystemCmd` is tried on a full channel, in nanoseconds.
pub const SYSTEM_CMD_BUDGET_NS: u128 = 50_000_000;

/// The rooms and the users in them.
pub struct Router {
    rooms: DashMap<String, DashMap<String, u64>>,
}

/// What became of a registration when it was removed.
#[derive(Debug, PartialEq, Eq)]
pub struct Unregistered {
    /// The channel that the user had, if the user was in the room.
    pub channel: Option<u64>,
    /// Whether the room went with its last user.
    pub room_destroyed: bool,
}

/// A `SystemCmd` that found its channel full.
#[derive(Debug)]
pub struct PendingRetry {
    pub tx: BoundedSender,
    pub item: Bytes,
    pub room_id: String,
    pub user_id: String,
}

/// What became of a packet at one receiver.
#[derive(Debug)]
pub enum Disposition {
    /// The channel took it.
    Delivered,
    /// The channel was full and the packet was dropped.
    Dropped,
    /// The channel was full and the packet is to be tried again.
    Retrying(PendingRetry),
}

/// One receiver of a packet and what became of it there.
#[derive(Debug)]
pub struct Delivery {
    pub user_id: String,
    pub channel: u64,
    pub disposition: Disposition,
}

/// What became of a packet.
#[derive(Debug)]
pub enum RouteOutcome {
    /// No such room: the packet was dropped.
    RoomNotFound,
    /// No such user in the room: the packet was dropped.
    UserNotFound,
    /// The packet was handed to these receivers.
    Dispatched(Vec<Delivery>),
}

/// How a further attempt to deliver a `SystemCmd` ended.
#[derive(Debug)]
pub enum RetryStep {
    /// The channel took it.
    Delivered,
    /// The time was up: the receiver was disconnected, unless another connection
    /// had taken its place.
    Disconnected(Unregistered),
    /// The channel is still full: try again.
    Again(PendingRetry),
}

/// `Disposition` without what is needed to try again.
pub enum Verdict {
    Delivered,
    Dropped,
    Retrying,
}

/// The channels, with the bytes of the items that wait in them.
pub open spec fn traffic(table: Map<u64, ChannelState<Bytes>>) -> Map<u64, ChannelState<Seq<u8>>> {
    table.map_values(|c: ChannelState<Bytes>| wire_state(c))
}

/// A channel, with the bytes of the items that wait in it.
pub open spec fn wire_state(c: ChannelState<Bytes>) -> ChannelState<Seq<u8>> {
    ChannelState {
        queue: c.queue.map_values(|b: Bytes| bytes_of(b)),
        capacity: c.capacity,
        senders: c.senders,
    }
}

/// What becomes of a packet of type `t` at channel `id`.
pub open spec fn delivery_verdict(
    table: Map<u64, ChannelState<Seq<u8>>>,
    id: u64,
    t: PacketType,
) -> Verdict {
    if t is RawMotion || !refuses(table, id) {
        Verdict::Delivered
    } else if t is SystemCmd {
        Verdict::Retrying
    } else {
        Verdict::Dropped
    }
}

/// The channels after `payload` was handed to channel `id` in a packet of type `t`.
/// A packet that is to be tried again holds a sender of its own.
pub open spec fn after_delivery(
    table: Map<u64, ChannelState<Seq<u8>>>,
    id: u64,
    t: PacketType,
    payload: Seq<u8>,
) -> Map<u64, ChannelState<Seq<u8>>> {
    if t is RawMotion {
        after_evicting_send(table, id, payload)
    } else if !refuses(table, id) {
        after_send(table, id, payload)
    } else if t is SystemCmd {
        after_clone(table, id)
    } else {
        table
    }
}

/// The channels after `payload` was handed to each of the channels `ids` in turn.
pub open spec fn after_deliveries(
    table: Map<u64, ChannelState<Seq<u8>>>,
    ids: Seq<u64>,
    t: PacketType,
    payload: Seq<u8>,
) -> Map<u64, ChannelState<Seq<u8>>>
    decreases ids.len(),
{
    if ids.len() == 0 {
        table
    } else {
        after_delivery(
            after_deliveries(table, ids.drop_last(), t, payload),
            ids.last(),
            t,
            payload,
        )
    }
}

/// The greatest number of senders that a channel has had, after a packet of type
/// `t` was handed to channel `id`.
pub open spec fn most_after_delivery(
    most: u64,
    table: Map<u64, ChannelState<Seq<u8>>>,
    id: u64,
    t: PacketType,
) -> u64 {
    if delivery_verdict(table, id, t) is Retrying {
        most_after_clone(most, table, id)
    } else {
        most
    }
}

/// The greatest number of senders that a channel has had, after `payload` was
/// handed to each of the channels `ids` in turn.
pub open spec fn most_after_deliveries(
    most: u64,
    table: Map<u64, ChannelState<Seq<u8>>>,
    ids: Seq<u64>,
    t: PacketType,
    payload: Seq<u8>,
) -> u64
    decreases ids.len(),
{
    if ids.len() == 0 {
        most
    } else {
        most_after_delivery(
            most_after_deliveries(most, table, ids.drop_last(), t, payload),
            after_deliveries(table, ids.drop_last(), t, payload),
            ids.last(),
            t,
        )
    }
}

/// The channels of a list of deliveries.
pub open spec fn delivery_channels(deliveries: Seq<Delivery>) -> Seq<u64> {
    deliveries.map_values(|d: Delivery| d.channel)
}

/// The verdict of a disposition.
pub open spec fn verdict_of(d: Disposition) -> Verdict {
    match d {
        Disposition::Delivered => Verdict::Delivered,
        Disposition::Dropped => Verdict::Dropped,
        Disposition::Retrying(_) => Verdict::Retrying,
    }
}

/// What is tried again is `payload`, on channel `id`, for `user` in `room`.
pub open spec fn retries(
    d: Disposition,
    id: u64,
    payload: Seq<u8>,
    room: Seq<char>,
    user: Seq<char>,
) -> bool {
    d matches Disposition::Retrying(r) ==> {
        &&& r.tx.id == id
        &&& bytes_of(r.item) == payload
        &&& r.room_id@ == room
        &&& r.user_id@ == user
    }
}

/// `deliveries` names the receivers of a packet in a room: each user once, or
/// the one user `user`.
pub open spec fn receivers(
    target: TargetType,
    room: Map<Seq<char>, u64>,
    user: Seq<char>,
    deliveries: Seq<Delivery>,
) -> bool {
    let listed = deliveries.map_values(|d: Delivery| (d.user_id, d.channel));
    match target {
        TargetType::Broadcast => lists_entries(listed, room),
        TargetType::Unicast => {
            &&& listed.len() == 1
            &&& listed[0].0@ == user
            &&& room.contains_key(user)
            &&& listed[0].1 == room[user]
        },
    }
}

/// How many receivers a packet can have in a room.
pub open spec fn audience(target: TargetType, room: Map<Seq<char>, u64>) -> nat {
    match target {
        TargetType::Broadcast => room.dom().len(),
        TargetType::Unicast => 1,
    }
}

/// Each delivery ended as its channel made it end when its turn came.
pub open spec fn carried_out(
    table: Map<u64, ChannelState<Seq<u8>>>,
    deliveries: Seq<Delivery>,
    t: PacketType,
    payload: Seq<u8>,
    room: Seq<char>,
) -> bool {
    forall|i: int|
        #![trigger deliveries[i]]
        0 <= i < deliveries.len() ==> {
            let d = deliveries[i];
            let ids = delivery_channels(deliveries.take(i));
            &&& verdict_of(d.disposition) == delivery_verdict(
                after_deliveries(table, ids, t, payload),
                d.channel,
                t,
            )
            &&& retries(d.disposition, d.channel, payload, room, d.user_id@)
        }
}

/// Whom a packet with this header finds in these rooms, what becomes of it there,
/// and the channels after it, where `before` are the channels before it.
pub open spec fn routed(
    rooms: Map<Seq<char>, Map<Seq<char>, u64>>,
    header: PacketHeader,
    payload: Seq<u8>,
    before: Map<u64, ChannelState<Seq<u8>>>,
    outcome: RouteOutcome,
    after: Map<u64, ChannelState<Seq<u8>>>,
) -> bool {
    let room = field_text(header.room_id@);
    let user = field_text(header.user_id@);
    match outcome {
        RouteOutcome::RoomNotFound => {
            &&& !rooms.contains_key(room)
            &&& after == before
        },
        RouteOutcome::UserNotFound => {
            &&& header.target_type is Unicast
            &&& rooms.contains_key(room)
            &&& !rooms[room].contains_key(user)
            &&& after == before
        },
        RouteOutcome::Dispatched(deliveries) => {
            &&& rooms.contains_key(room)
            &&& receivers(header.target_type, rooms[room], user, deliveries@)
            &&& carried_out(before, deliveries@, header.packet_type, payload, room)
            &&& after == after_deliveries(
                before,
                delivery_channels(deliveries@),
                header.packet_type,
                payload,
            )
        },
    }
}

/// The users in a room, none if there is no such room.
pub open spec fn users_in(
    rooms: Map<Seq<char>, Map<Seq<char>, u64>>,
    room: Seq<char>,
) -> Map<Seq<char>, u64> {
    if rooms.contains_key(room) {
        rooms[room]
    } else {
        nobody()
    }
}

/// The channel of a user in a room.
pub open spec fn channel_of(
    rooms: Map<Seq<char>, Map<Seq<char>, u64>>,
    room: Seq<char>,
    user: Seq<char>,
) -> Option<u64> {
    if rooms.contains_key(room) && rooms[room].contains_key(user) {
        Some(rooms[room][user])
    } else {
        None
    }
}

/// The rooms with `user` in `room` on channel `id`.
pub open spec fn with_user(
    rooms: Map<Seq<char>, Map<Seq<char>, u64>>,
    room: Seq<char>,
    user: Seq<char>,
    id: u64,
) -> Map<Seq<char>, Map<Seq<char>, u64>> {
    rooms.insert(room, users_in(rooms, room).insert(user, id))
}

/// The rooms without `user` in `room`, and without the room if nobody is left in it.
pub open spec fn without_user(
    rooms: Map<Seq<char>, Map<Seq<char>, u64>>,
    room: Seq<char>,
    user: Seq<char>,
) -> Map<Seq<char>, Map<Seq<char>, u64>> {
    let rest = users_in(rooms, room).remove(user);
    if rest == nobody() {
        rooms.remove(room)
    } else {
        rooms.insert(room, rest)
    }
}

/// The table without the sender that a registration held, if there was one.
pub open spec fn after_release<T>(table: Map<u64, ChannelState<T>>, id: Option<u64>) -> Map<
    u64,
    ChannelState<T>,
> {
    match id {
        Some(id) => after_close(table, id),
        None => table,
    }
}

/// `user` was put in `room` on channel `id`, in the place of channel `kicked`.
pub open spec fn registered<T>(
    rooms: Map<Seq<char>, Map<Seq<char>, u64>>,
    table: Map<u64, ChannelState<T>>,
    room: Seq<char>,
    user: Seq<char>,
    id: u64,
    kicked: Option<u64>,
    rooms_after: Map<Seq<char>, Map<Seq<char>, u64>>,
    table_after: Map<u64, ChannelState<T>>,
) -> bool {
    &&& rooms_after == with_user(rooms, room, user, id)
    &&& kicked == channel_of(rooms, room, user)
    &&& table_after == after_release(table, kicked)
}

/// `user` was taken out of `room`.
pub open spec fn unregistered<T>(
    rooms: Map<Seq<char>, Map<Seq<char>, u64>>,
    table: Map<u64, ChannelState<T>>,
    room: Seq<char>,
    user: Seq<char>,
    r: Unregistered,
    rooms_after: Map<Seq<char>, Map<Seq<char>, u64>>,
    table_after: Map<u64, ChannelState<T>>,
) -> bool {
    &&& rooms_after == without_user(rooms, room, user)
    &&& r.channel == channel_of(rooms, room, user)
    &&& r.room_destroyed == (rooms.contains_key(room) && !rooms_after.contains_key(room))
    &&& table_after == after_release(table, r.channel)
}

/// `user` was taken out of `room` if still there on channel `id`.
pub open spec fn taken_out(
    rooms: Map<Seq<char>, Map<Seq<char>, u64>>,
    room: Seq<char>,
    user: Seq<char>,
    id: u64,
    r: Unregistered,
    rooms_after: Map<Seq<char>, Map<Seq<char>, u64>>,
) -> bool {
    if channel_of(rooms, room, user) == Some(id) {
        &&& rooms_after == without_user(rooms, room, user)
        &&& r.channel == Some(id)
        &&& r.room_destroyed == !rooms_after.contains_key(room)
    } else {
        &&& rooms_after == rooms
        &&& r.channel is None
        &&& !r.room_destroyed
    }
}

/// The connection of `user` in `room` on channel `id` was ended.
pub open spec fn released<T>(
    rooms: Map<Seq<char>, Map<Seq<char>, u64>>,
    table: Map<u64, ChannelState<T>>,
    room: Seq<char>,
    user: Seq<char>,
    id: u64,
    r: Unregistered,
    rooms_after: Map<Seq<char>, Map<Seq<char>, u64>>,
    table_after: Map<u64, ChannelState<T>>,
) -> bool {
    &&& table_after == table.remove(id)
    &&& taken_out(rooms, room, user, id, r, rooms_after)
}

/// How a further attempt to deliver a command ends, `elapsed_ns` after the first.
pub open spec fn retried(
    retry: PendingRetry,
    rooms: Map<Seq<char>, Map<Seq<char>, u64>>,
    table: Map<u64, ChannelState<Bytes>>,
    elapsed_ns: u128,
    step: RetryStep,
    rooms_after: Map<Seq<char>, Map<Seq<char>, u64>>,
    table_after: Map<u64, ChannelState<Bytes>>,
) -> bool {
    let id = retry.tx.id;
    match step {
        RetryStep::Delivered => {
            &&& !refuses(table, id)
            &&& rooms_after == rooms
            &&& table_after == after_close(after_send(table, id, retry.item), id)
        },
        RetryStep::Disconnected(r) => {
            &&& refuses(table, id)
            &&& elapsed_ns >= SYSTEM_CMD_BUDGET_NS
            &&& taken_out(rooms, retry.room_id@, retry.user_id@, id, r, rooms_after)
            &&& table_after == after_close(after_release(table, r.channel), id)
        },
        RetryStep::Again(next) => {
            &&& refuses(table, id)
            &&& elapsed_ns < SYSTEM_CMD_BUDGET_NS
            &&& next == retry
            &&& rooms_after == rooms
            &&& table_after == table
        },
    }
}

/// The users of all rooms, each with its room.
pub open spec fn all_users(rooms: Map<Seq<char>, Map<Seq<char>, u64>>) -> Set<
    (Seq<char>, Seq<char>),
> {
    Set::new(
        |p: (Seq<char>, Seq<char>)| rooms.contains_key(p.0) && rooms[p.0].contains_key(p.1),
    )
}

/// The users of the rooms `ids`, each with its room.
spec fn users_of(rooms: Map<Seq<char>, Map<Seq<char>, u64>>, ids: Seq<Seq<char>>) -> Set<
    (Seq<char>, Seq<char>),
> {
    Set::new(|p: (Seq<char>, Seq<char>)| ids.contains(p.0) && rooms[p.0].contains_key(p.1))
}

/// One room more adds as many users as are in it.
proof fn lemma_users_of_next(
    rooms: Map<Seq<char>, Map<Seq<char>, u64>>,
    ids: Seq<Seq<char>>,
    i: int,
)
    requires
        0 <= i < ids.len(),
        ids.no_duplicates(),
        rooms[ids[i]].dom().finite(),
        users_of(rooms, ids.take(i)).finite(),
    ensures
        users_of(rooms, ids.take(i + 1)).finite(),
        users_of(rooms, ids.take(i + 1)).len() == users_of(rooms, ids.take(i)).len()
            + rooms[ids[i]].dom().len(),
{
    let room = ids[i];
    let f = |user: Seq<char>| (room, user);
    let here = rooms[room].dom().map(f);
    let before = users_of(rooms, ids.take(i));
    vstd::set_lib::lemma_map_size(rooms[room].dom(), here, f);
    assert(here.disjoint(before)) by {
        assert forall|p: (Seq<char>, Seq<char>)| before.contains(p) implies !here.contains(p) by {
            let k = choose|k: int| 0 <= k < ids.take(i).len() && ids.take(i)[k] == p.0;
            assert(ids[k] == p.0);
        }
    }
    assert(users_of(rooms, ids.take(i + 1)) =~= before.union(here)) by {
        assert forall|p: (Seq<char>, Seq<char>)|
            users_of(rooms, ids.take(i + 1)).contains(p) <==> before.union(here).contains(p) by {
            let longer = ids.take(i + 1);
            if users_of(rooms, longer).contains(p) {
                let k = choose|k: int| 0 <= k < longer.len() && longer[k] == p.0;
                if k < i {
                    assert(ids.take(i)[k] == p.0);
                } else {
                    assert(f(p.1) == p);
                }
            }
            if before.contains(p) {
                let k = choose|k: int| 0 <= k < ids.take(i).len() && ids.take(i)[k] == p.0;
                assert(longer[k] == p.0);
            }
            if here.contains(p) {
                assert(longer[i] == p.0);
            }
        }
    }
    vstd::set_lib::lemma_set_disjoint_lens(before, here);
}

/// The users of finitely many finite rooms are finitely many.
proof fn lemma_users_of_finite(
    rooms: Map<Seq<char>, Map<Seq<char>, u64>>,
    ids: Seq<Seq<char>>,
    n: int,
)
    requires
        0 <= n <= ids.len(),
        ids.no_duplicates(),
        forall|k: int| 0 <= k < ids.len() ==> rooms[#[trigger] ids[k]].dom().finite(),
    ensures
        users_of(rooms, ids.take(n)).finite(),
    decreases n,
{
    if n == 0 {
        assert(users_of(rooms, ids.take(0)) =~= Set::empty());
    } else {
        lemma_users_of_finite(rooms, ids, n - 1);
        lemma_users_of_next(rooms, ids, n - 1);
    }
}

/// Sending an item is sending its bytes.
proof fn lemma_traffic(table: Map<u64, ChannelState<Bytes>>, id: u64, item: Bytes)
    ensures
        refuses(traffic(table), id) == refuses(table, id),
        traffic(after_send(table, id, item)) == after_send(traffic(table), id, bytes_of(item)),
        traffic(after_evicting_send(table, id, item)) == after_evicting_send(
            traffic(table),
            id,
            bytes_of(item),
        ),
{
    if table.contains_key(id) {
        let c = table[id];
        assert(wire_state(c.push(item)) =~= wire_state(c).push(bytes_of(item)));
        assert(wire_state(c.push_evicting(item)) =~= wire_state(c).push_evicting(bytes_of(item)));
    }
    assert(traffic(after_send(table, id, item)) =~= after_send(
        traffic(table),
        id,
        bytes_of(item),
    ));
    assert(traffic(after_evicting_send(table, id, item)) =~= after_evicting_send(
        traffic(table),
        id,
        bytes_of(item),
    ));
}

/// A sender more or fewer changes no item.
proof fn lemma_traffic_senders(table: Map<u64, ChannelState<Bytes>>, id: u64)
    ensures
        traffic(after_clone(table, id)) == after_clone(traffic(table), id),
        traffic(after_close(table, id)) == after_close(traffic(table), id),
{
    assert(traffic(after_clone(table, id)) =~= after_clone(traffic(table), id));
    assert(traffic(after_close(table, id)) =~= after_close(traffic(table), id));
}

impl View for Router {
    type V = Map<Seq<char>, Map<Seq<char>, u64>>;

    closed spec fn view(&self) -> Map<Seq<char>, Map<Seq<char>, u64>> {
        rooms_of(self.rooms)
    }
}

impl Router {
    /// There are finitely many rooms with finitely many users, and no room is empty.
    pub open spec fn wf(self) -> bool {
        &&& self@.dom().finite()
        &&& forall|room: Seq<char>| #[trigger]
            self@.contains_key(room) ==> self@[room].dom().finite() && self@[room] != nobody()
    }

    /// A router without rooms.
    pub fn new() -> (router: Self)
        ensures
            router.wf(),
            router@ == no_rooms(),
    {
        Router { rooms: new_rooms() }
    }

    /// Puts a user in a room, with the sender of its channel. If the user has a
    /// connection there already, that one's sender is given up, so that its
    /// receiver finds the channel closed. The result is the channel of the
    /// connection whose place was taken.
    pub fn register(
        &mut self,
        table: &mut ChannelTable<Bytes>,
        room_id: &str,
        user_id: &str,
        tx: BoundedSender,
    ) -> (kicked: Option<u64>)
        requires
            old(self).wf(),
            old(table).wf(),
        ensures
            final(self).wf(),
            final(table).wf(),
            final(table).next_id() == old(table).next_id(),
            final(table).most_senders() == old(table).most_senders(),
            registered(
                old(self)@,
                old(table)@,
                room_id@,
                user_id@,
                tx.id,
                kicked,
                final(self)@,
                final(table)@,
            ),
    {
        let mut room = match take_room(&mut self.rooms, room_id) {
            Some(room) => room,
            None => new_room(),
        };
        assert(members_of(room) == users_in(old(self)@, room_id@));
        let kicked = put_member(&mut room, user_id.to_owned(), tx.id);
        let _ = put_room(&mut self.rooms, room_id.to_owned(), room);
        assert(self@ =~= with_user(old(self)@, room_id@, user_id@, tx.id));
        assert(users_in(self@, room_id@).contains_key(user_id@));
        if let Some(id) = kicked {
            BoundedSender { id }.close(table);
        }
        kicked
    }

    /// Takes a user out of a room and gives up the sender of its channel. The
    /// room goes with its last user.
    pub fn unregister(
        &mut self,
        table: &mut ChannelTable<Bytes>,
        room_id: &str,
        user_id: &str,
    ) -> (r: Unregistered)
        requires
            old(self).wf(),
            old(table).wf(),
        ensures
            final(self).wf(),
            final(table).wf(),
            final(table).next_id() == old(table).next_id(),
            final(table).most_senders() == old(table).most_senders(),
            unregistered(
                old(self)@,
                old(table)@,
                room_id@,
                user_id@,
                r,
                final(self)@,
                final(table)@,
            ),
    {
        let r = Self::unregister_internal(&mut self.rooms, room_id, user_id);
        if let Some(id) = r.channel {
            BoundedSender { id }.close(table);
        }
        r
    }

    /// Takes a user out of a room, and removes the room with its last user.
    fn unregister_internal(
        rooms: &mut DashMap<String, DashMap<String, u64>>,
        room_id: &str,
        user_id: &str,
    ) -> (r: Unregistered)
        ensures
            rooms_of(*final(rooms)) == without_user(rooms_of(*old(rooms)), room_id@, user_id@),
            r.channel == channel_of(rooms_of(*old(rooms)), room_id@, user_id@),
            r.room_destroyed == (rooms_of(*old(rooms)).contains_key(room_id@) && !rooms_of(
                *final(rooms),
            ).contains_key(room_id@)),
            clean_removal(rooms_of(*old(rooms)), room_id@, user_id@, rooms_of(*final(rooms))),
    {
        let ghost before = rooms_of(*rooms);
        proof {
            law_unregister_is_a_clean_removal(before, room_id@, user_id@);
        }
        match take_room(rooms, room_id) {
            None => {
                assert(users_in(before, room_id@).remove(user_id@) =~= nobody());
                assert(rooms_of(*rooms) =~= before.remove(room_id@));
                Unregistered { channel: None, room_destroyed: false }
            },
            Some(room) => {
                let mut room = room;
                let channel = take_member(&mut room, user_id);
                if is_empty_room(&room) {
                    Unregistered { channel, room_destroyed: true }
                } else {
                    let _ = put_room(rooms, room_id.to_owned(), room);
                    assert(rooms_of(*rooms) =~= without_user(before, room_id@, user_id@));
                    Unregistered { channel, room_destroyed: false }
                }
            },
        }
    }

    /// Hands a packet to one receiver, in the way that its type asks for.
    fn dispatch(
        header: &PacketHeader,
        payload: &Bytes,
        target_user: &str,
        tx: &BoundedSender,
        table: &mut ChannelTable<Bytes>,
    ) -> (d: Disposition)
        requires
            old(table).wf(),
            senders_to_spare(old(table)@, 1),
        ensures
            final(table).wf(),
            final(table).next_id() == old(table).next_id(),
            final(table).most_senders() == most_after_delivery(
                old(table).most_senders(),
                traffic(old(table)@),
                tx.id,
                header.packet_type,
            ),
            traffic(final(table)@) == after_delivery(
                traffic(old(table)@),
                tx.id,
                header.packet_type,
                bytes_of(*payload),
            ),
            verdict_of(d) == delivery_verdict(traffic(old(table)@), tx.id, header.packet_type),
            retries(d, tx.id, bytes_of(*payload), field_text(header.room_id@), target_user@),
    {
        let item = payload.clone();
        proof {
            lemma_traffic(table@, tx.id, item);
            lemma_traffic_senders(table@, tx.id);
        }
        match header.packet_type {
            PacketType::RawMotion => {
                tx.send_drop_oldest(table, item);
                Disposition::Delivered
            },
            PacketType::SystemCmd => match tx.try_send(table, item) {
                Ok(()) => Disposition::Delivered,
                Err(returned) => {
                    let tx = tx.clone(table);
                    Disposition::Retrying(
                        PendingRetry {
                            tx,
                            item: returned,
                            room_id: header.room_id_str().to_owned(),
                            user_id: target_user.to_owned(),
                        },
                    )
                },
            },
            PacketType::AiEvent | PacketType::Heartbeat => match tx.try_send(table, item) {
                Ok(()) => Disposition::Delivered,
                Err(_) => Disposition::Dropped,
            },
        }
    }

    /// Hands a packet to each of `targets` in turn.
    fn dispatch_all(
        table: &mut ChannelTable<Bytes>,
        header: &PacketHeader,
        payload: &Bytes,
        targets: Vec<(String, u64)>,
    ) -> (deliveries: Vec<Delivery>)
        requires
            old(table).wf(),
            senders_to_spare(old(table)@, targets@.len()),
        ensures
            final(table).wf(),
            final(table).next_id() == old(table).next_id(),
            final(table).most_senders() == most_after_deliveries(
                old(table).most_senders(),
                traffic(old(table)@),
                delivery_channels(deliveries@),
                header.packet_type,
                bytes_of(*payload),
            ),
            deliveries@.map_values(|d: Delivery| (d.user_id, d.channel)) == targets@,
            carried_out(
                traffic(old(table)@),
                deliveries@,
                header.packet_type,
                bytes_of(*payload),
                field_text(header.room_id@),
            ),
            traffic(final(table)@) == after_deliveries(
                traffic(old(table)@),
                delivery_channels(deliveries@),
                header.packet_type,
                bytes_of(*payload),
            ),
    {
        let mut deliveries: Vec<Delivery> = Vec::new();
        let mut i: usize = 0;
        while i < targets.len()
            invariant
                i <= targets.len(),
                deliveries@.len() == i,
                table.wf(),
                table.next_id() == old(table).next_id(),
                table.most_senders() == most_after_deliveries(
                    old(table).most_senders(),
                    traffic(old(table)@),
                    delivery_channels(deliveries@),
                    header.packet_type,
                    bytes_of(*payload),
                ),
                senders_to_spare(table@, (targets@.len() - i) as nat),
                forall|k: int|
                    #![trigger deliveries@[k]]
                    0 <= k < i ==> deliveries@[k].user_id == targets@[k].0
                        && deliveries@[k].channel == targets@[k].1,
                carried_out(
                    traffic(old(table)@),
                    deliveries@,
                    header.packet_type,
                    bytes_of(*payload),
                    field_text(header.room_id@),
                ),
                traffic(table@) == after_deliveries(
                    traffic(old(table)@),
                    delivery_channels(deliveries@),
                    header.packet_type,
                    bytes_of(*payload),
                ),
            decreases targets.len() - i,
        {
            let ghost before = table@;
            let ghost done = deliveries@;
            let user_id = targets[i].0.clone();
            let channel = targets[i].1;
            let tx = BoundedSender { id: channel };
            let disposition = Self::dispatch(header, payload, user_id.as_str(), &tx, table);
            deliveries.push(Delivery { user_id, channel, disposition });
            proof {
                assert(delivery_channels(deliveries@).drop_last() =~= delivery_channels(done));
                assert(delivery_channels(deliveries@).last() == channel);
                assert forall|k: int|
                    #![trigger deliveries@[k]]
                    0 <= k < deliveries@.len() implies {
                    let d = deliveries@[k];
                    let ids = delivery_channels(deliveries@.take(k));
                    &&& verdict_of(d.disposition) == delivery_verdict(
                        after_deliveries(
                            traffic(old(table)@),
                            ids,
                            header.packet_type,
                            bytes_of(*payload),
                        ),
                        d.channel,
                        header.packet_type,
                    )
                    &&& retries(
                        d.disposition,
                        d.channel,
                        bytes_of(*payload),
                        field_text(header.room_id@),
                        d.user_id@,
                    )
                } by {
                    if k < i {
                        assert(deliveries@[k] == done[k]);
                        assert(deliveries@.take(k) =~= done.take(k));
                    } else {
                        assert(deliveries@.take(k) =~= done);
                    }
                }
                assert forall|id: u64| #[trigger] table@.contains_key(id) implies table@[id].senders
                    + (targets@.len() - i - 1) <= u64::MAX by {
                    assert(traffic(table@).contains_key(id));
                    assert(traffic(before).contains_key(id));
                    assert(before.contains_key(id));
                    assert(traffic(table@)[id].senders <= traffic(before)[id].senders + 1);
                }
            }
            i += 1;
        }
        assert(deliveries@.map_values(|d: Delivery| (d.user_id, d.channel)) =~= targets@);
        deliveries
    }

    /// Hands `payload` to the receivers that `header` names: everybody in the
    /// room, or one user in it. The order of the receivers in a room is not
    /// specified.
    pub fn route(
        &self,
        table: &mut ChannelTable<Bytes>,
        header: &PacketHeader,
        payload: Bytes,
    ) -> (outcome: RouteOutcome)
        requires
            old(table).wf(),
            senders_to_spare(
                old(table)@,
                audience(header.target_type, users_in(self@, field_text(header.room_id@))),
            ),
        ensures
            final(table).wf(),
            final(table).next_id() == old(table).next_id(),
            routed(
                self@,
                *header,
                bytes_of(payload),
                traffic(old(table)@),
                outcome,
                traffic(final(table)@),
            ),
            match outcome {
                RouteOutcome::RoomNotFound | RouteOutcome::UserNotFound => {
                    &&& final(table)@ == old(table)@
                    &&& final(table).most_senders() == old(table).most_senders()
                },
                RouteOutcome::Dispatched(deliveries) => final(table).most_senders()
                    == most_after_deliveries(
                    old(table).most_senders(),
                    traffic(old(table)@),
                    delivery_channels(deliveries@),
                    header.packet_type,
                    bytes_of(payload),
                ),
            },
    {
        let room_id = header.room_id_str();
        let entry = match get_room(&self.rooms, room_id) {
            Some(entry) => entry,
            None => return RouteOutcome::RoomNotFound,
        };
        let room = entry_room(&entry);
        let targets: Vec<(String, u64)> = match header.target_type {
            TargetType::Broadcast => {
                let list = list_members(room);
                proof {
                    lemma_lists_entries_len(list@, members_of(*room));
                }
                list
            },
            TargetType::Unicast => {
                let user_id = header.user_id_str();
                match get_member(room, user_id) {
                    Some(channel) => vec![(user_id.to_owned(), channel)],
                    None => return RouteOutcome::UserNotFound,
                }
            },
        };
        RouteOutcome::Dispatched(Self::dispatch_all(table, header, &payload, targets))
    }

    /// Whether a user is in a room on channel `id`.
    fn is_registered(&self, room_id: &str, user_id: &str, id: u64) -> (yes: bool)
        ensures
            yes == (channel_of(self@, room_id@, user_id@) == Some(id)),
    {
        let registered = match get_room(&self.rooms, room_id) {
            Some(entry) => get_member(entry_room(&entry), user_id),
            None => None,
        };
        match registered {
            Some(channel) => channel == id,
            None => false,
        }
    }

    /// Ends a connection: gives up its receiver, and takes the user out of the
    /// room unless another connection has taken this one's place.
    pub fn release(
        &mut self,
        table: &mut ChannelTable<Bytes>,
        room_id: &str,
        user_id: &str,
        rx: BoundedReceiver,
    ) -> (r: Unregistered)
        requires
            old(self).wf(),
            old(table).wf(),
        ensures
            final(self).wf(),
            final(table).wf(),
            final(table).next_id() == old(table).next_id(),
            final(table).most_senders() == old(table).most_senders(),
            released(
                old(self)@,
                old(table)@,
                room_id@,
                user_id@,
                rx.id,
                r,
                final(self)@,
                final(table)@,
            ),
    {
        let ghost id = rx.id;
        let r = if self.is_registered(room_id, user_id, rx.id) {
            self.unregister(table, room_id, user_id)
        } else {
            Unregistered { channel: None, room_destroyed: false }
        };
        rx.close(table);
        assert(table@ =~= old(table)@.remove(id));
        r
    }

    /// How many users there are in a room.
    pub fn room_size(&self, room_id: &str) -> (n: usize)
        ensures
            has_size(users_in(self@, room_id@), n as nat),
    {
        match get_room(&self.rooms, room_id) {
            Some(entry) => count_members(entry_room(&entry)),
            None => 0,
        }
    }

    /// How many receivers a packet with this header can have.
    pub fn audience_size(&self, header: &PacketHeader) -> (n: usize)
        ensures
            n == audience(header.target_type, users_in(self@, field_text(header.room_id@))),
    {
        match header.target_type {
            TargetType::Broadcast => self.room_size(header.room_id_str()),
            TargetType::Unicast => 1,
        }
    }

    /// How many rooms there are.
    pub fn room_count(&self) -> (n: usize)
        ensures
            has_size(self@, n as nat),
    {
        count_rooms(&self.rooms)
    }

    /// How many users there are in all rooms together.
    pub fn user_count(&self) -> (n: usize)
        requires
            self.wf(),
            all_users(self@).len() <= usize::MAX,
        ensures
            all_users(self@).finite(),
            n == all_users(self@).len(),
    {
        let list = list_rooms(&self.rooms);
        let ghost ids = list@.map_values(|id: String| id@);
        proof {
            assert forall|i: int, j: int|
                0 <= i < ids.len() && 0 <= j < ids.len() && i != j implies ids[i] != ids[j] by {
                assert(list@[i]@ == ids[i] && list@[j]@ == ids[j]);
            }
            assert forall|k: int| 0 <= k < ids.len() implies self@.contains_key(
                #[trigger] ids[k],
            ) by {
                assert(list@[k]@ == ids[k]);
            }
            assert(users_of(self@, ids) =~= all_users(self@)) by {
                assert forall|p: (Seq<char>, Seq<char>)| all_users(self@).contains(p) implies users_of(
                    self@,
                    ids,
                ).contains(p) by {
                    let k = choose|k: int|
                        #![trigger list@[k]]
                        0 <= k < list@.len() && list@[k]@ == p.0;
                    assert(ids[k] == p.0);
                }
            }
            lemma_users_of_finite(self@, ids, ids.len() as int);
            assert(ids.take(ids.len() as int) =~= ids);
            assert(users_of(self@, ids.take(0)) =~= Set::empty());
        }
        let mut total: usize = 0;
        let mut i: usize = 0;
        while i < list.len()
            invariant
                i <= list.len(),
                self.wf(),
                ids == list@.map_values(|id: String| id@),
                forall|k: int| 0 <= k < ids.len() ==> self@.contains_key(#[trigger] ids[k]),
                ids.no_duplicates(),
                users_of(self@, ids.take(i as int)).finite(),
                total == users_of(self@, ids.take(i as int)).len(),
                users_of(self@, ids).finite(),
                users_of(self@, ids).len() <= usize::MAX,
            decreases list.len() - i,
        {
            assert(ids[i as int] == list@[i as int]@);
            if let Some(entry) = get_room(&self.rooms, list[i].as_str()) {
                let n = count_members(entry_room(&entry));
                proof {
                    lemma_users_of_next(self@, ids, i as int);
                    assert(users_of(self@, ids.take(i + 1)).subset_of(users_of(self@, ids))) by {
                        assert forall|p: (Seq<char>, Seq<char>)|
                            users_of(self@, ids.take(i + 1)).contains(p) implies users_of(
                            self@,
                            ids,
                        ).contains(p) by {
                            let listed = ids.take(i + 1);
                            let k = choose|k: int| 0 <= k < listed.len() && listed[k] == p.0;
                            assert(ids[k] == p.0);
                        }
                    }
                    vstd::set_lib::lemma_len_subset(
                        users_of(self@, ids.take(i + 1)),
                        users_of(self@, ids),
                    );
                }
                total = total + n;
            }
            i += 1;
        }
        assert(ids.take(i as int) =~= ids);
        total
    }
}

impl Default for Router {
    fn default() -> (router: Self)
        ensures
            router.wf(),
            router@ == no_rooms(),
    {
        Router::new()
    }
}

impl PendingRetry {
    /// One further attempt to deliver a `SystemCmd`, `elapsed_ns` after the first
    /// of these attempts. When the time is up, the receiver is disconnected. If
    /// another connection has taken its place by then, that one is left alone.
    pub fn attempt(
        self,
        router: &mut Router,
        table: &mut ChannelTable<Bytes>,
        elapsed_ns: u128,
    ) -> (step: RetryStep)
        requires
            old(router).wf(),
            old(table).wf(),
        ensures
            final(router).wf(),
            final(table).wf(),
            final(table).next_id() == old(table).next_id(),
            final(table).most_senders() == old(table).most_senders(),
            retried(
                self,
                old(router)@,
                old(table)@,
                elapsed_ns,
                step,
                final(router)@,
                final(table)@,
            ),
    {
        let PendingRetry { tx, item, room_id, user_id } = self;
        match tx.send_timeout(table, item, elapsed_ns, SYSTEM_CMD_BUDGET_NS) {
            SendAttempt::Sent => {
                tx.close(table);
                RetryStep::Delivered
            },
            SendAttempt::TimedOut(_) => {
                let r = if router.is_registered(room_id.as_str(), user_id.as_str(), tx.id) {
                    router.unregister(table, room_id.as_str(), user_id.as_str())
                } else {
                    Unregistered { channel: None, room_destroyed: false }
                };
                tx.close(table);
                RetryStep::Disconnected(r)
            },
            SendAttempt::Again(item) => {
                RetryStep::Again(PendingRetry { tx, item, room_id, user_id })
            },
        }
    }
}

} // verus!
