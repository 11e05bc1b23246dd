//! Bounded queues between the router and the connections.
//!
//! A `ChannelTable` holds the channels that are in use. A `BoundedSender` and a
//! `BoundedReceiver` are handles: the number of a channel in the table. A
//! channel lives as long as its receiver. A sender may outlive it: what it sends
//! then is discarded.

use std::collections::{HashMap, VecDeque};

use vstd::prelude::*;

verus! {

/// How long a sender waits before it tries a full channel again, in milliseconds.
pub const RETRY_BACKOFF_MS: u64 = 5;

/// One channel: what waits in it, how much may wait, and how many senders it has.
struct Channel<T> {
    queue: VecDeque<T>,
    capacity: usize,
    senders: u64,
}

/// The channels in use.
pub struct ChannelTable<T> {
    channels: HashMap<u64, Channel<T>>,
    next_id: u64,
    most_senders: u64,
}

/// What a channel holds.
#[verifier::ext_equal]
pub struct ChannelState<T> {
    /// The waiting items, the oldest first.
    pub queue: Seq<T>,
    /// How many items may wait.
    pub capacity: nat,
    /// How many senders are left.
    pub senders: nat,
}

/// The sending half of a channel.
#[derive(Debug)]
pub struct BoundedSender {
    pub id: u64,
}

/// The receiving half of a channel. A channel has one receiver.
#[derive(Debug)]
pub struct BoundedReceiver {
    pub id: u64,
}

/// What a receiver finds.
#[derive(Debug, PartialEq, Eq)]
pub enum Recv<T> {
    /// The oldest item.
    Item(T),
    /// Nothing waits, and no sender is left to send anything.
    Closed,
    /// Nothing waits yet.
    Wait,
}

/// How one attempt of a send with a time limit ends.
#[derive(Debug, PartialEq, Eq)]
pub enum SendAttempt<T> {
    /// The channel took the item.
    Sent,
    /// The channel is full and the time is up.
    TimedOut(T),
    /// The channel is full: try again after `RETRY_BACKOFF_MS`.
    Again(T),
}

impl<T> ChannelState<T> {
    /// A channel in which nothing waits.
    pub open spec fn empty(capacity: nat) -> Self {
        ChannelState { queue: Seq::empty(), capacity, senders: 1 }
    }

    /// Whether the channel takes no further item.
    pub open spec fn full(self) -> bool {
        self.queue.len() >= self.capacity
    }

    /// The channel with `item` behind all others.
    pub open spec fn push(self, item: T) -> Self {
        ChannelState { queue: self.queue.push(item), ..self }
    }

    /// The channel with `item` behind all others, without the oldest one if it was full.
    pub open spec fn push_evicting(self, item: T) -> Self {
        if self.full() && self.queue.len() > 0 {
            ChannelState { queue: self.queue.skip(1).push(item), ..self }
        } else {
            self.push(item)
        }
    }

    /// The channel without its oldest item.
    pub open spec fn pop(self) -> Self {
        ChannelState { queue: self.queue.skip(1), ..self }
    }

    /// The channel with one sender more.
    pub open spec fn with_sender(self) -> Self {
        ChannelState { senders: self.senders + 1, ..self }
    }

    /// The channel with one sender fewer.
    pub open spec fn without_sender(self) -> Self {
        ChannelState { senders: if self.senders > 0 { (self.senders - 1) as nat } else { 0 }, ..self }
    }

    /// The channel does not hold more than it may: its capacity, or the one item
    /// that an evicting send always leaves behind.
    pub open spec fn within_bounds(self) -> bool {
        self.queue.len() <= if self.capacity == 0 { 1 } else { self.capacity }
    }
}

/// The table after `item` was sent to channel `id`.
pub open spec fn after_send<T>(table: Map<u64, ChannelState<T>>, id: u64, item: T) -> Map<
    u64,
    ChannelState<T>,
> {
    if table.contains_key(id) {
        table.insert(id, table[id].push(item))
    } else {
        table
    }
}

/// The table after `item` was sent to channel `id` with eviction.
pub open spec fn after_evicting_send<T>(
    table: Map<u64, ChannelState<T>>,
    id: u64,
    item: T,
) -> Map<u64, ChannelState<T>> {
    if table.contains_key(id) {
        table.insert(id, table[id].push_evicting(item))
    } else {
        table
    }
}

/// The table after one sender of channel `id` more.
pub open spec fn after_clone<T>(table: Map<u64, ChannelState<T>>, id: u64) -> Map<
    u64,
    ChannelState<T>,
> {
    if table.contains_key(id) {
        table.insert(id, table[id].with_sender())
    } else {
        table
    }
}

/// The table after one sender of channel `id` fewer.
pub open spec fn after_close<T>(table: Map<u64, ChannelState<T>>, id: u64) -> Map<
    u64,
    ChannelState<T>,
> {
    if table.contains_key(id) {
        table.insert(id, table[id].without_sender())
    } else {
        table
    }
}

/// The greatest number of senders that a channel has had, after one channel more.
pub open spec fn most_after_bounded(most: u64) -> u64 {
    if most == 0 {
        1
    } else {
        most
    }
}

/// The greatest number of senders that a channel has had, after one sender of
/// channel `id` more.
pub open spec fn most_after_clone<T>(
    most: u64,
    table: Map<u64, ChannelState<T>>,
    id: u64,
) -> u64 {
    if table.contains_key(id) && table[id].senders + 1 > most {
        (table[id].senders + 1) as u64
    } else {
        most
    }
}

/// Whether channel `id` refuses a further item.
pub open spec fn refuses<T>(table: Map<u64, ChannelState<T>>, id: u64) -> bool {
    table.contains_key(id) && table[id].full()
}

/// Every channel can be given `n` senders more.
pub open spec fn senders_to_spare<T>(table: Map<u64, ChannelState<T>>, n: nat) -> bool {
    forall|id: u64| #[trigger] table.contains_key(id) ==> table[id].senders + n <= u64::MAX
}

/// How a send without waiting of `item` to channel `id` ends.
pub open spec fn try_sent<T>(
    before: Map<u64, ChannelState<T>>,
    id: u64,
    item: T,
    r: Result<(), T>,
    after: Map<u64, ChannelState<T>>,
) -> bool {
    match r {
        Ok(()) => {
            &&& !refuses(before, id)
            &&& after == after_send(before, id, item)
        },
        Err(returned) => {
            &&& refuses(before, id)
            &&& returned == item
            &&& after == before
        },
    }
}

/// How one attempt of a send with a time limit ends.
pub open spec fn timed_sent<T>(
    before: Map<u64, ChannelState<T>>,
    id: u64,
    item: T,
    elapsed_ns: u128,
    timeout_ns: u128,
    r: SendAttempt<T>,
    after: Map<u64, ChannelState<T>>,
) -> bool {
    match r {
        SendAttempt::Sent => {
            &&& !refuses(before, id)
            &&& after == after_send(before, id, item)
        },
        SendAttempt::TimedOut(returned) => {
            &&& refuses(before, id)
            &&& elapsed_ns >= timeout_ns
            &&& returned == item
            &&& after == before
        },
        SendAttempt::Again(returned) => {
            &&& refuses(before, id)
            &&& elapsed_ns < timeout_ns
            &&& returned == item
            &&& after == before
        },
    }
}

/// What the receiver of channel `id` finds.
pub open spec fn received<T>(
    before: Map<u64, ChannelState<T>>,
    id: u64,
    r: Recv<T>,
    after: Map<u64, ChannelState<T>>,
) -> bool {
    match r {
        Recv::Item(item) => {
            &&& before.contains_key(id)
            &&& before[id].queue.len() > 0
            &&& item == before[id].queue[0]
            &&& after == before.insert(id, before[id].pop())
        },
        Recv::Closed => {
            &&& before.contains_key(id) ==> {
                &&& before[id].queue.len() == 0
                &&& before[id].senders == 0
            }
            &&& after == before
        },
        Recv::Wait => {
            &&& before.contains_key(id)
            &&& before[id].queue.len() == 0
            &&& before[id].senders > 0
            &&& after == before
        },
    }
}

/// What the receiver of channel `id` finds, if it only asks for items.
pub open spec fn polled<T>(
    before: Map<u64, ChannelState<T>>,
    id: u64,
    r: Result<T, ()>,
    after: Map<u64, ChannelState<T>>,
) -> bool {
    match r {
        Ok(item) => {
            &&& before.contains_key(id)
            &&& before[id].queue.len() > 0
            &&& item == before[id].queue[0]
            &&& after == before.insert(id, before[id].pop())
        },
        Err(()) => {
            &&& before.contains_key(id) ==> before[id].queue.len() == 0
            &&& after == before
        },
    }
}

/// A channel for `capacity` items was made under the number `id`.
pub open spec fn channel_made<T>(
    before: Map<u64, ChannelState<T>>,
    id: u64,
    capacity: nat,
    after: Map<u64, ChannelState<T>>,
) -> bool {
    &&& !before.contains_key(id)
    &&& after == before.insert(id, ChannelState::empty(capacity))
}

impl<T> Channel<T> {
    spec fn state(self) -> ChannelState<T> {
        ChannelState {
            queue: self.queue@,
            capacity: self.capacity as nat,
            senders: self.senders as nat,
        }
    }
}

impl<T> View for ChannelTable<T> {
    type V = Map<u64, ChannelState<T>>;

    closed spec fn view(&self) -> Map<u64, ChannelState<T>> {
        self.channels@.map_values(|c: Channel<T>| c.state())
    }
}

impl<T> ChannelTable<T> {
    /// The number that the next channel gets. No channel has this number or a
    /// greater one, so a number is never given twice.
    pub closed spec fn next_id(self) -> u64 {
        self.next_id
    }

    /// The greatest number of senders that a channel has had.
    pub closed spec fn most_senders(self) -> u64 {
        self.most_senders
    }

    /// Channels have the numbers that were given, and hold no more than they may.
    pub open spec fn wf(self) -> bool {
        &&& forall|id: u64| #[trigger] self@.contains_key(id) ==> id < self.next_id()
        &&& forall|id: u64| #[trigger]
            self@.contains_key(id) ==> self@[id].senders <= self.most_senders()
        &&& forall|id: u64| #[trigger] self@.contains_key(id) ==> self@[id].within_bounds()
    }

    /// A table without channels.
    pub fn new() -> (table: Self)
        ensures
            table.wf(),
            table@ == Map::<u64, ChannelState<T>>::empty(),
            table.next_id() == 0,
            table.most_senders() == 0,
    {
        let table = ChannelTable { channels: HashMap::new(), next_id: 0, most_senders: 0 };
        assert(table@ =~= Map::<u64, ChannelState<T>>::empty());
        table
    }

    /// Whether a number is left for one more channel.
    pub fn can_add_channel(&self) -> (yes: bool)
        ensures
            yes == (self.next_id() < u64::MAX),
    {
        self.next_id < u64::MAX
    }

    /// Whether `n` senders more can be counted, on whatever channel.
    pub fn can_add_senders(&self, n: u64) -> (yes: bool)
        ensures
            yes == (self.most_senders() + n <= u64::MAX),
            yes && self.wf() ==> senders_to_spare(self@, n as nat),
    {
        n <= u64::MAX - self.most_senders
    }
}

/// Makes a channel in which up to `capacity` items may wait.
pub fn bounded<T>(table: &mut ChannelTable<T>, capacity: usize) -> (halves: (
    BoundedSender,
    BoundedReceiver,
))
    requires
        old(table).wf(),
        old(table).next_id() < u64::MAX,
    ensures
        final(table).wf(),
        halves.0.id == old(table).next_id(),
        halves.1.id == old(table).next_id(),
        channel_made(old(table)@, halves.0.id, capacity as nat, final(table)@),
        final(table).next_id() == old(table).next_id() + 1,
        final(table).most_senders() == most_after_bounded(old(table).most_senders()),
{
    let id = table.next_id;
    let channel = Channel { queue: VecDeque::new(), capacity, senders: 1 };
    assert(channel.state() =~= ChannelState::<T>::empty(capacity as nat));
    table.channels.insert(id, channel);
    table.next_id = id + 1;
    if table.most_senders == 0 {
        table.most_senders = 1;
    }
    assert(table@ =~= old(table)@.insert(id, ChannelState::empty(capacity as nat)));
    (BoundedSender { id }, BoundedReceiver { id })
}

impl BoundedSender {
    /// Sends without waiting. Gives the item back when the channel is full.
    pub fn try_send<T>(&self, table: &mut ChannelTable<T>, item: T) -> (r: Result<(), T>)
        requires
            old(table).wf(),
        ensures
            final(table).wf(),
            final(table).next_id() == old(table).next_id(),
            final(table).most_senders() == old(table).most_senders(),
            try_sent(old(table)@, self.id, item, r, final(table)@),
    {
        match table.channels.remove(&self.id) {
            None => {
                assert(table@ =~= old(table)@);
                Ok(())
            },
            Some(channel) => {
                assert(old(table)@.contains_key(self.id));
                let mut channel = channel;
                let ghost before = channel.state();
                if channel.queue.len() < channel.capacity {
                    channel.queue.push_back(item);
                    assert(channel.state() =~= before.push(item));
                    table.channels.insert(self.id, channel);
                    assert(table@ =~= after_send(old(table)@, self.id, item));
                    Ok(())
                } else {
                    table.channels.insert(self.id, channel);
                    assert(table@ =~= old(table)@);
                    Err(item)
                }
            },
        }
    }

    /// Sends without waiting, and drops the oldest item when the channel is full.
    pub fn send_drop_oldest<T>(&self, table: &mut ChannelTable<T>, item: T)
        requires
            old(table).wf(),
        ensures
            final(table).wf(),
            final(table).next_id() == old(table).next_id(),
            final(table).most_senders() == old(table).most_senders(),
            final(table)@ == after_evicting_send(old(table)@, self.id, item),
    {
        match table.channels.remove(&self.id) {
            None => {
                assert(table@ =~= old(table)@);
            },
            Some(channel) => {
                assert(old(table)@.contains_key(self.id));
                let mut channel = channel;
                let ghost before = channel.state();
                if channel.queue.len() >= channel.capacity {
                    let _ = channel.queue.pop_front();
                }
                channel.queue.push_back(item);
                assert(channel.state() =~= before.push_evicting(item));
                table.channels.insert(self.id, channel);
                assert(table@ =~= after_evicting_send(old(table)@, self.id, item));
            },
        }
    }

    /// One attempt of a send that gives up `timeout_ns` after it began, where
    /// `elapsed_ns` is the time since then. The first attempt is made at once;
    /// after `SendAttempt::Again` the next one follows `RETRY_BACKOFF_MS` later.
    pub fn send_timeout<T>(
        &self,
        table: &mut ChannelTable<T>,
        item: T,
        elapsed_ns: u128,
        timeout_ns: u128,
    ) -> (r: SendAttempt<T>)
        requires
            old(table).wf(),
        ensures
            final(table).wf(),
            final(table).next_id() == old(table).next_id(),
            final(table).most_senders() == old(table).most_senders(),
            timed_sent(old(table)@, self.id, item, elapsed_ns, timeout_ns, r, final(table)@),
    {
        match self.try_send(table, item) {
            Ok(()) => SendAttempt::Sent,
            Err(returned) => if elapsed_ns >= timeout_ns {
                SendAttempt::TimedOut(returned)
            } else {
                SendAttempt::Again(returned)
            },
        }
    }

    /// A second sender of the same channel.
    pub fn clone<T>(&self, table: &mut ChannelTable<T>) -> (copy: BoundedSender)
        requires
            old(table).wf(),
            old(table)@.contains_key(self.id) ==> old(table)@[self.id].senders < u64::MAX,
        ensures
            final(table).wf(),
            final(table).next_id() == old(table).next_id(),
            final(table).most_senders() == most_after_clone(
                old(table).most_senders(),
                old(table)@,
                self.id,
            ),
            copy.id == self.id,
            final(table)@ == after_clone(old(table)@, self.id),
    {
        match table.channels.remove(&self.id) {
            None => {
                assert(table@ =~= old(table)@);
            },
            Some(channel) => {
                assert(old(table)@.contains_key(self.id));
                let mut channel = channel;
                let ghost before = channel.state();
                assert(before == old(table)@[self.id]);
                channel.senders = channel.senders + 1;
                if channel.senders > table.most_senders {
                    table.most_senders = channel.senders;
                }
                assert(channel.state() =~= before.with_sender());
                table.channels.insert(self.id, channel);
                assert(table@ =~= after_clone(old(table)@, self.id));
            },
        }
        BoundedSender { id: self.id }
    }

    /// Gives this sender up.
    pub fn close<T>(self, table: &mut ChannelTable<T>)
        requires
            old(table).wf(),
        ensures
            final(table).wf(),
            final(table).next_id() == old(table).next_id(),
            final(table).most_senders() == old(table).most_senders(),
            final(table)@ == after_close(old(table)@, self.id),
    {
        match table.channels.remove(&self.id) {
            None => {
                assert(table@ =~= old(table)@);
            },
            Some(channel) => {
                assert(old(table)@.contains_key(self.id));
                let mut channel = channel;
                let ghost before = channel.state();
                if channel.senders > 0 {
                    channel.senders = channel.senders - 1;
                }
                assert(channel.state() =~= before.without_sender());
                table.channels.insert(self.id, channel);
                assert(table@ =~= after_close(old(table)@, self.id));
            },
        }
    }
}

impl BoundedReceiver {
    /// Takes the oldest item. Finds the channel closed when nothing waits and
    /// all senders have been given up.
    pub fn recv<T>(&self, table: &mut ChannelTable<T>) -> (r: Recv<T>)
        requires
            old(table).wf(),
        ensures
            final(table).wf(),
            final(table).next_id() == old(table).next_id(),
            final(table).most_senders() == old(table).most_senders(),
            received(old(table)@, self.id, r, final(table)@),
    {
        match table.channels.remove(&self.id) {
            None => {
                assert(table@ =~= old(table)@);
                Recv::Closed
            },
            Some(channel) => {
                let mut channel = channel;
                let ghost before = channel.state();
                assert(old(table)@.contains_key(self.id));
                assert(before == old(table)@[self.id]);
                let senders = channel.senders;
                let head = channel.queue.pop_front();
                assert(head is Some ==> channel.state() =~= before.pop());
                assert(head is None ==> channel.state() =~= before);
                table.channels.insert(self.id, channel);
                match head {
                    Some(item) => {
                        assert(table@ =~= old(table)@.insert(self.id, before.pop()));
                        Recv::Item(item)
                    },
                    None => {
                        assert(table@ =~= old(table)@);
                        if senders == 0 {
                            Recv::Closed
                        } else {
                            Recv::Wait
                        }
                    },
                }
            },
        }
    }

    /// Takes the oldest item, or gives `Err` when nothing waits.
    pub fn try_recv<T>(&self, table: &mut ChannelTable<T>) -> (r: Result<T, ()>)
        requires
            old(table).wf(),
        ensures
            final(table).wf(),
            final(table).next_id() == old(table).next_id(),
            final(table).most_senders() == old(table).most_senders(),
            polled(old(table)@, self.id, r, final(table)@),
    {
        match self.recv(table) {
            Recv::Item(item) => Ok(item),
            _ => Err(()),
        }
    }

    /// Gives the receiver up. The channel goes with all that waits in it.
    pub fn close<T>(self, table: &mut ChannelTable<T>)
        requires
            old(table).wf(),
        ensures
            final(table).wf(),
            final(table).next_id() == old(table).next_id(),
            final(table).most_senders() == old(table).most_senders(),
            final(table)@ == old(table)@.remove(self.id),
    {
        table.channels.remove(&self.id);
        assert(table@ =~= old(table)@.remove(self.id));
    }
}

} // verus!
