//! What holds of the channels as a whole.

use vstd::prelude::*;

use crate::channel::{
    after_clone, after_close, after_evicting_send, after_send, refuses, ChannelState,
};

verus! {

/// The channel after `items` were sent, one after the other.
pub open spec fn push_all<T>(c: ChannelState<T>, items: Seq<T>) -> ChannelState<T>
    decreases items.len(),
{
    if items.len() == 0 {
        c
    } else {
        push_all(c, items.drop_last()).push(items.last())
    }
}

/// The channel after `items` were sent with eviction, one after the other.
pub open spec fn push_evicting_all<T>(c: ChannelState<T>, items: Seq<T>) -> ChannelState<T>
    decreases items.len(),
{
    if items.len() == 0 {
        c
    } else {
        push_evicting_all(c, items.drop_last()).push_evicting(items.last())
    }
}

/// The channel after its `n` oldest items were received.
pub open spec fn pop_n<T>(c: ChannelState<T>, n: nat) -> ChannelState<T>
    decreases n,
{
    if n == 0 {
        c
    } else {
        pop_n(c, (n - 1) as nat).pop()
    }
}

/// The last `n` items, or all of them if there are fewer.
pub open spec fn newest<T>(items: Seq<T>, n: nat) -> Seq<T> {
    if items.len() <= n {
        items
    } else {
        items.skip(items.len() - n)
    }
}

/// A channel with room for all of `items` takes each of them, and keeps them in
/// the order in which they were sent, behind what waited before.
pub proof fn law_sent_items_queue_in_order<T>(c: ChannelState<T>, items: Seq<T>)
    requires
        c.queue.len() + items.len() <= c.capacity,
    ensures
        push_all(c, items) == (ChannelState { queue: c.queue + items, ..c }),
        forall|i: int|
            0 <= i < items.len() ==> !(#[trigger] push_all(c, items.take(i))).full(),
    decreases items.len(),
{
    if items.len() == 0 {
        assert(c.queue + items =~= c.queue);
    } else {
        let front = items.drop_last();
        law_sent_items_queue_in_order(c, front);
        assert(push_all(c, items).queue =~= c.queue + items);
        assert forall|i: int| 0 <= i < items.len() implies !(#[trigger] push_all(
            c,
            items.take(i),
        )).full() by {
            if i < front.len() {
                assert(items.take(i) =~= front.take(i));
            } else {
                assert(items.take(i) =~= front);
            }
        }
    }
}

/// Items are received in the order in which they wait: after `n` of them the
/// rest is there, unchanged.
pub proof fn law_items_are_received_in_order<T>(c: ChannelState<T>, n: nat)
    requires
        n <= c.queue.len(),
    ensures
        pop_n(c, n) == (ChannelState { queue: c.queue.skip(n as int), ..c }),
        n < c.queue.len() ==> pop_n(c, n).queue[0] == c.queue[n as int],
    decreases n,
{
    if n == 0 {
        assert(c.queue.skip(0) =~= c.queue);
    } else {
        law_items_are_received_in_order(c, (n - 1) as nat);
        assert(pop_n(c, n).queue =~= c.queue.skip(n as int));
    }
}

/// What is sent to an empty channel is what is received next, and the channel is
/// then as before.
pub proof fn law_receive_undoes_send<T>(c: ChannelState<T>, item: T)
    requires
        c.queue.len() == 0,
    ensures
        c.push(item).queue[0] == item,
        c.push(item).pop() == c,
        c.push_evicting(item) == c.push(item),
{
    assert(c.push(item).pop().queue =~= c.queue);
}

/// Sending with eviction keeps the newest items: as many as the channel may
/// hold, in the order in which they were sent.
pub proof fn law_eviction_keeps_the_newest<T>(c: ChannelState<T>, items: Seq<T>)
    requires
        c.capacity > 0,
        c.within_bounds(),
    ensures
        push_evicting_all(c, items) == (ChannelState {
            queue: newest(c.queue + items, c.capacity),
            ..c
        }),
    decreases items.len(),
{
    if items.len() == 0 {
        assert(c.queue + items =~= c.queue);
    } else {
        let front = items.drop_last();
        law_eviction_keeps_the_newest(c, front);
        assert(c.queue + items =~= (c.queue + front).push(items.last()));
        assert(push_evicting_all(c, items).queue =~= newest(c.queue + items, c.capacity));
    }
}

/// A send never leaves more in a channel than it may hold, unless it may hold
/// nothing at all.
pub proof fn law_capacity_is_kept<T>(c: ChannelState<T>, item: T)
    requires
        c.capacity > 0,
        c.queue.len() <= c.capacity,
    ensures
        !c.full() ==> c.push(item).queue.len() <= c.capacity,
        c.push_evicting(item).queue.len() <= c.capacity,
{
}

/// Receiving from a full channel makes room for one item.
pub proof fn law_receiving_makes_room<T>(c: ChannelState<T>)
    requires
        c.capacity > 0,
        c.within_bounds(),
        c.full(),
    ensures
        !c.pop().full(),
{
}

/// Once its receiver is given up, a channel takes every item and discards it.
pub proof fn law_sends_without_receiver_succeed<T>(
    table: Map<u64, ChannelState<T>>,
    id: u64,
    item: T,
)
    ensures
        ({
            let gone = table.remove(id);
            &&& !refuses(gone, id)
            &&& after_send(gone, id, item) == gone
            &&& after_evicting_send(gone, id, item) == gone
        }),
{
}

/// What is done to one channel leaves all others as they are.
pub proof fn law_channels_are_separate<T>(
    table: Map<u64, ChannelState<T>>,
    id: u64,
    other: u64,
    item: T,
)
    requires
        id != other,
        table.contains_key(other),
    ensures
        after_send(table, id, item).contains_key(other),
        after_send(table, id, item)[other] == table[other],
        after_evicting_send(table, id, item).contains_key(other),
        after_evicting_send(table, id, item)[other] == table[other],
        after_clone(table, id).contains_key(other),
        after_clone(table, id)[other] == table[other],
        after_close(table, id).contains_key(other),
        after_close(table, id)[other] == table[other],
{
}

/// Giving up a second sender undoes making it.
pub proof fn law_close_undoes_clone<T>(table: Map<u64, ChannelState<T>>, id: u64)
    ensures
        after_close(after_clone(table, id), id) == table,
{
    assert(after_close(after_clone(table, id), id) =~= table);
}

/// When the last sender is given up, what waits can still be received; after
/// that the receiver finds the channel closed.
pub proof fn law_channel_drains_before_it_closes<T>(c: ChannelState<T>)
    requires
        c.senders == 1,
    ensures
        c.without_sender().queue == c.queue,
        pop_n(c.without_sender(), c.queue.len()).queue.len() == 0,
        pop_n(c.without_sender(), c.queue.len()).senders == 0,
{
    law_items_are_received_in_order(c.without_sender(), c.queue.len());
}

} // verus!
