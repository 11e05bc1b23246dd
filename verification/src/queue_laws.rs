//! What sending and receiving do to the queues: for every call of the functions on
//! channels, how its result and the channels after it relate to the channels
//! before it. `before` and `after` stand for the table before and after a call.

use vstd::prelude::*;

use crate::channel::{
    bounded, BoundedReceiver, BoundedSender, ChannelTable, Recv, SendAttempt,
};

verus! {

/// A new table has no channels.
pub proof fn law_new_table_is_empty<T>(table: ChannelTable<T>)
    requires
        call_ensures(ChannelTable::<T>::new, (), table),
    ensures
        forall|id: u64| !(#[trigger] table@.contains_key(id)),
{
}

/// A new channel has a number that no other has, for both of its halves. It is
/// empty, holds as many items as was asked for, and has one sender. All other
/// channels stay as they are.
pub proof fn law_new_channel<T>(
    table: &mut ChannelTable<T>,
    capacity: usize,
    halves: (BoundedSender, BoundedReceiver),
)
    requires
        call_ensures(bounded::<T>, (table, capacity), halves),
    ensures
        ({
            let (before, after, id) = (old(table)@, final(table)@, halves.0.id);
            &&& halves.1.id == id
            &&& !before.contains_key(id)
            &&& after.contains_key(id)
            &&& after[id].queue.len() == 0
            &&& after[id].capacity == capacity
            &&& after[id].senders == 1
            &&& after.remove(id) == before
        }),
{
    let (before, after, id) = (old(table)@, final(table)@, halves.0.id);
    assert(after.remove(id) =~= before);
}

/// A send without waiting succeeds just where fewer items wait than may; the item
/// then stands behind all others. Else it is given back and nothing changes. A
/// channel without receiver takes the item and discards it.
pub proof fn law_send_without_waiting<T>(
    tx: &BoundedSender,
    table: &mut ChannelTable<T>,
    item: T,
    r: Result<(), T>,
)
    requires
        call_ensures(BoundedSender::try_send::<T>, (tx, table, item), r),
    ensures
        ({
            let (before, after, id) = (old(table)@, final(table)@, tx.id);
            &&& !before.contains_key(id) ==> r is Ok && after == before
            &&& before.contains_key(id) ==> {
                &&& r is Ok <==> before[id].queue.len() < before[id].capacity
                &&& r is Ok ==> after.contains_key(id) && after[id].queue
                    == before[id].queue.push(item)
                &&& after[id].capacity == before[id].capacity
                &&& after[id].senders == before[id].senders
                &&& after.remove(id) == before.remove(id)
            }
            &&& r matches Err(returned) ==> returned == item && after == before
        }),
{
    assert(final(table)@.remove(tx.id) =~= old(table)@.remove(tx.id));
}

/// A send with eviction always leaves the item behind all others. Where the
/// channel was full, the oldest item goes, and only that one. A channel without
/// receiver discards the item.
pub proof fn law_send_with_eviction<T>(tx: &BoundedSender, table: &mut ChannelTable<T>, item: T)
    requires
        call_ensures(BoundedSender::send_drop_oldest::<T>, (tx, table, item), ()),
    ensures
        ({
            let (before, after, id) = (old(table)@, final(table)@, tx.id);
            &&& !before.contains_key(id) ==> after == before
            &&& before.contains_key(id) ==> {
                let queue = before[id].queue;
                &&& after.contains_key(id)
                &&& queue.len() < before[id].capacity ==> after[id].queue == queue.push(item)
                &&& queue.len() >= before[id].capacity && queue.len() > 0 ==> after[id].queue
                    == queue.skip(1).push(item)
                &&& queue.len() == 0 ==> after[id].queue == seq![item]
                &&& after[id].capacity == before[id].capacity
                &&& after[id].senders == before[id].senders
                &&& after.remove(id) == before.remove(id)
            }
        }),
{
    let (before, after, id) = (old(table)@, final(table)@, tx.id);
    assert(after.remove(id) =~= before.remove(id));
    if before.contains_key(id) && before[id].queue.len() == 0 {
        assert(after[id].queue =~= seq![item]);
    }
}

/// An attempt of a send with a time limit sends just where fewer items wait than
/// may. Else the item is given back and nothing changes; it is tried again until
/// the time is up, and not after that.
pub proof fn law_send_with_time_limit<T>(
    tx: &BoundedSender,
    table: &mut ChannelTable<T>,
    item: T,
    elapsed_ns: u128,
    timeout_ns: u128,
    r: SendAttempt<T>,
)
    requires
        call_ensures(
            BoundedSender::send_timeout::<T>,
            (tx, table, item, elapsed_ns, timeout_ns),
            r,
        ),
    ensures
        ({
            let (before, after, id) = (old(table)@, final(table)@, tx.id);
            let full = before.contains_key(id) && before[id].queue.len() >= before[id].capacity;
            &&& r is Sent <==> !full
            &&& r is TimedOut <==> full && elapsed_ns >= timeout_ns
            &&& r is Again <==> full && elapsed_ns < timeout_ns
            &&& r matches SendAttempt::TimedOut(returned) ==> returned == item && after == before
            &&& r matches SendAttempt::Again(returned) ==> returned == item && after == before
            &&& !before.contains_key(id) ==> after == before
            &&& before.contains_key(id) && r is Sent ==> {
                &&& after.contains_key(id)
                &&& after[id].queue == before[id].queue.push(item)
                &&& after[id].capacity == before[id].capacity
                &&& after[id].senders == before[id].senders
                &&& after.remove(id) == before.remove(id)
            }
        }),
{
    assert(final(table)@.remove(tx.id) =~= old(table)@.remove(tx.id));
}

/// A second sender is one of the same channel. It is counted, and nothing else
/// changes.
pub proof fn law_second_sender<T>(
    tx: &BoundedSender,
    table: &mut ChannelTable<T>,
    copy: BoundedSender,
)
    requires
        call_ensures(BoundedSender::clone::<T>, (tx, table), copy),
    ensures
        ({
            let (before, after, id) = (old(table)@, final(table)@, tx.id);
            &&& copy.id == id
            &&& !before.contains_key(id) ==> after == before
            &&& before.contains_key(id) ==> {
                &&& after.contains_key(id)
                &&& after[id].queue == before[id].queue
                &&& after[id].capacity == before[id].capacity
                &&& after[id].senders == before[id].senders + 1
                &&& after.remove(id) == before.remove(id)
            }
        }),
{
    assert(final(table)@.remove(tx.id) =~= old(table)@.remove(tx.id));
}

/// A sender that is given up is no longer counted, and nothing else changes: what
/// waits stays.
pub proof fn law_sender_given_up<T>(tx: BoundedSender, table: &mut ChannelTable<T>)
    requires
        call_ensures(BoundedSender::close::<T>, (tx, table), ()),
    ensures
        ({
            let (before, after, id) = (old(table)@, final(table)@, tx.id);
            &&& !before.contains_key(id) ==> after == before
            &&& before.contains_key(id) ==> {
                &&& after.contains_key(id)
                &&& after[id].queue == before[id].queue
                &&& after[id].capacity == before[id].capacity
                &&& before[id].senders > 0 ==> after[id].senders == before[id].senders - 1
                &&& before[id].senders == 0 ==> after[id].senders == 0
                &&& after.remove(id) == before.remove(id)
            }
        }),
{
    assert(final(table)@.remove(tx.id) =~= old(table)@.remove(tx.id));
}

/// A receiver gets the oldest item, which then no longer waits, just where one
/// waits. Else it finds the channel closed where no sender is left, and waits
/// where one is. Nothing else changes.
pub proof fn law_receiving<T>(rx: &BoundedReceiver, table: &mut ChannelTable<T>, r: Recv<T>)
    requires
        call_ensures(BoundedReceiver::recv::<T>, (rx, table), r),
    ensures
        ({
            let (before, after, id) = (old(table)@, final(table)@, rx.id);
            &&& !before.contains_key(id) ==> r is Closed
            &&& before.contains_key(id) ==> {
                &&& r is Item <==> before[id].queue.len() > 0
                &&& r is Closed <==> before[id].queue.len() == 0 && before[id].senders == 0
                &&& r is Wait <==> before[id].queue.len() == 0 && before[id].senders > 0
            }
            &&& r matches Recv::Item(item) ==> {
                &&& item == before[id].queue[0]
                &&& after.contains_key(id)
                &&& after[id].queue == before[id].queue.skip(1)
                &&& after[id].capacity == before[id].capacity
                &&& after[id].senders == before[id].senders
                &&& after.remove(id) == before.remove(id)
            }
            &&& !(r is Item) ==> after == before
        }),
{
    assert(final(table)@.remove(rx.id) =~= old(table)@.remove(rx.id));
}

/// A receiver that only asks for items gets the oldest one, which then no longer
/// waits, just where one waits. Nothing else changes.
pub proof fn law_asking_for_an_item<T>(
    rx: &BoundedReceiver,
    table: &mut ChannelTable<T>,
    r: Result<T, ()>,
)
    requires
        call_ensures(BoundedReceiver::try_recv::<T>, (rx, table), r),
    ensures
        ({
            let (before, after, id) = (old(table)@, final(table)@, rx.id);
            &&& r is Ok <==> before.contains_key(id) && before[id].queue.len() > 0
            &&& r matches Ok(item) ==> {
                &&& item == before[id].queue[0]
                &&& after.contains_key(id)
                &&& after[id].queue == before[id].queue.skip(1)
                &&& after[id].capacity == before[id].capacity
                &&& after[id].senders == before[id].senders
                &&& after.remove(id) == before.remove(id)
            }
            &&& r is Err ==> after == before
        }),
{
    assert(final(table)@.remove(rx.id) =~= old(table)@.remove(rx.id));
}

/// A channel whose receiver is given up is gone, and nothing else changes.
pub proof fn law_receiver_given_up<T>(rx: BoundedReceiver, table: &mut ChannelTable<T>)
    requires
        call_ensures(BoundedReceiver::close::<T>, (rx, table), ()),
    ensures
        !final(table)@.contains_key(rx.id),
        final(table)@ == old(table)@.remove(rx.id),
{
}

/// What is sent to a channel is received next if nothing waited there, and else
/// what had waited longest. `later` is the table between the two calls.
pub proof fn law_first_in_first_out<T>(
    tx: &BoundedSender,
    table: &mut ChannelTable<T>,
    item: T,
    rx: &BoundedReceiver,
    later: &mut ChannelTable<T>,
    r: Recv<T>,
)
    requires
        call_ensures(BoundedSender::try_send::<T>, (tx, table, item), Ok(())),
        *old(later) == *final(table),
        call_ensures(BoundedReceiver::recv::<T>, (rx, later), r),
        rx.id == tx.id,
        old(table)@.contains_key(tx.id),
    ensures
        old(table)@[tx.id].queue.len() == 0 ==> r == Recv::Item(item),
        old(table)@[tx.id].queue.len() > 0 ==> r == Recv::Item(old(table)@[tx.id].queue[0]),
        final(later)@[tx.id].queue == old(table)@[tx.id].queue.push(item).skip(1),
{
}

/// The number of a channel is not given again, also after the channel is gone:
/// `between` is the table when its receiver is given up, and `later` the table when
/// the next channel is made.
pub proof fn law_numbers_are_not_given_again<T>(
    table: &mut ChannelTable<T>,
    capacity: usize,
    first: (BoundedSender, BoundedReceiver),
    between: &mut ChannelTable<T>,
    later: &mut ChannelTable<T>,
    other_capacity: usize,
    second: (BoundedSender, BoundedReceiver),
)
    requires
        call_ensures(bounded::<T>, (table, capacity), first),
        *old(between) == *final(table),
        call_ensures(BoundedReceiver::close::<T>, (first.1, between), ()),
        *old(later) == *final(between),
        call_ensures(bounded::<T>, (later, other_capacity), second),
    ensures
        second.0.id != first.0.id,
        second.1.id != first.1.id,
        !final(later)@.contains_key(first.0.id),
{
}

/// No call on a sender or a receiver gives a number to a new channel, or takes one
/// back.
pub proof fn law_calls_on_channels_give_no_numbers<T>(
    tx: &BoundedSender,
    rx: &BoundedReceiver,
    item: T,
    sent: &mut ChannelTable<T>,
    s: Result<(), T>,
    evicting: &mut ChannelTable<T>,
    timed: &mut ChannelTable<T>,
    elapsed_ns: u128,
    timeout_ns: u128,
    a: SendAttempt<T>,
    cloned: &mut ChannelTable<T>,
    copy: BoundedSender,
    closed: &mut ChannelTable<T>,
    own: BoundedSender,
    received: &mut ChannelTable<T>,
    r: Recv<T>,
    asked: &mut ChannelTable<T>,
    q: Result<T, ()>,
)
    requires
        call_ensures(BoundedSender::try_send::<T>, (tx, sent, item), s),
        call_ensures(BoundedSender::send_drop_oldest::<T>, (tx, evicting, item), ()),
        call_ensures(
            BoundedSender::send_timeout::<T>,
            (tx, timed, item, elapsed_ns, timeout_ns),
            a,
        ),
        call_ensures(BoundedSender::clone::<T>, (tx, cloned), copy),
        call_ensures(BoundedSender::close::<T>, (own, closed), ()),
        call_ensures(BoundedReceiver::recv::<T>, (rx, received), r),
        call_ensures(BoundedReceiver::try_recv::<T>, (rx, asked), q),
    ensures
        final(sent).next_id() == old(sent).next_id(),
        final(evicting).next_id() == old(evicting).next_id(),
        final(timed).next_id() == old(timed).next_id(),
        final(cloned).next_id() == old(cloned).next_id(),
        final(closed).next_id() == old(closed).next_id(),
        final(received).next_id() == old(received).next_id(),
        final(asked).next_id() == old(asked).next_id(),
{
}

/// Where it is said that `n` senders more can be counted, they can, on whatever
/// channel; and fewer can too.
pub proof fn law_what_is_left<T>(
    table: &ChannelTable<T>,
    n: u64,
    yes: bool,
    m: u64,
    also: bool,
    id: u64,
)
    requires
        call_ensures(ChannelTable::<T>::can_add_senders, (table, n), yes),
        call_ensures(ChannelTable::<T>::can_add_senders, (table, m), also),
        table.wf(),
        table@.contains_key(id),
    ensures
        yes ==> table@[id].senders + n <= u64::MAX,
        yes && m <= n ==> also,
{
}

/// A table that just got its first channel can count all senders that a counter
/// can, but for the one that is there.
pub proof fn law_first_channel_leaves_room<T>(
    fresh: ChannelTable<T>,
    table: &mut ChannelTable<T>,
    capacity: usize,
    halves: (BoundedSender, BoundedReceiver),
    n: u64,
    yes: bool,
    channel: bool,
)
    requires
        call_ensures(ChannelTable::<T>::new, (), fresh),
        *old(table) == fresh,
        call_ensures(bounded::<T>, (table, capacity), halves),
        call_ensures(ChannelTable::<T>::can_add_senders, (final(table), n), yes),
        call_ensures(ChannelTable::<T>::can_add_channel, (final(table),), channel),
    ensures
        yes <==> n < u64::MAX,
        channel,
{
}

} // verus!
