use gateway::channel::{bounded, ChannelTable, Recv, SendAttempt, RETRY_BACKOFF_MS};

const MS: u128 = 1_000_000;

#[test]
fn channel_send_recv() {
    let mut table: ChannelTable<u32> = ChannelTable::new();
    let (tx, rx) = bounded(&mut table, 4);
    for i in 0..4 {
        tx.try_send(&mut table, i).unwrap();
    }
    assert!(tx.try_send(&mut table, 99).is_err());
    tx.send_drop_oldest(&mut table, 99);
    assert_eq!(rx.recv(&mut table), Recv::Item(1));
    assert_eq!(rx.recv(&mut table), Recv::Item(2));
    assert_eq!(rx.recv(&mut table), Recv::Item(3));
    assert_eq!(rx.recv(&mut table), Recv::Item(99));
    tx.close(&mut table);
    assert_eq!(rx.recv(&mut table), Recv::Closed);
}

#[test]
fn channel_send_timeout() {
    let mut table: ChannelTable<u32> = ChannelTable::new();
    let (tx, rx) = bounded(&mut table, 2);
    tx.try_send(&mut table, 1).unwrap();
    tx.try_send(&mut table, 2).unwrap();

    let tx2 = tx.clone(&mut table);
    let mut elapsed: u128 = 0;
    let mut item = 3;
    let mut attempts = 0;
    loop {
        if elapsed == 20 * MS {
            assert_eq!(rx.recv(&mut table), Recv::Item(1));
        }
        attempts += 1;
        match tx2.send_timeout(&mut table, item, elapsed, 200 * MS) {
            SendAttempt::Sent => break,
            SendAttempt::Again(returned) => item = returned,
            SendAttempt::TimedOut(_) => panic!("timed out"),
        }
        elapsed += RETRY_BACKOFF_MS as u128 * MS;
    }
    assert_eq!(attempts, 5);
    assert_eq!(rx.recv(&mut table), Recv::Item(2));
    assert_eq!(rx.recv(&mut table), Recv::Item(3));
}

#[test]
fn channel_send_timeout_fails() {
    let mut table: ChannelTable<u32> = ChannelTable::new();
    let (tx, _rx) = bounded(&mut table, 1);
    tx.try_send(&mut table, 1).unwrap();
    assert_eq!(tx.send_timeout(&mut table, 2, 0, 10 * MS), SendAttempt::Again(2));
    assert_eq!(tx.send_timeout(&mut table, 2, 5 * MS, 10 * MS), SendAttempt::Again(2));
    assert_eq!(tx.send_timeout(&mut table, 2, 10 * MS, 10 * MS), SendAttempt::TimedOut(2));
}

#[test]
fn full_channel_gives_the_item_back() {
    let mut table: ChannelTable<u32> = ChannelTable::new();
    let (tx, rx) = bounded(&mut table, 1);
    assert_eq!(tx.try_send(&mut table, 7), Ok(()));
    assert_eq!(tx.try_send(&mut table, 8), Err(8));
    assert_eq!(rx.try_recv(&mut table), Ok(7));
    assert_eq!(rx.try_recv(&mut table), Err(()));
    assert_eq!(tx.try_send(&mut table, 9), Ok(()));
    assert_eq!(rx.try_recv(&mut table), Ok(9));
}

#[test]
fn eviction_keeps_the_newest_in_order() {
    let mut table: ChannelTable<u32> = ChannelTable::new();
    let (tx, rx) = bounded(&mut table, 3);
    for i in 0..10 {
        tx.send_drop_oldest(&mut table, i);
    }
    assert_eq!(rx.recv(&mut table), Recv::Item(7));
    assert_eq!(rx.recv(&mut table), Recv::Item(8));
    assert_eq!(rx.recv(&mut table), Recv::Item(9));
    assert_eq!(rx.recv(&mut table), Recv::Wait);
}

#[test]
fn channel_without_capacity() {
    let mut table: ChannelTable<u32> = ChannelTable::new();
    let (tx, rx) = bounded(&mut table, 0);
    assert_eq!(tx.try_send(&mut table, 1), Err(1));
    tx.send_drop_oldest(&mut table, 2);
    tx.send_drop_oldest(&mut table, 3);
    assert_eq!(rx.recv(&mut table), Recv::Item(3));
    assert_eq!(rx.recv(&mut table), Recv::Wait);
}

#[test]
fn channel_is_open_while_one_sender_is_left() {
    let mut table: ChannelTable<u32> = ChannelTable::new();
    let (tx, rx) = bounded(&mut table, 4);
    let tx2 = tx.clone(&mut table);
    tx.close(&mut table);
    assert_eq!(rx.recv(&mut table), Recv::Wait);
    tx2.try_send(&mut table, 5).unwrap();
    tx2.close(&mut table);
    assert_eq!(rx.recv(&mut table), Recv::Item(5));
    assert_eq!(rx.recv(&mut table), Recv::Closed);
}

#[test]
fn sends_without_receiver_are_discarded() {
    let mut table: ChannelTable<u32> = ChannelTable::new();
    let (tx, rx) = bounded(&mut table, 1);
    rx.close(&mut table);
    assert_eq!(tx.try_send(&mut table, 1), Ok(()));
    assert_eq!(tx.try_send(&mut table, 2), Ok(()));
    tx.send_drop_oldest(&mut table, 3);
    assert_eq!(tx.send_timeout(&mut table, 4, 0, 0), SendAttempt::Sent);
}

#[test]
fn channels_do_not_disturb_each_other() {
    let mut table: ChannelTable<u32> = ChannelTable::new();
    let (tx1, rx1) = bounded(&mut table, 1);
    let (tx2, rx2) = bounded(&mut table, 1);
    assert_ne!(tx1.id, tx2.id);
    tx1.try_send(&mut table, 1).unwrap();
    assert_eq!(rx2.recv(&mut table), Recv::Wait);
    tx2.try_send(&mut table, 2).unwrap();
    tx2.close(&mut table);
    assert_eq!(rx1.recv(&mut table), Recv::Item(1));
    assert_eq!(rx1.recv(&mut table), Recv::Wait);
    assert_eq!(rx2.recv(&mut table), Recv::Item(2));
    assert_eq!(rx2.recv(&mut table), Recv::Closed);
}

#[test]
fn numbers_and_senders_are_left() {
    let mut table: ChannelTable<u32> = ChannelTable::new();
    assert!(table.can_add_channel());
    assert!(table.can_add_senders(u64::MAX));
    let (tx, _rx) = bounded(&mut table, 1);
    assert!(table.can_add_channel());
    assert!(table.can_add_senders(u64::MAX - 1));
    assert!(!table.can_add_senders(u64::MAX));
    let _tx2 = tx.clone(&mut table);
    assert!(table.can_add_senders(u64::MAX - 2));
    assert!(!table.can_add_senders(u64::MAX - 1));
}
