use bytes::Bytes;
use gateway::channel::{bounded, BoundedReceiver, BoundedSender, ChannelTable, Recv};
use gateway::protocol::{PacketHeader, PacketType, TargetType};
use gateway::routing::{
    Delivery, Disposition, PendingRetry, RetryStep, RouteOutcome, Router, SYSTEM_CMD_BUDGET_NS,
};

fn setup() -> (Router, ChannelTable<Bytes>) {
    (Router::new(), ChannelTable::new())
}

fn header(t: PacketType, target: TargetType, room: &str, user: &str, len: usize) -> PacketHeader {
    PacketHeader::new(t, target, room, user, 1, len).unwrap()
}

fn join(
    router: &mut Router,
    table: &mut ChannelTable<Bytes>,
    room: &str,
    user: &str,
    capacity: usize,
) -> BoundedReceiver {
    let (tx, rx): (BoundedSender, BoundedReceiver) = bounded(table, capacity);
    router.register(table, room, user, tx);
    rx
}

fn dispatched(outcome: RouteOutcome) -> Vec<Delivery> {
    match outcome {
        RouteOutcome::Dispatched(deliveries) => deliveries,
        other => panic!("not dispatched: {other:?}"),
    }
}

fn retrying(outcome: RouteOutcome) -> PendingRetry {
    let mut deliveries = dispatched(outcome);
    assert_eq!(deliveries.len(), 1);
    match deliveries.remove(0).disposition {
        Disposition::Retrying(retry) => retry,
        other => panic!("not retrying: {other:?}"),
    }
}

#[test]
fn duplicate_kick() {
    let (mut router, mut table) = setup();
    let (tx1, rx1) = bounded(&mut table, 8);
    let (tx2, rx2) = bounded(&mut table, 8);
    let id1 = tx1.id;

    assert_eq!(router.register(&mut table, "room1", "alice", tx1), None);
    assert_eq!(router.register(&mut table, "room1", "alice", tx2), Some(id1));

    assert_eq!(router.user_count(), 1);
    assert_eq!(router.room_count(), 1);
    assert_eq!(rx1.recv(&mut table), Recv::Closed);
    assert_eq!(rx2.recv(&mut table), Recv::Wait);
}

#[test]
fn unicast_missing_user() {
    let (mut router, mut table) = setup();
    let rx = join(&mut router, &mut table, "room1", "bob", 8);

    let h = header(PacketType::AiEvent, TargetType::Unicast, "room1", "nobody", 0);
    let payload = Bytes::new();
    assert!(matches!(router.route(&mut table, &h, payload), RouteOutcome::UserNotFound));
    assert_eq!(rx.recv(&mut table), Recv::Wait);
}

#[test]
fn broadcast_missing_room() {
    let (router, mut table) = setup();
    let h = header(PacketType::AiEvent, TargetType::Broadcast, "ghost", "alice", 0);
    let payload = Bytes::new();
    assert!(matches!(router.route(&mut table, &h, payload), RouteOutcome::RoomNotFound));
}

#[test]
fn room_cleanup() {
    let (mut router, mut table) = setup();
    let rx = join(&mut router, &mut table, "room1", "alice", 8);
    assert_eq!(router.room_count(), 1);
    let r = router.unregister(&mut table, "room1", "alice");
    assert_eq!(r.channel, Some(rx.id));
    assert!(r.room_destroyed);
    assert_eq!(router.room_count(), 0);
    assert_eq!(rx.recv(&mut table), Recv::Closed);
}

#[test]
fn broadcast_delivers_to_all() {
    let (mut router, mut table) = setup();
    let rx1 = join(&mut router, &mut table, "room1", "alice", 8);
    let rx2 = join(&mut router, &mut table, "room1", "bob", 8);

    let payload = Bytes::from_static(b"hello");
    let h = header(
        PacketType::AiEvent,
        TargetType::Broadcast,
        "room1",
        "sender",
        payload.len(),
    );

    let deliveries = dispatched(router.route(&mut table, &h, payload.clone()));
    assert_eq!(deliveries.len(), 2);

    assert_eq!(rx1.recv(&mut table), Recv::Item(payload.clone()));
    assert_eq!(rx2.recv(&mut table), Recv::Item(payload));
}

#[test]
fn unicast_delivers_to_one() {
    let (mut router, mut table) = setup();
    let rx1 = join(&mut router, &mut table, "room1", "alice", 8);
    let rx2 = join(&mut router, &mut table, "room1", "bob", 8);

    let payload = Bytes::from_static(b"secret");
    let h = header(PacketType::AiEvent, TargetType::Unicast, "room1", "alice", payload.len());

    let deliveries = dispatched(router.route(&mut table, &h, payload.clone()));
    assert_eq!(deliveries.len(), 1);
    assert_eq!(deliveries[0].user_id, "alice");
    assert_eq!(deliveries[0].channel, rx1.id);

    assert_eq!(rx1.recv(&mut table), Recv::Item(payload));
    assert!(rx2.try_recv(&mut table).is_err());
}

#[test]
fn raw_motion_drops_oldest() {
    let (mut router, mut table) = setup();
    let rx = join(&mut router, &mut table, "room1", "alice", 2);

    for (i, frame) in [b"frame1", b"frame2", b"frame3"].iter().enumerate() {
        let p = Bytes::copy_from_slice(*frame);
        let h = PacketHeader::new(
            PacketType::RawMotion,
            TargetType::Unicast,
            "room1",
            "alice",
            i as u32 + 1,
            p.len(),
        )
        .unwrap();
        router.route(&mut table, &h, p);
    }

    assert_eq!(rx.recv(&mut table), Recv::Item(Bytes::from_static(b"frame2")));
    assert_eq!(rx.recv(&mut table), Recv::Item(Bytes::from_static(b"frame3")));
}

#[test]
fn best_effort_packets_are_dropped_when_full() {
    let (mut router, mut table) = setup();
    let rx = join(&mut router, &mut table, "r", "a", 1);
    for t in [PacketType::AiEvent, PacketType::Heartbeat] {
        let h = header(t, TargetType::Unicast, "r", "a", 1);
        let first = dispatched(router.route(&mut table, &h, Bytes::from_static(b"1")));
        assert!(matches!(first[0].disposition, Disposition::Delivered));
        let second = dispatched(router.route(&mut table, &h, Bytes::from_static(b"2")));
        assert!(matches!(second[0].disposition, Disposition::Dropped));
        assert_eq!(rx.recv(&mut table), Recv::Item(Bytes::from_static(b"1")));
        assert_eq!(rx.recv(&mut table), Recv::Wait);
    }
}

#[test]
fn system_cmd_is_delivered_when_there_is_room_again() {
    let (mut router, mut table) = setup();
    let rx = join(&mut router, &mut table, "r", "a", 1);
    let h = header(PacketType::SystemCmd, TargetType::Unicast, "r", "a", 1);
    router.route(&mut table, &h, Bytes::from_static(b"1"));
    let retry = retrying(router.route(&mut table, &h, Bytes::from_static(b"2")));
    assert_eq!(retry.room_id, "r");
    assert_eq!(retry.user_id, "a");
    let retry = match retry.attempt(&mut router, &mut table, SYSTEM_CMD_BUDGET_NS - 1) {
        RetryStep::Again(retry) => retry,
        other => panic!("{other:?}"),
    };
    assert_eq!(rx.recv(&mut table), Recv::Item(Bytes::from_static(b"1")));
    assert!(matches!(
        retry.attempt(&mut router, &mut table, SYSTEM_CMD_BUDGET_NS),
        RetryStep::Delivered
    ));
    assert_eq!(rx.recv(&mut table), Recv::Item(Bytes::from_static(b"2")));
    assert_eq!(rx.recv(&mut table), Recv::Wait);
    assert_eq!(router.user_count(), 1);
    router.unregister(&mut table, "r", "a");
    assert_eq!(rx.recv(&mut table), Recv::Closed);
}

#[test]
fn system_cmd_disconnects_when_the_time_is_up() {
    let (mut router, mut table) = setup();
    let rx = join(&mut router, &mut table, "r", "a", 1);
    let h = header(PacketType::SystemCmd, TargetType::Broadcast, "r", "x", 1);
    router.route(&mut table, &h, Bytes::from_static(b"1"));
    let retry = retrying(router.route(&mut table, &h, Bytes::from_static(b"2")));
    match retry.attempt(&mut router, &mut table, SYSTEM_CMD_BUDGET_NS) {
        RetryStep::Disconnected(r) => {
            assert_eq!(r.channel, Some(rx.id));
            assert!(r.room_destroyed);
        }
        other => panic!("{other:?}"),
    }
    assert_eq!(router.room_count(), 0);
    assert_eq!(rx.recv(&mut table), Recv::Item(Bytes::from_static(b"1")));
    assert_eq!(rx.recv(&mut table), Recv::Closed);
}

#[test]
fn broadcast_stays_in_its_room() {
    let (mut router, mut table) = setup();
    let rx1 = join(&mut router, &mut table, "one", "a", 4);
    let rx2 = join(&mut router, &mut table, "two", "a", 4);
    let h = header(PacketType::RawMotion, TargetType::Broadcast, "two", "a", 1);
    router.route(&mut table, &h, Bytes::from_static(b"x"));
    assert_eq!(rx1.recv(&mut table), Recv::Wait);
    assert_eq!(rx2.recv(&mut table), Recv::Item(Bytes::from_static(b"x")));
}

#[test]
fn broadcast_reaches_each_of_many_users_once() {
    let (mut router, mut table) = setup();
    let mut receivers = Vec::new();
    for i in 0..20 {
        let user = format!("u{i}");
        receivers.push(join(&mut router, &mut table, "r", &user, 4));
    }
    let h = header(PacketType::AiEvent, TargetType::Broadcast, "r", "u0", 1);
    let deliveries = dispatched(router.route(&mut table, &h, Bytes::from_static(b"x")));
    let mut users: Vec<String> = deliveries.into_iter().map(|d| d.user_id).collect();
    users.sort();
    users.dedup();
    assert_eq!(users.len(), 20);
    for rx in &receivers {
        assert_eq!(rx.recv(&mut table), Recv::Item(Bytes::from_static(b"x")));
        assert_eq!(rx.recv(&mut table), Recv::Wait);
    }
}

#[test]
fn unregister_is_harmless_for_strangers() {
    let (mut router, mut table) = setup();
    let rx = join(&mut router, &mut table, "r", "a", 4);
    let r = router.unregister(&mut table, "r", "b");
    assert_eq!(r.channel, None);
    assert!(!r.room_destroyed);
    let r = router.unregister(&mut table, "s", "a");
    assert_eq!(r.channel, None);
    assert!(!r.room_destroyed);
    assert_eq!((router.room_count(), router.user_count()), (1, 1));
    assert_eq!(rx.recv(&mut table), Recv::Wait);
}

#[test]
fn room_stays_while_somebody_is_in_it() {
    let mut router = Router::default();
    let mut table = ChannelTable::new();
    let _a = join(&mut router, &mut table, "r", "a", 4);
    let _b = join(&mut router, &mut table, "r", "b", 4);
    let _c = join(&mut router, &mut table, "s", "a", 4);
    assert_eq!((router.room_count(), router.user_count()), (2, 3));
    assert!(!router.unregister(&mut table, "r", "a").room_destroyed);
    assert_eq!((router.room_count(), router.user_count()), (2, 2));
    assert!(router.unregister(&mut table, "r", "b").room_destroyed);
    assert_eq!((router.room_count(), router.user_count()), (1, 1));
    assert!(!router.unregister(&mut table, "r", "b").room_destroyed);
    assert_eq!((router.room_count(), router.user_count()), (1, 1));
}

#[test]
fn release_spares_the_successor() {
    let (mut router, mut table) = setup();
    let old = join(&mut router, &mut table, "r", "a", 4);
    let new = join(&mut router, &mut table, "r", "a", 4);
    let r = router.release(&mut table, "r", "a", old);
    assert_eq!(r.channel, None);
    assert!(!r.room_destroyed);
    assert_eq!(router.user_count(), 1);
    let new_id = new.id;
    let r = router.release(&mut table, "r", "a", new);
    assert_eq!(r.channel, Some(new_id));
    assert!(r.room_destroyed);
    assert_eq!(router.room_count(), 0);
}

#[test]
fn late_retry_spares_the_successor() {
    let (mut router, mut table) = setup();
    let old = join(&mut router, &mut table, "r", "a", 1);
    let h = header(PacketType::SystemCmd, TargetType::Unicast, "r", "a", 1);
    router.route(&mut table, &h, Bytes::from_static(b"1"));
    let retry = retrying(router.route(&mut table, &h, Bytes::from_static(b"2")));
    let new = join(&mut router, &mut table, "r", "a", 1);
    match retry.attempt(&mut router, &mut table, SYSTEM_CMD_BUDGET_NS) {
        RetryStep::Disconnected(r) => {
            assert_eq!(r.channel, None);
            assert!(!r.room_destroyed);
        }
        other => panic!("{other:?}"),
    }
    assert_eq!(router.user_count(), 1);
    assert_eq!(old.recv(&mut table), Recv::Item(Bytes::from_static(b"1")));
    assert_eq!(old.recv(&mut table), Recv::Closed);
    assert_eq!(new.recv(&mut table), Recv::Wait);
    router.route(&mut table, &h, Bytes::from_static(b"3"));
    assert_eq!(new.recv(&mut table), Recv::Item(Bytes::from_static(b"3")));
}

#[test]
fn other_users_outlive_a_failed_retry() {
    let (mut router, mut table) = setup();
    let slow = join(&mut router, &mut table, "r", "slow", 1);
    let fast = join(&mut router, &mut table, "r", "fast", 4);
    let h = header(PacketType::SystemCmd, TargetType::Unicast, "r", "slow", 1);
    router.route(&mut table, &h, Bytes::from_static(b"1"));
    let retry = retrying(router.route(&mut table, &h, Bytes::from_static(b"2")));
    match retry.attempt(&mut router, &mut table, SYSTEM_CMD_BUDGET_NS) {
        RetryStep::Disconnected(r) => {
            assert_eq!(r.channel, Some(slow.id));
            assert!(!r.room_destroyed);
        }
        other => panic!("{other:?}"),
    }
    assert_eq!(router.user_count(), 1);
    assert_eq!(fast.recv(&mut table), Recv::Wait);
}

#[test]
fn routing_ignores_payload_and_sequence() {
    let run = |sequence: u32, payload: &'static [u8]| {
        let (mut router, mut table) = setup();
        let a = join(&mut router, &mut table, "r", "a", 2);
        let b = join(&mut router, &mut table, "r", "b", 2);
        for earlier in [b"x", b"y"] {
            let h = header(PacketType::AiEvent, TargetType::Unicast, "r", "a", 1);
            router.route(&mut table, &h, Bytes::from_static(earlier));
        }
        let h = PacketHeader::new(
            PacketType::RawMotion,
            TargetType::Broadcast,
            "r",
            "z",
            sequence,
            payload.len(),
        )
        .unwrap();
        let mut deliveries = dispatched(router.route(&mut table, &h, Bytes::from_static(payload)));
        deliveries.sort_by(|d, e| d.user_id.cmp(&e.user_id));
        let verdicts: Vec<bool> = deliveries
            .iter()
            .map(|d| matches!(d.disposition, Disposition::Delivered))
            .collect();
        let mut queues = Vec::new();
        for rx in [&a, &b] {
            while let Recv::Item(item) = rx.recv(&mut table) {
                queues.push(item);
            }
        }
        (verdicts, queues)
    };
    let (verdicts_p, queues_p) = run(1, b"one");
    let (verdicts_q, queues_q) = run(99, b"another payload");
    assert_eq!(verdicts_p, verdicts_q);
    assert_eq!(queues_p, vec!["y", "one", "one"]);
    assert_eq!(queues_q, vec!["y", "another payload", "another payload"]);
}

#[test]
fn sizes_of_rooms_and_audiences() {
    let (mut router, mut table) = setup();
    let _a = join(&mut router, &mut table, "r", "a", 1);
    let _b = join(&mut router, &mut table, "r", "b", 1);
    assert_eq!(router.room_size("r"), 2);
    assert_eq!(router.room_size("s"), 0);
    let all = header(PacketType::AiEvent, TargetType::Broadcast, "r", "a", 0);
    let one = header(PacketType::AiEvent, TargetType::Unicast, "r", "a", 0);
    let none = header(PacketType::AiEvent, TargetType::Broadcast, "s", "a", 0);
    assert_eq!(router.audience_size(&all), 2);
    assert_eq!(router.audience_size(&one), 1);
    assert_eq!(router.audience_size(&none), 0);
}
