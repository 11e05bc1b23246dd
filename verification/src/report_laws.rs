//! What is logged and counted: for every call of the functions on log records and
//! metrics, what the result says.

use vstd::prelude::*;

use crate::observability::{
    connection_fields, drop_reason_label, field_value, initial_metrics, log_connection_closed,
    log_connection_established, log_drain_finished, log_drain_started, log_duplicate_connection,
    log_frame_dropped, log_heartbeat_timeout, log_internal_error, metric_active_connections_set,
    metric_active_rooms_set, metric_catalog, metric_packet_dropped, metric_packet_dropped_decode,
    metric_packet_routed, packet_type_label, target_type_label, FieldValue, Level, LogField,
    LogRecord, MetricDescription, MetricKind, MetricLabel, MetricOp, MetricUpdate,
};
use crate::observability_laws::law_every_metric_is_there;
use crate::protocol::{DecodeError, PacketType, TargetType};
use crate::text::decimal;

verus! {

/// The labels of packet types, target types and refusals.
pub proof fn law_labels(
    pt: PacketType,
    packet: &'static str,
    tt: TargetType,
    target: &'static str,
    e: &DecodeError,
    reason: &'static str,
)
    requires
        call_ensures(packet_type_label, (pt,), packet),
        call_ensures(target_type_label, (tt,), target),
        call_ensures(drop_reason_label, (e,), reason),
    ensures
        pt is RawMotion ==> packet@ == "RawMotion"@,
        pt is AiEvent ==> packet@ == "AiEvent"@,
        pt is SystemCmd ==> packet@ == "SystemCmd"@,
        pt is Heartbeat ==> packet@ == "Heartbeat"@,
        tt is Broadcast ==> target@ == "Broadcast"@,
        tt is Unicast ==> target@ == "Unicast"@,
        e is TooShort ==> reason@ == "too_short"@,
        e is UnsupportedVersion ==> reason@ == "unsupported_version"@,
        e is NonZeroReserved ==> reason@ == "non_zero_reserved"@,
        e is UnknownPacketType ==> reason@ == "unknown_packet_type"@,
        e is UnknownTargetType ==> reason@ == "unknown_target_type"@,
        e is NonAsciiRoomId ==> reason@ == "non_ascii_room_id"@,
        e is NonAsciiUserId ==> reason@ == "non_ascii_user_id"@,
        e is LengthMismatch ==> reason@ == "length_mismatch"@,
{
}

/// A record about a connection names its room and its user.
proof fn lemma_connection_record(r: LogRecord, room: Seq<char>, user: Seq<char>)
    requires
        r.fields@.map_values(|f: LogField| (f.name@, field_value(f.value)))
            == connection_fields(room, user),
    ensures
        r.fields@.len() == 2,
        r.fields@[0].name@ == "room"@,
        r.fields@[0].value matches FieldValue::Text(text) && text@ == room,
        r.fields@[1].name@ == "user"@,
        r.fields@[1].value matches FieldValue::Text(text) && text@ == user,
{
    let shown = r.fields@.map_values(|f: LogField| (f.name@, field_value(f.value)));
    assert(shown.len() == 2);
    assert(shown[0] == (r.fields@[0].name@, field_value(r.fields@[0].value)));
    assert(shown[1] == (r.fields@[1].name@, field_value(r.fields@[1].value)));
}

/// What is logged when a connection is established, and when it is closed: for
/// information, with room and user.
pub proof fn law_connections_are_logged(room: &str, user: &str, begin: LogRecord, end: LogRecord)
    requires
        call_ensures(log_connection_established, (room, user), begin),
        call_ensures(log_connection_closed, (room, user), end),
    ensures
        begin.level is Info,
        begin.message@ == "connection established"@,
        begin.fields@.len() == 2,
        begin.fields@[0].name@ == "room"@,
        begin.fields@[0].value matches FieldValue::Text(text) && text@ == room@,
        begin.fields@[1].name@ == "user"@,
        begin.fields@[1].value matches FieldValue::Text(text) && text@ == user@,
        end.level is Info,
        end.message@ == "connection closed"@,
        end.fields@.len() == 2,
        end.fields@[0].name@ == "room"@,
        end.fields@[0].value matches FieldValue::Text(text) && text@ == room@,
        end.fields@[1].name@ == "user"@,
        end.fields@[1].value matches FieldValue::Text(text) && text@ == user@,
{
    lemma_connection_record(begin, room@, user@);
    lemma_connection_record(end, room@, user@);
    assert(begin.level == Level::Info);
    assert(end.level == Level::Info);
}

/// What is logged when a client is silent for too long, and when a connection is
/// kicked: a warning, with room and user.
pub proof fn law_lost_connections_are_logged(
    room: &str,
    user: &str,
    silent: LogRecord,
    kicked: LogRecord,
)
    requires
        call_ensures(log_heartbeat_timeout, (room, user), silent),
        call_ensures(log_duplicate_connection, (room, user), kicked),
    ensures
        silent.level is Warn,
        silent.message@ == "heartbeat timeout"@,
        silent.fields@.len() == 2,
        silent.fields@[0].name@ == "room"@,
        silent.fields@[0].value matches FieldValue::Text(text) && text@ == room@,
        silent.fields@[1].name@ == "user"@,
        silent.fields@[1].value matches FieldValue::Text(text) && text@ == user@,
        kicked.level is Warn,
        kicked.message@ == "duplicate connection, kicking old session"@,
        kicked.fields@.len() == 2,
        kicked.fields@[0].name@ == "room"@,
        kicked.fields@[0].value matches FieldValue::Text(text) && text@ == room@,
        kicked.fields@[1].name@ == "user"@,
        kicked.fields@[1].value matches FieldValue::Text(text) && text@ == user@,
{
    lemma_connection_record(silent, room@, user@);
    lemma_connection_record(kicked, room@, user@);
    assert(silent.level == Level::Warn);
    assert(kicked.level == Level::Warn);
}

/// What is logged of a dropped frame, of an error in the program, and of a shutdown
/// that waits.
pub proof fn law_other_records(
    text: &str,
    dropped: LogRecord,
    failed: LogRecord,
    secs: u64,
    millis: u32,
    started: LogRecord,
    drained: bool,
    finished: LogRecord,
)
    requires
        call_ensures(log_frame_dropped, (text,), dropped),
        call_ensures(log_internal_error, (text,), failed),
        call_ensures(log_drain_started, (secs, millis), started),
        call_ensures(log_drain_finished, (drained,), finished),
    ensures
        dropped.level is Warn,
        dropped.message@ == "frame dropped: "@ + text@,
        dropped.fields@.len() == 0,
        failed.level is Error,
        failed.message@ == "internal error: "@ + text@,
        failed.fields@.len() == 0,
        started.level is Info,
        started.message@ == "draining for up to "@ + decimal(secs as nat) + "."@ + decimal(
            millis as nat,
        ) + " s"@,
        started.fields@.len() == 0,
        drained ==> finished.level is Info && finished.message@
            == "drain complete \u{2014} exiting"@,
        !drained ==> finished.level is Warn && finished.message@
            == "drain timeout reached \u{2014} forcing exit"@,
        finished.fields@.len() == 0,
{
    assert(dropped.fields@.map_values(
        |f: LogField| (f.name@, field_value(f.value)),
    ).len() == 0);
    assert(failed.fields@.map_values(|f: LogField| (f.name@, field_value(f.value))).len() == 0);
    assert(started.fields@.map_values(|f: LogField| (f.name@, field_value(f.value))).len() == 0);
    assert(finished.fields@.map_values(|f: LogField| (f.name@, field_value(f.value))).len() == 0);
    assert(dropped.level == Level::Warn && failed.level == Level::Error);
    assert(started.level == Level::Info);
    assert(finished.level == Level::Info || finished.level == Level::Warn);
}

/// The numbers of connections and rooms are set as they are.
pub proof fn law_gauges(room: &str, count: u64, connections: MetricUpdate, rooms: MetricUpdate)
    requires
        call_ensures(metric_active_connections_set, (room, count), connections),
        call_ensures(metric_active_rooms_set, (count,), rooms),
    ensures
        connections.metric@ == "active_connections_total"@,
        connections.op == MetricOp::SetTo(count),
        connections.labels@.len() == 1,
        connections.labels@[0].name@ == "room"@,
        connections.labels@[0].value@ == room@,
        rooms.metric@ == "active_rooms_total"@,
        rooms.op == MetricOp::SetTo(count),
        rooms.labels@.len() == 0,
{
    let shown = connections.labels@.map_values(|l: MetricLabel| (l.name@, l.value@));
    assert(shown.len() == 1);
    assert(shown[0] == (connections.labels@[0].name@, connections.labels@[0].value@));
    assert(rooms.labels@.map_values(|l: MetricLabel| (l.name@, l.value@)).len() == 0);
}

/// Each routed packet counts one, under the labels of its types; each dropped packet
/// counts one, under the reason; and a refused one under the label of its refusal.
pub proof fn law_counters(
    pt: PacketType,
    tt: TargetType,
    routed: MetricUpdate,
    packet: &'static str,
    target: &'static str,
    reason: &str,
    dropped: MetricUpdate,
    e: &DecodeError,
    refused: MetricUpdate,
    label: &'static str,
)
    requires
        call_ensures(metric_packet_routed, (pt, tt), routed),
        call_ensures(packet_type_label, (pt,), packet),
        call_ensures(target_type_label, (tt,), target),
        call_ensures(metric_packet_dropped, (reason,), dropped),
        call_ensures(metric_packet_dropped_decode, (e,), refused),
        call_ensures(drop_reason_label, (e,), label),
    ensures
        routed.metric@ == "packets_routed_total"@,
        routed.op == MetricOp::Increase(1),
        routed.labels@.len() == 2,
        routed.labels@[0].name@ == "packet_type"@,
        routed.labels@[0].value@ == packet@,
        routed.labels@[1].name@ == "target_type"@,
        routed.labels@[1].value@ == target@,
        dropped.metric@ == "packets_dropped_total"@,
        dropped.op == MetricOp::Increase(1),
        dropped.labels@.len() == 1,
        dropped.labels@[0].name@ == "reason"@,
        dropped.labels@[0].value@ == reason@,
        refused.metric@ == "packets_dropped_total"@,
        refused.op == MetricOp::Increase(1),
        refused.labels@.len() == 1,
        refused.labels@[0].name@ == "reason"@,
        refused.labels@[0].value@ == label@,
{
    let a = routed.labels@.map_values(|l: MetricLabel| (l.name@, l.value@));
    assert(a.len() == 2);
    assert(a[0] == (routed.labels@[0].name@, routed.labels@[0].value@));
    assert(a[1] == (routed.labels@[1].name@, routed.labels@[1].value@));
    let b = dropped.labels@.map_values(|l: MetricLabel| (l.name@, l.value@));
    assert(b.len() == 1);
    assert(b[0] == (dropped.labels@[0].name@, dropped.labels@[0].value@));
    let c = refused.labels@.map_values(|l: MetricLabel| (l.name@, l.value@));
    assert(c.len() == 1);
    assert(c[0] == (refused.labels@[0].name@, refused.labels@[0].value@));
}

/// Every metric is announced, and at the start each is there, with nothing in it, in
/// an update that suits its kind.
pub proof fn law_metrics_at_the_start(
    catalog: Vec<MetricDescription>,
    list: Vec<MetricUpdate>,
    i: int,
)
    requires
        call_ensures(metric_catalog, (), catalog),
        call_ensures(initial_metrics, (), list),
        0 <= i < 5,
    ensures
        catalog@.len() == 5,
        list@.len() == 5,
        list@[i].metric@ == catalog@[i].name@,
        list@[i].op matches MetricOp::SetTo(n) ==> n == 0 && catalog@[i].kind is Gauge,
        list@[i].op matches MetricOp::Increase(n) ==> n == 0 && catalog@[i].kind is Counter,
        list@[i].op matches MetricOp::Record(n) ==> n == 0 && catalog@[i].kind is Histogram,
        catalog@[0].name@ == "active_connections_total"@,
        catalog@[1].name@ == "active_rooms_total"@,
        catalog@[2].name@ == "packets_routed_total"@,
        catalog@[3].name@ == "packets_dropped_total"@,
        catalog@[4].name@ == "route_latency_seconds"@,
        catalog@[i].unit is Seconds <==> i == 4,
        catalog@[0].help@ == "Current number of active connections, labelled by room"@,
        catalog@[1].help@
            == "Current number of distinct rooms with at least one active connection"@,
        catalog@[2].help@
            == "Total number of packets successfully routed, labelled by packet_type and target_type"@,
        catalog@[3].help@ == "Total number of packets dropped, labelled by drop reason"@,
        catalog@[4].help@ == "End-to-end route latency histogram in seconds"@,
{
    law_every_metric_is_there(catalog@, list@);
    let shown = catalog@.map_values(|d: MetricDescription| (d.name@, d.kind, d.unit, d.help@));
    assert(shown.len() == 5);
    assert(shown[0].0 == catalog@[0].name@ && shown[0].3 == catalog@[0].help@);
    assert(shown[1].0 == catalog@[1].name@ && shown[1].3 == catalog@[1].help@);
    assert(shown[2].0 == catalog@[2].name@ && shown[2].3 == catalog@[2].help@);
    assert(shown[3].0 == catalog@[3].name@ && shown[3].3 == catalog@[3].help@);
    assert(shown[4].0 == catalog@[4].name@ && shown[4].3 == catalog@[4].help@);
    assert(shown[i].2 == catalog@[i].unit);
    assert(i == 0 || i == 1 || i == 2 || i == 3 || i == 4);
    assert(catalog@[i].kind == MetricKind::Gauge || catalog@[i].kind == MetricKind::Counter
        || catalog@[i].kind == MetricKind::Histogram);
}

} // verus!
