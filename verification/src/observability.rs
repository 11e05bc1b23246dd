//! What is logged and counted. The functions here say what to record; recording
//! it is up to the program.

use vstd::prelude::*;
use vstd::string::*;

use crate::protocol::{DecodeError, PacketType, TargetType};
use crate::text::{append_decimal, decimal};

verus! {

/// How important a log record is.
#[derive(Debug, Clone, Copy, PartialEq, Eq)]
pub enum Level {
    Info,
    Warn,
    Error,
}

/// The value of a field of a log record.
#[derive(Debug, PartialEq, Eq)]
pub enum FieldValue {
    Text(String),
    Number(u64),
}

/// A named value in a log record.
#[derive(Debug, PartialEq, Eq)]
pub struct LogField {
    pub name: &'static str,
    pub value: FieldValue,
}

/// A log record.
#[derive(Debug, PartialEq, Eq)]
pub struct LogRecord {
    pub level: Level,
    pub message: String,
    pub fields: Vec<LogField>,
}

/// What a field of a log record says.
pub enum FieldContent {
    Text(Seq<char>),
    Number(nat),
}

/// What the value of a field says.
pub open spec fn field_value(v: FieldValue) -> FieldContent {
    match v {
        FieldValue::Text(s) => FieldContent::Text(s@),
        FieldValue::Number(n) => FieldContent::Number(n as nat),
    }
}

/// The record has this level and message, and these fields in this order.
pub open spec fn records(
    r: LogRecord,
    level: Level,
    message: Seq<char>,
    fields: Seq<(Seq<char>, FieldContent)>,
) -> bool {
    &&& r.level == level
    &&& r.message@ == message
    &&& r.fields@.map_values(|f: LogField| (f.name@, field_value(f.value))) == fields
}

/// The fields that name a connection.
pub open spec fn connection_fields(room: Seq<char>, user: Seq<char>) -> Seq<
    (Seq<char>, FieldContent),
> {
    seq![("room"@, FieldContent::Text(room)), ("user"@, FieldContent::Text(user))]
}

/// No fields.
pub open spec fn no_fields() -> Seq<(Seq<char>, FieldContent)> {
    Seq::empty()
}

/// A record without fields.
pub(crate) fn plain_record(level: Level, message: &str) -> (r: LogRecord)
    ensures
        records(r, level, message@, no_fields()),
{
    let r = LogRecord { level, message: message.to_owned(), fields: Vec::new() };
    assert(r.fields@.map_values(|f: LogField| (f.name@, field_value(f.value))) =~= no_fields());
    r
}

/// A record about a connection.
fn connection_record(level: Level, message: &str, room: &str, user: &str) -> (r: LogRecord)
    ensures
        records(r, level, message@, connection_fields(room@, user@)),
{
    let fields = vec![
        LogField { name: "room", value: FieldValue::Text(room.to_owned()) },
        LogField { name: "user", value: FieldValue::Text(user.to_owned()) },
    ];
    let r = LogRecord { level, message: message.to_owned(), fields };
    assert(r.fields@.map_values(|f: LogField| (f.name@, field_value(f.value)))
        =~= connection_fields(room@, user@));
    r
}

/// A connection was established.
pub fn log_connection_established(room: &str, user: &str) -> (r: LogRecord)
    ensures
        records(r, Level::Info, "connection established"@, connection_fields(room@, user@)),
{
    connection_record(Level::Info, "connection established", room, user)
}

/// A connection was closed.
pub fn log_connection_closed(room: &str, user: &str) -> (r: LogRecord)
    ensures
        records(r, Level::Info, "connection closed"@, connection_fields(room@, user@)),
{
    connection_record(Level::Info, "connection closed", room, user)
}

/// A frame was dropped.
pub fn log_frame_dropped(reason: &str) -> (r: LogRecord)
    ensures
        records(r, Level::Warn, "frame dropped: "@ + reason@, no_fields()),
{
    let message = "frame dropped: ".to_owned().concat(reason);
    plain_record(Level::Warn, message.as_str())
}

/// A connection showed no sign of life for too long.
pub fn log_heartbeat_timeout(room: &str, user: &str) -> (r: LogRecord)
    ensures
        records(r, Level::Warn, "heartbeat timeout"@, connection_fields(room@, user@)),
{
    connection_record(Level::Warn, "heartbeat timeout", room, user)
}

/// A connection took the place of an older one.
pub fn log_duplicate_connection(room: &str, user: &str) -> (r: LogRecord)
    ensures
        records(
            r,
            Level::Warn,
            "duplicate connection, kicking old session"@,
            connection_fields(room@, user@),
        ),
{
    connection_record(Level::Warn, "duplicate connection, kicking old session", room, user)
}

/// Something went wrong in the program itself.
pub fn log_internal_error(err: &str) -> (r: LogRecord)
    ensures
        records(r, Level::Error, "internal error: "@ + err@, no_fields()),
{
    let message = "internal error: ".to_owned().concat(err);
    plain_record(Level::Error, message.as_str())
}

/// The shutdown waits for connections to drain, for at most `secs` seconds and
/// `millis` milliseconds.
pub fn log_drain_started(secs: u64, millis: u32) -> (r: LogRecord)
    ensures
        records(
            r,
            Level::Info,
            "draining for up to "@ + decimal(secs as nat) + "."@ + decimal(millis as nat) + " s"@,
            no_fields(),
        ),
{
    let mut message = "draining for up to ".to_owned();
    append_decimal(&mut message, secs);
    message.append(".");
    append_decimal(&mut message, millis as u64);
    message.append(" s");
    plain_record(Level::Info, message.as_str())
}

/// The shutdown no longer waits: the connections have drained, or the time is up.
pub fn log_drain_finished(drained: bool) -> (r: LogRecord)
    ensures
        drained ==> records(r, Level::Info, "drain complete \u{2014} exiting"@, no_fields()),
        !drained ==> records(
            r,
            Level::Warn,
            "drain timeout reached \u{2014} forcing exit"@,
            no_fields(),
        ),
{
    if drained {
        plain_record(Level::Info, "drain complete \u{2014} exiting")
    } else {
        plain_record(Level::Warn, "drain timeout reached \u{2014} forcing exit")
    }
}

/// The label of a packet type.
pub open spec fn packet_type_text(t: PacketType) -> Seq<char> {
    match t {
        PacketType::RawMotion => "RawMotion"@,
        PacketType::AiEvent => "AiEvent"@,
        PacketType::SystemCmd => "SystemCmd"@,
        PacketType::Heartbeat => "Heartbeat"@,
    }
}

/// The label of a packet type.
pub fn packet_type_label(pt: PacketType) -> (label: &'static str)
    ensures
        label@ == packet_type_text(pt),
{
    match pt {
        PacketType::RawMotion => "RawMotion",
        PacketType::AiEvent => "AiEvent",
        PacketType::SystemCmd => "SystemCmd",
        PacketType::Heartbeat => "Heartbeat",
    }
}

/// The label of a target type.
pub open spec fn target_type_text(t: TargetType) -> Seq<char> {
    match t {
        TargetType::Broadcast => "Broadcast"@,
        TargetType::Unicast => "Unicast"@,
    }
}

/// The label of a target type.
pub fn target_type_label(tt: TargetType) -> (label: &'static str)
    ensures
        label@ == target_type_text(tt),
{
    match tt {
        TargetType::Broadcast => "Broadcast",
        TargetType::Unicast => "Unicast",
    }
}

/// The label of the reason for which a packet was dropped.
pub open spec fn drop_reason_text(e: DecodeError) -> Seq<char> {
    match e {
        DecodeError::TooShort => "too_short"@,
        DecodeError::UnsupportedVersion(_) => "unsupported_version"@,
        DecodeError::NonZeroReserved(_) => "non_zero_reserved"@,
        DecodeError::UnknownPacketType(_) => "unknown_packet_type"@,
        DecodeError::UnknownTargetType(_) => "unknown_target_type"@,
        DecodeError::NonAsciiRoomId => "non_ascii_room_id"@,
        DecodeError::NonAsciiUserId => "non_ascii_user_id"@,
        DecodeError::LengthMismatch { .. } => "length_mismatch"@,
    }
}

/// The label of the reason for which a packet was dropped.
pub fn drop_reason_label(err: &DecodeError) -> (label: &'static str)
    ensures
        label@ == drop_reason_text(*err),
{
    match err {
        DecodeError::TooShort => "too_short",
        DecodeError::UnsupportedVersion(_) => "unsupported_version",
        DecodeError::NonZeroReserved(_) => "non_zero_reserved",
        DecodeError::UnknownPacketType(_) => "unknown_packet_type",
        DecodeError::UnknownTargetType(_) => "unknown_target_type",
        DecodeError::NonAsciiRoomId => "non_ascii_room_id",
        DecodeError::NonAsciiUserId => "non_ascii_user_id",
        DecodeError::LengthMismatch { .. } => "length_mismatch",
    }
}

/// What is done to a metric.
#[derive(Debug, Clone, Copy, PartialEq, Eq)]
pub enum MetricOp {
    /// Set a gauge.
    SetTo(u64),
    /// Add to a counter.
    Increase(u64),
    /// Add a measurement of so many whole units to a histogram.
    Record(u64),
}

/// What a metric measures.
#[derive(Debug, Clone, Copy, PartialEq, Eq)]
pub enum MetricKind {
    Gauge,
    Counter,
    Histogram,
}

/// What a metric is measured in.
#[derive(Debug, Clone, Copy, PartialEq, Eq)]
pub enum MetricUnit {
    Count,
    Seconds,
}

/// A metric as it is announced.
#[derive(Debug, Clone, Copy, PartialEq, Eq)]
pub struct MetricDescription {
    pub name: &'static str,
    pub kind: MetricKind,
    pub unit: MetricUnit,
    pub help: &'static str,
}

/// A named label of a metric.
#[derive(Debug, PartialEq, Eq)]
pub struct MetricLabel {
    pub name: &'static str,
    pub value: String,
}

/// A change of a metric.
#[derive(Debug, PartialEq, Eq)]
pub struct MetricUpdate {
    pub metric: &'static str,
    pub labels: Vec<MetricLabel>,
    pub op: MetricOp,
}

/// The update changes this metric with these labels in this way.
pub open spec fn updates(
    u: MetricUpdate,
    metric: Seq<char>,
    labels: Seq<(Seq<char>, Seq<char>)>,
    op: MetricOp,
) -> bool {
    &&& u.metric@ == metric
    &&& u.labels@.map_values(|l: MetricLabel| (l.name@, l.value@)) == labels
    &&& u.op == op
}

/// The metrics of the gateway: name, kind, unit and help text.
pub open spec fn announced() -> Seq<(Seq<char>, MetricKind, MetricUnit, Seq<char>)> {
    seq![
        (
            "active_connections_total"@,
            MetricKind::Gauge,
            MetricUnit::Count,
            "Current number of active connections, labelled by room"@,
        ),
        (
            "active_rooms_total"@,
            MetricKind::Gauge,
            MetricUnit::Count,
            "Current number of distinct rooms with at least one active connection"@,
        ),
        (
            "packets_routed_total"@,
            MetricKind::Counter,
            MetricUnit::Count,
            "Total number of packets successfully routed, labelled by packet_type and target_type"@,
        ),
        (
            "packets_dropped_total"@,
            MetricKind::Counter,
            MetricUnit::Count,
            "Total number of packets dropped, labelled by drop reason"@,
        ),
        (
            "route_latency_seconds"@,
            MetricKind::Histogram,
            MetricUnit::Seconds,
            "End-to-end route latency histogram in seconds"@,
        ),
    ]
}

/// `catalog` announces the metrics of the gateway, in order.
pub open spec fn announces(catalog: Seq<MetricDescription>) -> bool {
    catalog.map_values(|d: MetricDescription| (d.name@, d.kind, d.unit, d.help@)) == announced()
}

/// The metrics of the gateway.
pub fn metric_catalog() -> (catalog: Vec<MetricDescription>)
    ensures
        announces(catalog@),
{
    let catalog = vec![
        MetricDescription {
            name: "active_connections_total",
            kind: MetricKind::Gauge,
            unit: MetricUnit::Count,
            help: "Current number of active connections, labelled by room",
        },
        MetricDescription {
            name: "active_rooms_total",
            kind: MetricKind::Gauge,
            unit: MetricUnit::Count,
            help: "Current number of distinct rooms with at least one active connection",
        },
        MetricDescription {
            name: "packets_routed_total",
            kind: MetricKind::Counter,
            unit: MetricUnit::Count,
            help: "Total number of packets successfully routed, labelled by packet_type and target_type",
        },
        MetricDescription {
            name: "packets_dropped_total",
            kind: MetricKind::Counter,
            unit: MetricUnit::Count,
            help: "Total number of packets dropped, labelled by drop reason",
        },
        MetricDescription {
            name: "route_latency_seconds",
            kind: MetricKind::Histogram,
            unit: MetricUnit::Seconds,
            help: "End-to-end route latency histogram in seconds",
        },
    ];
    assert(catalog@.map_values(|d: MetricDescription| (d.name@, d.kind, d.unit, d.help@))
        =~= announced());
    catalog
}

/// No labels.
pub open spec fn no_labels() -> Seq<(Seq<char>, Seq<char>)> {
    Seq::empty()
}

/// `list` sets every metric to zero, so that each is there before anything is
/// recorded.
pub open spec fn starts_at_zero(list: Seq<MetricUpdate>) -> bool {
    &&& list.len() == 5
    &&& updates(list[0], "active_connections_total"@, seq![("room"@, ""@)], MetricOp::SetTo(0))
    &&& updates(list[1], "active_rooms_total"@, no_labels(), MetricOp::SetTo(0))
    &&& updates(
        list[2],
        "packets_routed_total"@,
        routed_labels(PacketType::RawMotion, TargetType::Broadcast),
        MetricOp::Increase(0),
    )
    &&& updates(list[3], "packets_dropped_total"@, seq![("reason"@, "init"@)], MetricOp::Increase(0))
    &&& updates(list[4], "route_latency_seconds"@, no_labels(), MetricOp::Record(0))
}

/// The updates that set every metric to zero.
pub fn initial_metrics() -> (list: Vec<MetricUpdate>)
    ensures
        starts_at_zero(list@),
{
    let latency = MetricUpdate {
        metric: "route_latency_seconds",
        labels: Vec::new(),
        op: MetricOp::Record(0),
    };
    assert(latency.labels@.map_values(|l: MetricLabel| (l.name@, l.value@)) =~= no_labels());
    vec![
        metric_active_connections_set("", 0),
        metric_active_rooms_set(0),
        routed_update(PacketType::RawMotion, TargetType::Broadcast, 0),
        dropped_update("init", 0),
        latency,
    ]
}

/// The number of connections in a room.
pub fn metric_active_connections_set(room: &str, count: u64) -> (u: MetricUpdate)
    ensures
        updates(u, "active_connections_total"@, seq![("room"@, room@)], MetricOp::SetTo(count)),
{
    let labels = vec![MetricLabel { name: "room", value: room.to_owned() }];
    let u = MetricUpdate { metric: "active_connections_total", labels, op: MetricOp::SetTo(count) };
    assert(u.labels@.map_values(|l: MetricLabel| (l.name@, l.value@)) =~= seq![("room"@, room@)]);
    u
}

/// The number of rooms.
pub fn metric_active_rooms_set(count: u64) -> (u: MetricUpdate)
    ensures
        updates(u, "active_rooms_total"@, no_labels(), MetricOp::SetTo(count)),
{
    let u = MetricUpdate {
        metric: "active_rooms_total",
        labels: Vec::new(),
        op: MetricOp::SetTo(count),
    };
    assert(u.labels@.map_values(|l: MetricLabel| (l.name@, l.value@)) =~= no_labels());
    u
}

/// The labels of a routed packet.
pub open spec fn routed_labels(pt: PacketType, tt: TargetType) -> Seq<(Seq<char>, Seq<char>)> {
    seq![("packet_type"@, packet_type_text(pt)), ("target_type"@, target_type_text(tt))]
}

/// A change of the number of routed packets.
fn routed_update(pt: PacketType, tt: TargetType, n: u64) -> (u: MetricUpdate)
    ensures
        updates(u, "packets_routed_total"@, routed_labels(pt, tt), MetricOp::Increase(n)),
{
    let labels = vec![
        MetricLabel { name: "packet_type", value: packet_type_label(pt).to_owned() },
        MetricLabel { name: "target_type", value: target_type_label(tt).to_owned() },
    ];
    let u = MetricUpdate { metric: "packets_routed_total", labels, op: MetricOp::Increase(n) };
    assert(u.labels@.map_values(|l: MetricLabel| (l.name@, l.value@)) =~= routed_labels(pt, tt));
    u
}

/// A change of the number of dropped packets.
fn dropped_update(reason: &str, n: u64) -> (u: MetricUpdate)
    ensures
        updates(u, "packets_dropped_total"@, seq![("reason"@, reason@)], MetricOp::Increase(n)),
{
    let labels = vec![MetricLabel { name: "reason", value: reason.to_owned() }];
    let u = MetricUpdate { metric: "packets_dropped_total", labels, op: MetricOp::Increase(n) };
    assert(u.labels@.map_values(|l: MetricLabel| (l.name@, l.value@)) =~= seq![
        ("reason"@, reason@),
    ]);
    u
}

/// One packet was routed.
pub fn metric_packet_routed(pt: PacketType, tt: TargetType) -> (u: MetricUpdate)
    ensures
        updates(u, "packets_routed_total"@, routed_labels(pt, tt), MetricOp::Increase(1)),
{
    routed_update(pt, tt, 1)
}

/// One packet was dropped for `reason`.
pub fn metric_packet_dropped(reason: &str) -> (u: MetricUpdate)
    ensures
        updates(u, "packets_dropped_total"@, seq![("reason"@, reason@)], MetricOp::Increase(1)),
{
    dropped_update(reason, 1)
}

/// One packet was dropped because it could not be decoded.
pub fn metric_packet_dropped_decode(err: &DecodeError) -> (u: MetricUpdate)
    ensures
        updates(
            u,
            "packets_dropped_total"@,
            seq![("reason"@, drop_reason_text(*err))],
            MetricOp::Increase(1),
        ),
{
    dropped_update(drop_reason_label(err), 1)
}

} // verus!
