use gateway::network::record_decode_metric;
use gateway::observability::{
    drop_reason_label, initial_metrics, log_connection_closed, log_connection_established,
    log_drain_finished, log_drain_started, log_duplicate_connection, log_frame_dropped,
    log_heartbeat_timeout, log_internal_error, metric_active_connections_set,
    metric_active_rooms_set, metric_catalog, metric_packet_dropped, metric_packet_dropped_decode,
    metric_packet_routed, packet_type_label, target_type_label, FieldValue, Level, LogField,
    LogRecord, MetricKind, MetricLabel, MetricOp, MetricUnit, MetricUpdate,
};
use gateway::protocol::{DecodeError, PacketType, TargetType};

#[test]
fn drop_reason_label_covers_all_variants() {
    let variants: &[DecodeError] = &[
        DecodeError::TooShort,
        DecodeError::UnsupportedVersion(0x99),
        DecodeError::NonZeroReserved(0xFF),
        DecodeError::UnknownPacketType(0xFE),
        DecodeError::UnknownTargetType(0xFD),
        DecodeError::NonAsciiRoomId,
        DecodeError::NonAsciiUserId,
        DecodeError::LengthMismatch { declared: 10, actual: 5 },
    ];
    let mut labels = std::collections::HashSet::new();
    for v in variants {
        let label = drop_reason_label(v);
        assert!(!label.is_empty());
        assert!(labels.insert(label), "duplicate label: {label}");
    }
}

#[test]
fn packet_type_labels_are_unique() {
    let types = &[
        PacketType::RawMotion,
        PacketType::AiEvent,
        PacketType::SystemCmd,
        PacketType::Heartbeat,
    ];
    let mut labels = std::collections::HashSet::new();
    for t in types {
        let label = packet_type_label(*t);
        assert!(!label.is_empty());
        assert!(labels.insert(label), "duplicate label: {label}");
    }
}

#[test]
fn target_type_labels_are_unique() {
    let types = &[TargetType::Broadcast, TargetType::Unicast];
    let mut labels = std::collections::HashSet::new();
    for t in types {
        let label = target_type_label(*t);
        assert!(!label.is_empty());
        assert!(labels.insert(label), "duplicate label: {label}");
    }
}

fn text(name: &'static str, value: &str) -> LogField {
    LogField { name, value: FieldValue::Text(value.to_string()) }
}

fn number(name: &'static str, value: u64) -> LogField {
    LogField { name, value: FieldValue::Number(value) }
}

fn record(level: Level, message: &str, fields: Vec<LogField>) -> LogRecord {
    LogRecord { level, message: message.to_string(), fields }
}

fn update(metric: &'static str, labels: &[(&'static str, &str)], op: MetricOp) -> MetricUpdate {
    let labels = labels
        .iter()
        .map(|(name, value)| MetricLabel { name, value: value.to_string() })
        .collect();
    MetricUpdate { metric, labels, op }
}

#[test]
fn connection_records() {
    let fields = || vec![text("room", "r"), text("user", "u")];
    assert_eq!(
        log_connection_established("r", "u"),
        record(Level::Info, "connection established", fields())
    );
    assert_eq!(
        log_connection_closed("r", "u"),
        record(Level::Info, "connection closed", fields())
    );
    assert_eq!(
        log_heartbeat_timeout("r", "u"),
        record(Level::Warn, "heartbeat timeout", fields())
    );
    assert_eq!(
        log_duplicate_connection("r", "u"),
        record(Level::Warn, "duplicate connection, kicking old session", fields())
    );
}

#[test]
fn plain_records() {
    assert_eq!(
        log_frame_dropped("too_short"),
        record(Level::Warn, "frame dropped: too_short", vec![])
    );
    assert_eq!(
        log_internal_error("boom"),
        record(Level::Error, "internal error: boom", vec![])
    );
    assert_eq!(
        log_drain_started(30, 250),
        record(Level::Info, "draining for up to 30.250 s", vec![])
    );
    assert_eq!(
        log_drain_started(0, 5),
        record(Level::Info, "draining for up to 0.5 s", vec![])
    );
    assert_eq!(
        log_drain_finished(true),
        record(Level::Info, "drain complete — exiting", vec![])
    );
    assert_eq!(
        log_drain_finished(false),
        record(Level::Warn, "drain timeout reached — forcing exit", vec![])
    );
}

#[test]
fn decode_records() {
    let warn = |message: &str, fields: Vec<LogField>| record(Level::Warn, message, fields);
    assert_eq!(
        record_decode_metric(&DecodeError::TooShort),
        warn("decode: packet too short (min 24 B, protocol v0x2)", vec![])
    );
    assert_eq!(
        record_decode_metric(&DecodeError::UnsupportedVersion(9)),
        warn("decode: unsupported protocol version", vec![number("version", 9)])
    );
    assert_eq!(
        record_decode_metric(&DecodeError::NonZeroReserved(1)),
        warn("decode: reserved field must be 0x00", vec![number("value", 1)])
    );
    assert_eq!(
        record_decode_metric(&DecodeError::UnknownPacketType(7)),
        warn("decode: unknown packet type", vec![number("raw_type", 7)])
    );
    assert_eq!(
        record_decode_metric(&DecodeError::UnknownTargetType(8)),
        warn("decode: unknown target type", vec![number("raw_type", 8)])
    );
    assert_eq!(
        record_decode_metric(&DecodeError::NonAsciiRoomId),
        warn("decode: room_id contains non-ASCII bytes", vec![])
    );
    assert_eq!(
        record_decode_metric(&DecodeError::NonAsciiUserId),
        warn("decode: user_id contains non-ASCII bytes", vec![])
    );
    assert_eq!(
        record_decode_metric(&DecodeError::LengthMismatch { declared: 3, actual: 4 }),
        warn(
            "decode: payload length mismatch",
            vec![number("declared", 3), number("actual", 4)]
        )
    );
}

#[test]
fn metric_updates() {
    assert_eq!(
        metric_active_connections_set("lobby", 3),
        update("active_connections_total", &[("room", "lobby")], MetricOp::SetTo(3))
    );
    assert_eq!(
        metric_active_rooms_set(2),
        update("active_rooms_total", &[], MetricOp::SetTo(2))
    );
    assert_eq!(
        metric_packet_routed(PacketType::SystemCmd, TargetType::Unicast),
        update(
            "packets_routed_total",
            &[("packet_type", "SystemCmd"), ("target_type", "Unicast")],
            MetricOp::Increase(1)
        )
    );
    assert_eq!(
        metric_packet_dropped("full"),
        update("packets_dropped_total", &[("reason", "full")], MetricOp::Increase(1))
    );
    assert_eq!(
        metric_packet_dropped_decode(&DecodeError::NonAsciiUserId),
        update(
            "packets_dropped_total",
            &[("reason", "non_ascii_user_id")],
            MetricOp::Increase(1)
        )
    );
}

#[test]
fn every_metric_is_announced_and_starts_at_zero() {
    let catalog = metric_catalog();
    let initial = initial_metrics();
    assert_eq!(catalog.len(), 5);
    assert_eq!(catalog[4].unit, MetricUnit::Seconds);
    assert_eq!(catalog[0].help, "Current number of active connections, labelled by room");
    assert_eq!(
        initial,
        vec![
            update("active_connections_total", &[("room", "")], MetricOp::SetTo(0)),
            update("active_rooms_total", &[], MetricOp::SetTo(0)),
            update(
                "packets_routed_total",
                &[("packet_type", "RawMotion"), ("target_type", "Broadcast")],
                MetricOp::Increase(0)
            ),
            update("packets_dropped_total", &[("reason", "init")], MetricOp::Increase(0)),
            update("route_latency_seconds", &[], MetricOp::Record(0)),
        ]
    );
    for (d, u) in catalog.iter().zip(&initial) {
        assert_eq!(d.name, u.metric);
        let kind = match u.op {
            MetricOp::SetTo(_) => MetricKind::Gauge,
            MetricOp::Increase(_) => MetricKind::Counter,
            MetricOp::Record(_) => MetricKind::Histogram,
        };
        assert_eq!(d.kind, kind);
    }
}
