//! What holds of labels and metrics as a whole.

use vstd::prelude::*;
use vstd::string::*;

use crate::observability::{
    announces, drop_reason_text, packet_type_text, starts_at_zero, target_type_text,
    MetricDescription, MetricKind, MetricOp, MetricUpdate,
};
use crate::protocol::{DecodeError, PacketType, TargetType};

verus! {

/// Whether two refusals are of the same kind, whatever values they name.
pub open spec fn same_reason(a: DecodeError, b: DecodeError) -> bool {
    match a {
        DecodeError::TooShort => b is TooShort,
        DecodeError::UnsupportedVersion(_) => b is UnsupportedVersion,
        DecodeError::NonZeroReserved(_) => b is NonZeroReserved,
        DecodeError::UnknownPacketType(_) => b is UnknownPacketType,
        DecodeError::UnknownTargetType(_) => b is UnknownTargetType,
        DecodeError::NonAsciiRoomId => b is NonAsciiRoomId,
        DecodeError::NonAsciiUserId => b is NonAsciiUserId,
        DecodeError::LengthMismatch { .. } => b is LengthMismatch,
    }
}

/// Whether an operation suits a metric of this kind.
pub open spec fn suits(op: MetricOp, kind: MetricKind) -> bool {
    match op {
        MetricOp::SetTo(_) => kind is Gauge,
        MetricOp::Increase(_) => kind is Counter,
        MetricOp::Record(_) => kind is Histogram,
    }
}

/// Packet types have labels that are not empty, and different ones for different
/// types.
pub proof fn law_packet_type_labels(a: PacketType, b: PacketType)
    ensures
        packet_type_text(a).len() > 0,
        packet_type_text(a) == packet_type_text(b) ==> a == b,
{
    reveal_strlit("RawMotion");
    reveal_strlit("AiEvent");
    reveal_strlit("SystemCmd");
    reveal_strlit("Heartbeat");
    assert("RawMotion"@[0] != "SystemCmd"@[0]);
    assert("RawMotion"@[0] != "Heartbeat"@[0]);
    assert("SystemCmd"@[0] != "Heartbeat"@[0]);
}

/// Target types have labels that are not empty, and different ones for different
/// types.
pub proof fn law_target_type_labels(a: TargetType, b: TargetType)
    ensures
        target_type_text(a).len() > 0,
        target_type_text(a) == target_type_text(b) ==> a == b,
{
    reveal_strlit("Broadcast");
    reveal_strlit("Unicast");
    assert("Broadcast"@.len() != "Unicast"@.len());
}

/// Refusals have labels that are not empty, and the same one just where they are
/// of the same kind.
pub proof fn law_drop_reason_labels(a: DecodeError, b: DecodeError)
    ensures
        drop_reason_text(a).len() > 0,
        drop_reason_text(a) == drop_reason_text(b) <==> same_reason(a, b),
{
    reveal_strlit("too_short");
    reveal_strlit("unsupported_version");
    reveal_strlit("non_zero_reserved");
    reveal_strlit("unknown_packet_type");
    reveal_strlit("unknown_target_type");
    reveal_strlit("non_ascii_room_id");
    reveal_strlit("non_ascii_user_id");
    reveal_strlit("length_mismatch");
    assert("too_short"@.len() == 9);
    assert("unsupported_version"@.len() == 19);
    assert("non_zero_reserved"@.len() == 17);
    assert("unknown_packet_type"@.len() == 19);
    assert("unknown_target_type"@.len() == 19);
    assert("non_ascii_room_id"@.len() == 17);
    assert("non_ascii_user_id"@.len() == 17);
    assert("length_mismatch"@.len() == 15);
    assert("unsupported_version"@[2] != "unknown_packet_type"@[2]);
    assert("unsupported_version"@[2] != "unknown_target_type"@[2]);
    assert("unknown_packet_type"@[8] != "unknown_target_type"@[8]);
    assert("non_zero_reserved"@[4] != "non_ascii_room_id"@[4]);
    assert("non_zero_reserved"@[4] != "non_ascii_user_id"@[4]);
    assert("non_ascii_room_id"@[10] != "non_ascii_user_id"@[10]);
}

/// At the start every metric that is announced is there, in an update that suits
/// its kind.
pub proof fn law_every_metric_is_there(
    catalog: Seq<MetricDescription>,
    list: Seq<MetricUpdate>,
)
    requires
        announces(catalog),
        starts_at_zero(list),
    ensures
        catalog.len() == list.len(),
        forall|i: int|
            #![trigger catalog[i]]
            0 <= i < catalog.len() ==> {
                &&& list[i].metric@ == catalog[i].name@
                &&& suits(list[i].op, catalog[i].kind)
            },
{
    let shown = catalog.map_values(|d: MetricDescription| (d.name@, d.kind, d.unit, d.help@));
    assert(shown.len() == 5);
    assert forall|i: int| #![trigger catalog[i]] 0 <= i < catalog.len() implies {
        &&& list[i].metric@ == catalog[i].name@
        &&& suits(list[i].op, catalog[i].kind)
    } by {
        assert(shown[i].0 == catalog[i].name@ && shown[i].1 == catalog[i].kind);
        assert(i == 0 || i == 1 || i == 2 || i == 3 || i == 4);
    }
}

} // verus!
