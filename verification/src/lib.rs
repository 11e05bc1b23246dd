//! A binary data bus: packets with a fixed-length header are decoded, looked up
//! in a table of rooms and queued for the connections that should receive them.

pub mod buffer;
pub mod channel;
pub mod channel_laws;
pub mod delivery_laws;
pub mod membership_laws;
pub mod network;
pub mod network_laws;
pub mod observability;
pub mod observability_laws;
pub mod payload_laws;
pub mod protocol;
pub mod protocol_laws;
pub mod queue_laws;
pub mod report_laws;
pub mod room_map;
pub mod routing;
pub mod routing_laws;
pub mod session_laws;
pub mod text;
pub mod wire_laws;
