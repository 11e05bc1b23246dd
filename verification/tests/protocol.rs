use bytes::Bytes;
use gateway::protocol::{
    ascii_field_str, is_valid_ascii_field, pack_ascii_field, DecodeError, EncodeError,
    PacketHeader, PacketType, TargetType, HEADER_LEN, PROTOCOL_VERSION, ROOM_ID_LEN, USER_ID_LEN,
};

fn heartbeat() -> PacketHeader {
    PacketHeader::new(PacketType::Heartbeat, TargetType::Broadcast, "r1", "u1", 0, 0).unwrap()
}

fn raw_heartbeat() -> Vec<u8> {
    heartbeat().encode_header().to_vec()
}

#[test]
fn round_trip_basic() {
    let payload = vec![0xAAu8; 2652];
    let header = PacketHeader::new(
        PacketType::RawMotion,
        TargetType::Broadcast,
        "ninja1",
        "player_A",
        42,
        payload.len(),
    )
    .unwrap();

    let encoded = header.encode(&payload);
    let (decoded_header, decoded_payload) = PacketHeader::decode(encoded).unwrap();

    assert_eq!(decoded_header, header);
    assert_eq!(decoded_payload.as_ref(), payload.as_slice());
    assert_eq!(decoded_header.room_id_str(), "ninja1");
    assert_eq!(decoded_header.user_id_str(), "player_A");
}

#[test]
fn round_trip_short_ids_are_padded_correctly() {
    let header =
        PacketHeader::new(PacketType::AiEvent, TargetType::Unicast, "r1", "ai", 0, 1).unwrap();
    let encoded = header.encode(&[0x02]);
    let (decoded, payload) = PacketHeader::decode(encoded).unwrap();
    assert_eq!(decoded.room_id_str(), "r1");
    assert_eq!(decoded.user_id_str(), "ai");
    assert_eq!(payload.as_ref(), &[0x02]);
}

#[test]
fn reject_too_short_packet() {
    let buf = Bytes::from_static(&[0u8; 10]);
    assert_eq!(PacketHeader::decode(buf), Err(DecodeError::TooShort));
}

#[test]
fn reject_unsupported_version() {
    let mut raw = [0u8; HEADER_LEN];
    raw[0] = 0x99;
    raw[1] = PacketType::Heartbeat.as_u8();
    raw[2] = TargetType::Broadcast.as_u8();
    let buf = Bytes::copy_from_slice(&raw);
    assert_eq!(PacketHeader::decode(buf), Err(DecodeError::UnsupportedVersion(0x99)));
}

#[test]
fn reject_unknown_packet_type() {
    let mut raw = [0u8; HEADER_LEN];
    raw[0] = PROTOCOL_VERSION;
    raw[1] = 0xFF;
    raw[2] = TargetType::Broadcast.as_u8();
    let buf = Bytes::copy_from_slice(&raw);
    assert_eq!(PacketHeader::decode(buf), Err(DecodeError::UnknownPacketType(0xFF)));
}

#[test]
fn reject_non_zero_reserved() {
    let mut raw = [0u8; HEADER_LEN];
    raw[0] = PROTOCOL_VERSION;
    raw[1] = PacketType::Heartbeat.as_u8();
    raw[2] = TargetType::Broadcast.as_u8();
    raw[3] = 0xFF;
    let buf = Bytes::copy_from_slice(&raw);
    assert_eq!(PacketHeader::decode(buf), Err(DecodeError::NonZeroReserved(0xFF)));
}

#[test]
fn reject_length_mismatch() {
    let header =
        PacketHeader::new(PacketType::Heartbeat, TargetType::Broadcast, "r1", "u1", 0, 0).unwrap();
    let mut raw = header.encode_header().to_vec();
    raw.extend_from_slice(&[1, 2, 3]);
    let buf = Bytes::from(raw);
    assert_eq!(
        PacketHeader::decode(buf),
        Err(DecodeError::LengthMismatch { declared: 0, actual: 3 })
    );
}

#[test]
fn reject_room_id_too_long() {
    let err = PacketHeader::new(
        PacketType::Heartbeat,
        TargetType::Broadcast,
        "toolong123",
        "u1",
        0,
        0,
    )
    .unwrap_err();
    assert_eq!(err, EncodeError::InvalidRoomId);
}

#[test]
fn reject_non_ascii_room_id() {
    let err =
        PacketHeader::new(PacketType::Heartbeat, TargetType::Broadcast, "房间", "u1", 0, 0)
            .unwrap_err();
    assert_eq!(err, EncodeError::InvalidRoomId);
}

#[test]
fn sequence_and_length_roundtrip_exact() {
    let header = PacketHeader::new(
        PacketType::SystemCmd,
        TargetType::Unicast,
        "roomid",
        "useridid",
        u32::MAX - 1,
        5,
    )
    .unwrap();
    let encoded = header.encode(&[1, 2, 3, 4, 5]);
    let (decoded, _) = PacketHeader::decode(encoded).unwrap();
    assert_eq!(decoded.sequence, u32::MAX - 1);
    assert_eq!(decoded.length, 5);
}

#[test]
fn reject_unknown_target_type() {
    let mut raw = raw_heartbeat();
    raw[2] = 3;
    assert_eq!(
        PacketHeader::decode(Bytes::from(raw)),
        Err(DecodeError::UnknownTargetType(3))
    );
}

#[test]
fn reject_room_field_that_is_not_ascii() {
    let mut raw = raw_heartbeat();
    raw[4] = 0x80;
    assert_eq!(PacketHeader::decode(Bytes::from(raw)), Err(DecodeError::NonAsciiRoomId));
}

#[test]
fn reject_user_field_with_text_behind_its_padding() {
    let mut raw = raw_heartbeat();
    raw[17] = b'x';
    assert_eq!(PacketHeader::decode(Bytes::from(raw)), Err(DecodeError::NonAsciiUserId));
}

#[test]
fn the_first_failed_check_is_reported() {
    let mut raw = raw_heartbeat();
    raw[0] = 1;
    raw[1] = 9;
    raw[2] = 9;
    raw[3] = 9;
    assert_eq!(
        PacketHeader::decode(Bytes::from(raw.clone())),
        Err(DecodeError::UnsupportedVersion(1))
    );
    raw[0] = PROTOCOL_VERSION;
    assert_eq!(
        PacketHeader::decode(Bytes::from(raw.clone())),
        Err(DecodeError::NonZeroReserved(9))
    );
    raw[3] = 0;
    assert_eq!(
        PacketHeader::decode(Bytes::from(raw.clone())),
        Err(DecodeError::UnknownPacketType(9))
    );
    raw[1] = 1;
    assert_eq!(
        PacketHeader::decode(Bytes::from(raw)),
        Err(DecodeError::UnknownTargetType(9))
    );
}

#[test]
fn user_id_and_payload_length_are_checked() {
    let new = |room: &str, user: &str, len: usize| {
        PacketHeader::new(PacketType::AiEvent, TargetType::Unicast, room, user, 1, len)
    };
    assert_eq!(new("r", "ninechars", 0), Err(EncodeError::InvalidUserId));
    assert_eq!(new("r", "é", 0), Err(EncodeError::InvalidUserId));
    assert_eq!(new("r", "u", 65536), Err(EncodeError::PayloadTooLarge));
    assert_eq!(new("toolong", "ninechars", 65536), Err(EncodeError::InvalidRoomId));
    assert_eq!(new("r", "u", 65535).unwrap().length, 65535);
}

#[test]
fn wire_bytes_are_exact() {
    let header = PacketHeader::new(
        PacketType::SystemCmd,
        TargetType::Unicast,
        "room",
        "user",
        0x01020304,
        0x0002,
    )
    .unwrap();
    let wire = header.encode(&[0xAB, 0xCD]);
    assert_eq!(
        wire.as_ref(),
        &[
            2, 3, 2, 0, b'r', b'o', b'o', b'm', 0, 0, b'u', b's', b'e', b'r', 0, 0, 0, 0, 1, 2, 3,
            4, 0, 2, 0xAB, 0xCD,
        ]
    );
}

#[test]
fn encoding_what_was_decoded_gives_the_packet_back() {
    let mut raw = raw_heartbeat();
    raw[1] = 2;
    raw[2] = 2;
    raw[18] = 0xFF;
    raw[22] = 0;
    raw[23] = 3;
    raw.extend_from_slice(b"abc");
    let (header, payload) = PacketHeader::decode(Bytes::from(raw.clone())).unwrap();
    assert_eq!(header.sequence, 0xFF00_0000);
    assert_eq!(header.encode(&payload).as_ref(), raw.as_slice());
}

#[test]
fn type_codes() {
    assert_eq!(PacketType::from_u8(0), None);
    assert_eq!(PacketType::from_u8(1), Some(PacketType::RawMotion));
    assert_eq!(PacketType::from_u8(2), Some(PacketType::AiEvent));
    assert_eq!(PacketType::from_u8(3), Some(PacketType::SystemCmd));
    assert_eq!(PacketType::from_u8(4), Some(PacketType::Heartbeat));
    assert_eq!(PacketType::from_u8(5), None);
    assert_eq!(TargetType::from_u8(0), None);
    assert_eq!(TargetType::from_u8(1), Some(TargetType::Broadcast));
    assert_eq!(TargetType::from_u8(2), Some(TargetType::Unicast));
    assert_eq!(TargetType::from_u8(3), None);
    assert_eq!(PacketType::Heartbeat.as_u8(), 4);
    assert_eq!(TargetType::Unicast.as_u8(), 2);
}

#[test]
fn fields_hold_padded_ascii() {
    assert_eq!(pack_ascii_field::<ROOM_ID_LEN>("ab"), Some([b'a', b'b', 0, 0, 0, 0]));
    assert_eq!(pack_ascii_field::<ROOM_ID_LEN>("abcdef"), Some(*b"abcdef"));
    assert_eq!(pack_ascii_field::<ROOM_ID_LEN>("abcdefg"), None);
    assert_eq!(pack_ascii_field::<USER_ID_LEN>("ü"), None);
    assert!(is_valid_ascii_field(b"ab\0\0"));
    assert!(is_valid_ascii_field(b"\0\0"));
    assert!(!is_valid_ascii_field(b"a\0b"));
    assert!(!is_valid_ascii_field(&[0x80]));
    assert_eq!(ascii_field_str(b"ab\0\0"), "ab");
    assert_eq!(ascii_field_str(b"abcd"), "abcd");
    assert_eq!(ascii_field_str(b"\0bcd"), "");
    assert_eq!(ascii_field_str(&[0xC3, 0xA9, 0]), "é");
    assert_eq!(ascii_field_str(&[0xFF, 0x61]), "");
}

#[test]
fn identifier_with_a_zero_character_is_built_but_not_accepted() {
    let header =
        PacketHeader::new(PacketType::Heartbeat, TargetType::Broadcast, "a\0b", "u", 0, 0)
            .unwrap();
    assert_eq!(header.room_id_str(), "a");
    assert_eq!(PacketHeader::decode(header.encode(&[])), Err(DecodeError::NonAsciiRoomId));
}

#[test]
fn error_messages() {
    assert_eq!(EncodeError::InvalidRoomId.to_string(), "room_id must be <= 6 ASCII bytes");
    assert_eq!(EncodeError::InvalidUserId.to_string(), "user_id must be <= 8 ASCII bytes");
    assert_eq!(EncodeError::PayloadTooLarge.to_string(), "payload length exceeds u16::MAX");
    assert_eq!(DecodeError::TooShort.to_string(), "packet shorter than 24-byte header");
    assert_eq!(
        DecodeError::UnsupportedVersion(0x99).to_string(),
        "unsupported protocol version: 0x99"
    );
    assert_eq!(
        DecodeError::NonZeroReserved(0xF).to_string(),
        "reserved field must be 0x00, got: 0xf"
    );
    assert_eq!(DecodeError::UnknownPacketType(0xFE).to_string(), "unknown packet type: 0xfe");
    assert_eq!(DecodeError::UnknownTargetType(0).to_string(), "unknown target type: 0x0");
    assert_eq!(DecodeError::NonAsciiRoomId.to_string(), "room_id contains non-ASCII bytes");
    assert_eq!(DecodeError::NonAsciiUserId.to_string(), "user_id contains non-ASCII bytes");
    assert_eq!(
        DecodeError::LengthMismatch { declared: 10, actual: 12345 }.to_string(),
        "declared payload length 10 does not match actual 12345"
    );
}
