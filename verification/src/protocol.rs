//! The wire format: a 24-byte header in big-endian order, followed by the payload.
//!
//! ```text
//! offset: 0      1        2        3        4         10        18         22   24
//!         +------+--------+--------+--------+---------+---------+----------+------+
//!         |Ver(1)|PktTy(1)|TgtTy(1)|Resv(1) |RoomID(6)|UserID(8)|Seq(4,BE) |Len(2,BE)|
//!         +------+--------+--------+--------+---------+---------+----------+------+
//! ```
//!
//! Room and user identifiers are ASCII, padded on the right with zero bytes.
//! There is no checksum and no authentication field.

use bytes::{Bytes, BytesMut};
use vstd::prelude::*;
use vstd::string::*;
use vstd::utf8::*;

use crate::buffer::{as_slice, bytes_mut_of, bytes_of, put_slice, slice_from};
use crate::text::{append_decimal, append_hexadecimal, decimal, hexadecimal, str_from_utf8};

verus! {

/// The protocol version that this library speaks.
pub const PROTOCOL_VERSION: u8 = 0x02;

/// Length of the header in bytes.
pub const HEADER_LEN: usize = 24;

/// Length of the room identifier field in bytes.
pub const ROOM_ID_LEN: usize = 6;

/// Length of the user identifier field in bytes.
pub const USER_ID_LEN: usize = 8;

/// What kind of data the payload carries.
#[derive(Debug, Clone, Copy, PartialEq, Eq, Hash)]
pub enum PacketType {
    /// Raw skeleton data of a motion sensor.
    RawMotion,
    /// An event or action predicted by an AI node.
    AiEvent,
    /// A control command.
    SystemCmd,
    /// An application-level heartbeat with an empty payload.
    Heartbeat,
}

/// The code of a packet type on the wire.
pub open spec fn packet_type_code(t: PacketType) -> u8 {
    match t {
        PacketType::RawMotion => 0x01,
        PacketType::AiEvent => 0x02,
        PacketType::SystemCmd => 0x03,
        PacketType::Heartbeat => 0x04,
    }
}

impl PacketType {
    /// The code of this packet type on the wire.
    pub fn as_u8(self) -> (code: u8)
        ensures
            code == packet_type_code(self),
    {
        match self {
            PacketType::RawMotion => 0x01,
            PacketType::AiEvent => 0x02,
            PacketType::SystemCmd => 0x03,
            PacketType::Heartbeat => 0x04,
        }
    }

    /// The packet type with code `v`, if there is one.
    pub fn from_u8(v: u8) -> (t: Option<Self>)
        ensures
            t is Some <==> 1 <= v <= 4,
            t matches Some(p) ==> packet_type_code(p) == v,
    {
        match v {
            0x01 => Some(PacketType::RawMotion),
            0x02 => Some(PacketType::AiEvent),
            0x03 => Some(PacketType::SystemCmd),
            0x04 => Some(PacketType::Heartbeat),
            _ => None,
        }
    }
}

/// How the receivers of a packet are chosen.
#[derive(Debug, Clone, Copy, PartialEq, Eq, Hash)]
pub enum TargetType {
    /// Every connection in the room.
    Broadcast,
    /// One user in the room.
    Unicast,
}

/// The code of a target type on the wire.
pub open spec fn target_type_code(t: TargetType) -> u8 {
    match t {
        TargetType::Broadcast => 0x01,
        TargetType::Unicast => 0x02,
    }
}

impl TargetType {
    /// The code of this target type on the wire.
    pub fn as_u8(self) -> (code: u8)
        ensures
            code == target_type_code(self),
    {
        match self {
            TargetType::Broadcast => 0x01,
            TargetType::Unicast => 0x02,
        }
    }

    /// The target type with code `v`, if there is one.
    pub fn from_u8(v: u8) -> (t: Option<Self>)
        ensures
            t is Some <==> 1 <= v <= 2,
            t matches Some(p) ==> target_type_code(p) == v,
    {
        match v {
            0x01 => Some(TargetType::Broadcast),
            0x02 => Some(TargetType::Unicast),
            _ => None,
        }
    }
}

/// The header of a packet.
#[derive(Debug, Clone, PartialEq, Eq)]
pub struct PacketHeader {
    pub version: u8,
    pub packet_type: PacketType,
    pub target_type: TargetType,
    pub room_id: [u8; ROOM_ID_LEN],
    pub user_id: [u8; USER_ID_LEN],
    pub sequence: u32,
    pub length: u16,
}

/// Why a header could not be built.
#[derive(Debug, PartialEq, Eq)]
pub enum EncodeError {
    /// The room identifier is longer than its field or not ASCII.
    InvalidRoomId,
    /// The user identifier is longer than its field or not ASCII.
    InvalidUserId,
    /// The payload length does not fit in 16 bits.
    PayloadTooLarge,
}

/// The message of an `EncodeError`.
pub open spec fn encode_error_text(e: EncodeError) -> Seq<char> {
    match e {
        EncodeError::InvalidRoomId => "room_id must be <= 6 ASCII bytes"@,
        EncodeError::InvalidUserId => "user_id must be <= 8 ASCII bytes"@,
        EncodeError::PayloadTooLarge => "payload length exceeds u16::MAX"@,
    }
}

impl EncodeError {
    /// The message of this error.
    pub fn to_string(&self) -> (text: String)
        ensures
            text@ == encode_error_text(*self),
    {
        match self {
            EncodeError::InvalidRoomId => "room_id must be <= 6 ASCII bytes".to_owned(),
            EncodeError::InvalidUserId => "user_id must be <= 8 ASCII bytes".to_owned(),
            EncodeError::PayloadTooLarge => "payload length exceeds u16::MAX".to_owned(),
        }
    }
}

/// Why a packet was not accepted.
#[derive(Debug, PartialEq, Eq)]
pub enum DecodeError {
    /// The packet is shorter than a header.
    TooShort,
    /// The version is not the one that this library speaks.
    UnsupportedVersion(u8),
    /// The reserved byte is not zero.
    NonZeroReserved(u8),
    /// No packet type has this code.
    UnknownPacketType(u8),
    /// No target type has this code.
    UnknownTargetType(u8),
    /// The room identifier is not zero-padded ASCII.
    NonAsciiRoomId,
    /// The user identifier is not zero-padded ASCII.
    NonAsciiUserId,
    /// The declared payload length is not the number of bytes behind the header.
    LengthMismatch { declared: u16, actual: usize },
}

/// The message of a `DecodeError`.
pub open spec fn decode_error_text(e: DecodeError) -> Seq<char> {
    match e {
        DecodeError::TooShort => "packet shorter than 24-byte header"@,
        DecodeError::UnsupportedVersion(v) => "unsupported protocol version: "@ + hexadecimal(v),
        DecodeError::NonZeroReserved(v) => "reserved field must be 0x00, got: "@ + hexadecimal(v),
        DecodeError::UnknownPacketType(v) => "unknown packet type: "@ + hexadecimal(v),
        DecodeError::UnknownTargetType(v) => "unknown target type: "@ + hexadecimal(v),
        DecodeError::NonAsciiRoomId => "room_id contains non-ASCII bytes"@,
        DecodeError::NonAsciiUserId => "user_id contains non-ASCII bytes"@,
        DecodeError::LengthMismatch { declared, actual } => "declared payload length "@ + decimal(
            declared as nat,
        ) + " does not match actual "@ + decimal(actual as nat),
    }
}

impl DecodeError {
    /// The message of this error.
    pub fn to_string(&self) -> (text: String)
        ensures
            text@ == decode_error_text(*self),
    {
        let mut text = String::new();
        match self {
            DecodeError::TooShort => {
                text.append("packet shorter than 24-byte header");
            },
            DecodeError::UnsupportedVersion(v) => {
                text.append("unsupported protocol version: ");
                append_hexadecimal(&mut text, *v);
            },
            DecodeError::NonZeroReserved(v) => {
                text.append("reserved field must be 0x00, got: ");
                append_hexadecimal(&mut text, *v);
            },
            DecodeError::UnknownPacketType(v) => {
                text.append("unknown packet type: ");
                append_hexadecimal(&mut text, *v);
            },
            DecodeError::UnknownTargetType(v) => {
                text.append("unknown target type: ");
                append_hexadecimal(&mut text, *v);
            },
            DecodeError::NonAsciiRoomId => {
                text.append("room_id contains non-ASCII bytes");
            },
            DecodeError::NonAsciiUserId => {
                text.append("user_id contains non-ASCII bytes");
            },
            DecodeError::LengthMismatch { declared, actual } => {
                text.append("declared payload length ");
                append_decimal(&mut text, *declared as u64);
                text.append(" does not match actual ");
                append_decimal(&mut text, *actual as u64);
            },
        }
        assert(text@ =~= decode_error_text(*self));
        text
    }
}

/// The big-endian bytes of a 32-bit number.
pub open spec fn be32(n: u32) -> Seq<u8> {
    seq![
        (n / 0x100_0000) as u8,
        (n / 0x1_0000 % 0x100) as u8,
        (n / 0x100 % 0x100) as u8,
        (n % 0x100) as u8,
    ]
}

/// The big-endian bytes of a 16-bit number.
pub open spec fn be16(n: u16) -> Seq<u8> {
    seq![(n / 0x100) as u8, (n % 0x100) as u8]
}

/// The header as it stands on the wire.
pub open spec fn header_bytes(h: PacketHeader) -> Seq<u8> {
    seq![h.version, packet_type_code(h.packet_type), target_type_code(h.target_type), 0u8]
        + h.room_id@ + h.user_id@ + be32(h.sequence) + be16(h.length)
}

/// Zero-padded ASCII: no byte has its high bit set, and only zero bytes follow a
/// zero byte.
pub open spec fn valid_field(field: Seq<u8>) -> bool {
    &&& forall|i: int| 0 <= i < field.len() ==> #[trigger] field[i] < 0x80
    &&& forall|i: int, j: int|
        0 <= i < j < field.len() && #[trigger] field[i] == 0 ==> #[trigger] field[j] == 0
}

/// `text`, whose characters are ASCII, in a field of `n` bytes.
pub open spec fn packed_field(text: Seq<char>, n: nat) -> Seq<u8> {
    Seq::new(
        n,
        |i: int|
            if i < text.len() {
                text[i] as u8
            } else {
                0u8
            },
    )
}

/// Whether `text` can be put in a field of `n` bytes.
pub open spec fn fits_field(text: Seq<char>, n: nat) -> bool {
    is_ascii_chars(text) && text.len() <= n
}

/// The part of a field before its first zero byte.
pub open spec fn field_content(field: Seq<u8>) -> Seq<u8>
    decreases field.len(),
{
    if field.len() == 0 || field[0] == 0 {
        Seq::empty()
    } else {
        seq![field[0]] + field_content(field.skip(1))
    }
}

/// The text in a field: what stands before the first zero byte, or the empty
/// text when that is not valid UTF-8.
pub open spec fn field_text(field: Seq<u8>) -> Seq<char> {
    if valid_utf8(field_content(field)) {
        decode_utf8(field_content(field))
    } else {
        Seq::empty()
    }
}

/// The number that two big-endian bytes stand for.
pub open spec fn be16_value(b: Seq<u8>) -> int {
    b[0] * 0x100 + b[1]
}

/// The number that four big-endian bytes stand for.
pub open spec fn be32_value(b: Seq<u8>) -> int {
    b[0] * 0x100_0000 + b[1] * 0x1_0000 + b[2] * 0x100 + b[3]
}

/// What is wrong with a packet: the first check that it fails, or `None` when
/// it is accepted.
pub open spec fn decode_fault(buf: Seq<u8>) -> Option<DecodeError> {
    if buf.len() < HEADER_LEN {
        Some(DecodeError::TooShort)
    } else if buf[0] != PROTOCOL_VERSION {
        Some(DecodeError::UnsupportedVersion(buf[0]))
    } else if buf[3] != 0 {
        Some(DecodeError::NonZeroReserved(buf[3]))
    } else if !(1 <= buf[1] <= 4) {
        Some(DecodeError::UnknownPacketType(buf[1]))
    } else if !(1 <= buf[2] <= 2) {
        Some(DecodeError::UnknownTargetType(buf[2]))
    } else if !valid_field(buf.subrange(4, 10)) {
        Some(DecodeError::NonAsciiRoomId)
    } else if !valid_field(buf.subrange(10, 18)) {
        Some(DecodeError::NonAsciiUserId)
    } else if be16_value(buf.subrange(22, 24)) != buf.len() - HEADER_LEN {
        Some(
            DecodeError::LengthMismatch {
                declared: be16_value(buf.subrange(22, 24)) as u16,
                actual: (buf.len() - HEADER_LEN) as usize,
            },
        )
    } else {
        None
    }
}

/// `h` holds what the first bytes of `buf` say, field by field.
pub open spec fn reads_header(h: PacketHeader, buf: Seq<u8>) -> bool {
    &&& h.version == buf[0]
    &&& packet_type_code(h.packet_type) == buf[1]
    &&& target_type_code(h.target_type) == buf[2]
    &&& h.room_id@ == buf.subrange(4, 10)
    &&& h.user_id@ == buf.subrange(10, 18)
    &&& h.sequence == be32_value(buf.subrange(18, 22))
    &&& h.length == be16_value(buf.subrange(22, 24))
}

/// How building a header from these parts ends.
pub open spec fn built(
    packet_type: PacketType,
    target_type: TargetType,
    room_id: Seq<char>,
    user_id: Seq<char>,
    sequence: u32,
    payload_len: usize,
    r: Result<PacketHeader, EncodeError>,
) -> bool {
    match r {
        Ok(h) => {
            &&& fits_field(room_id, ROOM_ID_LEN as nat)
            &&& fits_field(user_id, USER_ID_LEN as nat)
            &&& payload_len <= u16::MAX
            &&& h.version == PROTOCOL_VERSION
            &&& h.packet_type == packet_type
            &&& h.target_type == target_type
            &&& h.room_id@ == packed_field(room_id, ROOM_ID_LEN as nat)
            &&& h.user_id@ == packed_field(user_id, USER_ID_LEN as nat)
            &&& h.sequence == sequence
            &&& h.length == payload_len
        },
        Err(EncodeError::InvalidRoomId) => !fits_field(room_id, ROOM_ID_LEN as nat),
        Err(EncodeError::InvalidUserId) => {
            &&& fits_field(room_id, ROOM_ID_LEN as nat)
            &&& !fits_field(user_id, USER_ID_LEN as nat)
        },
        Err(EncodeError::PayloadTooLarge) => {
            &&& fits_field(room_id, ROOM_ID_LEN as nat)
            &&& fits_field(user_id, USER_ID_LEN as nat)
            &&& payload_len > u16::MAX
        },
    }
}

/// How taking the packet `buf` apart ends.
pub open spec fn decoded(
    buf: Seq<u8>,
    r: Result<(PacketHeader, Bytes), DecodeError>,
) -> bool {
    match r {
        Ok((header, payload)) => {
            &&& decode_fault(buf) is None
            &&& reads_header(header, buf)
            &&& bytes_of(payload) == buf.skip(HEADER_LEN as int)
        },
        Err(e) => decode_fault(buf) == Some(e),
    }
}

/// The content of a field ends where its first zero byte stands.
pub proof fn lemma_field_content(field: Seq<u8>, end: int)
    requires
        0 <= end <= field.len(),
        forall|i: int| 0 <= i < end ==> field[i] != 0,
        end < field.len() ==> field[end] == 0,
    ensures
        field_content(field) == field.take(end),
    decreases field.len(),
{
    if end == 0 {
        assert(field.take(0) =~= Seq::empty());
    } else {
        let rest = field.skip(1);
        assert forall|i: int| 0 <= i < end - 1 implies rest[i] != 0 by {
            assert(rest[i] == field[i + 1]);
        }
        lemma_field_content(rest, end - 1);
        assert(field.take(end) =~= seq![field[0]] + rest.take(end - 1));
    }
}

/// Puts a text in a field of `N` bytes, padded on the right with zero bytes.
/// Gives `None` when the text is too long or not ASCII.
pub fn pack_ascii_field<const N: usize>(s: &str) -> (field: Option<[u8; N]>)
    ensures
        field is Some <==> fits_field(s@, N as nat),
        field matches Some(f) ==> f@ == packed_field(s@, N as nat),
{
    broadcast use is_ascii_spec_bytes;

    let bytes = s.as_bytes();
    if !s.is_ascii() || bytes.len() > N {
        return None;
    }
    let mut field = [0u8; N];
    let mut i: usize = 0;
    while i < bytes.len()
        invariant
            i <= bytes.len() <= N,
            forall|k: int| 0 <= k < i ==> field@[k] == bytes@[k],
            forall|k: int| i <= k < N ==> field@[k] == 0,
        decreases bytes.len() - i,
    {
        field[i] = bytes[i];
        i += 1;
    }
    assert(is_ascii(s));
    assert forall|k: int| 0 <= k < N implies field@[k] == packed_field(s@, N as nat)[k] by {
        if k < i {
            assert(s.spec_bytes()[k] == s@[k] as u8);
        }
    }
    assert(field@ =~= packed_field(s@, N as nat));
    Some(field)
}

/// Whether a field is zero-padded ASCII.
pub fn is_valid_ascii_field(field: &[u8]) -> (valid: bool)
    ensures
        valid == valid_field(field@),
{
    let mut padding = false;
    let mut i: usize = 0;
    while i < field.len()
        invariant
            i <= field.len(),
            valid_field(field@.take(i as int)),
            padding <==> exists|k: int| 0 <= k < i && field@[k] == 0,
        decreases field.len() - i,
    {
        let b = field[i];
        let ghost seen = field@.take(i as int);
        let ghost next = field@.take(i + 1);
        assert(forall|k: int| 0 <= k < i ==> next[k] == seen[k]);
        if b >= 0x80 || (padding && b != 0) {
            proof {
                if padding {
                    let k = choose|k: int| 0 <= k < i && field@[k] == 0;
                    assert(!(field@[k] == 0 && field@[i as int] != 0) || !valid_field(field@));
                }
            }
            return false;
        }
        if b == 0 {
            padding = true;
        }
        i += 1;
        assert(valid_field(next)) by {
            assert forall|k: int, j: int|
                0 <= k < j < next.len() && #[trigger] next[k] == 0 implies #[trigger] next[j]
                == 0 by {
                if j == i - 1 {
                    assert(field@[k] == 0);
                } else {
                    assert(seen[k] == 0);
                    assert(seen[j] == 0);
                }
            }
        }
    }
    assert(field@.take(i as int) =~= field@);
    true
}

/// The text in a field.
pub fn ascii_field_str(field: &[u8]) -> (text: &str)
    ensures
        text@ == field_text(field@),
{
    let mut end: usize = 0;
    while end < field.len() && field[end] != 0
        invariant
            end <= field.len(),
            forall|i: int| 0 <= i < end ==> field@[i] != 0,
        decreases field.len() - end,
    {
        end += 1;
    }
    proof {
        lemma_field_content(field@, end as int);
    }
    let content = &field[0..end];
    assert(content@ =~= field@.take(end as int));
    match str_from_utf8(content) {
        Some(text) => {
            proof {
                encode_utf8_decode_utf8(text@);
            }
            text
        },
        None => {
            proof {
                reveal_strlit("");
            }
            assert(""@ =~= Seq::<char>::empty());
            ""
        },
    }
}

/// Copies the `N` bytes of `buf` from `start` on.
fn copy_field<const N: usize>(buf: &[u8], start: usize) -> (field: [u8; N])
    requires
        start + N <= buf@.len(),
    ensures
        field@ == buf@.subrange(start as int, start + N),
{
    let mut field = [0u8; N];
    let mut i: usize = 0;
    while i < N
        invariant
            i <= N,
            start + N <= buf.len(),
            forall|k: int| 0 <= k < i ==> field@[k] == buf@[start + k],
        decreases N - i,
    {
        field[i] = buf[start + i];
        i += 1;
    }
    assert(field@ =~= buf@.subrange(start as int, start + N));
    field
}

impl PacketHeader {
    /// Builds a header of the current version. The identifiers are checked and
    /// padded here.
    pub fn new(
        packet_type: PacketType,
        target_type: TargetType,
        room_id: &str,
        user_id: &str,
        sequence: u32,
        payload_len: usize,
    ) -> (r: Result<Self, EncodeError>)
        ensures
            built(packet_type, target_type, room_id@, user_id@, sequence, payload_len, r),
    {
        let room_id = match pack_ascii_field::<ROOM_ID_LEN>(room_id) {
            Some(field) => field,
            None => return Err(EncodeError::InvalidRoomId),
        };
        let user_id = match pack_ascii_field::<USER_ID_LEN>(user_id) {
            Some(field) => field,
            None => return Err(EncodeError::InvalidUserId),
        };
        if payload_len > u16::MAX as usize {
            return Err(EncodeError::PayloadTooLarge);
        }
        Ok(
            PacketHeader {
                version: PROTOCOL_VERSION,
                packet_type,
                target_type,
                room_id,
                user_id,
                sequence,
                length: payload_len as u16,
            },
        )
    }

    /// The room identifier without its padding.
    pub fn room_id_str(&self) -> (text: &str)
        ensures
            text@ == field_text(self.room_id@),
    {
        ascii_field_str(&self.room_id)
    }

    /// The user identifier without its padding.
    pub fn user_id_str(&self) -> (text: &str)
        ensures
            text@ == field_text(self.user_id@),
    {
        ascii_field_str(&self.user_id)
    }

    /// The header as it stands on the wire.
    pub fn encode_header(&self) -> (wire: [u8; HEADER_LEN])
        ensures
            wire@ == header_bytes(*self),
    {
        let mut wire = [0u8; HEADER_LEN];
        wire[0] = self.version;
        wire[1] = self.packet_type.as_u8();
        wire[2] = self.target_type.as_u8();
        wire[3] = 0;
        let mut i: usize = 0;
        while i < ROOM_ID_LEN
            invariant
                i <= ROOM_ID_LEN,
                wire@.take(4) == seq![
                    self.version,
                    packet_type_code(self.packet_type),
                    target_type_code(self.target_type),
                    0u8,
                ],
                forall|k: int| 0 <= k < i ==> wire@[4 + k] == self.room_id@[k],
            decreases ROOM_ID_LEN - i,
        {
            wire[4 + i] = self.room_id[i];
            i += 1;
        }
        let ghost front = wire@;
        let mut j: usize = 0;
        while j < USER_ID_LEN
            invariant
                j <= USER_ID_LEN,
                wire@.take(10) == front.take(10),
                forall|k: int| 0 <= k < j ==> wire@[10 + k] == self.user_id@[k],
            decreases USER_ID_LEN - j,
        {
            wire[10 + j] = self.user_id[j];
            j += 1;
        }
        assert forall|k: int| 0 <= k < 10 implies wire@[k] == front[k] by {
            assert(wire@.take(10)[k] == front.take(10)[k]);
        }
        assert forall|k: int| 0 <= k < 4 implies wire@[k] == front.take(4)[k] by {}
        wire[18] = (self.sequence / 0x100_0000) as u8;
        wire[19] = (self.sequence / 0x1_0000 % 0x100) as u8;
        wire[20] = (self.sequence / 0x100 % 0x100) as u8;
        wire[21] = (self.sequence % 0x100) as u8;
        wire[22] = (self.length / 0x100) as u8;
        wire[23] = (self.length % 0x100) as u8;
        assert(wire@ =~= header_bytes(*self));
        wire
    }

    /// The header followed by `payload`, ready to be sent.
    pub fn encode(&self, payload: &[u8]) -> (wire: Bytes)
        requires
            HEADER_LEN + payload@.len() <= isize::MAX,
        ensures
            bytes_of(wire) == header_bytes(*self) + payload@,
    {
        let mut buf = BytesMut::with_capacity(HEADER_LEN + payload.len());
        let header = self.encode_header();
        put_slice(&mut buf, &header);
        put_slice(&mut buf, payload);
        assert(bytes_mut_of(buf) =~= header_bytes(*self) + payload@);
        buf.freeze()
    }

    /// Takes a packet apart. The payload shares the memory of `buf`.
    pub fn decode(buf: Bytes) -> (r: Result<(PacketHeader, Bytes), DecodeError>)
        ensures
            decoded(bytes_of(buf), r),
    {
        let raw = as_slice(&buf);
        if raw.len() < HEADER_LEN {
            return Err(DecodeError::TooShort);
        }
        let version = raw[0];
        if version != PROTOCOL_VERSION {
            return Err(DecodeError::UnsupportedVersion(version));
        }
        if raw[3] != 0x00 {
            return Err(DecodeError::NonZeroReserved(raw[3]));
        }
        let packet_type = match PacketType::from_u8(raw[1]) {
            Some(t) => t,
            None => return Err(DecodeError::UnknownPacketType(raw[1])),
        };
        let target_type = match TargetType::from_u8(raw[2]) {
            Some(t) => t,
            None => return Err(DecodeError::UnknownTargetType(raw[2])),
        };
        let room_id = copy_field::<ROOM_ID_LEN>(raw, 4);
        if !is_valid_ascii_field(&room_id) {
            return Err(DecodeError::NonAsciiRoomId);
        }
        let user_id = copy_field::<USER_ID_LEN>(raw, 10);
        if !is_valid_ascii_field(&user_id) {
            return Err(DecodeError::NonAsciiUserId);
        }
        let sequence: u32 = raw[18] as u32 * 0x100_0000 + raw[19] as u32 * 0x1_0000
            + raw[20] as u32 * 0x100 + raw[21] as u32;
        let length: u16 = raw[22] as u16 * 0x100 + raw[23] as u16;
        let actual: usize = raw.len() - HEADER_LEN;
        if actual != length as usize {
            return Err(DecodeError::LengthMismatch { declared: length, actual });
        }
        let header = PacketHeader {
            version,
            packet_type,
            target_type,
            room_id,
            user_id,
            sequence,
            length,
        };
        let payload = slice_from(&buf, HEADER_LEN);
        Ok((header, payload))
    }
}

} // verus!
