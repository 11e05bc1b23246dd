//! What building, encoding and decoding do, byte by byte: for every call of the
//! functions on headers, how its result relates to its arguments.

use bytes::Bytes;
use vstd::prelude::*;
use vstd::utf8::*;

use crate::buffer::bytes_of;
use crate::protocol::{
    ascii_field_str, be16, be16_value, be32, be32_value, decode_fault, field_text, header_bytes,
    is_valid_ascii_field, lemma_field_content, pack_ascii_field, valid_field, DecodeError,
    EncodeError, PacketHeader, PacketType, TargetType,
};
use crate::protocol_laws::{
    law_decode_undoes_encode, law_encode_undoes_decode, law_identifier_round_trip,
};
use crate::text::{append_decimal, append_hexadecimal, decimal, hexadecimal};

verus! {

/// A packet type stands on the wire as 1 for motion data, 2 for an event of an AI
/// node, 3 for a command and 4 for a heartbeat; and no other byte is a packet type.
pub proof fn law_packet_types_on_the_wire(t: PacketType, code: u8, v: u8, read: Option<PacketType>)
    requires
        call_ensures(PacketType::as_u8, (t,), code),
        call_ensures(PacketType::from_u8, (v,), read),
    ensures
        t is RawMotion ==> code == 1,
        t is AiEvent ==> code == 2,
        t is SystemCmd ==> code == 3,
        t is Heartbeat ==> code == 4,
        read == Some(PacketType::RawMotion) <==> v == 1,
        read == Some(PacketType::AiEvent) <==> v == 2,
        read == Some(PacketType::SystemCmd) <==> v == 3,
        read == Some(PacketType::Heartbeat) <==> v == 4,
{
}

/// A target type stands on the wire as 1 for everybody in the room and 2 for one
/// user; and no other byte is a target type.
pub proof fn law_target_types_on_the_wire(t: TargetType, code: u8, v: u8, read: Option<TargetType>)
    requires
        call_ensures(TargetType::as_u8, (t,), code),
        call_ensures(TargetType::from_u8, (v,), read),
    ensures
        t is Broadcast ==> code == 1,
        t is Unicast ==> code == 2,
        read == Some(TargetType::Broadcast) <==> v == 1,
        read == Some(TargetType::Unicast) <==> v == 2,
{
}

/// Numbers are read and written with the most significant byte first.
pub proof fn law_big_endian(hi: u8, lo: u8, b0: u8, b1: u8, b2: u8, b3: u8, n: u16, m: u32)
    ensures
        be16_value(seq![hi, lo]) == 256 * hi + lo,
        be32_value(seq![b0, b1, b2, b3]) == 16777216 * b0 + 65536 * b1 + 256 * b2 + b3,
        be16(n).len() == 2,
        256 * be16(n)[0] + be16(n)[1] == n,
        be32(m).len() == 4,
        16777216 * be32(m)[0] + 65536 * be32(m)[1] + 256 * be32(m)[2] + be32(m)[3] == m,
{
}

/// A field is accepted just where some ASCII characters other than zero come
/// first, up to some place `n`, and only zero bytes follow.
pub proof fn law_valid_field_is_text_and_padding(field: Seq<u8>, n: int)
    ensures
        0 <= n <= field.len() && (forall|i: int| 0 <= i < n ==> 0 < #[trigger] field[i] < 128) && (
        forall|i: int| n <= i < field.len() ==> #[trigger] field[i] == 0) ==> valid_field(field),
        valid_field(field) ==> forall|i: int| 0 <= i < field.len() ==> #[trigger] field[i] < 128,
        valid_field(field) ==> forall|i: int, j: int|
            0 <= i < j < field.len() && #[trigger] field[i] == 0 ==> #[trigger] field[j] == 0,
{
}

/// `is_valid_ascii_field` says whether ASCII characters other than zero come
/// first, up to some place `n`, and only zero bytes follow.
pub proof fn law_field_check(field: &[u8], valid: bool, n: int)
    requires
        call_ensures(is_valid_ascii_field, (field,), valid),
    ensures
        0 <= n <= field@.len() && (forall|i: int| 0 <= i < n ==> 0 < #[trigger] field@[i] < 128)
            && (forall|i: int| n <= i < field@.len() ==> #[trigger] field@[i] == 0) ==> valid,
        valid ==> forall|i: int| 0 <= i < field@.len() ==> #[trigger] field@[i] < 128,
        valid ==> forall|i: int, j: int|
            0 <= i < j < field@.len() && #[trigger] field@[i] == 0 ==> #[trigger] field@[j] == 0,
{
}

/// A text fits in a field just where it is ASCII and no longer than the field. It
/// then stands there character by character, and zero bytes follow.
pub proof fn law_packing<const N: usize>(s: &str, field: Option<[u8; N]>)
    requires
        call_ensures(pack_ascii_field::<N>, (s,), field),
    ensures
        field is Some <==> s@.len() <= N && forall|i: int|
            0 <= i < s@.len() ==> (#[trigger] s@[i] as int) < 128,
        field matches Some(f) ==> forall|i: int|
            0 <= i < N ==> #[trigger] f@[i] == if i < s@.len() {
                s@[i] as u8
            } else {
                0
            },
{
    lemma_ascii(s@);
}

/// ASCII characters are those below 128.
proof fn lemma_ascii(text: Seq<char>)
    ensures
        is_ascii_chars(text) <==> forall|i: int|
            0 <= i < text.len() ==> (#[trigger] text[i] as int) < 128,
{
    if is_ascii_chars(text) {
        is_ascii_chars_nat_bound(text);
        assert forall|i: int| 0 <= i < text.len() implies (#[trigger] text[i] as int) < 128 by {
            assert((text.index(i) as nat) < 128);
        }
    } else if forall|i: int| 0 <= i < text.len() ==> (#[trigger] text[i] as int) < 128 {
        assert forall|i: int| 0 <= i < text.len() implies '\0' <= #[trigger] text[i]
            <= '\u{7f}' by {
            lemma_ascii_char(text[i]);
            assert((text[i] as int) < 128);
        }
    }
}

/// No character has a negative code.
proof fn lemma_ascii_char(c: char)
    ensures
        '\0' <= c,
{
}

/// What a field holds as text, where its first zero byte is at `n`: the text that
/// the bytes before it encode, or nothing where they encode none. ASCII bytes stand
/// for their characters.
proof fn lemma_field_reading(field: Seq<u8>, n: int)
    requires
        0 <= n <= field.len(),
        forall|i: int| 0 <= i < n ==> #[trigger] field[i] != 0,
        n < field.len() ==> field[n] == 0,
    ensures
        valid_utf8(field.take(n)) ==> encode_utf8(field_text(field)) == field.take(n),
        !valid_utf8(field.take(n)) ==> field_text(field).len() == 0,
        (forall|i: int| 0 <= i < n ==> #[trigger] field[i] < 128) ==> {
            &&& field_text(field).len() == n
            &&& forall|i: int| 0 <= i < n ==> #[trigger] field_text(field)[i] as int == field[i]
        },
{
    lemma_field_content(field, n);
    let content = field.take(n);
    if valid_utf8(content) {
        decode_utf8_encode_utf8(content);
    }
    if forall|i: int| 0 <= i < n ==> #[trigger] field[i] < 128 {
        let text = Seq::new(n as nat, |i: int| content[i] as char);
        assert forall|i: int| 0 <= i < n implies content[i] == field[i] && text[i] as int
            == field[i] by {
            assert(content[i] == field[i]);
            assert(field[i] < 128);
        }
        assert(is_ascii_chars(text)) by {
            assert forall|i: int| 0 <= i < text.len() implies '\0' <= #[trigger] text[i]
                <= '\u{7f}' by {
                assert(text[i] as int == field[i]);
                assert(field[i] < 128);
            }
        }
        is_ascii_chars_encode_utf8(text);
        assert(encode_utf8(text) =~= content) by {
            assert forall|i: int| 0 <= i < n implies encode_utf8(text)[i] == content[i] by {
                assert(text[i] as u8 == content[i]);
            }
        }
        encode_utf8_valid_utf8(text);
        encode_utf8_decode_utf8(text);
        assert(field_text(field) == text);
    }
}

/// The text in a field, where its first zero byte is at `n`: the text that the
/// bytes before it encode, or nothing where they encode none. ASCII bytes stand for
/// their characters.
pub proof fn law_text_of_a_field(field: &[u8], text: &str, n: int)
    requires
        call_ensures(ascii_field_str, (field,), text),
        0 <= n <= field@.len(),
        forall|i: int| 0 <= i < n ==> #[trigger] field@[i] != 0,
        n < field@.len() ==> field@[n] == 0,
    ensures
        valid_utf8(field@.take(n)) ==> encode_utf8(text@) == field@.take(n),
        !valid_utf8(field@.take(n)) ==> text@.len() == 0,
        (forall|i: int| 0 <= i < n ==> #[trigger] field@[i] < 128) ==> {
            &&& text@.len() == n
            &&& forall|i: int| 0 <= i < n ==> #[trigger] text@[i] as int == field@[i]
        },
{
    lemma_field_reading(field@, n);
}

/// The room identifier of a header: the text before the first zero byte of its
/// field, at `n`.
pub proof fn law_room_id_of_a_header(h: &PacketHeader, text: &str, n: int)
    requires
        call_ensures(PacketHeader::room_id_str, (h,), text),
        0 <= n <= 6,
        forall|i: int| 0 <= i < n ==> #[trigger] h.room_id@[i] != 0,
        n < 6 ==> h.room_id@[n] == 0,
    ensures
        valid_utf8(h.room_id@.take(n)) ==> encode_utf8(text@) == h.room_id@.take(n),
        !valid_utf8(h.room_id@.take(n)) ==> text@.len() == 0,
        (forall|i: int| 0 <= i < n ==> #[trigger] h.room_id@[i] < 128) ==> {
            &&& text@.len() == n
            &&& forall|i: int| 0 <= i < n ==> #[trigger] text@[i] as int == h.room_id@[i]
        },
{
    lemma_field_reading(h.room_id@, n);
}

/// The user identifier of a header: the text before the first zero byte of its
/// field, at `n`.
pub proof fn law_user_id_of_a_header(h: &PacketHeader, text: &str, n: int)
    requires
        call_ensures(PacketHeader::user_id_str, (h,), text),
        0 <= n <= 8,
        forall|i: int| 0 <= i < n ==> #[trigger] h.user_id@[i] != 0,
        n < 8 ==> h.user_id@[n] == 0,
    ensures
        valid_utf8(h.user_id@.take(n)) ==> encode_utf8(text@) == h.user_id@.take(n),
        !valid_utf8(h.user_id@.take(n)) ==> text@.len() == 0,
        (forall|i: int| 0 <= i < n ==> #[trigger] h.user_id@[i] < 128) ==> {
            &&& text@.len() == n
            &&& forall|i: int| 0 <= i < n ==> #[trigger] text@[i] as int == h.user_id@[i]
        },
{
    lemma_field_reading(h.user_id@, n);
}

/// A header is built just where the identifiers are ASCII of at most 6 and 8
/// characters and the length fits in 16 bits; the error names the first of these
/// that fails. The header has version 2 and holds what it was built from.
pub proof fn law_building_a_header(
    packet_type: PacketType,
    target_type: TargetType,
    room: &str,
    user: &str,
    sequence: u32,
    payload_len: usize,
    r: Result<PacketHeader, EncodeError>,
)
    requires
        call_ensures(
            PacketHeader::new,
            (packet_type, target_type, room, user, sequence, payload_len),
            r,
        ),
    ensures
        ({
            let room_fits = room@.len() <= 6 && forall|i: int|
                0 <= i < room@.len() ==> (#[trigger] room@[i] as int) < 128;
            let user_fits = user@.len() <= 8 && forall|i: int|
                0 <= i < user@.len() ==> (#[trigger] user@[i] as int) < 128;
            &&& r is Ok <==> room_fits && user_fits && payload_len <= 65535
            &&& r == Err::<PacketHeader, EncodeError>(EncodeError::InvalidRoomId) <==> !room_fits
            &&& r == Err::<PacketHeader, EncodeError>(EncodeError::InvalidUserId) <==> room_fits
                && !user_fits
            &&& r == Err::<PacketHeader, EncodeError>(EncodeError::PayloadTooLarge) <==> room_fits
                && user_fits && payload_len > 65535
        }),
        r matches Ok(h) ==> {
            &&& h.version == 2
            &&& h.packet_type == packet_type
            &&& h.target_type == target_type
            &&& h.sequence == sequence
            &&& h.length == payload_len
            &&& forall|i: int|
                0 <= i < 6 ==> #[trigger] h.room_id@[i] == if i < room@.len() {
                    room@[i] as u8
                } else {
                    0
                }
            &&& forall|i: int|
                0 <= i < 8 ==> #[trigger] h.user_id@[i] == if i < user@.len() {
                    user@[i] as u8
                } else {
                    0
                }
        },
{
    lemma_ascii(room@);
    lemma_ascii(user@);
}

/// Where each part of a header stands on the wire.
proof fn lemma_layout(h: PacketHeader, payload: Seq<u8>)
    ensures
        ({
            let w = header_bytes(h) + payload;
            &&& w.len() == 24 + payload.len()
            &&& w[0] == h.version
            &&& h.packet_type is RawMotion ==> w[1] == 1
            &&& h.packet_type is AiEvent ==> w[1] == 2
            &&& h.packet_type is SystemCmd ==> w[1] == 3
            &&& h.packet_type is Heartbeat ==> w[1] == 4
            &&& h.target_type is Broadcast ==> w[2] == 1
            &&& h.target_type is Unicast ==> w[2] == 2
            &&& w[3] == 0
            &&& forall|i: int| 0 <= i < 6 ==> #[trigger] h.room_id@[i] == w[4 + i]
            &&& forall|i: int| 0 <= i < 8 ==> #[trigger] h.user_id@[i] == w[10 + i]
            &&& 16777216 * w[18] + 65536 * w[19] + 256 * w[20] + w[21] == h.sequence
            &&& 256 * w[22] + w[23] == h.length
            &&& w.skip(24) == payload
        }),
{
    let w = header_bytes(h) + payload;
    law_big_endian(0, 0, 0, 0, 0, 0, h.length, h.sequence);
    assert(w[18] == be32(h.sequence)[0]);
    assert(w[19] == be32(h.sequence)[1]);
    assert(w[20] == be32(h.sequence)[2]);
    assert(w[21] == be32(h.sequence)[3]);
    assert(w[22] == be16(h.length)[0]);
    assert(w[23] == be16(h.length)[1]);
    assert(w.skip(24) =~= payload);
}

/// An encoded header takes 24 bytes: version, packet type, target type, a zero
/// byte, room, user, and then sequence number and length with the most
/// significant byte first.
pub proof fn law_encoded_header(h: &PacketHeader, w: [u8; 24])
    requires
        call_ensures(PacketHeader::encode_header, (h,), w),
    ensures
        w@[0] == h.version,
        h.packet_type is RawMotion ==> w@[1] == 1,
        h.packet_type is AiEvent ==> w@[1] == 2,
        h.packet_type is SystemCmd ==> w@[1] == 3,
        h.packet_type is Heartbeat ==> w@[1] == 4,
        h.target_type is Broadcast ==> w@[2] == 1,
        h.target_type is Unicast ==> w@[2] == 2,
        w@[3] == 0,
        forall|i: int| 0 <= i < 6 ==> #[trigger] h.room_id@[i] == w@[4 + i],
        forall|i: int| 0 <= i < 8 ==> #[trigger] h.user_id@[i] == w@[10 + i],
        16777216 * w@[18] + 65536 * w@[19] + 256 * w@[20] + w@[21] == h.sequence,
        256 * w@[22] + w@[23] == h.length,
{
    lemma_layout(*h, Seq::empty());
    assert(header_bytes(*h) + Seq::<u8>::empty() =~= header_bytes(*h));
}

/// An encoded packet is the 24 bytes of its header, as they stand on the wire,
/// followed by the payload, unchanged.
pub proof fn law_encoded_packet(h: &PacketHeader, payload: &[u8], wire: Bytes)
    requires
        call_ensures(PacketHeader::encode, (h, payload), wire),
    ensures
        ({
            let w = bytes_of(wire);
            &&& w.len() == 24 + payload@.len()
            &&& w[0] == h.version
            &&& h.packet_type is RawMotion ==> w[1] == 1
            &&& h.packet_type is AiEvent ==> w[1] == 2
            &&& h.packet_type is SystemCmd ==> w[1] == 3
            &&& h.packet_type is Heartbeat ==> w[1] == 4
            &&& h.target_type is Broadcast ==> w[2] == 1
            &&& h.target_type is Unicast ==> w[2] == 2
            &&& w[3] == 0
            &&& forall|i: int| 0 <= i < 6 ==> #[trigger] h.room_id@[i] == w[4 + i]
            &&& forall|i: int| 0 <= i < 8 ==> #[trigger] h.user_id@[i] == w[10 + i]
            &&& 16777216 * w[18] + 65536 * w[19] + 256 * w[20] + w[21] == h.sequence
            &&& 256 * w[22] + w[23] == h.length
            &&& w.skip(24) == payload@
        }),
{
    lemma_layout(*h, payload@);
}

/// A packet is accepted just where it has at least 24 bytes, version 2, a zero
/// byte behind the two types, known types, identifiers in zero-padded ASCII, and
/// as many further bytes as bytes 22 and 23 say, the first of them counting 256.
pub proof fn law_accepted_packets(buf: Bytes, r: Result<(PacketHeader, Bytes), DecodeError>)
    requires
        call_ensures(PacketHeader::decode, (buf,), r),
    ensures
        ({
            let b = bytes_of(buf);
            r is Ok <==> {
                &&& b.len() >= 24
                &&& b[0] == 2
                &&& b[3] == 0
                &&& 1 <= b[1] <= 4
                &&& 1 <= b[2] <= 2
                &&& valid_field(b.subrange(4, 10))
                &&& valid_field(b.subrange(10, 18))
                &&& 256 * b[22] + b[23] == b.len() - 24
            }
        }),
{
}

/// What is read from an accepted packet: each field from its place, the sequence
/// number from bytes 18 to 21 and the length from bytes 22 and 23 with the most
/// significant byte first, and as payload all that follows the header.
pub proof fn law_what_is_decoded(buf: Bytes, h: PacketHeader, payload: Bytes)
    requires
        call_ensures(PacketHeader::decode, (buf,), Ok((h, payload))),
    ensures
        ({
            let b = bytes_of(buf);
            &&& h.version == 2
            &&& h.packet_type is RawMotion <==> b[1] == 1
            &&& h.packet_type is AiEvent <==> b[1] == 2
            &&& h.packet_type is SystemCmd <==> b[1] == 3
            &&& h.packet_type is Heartbeat <==> b[1] == 4
            &&& h.target_type is Broadcast <==> b[2] == 1
            &&& h.target_type is Unicast <==> b[2] == 2
            &&& forall|i: int| 0 <= i < 6 ==> #[trigger] h.room_id@[i] == b[4 + i]
            &&& forall|i: int| 0 <= i < 8 ==> #[trigger] h.user_id@[i] == b[10 + i]
            &&& h.sequence == 16777216 * b[18] + 65536 * b[19] + 256 * b[20] + b[21]
            &&& h.length == 256 * b[22] + b[23]
            &&& bytes_of(payload) == b.skip(24)
            &&& bytes_of(payload).len() == h.length
        }),
{
}

/// What a refusal says: the first of the checks that fails, in the order of
/// length, version, reserved byte, packet type, target type, room, user and
/// declared length; each with the value that was found.
pub proof fn law_refused_packets(buf: Bytes, e: DecodeError)
    requires
        call_ensures(PacketHeader::decode, (buf,), Err(e)),
        bytes_of(buf).len() <= usize::MAX,
    ensures
        ({
            let b = bytes_of(buf);
            let length = 256 * b[22] + b[23];
            let v = b.len() >= 24 && b[0] == 2;
            let p = v && b[3] == 0 && 1 <= b[1] <= 4;
            let t = p && 1 <= b[2] <= 2;
            let m = t && valid_field(b.subrange(4, 10));
            let u = m && valid_field(b.subrange(10, 18));
            &&& b.len() < 24 ==> e is TooShort
            &&& b.len() >= 24 && b[0] != 2 ==> e == DecodeError::UnsupportedVersion(b[0])
            &&& v && b[3] != 0 ==> e == DecodeError::NonZeroReserved(b[3])
            &&& v && b[3] == 0 && !(1 <= b[1] <= 4) ==> e == DecodeError::UnknownPacketType(b[1])
            &&& p && !(1 <= b[2] <= 2) ==> e == DecodeError::UnknownTargetType(b[2])
            &&& t && !valid_field(b.subrange(4, 10)) ==> e is NonAsciiRoomId
            &&& m && !valid_field(b.subrange(10, 18)) ==> e is NonAsciiUserId
            &&& u ==> length != b.len() - 24 && (e matches DecodeError::LengthMismatch {
                declared,
                actual,
            } && declared == length && actual == b.len() - 24)
        }),
{
}

/// Decoding what was encoded gives back the header and the payload, for every
/// header of version 2 with identifiers in zero-padded ASCII and every payload of
/// the declared length.
pub proof fn law_encoded_packets_are_decoded(
    h: &PacketHeader,
    payload: &[u8],
    wire: Bytes,
    r: Result<(PacketHeader, Bytes), DecodeError>,
)
    requires
        call_ensures(PacketHeader::encode, (h, payload), wire),
        call_ensures(PacketHeader::decode, (wire,), r),
        h.version == 2,
        valid_field(h.room_id@),
        valid_field(h.user_id@),
        h.length == payload@.len(),
    ensures
        r matches Ok((read, rest)) && read == *h && bytes_of(rest) == payload@,
{
    law_decode_undoes_encode(*h, payload@);
    if let Err(e) = r {
        assert(decode_fault(bytes_of(wire)) == Some(e));
    }
}

/// Encoding what was decoded gives back the packet, byte for byte.
pub proof fn law_decoded_packets_are_encoded(
    buf: Bytes,
    h: PacketHeader,
    payload: Bytes,
    again: &[u8],
    wire: Bytes,
)
    requires
        call_ensures(PacketHeader::decode, (buf,), Ok((h, payload))),
        again@ == bytes_of(payload),
        call_ensures(PacketHeader::encode, (&h, again), wire),
    ensures
        bytes_of(wire) == bytes_of(buf),
{
    law_encode_undoes_decode(h, bytes_of(buf));
}

/// A header that was built for a payload, with identifiers without zero
/// characters, carries it: decoding the encoded packet gives header, identifiers
/// and payload back.
pub proof fn law_built_packets_arrive(
    packet_type: PacketType,
    target_type: TargetType,
    room: &str,
    user: &str,
    sequence: u32,
    payload_len: usize,
    h: PacketHeader,
    payload: &[u8],
    wire: Bytes,
    r: Result<(PacketHeader, Bytes), DecodeError>,
    room_read: &str,
    user_read: &str,
)
    requires
        call_ensures(
            PacketHeader::new,
            (packet_type, target_type, room, user, sequence, payload_len),
            Ok(h),
        ),
        payload@.len() == payload_len,
        forall|i: int| 0 <= i < room@.len() ==> #[trigger] room@[i] != '\0',
        forall|i: int| 0 <= i < user@.len() ==> #[trigger] user@[i] != '\0',
        call_ensures(PacketHeader::encode, (&h, payload), wire),
        call_ensures(PacketHeader::decode, (wire,), r),
        call_ensures(PacketHeader::room_id_str, (&h,), room_read),
        call_ensures(PacketHeader::user_id_str, (&h,), user_read),
    ensures
        r matches Ok((read, rest)) && read == h && bytes_of(rest) == payload@,
        room_read@ == room@,
        user_read@ == user@,
{
    law_identifier_round_trip(room@, 6);
    law_identifier_round_trip(user@, 8);
    law_encoded_packets_are_decoded(&h, payload, wire, r);
}

/// A number is written with its most significant digit first: as its tenth part,
/// if that is not zero, and then its last digit.
pub proof fn law_decimal_digits(n: nat)
    ensures
        n < 10 ==> decimal(n).len() == 1,
        n >= 10 ==> decimal(n).drop_last() == decimal(n / 10),
        decimal(n).len() > 0,
        decimal(n).last() as int == 48 + n % 10,
{
    if n >= 10 {
        assert(decimal(n).drop_last() =~= decimal(n / 10));
    }
}

/// A byte is written in hexadecimal behind `0x`, with lower-case digits, the more
/// significant one first and left out when it is zero.
pub proof fn law_hexadecimal_digits(n: u8)
    ensures
        ({
            let digit = |d: int| if d < 10 {
                48 + d
            } else {
                87 + d
            };
            let text = hexadecimal(n);
            &&& text.len() == if n < 16 {
                3int
            } else {
                4int
            }
            &&& text[0] == '0'
            &&& text[1] == 'x'
            &&& text.last() as int == digit(n as int % 16)
            &&& n >= 16 ==> text[2] as int == digit(n as int / 16)
        }),
{
    reveal_strlit("0x");
}

/// A number is appended to a text in its digits.
pub proof fn law_appending_numbers(
    decimal_text: &mut String,
    n: u64,
    hexadecimal_text: &mut String,
    v: u8,
)
    requires
        call_ensures(append_decimal, (decimal_text, n), ()),
        call_ensures(append_hexadecimal, (hexadecimal_text, v), ()),
    ensures
        final(decimal_text)@ == old(decimal_text)@ + decimal(n as nat),
        final(hexadecimal_text)@ == old(hexadecimal_text)@ + hexadecimal(v),
{
}

/// What an error that stops a header from being built says.
pub proof fn law_encode_error_messages(e: &EncodeError, text: String)
    requires
        call_ensures(EncodeError::to_string, (e,), text),
    ensures
        e is InvalidRoomId ==> text@ == "room_id must be <= 6 ASCII bytes"@,
        e is InvalidUserId ==> text@ == "user_id must be <= 8 ASCII bytes"@,
        e is PayloadTooLarge ==> text@ == "payload length exceeds u16::MAX"@,
{
}

/// What a refusal says, with the values that were found.
pub proof fn law_decode_error_messages(e: &DecodeError, text: String, v: u8, d: u16, a: usize)
    requires
        call_ensures(DecodeError::to_string, (e,), text),
    ensures
        e is TooShort ==> text@ == "packet shorter than 24-byte header"@,
        *e == DecodeError::UnsupportedVersion(v) ==> text@ == "unsupported protocol version: "@
            + hexadecimal(v),
        *e == DecodeError::NonZeroReserved(v) ==> text@ == "reserved field must be 0x00, got: "@
            + hexadecimal(v),
        *e == DecodeError::UnknownPacketType(v) ==> text@ == "unknown packet type: "@
            + hexadecimal(v),
        *e == DecodeError::UnknownTargetType(v) ==> text@ == "unknown target type: "@
            + hexadecimal(v),
        e is NonAsciiRoomId ==> text@ == "room_id contains non-ASCII bytes"@,
        e is NonAsciiUserId ==> text@ == "user_id contains non-ASCII bytes"@,
        (*e == DecodeError::LengthMismatch { declared: d, actual: a }) ==> text@
            == "declared payload length "@ + decimal(d as nat) + " does not match actual "@
            + decimal(a as nat),
{
}

} // verus!
