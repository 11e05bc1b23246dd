//! What holds of the wire format as a whole.

use vstd::prelude::*;
use vstd::utf8::*;

use crate::protocol::{
    be16, be16_value, be32, be32_value, decode_fault, field_content, field_text, fits_field,
    header_bytes, lemma_field_content, packed_field, packet_type_code, reads_header,
    target_type_code, valid_field, DecodeError, PacketHeader, PacketType, TargetType, HEADER_LEN,
    PROTOCOL_VERSION, ROOM_ID_LEN, USER_ID_LEN,
};

verus! {

/// A header that `decode` can give back: of the current version, with
/// identifiers in zero-padded ASCII.
pub open spec fn well_formed_header(h: PacketHeader) -> bool {
    &&& h.version == PROTOCOL_VERSION
    &&& valid_field(h.room_id@)
    &&& valid_field(h.user_id@)
}

/// Different packet types have different codes, and the codes are those from 1 to 4.
pub proof fn law_packet_type_codes(a: PacketType, b: PacketType)
    ensures
        packet_type_code(a) == packet_type_code(b) ==> a == b,
        1 <= packet_type_code(a) <= 4,
{
}

/// Different target types have different codes, and the codes are 1 and 2.
pub proof fn law_target_type_codes(a: TargetType, b: TargetType)
    ensures
        target_type_code(a) == target_type_code(b) ==> a == b,
        1 <= target_type_code(a) <= 2,
{
}

/// Every header takes 24 bytes on the wire.
pub proof fn law_header_length(h: PacketHeader)
    ensures
        header_bytes(h).len() == HEADER_LEN,
{
}

/// Where each field of a header stands in an encoded packet.
proof fn lemma_wire_layout(h: PacketHeader, payload: Seq<u8>)
    ensures
        ({
            let wire = header_bytes(h) + payload;
            &&& wire.len() == HEADER_LEN + payload.len()
            &&& wire[0] == h.version
            &&& wire[1] == packet_type_code(h.packet_type)
            &&& wire[2] == target_type_code(h.target_type)
            &&& wire[3] == 0
            &&& wire.subrange(4, 10) == h.room_id@
            &&& wire.subrange(10, 18) == h.user_id@
            &&& wire.subrange(18, 22) == be32(h.sequence)
            &&& wire.subrange(22, 24) == be16(h.length)
            &&& wire.skip(HEADER_LEN as int) == payload
            &&& reads_header(h, wire)
        }),
{
    let wire = header_bytes(h) + payload;
    assert(wire.subrange(4, 10) =~= h.room_id@);
    assert(wire.subrange(10, 18) =~= h.user_id@);
    assert(wire.subrange(18, 22) =~= be32(h.sequence));
    assert(wire.subrange(22, 24) =~= be16(h.length));
    assert(wire.skip(HEADER_LEN as int) =~= payload);
    assert(be32_value(be32(h.sequence)) == h.sequence);
    assert(be16_value(be16(h.length)) == h.length);
}

/// The bytes of a packet determine its header.
pub proof fn law_header_is_determined(a: PacketHeader, b: PacketHeader, buf: Seq<u8>)
    requires
        reads_header(a, buf),
        reads_header(b, buf),
    ensures
        a == b,
{
    assert(a.room_id =~= b.room_id) by {
        assert forall|i: int| 0 <= i < 6 implies a.room_id[i] == b.room_id[i] by {
            assert(a.room_id@[i] == b.room_id@[i]);
        }
    }
    assert(a.user_id =~= b.user_id) by {
        assert forall|i: int| 0 <= i < 8 implies a.user_id[i] == b.user_id[i] by {
            assert(a.user_id@[i] == b.user_id@[i]);
        }
    }
}

/// Decoding an encoded packet gives back its header and its payload, and no
/// other header.
pub proof fn law_decode_undoes_encode(h: PacketHeader, payload: Seq<u8>)
    requires
        well_formed_header(h),
        h.length == payload.len(),
    ensures
        decode_fault(header_bytes(h) + payload) is None,
        (header_bytes(h) + payload).skip(HEADER_LEN as int) == payload,
        forall|d: PacketHeader|
            #[trigger] reads_header(d, header_bytes(h) + payload) <==> d == h,
{
    lemma_wire_layout(h, payload);
    let wire = header_bytes(h) + payload;
    assert forall|d: PacketHeader| #[trigger] reads_header(d, wire) implies d == h by {
        law_header_is_determined(d, h, wire);
    }
}

/// The big-endian bytes of the number that four bytes stand for are those bytes.
proof fn lemma_be32_bytes(n: u32, b: Seq<u8>)
    requires
        b.len() == 4,
        n == be32_value(b),
    ensures
        be32(n) == b,
{
    let (b0, b1, b2, b3) = (b[0] as int, b[1] as int, b[2] as int, b[3] as int);
    assert(n / 0x100_0000 == b0);
    assert(n / 0x1_0000 == b0 * 0x100 + b1);
    assert(n / 0x100 == b0 * 0x1_0000 + b1 * 0x100 + b2);
    assert(be32(n) =~= b);
}

/// The big-endian bytes of the number that two bytes stand for are those bytes.
proof fn lemma_be16_bytes(n: u16, b: Seq<u8>)
    requires
        b.len() == 2,
        n == be16_value(b),
    ensures
        be16(n) == b,
{
    assert(n / 0x100 == b[0]);
    assert(be16(n) =~= b);
}

/// Encoding what was decoded gives back the packet, byte for byte: a packet has
/// only one accepted form.
pub proof fn law_encode_undoes_decode(h: PacketHeader, buf: Seq<u8>)
    requires
        decode_fault(buf) is None,
        reads_header(h, buf),
    ensures
        header_bytes(h) + buf.skip(HEADER_LEN as int) == buf,
        well_formed_header(h),
        h.length == buf.len() - HEADER_LEN,
{
    let again = header_bytes(h) + buf.skip(HEADER_LEN as int);
    lemma_wire_layout(h, buf.skip(HEADER_LEN as int));
    lemma_be32_bytes(h.sequence, buf.subrange(18, 22));
    lemma_be16_bytes(h.length, buf.subrange(22, 24));
    assert(again.subrange(4, 10) == buf.subrange(4, 10));
    assert(again.subrange(10, 18) == buf.subrange(10, 18));
    assert(again.subrange(18, 22) == buf.subrange(18, 22));
    assert(again.subrange(22, 24) == buf.subrange(22, 24));
    assert forall|i: int| 0 <= i < buf.len() implies again[i] == buf[i] by {
        if 4 <= i < 10 {
            assert(again.subrange(4, 10)[i - 4] == buf.subrange(4, 10)[i - 4]);
        } else if 10 <= i < 18 {
            assert(again.subrange(10, 18)[i - 10] == buf.subrange(10, 18)[i - 10]);
        } else if 18 <= i < 22 {
            assert(again.subrange(18, 22)[i - 18] == buf.subrange(18, 22)[i - 18]);
        } else if 22 <= i < 24 {
            assert(again.subrange(22, 24)[i - 22] == buf.subrange(22, 24)[i - 22]);
        } else if i >= 24 {
            assert(again.skip(24)[i - 24] == buf.skip(24)[i - 24]);
        }
    }
    assert(again =~= buf);
}

/// A packet whose payload is not as long as its header declares is refused, and
/// the refusal names both lengths.
pub proof fn law_wrong_length_is_refused(h: PacketHeader, payload: Seq<u8>)
    requires
        well_formed_header(h),
        h.length != payload.len(),
        payload.len() <= usize::MAX,
    ensures
        decode_fault(header_bytes(h) + payload) == Some(
            DecodeError::LengthMismatch { declared: h.length, actual: payload.len() as usize },
        ),
{
    lemma_wire_layout(h, payload);
}

/// A packet of another version is refused, whatever else it holds.
pub proof fn law_other_version_is_refused(h: PacketHeader, payload: Seq<u8>)
    requires
        h.version != PROTOCOL_VERSION,
    ensures
        decode_fault(header_bytes(h) + payload) == Some(DecodeError::UnsupportedVersion(h.version)),
{
    lemma_wire_layout(h, payload);
}

/// An identifier without zero characters comes back from its field unchanged,
/// and its field is one that `decode` accepts.
pub proof fn law_identifier_round_trip(text: Seq<char>, n: nat)
    requires
        fits_field(text, n),
        forall|i: int| 0 <= i < text.len() ==> text[i] != '\0',
    ensures
        valid_field(packed_field(text, n)),
        field_text(packed_field(text, n)) == text,
{
    let field = packed_field(text, n);
    is_ascii_chars_nat_bound(text);
    is_ascii_chars_encode_utf8(text);
    assert forall|i: int| 0 <= i < text.len() implies 0 < #[trigger] field[i] < 0x80 by {
        assert(text[i] != '\0');
    }
    assert(valid_field(field));
    lemma_field_content(field, text.len() as int);
    assert(field.take(text.len() as int) =~= encode_utf8(text));
    encode_utf8_valid_utf8(text);
    encode_utf8_decode_utf8(text);
}

/// The content of a field is what stands before its first zero byte.
proof fn lemma_content_is_prefix(field: Seq<u8>)
    ensures
        field_content(field).len() <= field.len(),
        field_content(field) == field.take(field_content(field).len() as int),
        forall|i: int| 0 <= i < field_content(field).len() ==> #[trigger] field[i] != 0,
        field_content(field).len() < field.len() ==> field[field_content(field).len() as int] == 0,
    decreases field.len(),
{
    if field.len() == 0 || field[0] == 0 {
        assert(field_content(field) =~= field.take(0));
    } else {
        let rest = field.skip(1);
        lemma_content_is_prefix(rest);
        let end = field_content(field).len() as int;
        assert forall|i: int| 0 <= i < end implies #[trigger] field[i] != 0 by {
            if i > 0 {
                assert(rest[i - 1] == field[i]);
            }
        }
        assert(field_content(field) =~= field.take(end)) by {
            assert(field.take(end) =~= seq![field[0]] + rest.take(end - 1));
        }
    }
}

/// The identifier in a field that `decode` accepts is ASCII without zero
/// characters, and the field holds nothing but that identifier and its padding.
pub proof fn law_accepted_field_is_its_identifier(field: Seq<u8>)
    requires
        valid_field(field),
    ensures
        fits_field(field_text(field), field.len()),
        forall|i: int| 0 <= i < field_text(field).len() ==> #[trigger] field_text(field)[i] != '\0',
        packed_field(field_text(field), field.len()) == field,
{
    lemma_content_is_prefix(field);
    let content = field_content(field);
    let end = content.len() as int;
    let text = Seq::new(content.len(), |i: int| content[i] as char);
    assert forall|i: int| 0 <= i < end implies content[i] == field[i] && 0 < content[i] < 0x80 by {
        assert(field.take(end)[i] == field[i]);
    }
    assert(is_ascii_chars(text));
    is_ascii_chars_encode_utf8(text);
    assert(encode_utf8(text) =~= content) by {
        assert forall|i: int| 0 <= i < end implies encode_utf8(text)[i] == content[i] by {
            assert(text[i] as u8 == content[i]);
        }
    }
    encode_utf8_valid_utf8(text);
    encode_utf8_decode_utf8(text);
    assert(field_text(field) == text);
    assert forall|i: int| 0 <= i < field.len() implies packed_field(text, field.len())[i]
        == field[i] by {
        if i < end {
            assert(text[i] as u8 == content[i]);
        } else if i > end {
            assert(field[end] == 0);
        }
    }
    assert(packed_field(text, field.len()) =~= field);
}

/// A packet with identifiers without zero characters, encoded under a header that
/// was built for it, is decoded to the same header with the same identifiers.
pub proof fn law_built_packet_round_trip(
    h: PacketHeader,
    room: Seq<char>,
    user: Seq<char>,
    payload: Seq<u8>,
)
    requires
        h.version == PROTOCOL_VERSION,
        fits_field(room, ROOM_ID_LEN as nat),
        fits_field(user, USER_ID_LEN as nat),
        forall|i: int| 0 <= i < room.len() ==> room[i] != '\0',
        forall|i: int| 0 <= i < user.len() ==> user[i] != '\0',
        h.room_id@ == packed_field(room, ROOM_ID_LEN as nat),
        h.user_id@ == packed_field(user, USER_ID_LEN as nat),
        h.length == payload.len(),
    ensures
        decode_fault(header_bytes(h) + payload) is None,
        (header_bytes(h) + payload).skip(HEADER_LEN as int) == payload,
        forall|d: PacketHeader| #[trigger]
            reads_header(d, header_bytes(h) + payload) ==> d == h && field_text(d.room_id@) == room
                && field_text(d.user_id@) == user,
{
    law_identifier_round_trip(room, ROOM_ID_LEN as nat);
    law_identifier_round_trip(user, USER_ID_LEN as nat);
    law_decode_undoes_encode(h, payload);
}

} // verus!
