//! What holds of the wire format as a whole: lengths, and that decoding
//! undoes encoding.

use vstd::prelude::*;
use vstd::utf8::encode_utf8;
use vstd::utf8::{encode_utf8_decode_utf8, encode_utf8_valid_utf8};
use crate::mqtt::error::DecodeError;
use crate::mqtt::frame::{FrameView, PacketView};
use crate::mqtt::impls::{
    spec_codes_wire, spec_connack_decode, spec_connack_wire, spec_connect_decode,
    spec_connect_encodable, spec_connect_wire, spec_filters_wire,
    spec_opt_bytes_wire, spec_opt_string_wire, spec_publish_decode, spec_publish_wire,
    spec_read_codes, spec_read_filters, spec_read_opt_bytes, spec_read_opt_string,
    spec_suback_decode, spec_suback_wire, spec_subscribe_decode, spec_subscribe_encodable,
    spec_subscribe_wire, MAX_COUNT,
};
use crate::mqtt::packets::{
    spec_connect_flags, spec_publish_flags, ConnAck, ConnectView, FilterView, PublishView,
};
use crate::mqtt::types::{ConnectReturnCode, MessageType, QoS, SubAckReturnCode};
use crate::mqtt::wire::{
    spec_bytes_wire, spec_read_bytes, spec_read_string, spec_read_u16, spec_string_fits,
    spec_string_wire, spec_u16_be, spec_u16_from_be, MAX_FIELD_LEN,
};

verus! {

/// Every filter takes at least three bytes, so the filters are no more than
/// a third of their wire form, and each topic is shorter than the whole.
pub proof fn lemma_filters_wire_bounds(filters: Seq<FilterView>, i: int)
    requires
        0 <= i < filters.len(),
    ensures
        3 * filters.len() <= spec_filters_wire(filters).len(),
        3 + encode_utf8(filters[i].topic).len() <= spec_filters_wire(filters).len(),
    decreases filters.len(),
{
    let rest = filters.drop_first();
    if rest.len() > 0 {
        if i == 0 {
            lemma_filters_wire_bounds(rest, 0);
        } else {
            lemma_filters_wire_bounds(rest, i - 1);
        }
    } else {
        assert(spec_filters_wire(rest).len() == 0);
    }
}

/// A frame that fits its length byte has no field too long for its own
/// prefix.
pub proof fn lemma_fits_encodable(frame: FrameView)
    requires
        frame.fits(),
    ensures
        frame.packet.encodable(),
{
    match frame.packet {
        PacketView::Subscribe(s) => {
            if s.len() > 0 {
                lemma_filters_wire_bounds(s, 0);
            }
            assert forall|i: int| 0 <= i < s.len() implies spec_string_fits(
                #[trigger] s[i].topic,
            ) by {
                lemma_filters_wire_bounds(s, i);
            }
        },
        _ => {},
    }
}

/// Whether `buf` holds the bytes `w` from `offset` on.
pub open spec fn spec_holds_at(buf: Seq<u8>, offset: int, w: Seq<u8>) -> bool {
    &&& 0 <= offset
    &&& offset + w.len() <= buf.len()
    &&& buf.subrange(offset, offset + w.len()) == w
}

/// A buffer that holds two runs of bytes joined holds the first where the
/// join starts and the second right behind it.
pub proof fn lemma_holds_at_split(buf: Seq<u8>, offset: int, a: Seq<u8>, b: Seq<u8>)
    requires
        spec_holds_at(buf, offset, a + b),
    ensures
        spec_holds_at(buf, offset, a),
        spec_holds_at(buf, offset + a.len(), b),
{
    let w = buf.subrange(offset, offset + (a + b).len());
    assert(buf.subrange(offset, offset + a.len()) =~= w.subrange(0, a.len() as int));
    assert(w.subrange(0, a.len() as int) =~= a);
    assert(buf.subrange(offset + a.len(), offset + a.len() + b.len()) =~= w.subrange(
        a.len() as int,
        (a + b).len() as int,
    ));
    assert(w.subrange(a.len() as int, (a + b).len() as int) =~= b);
}

/// Each decoder maps every code back from the byte that stands for it.
pub proof fn lemma_enum_bytes_roundtrip()
    ensures
        forall|t: MessageType| #[trigger]
            MessageType::spec_from_byte(t.spec_byte()) == Ok::<_, DecodeError>(t),
        forall|q: QoS| #[trigger] QoS::spec_from_byte(q.spec_byte()) == Ok::<_, u8>(q),
        forall|c: ConnectReturnCode| #[trigger]
            ConnectReturnCode::spec_from_byte(c.spec_byte()) == Ok::<_, u8>(c),
        forall|c: SubAckReturnCode| #[trigger]
            SubAckReturnCode::spec_from_byte(c.spec_byte()) == Ok::<_, u8>(c),
{
}

/// A byte that names no value of an enumeration is handed back in the
/// error; no value stands in for it.
pub proof fn lemma_unknown_bytes_rejected(b: u8)
    ensures
        !(1 <= b <= 9) ==> MessageType::spec_from_byte(b) == Err::<MessageType, _>(
            DecodeError::InvalidMessageType(b),
        ),
        b > 2 ==> QoS::spec_from_byte(b) == Err::<QoS, _>(b),
        b > 5 ==> ConnectReturnCode::spec_from_byte(b) == Err::<ConnectReturnCode, _>(b),
        b > 2 && b != 0x80 ==> SubAckReturnCode::spec_from_byte(b) == Err::<SubAckReturnCode, _>(
            b,
        ),
{
}

/// Reading the two bytes of a 16-bit integer gives the integer back.
pub proof fn lemma_read_u16_at(buf: Seq<u8>, offset: int, v: u16)
    requires
        spec_holds_at(buf, offset, spec_u16_be(v)),
    ensures
        spec_read_u16(buf, offset) == Ok::<_, DecodeError>(v),
{
    let w = buf.subrange(offset, offset + 2);
    assert(w[0] == buf[offset] && w[1] == buf[offset + 1]);
    assert(w[0] == (v as int / 256) as u8 && w[1] == (v as int % 256) as u8);
}

/// Reading a length-prefixed byte string gives the bytes back, and the
/// offset behind them.
pub proof fn lemma_read_bytes_at(buf: Seq<u8>, offset: int, bytes: Seq<u8>)
    requires
        bytes.len() <= MAX_FIELD_LEN,
        spec_holds_at(buf, offset, spec_bytes_wire(bytes)),
    ensures
        spec_read_bytes(buf, offset) == Ok::<_, DecodeError>((bytes, offset + 2 + bytes.len())),
{
    lemma_holds_at_split(buf, offset, spec_u16_be(bytes.len() as u16), bytes);
    lemma_read_u16_at(buf, offset, bytes.len() as u16);
}

/// Reading a length-prefixed string gives the text back, and the offset
/// behind it.
pub proof fn lemma_read_string_at(buf: Seq<u8>, offset: int, s: Seq<char>)
    requires
        spec_string_fits(s),
        spec_holds_at(buf, offset, spec_string_wire(s)),
    ensures
        spec_read_string(buf, offset) == Ok::<_, DecodeError>(
            (s, offset + 2 + encode_utf8(s).len()),
        ),
{
    let bytes = encode_utf8(s);
    lemma_holds_at_split(buf, offset, spec_u16_be(bytes.len() as u16), bytes);
    lemma_read_u16_at(buf, offset, bytes.len() as u16);
    encode_utf8_valid_utf8(s);
    encode_utf8_decode_utf8(s);
}

/// Each flag of a connect can be read back from the flags byte.
pub proof fn lemma_connect_flags_bits(clean_session: bool, has_username: bool, has_password: bool)
    ensures
        (spec_connect_flags(clean_session, has_username, has_password) & 0x02 != 0)
            == clean_session,
        (spec_connect_flags(clean_session, has_username, has_password) & 0x80 != 0)
            == has_username,
        (spec_connect_flags(clean_session, has_username, has_password) & 0x40 != 0)
            == has_password,
{
    let a: u8 = if clean_session { 0x02u8 } else { 0u8 };
    let b: u8 = if has_username { 0x80u8 } else { 0u8 };
    let c: u8 = if has_password { 0x40u8 } else { 0u8 };
    assert((a == 0 || a == 0x02) && (b == 0 || b == 0x80) && (c == 0 || c == 0x40) ==> ((a | b | c)
        & 0x02 == a && (a | b | c) & 0x80 == b && (a | b | c) & 0x40 == c)) by (bit_vector);
}

/// The level and the retain flag of a publish can be read back from the
/// flags byte.
pub proof fn lemma_publish_flags_bits(qos: QoS, retain: bool)
    ensures
        (spec_publish_flags(qos, retain) >> 1) & 0x03 == qos.spec_byte(),
        (spec_publish_flags(qos, retain) & 0x01 != 0) == retain,
{
    let q = qos.spec_byte();
    let r: u8 = if retain { 0x01u8 } else { 0u8 };
    assert(q <= 2 && r <= 1 ==> ((((q << 1) | r) >> 1) & 0x03 == q && ((q << 1) | r) & 0x01 == r))
        by (bit_vector);
}

/// Whether `buf` starts with the fields of `c`, one behind the other.
pub open spec fn spec_holds_connect(buf: Seq<u8>, c: ConnectView) -> bool {
    let after_id = 5 + encode_utf8(c.client_id).len() as int;
    let after_user = after_id + spec_opt_string_wire(c.username).len() as int;
    &&& buf.len() >= 3
    &&& buf[0] == spec_connect_flags(c.clean_session, c.username is Some, c.password is Some)
    &&& spec_holds_at(buf, 1, spec_u16_be(c.keep_alive))
    &&& spec_holds_at(buf, 3, spec_string_wire(c.client_id))
    &&& spec_holds_at(buf, after_id, spec_opt_string_wire(c.username))
    &&& spec_holds_at(buf, after_user, spec_opt_bytes_wire(c.password))
}

/// A buffer that starts with the payload of a connect holds each of its
/// fields where the layout puts it.
proof fn lemma_connect_layout(c: ConnectView, tail: Seq<u8>)
    ensures
        spec_holds_connect(spec_connect_wire(c) + tail, c),
{
    let flags = spec_connect_flags(c.clean_session, c.username is Some, c.password is Some);
    let id = spec_string_wire(c.client_id);
    let user = spec_opt_string_wire(c.username);
    let pass = spec_opt_bytes_wire(c.password);
    let buf = spec_connect_wire(c) + tail;
    assert(buf =~= (seq![flags] + (spec_u16_be(c.keep_alive) + (id + (user + (pass + tail))))));
    assert(spec_holds_at(buf, 0, buf)) by {
        assert(buf.subrange(0, buf.len() as int) =~= buf);
    }
    lemma_holds_at_split(
        buf,
        0,
        seq![flags],
        spec_u16_be(c.keep_alive) + (id + (user + (pass + tail))),
    );
    lemma_holds_at_split(buf, 1, spec_u16_be(c.keep_alive), id + (user + (pass + tail)));
    lemma_holds_at_split(buf, 3, id, user + (pass + tail));
    let after_id: int = 3 + id.len() as int;
    lemma_holds_at_split(buf, after_id, user, pass + tail);
    let after_user: int = after_id + user.len() as int;
    lemma_holds_at_split(buf, after_user, pass, tail);
    assert(buf[0] == flags);
    assert(id.len() == 2 + encode_utf8(c.client_id).len());
}

/// What reading the optional username yields where the buffer holds it.
proof fn lemma_read_opt_string_at(buf: Seq<u8>, offset: int, s: Option<Seq<char>>)
    requires
        s matches Some(u) ==> spec_string_fits(u),
        spec_holds_at(buf, offset, spec_opt_string_wire(s)),
    ensures
        spec_read_opt_string(s is Some, buf, offset) == Ok::<_, DecodeError>(
            (s, offset + spec_opt_string_wire(s).len()),
        ),
{
    if let Some(u) = s {
        lemma_read_string_at(buf, offset, u);
    }
}

/// What reading the optional password yields where the buffer holds it.
proof fn lemma_read_opt_bytes_at(buf: Seq<u8>, offset: int, b: Option<Seq<u8>>)
    requires
        b matches Some(p) ==> p.len() <= MAX_FIELD_LEN,
        spec_holds_at(buf, offset, spec_opt_bytes_wire(b)),
    ensures
        spec_read_opt_bytes(b is Some, buf, offset) == Ok::<_, DecodeError>(
            (b, offset + spec_opt_bytes_wire(b).len()),
        ),
{
    if let Some(p) = b {
        lemma_read_bytes_at(buf, offset, p);
    }
}

/// Decoding a buffer that starts with the fields of a connect gives the
/// connect.
proof fn lemma_connect_decode_at(buf: Seq<u8>, c: ConnectView)
    requires
        spec_connect_encodable(c),
        spec_holds_connect(buf, c),
    ensures
        spec_connect_decode(buf) == Ok::<_, DecodeError>(c),
{
    let after_id: int = 5 + encode_utf8(c.client_id).len() as int;
    let after_user: int = after_id + spec_opt_string_wire(c.username).len() as int;
    lemma_connect_flags_bits(c.clean_session, c.username is Some, c.password is Some);
    lemma_read_u16_at(buf, 1, c.keep_alive);
    lemma_read_string_at(buf, 3, c.client_id);
    lemma_read_opt_string_at(buf, after_id, c.username);
    lemma_read_opt_bytes_at(buf, after_user, c.password);
    assert(spec_read_u16(buf, 1) == Ok::<_, DecodeError>(c.keep_alive));
    assert(spec_read_string(buf, 3) == Ok::<_, DecodeError>((c.client_id, after_id)));
    assert(spec_read_opt_string(buf[0] & 0x80 != 0, buf, after_id) == Ok::<_, DecodeError>(
        (c.username, after_user),
    ));
    assert(spec_read_opt_bytes(buf[0] & 0x40 != 0, buf, after_user) == Ok::<_, DecodeError>(
        (c.password, after_user + spec_opt_bytes_wire(c.password).len()),
    ));
}

/// Decoding the payload of a connect gives the connect back, whatever
/// follows the payload.
pub proof fn lemma_connect_roundtrip(c: ConnectView, tail: Seq<u8>)
    requires
        spec_connect_encodable(c),
    ensures
        spec_connect_decode(spec_connect_wire(c) + tail) == Ok::<_, DecodeError>(c),
{
    lemma_connect_layout(c, tail);
    lemma_connect_decode_at(spec_connect_wire(c) + tail, c);
}

/// Decoding the payload of a connect acknowledgement gives the
/// acknowledgement back, whatever follows the payload.
pub proof fn lemma_connack_roundtrip(a: ConnAck, tail: Seq<u8>)
    ensures
        spec_connack_decode(spec_connack_wire(a) + tail) == Ok::<_, DecodeError>(a),
{
    lemma_enum_bytes_roundtrip();
}

/// Decoding the payload of a publish gives the publish back: level, retain
/// flag, topic and every byte of the message.
pub proof fn lemma_publish_roundtrip(p: PublishView)
    requires
        spec_string_fits(p.topic),
    ensures
        spec_publish_decode(spec_publish_wire(p)) == Ok::<_, DecodeError>(p),
{
    let flags = spec_publish_flags(p.qos, p.retain);
    let topic = spec_string_wire(p.topic);
    let buf = spec_publish_wire(p);
    assert(buf =~= seq![flags] + (topic + p.payload));
    assert(spec_holds_at(buf, 0, buf)) by {
        assert(buf.subrange(0, buf.len() as int) =~= buf);
    }
    lemma_holds_at_split(buf, 0, seq![flags], topic + p.payload);
    lemma_holds_at_split(buf, 1, topic, p.payload);
    lemma_read_string_at(buf, 1, p.topic);
    assert(buf[0] == flags);
    lemma_publish_flags_bits(p.qos, p.retain);
    lemma_enum_bytes_roundtrip();
    assert(buf.subrange(1 + topic.len() as int, buf.len() as int) =~= p.payload);
}

/// Reading as many filters as were written gives them back in order.
pub proof fn lemma_read_filters_at(buf: Seq<u8>, offset: int, filters: Seq<FilterView>)
    requires
        forall|i: int| 0 <= i < filters.len() ==> spec_string_fits(#[trigger] filters[i].topic),
        spec_holds_at(buf, offset, spec_filters_wire(filters)),
    ensures
        spec_read_filters(buf, offset, filters.len()) == Ok::<_, DecodeError>(filters),
    decreases filters.len(),
{
    if filters.len() > 0 {
        let f = filters[0];
        let rest = filters.drop_first();
        let topic = spec_string_wire(f.topic);
        assert(spec_filters_wire(filters) =~= topic + (seq![f.qos.spec_byte()] + spec_filters_wire(
            rest,
        )));
        lemma_holds_at_split(buf, offset, topic, seq![f.qos.spec_byte()] + spec_filters_wire(rest));
        let after_topic: int = offset + topic.len() as int;
        lemma_holds_at_split(buf, after_topic, seq![f.qos.spec_byte()], spec_filters_wire(rest));
        lemma_read_string_at(buf, offset, f.topic);
        assert(buf[after_topic] == buf.subrange(after_topic, after_topic + 1)[0]);
        assert(buf[after_topic] == f.qos.spec_byte());
        lemma_enum_bytes_roundtrip();
        assert forall|i: int| 0 <= i < rest.len() implies spec_string_fits(
            #[trigger] rest[i].topic,
        ) by {
            assert(rest[i] == filters[i + 1]);
        }
        lemma_read_filters_at(buf, after_topic + 1, rest);
        assert(seq![f] + rest =~= filters);
    } else {
        assert(filters =~= Seq::empty());
    }
}

/// Decoding the payload of a subscribe gives the filters back in their
/// order, whatever follows the payload.
pub proof fn lemma_subscribe_roundtrip(filters: Seq<FilterView>, tail: Seq<u8>)
    requires
        spec_subscribe_encodable(filters),
    ensures
        spec_subscribe_decode(spec_subscribe_wire(filters) + tail) == Ok::<_, DecodeError>(filters),
{
    let body = spec_filters_wire(filters);
    let buf = spec_subscribe_wire(filters) + tail;
    assert(buf =~= seq![filters.len() as u8] + (body + tail));
    assert(spec_holds_at(buf, 0, buf)) by {
        assert(buf.subrange(0, buf.len() as int) =~= buf);
    }
    lemma_holds_at_split(buf, 0, seq![filters.len() as u8], body + tail);
    lemma_holds_at_split(buf, 1, body, tail);
    lemma_read_filters_at(buf, 1, filters);
}

/// Reading as many return codes as were written gives them back in order.
pub proof fn lemma_read_codes_at(buf: Seq<u8>, offset: int, codes: Seq<SubAckReturnCode>)
    requires
        spec_holds_at(buf, offset, spec_codes_wire(codes)),
    ensures
        spec_read_codes(buf, offset, codes.len()) == Ok::<_, DecodeError>(codes),
    decreases codes.len(),
{
    if codes.len() > 0 {
        let rest = codes.drop_first();
        assert(spec_codes_wire(codes) =~= seq![codes[0].spec_byte()] + spec_codes_wire(rest));
        lemma_holds_at_split(buf, offset, seq![codes[0].spec_byte()], spec_codes_wire(rest));
        assert(buf[offset] == buf.subrange(offset, offset + 1)[0]);
        lemma_enum_bytes_roundtrip();
        lemma_read_codes_at(buf, offset + 1, rest);
        assert(seq![codes[0]] + rest =~= codes);
    } else {
        assert(codes =~= Seq::empty());
    }
}

/// Decoding the payload of a subscribe acknowledgement gives the codes back
/// in their order, whatever follows the payload.
pub proof fn lemma_suback_roundtrip(codes: Seq<SubAckReturnCode>, tail: Seq<u8>)
    requires
        codes.len() <= MAX_COUNT,
    ensures
        spec_suback_decode(spec_suback_wire(codes) + tail) == Ok::<_, DecodeError>(codes),
{
    let body = spec_codes_wire(codes);
    let buf = spec_suback_wire(codes) + tail;
    assert(buf =~= seq![codes.len() as u8] + (body + tail));
    assert(spec_holds_at(buf, 0, buf)) by {
        assert(buf.subrange(0, buf.len() as int) =~= buf);
    }
    lemma_holds_at_split(buf, 0, seq![codes.len() as u8], body + tail);
    lemma_holds_at_split(buf, 1, body, tail);
    lemma_read_codes_at(buf, 1, codes);
}

/// Decoding a payload as the kind of the packet that wrote it gives the
/// packet back.
pub proof fn lemma_packet_roundtrip(p: PacketView)
    requires
        p.encodable(),
    ensures
        PacketView::decode(p.msg_type(), p.wire()) == Ok::<_, DecodeError>(p),
{
    let empty = Seq::<u8>::empty();
    assert(p.wire() + empty =~= p.wire());
    match p {
        PacketView::Connect(c) => lemma_connect_roundtrip(c, empty),
        PacketView::ConnAck(a) => lemma_connack_roundtrip(a, empty),
        PacketView::Publish(p) => lemma_publish_roundtrip(p),
        PacketView::Subscribe(s) => lemma_subscribe_roundtrip(s, empty),
        PacketView::SubAck(s) => lemma_suback_roundtrip(s, empty),
        _ => {},
    }
}

/// Whether `buf` starts with the header of `frame` and with `payload`
/// behind it.
pub open spec fn spec_holds_frame(buf: Seq<u8>, frame: FrameView, payload: Seq<u8>) -> bool {
    &&& buf.len() >= 4 + payload.len()
    &&& buf[0] == (4 + payload.len()) as u8
    &&& buf[1] == frame.packet.msg_type().spec_byte()
    &&& spec_holds_at(buf, 2, spec_u16_be(frame.msg_id))
    &&& buf.subrange(4, 4 + payload.len() as int) == payload
}

/// A buffer that starts with the bytes of a frame holds its header and
/// its payload where the layout puts them.
proof fn lemma_frame_layout(frame: FrameView, tail: Seq<u8>)
    ensures
        spec_holds_frame(frame.wire() + tail, frame, frame.packet.wire()),
{
    let payload = frame.packet.wire();
    let buf = frame.wire() + tail;
    let head = seq![frame.total_len() as u8, frame.packet.msg_type().spec_byte()];
    assert(buf =~= head + (spec_u16_be(frame.msg_id) + (payload + tail)));
    assert(spec_holds_at(buf, 0, buf)) by {
        assert(buf.subrange(0, buf.len() as int) =~= buf);
    }
    lemma_holds_at_split(buf, 0, head, spec_u16_be(frame.msg_id) + (payload + tail));
    lemma_holds_at_split(buf, 2, spec_u16_be(frame.msg_id), payload + tail);
    lemma_holds_at_split(buf, 4, payload, tail);
    assert(buf[0] == head[0]);
    assert(buf[1] == head[1]);
}

/// Decoding a buffer that starts with the header and the payload of a
/// frame gives the frame, if decoding the payload gives its packet.
proof fn lemma_frame_decode_at(buf: Seq<u8>, frame: FrameView)
    requires
        frame.fits(),
        spec_holds_frame(buf, frame, frame.packet.wire()),
        PacketView::decode(frame.packet.msg_type(), frame.packet.wire()) == Ok::<_, DecodeError>(
            frame.packet,
        ),
    ensures
        FrameView::decode(buf) == Ok::<_, DecodeError>(frame),
{
    lemma_read_u16_at(buf, 2, frame.msg_id);
    lemma_enum_bytes_roundtrip();
    assert(spec_read_u16(buf, 2) == Ok::<_, DecodeError>(spec_u16_from_be(buf[2], buf[3])));
    assert(buf[0] as int == 4 + frame.packet.wire().len());
    assert(MessageType::spec_from_byte(buf[1]) == Ok::<_, DecodeError>(frame.packet.msg_type()));
}

/// The round trip: decoding the bytes of a frame that fits its length byte
/// gives back the same sequence identifier and the same packet, also when
/// the buffer goes on behind the frame.
pub proof fn lemma_frame_roundtrip(frame: FrameView, tail: Seq<u8>)
    requires
        frame.fits(),
    ensures
        FrameView::decode(frame.wire() + tail) == Ok::<_, DecodeError>(frame),
{
    lemma_frame_layout(frame, tail);
    lemma_fits_encodable(frame);
    lemma_packet_roundtrip(frame.packet);
    lemma_frame_decode_at(frame.wire() + tail, frame);
}

/// The length of a frame on the wire is the header and the payload.
pub proof fn lemma_frame_wire_len(frame: FrameView)
    ensures
        frame.wire().len() == frame.total_len(),
{
}

/// A publish whose flags byte carries the level 3 is rejected with that
/// value, whatever else the payload holds.
pub proof fn lemma_publish_rejects_unknown_level(buf: Seq<u8>)
    requires
        buf.len() > 0,
        (buf[0] >> 1) & 0x03 > 2,
    ensures
        spec_publish_decode(buf) == Err::<PublishView, _>(
            DecodeError::InvalidQoS((buf[0] >> 1) & 0x03),
        ),
{
}

/// A connect acknowledgement whose second byte names no return code is
/// rejected with that byte.
pub proof fn lemma_connack_rejects_unknown_code(buf: Seq<u8>)
    requires
        buf.len() >= 2,
        buf[1] > 5,
    ensures
        spec_connack_decode(buf) == Err::<ConnAck, _>(DecodeError::InvalidReturnCode(buf[1])),
{
}

/// Reading filters stops at the first level byte that names no level: well
/// formed filters in front of it do not hide it.
pub proof fn lemma_read_filters_rejects_unknown_level(
    buf: Seq<u8>,
    offset: int,
    good: Seq<FilterView>,
    topic: Seq<char>,
    bad: u8,
    count: nat,
)
    requires
        forall|i: int| 0 <= i < good.len() ==> spec_string_fits(#[trigger] good[i].topic),
        spec_string_fits(topic),
        bad > 2,
        good.len() < count,
        spec_holds_at(buf, offset, spec_filters_wire(good) + spec_string_wire(topic) + seq![bad]),
    ensures
        spec_read_filters(buf, offset, count) == Err::<Seq<FilterView>, _>(
            DecodeError::InvalidQoS(bad),
        ),
    decreases good.len(),
{
    let last = spec_string_wire(topic) + seq![bad];
    if good.len() == 0 {
        assert(spec_filters_wire(good) + spec_string_wire(topic) + seq![bad] =~= spec_string_wire(
            topic,
        ) + seq![bad]);
        lemma_holds_at_split(buf, offset, spec_string_wire(topic), seq![bad]);
        lemma_read_string_at(buf, offset, topic);
        let after_topic: int = offset + spec_string_wire(topic).len() as int;
        assert(buf[after_topic] == buf.subrange(after_topic, after_topic + 1)[0]);
    } else {
        let f = good[0];
        let rest = good.drop_first();
        let head = spec_string_wire(f.topic);
        let level = seq![f.qos.spec_byte()];
        let then = spec_filters_wire(rest) + spec_string_wire(topic) + seq![bad];
        assert(spec_filters_wire(good) + spec_string_wire(topic) + seq![bad] =~= head + (level
            + then));
        lemma_holds_at_split(buf, offset, head, level + then);
        let after_topic: int = offset + head.len() as int;
        lemma_holds_at_split(buf, after_topic, level, then);
        lemma_read_string_at(buf, offset, f.topic);
        assert(buf[after_topic] == buf.subrange(after_topic, after_topic + 1)[0]);
        lemma_enum_bytes_roundtrip();
        assert forall|i: int| 0 <= i < rest.len() implies spec_string_fits(
            #[trigger] rest[i].topic,
        ) by {
            assert(rest[i] == good[i + 1]);
        }
        lemma_read_filters_rejects_unknown_level(
            buf,
            after_topic + 1,
            rest,
            topic,
            bad,
            (count - 1) as nat,
        );
    }
}

/// A subscribe in which a filter carries a level byte that names no level
/// is rejected with that byte, however many well formed filters precede it
/// and whatever follows it.
pub proof fn lemma_subscribe_rejects_unknown_level(
    count: u8,
    good: Seq<FilterView>,
    topic: Seq<char>,
    bad: u8,
    tail: Seq<u8>,
)
    requires
        forall|i: int| 0 <= i < good.len() ==> spec_string_fits(#[trigger] good[i].topic),
        spec_string_fits(topic),
        bad > 2,
        good.len() < count,
    ensures
        spec_subscribe_decode(
            seq![count] + spec_filters_wire(good) + spec_string_wire(topic) + seq![bad] + tail,
        ) == Err::<Seq<FilterView>, _>(DecodeError::InvalidQoS(bad)),
{
    let body = spec_filters_wire(good) + spec_string_wire(topic) + seq![bad];
    let buf = seq![count] + spec_filters_wire(good) + spec_string_wire(topic) + seq![bad] + tail;
    assert(buf =~= seq![count] + (body + tail));
    assert(spec_holds_at(buf, 0, buf)) by {
        assert(buf.subrange(0, buf.len() as int) =~= buf);
    }
    lemma_holds_at_split(buf, 0, seq![count], body + tail);
    lemma_holds_at_split(buf, 1, body, tail);
    lemma_read_filters_rejects_unknown_level(buf, 1, good, topic, bad, count as nat);
}

/// Reading return codes stops at the first byte that names no code: codes
/// in front of it do not hide it.
pub proof fn lemma_read_codes_rejects_unknown_code(
    buf: Seq<u8>,
    offset: int,
    good: Seq<SubAckReturnCode>,
    bad: u8,
    count: nat,
)
    requires
        bad > 2 && bad != 0x80,
        good.len() < count,
        spec_holds_at(buf, offset, spec_codes_wire(good) + seq![bad]),
    ensures
        spec_read_codes(buf, offset, count) == Err::<Seq<SubAckReturnCode>, _>(
            DecodeError::InvalidReturnCode(bad),
        ),
    decreases good.len(),
{
    if good.len() == 0 {
        assert(spec_codes_wire(good) + seq![bad] =~= seq![bad]);
        assert(buf[offset] == buf.subrange(offset, offset + 1)[0]);
    } else {
        let rest = good.drop_first();
        assert(spec_codes_wire(good) + seq![bad] =~= seq![good[0].spec_byte()] + (spec_codes_wire(
            rest,
        ) + seq![bad]));
        lemma_holds_at_split(
            buf,
            offset,
            seq![good[0].spec_byte()],
            spec_codes_wire(rest) + seq![bad],
        );
        assert(buf[offset] == buf.subrange(offset, offset + 1)[0]);
        lemma_enum_bytes_roundtrip();
        lemma_read_codes_rejects_unknown_code(buf, offset + 1, rest, bad, (count - 1) as nat);
    }
}

/// A subscribe acknowledgement that holds all the bytes it announces, one
/// of which names no return code, is rejected with the first such byte.
pub proof fn lemma_suback_rejects_unknown_code(
    count: u8,
    good: Seq<SubAckReturnCode>,
    bad: u8,
    tail: Seq<u8>,
)
    requires
        bad > 2 && bad != 0x80,
        good.len() < count,
        good.len() + 1 + tail.len() >= count,
    ensures
        spec_suback_decode(seq![count] + spec_codes_wire(good) + seq![bad] + tail) == Err::<
            Seq<SubAckReturnCode>,
            _,
        >(DecodeError::InvalidReturnCode(bad)),
{
    let body = spec_codes_wire(good) + seq![bad];
    let buf = seq![count] + spec_codes_wire(good) + seq![bad] + tail;
    assert(buf =~= seq![count] + (body + tail));
    assert(spec_holds_at(buf, 0, buf)) by {
        assert(buf.subrange(0, buf.len() as int) =~= buf);
    }
    lemma_holds_at_split(buf, 0, seq![count], body + tail);
    lemma_holds_at_split(buf, 1, body, tail);
    lemma_read_codes_rejects_unknown_code(buf, 1, good, bad, count as nat);
}

} // verus!
