//! How a payload is shown in the log: as a decoded frame, as text, or as
//! hexadecimal digits.

use vstd::prelude::*;
use vstd::utf8::{decode_utf8, encode_utf8_decode_utf8, valid_utf8};
use crate::mqtt::frame::{FrameView, Packet, PacketView, UdpFrame};
use crate::mqtt::packets::{FilterView, Publish, PublishView, Subscribe};
use crate::mqtt::types::{ConnectReturnCode, QoS, SubAckReturnCode};
use crate::mqtt::wire::str_from_utf8;
use crate::text::{
    chars_of, push_chars, push_decimal, push_hex_byte, push_text, shorten, spec_decimal,
    spec_hex_byte, spec_shorten, string_of,
};
use crate::tui::InputMode;

verus! {

/// The most bytes that are shown in hexadecimal.
pub const HEX_SHOWN: usize = 24;

/// The bytes as two hexadecimal digits each, in lower case, with one space
/// between each two bytes.
pub open spec fn spec_hex_line(bytes: Seq<u8>) -> Seq<char>
    decreases bytes.len(),
{
    if bytes.len() == 0 {
        Seq::empty()
    } else if bytes.len() == 1 {
        spec_hex_byte(bytes[0])
    } else {
        spec_hex_line(bytes.drop_last()) + " "@ + spec_hex_byte(bytes.last())
    }
}

/// A payload in hexadecimal: its first 24 bytes, and three dots if it has
/// more.
pub open spec fn spec_format_hex(data: Seq<u8>) -> Seq<char> {
    if data.len() > HEX_SHOWN {
        spec_hex_line(data.take(HEX_SHOWN as int)) + "..."@
    } else {
        spec_hex_line(data)
    }
}

/// A payload as text, if it is valid UTF-8: as it is up to 50 bytes, else
/// the whole characters within its first 47 bytes and three dots.
pub open spec fn spec_format_text(data: Seq<u8>) -> Option<Seq<char>> {
    if valid_utf8(data) {
        Some(spec_shorten(decode_utf8(data), 50, 47))
    } else {
        None
    }
}

/// A payload in hexadecimal.
pub fn format_hex(data: &[u8]) -> (text: String)
    ensures
        text@ == spec_format_hex(data@),
{
    let shown = if data.len() > HEX_SHOWN {
        HEX_SHOWN
    } else {
        data.len()
    };
    let mut out: Vec<char> = Vec::new();
    let mut i: usize = 0;
    assert(data@.take(0) =~= Seq::<u8>::empty());
    while i < shown
        invariant
            i <= shown <= data@.len(),
            out@ == spec_hex_line(data@.take(i as int)),
        decreases shown - i,
    {
        let ghost before = out@;
        if i > 0 {
            push_text(&mut out, " ");
        }
        push_hex_byte(&mut out, data[i], false);
        proof {
            let front = data@.take(i + 1);
            assert(front.drop_last() =~= data@.take(i as int));
            assert(front.last() == data@[i as int]);
            if i == 0 {
                assert(before =~= Seq::<char>::empty());
            }
            assert(out@ =~= spec_hex_line(front));
        }
        i += 1;
    }
    if data.len() > HEX_SHOWN {
        push_text(&mut out, "...");
    } else {
        assert(data@.take(data@.len() as int) =~= data@);
    }
    string_of(out.as_slice())
}

/// A payload as text, if it is valid UTF-8.
pub fn format_text(data: &[u8]) -> (r: Option<String>)
    ensures
        match r {
            Some(text) => spec_format_text(data@) == Some(text@),
            None => spec_format_text(data@) is None,
        },
{
    match str_from_utf8(data) {
        Some(s) => {
            proof {
                encode_utf8_decode_utf8(s@);
            }
            Some(shorten(s, 50, 47))
        },
        None => None,
    }
}

/// The name of a level.
pub open spec fn spec_qos_name(qos: QoS) -> Seq<char> {
    match qos {
        QoS::AtMostOnce => "AtMostOnce"@,
        QoS::AtLeastOnce => "AtLeastOnce"@,
        QoS::ExactlyOnce => "ExactlyOnce"@,
    }
}

/// The name of a connect return code.
pub open spec fn spec_connect_code_name(code: ConnectReturnCode) -> Seq<char> {
    match code {
        ConnectReturnCode::Accepted => "Accepted"@,
        ConnectReturnCode::UnacceptableProtocol => "UnacceptableProtocol"@,
        ConnectReturnCode::IdentifierRejected => "IdentifierRejected"@,
        ConnectReturnCode::ServerUnavailable => "ServerUnavailable"@,
        ConnectReturnCode::BadCredentials => "BadCredentials"@,
        ConnectReturnCode::NotAuthorized => "NotAuthorized"@,
    }
}

/// The name of a subscribe return code.
pub open spec fn spec_suback_code_name(code: SubAckReturnCode) -> Seq<char> {
    match code {
        SubAckReturnCode::SuccessQoS0 => "SuccessQoS0"@,
        SubAckReturnCode::SuccessQoS1 => "SuccessQoS1"@,
        SubAckReturnCode::SuccessQoS2 => "SuccessQoS2"@,
        SubAckReturnCode::Failure => "Failure"@,
    }
}

/// The name of a level.
pub fn qos_name(qos: QoS) -> (name: &'static str)
    ensures
        name@ == spec_qos_name(qos),
{
    match qos {
        QoS::AtMostOnce => "AtMostOnce",
        QoS::AtLeastOnce => "AtLeastOnce",
        QoS::ExactlyOnce => "ExactlyOnce",
    }
}

/// The name of a connect return code.
pub fn connect_code_name(code: ConnectReturnCode) -> (name: &'static str)
    ensures
        name@ == spec_connect_code_name(code),
{
    match code {
        ConnectReturnCode::Accepted => "Accepted",
        ConnectReturnCode::UnacceptableProtocol => "UnacceptableProtocol",
        ConnectReturnCode::IdentifierRejected => "IdentifierRejected",
        ConnectReturnCode::ServerUnavailable => "ServerUnavailable",
        ConnectReturnCode::BadCredentials => "BadCredentials",
        ConnectReturnCode::NotAuthorized => "NotAuthorized",
    }
}

/// The name of a subscribe return code.
pub fn suback_code_name(code: SubAckReturnCode) -> (name: &'static str)
    ensures
        name@ == spec_suback_code_name(code),
{
    match code {
        SubAckReturnCode::SuccessQoS0 => "SuccessQoS0",
        SubAckReturnCode::SuccessQoS1 => "SuccessQoS1",
        SubAckReturnCode::SuccessQoS2 => "SuccessQoS2",
        SubAckReturnCode::Failure => "Failure",
    }
}

/// The texts one behind the other, with a comma and a space between each
/// two.
pub open spec fn spec_listed(items: Seq<Seq<char>>) -> Seq<char>
    decreases items.len(),
{
    if items.len() == 0 {
        Seq::empty()
    } else if items.len() == 1 {
        items[0]
    } else {
        spec_listed(items.drop_last()) + ", "@ + items.last()
    }
}

/// The topics of the filters, in order.
pub open spec fn spec_topics(filters: Seq<FilterView>) -> Seq<Seq<char>> {
    Seq::new(filters.len(), |i: int| filters[i].topic)
}

/// The names of the return codes, in order.
pub open spec fn spec_code_names(codes: Seq<SubAckReturnCode>) -> Seq<Seq<char>> {
    Seq::new(codes.len(), |i: int| spec_suback_code_name(codes[i]))
}

/// The text of a byte string in which every run of bytes that is not
/// valid UTF-8 has become the replacement character.
pub uninterp spec fn spec_lossy_text(bytes: Seq<u8>) -> Seq<char>;

/// `String::from_utf8_lossy`: the bytes as text, with the replacement
/// character in place of what is not valid UTF-8. The contract names that
/// text, and says that it is the decoded text where all of it is valid.
#[verifier::external_body]
fn lossy_text(bytes: &[u8]) -> (text: String)
    ensures
        text@ == spec_lossy_text(bytes@),
        valid_utf8(bytes@) ==> text@ == decode_utf8(bytes@),
{
    String::from_utf8_lossy(bytes).into_owned()
}

/// A publish in one line, with `excerpt` as the text of its payload: the
/// excerpt is cut to the whole characters within its first 27 bytes, and
/// three dots, if it takes more than 30 bytes.
pub open spec fn spec_publish_text(p: PublishView, excerpt: Seq<char>) -> Seq<char> {
    "PUBLISH "@ + p.topic + " qos="@ + spec_qos_name(p.qos) + " \""@ + spec_shorten(
        excerpt,
        30,
        27,
    ) + "\""@
}

/// A packet in one line.
pub open spec fn spec_packet_text(packet: PacketView) -> Seq<char> {
    match packet {
        PacketView::Connect(c) => "CONNECT client="@ + c.client_id + " ka="@ + spec_decimal(
            c.keep_alive as nat,
        ),
        PacketView::ConnAck(a) => "CONNACK "@ + spec_connect_code_name(a.return_code)
            + " session="@ + (if a.session_present {
            "true"@
        } else {
            "false"@
        }),
        PacketView::Publish(p) => spec_publish_text(p, spec_lossy_text(p.payload)),
        PacketView::PubAck(_) => "PUBACK"@,
        PacketView::Subscribe(s) => "SUBSCRIBE ["@ + spec_listed(spec_topics(s)) + "]"@,
        PacketView::SubAck(s) => "SUBACK ["@ + spec_listed(spec_code_names(s)) + "]"@,
        PacketView::PingReq(_) => "PING"@,
        PacketView::PingResp(_) => "PONG"@,
        PacketView::Disconnect(_) => "DISCONNECT"@,
    }
}

/// A frame in one line: its sequence identifier, then its packet.
pub open spec fn spec_frame_text(frame: FrameView) -> Seq<char> {
    "#"@ + spec_decimal(frame.msg_id as nat) + " "@ + spec_packet_text(frame.packet)
}

/// A payload as a frame in one line, if it decodes as a frame.
pub open spec fn spec_format_mqtt_frame(data: Seq<u8>) -> Option<Seq<char>> {
    match FrameView::decode(data) {
        Ok(frame) => Some(spec_frame_text(frame)),
        Err(_) => None,
    }
}

/// Appends a separator in front of every item but the first.
fn push_separator(out: &mut Vec<char>, index: usize)
    ensures
        final(out)@ == old(out)@ + (if index > 0 {
            ", "@
        } else {
            Seq::<char>::empty()
        }),
{
    if index > 0 {
        push_text(out, ", ");
    } else {
        assert(out@ =~= old(out)@ + Seq::<char>::empty());
    }
}

/// Appends the topics of the filters with a comma and a space between
/// each two.
pub fn push_topics(out: &mut Vec<char>, subscribe: &Subscribe)
    ensures
        final(out)@ == old(out)@ + spec_listed(spec_topics(subscribe@)),
{
    let ghost items = spec_topics(subscribe@);
    let mut i: usize = 0;
    assert(items.take(0) =~= Seq::<Seq<char>>::empty());
    assert(out@ =~= old(out)@ + spec_listed(items.take(0)));
    while i < subscribe.filters.len()
        invariant
            i <= subscribe.filters@.len(),
            items == spec_topics(subscribe@),
            out@ == old(out)@ + spec_listed(items.take(i as int)),
        decreases subscribe.filters@.len() - i,
    {
        let ghost before = spec_listed(items.take(i as int));
        push_separator(out, i);
        let topic = chars_of(subscribe.filters[i].topic.as_str());
        push_chars(out, topic.as_slice());
        proof {
            let front = items.take(i + 1);
            assert(front.drop_last() =~= items.take(i as int));
            assert(front.last() == topic@);
            if i == 0 {
                assert(before =~= Seq::<char>::empty());
            }
            assert(out@ =~= old(out)@ + spec_listed(front));
        }
        i += 1;
    }
    assert(items.take(items.len() as int) =~= items);
}

/// Appends the names of the return codes with a comma and a space between
/// each two.
pub fn push_code_names(out: &mut Vec<char>, codes: &Vec<SubAckReturnCode>)
    ensures
        final(out)@ == old(out)@ + spec_listed(spec_code_names(codes@)),
{
    let ghost items = spec_code_names(codes@);
    let mut i: usize = 0;
    assert(items.take(0) =~= Seq::<Seq<char>>::empty());
    assert(out@ =~= old(out)@ + spec_listed(items.take(0)));
    while i < codes.len()
        invariant
            i <= codes@.len(),
            items == spec_code_names(codes@),
            out@ == old(out)@ + spec_listed(items.take(i as int)),
        decreases codes@.len() - i,
    {
        let ghost before = spec_listed(items.take(i as int));
        push_separator(out, i);
        let name = suback_code_name(codes[i]);
        push_text(out, name);
        proof {
            let front = items.take(i + 1);
            assert(front.drop_last() =~= items.take(i as int));
            assert(front.last() == name@);
            if i == 0 {
                assert(before =~= Seq::<char>::empty());
            }
            assert(out@ =~= old(out)@ + spec_listed(front));
        }
        i += 1;
    }
    assert(items.take(items.len() as int) =~= items);
}

/// Appends a publish in one line, with `excerpt` as the text of its
/// payload.
pub fn push_publish_text(out: &mut Vec<char>, publish: &Publish, excerpt: &str)
    ensures
        final(out)@ == old(out)@ + spec_publish_text(publish@, excerpt@),
{
    push_text(out, "PUBLISH ");
    push_text(out, publish.topic.as_str());
    push_text(out, " qos=");
    push_text(out, qos_name(publish.qos));
    push_text(out, " \"");
    let shown = shorten(excerpt, 30, 27);
    push_text(out, shown.as_str());
    push_text(out, "\"");
    assert(out@ =~= old(out)@ + spec_publish_text(publish@, excerpt@));
}

/// Appends a packet in one line.
pub fn push_packet_text(out: &mut Vec<char>, packet: &Packet)
    ensures
        final(out)@ == old(out)@ + spec_packet_text(packet@),
{
    match packet {
        Packet::Connect(c) => {
            push_text(out, "CONNECT client=");
            push_text(out, c.client_id.as_str());
            push_text(out, " ka=");
            push_decimal(out, c.keep_alive as usize);
        },
        Packet::ConnAck(a) => {
            push_text(out, "CONNACK ");
            push_text(out, connect_code_name(a.return_code));
            push_text(out, " session=");
            push_text(
                out,
                if a.session_present {
                    "true"
                } else {
                    "false"
                },
            );
        },
        Packet::Publish(p) => {
            let excerpt = lossy_text(p.payload.as_slice());
            push_publish_text(out, p, excerpt.as_str());
        },
        Packet::PubAck(_) => {
            push_text(out, "PUBACK");
        },
        Packet::Subscribe(s) => {
            push_text(out, "SUBSCRIBE [");
            push_topics(out, s);
            push_text(out, "]");
        },
        Packet::SubAck(s) => {
            push_text(out, "SUBACK [");
            push_code_names(out, &s.return_codes);
            push_text(out, "]");
        },
        Packet::PingReq(_) => {
            push_text(out, "PING");
        },
        Packet::PingResp(_) => {
            push_text(out, "PONG");
        },
        Packet::Disconnect(_) => {
            push_text(out, "DISCONNECT");
        },
    }
    assert(out@ =~= old(out)@ + spec_packet_text(packet@));
}

/// A payload as a frame in one line, if it decodes as a frame.
pub fn format_mqtt_frame(data: &[u8]) -> (r: Option<String>)
    ensures
        match r {
            Some(text) => spec_format_mqtt_frame(data@) == Some(text@),
            None => spec_format_mqtt_frame(data@) is None,
        },
{
    let frame = match UdpFrame::decode(data) {
        Ok(frame) => frame,
        Err(_) => {
            return None;
        },
    };
    let mut out: Vec<char> = Vec::new();
    push_text(&mut out, "#");
    push_decimal(&mut out, frame.msg_id as usize);
    push_text(&mut out, " ");
    push_packet_text(&mut out, &frame.packet);
    assert(out@ =~= spec_frame_text(frame@));
    Some(string_of(out.as_slice()))
}

/// A payload for display: as a frame if it decodes as one, else as text
/// if it is valid UTF-8, else in hexadecimal.
pub open spec fn spec_format(data: Seq<u8>) -> Seq<char> {
    match spec_format_mqtt_frame(data) {
        Some(text) => text,
        None => match spec_format_text(data) {
            Some(text) => text,
            None => spec_format_hex(data),
        },
    }
}

/// A payload for display in the given mode: a mode that cannot show the
/// payload falls back to hexadecimal.
pub open spec fn spec_format_for_mode(mode: InputMode, data: Seq<u8>) -> Seq<char> {
    match mode {
        InputMode::Hex => spec_format_hex(data),
        InputMode::Mqtt => match spec_format_mqtt_frame(data) {
            Some(text) => text,
            None => spec_format_hex(data),
        },
        InputMode::Text => match spec_format_text(data) {
            Some(text) => text,
            None => spec_format_hex(data),
        },
        InputMode::Auto => spec_format(data),
    }
}

/// Format payload for display.
pub fn format(data: &[u8]) -> (text: String)
    ensures
        text@ == spec_format(data@),
{
    if let Some(pretty) = format_mqtt_frame(data) {
        return pretty;
    }
    if let Some(text) = format_text(data) {
        return text;
    }
    format_hex(data)
}

/// Format payload for display, honoring the selected input mode.
pub fn format_for_mode(mode: InputMode, data: &[u8]) -> (text: String)
    ensures
        text@ == spec_format_for_mode(mode, data@),
{
    match mode {
        InputMode::Hex => format_hex(data),
        InputMode::Mqtt => match format_mqtt_frame(data) {
            Some(text) => text,
            None => format_hex(data),
        },
        InputMode::Text => match format_text(data) {
            Some(text) => text,
            None => format_hex(data),
        },
        InputMode::Auto => format(data),
    }
}

} // verus!
