//! The packet sum type and the frame that carries one packet in one
//! datagram.
//!
//! Wire format of a frame:
//! `| length (1) | type (1) | msg id (2) | payload (length - 4) |`

use vstd::prelude::*;
use vstd::std_specs::convert::{FromSpecImpl, IntoSpec};
use crate::mqtt::codec::{spec_outcome, Decode, Encode};
use crate::mqtt::error::{spec_too_short, DecodeError};
use crate::mqtt::impls::{
    lemma_filters_wire_prefix_len, lemma_filters_wire_push, spec_connack_decode,
    spec_connack_wire, spec_connect_decode, spec_connect_encodable, spec_connect_wire,
    spec_filters_wire, spec_publish_decode, spec_publish_wire, spec_suback_decode,
    spec_suback_wire, spec_subscribe_decode, spec_subscribe_encodable, spec_subscribe_wire,
    MAX_COUNT,
};
use crate::mqtt::laws::lemma_fits_encodable;
use crate::mqtt::packets::{
    ConnAck, Connect, ConnectView, Disconnect, FilterView, PingReq, PingResp, PubAck, Publish,
    PublishView, SubAck, Subscribe,
};
use crate::mqtt::types::{MessageType, SubAckReturnCode};
use crate::mqtt::wire::{spec_string_fits, spec_u16_be, spec_u16_from_be, utf8_len, write_u16};

verus! {

/// What a [`Packet`] holds, with each payload replaced by its view.
pub ghost enum PacketView {
    Connect(ConnectView),
    ConnAck(ConnAck),
    Publish(PublishView),
    PubAck(PubAck),
    Subscribe(Seq<FilterView>),
    SubAck(Seq<SubAckReturnCode>),
    PingReq(PingReq),
    PingResp(PingResp),
    Disconnect(Disconnect),
}

impl PacketView {
    /// The kind of the payload that is held.
    pub open spec fn msg_type(self) -> MessageType {
        match self {
            PacketView::Connect(_) => MessageType::Connect,
            PacketView::ConnAck(_) => MessageType::ConnAck,
            PacketView::Publish(_) => MessageType::Publish,
            PacketView::PubAck(_) => MessageType::PubAck,
            PacketView::Subscribe(_) => MessageType::Subscribe,
            PacketView::SubAck(_) => MessageType::SubAck,
            PacketView::PingReq(_) => MessageType::PingReq,
            PacketView::PingResp(_) => MessageType::PingResp,
            PacketView::Disconnect(_) => MessageType::Disconnect,
        }
    }

    /// The payload bytes of the packet.
    pub open spec fn wire(self) -> Seq<u8> {
        match self {
            PacketView::Connect(c) => spec_connect_wire(c),
            PacketView::ConnAck(a) => spec_connack_wire(a),
            PacketView::Publish(p) => spec_publish_wire(p),
            PacketView::Subscribe(s) => spec_subscribe_wire(s),
            PacketView::SubAck(s) => spec_suback_wire(s),
            PacketView::PubAck(_) => Seq::empty(),
            PacketView::PingReq(_) => Seq::empty(),
            PacketView::PingResp(_) => Seq::empty(),
            PacketView::Disconnect(_) => Seq::empty(),
        }
    }

    /// Whether every length prefix and count of the payload can hold the
    /// number it has to announce.
    pub open spec fn encodable(self) -> bool {
        match self {
            PacketView::Connect(c) => spec_connect_encodable(c),
            PacketView::Publish(p) => spec_string_fits(p.topic),
            PacketView::Subscribe(s) => spec_subscribe_encodable(s),
            PacketView::SubAck(s) => s.len() <= MAX_COUNT,
            _ => true,
        }
    }

    /// What decoding a payload as a packet of kind `kind` yields.
    pub open spec fn decode(kind: MessageType, payload: Seq<u8>) -> Result<
        PacketView,
        DecodeError,
    > {
        match kind {
            MessageType::Connect => match spec_connect_decode(payload) {
                Ok(c) => Ok(PacketView::Connect(c)),
                Err(e) => Err(e),
            },
            MessageType::ConnAck => match spec_connack_decode(payload) {
                Ok(a) => Ok(PacketView::ConnAck(a)),
                Err(e) => Err(e),
            },
            MessageType::Publish => match spec_publish_decode(payload) {
                Ok(p) => Ok(PacketView::Publish(p)),
                Err(e) => Err(e),
            },
            MessageType::Subscribe => match spec_subscribe_decode(payload) {
                Ok(s) => Ok(PacketView::Subscribe(s)),
                Err(e) => Err(e),
            },
            MessageType::SubAck => match spec_suback_decode(payload) {
                Ok(s) => Ok(PacketView::SubAck(s)),
                Err(e) => Err(e),
            },
            MessageType::PubAck => Ok(PacketView::PubAck(PubAck)),
            MessageType::PingReq => Ok(PacketView::PingReq(PingReq)),
            MessageType::PingResp => Ok(PacketView::PingResp(PingResp)),
            MessageType::Disconnect => Ok(PacketView::Disconnect(Disconnect)),
        }
    }
}

/// One packet of any of the nine kinds.
#[derive(Debug, Clone, PartialEq, Eq)]
pub enum Packet {
    Connect(Connect),
    ConnAck(ConnAck),
    Publish(Publish),
    PubAck(PubAck),
    Subscribe(Subscribe),
    SubAck(SubAck),
    PingReq(PingReq),
    PingResp(PingResp),
    Disconnect(Disconnect),
}

impl View for Packet {
    type V = PacketView;

    open spec fn view(&self) -> PacketView {
        match self {
            Packet::Connect(c) => PacketView::Connect(c@),
            Packet::ConnAck(a) => PacketView::ConnAck(*a),
            Packet::Publish(p) => PacketView::Publish(p@),
            Packet::PubAck(p) => PacketView::PubAck(*p),
            Packet::Subscribe(s) => PacketView::Subscribe(s@),
            Packet::SubAck(s) => PacketView::SubAck(s@),
            Packet::PingReq(p) => PacketView::PingReq(*p),
            Packet::PingResp(p) => PacketView::PingResp(*p),
            Packet::Disconnect(d) => PacketView::Disconnect(*d),
        }
    }
}

impl Packet {
    /// The kind of the payload that is held.
    pub fn msg_type(&self) -> (kind: MessageType)
        ensures
            kind == self@.msg_type(),
    {
        match self {
            Packet::Connect(_) => MessageType::Connect,
            Packet::ConnAck(_) => MessageType::ConnAck,
            Packet::Publish(_) => MessageType::Publish,
            Packet::PubAck(_) => MessageType::PubAck,
            Packet::Subscribe(_) => MessageType::Subscribe,
            Packet::SubAck(_) => MessageType::SubAck,
            Packet::PingReq(_) => MessageType::PingReq,
            Packet::PingResp(_) => MessageType::PingResp,
            Packet::Disconnect(_) => MessageType::Disconnect,
        }
    }
}

/// `acc + n`, unless that is more than `limit`.
fn add_up_to(acc: usize, n: usize, limit: usize) -> (r: Option<usize>)
    requires
        acc <= limit,
    ensures
        r == (if acc + n <= limit {
            Some((acc + n) as usize)
        } else {
            None
        }),
{
    if n > limit - acc {
        None
    } else {
        Some(acc + n)
    }
}

/// The length of a length-prefixed field of `n` bytes behind `acc` bytes,
/// unless `limit` is passed.
fn add_field_up_to(acc: usize, n: usize, limit: usize) -> (r: Option<usize>)
    requires
        acc <= limit,
    ensures
        r == (if acc + 2 + n <= limit {
            Some((acc + 2 + n) as usize)
        } else {
            None
        }),
{
    match add_up_to(acc, 2, limit) {
        Some(with_prefix) => add_up_to(with_prefix, n, limit),
        None => None,
    }
}

impl Connect {
    /// The length of the payload, unless it is more than `limit`.
    fn payload_len_up_to(&self, limit: usize) -> (r: Option<usize>)
        ensures
            r == (if spec_connect_wire(self@).len() <= limit {
                Some(spec_connect_wire(self@).len() as usize)
            } else {
                None
            }),
    {
        let mut len = match add_up_to(0, 3, limit) {
            Some(len) => len,
            None => {
                return None;
            },
        };
        len = match add_field_up_to(len, utf8_len(self.client_id.as_str()), limit) {
            Some(len) => len,
            None => {
                return None;
            },
        };
        if let Some(u) = &self.username {
            len = match add_field_up_to(len, utf8_len(u.as_str()), limit) {
                Some(len) => len,
                None => {
                    return None;
                },
            };
        }
        if let Some(p) = &self.password {
            len = match add_field_up_to(len, p.len(), limit) {
                Some(len) => len,
                None => {
                    return None;
                },
            };
        }
        Some(len)
    }
}

impl Publish {
    /// The length of the payload, unless it is more than `limit`.
    fn payload_len_up_to(&self, limit: usize) -> (r: Option<usize>)
        ensures
            r == (if spec_publish_wire(self@).len() <= limit {
                Some(spec_publish_wire(self@).len() as usize)
            } else {
                None
            }),
    {
        let len = match add_up_to(0, 1, limit) {
            Some(len) => len,
            None => {
                return None;
            },
        };
        match add_field_up_to(len, utf8_len(self.topic.as_str()), limit) {
            Some(len) => add_up_to(len, self.payload.len(), limit),
            None => None,
        }
    }
}

impl Subscribe {
    /// The length of the payload, unless it is more than `limit`.
    fn payload_len_up_to(&self, limit: usize) -> (r: Option<usize>)
        ensures
            r == (if spec_subscribe_wire(self@).len() <= limit {
                Some(spec_subscribe_wire(self@).len() as usize)
            } else {
                None
            }),
    {
        let n = self.filters.len();
        let mut len = match add_up_to(0, 1, limit) {
            Some(len) => len,
            None => {
                return None;
            },
        };
        let mut i: usize = 0;
        while i < n
            invariant
                i <= n,
                n == self.filters.len(),
                len <= limit,
                len == 1 + spec_filters_wire(self@.take(i as int)).len(),
            decreases n - i,
        {
            let filter = &self.filters[i];
            proof {
                lemma_filters_wire_push(self@.take(i as int), self@[i as int]);
                assert(self@.take(i as int + 1) =~= self@.take(i as int).push(self@[i as int]));
                assert(self@[i as int] == filter@);
                lemma_filters_wire_prefix_len(self@, i as int + 1);
            }
            len = match add_field_up_to(len, utf8_len(filter.topic.as_str()), limit) {
                Some(len) => len,
                None => {
                    return None;
                },
            };
            len = match add_up_to(len, 1, limit) {
                Some(len) => len,
                None => {
                    return None;
                },
            };
            i += 1;
        }
        assert(self@.take(n as int) =~= self@);
        Some(len)
    }
}

impl Packet {
    /// The length of the payload, unless it is more than `limit`.
    fn payload_len_up_to(&self, limit: usize) -> (r: Option<usize>)
        ensures
            r == (if self@.wire().len() <= limit {
                Some(self@.wire().len() as usize)
            } else {
                None
            }),
    {
        match self {
            Packet::Connect(p) => p.payload_len_up_to(limit),
            Packet::ConnAck(_) => add_up_to(0, 2, limit),
            Packet::Publish(p) => p.payload_len_up_to(limit),
            Packet::Subscribe(p) => p.payload_len_up_to(limit),
            Packet::SubAck(p) => match add_up_to(0, 1, limit) {
                Some(len) => add_up_to(len, p.return_codes.len(), limit),
                None => None,
            },
            Packet::PubAck(_) => Some(0),
            Packet::PingReq(_) => Some(0),
            Packet::PingResp(_) => Some(0),
            Packet::Disconnect(_) => Some(0),
        }
    }
}

impl FromSpecImpl<Connect> for Packet {
    open spec fn obeys_from_spec() -> bool {
        true
    }

    open spec fn from_spec(p: Connect) -> Packet {
        Packet::Connect(p)
    }
}

impl From<Connect> for Packet {
    fn from(p: Connect) -> (packet: Packet)
        ensures
            packet == Packet::Connect(p),
    {
        Packet::Connect(p)
    }
}

impl FromSpecImpl<ConnAck> for Packet {
    open spec fn obeys_from_spec() -> bool {
        true
    }

    open spec fn from_spec(p: ConnAck) -> Packet {
        Packet::ConnAck(p)
    }
}

impl From<ConnAck> for Packet {
    fn from(p: ConnAck) -> (packet: Packet)
        ensures
            packet == Packet::ConnAck(p),
    {
        Packet::ConnAck(p)
    }
}

impl FromSpecImpl<Publish> for Packet {
    open spec fn obeys_from_spec() -> bool {
        true
    }

    open spec fn from_spec(p: Publish) -> Packet {
        Packet::Publish(p)
    }
}

impl From<Publish> for Packet {
    fn from(p: Publish) -> (packet: Packet)
        ensures
            packet == Packet::Publish(p),
    {
        Packet::Publish(p)
    }
}

impl FromSpecImpl<PubAck> for Packet {
    open spec fn obeys_from_spec() -> bool {
        true
    }

    open spec fn from_spec(p: PubAck) -> Packet {
        Packet::PubAck(p)
    }
}

impl From<PubAck> for Packet {
    fn from(p: PubAck) -> (packet: Packet)
        ensures
            packet == Packet::PubAck(p),
    {
        Packet::PubAck(p)
    }
}

impl FromSpecImpl<Subscribe> for Packet {
    open spec fn obeys_from_spec() -> bool {
        true
    }

    open spec fn from_spec(p: Subscribe) -> Packet {
        Packet::Subscribe(p)
    }
}

impl From<Subscribe> for Packet {
    fn from(p: Subscribe) -> (packet: Packet)
        ensures
            packet == Packet::Subscribe(p),
    {
        Packet::Subscribe(p)
    }
}

impl FromSpecImpl<SubAck> for Packet {
    open spec fn obeys_from_spec() -> bool {
        true
    }

    open spec fn from_spec(p: SubAck) -> Packet {
        Packet::SubAck(p)
    }
}

impl From<SubAck> for Packet {
    fn from(p: SubAck) -> (packet: Packet)
        ensures
            packet == Packet::SubAck(p),
    {
        Packet::SubAck(p)
    }
}

impl FromSpecImpl<PingReq> for Packet {
    open spec fn obeys_from_spec() -> bool {
        true
    }

    open spec fn from_spec(p: PingReq) -> Packet {
        Packet::PingReq(p)
    }
}

impl From<PingReq> for Packet {
    fn from(p: PingReq) -> (packet: Packet)
        ensures
            packet == Packet::PingReq(p),
    {
        Packet::PingReq(p)
    }
}

impl FromSpecImpl<PingResp> for Packet {
    open spec fn obeys_from_spec() -> bool {
        true
    }

    open spec fn from_spec(p: PingResp) -> Packet {
        Packet::PingResp(p)
    }
}

impl From<PingResp> for Packet {
    fn from(p: PingResp) -> (packet: Packet)
        ensures
            packet == Packet::PingResp(p),
    {
        Packet::PingResp(p)
    }
}

impl FromSpecImpl<Disconnect> for Packet {
    open spec fn obeys_from_spec() -> bool {
        true
    }

    open spec fn from_spec(p: Disconnect) -> Packet {
        Packet::Disconnect(p)
    }
}

impl From<Disconnect> for Packet {
    fn from(p: Disconnect) -> (packet: Packet)
        ensures
            packet == Packet::Disconnect(p),
    {
        Packet::Disconnect(p)
    }
}

/// What a [`UdpFrame`] holds, with its packet replaced by its view.
pub ghost struct FrameView {
    pub msg_id: u16,
    pub packet: PacketView,
}

/// The reason given for a frame whose length byte is below the header size.
pub const LENGTH_BELOW_HEADER: &'static str = "frame length is less than the header size";

impl FrameView {
    /// The length of the whole frame, header included.
    pub open spec fn total_len(self) -> nat {
        UdpFrame::HEADER_LEN as nat + self.packet.wire().len()
    }

    /// Whether the length of the whole frame fits its one length byte.
    pub open spec fn fits(self) -> bool {
        self.total_len() <= UdpFrame::MAX_PACKET_LEN
    }

    /// The bytes of the frame: total length, kind, sequence identifier,
    /// payload.
    pub open spec fn wire(self) -> Seq<u8> {
        seq![self.total_len() as u8, self.packet.msg_type().spec_byte()] + spec_u16_be(self.msg_id)
            + self.packet.wire()
    }

    /// What decoding a datagram yields. The header needs four bytes, and
    /// the buffer must hold as many bytes as the length byte says; it may
    /// hold more, and what lies behind the frame is ignored. A length byte
    /// below the header size is a malformed packet. Then the kind is read,
    /// and the bytes between the header and the announced length are decoded
    /// as a payload of that kind.
    pub open spec fn decode(buf: Seq<u8>) -> Result<FrameView, DecodeError> {
        if buf.len() < UdpFrame::HEADER_LEN {
            Err(spec_too_short(UdpFrame::HEADER_LEN as int, buf.len()))
        } else if buf.len() < buf[0] {
            Err(spec_too_short(buf[0] as int, buf.len()))
        } else if buf[0] < UdpFrame::HEADER_LEN {
            Err(DecodeError::MalformedPacket(LENGTH_BELOW_HEADER))
        } else {
            match MessageType::spec_from_byte(buf[1]) {
                Err(e) => Err(e),
                Ok(kind) => match PacketView::decode(
                    kind,
                    buf.subrange(UdpFrame::HEADER_LEN as int, buf[0] as int),
                ) {
                    Err(e) => Err(e),
                    Ok(packet) => Ok(
                        FrameView { msg_id: spec_u16_from_be(buf[2], buf[3]), packet },
                    ),
                },
            }
        }
    }
}

/// One packet under a sequence identifier: what one datagram carries.
#[derive(Debug, Clone, PartialEq, Eq)]
pub struct UdpFrame {
    pub msg_id: u16,
    pub packet: Packet,
}

impl View for UdpFrame {
    type V = FrameView;

    open spec fn view(&self) -> FrameView {
        FrameView { msg_id: self.msg_id, packet: self.packet@ }
    }
}

impl UdpFrame {
    /// The number of header bytes in front of the payload.
    pub const HEADER_LEN: usize = 4;

    /// The largest frame, header included, whose length fits the length byte.
    pub const MAX_PACKET_LEN: usize = 255;

    /// A frame that carries `packet` under `msg_id`.
    pub fn new<P: Into<Packet>>(msg_id: u16, packet: P) -> (frame: Self)
        ensures
            frame.msg_id == msg_id,
            <P as IntoSpec<Packet>>::obeys_into_spec() ==> frame.packet == packet.into_spec(),
            call_ensures(<P as Into<Packet>>::into, (packet,), frame.packet),
    {
        UdpFrame { msg_id, packet: packet.into() }
    }

    /// The length of the payload alone.
    pub fn packet_payload_len(&self) -> (len: usize)
        requires
            self@.packet.wire().len() <= usize::MAX,
        ensures
            len == self@.packet.wire().len(),
    {
        match &self.packet {
            Packet::Connect(p) => p.encoded_len(),
            Packet::ConnAck(p) => p.encoded_len(),
            Packet::Publish(p) => p.encoded_len(),
            Packet::PubAck(p) => p.encoded_len(),
            Packet::Subscribe(p) => p.encoded_len(),
            Packet::SubAck(p) => p.encoded_len(),
            Packet::PingReq(p) => p.encoded_len(),
            Packet::PingResp(p) => p.encoded_len(),
            Packet::Disconnect(p) => p.encoded_len(),
        }
    }

    /// The bytes of the frame. The frame must fit its length byte: a caller
    /// who does not know that it does asks `fits` first or calls
    /// `try_encode`.
    pub fn encode(&self) -> (bytes: Vec<u8>)
        requires
            self@.fits(),
        ensures
            bytes@ == self@.wire(),
    {
        proof {
            lemma_fits_encodable(self@);
        }
        let payload_len = self.packet_payload_len();
        let total_len = UdpFrame::HEADER_LEN + payload_len;

        let mut buf: Vec<u8> = Vec::with_capacity(total_len);
        buf.push(total_len as u8);
        buf.push(self.packet.msg_type().into());
        write_u16(&mut buf, self.msg_id);

        match &self.packet {
            Packet::Connect(p) => p.encode(&mut buf),
            Packet::ConnAck(p) => p.encode(&mut buf),
            Packet::Publish(p) => p.encode(&mut buf),
            Packet::PubAck(p) => p.encode(&mut buf),
            Packet::Subscribe(p) => p.encode(&mut buf),
            Packet::SubAck(p) => p.encode(&mut buf),
            Packet::PingReq(p) => p.encode(&mut buf),
            Packet::PingResp(p) => p.encode(&mut buf),
            Packet::Disconnect(p) => p.encode(&mut buf),
        }
        assert(buf@ =~= self@.wire());
        buf
    }

    /// Whether the frame fits its length byte.
    pub fn fits(&self) -> (b: bool)
        ensures
            b == self@.fits(),
    {
        self.packet.payload_len_up_to(UdpFrame::MAX_PACKET_LEN - UdpFrame::HEADER_LEN).is_some()
    }

    /// The bytes of the frame, or `PayloadTooLarge` for a frame that does
    /// not fit its length byte.
    pub fn try_encode(&self) -> (r: Result<Vec<u8>, DecodeError>)
        ensures
            match r {
                Ok(bytes) => self@.fits() && bytes@ == self@.wire(),
                Err(e) => !self@.fits() && e == DecodeError::PayloadTooLarge,
            },
    {
        if self.fits() {
            Ok(self.encode())
        } else {
            Err(DecodeError::PayloadTooLarge)
        }
    }

    /// Decodes one datagram. Bytes behind the length that the first byte
    /// announces are ignored; a buffer shorter than that is rejected, and so
    /// is a length below the header size.
    pub fn decode(buf: &[u8]) -> (r: Result<Self, DecodeError>)
        ensures
            spec_outcome(r) == FrameView::decode(buf@),
    {
        if buf.len() < UdpFrame::HEADER_LEN {
            return Err(
                DecodeError::BufferTooShort { expected: UdpFrame::HEADER_LEN, actual: buf.len() },
            );
        }
        let length = buf[0] as usize;
        if buf.len() < length {
            return Err(DecodeError::BufferTooShort { expected: length, actual: buf.len() });
        }
        if length < UdpFrame::HEADER_LEN {
            return Err(DecodeError::MalformedPacket(LENGTH_BELOW_HEADER));
        }
        let msg_type = MessageType::try_from(buf[1])?;
        let msg_id = (buf[2] as u16) * 256 + (buf[3] as u16);
        let payload = &buf[UdpFrame::HEADER_LEN..length];

        let packet = match msg_type {
            MessageType::Connect => Packet::Connect(Connect::decode(payload)?),
            MessageType::ConnAck => Packet::ConnAck(ConnAck::decode(payload)?),
            MessageType::Publish => Packet::Publish(Publish::decode(payload)?),
            MessageType::PubAck => Packet::PubAck(PubAck::decode(payload)?),
            MessageType::Subscribe => Packet::Subscribe(Subscribe::decode(payload)?),
            MessageType::SubAck => Packet::SubAck(SubAck::decode(payload)?),
            MessageType::PingReq => Packet::PingReq(PingReq::decode(payload)?),
            MessageType::PingResp => Packet::PingResp(PingResp::decode(payload)?),
            MessageType::Disconnect => Packet::Disconnect(Disconnect::decode(payload)?),
        };

        Ok(UdpFrame { msg_id, packet })
    }
}

} // verus!
