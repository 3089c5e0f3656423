//! The closed one-byte enumerations of the wire format.

use vstd::prelude::*;
use vstd::std_specs::convert::{FromSpecImpl, TryFromSpecImpl};
use crate::mqtt::error::DecodeError;

verus! {

/// The kind of a packet, as the second byte of every frame names it.
#[derive(Debug, Clone, Copy, PartialEq, Eq, Hash, Structural)]
pub enum MessageType {
    Connect,
    ConnAck,
    Publish,
    PubAck,
    Subscribe,
    SubAck,
    PingReq,
    PingResp,
    Disconnect,
}

impl MessageType {
    /// The byte that stands for this kind: 1 to 9, in declaration order.
    pub open spec fn spec_byte(self) -> u8 {
        match self {
            MessageType::Connect => 0x01,
            MessageType::ConnAck => 0x02,
            MessageType::Publish => 0x03,
            MessageType::PubAck => 0x04,
            MessageType::Subscribe => 0x05,
            MessageType::SubAck => 0x06,
            MessageType::PingReq => 0x07,
            MessageType::PingResp => 0x08,
            MessageType::Disconnect => 0x09,
        }
    }

    /// The kind that a byte names; any byte outside 1 to 9 is rejected and
    /// handed back in the error.
    pub open spec fn spec_from_byte(value: u8) -> Result<MessageType, DecodeError> {
        match value {
            0x01 => Ok(MessageType::Connect),
            0x02 => Ok(MessageType::ConnAck),
            0x03 => Ok(MessageType::Publish),
            0x04 => Ok(MessageType::PubAck),
            0x05 => Ok(MessageType::Subscribe),
            0x06 => Ok(MessageType::SubAck),
            0x07 => Ok(MessageType::PingReq),
            0x08 => Ok(MessageType::PingResp),
            0x09 => Ok(MessageType::Disconnect),
            v => Err(DecodeError::InvalidMessageType(v)),
        }
    }
}

impl TryFromSpecImpl<u8> for MessageType {
    open spec fn obeys_try_from_spec() -> bool {
        true
    }

    open spec fn try_from_spec(value: u8) -> Result<Self, DecodeError> {
        MessageType::spec_from_byte(value)
    }
}

impl TryFrom<u8> for MessageType {
    type Error = DecodeError;

    fn try_from(value: u8) -> (r: Result<Self, DecodeError>)
        ensures
            r == MessageType::spec_from_byte(value),
    {
        match value {
            0x01 => Ok(MessageType::Connect),
            0x02 => Ok(MessageType::ConnAck),
            0x03 => Ok(MessageType::Publish),
            0x04 => Ok(MessageType::PubAck),
            0x05 => Ok(MessageType::Subscribe),
            0x06 => Ok(MessageType::SubAck),
            0x07 => Ok(MessageType::PingReq),
            0x08 => Ok(MessageType::PingResp),
            0x09 => Ok(MessageType::Disconnect),
            v => Err(DecodeError::InvalidMessageType(v)),
        }
    }
}

impl FromSpecImpl<MessageType> for u8 {
    open spec fn obeys_from_spec() -> bool {
        true
    }

    open spec fn from_spec(value: MessageType) -> u8 {
        value.spec_byte()
    }
}

impl From<MessageType> for u8 {
    fn from(value: MessageType) -> (b: u8)
        ensures
            b == value.spec_byte(),
    {
        match value {
            MessageType::Connect => 0x01,
            MessageType::ConnAck => 0x02,
            MessageType::Publish => 0x03,
            MessageType::PubAck => 0x04,
            MessageType::Subscribe => 0x05,
            MessageType::SubAck => 0x06,
            MessageType::PingReq => 0x07,
            MessageType::PingResp => 0x08,
            MessageType::Disconnect => 0x09,
        }
    }
}

/// Quality-of-service level carried on a publish and on each subscribe
/// filter.
#[derive(Debug, Clone, Copy, PartialEq, Eq, Structural)]
pub enum QoS {
    AtMostOnce,
    AtLeastOnce,
    ExactlyOnce,
}

impl QoS {
    /// The byte that stands for this level: 0, 1 or 2.
    pub open spec fn spec_byte(self) -> u8 {
        match self {
            QoS::AtMostOnce => 0,
            QoS::AtLeastOnce => 1,
            QoS::ExactlyOnce => 2,
        }
    }

    /// The level that a byte names; any other byte is handed back as the
    /// error.
    pub open spec fn spec_from_byte(value: u8) -> Result<QoS, u8> {
        match value {
            0 => Ok(QoS::AtMostOnce),
            1 => Ok(QoS::AtLeastOnce),
            2 => Ok(QoS::ExactlyOnce),
            v => Err(v),
        }
    }
}

impl Default for QoS {
    fn default() -> (q: QoS)
        ensures
            q == QoS::AtMostOnce,
    {
        QoS::AtMostOnce
    }
}

impl TryFromSpecImpl<u8> for QoS {
    open spec fn obeys_try_from_spec() -> bool {
        true
    }

    open spec fn try_from_spec(value: u8) -> Result<Self, u8> {
        QoS::spec_from_byte(value)
    }
}

impl TryFrom<u8> for QoS {
    type Error = u8;

    fn try_from(value: u8) -> (r: Result<Self, u8>)
        ensures
            r == QoS::spec_from_byte(value),
    {
        match value {
            0 => Ok(QoS::AtMostOnce),
            1 => Ok(QoS::AtLeastOnce),
            2 => Ok(QoS::ExactlyOnce),
            v => Err(v),
        }
    }
}

impl FromSpecImpl<QoS> for u8 {
    open spec fn obeys_from_spec() -> bool {
        true
    }

    open spec fn from_spec(value: QoS) -> u8 {
        value.spec_byte()
    }
}

impl From<QoS> for u8 {
    fn from(value: QoS) -> (b: u8)
        ensures
            b == value.spec_byte(),
    {
        match value {
            QoS::AtMostOnce => 0,
            QoS::AtLeastOnce => 1,
            QoS::ExactlyOnce => 2,
        }
    }
}

/// The outcome that a connect acknowledgement reports.
#[derive(Debug, Clone, Copy, PartialEq, Eq, Structural)]
pub enum ConnectReturnCode {
    Accepted,
    UnacceptableProtocol,
    IdentifierRejected,
    ServerUnavailable,
    BadCredentials,
    NotAuthorized,
}

impl ConnectReturnCode {
    /// The byte that stands for this code: 0 to 5, in declaration order.
    pub open spec fn spec_byte(self) -> u8 {
        match self {
            ConnectReturnCode::Accepted => 0x00,
            ConnectReturnCode::UnacceptableProtocol => 0x01,
            ConnectReturnCode::IdentifierRejected => 0x02,
            ConnectReturnCode::ServerUnavailable => 0x03,
            ConnectReturnCode::BadCredentials => 0x04,
            ConnectReturnCode::NotAuthorized => 0x05,
        }
    }

    /// The code that a byte names; any other byte is handed back as the
    /// error.
    pub open spec fn spec_from_byte(value: u8) -> Result<ConnectReturnCode, u8> {
        match value {
            0x00 => Ok(ConnectReturnCode::Accepted),
            0x01 => Ok(ConnectReturnCode::UnacceptableProtocol),
            0x02 => Ok(ConnectReturnCode::IdentifierRejected),
            0x03 => Ok(ConnectReturnCode::ServerUnavailable),
            0x04 => Ok(ConnectReturnCode::BadCredentials),
            0x05 => Ok(ConnectReturnCode::NotAuthorized),
            v => Err(v),
        }
    }
}

impl TryFromSpecImpl<u8> for ConnectReturnCode {
    open spec fn obeys_try_from_spec() -> bool {
        true
    }

    open spec fn try_from_spec(value: u8) -> Result<Self, u8> {
        ConnectReturnCode::spec_from_byte(value)
    }
}

impl TryFrom<u8> for ConnectReturnCode {
    type Error = u8;

    fn try_from(value: u8) -> (r: Result<Self, u8>)
        ensures
            r == ConnectReturnCode::spec_from_byte(value),
    {
        match value {
            0x00 => Ok(ConnectReturnCode::Accepted),
            0x01 => Ok(ConnectReturnCode::UnacceptableProtocol),
            0x02 => Ok(ConnectReturnCode::IdentifierRejected),
            0x03 => Ok(ConnectReturnCode::ServerUnavailable),
            0x04 => Ok(ConnectReturnCode::BadCredentials),
            0x05 => Ok(ConnectReturnCode::NotAuthorized),
            v => Err(v),
        }
    }
}

impl FromSpecImpl<ConnectReturnCode> for u8 {
    open spec fn obeys_from_spec() -> bool {
        true
    }

    open spec fn from_spec(value: ConnectReturnCode) -> u8 {
        value.spec_byte()
    }
}

impl From<ConnectReturnCode> for u8 {
    fn from(value: ConnectReturnCode) -> (b: u8)
        ensures
            b == value.spec_byte(),
    {
        match value {
            ConnectReturnCode::Accepted => 0x00,
            ConnectReturnCode::UnacceptableProtocol => 0x01,
            ConnectReturnCode::IdentifierRejected => 0x02,
            ConnectReturnCode::ServerUnavailable => 0x03,
            ConnectReturnCode::BadCredentials => 0x04,
            ConnectReturnCode::NotAuthorized => 0x05,
        }
    }
}

/// The outcome that a subscribe acknowledgement reports for one filter.
#[derive(Debug, Clone, Copy, PartialEq, Eq, Structural)]
pub enum SubAckReturnCode {
    SuccessQoS0,
    SuccessQoS1,
    SuccessQoS2,
    Failure,
}

impl SubAckReturnCode {
    /// The byte that stands for this code: 0, 1, 2, or 0x80 for failure.
    pub open spec fn spec_byte(self) -> u8 {
        match self {
            SubAckReturnCode::SuccessQoS0 => 0x00,
            SubAckReturnCode::SuccessQoS1 => 0x01,
            SubAckReturnCode::SuccessQoS2 => 0x02,
            SubAckReturnCode::Failure => 0x80,
        }
    }

    /// The code that a byte names; any other byte is handed back as the
    /// error.
    pub open spec fn spec_from_byte(value: u8) -> Result<SubAckReturnCode, u8> {
        match value {
            0x00 => Ok(SubAckReturnCode::SuccessQoS0),
            0x01 => Ok(SubAckReturnCode::SuccessQoS1),
            0x02 => Ok(SubAckReturnCode::SuccessQoS2),
            0x80 => Ok(SubAckReturnCode::Failure),
            v => Err(v),
        }
    }
}

impl TryFromSpecImpl<u8> for SubAckReturnCode {
    open spec fn obeys_try_from_spec() -> bool {
        true
    }

    open spec fn try_from_spec(value: u8) -> Result<Self, u8> {
        SubAckReturnCode::spec_from_byte(value)
    }
}

impl TryFrom<u8> for SubAckReturnCode {
    type Error = u8;

    fn try_from(value: u8) -> (r: Result<Self, u8>)
        ensures
            r == SubAckReturnCode::spec_from_byte(value),
    {
        match value {
            0x00 => Ok(SubAckReturnCode::SuccessQoS0),
            0x01 => Ok(SubAckReturnCode::SuccessQoS1),
            0x02 => Ok(SubAckReturnCode::SuccessQoS2),
            0x80 => Ok(SubAckReturnCode::Failure),
            v => Err(v),
        }
    }
}

impl FromSpecImpl<SubAckReturnCode> for u8 {
    open spec fn obeys_from_spec() -> bool {
        true
    }

    open spec fn from_spec(value: SubAckReturnCode) -> u8 {
        value.spec_byte()
    }
}

impl From<SubAckReturnCode> for u8 {
    fn from(value: SubAckReturnCode) -> (b: u8)
        ensures
            b == value.spec_byte(),
    {
        match value {
            SubAckReturnCode::SuccessQoS0 => 0x00,
            SubAckReturnCode::SuccessQoS1 => 0x01,
            SubAckReturnCode::SuccessQoS2 => 0x02,
            SubAckReturnCode::Failure => 0x80,
        }
    }
}

} // verus!
