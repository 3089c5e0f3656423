//! The nine packet kinds, their mathematical views, and their builders.

use vstd::prelude::*;
use vstd::slice::slice_to_vec;
use crate::mqtt::types::{ConnectReturnCode, QoS, SubAckReturnCode};

verus! {

/// What a [`Connect`] holds, with its strings as character sequences.
pub ghost struct ConnectView {
    pub client_id: Seq<char>,
    pub keep_alive: u16,
    pub clean_session: bool,
    pub username: Option<Seq<char>>,
    pub password: Option<Seq<u8>>,
}

/// Opens a session: who the client is, how often it will be heard from, and
/// optional credentials.
#[derive(Debug, Clone, PartialEq, Eq)]
pub struct Connect {
    pub client_id: String,
    pub keep_alive: u16,
    pub clean_session: bool,
    pub username: Option<String>,
    pub password: Option<Vec<u8>>,
}

impl View for Connect {
    type V = ConnectView;

    open spec fn view(&self) -> ConnectView {
        ConnectView {
            client_id: self.client_id@,
            keep_alive: self.keep_alive,
            clean_session: self.clean_session,
            username: match self.username {
                Some(u) => Some(u@),
                None => None,
            },
            password: match self.password {
                Some(p) => Some(p@),
                None => None,
            },
        }
    }
}

/// The flags byte of a connect packet: bit 1 for a clean session, bit 7
/// for a username, bit 6 for a password.
pub open spec fn spec_connect_flags(
    clean_session: bool,
    has_username: bool,
    has_password: bool,
) -> u8 {
    (if clean_session { 0x02u8 } else { 0u8 })
        | (if has_username { 0x80u8 } else { 0u8 })
        | (if has_password { 0x40u8 } else { 0u8 })
}

impl Connect {
    /// A connect for `client_id` with a keep-alive of 60 seconds, a clean
    /// session and no credentials.
    pub fn new(client_id: &str) -> (c: Self)
        ensures
            c@ == (ConnectView {
                client_id: client_id@,
                keep_alive: 60,
                clean_session: true,
                username: None,
                password: None,
            }),
    {
        Connect {
            client_id: client_id.to_owned(),
            keep_alive: 60,
            clean_session: true,
            username: None,
            password: None,
        }
    }

    /// The flags byte that announces which optional fields follow.
    pub fn flags(&self) -> (flags: u8)
        ensures
            flags == spec_connect_flags(
                self@.clean_session,
                self@.username is Some,
                self@.password is Some,
            ),
    {
        let clean: u8 = if self.clean_session { 0x02 } else { 0 };
        let user: u8 = if self.username.is_some() { 0x80 } else { 0 };
        let pass: u8 = if self.password.is_some() { 0x40 } else { 0 };
        let flags: u8 = clean | user | pass;
        flags
    }
}

/// Answers a connect.
#[derive(Debug, Clone, Copy, PartialEq, Eq, Structural)]
pub struct ConnAck {
    pub session_present: bool,
    pub return_code: ConnectReturnCode,
}

impl View for ConnAck {
    type V = ConnAck;

    open spec fn view(&self) -> ConnAck {
        *self
    }
}

impl ConnAck {
    /// An acknowledgement that accepts the connection.
    pub fn accepted(session_present: bool) -> (a: Self)
        ensures
            a == (ConnAck { session_present, return_code: ConnectReturnCode::Accepted }),
    {
        ConnAck { session_present, return_code: ConnectReturnCode::Accepted }
    }
}

/// What a [`Publish`] holds, with its topic as a character sequence.
pub ghost struct PublishView {
    pub topic: Seq<char>,
    pub qos: QoS,
    pub retain: bool,
    pub payload: Seq<u8>,
}

/// Carries a payload to a topic.
#[derive(Debug, Clone, PartialEq, Eq)]
pub struct Publish {
    pub topic: String,
    pub qos: QoS,
    pub retain: bool,
    pub payload: Vec<u8>,
}

impl View for Publish {
    type V = PublishView;

    open spec fn view(&self) -> PublishView {
        PublishView {
            topic: self.topic@,
            qos: self.qos,
            retain: self.retain,
            payload: self.payload@,
        }
    }
}

/// The flags byte of a publish packet: the level in bits 1 and 2, the
/// retain flag in bit 0.
pub open spec fn spec_publish_flags(qos: QoS, retain: bool) -> u8 {
    (qos.spec_byte() << 1) | (if retain { 0x01u8 } else { 0u8 })
}

impl Publish {
    /// A publish of `payload` to `topic`, at most once and not retained.
    pub fn new(topic: &str, payload: &[u8]) -> (p: Self)
        ensures
            p@ == (PublishView {
                topic: topic@,
                qos: QoS::AtMostOnce,
                retain: false,
                payload: payload@,
            }),
    {
        Publish {
            topic: topic.to_owned(),
            qos: QoS::AtMostOnce,
            retain: false,
            payload: slice_to_vec(payload),
        }
    }

    /// The same publish at another level.
    pub fn with_qos(self, qos: QoS) -> (p: Self)
        ensures
            p@ == (PublishView { qos, ..self@ }),
    {
        let mut p = self;
        p.qos = qos;
        p
    }

    /// The same publish with the retain flag set or cleared.
    pub fn with_retain(self, retain: bool) -> (p: Self)
        ensures
            p@ == (PublishView { retain, ..self@ }),
    {
        let mut p = self;
        p.retain = retain;
        p
    }

    /// The flags byte that packs the level and the retain flag.
    pub fn flags(&self) -> (flags: u8)
        ensures
            flags == spec_publish_flags(self@.qos, self@.retain),
    {
        let level: u8 = self.qos.into();
        let retain: u8 = if self.retain { 0x01 } else { 0 };
        (level << 1) | retain
    }
}

/// Acknowledges a publish. It has no payload.
#[derive(Debug, Clone, Copy, PartialEq, Eq, Default, Structural)]
pub struct PubAck;

impl View for PubAck {
    type V = PubAck;

    open spec fn view(&self) -> PubAck {
        *self
    }
}

/// What a [`SubscribeFilter`] holds, with its topic as a character sequence.
pub ghost struct FilterView {
    pub topic: Seq<char>,
    pub qos: QoS,
}

/// One topic pattern of a subscribe, with the level asked for.
#[derive(Debug, Clone, PartialEq, Eq)]
pub struct SubscribeFilter {
    pub topic: String,
    pub qos: QoS,
}

impl View for SubscribeFilter {
    type V = FilterView;

    open spec fn view(&self) -> FilterView {
        FilterView { topic: self.topic@, qos: self.qos }
    }
}

impl SubscribeFilter {
    /// A filter for `topic` at the level `qos`.
    pub fn new(topic: &str, qos: QoS) -> (f: Self)
        ensures
            f@ == (FilterView { topic: topic@, qos }),
    {
        SubscribeFilter { topic: topic.to_owned(), qos }
    }
}

/// Asks for the messages of one or more topic patterns.
#[derive(Debug, Clone, PartialEq, Eq)]
pub struct Subscribe {
    pub filters: Vec<SubscribeFilter>,
}

impl View for Subscribe {
    type V = Seq<FilterView>;

    open spec fn view(&self) -> Seq<FilterView> {
        self.filters@.map_values(|f: SubscribeFilter| f@)
    }
}

impl Subscribe {
    /// A subscribe with the given filters, in the given order.
    pub fn new(filters: Vec<SubscribeFilter>) -> (s: Self)
        ensures
            s.filters == filters,
    {
        Subscribe { filters }
    }

    /// A subscribe with one filter.
    pub fn single(topic: &str, qos: QoS) -> (s: Self)
        ensures
            s@ == seq![FilterView { topic: topic@, qos }],
    {
        let mut filters: Vec<SubscribeFilter> = Vec::new();
        filters.push(SubscribeFilter::new(topic, qos));
        let s = Subscribe { filters };
        assert(s@ =~= seq![FilterView { topic: topic@, qos }]);
        s
    }
}

/// Answers a subscribe with one return code per filter, in the filters'
/// order.
#[derive(Debug, Clone, PartialEq, Eq)]
pub struct SubAck {
    pub return_codes: Vec<SubAckReturnCode>,
}

impl View for SubAck {
    type V = Seq<SubAckReturnCode>;

    open spec fn view(&self) -> Seq<SubAckReturnCode> {
        self.return_codes@
    }
}

impl SubAck {
    /// A subscribe acknowledgement with the given codes, in the given order.
    pub fn new(return_codes: Vec<SubAckReturnCode>) -> (s: Self)
        ensures
            s.return_codes == return_codes,
    {
        SubAck { return_codes }
    }
}

/// Asks the peer for a sign of life. It has no payload.
#[derive(Debug, Clone, Copy, PartialEq, Eq, Default, Structural)]
pub struct PingReq;

impl View for PingReq {
    type V = PingReq;

    open spec fn view(&self) -> PingReq {
        *self
    }
}

/// Answers a ping request. It has no payload.
#[derive(Debug, Clone, Copy, PartialEq, Eq, Default, Structural)]
pub struct PingResp;

impl View for PingResp {
    type V = PingResp;

    open spec fn view(&self) -> PingResp {
        *self
    }
}

/// Ends the session. It has no payload.
#[derive(Debug, Clone, Copy, PartialEq, Eq, Default, Structural)]
pub struct Disconnect;

impl View for Disconnect {
    type V = Disconnect;

    open spec fn view(&self) -> Disconnect {
        *self
    }
}

} // verus!
