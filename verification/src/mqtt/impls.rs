//! The wire form of each packet kind, side by side with its reader.

use vstd::prelude::*;
use crate::mqtt::codec::{spec_offsets_fit, Decode, Encode};
use crate::mqtt::error::{spec_too_short, DecodeError};
use crate::mqtt::packets::{
    spec_connect_flags, spec_publish_flags, ConnAck, Connect, ConnectView, Disconnect, FilterView,
    PingReq, PingResp, PubAck, Publish, PublishView, SubAck, Subscribe, SubscribeFilter,
};
use crate::mqtt::types::{ConnectReturnCode, QoS, SubAckReturnCode};
use crate::mqtt::wire::{
    read_bytes, read_string, read_u16, spec_bytes_wire, spec_read_bytes, spec_read_string,
    spec_read_u16, spec_string_fits, spec_string_wire, spec_u16_be, utf8_len, write_bytes,
    write_string,
    write_u16, MAX_FIELD_LEN,
};
use vstd::slice::slice_to_vec;

verus! {

/// The wire form of an optional string: nothing when it is absent.
pub open spec fn spec_opt_string_wire(s: Option<Seq<char>>) -> Seq<u8> {
    match s {
        Some(s) => spec_string_wire(s),
        None => Seq::empty(),
    }
}

/// The wire form of an optional byte string: nothing when it is absent.
pub open spec fn spec_opt_bytes_wire(b: Option<Seq<u8>>) -> Seq<u8> {
    match b {
        Some(b) => spec_bytes_wire(b),
        None => Seq::empty(),
    }
}

/// What reading a string that is there only if `present` yields.
pub open spec fn spec_read_opt_string(present: bool, buf: Seq<u8>, offset: int) -> Result<
    (Option<Seq<char>>, int),
    DecodeError,
> {
    if present {
        match spec_read_string(buf, offset) {
            Ok((s, end)) => Ok((Some(s), end)),
            Err(e) => Err(e),
        }
    } else {
        Ok((None, offset))
    }
}

/// What reading a byte string that is there only if `present` yields.
pub open spec fn spec_read_opt_bytes(present: bool, buf: Seq<u8>, offset: int) -> Result<
    (Option<Seq<u8>>, int),
    DecodeError,
> {
    if present {
        match spec_read_bytes(buf, offset) {
            Ok((b, end)) => Ok((Some(b), end)),
            Err(e) => Err(e),
        }
    } else {
        Ok((None, offset))
    }
}

/// The payload of a connect: flags, keep-alive, client identifier, then the
/// username and the password if there are any.
pub open spec fn spec_connect_wire(c: ConnectView) -> Seq<u8> {
    seq![spec_connect_flags(c.clean_session, c.username is Some, c.password is Some)]
        + spec_u16_be(c.keep_alive) + spec_string_wire(c.client_id) + spec_opt_string_wire(
        c.username,
    ) + spec_opt_bytes_wire(c.password)
}

/// Whether each string of a connect is short enough for its length prefix.
pub open spec fn spec_connect_encodable(c: ConnectView) -> bool {
    &&& spec_string_fits(c.client_id)
    &&& c.username matches Some(u) ==> spec_string_fits(u)
    &&& c.password matches Some(p) ==> p.len() <= MAX_FIELD_LEN
}

/// What decoding a connect yields. The flags byte alone says whether a
/// username and a password follow the client identifier.
pub open spec fn spec_connect_decode(buf: Seq<u8>) -> Result<ConnectView, DecodeError> {
    if buf.len() < 3 {
        Err(spec_too_short(3, buf.len()))
    } else {
        match spec_read_u16(buf, 1) {
            Err(e) => Err(e),
            Ok(keep_alive) => match spec_read_string(buf, 3) {
                Err(e) => Err(e),
                Ok((client_id, after_id)) => match spec_read_opt_string(
                    buf[0] & 0x80 != 0,
                    buf,
                    after_id,
                ) {
                    Err(e) => Err(e),
                    Ok((username, after_user)) => match spec_read_opt_bytes(
                        buf[0] & 0x40 != 0,
                        buf,
                        after_user,
                    ) {
                        Err(e) => Err(e),
                        Ok((password, _)) => Ok(
                            ConnectView {
                                client_id,
                                keep_alive,
                                clean_session: buf[0] & 0x02 != 0,
                                username,
                                password,
                            },
                        ),
                    },
                },
            },
        }
    }
}

impl Encode for Connect {
    open spec fn spec_wire(&self) -> Seq<u8> {
        spec_connect_wire(self@)
    }

    open spec fn spec_encodable(&self) -> bool {
        spec_connect_encodable(self@)
    }

    fn encode(&self, buf: &mut Vec<u8>) {
        buf.push(self.flags());
        write_u16(buf, self.keep_alive);
        write_string(buf, self.client_id.as_str());
        if let Some(username) = &self.username {
            write_string(buf, username.as_str());
        }
        if let Some(password) = &self.password {
            write_bytes(buf, password.as_slice());
        }
        assert(buf@ =~= old(buf)@ + self.spec_wire());
    }

    fn encoded_len(&self) -> (len: usize) {
        let mut len: usize = 1 + 2 + 2 + utf8_len(self.client_id.as_str());
        if let Some(u) = &self.username {
            len += 2 + utf8_len(u.as_str());
        }
        if let Some(p) = &self.password {
            len += 2 + p.len();
        }
        len
    }
}

impl Decode for Connect {
    open spec fn spec_decode(buf: Seq<u8>) -> Result<ConnectView, DecodeError> {
        spec_connect_decode(buf)
    }

    fn decode(buf: &[u8]) -> (r: Result<Self, DecodeError>) {
        if buf.len() < 3 {
            return Err(DecodeError::BufferTooShort { expected: 3, actual: buf.len() });
        }
        let flags = buf[0];
        let clean_session = (flags & 0x02) != 0;
        let has_username = (flags & 0x80) != 0;
        let has_password = (flags & 0x40) != 0;

        let keep_alive = read_u16(buf, 1)?;
        let (client_id, after_id) = read_string(buf, 3)?;

        let mut offset = after_id;
        let username = if has_username {
            let (u, after_user) = read_string(buf, offset)?;
            offset = after_user;
            Some(u)
        } else {
            None
        };

        let password = if has_password {
            let (p, _) = read_bytes(buf, offset)?;
            Some(p)
        } else {
            None
        };

        Ok(Connect { client_id, keep_alive, clean_session, username, password })
    }
}

/// The payload of a connect acknowledgement: the session flag as 0 or 1,
/// then the return code.
pub open spec fn spec_connack_wire(a: ConnAck) -> Seq<u8> {
    seq![if a.session_present { 1u8 } else { 0u8 }, a.return_code.spec_byte()]
}

/// What decoding a connect acknowledgement yields. Any non-zero first byte
/// counts as a present session.
pub open spec fn spec_connack_decode(buf: Seq<u8>) -> Result<ConnAck, DecodeError> {
    if buf.len() < 2 {
        Err(spec_too_short(2, buf.len()))
    } else {
        match ConnectReturnCode::spec_from_byte(buf[1]) {
            Ok(return_code) => Ok(ConnAck { session_present: buf[0] != 0, return_code }),
            Err(v) => Err(DecodeError::InvalidReturnCode(v)),
        }
    }
}

impl Encode for ConnAck {
    open spec fn spec_wire(&self) -> Seq<u8> {
        spec_connack_wire(*self)
    }

    open spec fn spec_encodable(&self) -> bool {
        true
    }

    fn encode(&self, buf: &mut Vec<u8>) {
        buf.push(if self.session_present { 1 } else { 0 });
        buf.push(self.return_code.into());
        assert(buf@ =~= old(buf)@ + self.spec_wire());
    }

    fn encoded_len(&self) -> (len: usize) {
        2
    }
}

impl Decode for ConnAck {
    open spec fn spec_decode(buf: Seq<u8>) -> Result<ConnAck, DecodeError> {
        spec_connack_decode(buf)
    }

    fn decode(buf: &[u8]) -> (r: Result<Self, DecodeError>) {
        if buf.len() < 2 {
            return Err(DecodeError::BufferTooShort { expected: 2, actual: buf.len() });
        }
        match ConnectReturnCode::try_from(buf[1]) {
            Ok(return_code) => Ok(ConnAck { session_present: buf[0] != 0, return_code }),
            Err(v) => Err(DecodeError::InvalidReturnCode(v)),
        }
    }
}

/// The payload of a publish: flags, topic, then the message bytes with no
/// length of their own.
pub open spec fn spec_publish_wire(p: PublishView) -> Seq<u8> {
    seq![spec_publish_flags(p.qos, p.retain)] + spec_string_wire(p.topic) + p.payload
}

/// What decoding a publish yields. Everything behind the topic is the
/// message.
pub open spec fn spec_publish_decode(buf: Seq<u8>) -> Result<PublishView, DecodeError> {
    if buf.len() == 0 {
        Err(spec_too_short(1, 0))
    } else {
        match QoS::spec_from_byte((buf[0] >> 1) & 0x03) {
            Err(v) => Err(DecodeError::InvalidQoS(v)),
            Ok(qos) => match spec_read_string(buf, 1) {
                Err(e) => Err(e),
                Ok((topic, after_topic)) => Ok(
                    PublishView {
                        topic,
                        qos,
                        retain: buf[0] & 0x01 != 0,
                        payload: buf.subrange(after_topic, buf.len() as int),
                    },
                ),
            },
        }
    }
}

impl Encode for Publish {
    open spec fn spec_wire(&self) -> Seq<u8> {
        spec_publish_wire(self@)
    }

    open spec fn spec_encodable(&self) -> bool {
        spec_string_fits(self@.topic)
    }

    fn encode(&self, buf: &mut Vec<u8>) {
        buf.push(self.flags());
        write_string(buf, self.topic.as_str());
        buf.extend_from_slice(self.payload.as_slice());
        assert(buf@ =~= old(buf)@ + self.spec_wire());
    }

    fn encoded_len(&self) -> (len: usize) {
        1 + 2 + utf8_len(self.topic.as_str()) + self.payload.len()
    }
}

impl Decode for Publish {
    open spec fn spec_decode(buf: Seq<u8>) -> Result<PublishView, DecodeError> {
        spec_publish_decode(buf)
    }

    fn decode(buf: &[u8]) -> (r: Result<Self, DecodeError>) {
        if buf.len() == 0 {
            return Err(DecodeError::BufferTooShort { expected: 1, actual: 0 });
        }
        let flags = buf[0];
        let qos = match QoS::try_from((flags >> 1) & 0x03) {
            Ok(qos) => qos,
            Err(v) => {
                return Err(DecodeError::InvalidQoS(v));
            },
        };
        let retain = (flags & 0x01) != 0;

        let (topic, after_topic) = read_string(buf, 1)?;
        let payload = slice_to_vec(&buf[after_topic..buf.len()]);

        Ok(Publish { topic, qos, retain, payload })
    }
}

impl Encode for PubAck {
    open spec fn spec_wire(&self) -> Seq<u8> {
        Seq::empty()
    }

    open spec fn spec_encodable(&self) -> bool {
        true
    }

    fn encode(&self, buf: &mut Vec<u8>) {
        assert(buf@ =~= old(buf)@ + self.spec_wire());
    }

    fn encoded_len(&self) -> (len: usize) {
        0
    }
}

impl Decode for PubAck {
    open spec fn spec_decode(buf: Seq<u8>) -> Result<PubAck, DecodeError> {
        Ok(PubAck)
    }

    fn decode(buf: &[u8]) -> (r: Result<Self, DecodeError>) {
        Ok(PubAck)
    }
}

/// The largest number that the one-byte count of a subscribe or of a
/// subscribe acknowledgement can announce.
pub const MAX_COUNT: usize = 255;

/// A decoded head in front of what decoding the rest yields.
pub open spec fn spec_prepend<T>(head: Seq<T>, rest: Result<Seq<T>, DecodeError>) -> Result<
    Seq<T>,
    DecodeError,
> {
    match rest {
        Ok(rest) => Ok(head + rest),
        Err(e) => Err(e),
    }
}

/// The wire form of one filter: the topic, then the level.
pub open spec fn spec_filter_wire(f: FilterView) -> Seq<u8> {
    spec_string_wire(f.topic) + seq![f.qos.spec_byte()]
}

/// The wire forms of the filters, one behind the other.
pub open spec fn spec_filters_wire(filters: Seq<FilterView>) -> Seq<u8>
    decreases filters.len(),
{
    if filters.len() == 0 {
        Seq::empty()
    } else {
        spec_filter_wire(filters[0]) + spec_filters_wire(filters.drop_first())
    }
}

/// The payload of a subscribe: the number of filters in one byte, then the
/// filters in order.
pub open spec fn spec_subscribe_wire(filters: Seq<FilterView>) -> Seq<u8> {
    seq![filters.len() as u8] + spec_filters_wire(filters)
}

/// Whether the filters can be counted in one byte and each topic is short
/// enough for its length prefix.
pub open spec fn spec_subscribe_encodable(filters: Seq<FilterView>) -> bool {
    &&& filters.len() <= MAX_COUNT
    &&& forall|i: int| 0 <= i < filters.len() ==> spec_string_fits(#[trigger] filters[i].topic)
}

/// What reading `count` filters from `offset` on yields: each is a topic
/// followed by one level byte.
pub open spec fn spec_read_filters(buf: Seq<u8>, offset: int, count: nat) -> Result<
    Seq<FilterView>,
    DecodeError,
>
    decreases count,
{
    if count == 0 {
        Ok(Seq::empty())
    } else {
        match spec_read_string(buf, offset) {
            Err(e) => Err(e),
            Ok((topic, after_topic)) => if buf.len() <= after_topic {
                Err(spec_too_short(after_topic + 1, buf.len()))
            } else {
                match QoS::spec_from_byte(buf[after_topic]) {
                    Err(v) => Err(DecodeError::InvalidQoS(v)),
                    Ok(qos) => spec_prepend(
                        seq![FilterView { topic, qos }],
                        spec_read_filters(buf, after_topic + 1, (count - 1) as nat),
                    ),
                }
            },
        }
    }
}

/// What decoding a subscribe yields: as many filters as the first byte
/// announces.
pub open spec fn spec_subscribe_decode(buf: Seq<u8>) -> Result<Seq<FilterView>, DecodeError> {
    if buf.len() == 0 {
        Err(spec_too_short(1, 0))
    } else {
        spec_read_filters(buf, 1, buf[0] as nat)
    }
}

/// The wire form of the first `n + 1` filters is that of the first `n`
/// followed by that of filter `n`.
pub proof fn lemma_filters_wire_push(filters: Seq<FilterView>, f: FilterView)
    ensures
        spec_filters_wire(filters.push(f)) == spec_filters_wire(filters) + spec_filter_wire(f),
    decreases filters.len(),
{
    if filters.len() == 0 {
        assert(filters.push(f).drop_first() =~= Seq::<FilterView>::empty());
        assert(spec_filters_wire(filters.push(f).drop_first()) =~= Seq::<u8>::empty());
        assert(spec_filters_wire(filters.push(f)) =~= spec_filter_wire(f));
    } else {
        lemma_filters_wire_push(filters.drop_first(), f);
        assert(filters.push(f).drop_first() =~= filters.drop_first().push(f));
        assert(spec_filters_wire(filters.push(f)) =~= spec_filters_wire(filters)
            + spec_filter_wire(f));
    }
}

/// The wire form of some leading filters is no longer than that of all.
pub proof fn lemma_filters_wire_prefix_len(filters: Seq<FilterView>, n: int)
    requires
        0 <= n <= filters.len(),
    ensures
        spec_filters_wire(filters.take(n)).len() <= spec_filters_wire(filters).len(),
    decreases filters.len() - n,
{
    if n == filters.len() {
        assert(filters.take(n) =~= filters);
    } else {
        lemma_filters_wire_prefix_len(filters, n + 1);
        lemma_filters_wire_push(filters.take(n), filters[n]);
        assert(filters.take(n + 1) =~= filters.take(n).push(filters[n]));
    }
}

impl Encode for Subscribe {
    open spec fn spec_wire(&self) -> Seq<u8> {
        spec_subscribe_wire(self@)
    }

    open spec fn spec_encodable(&self) -> bool {
        spec_subscribe_encodable(self@)
    }

    fn encode(&self, buf: &mut Vec<u8>) {
        buf.push(self.filters.len() as u8);
        let n = self.filters.len();
        let mut i: usize = 0;
        while i < n
            invariant
                i <= n,
                n == self.filters.len(),
                spec_subscribe_encodable(self@),
                buf@ == old(buf)@ + seq![n as u8] + spec_filters_wire(self@.take(i as int)),
            decreases n - i,
        {
            let filter = &self.filters[i];
            proof {
                lemma_filters_wire_push(self@.take(i as int), self@[i as int]);
                assert(self@.take(i as int + 1) =~= self@.take(i as int).push(self@[i as int]));
                assert(self@[i as int] == filter@);
            }
            write_string(buf, filter.topic.as_str());
            buf.push(filter.qos.into());
            i += 1;
            assert(buf@ =~= old(buf)@ + seq![n as u8] + spec_filters_wire(self@.take(i as int)));
        }
        assert(self@.take(n as int) =~= self@);
        assert(buf@ =~= old(buf)@ + self.spec_wire());
    }

    fn encoded_len(&self) -> (len: usize) {
        let n = self.filters.len();
        let mut len: usize = 1;
        let mut i: usize = 0;
        while i < n
            invariant
                i <= n,
                n == self.filters.len(),
                spec_subscribe_wire(self@).len() <= usize::MAX,
                len == 1 + spec_filters_wire(self@.take(i as int)).len(),
            decreases n - i,
        {
            let filter = &self.filters[i];
            proof {
                lemma_filters_wire_push(self@.take(i as int), self@[i as int]);
                assert(self@.take(i as int + 1) =~= self@.take(i as int).push(self@[i as int]));
                assert(self@[i as int] == filter@);
                lemma_filters_wire_prefix_len(self@, i as int + 1);
            }
            len += 2 + utf8_len(filter.topic.as_str()) + 1;
            i += 1;
        }
        assert(self@.take(n as int) =~= self@);
        len
    }
}

impl Decode for Subscribe {
    open spec fn spec_decode(buf: Seq<u8>) -> Result<Seq<FilterView>, DecodeError> {
        spec_subscribe_decode(buf)
    }

    fn decode(buf: &[u8]) -> (r: Result<Self, DecodeError>) {
        if buf.len() == 0 {
            return Err(DecodeError::BufferTooShort { expected: 1, actual: 0 });
        }
        let count = buf[0] as usize;
        let mut filters: Vec<SubscribeFilter> = Vec::with_capacity(count);
        let mut offset: usize = 1;
        let mut i: usize = 0;
        while i < count
            invariant
                i <= count,
                0 < buf@.len(),
                count == buf@[0],
                offset <= buf@.len(),
                spec_offsets_fit(buf@.len()),
                spec_read_filters(buf@, 1, count as nat) == spec_prepend(
                    filters@.map_values(|f: SubscribeFilter| f@),
                    spec_read_filters(buf@, offset as int, (count - i) as nat),
                ),
            decreases count - i,
        {
            let ghost done = filters@.map_values(|f: SubscribeFilter| f@);
            let (topic, after_topic) = read_string(buf, offset)?;
            if buf.len() <= after_topic {
                return Err(
                    DecodeError::BufferTooShort { expected: after_topic + 1, actual: buf.len() },
                );
            }
            let qos = match QoS::try_from(buf[after_topic]) {
                Ok(qos) => qos,
                Err(v) => {
                    return Err(DecodeError::InvalidQoS(v));
                },
            };
            offset = after_topic + 1;
            let filter = SubscribeFilter { topic, qos };
            filters.push(filter);
            i += 1;
            proof {
                let now = filters@.map_values(|f: SubscribeFilter| f@);
                assert(now =~= done.push(filter@));
                let rest = spec_read_filters(buf@, offset as int, (count - i) as nat);
                if let Ok(tail) = rest {
                    assert(done + (seq![filter@] + tail) =~= now + tail);
                }
            }
        }
        let s = Subscribe { filters };
        proof {
            assert(s@ + Seq::<FilterView>::empty() =~= s@);
        }
        Ok(s)
    }
}

/// The bytes of the return codes, in order.
pub open spec fn spec_codes_wire(codes: Seq<SubAckReturnCode>) -> Seq<u8> {
    Seq::new(codes.len(), |i: int| codes[i].spec_byte())
}

/// The payload of a subscribe acknowledgement: the number of codes in one
/// byte, then one byte for each.
pub open spec fn spec_suback_wire(codes: Seq<SubAckReturnCode>) -> Seq<u8> {
    seq![codes.len() as u8] + spec_codes_wire(codes)
}

/// What reading `count` return codes from `offset` on yields, for a buffer
/// that holds them all: the codes, or the first byte among them that names
/// none.
pub open spec fn spec_read_codes(buf: Seq<u8>, offset: int, count: nat) -> Result<
    Seq<SubAckReturnCode>,
    DecodeError,
>
    decreases count,
{
    if count == 0 {
        Ok(Seq::empty())
    } else {
        match SubAckReturnCode::spec_from_byte(buf[offset]) {
            Err(v) => Err(DecodeError::InvalidReturnCode(v)),
            Ok(code) => spec_prepend(
                seq![code],
                spec_read_codes(buf, offset + 1, (count - 1) as nat),
            ),
        }
    }
}

/// What decoding a subscribe acknowledgement yields. All announced bytes
/// must be present before the first of them is looked at.
pub open spec fn spec_suback_decode(buf: Seq<u8>) -> Result<Seq<SubAckReturnCode>, DecodeError> {
    if buf.len() == 0 {
        Err(spec_too_short(1, 0))
    } else if buf.len() < 1 + buf[0] {
        Err(spec_too_short(1 + buf[0], buf.len()))
    } else {
        spec_read_codes(buf, 1, buf[0] as nat)
    }
}

impl Encode for SubAck {
    open spec fn spec_wire(&self) -> Seq<u8> {
        spec_suback_wire(self@)
    }

    open spec fn spec_encodable(&self) -> bool {
        self@.len() <= MAX_COUNT
    }

    fn encode(&self, buf: &mut Vec<u8>) {
        buf.push(self.return_codes.len() as u8);
        let n = self.return_codes.len();
        let mut i: usize = 0;
        while i < n
            invariant
                i <= n,
                n == self.return_codes.len(),
                buf@ == old(buf)@ + seq![n as u8] + spec_codes_wire(self@.take(i as int)),
            decreases n - i,
        {
            buf.push(self.return_codes[i].into());
            i += 1;
            assert(buf@ =~= old(buf)@ + seq![n as u8] + spec_codes_wire(self@.take(i as int)));
        }
        assert(self@.take(n as int) =~= self@);
        assert(buf@ =~= old(buf)@ + self.spec_wire());
    }

    fn encoded_len(&self) -> (len: usize) {
        1 + self.return_codes.len()
    }
}

impl Decode for SubAck {
    open spec fn spec_decode(buf: Seq<u8>) -> Result<Seq<SubAckReturnCode>, DecodeError> {
        spec_suback_decode(buf)
    }

    fn decode(buf: &[u8]) -> (r: Result<Self, DecodeError>) {
        if buf.len() == 0 {
            return Err(DecodeError::BufferTooShort { expected: 1, actual: 0 });
        }
        let count = buf[0] as usize;
        if buf.len() < 1 + count {
            return Err(DecodeError::BufferTooShort { expected: 1 + count, actual: buf.len() });
        }
        let mut return_codes: Vec<SubAckReturnCode> = Vec::with_capacity(count);
        let mut i: usize = 0;
        while i < count
            invariant
                i <= count,
                count == buf@[0],
                1 + count <= buf@.len(),
                spec_read_codes(buf@, 1, count as nat) == spec_prepend(
                    return_codes@,
                    spec_read_codes(buf@, 1 + i, (count - i) as nat),
                ),
            decreases count - i,
        {
            let ghost done = return_codes@;
            let code = match SubAckReturnCode::try_from(buf[1 + i]) {
                Ok(code) => code,
                Err(v) => {
                    return Err(DecodeError::InvalidReturnCode(v));
                },
            };
            return_codes.push(code);
            i += 1;
            proof {
                let rest = spec_read_codes(buf@, 1 + i, (count - i) as nat);
                if let Ok(tail) = rest {
                    assert(done + (seq![code] + tail) =~= return_codes@ + tail);
                }
            }
        }
        proof {
            assert(return_codes@ + Seq::<SubAckReturnCode>::empty() =~= return_codes@);
        }
        Ok(SubAck { return_codes })
    }
}

impl Encode for PingReq {
    open spec fn spec_wire(&self) -> Seq<u8> {
        Seq::empty()
    }

    open spec fn spec_encodable(&self) -> bool {
        true
    }

    fn encode(&self, buf: &mut Vec<u8>) {
        assert(buf@ =~= old(buf)@ + self.spec_wire());
    }

    fn encoded_len(&self) -> (len: usize) {
        0
    }
}

impl Decode for PingReq {
    open spec fn spec_decode(buf: Seq<u8>) -> Result<PingReq, DecodeError> {
        Ok(PingReq)
    }

    fn decode(buf: &[u8]) -> (r: Result<Self, DecodeError>) {
        Ok(PingReq)
    }
}

impl Encode for PingResp {
    open spec fn spec_wire(&self) -> Seq<u8> {
        Seq::empty()
    }

    open spec fn spec_encodable(&self) -> bool {
        true
    }

    fn encode(&self, buf: &mut Vec<u8>) {
        assert(buf@ =~= old(buf)@ + self.spec_wire());
    }

    fn encoded_len(&self) -> (len: usize) {
        0
    }
}

impl Decode for PingResp {
    open spec fn spec_decode(buf: Seq<u8>) -> Result<PingResp, DecodeError> {
        Ok(PingResp)
    }

    fn decode(buf: &[u8]) -> (r: Result<Self, DecodeError>) {
        Ok(PingResp)
    }
}

impl Encode for Disconnect {
    open spec fn spec_wire(&self) -> Seq<u8> {
        Seq::empty()
    }

    open spec fn spec_encodable(&self) -> bool {
        true
    }

    fn encode(&self, buf: &mut Vec<u8>) {
        assert(buf@ =~= old(buf)@ + self.spec_wire());
    }

    fn encoded_len(&self) -> (len: usize) {
        0
    }
}

impl Decode for Disconnect {
    open spec fn spec_decode(buf: Seq<u8>) -> Result<Disconnect, DecodeError> {
        Ok(Disconnect)
    }

    fn decode(buf: &[u8]) -> (r: Result<Self, DecodeError>) {
        Ok(Disconnect)
    }
}

} // verus!
