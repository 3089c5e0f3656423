//! The command language: one line of text that names a packet.

use vstd::prelude::*;
use vstd::string::StrSliceExecFns;
use vstd::utf8::encode_utf8;
use crate::mqtt::frame::{FrameView, Packet, PacketView, UdpFrame};
use crate::mqtt::packets::{
    ConnAck, Connect, ConnectView, Disconnect, FilterView, PingReq, PingResp, PubAck, Publish,
    PublishView, SubAck, Subscribe, SubscribeFilter,
};
use crate::mqtt::types::{ConnectReturnCode, QoS, SubAckReturnCode};
use crate::text::{
    chars_of, ends_with, join, parse_u16, same_text, spec_ends_with, spec_join, spec_lowercase,
    spec_parse_u16, spec_split, spec_split_once, spec_split_whitespace, spec_starts_with,
    spec_texts, spec_trim, split_into, split_once, split_whitespace, starts_with, string_of,
    text_then, trim,
};

verus! {

/// The level that a word names: `0`, `1` or `2`.
pub open spec fn spec_qos_word(v: Seq<char>) -> Option<QoS> {
    if v == "0"@ {
        Some(QoS::AtMostOnce)
    } else if v == "1"@ {
        Some(QoS::AtLeastOnce)
    } else if v == "2"@ {
        Some(QoS::ExactlyOnce)
    } else {
        None
    }
}

/// The level that a word names.
pub fn qos_word(v: &[char]) -> (r: Option<QoS>)
    ensures
        r == spec_qos_word(v@),
{
    if same_text(v, "0") {
        Some(QoS::AtMostOnce)
    } else if same_text(v, "1") {
        Some(QoS::AtLeastOnce)
    } else if same_text(v, "2") {
        Some(QoS::ExactlyOnce)
    } else {
        None
    }
}

/// A connect after one more word of its command. A word `key=value` sets
/// the keep-alive (`keepalive`, `ka`), the username (`user`), the password
/// (`pass`) or the clean-session flag (`clean`); any other key is a fault.
/// A word without `=` changes nothing.
pub open spec fn spec_connect_word(c: ConnectView, word: Seq<char>) -> Result<
    ConnectView,
    Seq<char>,
> {
    match spec_split_once(word, '=') {
        None => Ok(c),
        Some((k, v)) => if k == "keepalive"@ || k == "ka"@ {
            match spec_parse_u16(v) {
                Some(keep_alive) => Ok(ConnectView { keep_alive, ..c }),
                None => Err("invalid keepalive"@),
            }
        } else if k == "user"@ {
            Ok(ConnectView { username: Some(v), ..c })
        } else if k == "pass"@ {
            Ok(ConnectView { password: Some(encode_utf8(v)), ..c })
        } else if k == "clean"@ {
            Ok(ConnectView { clean_session: v == "true"@ || v == "1"@, ..c })
        } else {
            Err("unknown option: "@ + k)
        },
    }
}

/// A connect after the words from `from` on, read in order; the first
/// fault ends the reading.
pub open spec fn spec_connect_words(c: ConnectView, words: Seq<Seq<char>>, from: int) -> Result<
    ConnectView,
    Seq<char>,
>
    decreases words.len() - from,
{
    if from < 0 || from >= words.len() {
        Ok(c)
    } else {
        match spec_connect_word(c, words[from]) {
            Err(e) => Err(e),
            Ok(next) => spec_connect_words(next, words, from + 1),
        }
    }
}

/// The connect that the words behind `connect` name: the first word is the
/// client identifier (`id1` if there is none), the others are options.
pub open spec fn spec_connect_command(words: Seq<Seq<char>>) -> Result<ConnectView, Seq<char>> {
    let client_id = if words.len() > 0 {
        words[0]
    } else {
        "id1"@
    };
    spec_connect_words(
        ConnectView {
            client_id,
            keep_alive: 60,
            clean_session: true,
            username: None,
            password: None,
        },
        words,
        1,
    )
}

/// The outcome of a parse with the value and the message as views.
pub open spec fn spec_parsed<T: View>(r: Result<T, String>) -> Result<T::V, Seq<char>> {
    match r {
        Ok(v) => Ok(v@),
        Err(message) => Err(message@),
    }
}

/// The connect that the words behind `connect` name.
pub fn connect_from_words(words: &Vec<Vec<char>>) -> (r: Result<Connect, String>)
    ensures
        spec_parsed(r) == spec_connect_command(spec_texts(words@)),
{
    let mut conn = if words.len() > 0 {
        assert(spec_texts(words@)[0] == words@[0]@);
        Connect::new(string_of(words[0].as_slice()).as_str())
    } else {
        Connect::new("id1")
    };
    let mut i: usize = 1;
    while i < words.len()
        invariant
            1 <= i,
            spec_connect_command(spec_texts(words@)) == spec_connect_words(
                conn@,
                spec_texts(words@),
                i as int,
            ),
        decreases words@.len() - i,
    {
        let word = words[i].as_slice();
        assert(spec_texts(words@)[i as int] == word@);
        if let Some((k, v)) = split_once(word, '=') {
            if same_text(k, "keepalive") || same_text(k, "ka") {
                match parse_u16(v) {
                    Some(keep_alive) => {
                        conn.keep_alive = keep_alive;
                    },
                    None => {
                        return Err("invalid keepalive".to_owned());
                    },
                }
            } else if same_text(k, "user") {
                conn.username = Some(string_of(v));
            } else if same_text(k, "pass") {
                conn.password = Some(string_of(v).as_str().as_bytes_vec());
            } else if same_text(k, "clean") {
                conn.clean_session = same_text(v, "true") || same_text(v, "1");
            } else {
                return Err(text_then("unknown option: ", k));
            }
        }
        i += 1;
    }
    Ok(conn)
}

/// What the words of a publish have said so far.
pub ghost struct PublishWords {
    pub qos: QoS,
    pub retain: bool,
    pub payload: Seq<Seq<char>>,
}

/// A publish after one more word of its command: `qos=` with a level sets
/// the level, the word `retain` sets the retain flag, and every other word
/// belongs to the payload.
pub open spec fn spec_publish_word(p: PublishWords, word: Seq<char>) -> Result<
    PublishWords,
    Seq<char>,
> {
    match spec_split_once(word, '=') {
        Some((k, v)) => if k == "qos"@ {
            match spec_qos_word(v) {
                Some(qos) => Ok(PublishWords { qos, ..p }),
                None => Err("qos must be 0, 1, or 2"@),
            }
        } else {
            Ok(PublishWords { payload: p.payload.push(word), ..p })
        },
        None => if word == "retain"@ {
            Ok(PublishWords { retain: true, ..p })
        } else {
            Ok(PublishWords { payload: p.payload.push(word), ..p })
        },
    }
}

/// A publish after the words from `from` on, read in order.
pub open spec fn spec_publish_words(p: PublishWords, words: Seq<Seq<char>>, from: int) -> Result<
    PublishWords,
    Seq<char>,
>
    decreases words.len() - from,
{
    if from < 0 || from >= words.len() {
        Ok(p)
    } else {
        match spec_publish_word(p, words[from]) {
            Err(e) => Err(e),
            Ok(next) => spec_publish_words(next, words, from + 1),
        }
    }
}

/// The publish to `topic` that the words name. The payload is the payload
/// words with one space between each two.
pub open spec fn spec_publish_command(topic: Seq<char>, words: Seq<Seq<char>>) -> Result<
    PublishView,
    Seq<char>,
> {
    match spec_publish_words(
        PublishWords { qos: QoS::AtMostOnce, retain: false, payload: Seq::empty() },
        words,
        0,
    ) {
        Err(e) => Err(e),
        Ok(p) => Ok(
            PublishView {
                topic,
                qos: p.qos,
                retain: p.retain,
                payload: encode_utf8(spec_join(p.payload, ' ')),
            },
        ),
    }
}

/// The publish to `topic` that the words name.
pub fn publish_from_words(topic: &[char], words: &Vec<Vec<char>>) -> (r: Result<Publish, String>)
    ensures
        spec_parsed(r) == spec_publish_command(topic@, spec_texts(words@)),
{
    let mut qos = QoS::AtMostOnce;
    let mut retain = false;
    let mut payload: Vec<Vec<char>> = Vec::new();
    let ghost start = PublishWords { qos: QoS::AtMostOnce, retain: false, payload: Seq::empty() };
    assert(spec_texts(payload@) =~= Seq::<Seq<char>>::empty());
    let mut i: usize = 0;
    while i < words.len()
        invariant
            start == (PublishWords {
                qos: QoS::AtMostOnce,
                retain: false,
                payload: Seq::empty(),
            }),
            spec_publish_words(start, spec_texts(words@), 0) == spec_publish_words(
                PublishWords { qos, retain, payload: spec_texts(payload@) },
                spec_texts(words@),
                i as int,
            ),
        decreases words@.len() - i,
    {
        let word = words[i].as_slice();
        let ghost kept = spec_texts(payload@);
        assert(spec_texts(words@)[i as int] == word@);
        let mut keep = false;
        match split_once(word, '=') {
            Some((k, v)) => {
                if same_text(k, "qos") {
                    match qos_word(v) {
                        Some(level) => {
                            qos = level;
                        },
                        None => {
                            return Err("qos must be 0, 1, or 2".to_owned());
                        },
                    }
                } else {
                    keep = true;
                }
            },
            None => {
                if same_text(word, "retain") {
                    retain = true;
                } else {
                    keep = true;
                }
            },
        }
        if keep {
            payload.push(words[i].clone());
            assert(spec_texts(payload@) =~= kept.push(word@));
        }
        i += 1;
    }
    let text = string_of(join(&payload, ' ').as_slice());
    Ok(
        Publish {
            topic: string_of(topic),
            qos,
            retain,
            payload: text.as_str().as_bytes_vec(),
        },
    )
}

/// What the words of a subscribe have said so far.
pub ghost struct SubscribeWords {
    pub qos: QoS,
    pub topics: Seq<Seq<char>>,
}

/// A subscribe after one more word of its command: `qos=` with a level
/// sets the level for all filters, any other `key=value` is passed over,
/// and a word without `=` is a list of topics with commas between them.
pub open spec fn spec_subscribe_word(s: SubscribeWords, word: Seq<char>) -> Result<
    SubscribeWords,
    Seq<char>,
> {
    match spec_split_once(word, '=') {
        Some((k, v)) => if k == "qos"@ {
            match spec_qos_word(v) {
                Some(qos) => Ok(SubscribeWords { qos, ..s }),
                None => Err("qos must be 0, 1, or 2"@),
            }
        } else {
            Ok(s)
        },
        None => Ok(SubscribeWords { topics: s.topics + spec_split(word, ','), ..s }),
    }
}

/// A subscribe after the words from `from` on, read in order.
pub open spec fn spec_subscribe_words(
    s: SubscribeWords,
    words: Seq<Seq<char>>,
    from: int,
) -> Result<SubscribeWords, Seq<char>>
    decreases words.len() - from,
{
    if from < 0 || from >= words.len() {
        Ok(s)
    } else {
        match spec_subscribe_word(s, words[from]) {
            Err(e) => Err(e),
            Ok(next) => spec_subscribe_words(next, words, from + 1),
        }
    }
}

/// The subscribe that the words name: one filter for each topic, in order,
/// all at the level that was set last. It needs at least one topic.
pub open spec fn spec_subscribe_command(words: Seq<Seq<char>>) -> Result<
    Seq<FilterView>,
    Seq<char>,
> {
    match spec_subscribe_words(
        SubscribeWords { qos: QoS::AtMostOnce, topics: Seq::empty() },
        words,
        0,
    ) {
        Err(e) => Err(e),
        Ok(s) => if s.topics.len() == 0 {
            Err("subscribe requires at least one topic"@)
        } else {
            Ok(Seq::new(s.topics.len(), |i: int| FilterView { topic: s.topics[i], qos: s.qos }))
        },
    }
}

/// The subscribe that the words name.
pub fn subscribe_from_words(words: &Vec<Vec<char>>) -> (r: Result<Subscribe, String>)
    ensures
        spec_parsed(r) == spec_subscribe_command(spec_texts(words@)),
{
    let mut qos = QoS::AtMostOnce;
    let mut topics: Vec<Vec<char>> = Vec::new();
    let ghost start = SubscribeWords { qos: QoS::AtMostOnce, topics: Seq::empty() };
    assert(spec_texts(topics@) =~= Seq::<Seq<char>>::empty());
    let mut i: usize = 0;
    while i < words.len()
        invariant
            start == (SubscribeWords { qos: QoS::AtMostOnce, topics: Seq::empty() }),
            spec_subscribe_words(start, spec_texts(words@), 0) == spec_subscribe_words(
                SubscribeWords { qos, topics: spec_texts(topics@) },
                spec_texts(words@),
                i as int,
            ),
        decreases words@.len() - i,
    {
        let word = words[i].as_slice();
        assert(spec_texts(words@)[i as int] == word@);
        match split_once(word, '=') {
            Some((k, v)) => {
                if same_text(k, "qos") {
                    match qos_word(v) {
                        Some(level) => {
                            qos = level;
                        },
                        None => {
                            return Err("qos must be 0, 1, or 2".to_owned());
                        },
                    }
                }
            },
            None => {
                split_into(word, ',', &mut topics);
            },
        }
        i += 1;
    }
    if topics.len() == 0 {
        return Err("subscribe requires at least one topic".to_owned());
    }
    let mut filters: Vec<SubscribeFilter> = Vec::new();
    let mut k: usize = 0;
    while k < topics.len()
        invariant
            k <= topics@.len(),
            filters@.len() == k,
            forall|j: int|
                0 <= j < k ==> (#[trigger] filters@[j])@ == (FilterView {
                    topic: topics@[j]@,
                    qos,
                }),
        decreases topics@.len() - k,
    {
        filters.push(SubscribeFilter { topic: string_of(topics[k].as_slice()), qos });
        k += 1;
    }
    let s = Subscribe { filters };
    proof {
        let texts = spec_texts(topics@);
        assert(s@ =~= Seq::new(texts.len(), |i: int| FilterView { topic: texts[i], qos }));
    }
    Ok(s)
}

/// A connect acknowledgement after one more word of its command:
/// `accepted`, `rejected`, `unauthorized` and `unavailable` set the return
/// code; a word that starts with `session=` sets the session flag, which is
/// set if the word ends with `true` or with `1`; other words are passed
/// over.
pub open spec fn spec_connack_word(a: ConnAck, word: Seq<char>) -> ConnAck {
    if word == "accepted"@ {
        ConnAck { return_code: ConnectReturnCode::Accepted, ..a }
    } else if word == "rejected"@ || word == "unauthorized"@ {
        ConnAck { return_code: ConnectReturnCode::NotAuthorized, ..a }
    } else if word == "unavailable"@ {
        ConnAck { return_code: ConnectReturnCode::ServerUnavailable, ..a }
    } else if spec_starts_with(word, "session="@) {
        ConnAck {
            session_present: spec_ends_with(word, "true"@) || spec_ends_with(word, "1"@),
            ..a
        }
    } else {
        a
    }
}

/// A connect acknowledgement after the words from `from` on, read in
/// order.
pub open spec fn spec_connack_words(a: ConnAck, words: Seq<Seq<char>>, from: int) -> ConnAck
    decreases words.len() - from,
{
    if from < 0 || from >= words.len() {
        a
    } else {
        spec_connack_words(spec_connack_word(a, words[from]), words, from + 1)
    }
}

/// The connect acknowledgement that the words name; accepted and without
/// a session unless they say otherwise.
pub open spec fn spec_connack_command(words: Seq<Seq<char>>) -> ConnAck {
    spec_connack_words(
        ConnAck { session_present: false, return_code: ConnectReturnCode::Accepted },
        words,
        0,
    )
}

/// The connect acknowledgement that the words name.
pub fn connack_from_words(words: &Vec<Vec<char>>) -> (a: ConnAck)
    ensures
        a == spec_connack_command(spec_texts(words@)),
{
    let mut code = ConnectReturnCode::Accepted;
    let mut session = false;
    let mut i: usize = 0;
    while i < words.len()
        invariant
            spec_connack_command(spec_texts(words@)) == spec_connack_words(
                ConnAck { session_present: session, return_code: code },
                spec_texts(words@),
                i as int,
            ),
        decreases words@.len() - i,
    {
        let word = words[i].as_slice();
        assert(spec_texts(words@)[i as int] == word@);
        if same_text(word, "accepted") {
            code = ConnectReturnCode::Accepted;
        } else if same_text(word, "rejected") || same_text(word, "unauthorized") {
            code = ConnectReturnCode::NotAuthorized;
        } else if same_text(word, "unavailable") {
            code = ConnectReturnCode::ServerUnavailable;
        } else if starts_with(word, "session=") {
            session = ends_with(word, "true") || ends_with(word, "1");
        }
        i += 1;
    }
    ConnAck { session_present: session, return_code: code }
}

/// The return code that a word names: `0`, `1`, `2`, `fail` or `failure`.
pub open spec fn spec_suback_word(word: Seq<char>) -> Option<SubAckReturnCode> {
    if word == "0"@ {
        Some(SubAckReturnCode::SuccessQoS0)
    } else if word == "1"@ {
        Some(SubAckReturnCode::SuccessQoS1)
    } else if word == "2"@ {
        Some(SubAckReturnCode::SuccessQoS2)
    } else if word == "fail"@ || word == "failure"@ {
        Some(SubAckReturnCode::Failure)
    } else {
        None
    }
}

/// The return codes that the words from `from` on name, behind `codes`;
/// the first word that names none is the fault.
pub open spec fn spec_suback_words(
    codes: Seq<SubAckReturnCode>,
    words: Seq<Seq<char>>,
    from: int,
) -> Result<Seq<SubAckReturnCode>, Seq<char>>
    decreases words.len() - from,
{
    if from < 0 || from >= words.len() {
        Ok(codes)
    } else {
        match spec_suback_word(words[from]) {
            None => Err("invalid suback code: "@ + words[from]),
            Some(code) => spec_suback_words(codes.push(code), words, from + 1),
        }
    }
}

/// The subscribe acknowledgement that the words name: one return code for
/// each word, in order.
pub open spec fn spec_suback_command(words: Seq<Seq<char>>) -> Result<
    Seq<SubAckReturnCode>,
    Seq<char>,
> {
    spec_suback_words(Seq::empty(), words, 0)
}

/// The subscribe acknowledgement that the words name.
pub fn suback_from_words(words: &Vec<Vec<char>>) -> (r: Result<SubAck, String>)
    ensures
        spec_parsed(r) == spec_suback_command(spec_texts(words@)),
{
    let mut codes: Vec<SubAckReturnCode> = Vec::new();
    let mut i: usize = 0;
    while i < words.len()
        invariant
            spec_suback_command(spec_texts(words@)) == spec_suback_words(
                codes@,
                spec_texts(words@),
                i as int,
            ),
        decreases words@.len() - i,
    {
        let word = words[i].as_slice();
        assert(spec_texts(words@)[i as int] == word@);
        let code = if same_text(word, "0") {
            SubAckReturnCode::SuccessQoS0
        } else if same_text(word, "1") {
            SubAckReturnCode::SuccessQoS1
        } else if same_text(word, "2") {
            SubAckReturnCode::SuccessQoS2
        } else if same_text(word, "fail") || same_text(word, "failure") {
            SubAckReturnCode::Failure
        } else {
            return Err(text_then("invalid suback code: ", word));
        };
        codes.push(code);
        i += 1;
    }
    Ok(SubAck { return_codes: codes })
}

/// What a publish command without a topic and a payload is answered with.
pub const PUBLISH_USAGE: &'static str = "pub|publish <topic> <payload> [qos=0|1|2] [retain]";

/// The packet that a command names. `word` is the command in lower case,
/// `command` the command as it was written, `rest` what follows it.
pub open spec fn spec_command_packet(
    word: Seq<char>,
    command: Seq<char>,
    rest: Seq<char>,
) -> Result<PacketView, Seq<char>> {
    if word == "connect"@ {
        match spec_connect_command(spec_split_whitespace(rest)) {
            Ok(c) => Ok(PacketView::Connect(c)),
            Err(e) => Err(e),
        }
    } else if word == "pub"@ || word == "publish"@ {
        match spec_split_once(rest, ' ') {
            None => Err(PUBLISH_USAGE@),
            Some((topic, words)) => match spec_publish_command(
                topic,
                spec_split_whitespace(words),
            ) {
                Ok(p) => Ok(PacketView::Publish(p)),
                Err(e) => Err(e),
            },
        }
    } else if word == "sub"@ || word == "subscribe"@ {
        match spec_subscribe_command(spec_split_whitespace(rest)) {
            Ok(s) => Ok(PacketView::Subscribe(s)),
            Err(e) => Err(e),
        }
    } else if word == "ping"@ {
        Ok(PacketView::PingReq(PingReq))
    } else if word == "disconnect"@ || word == "disc"@ {
        Ok(PacketView::Disconnect(Disconnect))
    } else if word == "puback"@ {
        Ok(PacketView::PubAck(PubAck))
    } else if word == "connack"@ {
        Ok(PacketView::ConnAck(spec_connack_command(spec_split_whitespace(rest))))
    } else if word == "suback"@ {
        match spec_suback_command(spec_split_whitespace(rest)) {
            Ok(s) => Ok(PacketView::SubAck(s)),
            Err(e) => Err(e),
        }
    } else if word == "pingresp"@ || word == "pong"@ {
        Ok(PacketView::PingResp(PingResp))
    } else {
        Err("unknown command: "@ + command)
    }
}

/// The packet that a command names.
pub fn packet_for_command(word: &[char], command: &[char], rest: &[char]) -> (r: Result<
    Packet,
    String,
>)
    ensures
        spec_parsed(r) == spec_command_packet(word@, command@, rest@),
{
    if same_text(word, "connect") {
        match connect_from_words(&split_whitespace(rest)) {
            Ok(c) => Ok(Packet::Connect(c)),
            Err(e) => Err(e),
        }
    } else if same_text(word, "pub") || same_text(word, "publish") {
        match split_once(rest, ' ') {
            None => Err(PUBLISH_USAGE.to_owned()),
            Some((topic, words)) => match publish_from_words(topic, &split_whitespace(words)) {
                Ok(p) => Ok(Packet::Publish(p)),
                Err(e) => Err(e),
            },
        }
    } else if same_text(word, "sub") || same_text(word, "subscribe") {
        match subscribe_from_words(&split_whitespace(rest)) {
            Ok(s) => Ok(Packet::Subscribe(s)),
            Err(e) => Err(e),
        }
    } else if same_text(word, "ping") {
        Ok(Packet::PingReq(PingReq))
    } else if same_text(word, "disconnect") || same_text(word, "disc") {
        Ok(Packet::Disconnect(Disconnect))
    } else if same_text(word, "puback") {
        Ok(Packet::PubAck(PubAck))
    } else if same_text(word, "connack") {
        Ok(Packet::ConnAck(connack_from_words(&split_whitespace(rest))))
    } else if same_text(word, "suback") {
        match suback_from_words(&split_whitespace(rest)) {
            Ok(s) => Ok(Packet::SubAck(s)),
            Err(e) => Err(e),
        }
    } else if same_text(word, "pingresp") || same_text(word, "pong") {
        Ok(Packet::PingResp(PingResp))
    } else {
        Err(text_then("unknown command: ", command))
    }
}

/// The command of a line: what stands in front of its first space, or the
/// whole line if it holds none.
pub open spec fn spec_command_of(line: Seq<char>) -> Seq<char> {
    match spec_split_once(line, ' ') {
        Some((command, _)) => command,
        None => line,
    }
}

/// What follows the command of a line, without the white space around it.
pub open spec fn spec_rest_of(line: Seq<char>) -> Seq<char> {
    match spec_split_once(line, ' ') {
        Some((_, rest)) => spec_trim(rest),
        None => Seq::empty(),
    }
}

/// The frame that a line of text names, under the sequence identifier
/// `msg_id`. White space around the line does not count, and the command
/// may be written in any case.
pub open spec fn spec_parse_command(input: Seq<char>, msg_id: u16) -> Result<
    FrameView,
    Seq<char>,
> {
    let line = spec_trim(input);
    let command = spec_command_of(line);
    match spec_command_packet(spec_lowercase(command), command, spec_rest_of(line)) {
        Ok(packet) => Ok(FrameView { msg_id, packet }),
        Err(e) => Err(e),
    }
}

/// Reads a line of text as a command and builds the frame that it names,
/// or says what is wrong with the line.
pub fn parse_mqtt_command(input: &str, msg_id: u16) -> (r: Result<UdpFrame, String>)
    ensures
        spec_parsed(r) == spec_parse_command(input@, msg_id),
{
    let chars = chars_of(input);
    let line = trim(chars.as_slice());
    let (command, rest): (&[char], &[char]) = match split_once(line, ' ') {
        Some((command, rest)) => (command, trim(rest)),
        None => {
            let nothing = &line[0..0];
            assert(nothing@ =~= Seq::<char>::empty());
            (line, nothing)
        },
    };
    let lowered = string_of(command).as_str().to_lowercase();
    let word = chars_of(lowered.as_str());
    match packet_for_command(word.as_slice(), command, rest) {
        Ok(packet) => Ok(UdpFrame { msg_id, packet }),
        Err(e) => Err(e),
    }
}

} // verus!
