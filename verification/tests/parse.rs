use udd::mqtt::{
    ConnAck, Connect, ConnectReturnCode, Disconnect, Packet, PingReq, PingResp, PubAck, Publish,
    QoS, SubAck, SubAckReturnCode, Subscribe, SubscribeFilter, UdpFrame,
};
use udd::tui::parse::{
    connack_from_words, connect_from_words, packet_for_command, parse_mqtt_command,
    publish_from_words, suback_from_words, subscribe_from_words,
};

fn words(list: &[&str]) -> Vec<Vec<char>> {
    list.iter().map(|w| w.chars().collect()).collect()
}

fn chars(text: &str) -> Vec<char> {
    text.chars().collect()
}

fn packet(input: &str) -> Result<Packet, String> {
    parse_mqtt_command(input, 1).map(|frame| frame.packet)
}

#[test]
fn command_connect_defaults() {
    assert_eq!(parse_mqtt_command("connect", 9), Ok(UdpFrame::new(9, Connect::new("id1"))));
    assert_eq!(packet("connect dev1"), Ok(Connect::new("dev1").into()));
    assert_eq!(packet("connect dev1 extra words"), Ok(Connect::new("dev1").into()));
}

#[test]
fn command_connect_options() {
    let expected = Connect {
        client_id: "dev1".into(),
        keep_alive: 30,
        clean_session: false,
        username: Some("bob".into()),
        password: Some(b"s3cret".to_vec()),
    };
    assert_eq!(
        packet("connect dev1 ka=30 user=bob pass=s3cret clean=0"),
        Ok(expected.clone().into())
    );
    assert_eq!(
        packet("  connect   dev1  keepalive=30   user=bob pass=s3cret clean=false "),
        Ok(expected.into())
    );
    let mut clean = Connect::new("c");
    clean.clean_session = true;
    assert_eq!(packet("connect c clean=0 clean=true"), Ok(clean.clone().into()));
    assert_eq!(packet("connect c clean=0 clean=1"), Ok(clean.into()));
    let mut split = Connect::new("c");
    split.username = Some("a=b".into());
    split.password = Some(vec![]);
    assert_eq!(packet("connect c user=a=b pass="), Ok(split.into()));
    let mut ka = Connect::new("c");
    ka.keep_alive = 65535;
    assert_eq!(packet("connect c ka=1 ka=+065535"), Ok(ka.into()));
}

#[test]
fn command_connect_faults() {
    assert_eq!(packet("connect c ka=abc"), Err("invalid keepalive".to_string()));
    assert_eq!(packet("connect c ka="), Err("invalid keepalive".to_string()));
    assert_eq!(packet("connect c ka=+"), Err("invalid keepalive".to_string()));
    assert_eq!(packet("connect c ka=-1"), Err("invalid keepalive".to_string()));
    assert_eq!(packet("connect c ka=65536"), Err("invalid keepalive".to_string()));
    assert_eq!(packet("connect c ka=99999999999999999999"), Err("invalid keepalive".to_string()));
    assert_eq!(packet("connect c foo=1"), Err("unknown option: foo".to_string()));
    assert_eq!(packet("connect c =1"), Err("unknown option: ".to_string()));
    assert_eq!(packet("connect c KA=1"), Err("unknown option: KA".to_string()));
    assert_eq!(packet("connect c foo=1 ka=x"), Err("unknown option: foo".to_string()));
}

#[test]
fn command_publish() {
    assert_eq!(packet("pub t hello"), Ok(Publish::new("t", b"hello").into()));
    assert_eq!(
        packet("publish sensor/temp 25.5 qos=1 retain"),
        Ok(Publish::new("sensor/temp", b"25.5")
            .with_qos(QoS::AtLeastOnce)
            .with_retain(true)
            .into())
    );
    assert_eq!(
        packet("pub t   spaced \t  out  qos=2"),
        Ok(Publish::new("t", b"spaced out").with_qos(QoS::ExactlyOnce).into())
    );
    assert_eq!(packet("pub t a=b qos=1 qos=0 c"), Ok(Publish::new("t", b"a=b c").into()));
    assert_eq!(packet("pub t retain"), Ok(Publish::new("t", b"").with_retain(true).into()));
    assert_eq!(packet("PUB t Retain"), Ok(Publish::new("t", b"Retain").into()));
    assert_eq!(
        packet("pub t \u{e9}t\u{e9}"),
        Ok(Publish::new("t", "\u{e9}t\u{e9}".as_bytes()).into())
    );
    // The topic ends at the first space, not at other white space.
    assert_eq!(packet("pub a\tb c"), Ok(Publish::new("a\tb", b"c").into()));
}

#[test]
fn command_publish_faults() {
    let usage = "pub|publish <topic> <payload> [qos=0|1|2] [retain]".to_string();
    assert_eq!(packet("pub"), Err(usage.clone()));
    assert_eq!(packet("pub t"), Err(usage.clone()));
    assert_eq!(packet("publish   t   "), Err(usage));
    assert_eq!(packet("pub t x qos=3"), Err("qos must be 0, 1, or 2".to_string()));
    assert_eq!(packet("pub t x qos="), Err("qos must be 0, 1, or 2".to_string()));
}

#[test]
fn command_subscribe() {
    assert_eq!(packet("sub a"), Ok(Subscribe::single("a", QoS::AtMostOnce).into()));
    assert_eq!(
        packet("subscribe home/+/temp,office/# qos=1"),
        Ok(Subscribe::new(vec![
            SubscribeFilter::new("home/+/temp", QoS::AtLeastOnce),
            SubscribeFilter::new("office/#", QoS::AtLeastOnce),
        ])
        .into())
    );
    assert_eq!(
        packet("sub qos=2 a b,c other=1 qos=1"),
        Ok(Subscribe::new(vec![
            SubscribeFilter::new("a", QoS::AtLeastOnce),
            SubscribeFilter::new("b", QoS::AtLeastOnce),
            SubscribeFilter::new("c", QoS::AtLeastOnce),
        ])
        .into())
    );
    assert_eq!(
        packet("sub a,,b,"),
        Ok(Subscribe::new(vec![
            SubscribeFilter::new("a", QoS::AtMostOnce),
            SubscribeFilter::new("", QoS::AtMostOnce),
            SubscribeFilter::new("b", QoS::AtMostOnce),
            SubscribeFilter::new("", QoS::AtMostOnce),
        ])
        .into())
    );
}

#[test]
fn command_subscribe_faults() {
    let none = "subscribe requires at least one topic".to_string();
    assert_eq!(packet("sub"), Err(none.clone()));
    assert_eq!(packet("sub qos=1"), Err(none.clone()));
    assert_eq!(packet("sub x=y"), Err(none));
    assert_eq!(packet("sub a qos=9"), Err("qos must be 0, 1, or 2".to_string()));
}

#[test]
fn command_without_arguments() {
    assert_eq!(packet("ping"), Ok(PingReq.into()));
    assert_eq!(packet("pong"), Ok(PingResp.into()));
    assert_eq!(packet("pingresp"), Ok(PingResp.into()));
    assert_eq!(packet("disconnect"), Ok(Disconnect.into()));
    assert_eq!(packet("disc"), Ok(Disconnect.into()));
    assert_eq!(packet("puback"), Ok(PubAck.into()));
    assert_eq!(packet("  PiNg  ignored words"), Ok(PingReq.into()));
    assert_eq!(parse_mqtt_command("ping", 65535), Ok(UdpFrame::new(65535, PingReq)));
}

#[test]
fn command_connack() {
    assert_eq!(packet("connack"), Ok(ConnAck::accepted(false).into()));
    assert_eq!(packet("connack accepted session=true"), Ok(ConnAck::accepted(true).into()));
    assert_eq!(packet("connack session=1"), Ok(ConnAck::accepted(true).into()));
    assert_eq!(packet("connack session=yes1"), Ok(ConnAck::accepted(true).into()));
    assert_eq!(packet("connack session=1 session=0"), Ok(ConnAck::accepted(false).into()));
    assert_eq!(packet("connack session= what ever"), Ok(ConnAck::accepted(false).into()));
    assert_eq!(
        packet("connack rejected"),
        Ok(ConnAck { session_present: false, return_code: ConnectReturnCode::NotAuthorized }.into())
    );
    assert_eq!(
        packet("connack unauthorized session=true"),
        Ok(ConnAck { session_present: true, return_code: ConnectReturnCode::NotAuthorized }.into())
    );
    assert_eq!(
        packet("connack rejected unavailable"),
        Ok(ConnAck { session_present: false, return_code: ConnectReturnCode::ServerUnavailable }
            .into())
    );
    assert_eq!(packet("connack unavailable accepted"), Ok(ConnAck::accepted(false).into()));
}

#[test]
fn command_suback() {
    assert_eq!(
        packet("suback 0 1 2 fail failure"),
        Ok(SubAck::new(vec![
            SubAckReturnCode::SuccessQoS0,
            SubAckReturnCode::SuccessQoS1,
            SubAckReturnCode::SuccessQoS2,
            SubAckReturnCode::Failure,
            SubAckReturnCode::Failure,
        ])
        .into())
    );
    assert_eq!(packet("suback"), Ok(SubAck::new(vec![]).into()));
    assert_eq!(packet("suback 0 3 x"), Err("invalid suback code: 3".to_string()));
    assert_eq!(packet("suback FAIL"), Err("invalid suback code: FAIL".to_string()));
}

#[test]
fn command_unknown() {
    assert_eq!(packet("bogus x y"), Err("unknown command: bogus".to_string()));
    assert_eq!(packet("BoGuS"), Err("unknown command: BoGuS".to_string()));
    assert_eq!(packet(""), Err("unknown command: ".to_string()));
    assert_eq!(packet("   "), Err("unknown command: ".to_string()));
    assert_eq!(packet("ping\tnow"), Err("unknown command: ping\tnow".to_string()));
}

#[test]
fn words_to_packets() {
    assert_eq!(connect_from_words(&words(&[])), Ok(Connect::new("id1")));
    assert_eq!(connect_from_words(&words(&["x", "ka=+7"])).unwrap().keep_alive, 7);
    assert_eq!(
        publish_from_words(&chars("t"), &words(&["a", "retain", "b"])),
        Ok(Publish::new("t", b"a b").with_retain(true))
    );
    assert_eq!(
        subscribe_from_words(&words(&["a,b"])),
        Ok(Subscribe::new(vec![
            SubscribeFilter::new("a", QoS::AtMostOnce),
            SubscribeFilter::new("b", QoS::AtMostOnce),
        ]))
    );
    assert_eq!(connack_from_words(&words(&["session=true"])), ConnAck::accepted(true));
    assert_eq!(
        suback_from_words(&words(&["fail"])),
        Ok(SubAck::new(vec![SubAckReturnCode::Failure]))
    );
    assert_eq!(
        packet_for_command(&chars("ping"), &chars("PING"), &chars("")),
        Ok(Packet::PingReq(PingReq))
    );
    assert_eq!(
        packet_for_command(&chars("PING"), &chars("PING"), &chars("")),
        Err("unknown command: PING".to_string())
    );
}
