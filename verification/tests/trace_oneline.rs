use daqingest::addr::AddrV4;
use daqingest::channeltrace::{
    CaProto, ChannelTraceError, ChannelTraceItem, ChannelTraceItemInner, ConnectionTraceL1Item,
    ConnectionTraceL1ItemInner, Created, ReadNotifyRes,
};

#[test]
fn connection_event_texts() {
    assert_eq!(ConnectionTraceL1ItemInner::Ping.oneline(""), "ping");
    assert_eq!(ConnectionTraceL1ItemInner::Pong(5).duration_ns(), Some(5));
    assert_eq!(ConnectionTraceL1ItemInner::Pong(5).oneline("12"), "pong 12 ms");
    assert_eq!(ConnectionTraceL1ItemInner::TcpConnectAttempt.oneline(""), "tcp connect");
    assert_eq!(ConnectionTraceL1ItemInner::TcpConnected(1).oneline("3"), "tcp connected 3 ms");
    assert_eq!(ConnectionTraceL1ItemInner::TcpConnectError("refused".into()).oneline(""), "tcp connect error refused");
    assert_eq!(ConnectionTraceL1ItemInner::ConnectionError("reset".into()).oneline(""), "connection error reset");
    assert_eq!(ConnectionTraceL1ItemInner::EndOfStream.oneline(""), "end of stream");
    assert_eq!(ConnectionTraceL1ItemInner::EndOfStream.duration_ns(), None);
}

#[test]
fn channel_event_texts() {
    assert_eq!(ChannelTraceItemInner::Error(ChannelTraceError::new("bad".into())).oneline(""), "error: bad");
    assert_eq!(ChannelTraceItemInner::CaProto(CaProto::Created(Created::new(7))).oneline("0"), "created 0 ms");
    assert_eq!(ChannelTraceItemInner::CaProto(CaProto::Created(Created::new(7))).duration_ns(), Some(7));
    assert_eq!(ChannelTraceItemInner::CaProto(CaProto::ReadNotify).oneline(""), "read-notify");
    assert_eq!(ChannelTraceItemInner::CaProto(CaProto::ReadNotifyRes(ReadNotifyRes::new(9))).oneline("250"), "read-notify-res 250 ms");
    assert_eq!(ChannelTraceItemInner::CaProto(CaProto::ReadNotifyTimeout).oneline(""), "read-notify-timeout");
    assert_eq!(ChannelTraceItemInner::TcpConnected(4).oneline("1"), "tcp connected 1 ms");
    assert_eq!(ChannelTraceItemInner::EndOfStream.oneline(""), "end of stream");
}

#[test]
fn long_texts_are_cut() {
    let long = "x".repeat(60);
    let item = ChannelTraceItem::new(ChannelTraceItemInner::ConnectionError(long), 0);
    let t = item.oneline("");
    assert_eq!(t.chars().count(), 50);
    assert!(t.starts_with("connection error xxx"));
    assert!(t.ends_with('\u{2026}'));
    let c = ConnectionTraceL1Item {
        ts: 0,
        addr: AddrV4::from_octets(1, 2, 3, 4, 5064),
        inner: ConnectionTraceL1ItemInner::Ping,
    };
    assert_eq!(c.oneline(""), "ping");
}
