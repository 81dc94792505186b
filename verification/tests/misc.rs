use daqingest::addr::AddrV4;
use daqingest::channel_v1::{ChannelAddApiError, ChannelReadNotifyApiError, ChannelTraceApiError};
use daqingest::channeltrace::{
    fit_oneline, CaProto, ChannelTraceItem, ChannelTraceItemInner, ChannelTraceL1Item, ConnectionTraceL1ItemInner,
    Created, ReadNotifyRes, TraceQueue, TRACE_CAP,
};
use daqingest::clks::{ClKsAnswer, ClKsInfo};
use daqingest::container::{ContainerEvents, TsNano};
use daqingest::events::{Empty, Extendable, Resettable, WithLen};
use daqingest::extraopts::ExtraOptsQuery;
use daqingest::gather::GatherError;
use daqingest::metrics::{ChannelInfoV1, ChannelsForAddrInfoV1, ExtraInsertsConf};
use daqingest::metrics_types::MetricsPrometheusShort;
use daqingest::offsets::{pulse_offs_from_abs, ts_offs_from_abs};
use daqingest::signal::{decode_pipe_bytes, note_signal, SignalAction, SignalEvent};
use std::collections::VecDeque;

#[test]
fn addr_text() {
    assert_eq!(AddrV4::from_octets(10, 0, 0, 5, 5064).to_text(), "10.0.0.5:5064");
    assert_eq!(AddrV4::from_octets(255, 255, 255, 255, 65535).to_text(), "255.255.255.255:65535");
    assert_eq!(AddrV4::new(0, 0).to_text(), "0.0.0.0:0");
    assert_eq!(AddrV4::new(0x7f000001, 80).to_text(), "127.0.0.1:80");
}

#[test]
fn gather_error_text() {
    assert_eq!(GatherError::Timeout.to_text(), "timeout");
    assert_eq!(GatherError::Comm("channel closed".into()).to_text(), "comm: channel closed");
}

#[test]
fn prometheus_lines_end_with_newline() {
    let m = MetricsPrometheusShort::from_flatten_prometheus(vec!["a 1".into(), "b 2".into()]);
    assert_eq!(m.prometheus(), "a 1\nb 2\n");
    let e = MetricsPrometheusShort::from_flatten_prometheus(Vec::new());
    assert_eq!(e.prometheus(), "");
}

/// A scrape can carry the metrics of the v1 and the v2 code path.
#[test]
fn append_keeps_both() {
    let mut a = MetricsPrometheusShort::from_flatten_prometheus(vec!["daemon_handle_event 0".into()]);
    a.append(MetricsPrometheusShort::from_flatten_prometheus(vec!["daemon2_connset_ca_conn_create 0".into()]));
    let s = a.prometheus();
    assert!(s.contains("daemon_handle_event 0\n"), "{s}");
    assert!(s.contains("daemon2_connset_ca_conn_create 0\n"), "{s}");
    assert_eq!(s, "daemon_handle_event 0\ndaemon2_connset_ca_conn_create 0\n");
}

#[test]
fn extra_opts_keep_private_pairs() {
    let pairs = vec![
        ("a".to_string(), "1".to_string()),
        ("private_x".to_string(), "2".to_string()),
        ("privat".to_string(), "3".to_string()),
        ("private_y".to_string(), "4".to_string()),
    ];
    let q = ExtraOptsQuery::from_pairs(&pairs);
    assert_eq!(
        q.extras(),
        &vec![("private_x".to_string(), "2".to_string()), ("private_y".to_string(), "4".to_string())]
    );
    assert!(ExtraOptsQuery::new().extras().is_empty());
}

#[test]
fn oneline_is_cut_to_fifty() {
    let short = "tcp connect".to_string();
    assert_eq!(fit_oneline(short.clone()), short);
    let exact: String = "x".repeat(50);
    assert_eq!(fit_oneline(exact.clone()), exact);
    let long: String = "y".repeat(51);
    let cut = fit_oneline(long);
    assert_eq!(cut.chars().count(), 50);
    assert_eq!(cut, format!("{}\u{2026}", "y".repeat(49)));
}

#[test]
fn connection_trace_to_channel_trace() {
    assert_eq!(ConnectionTraceL1ItemInner::Ping.to_channel_trace_inner(), None);
    assert_eq!(ConnectionTraceL1ItemInner::Pong(5).to_channel_trace_inner(), None);
    assert_eq!(
        ConnectionTraceL1ItemInner::TcpConnected(7).to_channel_trace_inner(),
        Some(ChannelTraceItemInner::TcpConnected(7))
    );
    assert_eq!(
        ConnectionTraceL1ItemInner::ConnectionError("e".into()).to_channel_trace_inner(),
        Some(ChannelTraceItemInner::ConnectionError("e".into()))
    );
    assert_eq!(Created::new(3).latency, 3);
    assert_eq!(ReadNotifyRes::new(4).latency, 4);
    let it = ChannelTraceItem::new(ChannelTraceItemInner::CaProto(CaProto::ReadNotify), 11);
    let l1 = ChannelTraceL1Item::new("CH".into(), it.clone(), 12);
    assert_eq!(l1.inner, it);
    assert_eq!(l1.chname, "CH");
}

#[test]
fn trace_queue_keeps_newest() {
    let mut q: TraceQueue<u32> = TraceQueue::new();
    for i in 0..(TRACE_CAP as u32) {
        q.push(i);
    }
    assert_eq!(q.len(), 100);
    q.push(100);
    assert_eq!(q.len(), 35);
    assert_eq!(*q.get(0), 66);
    assert_eq!(*q.get(34), 100);
}

#[test]
fn api_error_kinds() {
    assert_eq!(ChannelAddApiError::AddFailed("x".into()).kind(), "add-failed");
    assert_eq!(ChannelAddApiError::AddFailed("x".into()).status_code(), 500);
    assert_eq!(ChannelReadNotifyApiError::Conn2NotActive.kind(), "conn2-not-active");
    assert_eq!(ChannelReadNotifyApiError::Conn2NotActive.status_code(), 503);
    assert_eq!(ChannelReadNotifyApiError::Backend("e".into()).kind(), "backend-error");
    assert_eq!(ChannelReadNotifyApiError::Backend("e".into()).status_code(), 500);
    assert_eq!(ChannelTraceApiError::Conn2NotActive.kind(), "conn2-not-active");
    assert_eq!(ChannelTraceApiError::Backend("e".into()).kind(), "backend-error");
    assert_eq!(ChannelTraceApiError::Conn2NotActive.status_code(), 503);
}

#[test]
fn pulse_offsets() {
    let p: VecDeque<u64> = vec![123456, 123460, 130001].into();
    let (anchor, offs) = pulse_offs_from_abs(&p);
    assert_eq!(anchor, 120000);
    assert_eq!(offs, VecDeque::from(vec![3456, 3460, 10001]));
    let (anchor, offs) = pulse_offs_from_abs(&VecDeque::new());
    assert_eq!(anchor, 0);
    assert!(offs.is_empty());
}

#[test]
fn ts_offsets() {
    let tss: VecDeque<TsNano> = vec![TsNano::from_ns(5_123_456_789), TsNano::from_ns(6_000_000_001)].into();
    let (sec, ms, ns) = ts_offs_from_abs(&tss);
    assert_eq!(sec, 5);
    assert_eq!(ms, VecDeque::from(vec![123, 1000]));
    assert_eq!(ns, VecDeque::from(vec![456_789, 1]));
}

#[test]
fn signal_names_and_decisions() {
    assert_eq!(SignalEvent::Int.name(), "SIGINT");
    assert_eq!(SignalEvent::Term.name(), "SIGTERM");
    assert_eq!(note_signal(0, 5), SignalAction::Deliver);
    assert_eq!(note_signal(1, 5), SignalAction::Deliver);
    assert_eq!(note_signal(2, 5), SignalAction::Exit(13));
    assert_eq!(note_signal(0, -1), SignalAction::Exit(83));
    assert_eq!(decode_pipe_bytes(b"ixt"), vec![SignalEvent::Int, SignalEvent::Term]);
    assert_eq!(SignalEvent::from_pipe_byte(SignalEvent::Term.pipe_byte()), Some(SignalEvent::Term));
}

#[test]
fn clks_handler_and_answers() {
    assert!(ClKsInfo::handler("/api/4/private/ClKsInfo").is_some());
    assert!(ClKsInfo::handler("/api/4/other").is_none());
    let h = ClKsInfo {};
    assert_eq!(h.answer(false, true), ClKsAnswer::MethodNotAllowed);
    assert_eq!(h.answer(true, true), ClKsAnswer::Clusters);
    assert_eq!(h.answer(true, false), ClKsAnswer::NoScylla);
}

#[test]
fn container_traits() {
    let mut a: ContainerEvents<u32> = Empty::empty();
    a.push_back(TsNano::from_ns(1), 10);
    let mut b: ContainerEvents<u32> = ContainerEvents::new();
    b.push_back(TsNano::from_ns(2), 20);
    a.extend_from(&mut b);
    assert_eq!(WithLen::len(&a), 2);
    assert_eq!(WithLen::len(&b), 0);
    a.reset();
    assert_eq!(WithLen::len(&a), 0);
}

#[test]
fn metrics_constructors() {
    let mut c = ChannelsForAddrInfoV1::new();
    assert!(c.channels.is_empty());
    let mut d = ChannelsForAddrInfoV1::new();
    d.channels.push(ChannelInfoV1 { name: "A".into(), state_short: "Running".into() });
    c.extend(d);
    assert_eq!(c.channels.len(), 1);
    assert!(ExtraInsertsConf::new().copies.is_empty());
}
