use daqingest::activeca;
use daqingest::addr::AddrV4;
use daqingest::channelhandler::{Counters, LenCap, StatusInfo as HandlerStatusInfo};
use daqingest::channelheap;
use daqingest::conn;
use daqingest::conn::StatusDetail;
use daqingest::connected;
use daqingest::connset::{ConnsetChannels, StatusV1Res};
use daqingest::gather::{gather_outcome, sort_by_key, GatherError};
use daqingest::status_v1::{
    assemble_light, chanheap_of, flatten_full, flatten_light, state_names, ChannelSelector, StatusApiError, StatusQuery,
};

fn query(channel: Option<&str>, addr: Option<&str>) -> StatusQuery {
    StatusQuery {
        channel_regex: channel.map(Into::into),
        addr_regex: addr.map(Into::into),
    }
}

fn selector(q: &StatusQuery) -> ChannelSelector {
    match ChannelSelector::from_query(q) {
        Ok(x) => x,
        Err(e) => panic!("selector refused: {e:?}"),
    }
}

fn selector_err(q: &StatusQuery) -> StatusApiError {
    match ChannelSelector::from_query(q) {
        Ok(_) => panic!("selector accepted"),
        Err(e) => e,
    }
}

fn addr() -> AddrV4 {
    AddrV4::from_octets(10, 0, 0, 5, 5064)
}

fn mk(state: conn::StatusState) -> conn::StatusInfo {
    conn::StatusInfo { ts_ms: 0, addr: addr(), state }
}

/// An absent regex must select everything, so a bare GET is a full overview.
#[test]
fn selector_absent_matches_all() {
    let sel = selector(&query(None, None));
    assert!(sel.matches_addr(&addr()));
    assert!(sel.status_sel(StatusDetail::Light).matches("ANY:CHANNEL"));
}

/// The documented semantics are an unanchored substring match.
#[test]
fn selector_is_unanchored() {
    let sel = selector(&query(Some("BC"), None));
    let ssel = sel.status_sel(StatusDetail::Light);
    assert!(ssel.matches("ABCD"));
    assert!(!ssel.matches("AXD"));
}

#[test]
fn selector_rejects_bad_regex() {
    let e = selector_err(&query(Some("["), None));
    assert_eq!(e.kind(), "bad-regex");
    assert_eq!(e.status_code(), 400);
    assert!(matches!(e, StatusApiError::BadChannelRegex(_)));
    let e = selector_err(&query(None, Some("(")));
    assert_eq!(e.kind(), "bad-regex");
    assert!(matches!(e, StatusApiError::BadAddrRegex(_)));
}

#[test]
fn selector_addr_regex_on_text() {
    let sel = selector(&query(None, Some(r"^10\.0\.0\.5:5064$")));
    assert!(sel.matches_addr(&addr()));
    assert!(!sel.matches_addr(&AddrV4::from_octets(10, 0, 0, 6, 5064)));
    assert_eq!(sel.addr_pattern(), r"^10\.0\.0\.5:5064$");
    assert_eq!(sel.channel_pattern(), "");
    assert!(sel.matches_channel("X"));
}

#[test]
fn status_api_error_kinds_and_codes() {
    assert_eq!(StatusApiError::Conn2NotActive.kind(), "conn2-not-active");
    assert_eq!(StatusApiError::Conn2NotActive.status_code(), 503);
    assert_eq!(StatusApiError::ConnSet("x".into()).kind(), "connset-unavailable");
    assert_eq!(StatusApiError::ConnSet("x".into()).status_code(), 504);
}

/// A connection which did not answer must still appear, with the reason.
#[test]
fn flatten_light_keeps_failed_conn() {
    let c = flatten_light(addr(), Err(GatherError::Timeout));
    assert_eq!(c.addr, "10.0.0.5:5064");
    assert_eq!(c.error.as_deref(), Some("timeout"));
    assert!(c.channels.is_empty());
    assert_eq!(c.state, "Unknown");
    let c = flatten_light(addr(), Err(GatherError::Comm("closed".into())));
    assert_eq!(c.error.as_deref(), Some("comm: closed"));
}

/// Channels only exist under `Connected/ActiveCa/Running`.
#[test]
fn flatten_light_states_without_channels() {
    let c = flatten_light(addr(), Ok(mk(conn::StatusState::Connecting)));
    assert_eq!(c.state, "Connecting");
    assert_eq!(c.connected_state, None);
    assert!(c.channels.is_empty());

    let c = flatten_light(addr(), Ok(mk(conn::StatusState::Done)));
    assert_eq!(c.state, "Done");

    let c = flatten_light(
        addr(),
        Ok(mk(conn::StatusState::Connected(connected::StatusInfo {
            state: connected::StatusInfoState::Handshake,
            socket_state: "null".into(),
        }))),
    );
    assert_eq!(c.state, "Connected");
    assert_eq!(c.connected_state.as_deref(), Some("Handshake"));
    assert_eq!(c.activeca_state, None);
    assert!(c.channels.is_empty());

    let c = flatten_light(
        addr(),
        Ok(mk(conn::StatusState::Connected(connected::StatusInfo {
            state: connected::StatusInfoState::ActiveCa(activeca::StatusInfo {
                state: activeca::StatusInfoState::Done,
            }),
            socket_state: "null".into(),
        }))),
    );
    assert_eq!(c.connected_state.as_deref(), Some("ActiveCa"));
    assert_eq!(c.activeca_state.as_deref(), Some("Done"));
    assert!(c.channels.is_empty());
}

fn running_heap() -> conn::StatusState {
    let active = HandlerStatusInfo {
        state_short: "Running".into(),
        state_elapsed_ms: 250,
        proto_inp_buf: LenCap { len: 2, cap: 64 },
        outbuf: LenCap { len: 1, cap: 1 },
        enum_variants_len: Some(3),
        counters: Counters { event_add_res_cnt: 9 },
    };
    let heap = channelheap::StatusInfo {
        channel_count_total: 2,
        handlers: vec![
            channelheap::StatusChannelHandler {
                name: "A:ONE".into(),
                cid: 1,
                state: channelheap::StatusChannelHandlerState::Active(active),
            },
            channelheap::StatusChannelHandler {
                name: "A:TWO".into(),
                cid: 2,
                state: channelheap::StatusChannelHandlerState::Done,
            },
        ],
    };
    conn::StatusState::Connected(connected::StatusInfo {
        state: connected::StatusInfoState::ActiveCa(activeca::StatusInfo {
            state: activeca::StatusInfoState::Running(
                activeca::RunningInfo { pingpong: activeca::PingPongInfo::Idle(5) },
                heap,
            ),
        }),
        socket_state: "{}".into(),
    })
}

#[test]
fn flatten_light_running_lists_channels() {
    let st = running_heap();
    assert_eq!(chanheap_of(&st).map(|h| h.handlers.len()), Some(2));
    let names = state_names(&st);
    assert_eq!(names.0, "Connected");
    assert_eq!(names.1.as_deref(), Some("ActiveCa"));
    assert_eq!(names.2.as_deref(), Some("Running"));
    let c = flatten_light(addr(), Ok(mk(st)));
    assert_eq!(c.channel_count_total, 2);
    assert_eq!(c.channels.len(), 2);
    assert_eq!(c.channels[0].name, "A:ONE");
    assert_eq!(c.channels[0].cid, 1);
    assert_eq!(c.channels[0].state, "Running");
    assert_eq!(c.channels[0].state_elapsed_ms, 250);
    assert_eq!(c.channels[0].proto_inp_buf_len, 2);
    assert_eq!(c.channels[0].outbuf_len, 1);
    assert_eq!(c.channels[0].enum_variants_len, Some(3));
    assert_eq!(c.channels[0].event_add_res_cnt, 9);
    assert_eq!(c.channels[1].state, "Done");
    assert_eq!(c.channels[1].event_add_res_cnt, 0);
    assert_eq!(c.error, None);
}

#[test]
fn assemble_light_keeps_every_conn_in_order() {
    let res = StatusV1Res {
        ts: "2024-01-01T00:00:00Z".into(),
        ingest_name: "host".into(),
        conn_count_total: 3,
        conn_count_matched: 2,
        connset_channel_count_total: 0,
        connset_channels: ConnsetChannels::Full(Vec::new()),
        conns: vec![
            (AddrV4::from_octets(10, 0, 0, 1, 5064), Err(GatherError::Timeout)),
            (AddrV4::from_octets(10, 0, 0, 2, 5064), Ok(mk(conn::StatusState::Connecting))),
        ],
    };
    let l = assemble_light(res);
    assert_eq!(l.ingest_name, "host");
    assert_eq!(l.conn_count_total, 3);
    assert_eq!(l.conn_count_matched, 2);
    assert!(l.connset_channels.is_empty());
    assert_eq!(l.conns.len(), 2);
    assert_eq!(l.conns[0].addr, "10.0.0.1:5064");
    assert_eq!(l.conns[0].error.as_deref(), Some("timeout"));
    assert_eq!(l.conns[1].addr, "10.0.0.2:5064");
    assert_eq!(l.conns[1].state, "Connecting");
}

#[test]
fn flatten_full_reports_socket_and_counters() {
    let c = flatten_full(addr(), Ok(mk(running_heap())));
    assert_eq!(c.state, "Connected");
    assert_eq!(c.socket_state.as_deref(), Some("{}"));
    assert_eq!(c.channels.len(), 2);
    assert_eq!(c.channels[0].counters.event_add_res_cnt, 9);
    assert_eq!(c.channels[1].state, "Done");
    assert_eq!(c.channels[1].counters, Counters::zero());
    let c = flatten_full(addr(), Err(GatherError::Comm("closed".into())));
    assert_eq!(c.error.as_deref(), Some("comm: closed"));
    assert_eq!(c.socket_state, None);
}

#[test]
fn gather_results_are_sorted_by_address() {
    let items = vec![
        (AddrV4::from_octets(10, 0, 0, 3, 1), 'c'),
        (AddrV4::from_octets(10, 0, 0, 1, 2), 'b'),
        (AddrV4::from_octets(10, 0, 0, 1, 1), 'a'),
    ];
    let r = sort_by_key(items);
    let v: Vec<char> = r.iter().map(|x| x.1).collect();
    assert_eq!(v, vec!['a', 'b', 'c']);
}

#[test]
fn gather_results_of_one_address_keep_their_order() {
    let k = AddrV4::from_octets(10, 0, 0, 2, 7);
    let items = vec![
        (k, 'x'),
        (AddrV4::from_octets(10, 0, 0, 1, 1), 'a'),
        (k, 'y'),
        (k, 'z'),
    ];
    let r = sort_by_key(items);
    let v: Vec<char> = r.iter().map(|x| x.1).collect();
    assert_eq!(v, vec!['a', 'x', 'y', 'z']);
}

#[test]
fn gather_outcomes() {
    assert_eq!(gather_outcome::<u32>(None), Err(GatherError::Timeout));
    assert_eq!(gather_outcome::<u32>(Some(Ok(7))), Ok(7));
    assert_eq!(
        gather_outcome::<u32>(Some(Err("closed".to_string()))),
        Err(GatherError::Comm("closed".to_string()))
    );
    assert_eq!(GatherError::Comm("closed".to_string()).to_text(), "comm: closed");
}
