use daqingest::conf::ChannelConfig;
use daqingest::addr::AddrV4;
use daqingest::channel::{ChannelState, RemovingCommon};
use daqingest::conn::StatusDetail;
use daqingest::connset::{
    dyn_cmd_kind, lists_conn_channels, unknown_cmd_msg, ChannelAdd, ChannelRemove, ConnSetCore, ConnSetError,
    ConnSetState, ConnsetChannels, DynCmdKind, StatusV1Req,
};
use daqingest::metrics::CmdChannelsByRegex;
use daqingest::status_v1::{ChannelSelector, StatusQuery};

fn addr(last: u8) -> AddrV4 {
    AddrV4::from_octets(10, 0, 0, last, 5064)
}

fn names(cs: &ConnSetCore) -> Vec<String> {
    (0..cs.channel_count()).map(|i| cs.channel_at(i).channel.name().to_string()).collect()
}

#[test]
fn channel_add_keeps_names_ordered_and_unique() {
    let mut cs = ConnSetCore::new();
    assert!(cs.handle_channel_add(ChannelConfig::st_monitor("B", "test.hcl")).is_ok());
    assert!(cs.handle_channel_add(ChannelConfig::st_monitor("A", "test.hcl")).is_ok());
    assert!(cs.handle_channel_add(ChannelConfig::st_monitor("C", "test.hcl")).is_ok());
    assert_eq!(names(&cs), vec!["A", "B", "C"]);
    match cs.handle_channel_add(ChannelConfig::st_monitor("B", "test.hcl")) {
        Err(ConnSetError::Command(m)) => assert_eq!(m, "channel already added"),
        Ok(()) => panic!("duplicate accepted"),
    }
    assert_eq!(cs.channel_count(), 3);
    assert_eq!(cs.channel_at(1).channel.state(), ChannelState::Init);
}

#[test]
fn channel_remove_targets_by_name() {
    let mut cs = ConnSetCore::new();
    cs.handle_channel_add(ChannelConfig::st_monitor("A", "test.hcl")).unwrap();
    cs.handle_channel_add(ChannelConfig::st_monitor("B", "test.hcl")).unwrap();
    assert!(cs.handle_channel_remove("B", 0));
    assert!(!cs.handle_channel_remove("Z", 0));
    assert_eq!(cs.channel_at(0).channel.state(), ChannelState::Init);
    assert_eq!(
        cs.channel_at(1).channel.state(),
        ChannelState::Removing0(RemovingCommon { cssid: None, addr: None })
    );
}

#[test]
fn registry_routes_and_orders_connections() {
    let mut cs = ConnSetCore::new();
    assert!(cs.route_add(addr(7)));
    assert!(cs.route_add(addr(3)));
    assert!(!cs.route_add(addr(7)));
    assert_eq!(cs.conn_count(), 2);
    assert_eq!(cs.conn_at(0).addr, addr(3));
    assert_eq!(cs.conn_at(1).addr, addr(7));
    let rem = RemovingCommon { cssid: Some(1), addr: Some(addr(7)) };
    assert_eq!(cs.route_remove(&rem), Some(addr(7)));
    let rem = RemovingCommon { cssid: Some(1), addr: Some(addr(9)) };
    assert_eq!(cs.route_remove(&rem), None);
    let rem = RemovingCommon { cssid: None, addr: None };
    assert_eq!(cs.route_remove(&rem), None);
}

#[test]
fn idle_connection_is_disconnected_once() {
    let mut cs = ConnSetCore::new();
    cs.route_add(addr(1));
    cs.route_add(addr(2));
    assert_eq!(cs.check_idle_caconn(1), None, "one pending idle disconnect blocks the next");
    assert_eq!(cs.check_idle_caconn(0), Some(addr(1)));
    assert!(cs.conn_at(0).shutting_down);
    assert_eq!(cs.check_idle_caconn(0), Some(addr(2)));
    assert_eq!(cs.check_idle_caconn(0), None);
}

#[test]
fn conn_down_leaves_registry() {
    let mut cs = ConnSetCore::new();
    cs.handle_channel_add(ChannelConfig::st_monitor("A", "test.hcl")).unwrap();
    cs.route_add(addr(1));
    assert!(cs.conn_down(addr(1)));
    assert!(!cs.conn_down(addr(1)));
    assert_eq!(cs.conn_count(), 0);
    assert_eq!(cs.channel_at(0).channel.state(), ChannelState::Init);
}

#[test]
fn done_channels_are_dropped() {
    let mut cs = ConnSetCore::new();
    cs.handle_channel_add(ChannelConfig::st_monitor("A", "test.hcl")).unwrap();
    cs.handle_channel_add(ChannelConfig::st_monitor("B", "test.hcl")).unwrap();
    cs.remove_done_channels();
    assert_eq!(cs.channel_count(), 2);
}

#[test]
fn shutdown_stops_commands() {
    let mut cs = ConnSetCore::new();
    assert!(cs.is_accept_cmds());
    cs.trigger_shutdown();
    assert_eq!(cs.state(), ConnSetState::Shutdown);
    assert!(!cs.is_accept_cmds());
    cs.trigger_shutdown();
    assert_eq!(cs.state().name(), "Shutdown");
}

#[test]
fn status_plan_selects_connections_and_channels() {
    let mut cs = ConnSetCore::new();
    cs.handle_channel_add(ChannelConfig::st_monitor("X:ONE", "test.hcl")).unwrap();
    cs.handle_channel_add(ChannelConfig::st_monitor("Y:TWO", "test.hcl")).unwrap();
    cs.route_add(addr(1));
    cs.route_add(addr(2));
    let q = StatusQuery { channel_regex: Some("ONE".into()), addr_regex: Some(r"\.2:".into()) };
    let sel = match ChannelSelector::from_query(&q) {
        Ok(s) => s,
        Err(_) => panic!(),
    };
    let req = StatusV1Req { sel, detail: StatusDetail::Light };
    let plan = cs.status_plan(&req, 0);
    assert_eq!(plan.conn_count_total, 2);
    assert_eq!(plan.conn_count_matched, 1);
    assert_eq!(plan.matched, vec![addr(2)]);
    assert_eq!(plan.connset_channel_count_total, 2);
    match plan.connset_channels {
        ConnsetChannels::Light(v) => {
            assert_eq!(v.len(), 1);
            assert_eq!(v[0].name, "X:ONE");
            assert_eq!(v[0].state, "Init");
        }
        ConnsetChannels::Full(_) => panic!("asked for light"),
    }
}

#[test]
fn dyn_cmd_dispatch() {
    assert_eq!(dyn_cmd_kind("ChannelsByRegexV1"), DynCmdKind::ChannelsByRegexV1);
    assert_eq!(dyn_cmd_kind("dyn_cmd_v03"), DynCmdKind::DynCmdV03);
    assert_eq!(dyn_cmd_kind("ConnSetLlogV1"), DynCmdKind::ConnSetLlogV1);
    assert_eq!(dyn_cmd_kind("other"), DynCmdKind::Unknown);
    assert_eq!(unknown_cmd_msg("other"), "unknown: other");
    let c = CmdChannelsByRegex { ty: "ChannelsByRegexV1".into(), regex: ".*".into(), src: "CaConn".into(), kind: "".into() };
    assert!(lists_conn_channels(&c));
}

#[test]
fn channel_add_remove_requests() {
    let a = ChannelAdd::new(ChannelConfig::st_monitor("A", "test.hcl"));
    assert_eq!(a.name(), "A");
    let r = ChannelRemove::new("B".into());
    assert_eq!(r.name(), "B");
}

#[test]
fn connset_local_log_answers_llog_command() {
    let mut cs = ConnSetCore::new();
    assert!(cs.local_log().is_empty());
    cs.push_log_entry((0, 1000, "transition  DoNothing -> CreateMonitorSend".to_string()));
    cs.push_log_entry((5, 1001, "transition_to_enable  DoNothing".to_string()));
    let v = cs.local_log();
    assert_eq!(v.len(), 2);
    assert_eq!(v[0], (0, 1000, "transition  DoNothing -> CreateMonitorSend".to_string()));
    assert_eq!(v[1].0, 5);
    assert_eq!(dyn_cmd_kind("ConnSetLlogV1"), daqingest::connset::DynCmdKind::ConnSetLlogV1);
    let r = cs.local_log_reply();
    assert_eq!(r.len(), 2);
    assert_eq!(r[0].0, 0);
    assert_eq!(r[0].1, "1970-01-01T00:00:01+00:00");
    assert_eq!(r[0].2, "transition  DoNothing -> CreateMonitorSend");
    assert_eq!(r[1].1, "1970-01-01T00:00:01.001+00:00");
    cs.push_log_entry((6, i64::MAX, "late".to_string()));
    assert_eq!(cs.local_log_reply()[2].1, "");
}
