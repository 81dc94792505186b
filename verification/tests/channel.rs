use daqingest::conf::ChannelConfig;
use daqingest::addr::AddrV4;
use daqingest::channel::{
    BackoffNext, Channel, ChannelAction, ChannelActionItem, ChannelEvent, ChannelState, RemovingCommon, BACKOFF_I_MAX,
};

fn a() -> AddrV4 {
    AddrV4::from_octets(10, 0, 0, 5, 5064)
}

fn observed() -> Channel {
    let mut ch = Channel::new(ChannelConfig::st_monitor("SOME:CHANNEL", "test.hcl"));
    assert_eq!(ch.step(0), Some(ChannelAction::QueryCssid));
    assert_eq!(ch.on_event(ChannelEvent::CssidFound(42), 0, 0), ChannelAction::SearchAddr { cssid: 42 });
    assert_eq!(ch.on_event(ChannelEvent::AddrFound(a()), 0, 0), ChannelAction::AddToCaConn(a()));
    ch
}

#[test]
fn channel_lifecycle_to_observing() {
    let ch = observed();
    assert_eq!(ch.state(), ChannelState::Observing { cssid: 42, addr: a() });
    assert_eq!(ch.variant_name(), "Observing");
    assert_eq!(ch.addr(), Some(a()));
    let l = ch.status_light(0);
    assert_eq!(l.name, "SOME:CHANNEL");
    assert_eq!(l.state, "Observing");
    assert_eq!(l.addr.as_deref(), Some("10.0.0.5:5064"));
    assert_eq!(l.backoff_remaining_ms, None);
}

#[test]
fn channel_backoff_on_timeout_then_resume() {
    let mut ch = Channel::new(ChannelConfig::st_monitor("X", "test.hcl"));
    ch.step(0);
    assert_eq!(ch.next_backoff_index(), 1);
    assert_eq!(ch.on_event(ChannelEvent::CssidTimeout, 1000, 500), ChannelAction::WaitBackoff { until_ms: 1500 });
    assert_eq!(ch.backoff_i(), 1);
    assert_eq!(ch.state(), ChannelState::Backoff { until_ms: 1500, next: BackoffNext::CssidReq });
    let l = ch.status_light(1200);
    assert_eq!(l.state, "Backoff");
    assert_eq!(l.backoff_remaining_ms, Some(300));
    assert_eq!(ch.status_light(2000).backoff_remaining_ms, Some(0));
    assert_eq!(ch.on_event(ChannelEvent::BackoffElapsed, 1500, 0), ChannelAction::QueryCssid);
    assert_eq!(ch.on_event(ChannelEvent::CssidFound(1), 0, 0), ChannelAction::SearchAddr { cssid: 1 });
    assert_eq!(ch.backoff_i(), 0);
}

#[test]
fn channel_addr_not_found_backs_off_to_search() {
    let mut ch = Channel::new(ChannelConfig::st_monitor("X", "test.hcl"));
    ch.step(0);
    ch.on_event(ChannelEvent::CssidFound(9), 0, 0);
    assert_eq!(ch.on_event(ChannelEvent::AddrNotFound, 10, 5), ChannelAction::WaitBackoff { until_ms: 15 });
    assert_eq!(ch.on_event(ChannelEvent::BackoffElapsed, 15, 0), ChannelAction::SearchAddr { cssid: 9 });
    assert_eq!(ch.on_event(ChannelEvent::AddrFailed, 0, 0), ChannelAction::Nothing);
    assert_eq!(ch.state(), ChannelState::Done);
}

#[test]
fn channel_backoff_index_is_capped() {
    let mut ch = Channel::new(ChannelConfig::st_monitor("X", "test.hcl"));
    ch.step(0);
    for _ in 0..1005 {
        ch.on_event(ChannelEvent::CssidTimeout, 0, 0);
        ch.on_event(ChannelEvent::BackoffElapsed, 0, 0);
    }
    assert_eq!(ch.backoff_i(), BACKOFF_I_MAX);
    assert_eq!(ch.next_backoff_index(), BACKOFF_I_MAX);
}

#[test]
fn channel_cssid_failure_removes() {
    let mut ch = Channel::new(ChannelConfig::st_monitor("X", "test.hcl"));
    ch.step(0);
    ch.on_event(ChannelEvent::CssidFailed, 0, 0);
    assert_eq!(ch.state(), ChannelState::Removed);
    assert_eq!(ch.step(0), Some(ChannelAction::Nothing));
    assert_eq!(ch.state(), ChannelState::Done);
    assert_eq!(ch.step(0), None);
}

#[test]
fn channel_removal_runs_to_done() {
    let mut ch = observed();
    assert!(ch.handle_remove(0));
    let c = RemovingCommon { cssid: Some(42), addr: Some(a()) };
    assert_eq!(ch.state(), ChannelState::Removing0(c));
    assert_eq!(ch.step(0), Some(ChannelAction::Nothing));
    assert_eq!(ch.step(0), Some(ChannelAction::RemoveFromCaConn(c)));
    assert_eq!(ch.step(0), None);
    assert_eq!(ch.on_event(ChannelEvent::RemovedFromConn, 0, 0), ChannelAction::Nothing);
    assert_eq!(ch.step(0), Some(ChannelAction::Nothing));
    assert_eq!(ch.state(), ChannelState::Done);
    assert!(!ch.handle_remove(0), "a done channel reads no more commands");
}

#[test]
fn conn_down_restarts_but_never_resurrects_teardown() {
    let mut ch = observed();
    ch.signal_ca_conn_down();
    assert_eq!(ch.state(), ChannelState::Init);
    let mut ch = observed();
    ch.transition_to_removing(0);
    let before = ch.state();
    ch.signal_ca_conn_down();
    assert_eq!(ch.state(), before);
}

#[test]
fn removal_during_search_keeps_cssid_only() {
    let mut ch = Channel::new(ChannelConfig::st_monitor("X", "test.hcl"));
    ch.step(0);
    ch.on_event(ChannelEvent::CssidFound(5), 0, 0);
    ch.transition_to_removing(0);
    assert_eq!(ch.state(), ChannelState::Removing0(RemovingCommon { cssid: Some(5), addr: None }));
    assert_eq!(ch.addr(), None);
}

#[test]
fn unexpected_event_changes_nothing() {
    let mut ch = observed();
    assert_eq!(ch.on_event(ChannelEvent::BackoffElapsed, 0, 0), ChannelAction::Nothing);
    assert_eq!(ch.state(), ChannelState::Observing { cssid: 42, addr: a() });
    let info = ch.channel_info(0);
    assert_eq!(info.backoff, None);
    assert_eq!(info.backoff_i, 0);
}

#[test]
fn add_to_ca_conn_carries_the_config() {
    let mut ch = Channel::new(ChannelConfig::st_monitor("SOME:CHANNEL", "test.hcl"));
    ch.step(0);
    ch.on_event(ChannelEvent::CssidFound(42), 0, 0);
    let act = ch.on_event(ChannelEvent::AddrFound(a()), 0, 0);
    match ch.action_item(act) {
        Some(ChannelActionItem::AddToCaConn(conf, addr)) => {
            assert_eq!(conf.name(), "SOME:CHANNEL");
            assert_eq!(conf.origin(), "test.hcl");
            assert_eq!(addr, a());
        }
        other => panic!("expected an addition, got {other:?}"),
    }
    assert_eq!(ch.addr(), Some(a()));
    assert_eq!(ch.backoff_i(), 0);
    assert!(ch.action_item(ChannelAction::QueryCssid).is_none());
}

#[test]
fn channel_logs_its_transitions() {
    let mut ch = Channel::new(ChannelConfig::st_monitor("SOME:CHANNEL", "test.hcl"));
    assert!(ch.pop_log_item().is_none());
    ch.step(0);
    ch.on_event(ChannelEvent::CssidFound(42), 0, 0);
    ch.on_event(ChannelEvent::AddrFound(a()), 0, 0);
    // an event the state does not wait for changes nothing and logs nothing
    ch.on_event(ChannelEvent::BackoffElapsed, 0, 0);
    ch.transition_to_removing(0);
    let mut texts = Vec::new();
    while let Some(item) = ch.pop_log_item() {
        match item {
            ChannelActionItem::LocalLog((_, _, t)) => texts.push(t),
            other => panic!("expected a log entry, got {other:?}"),
        }
    }
    assert_eq!(
        texts,
        vec![
            "transition Init -> CssidReq".to_string(),
            "transition CssidReq -> AddrSearch".to_string(),
            "transition AddrSearch -> Observing".to_string(),
            "transition Observing -> Removing0".to_string(),
        ]
    );
}
