use daqingest::activeca::{dispatch_target, DispatchTarget, PingAction, PingPhase, PingPong, PingPongInfo};
use daqingest::caconn::{
    conn_health_check, conn_intake, conn_phase_next, connected_health_check, connected_start, jitter_ticker_ns,
    ConnEvent, ConnIntake, ConnItem, ConnOutput, ConnPhase, ConnectedPhase,
};
use daqingest::channelhandler::{CaMsgTy, ProtoRxItem};
use daqingest::fetchmonitoring::{duration_jitter, FetchMonitoring, MonRound, MonState, MonitoringItem, StateDirection};
use daqingest::running::{InpRoute, ReadNotifyRefused, RunningCore, RunningOut, RunningTrace, READ_NOTIFY_FUTS_CAP};

fn rx(msg: CaMsgTy) -> ProtoRxItem {
    ProtoRxItem { msg }
}

fn drive(m: &mut FetchMonitoring, timer: bool) -> Vec<MonitoringItem> {
    let mut out = Vec::new();
    for _ in 0..40 {
        match m.poll_round(timer, 0) {
            MonRound::Item(MonitoringItem::LocalLog { .. }) => {}
            MonRound::Item(x) => out.push(x),
            MonRound::Progress => {}
            MonRound::Pending | MonRound::Finished => break,
        }
    }
    out
}

#[test]
fn monitor_subscribes_and_forwards_values() {
    let mut m = FetchMonitoring::new(3, 7, 6, 1);
    assert_eq!(m.poll_round(false, 0), MonRound::Pending);
    m.transition_to_enable(0);
    assert_eq!(m.state(), MonState::CreateMonitorSend(StateDirection::Enable));
    let out = drive(&mut m, false);
    assert_eq!(
        out,
        vec![MonitoringItem::ProtoOutSubid(CaMsgTy::EventAdd { data_type: 6, count: 1, sid: 7, subid: 0 })]
    );
    assert_eq!(m.state(), MonState::CreateMonitorRecv(StateDirection::Enable));
    assert_eq!(m.timer_ms(), Some(20000));
    assert!(m.inp_push_try(rx(CaMsgTy::EventAddRes { data_type: 6, sid: 7, subid: 1, data: vec![1, 2] })).is_none());
    let out = drive(&mut m, false);
    assert_eq!(out, vec![MonitoringItem::ChannelEventValue(vec![1, 2])]);
    assert_eq!(m.state(), MonState::Monitoring(StateDirection::Enable));
    assert_eq!(m.timer_ms(), Some(60000));
}

#[test]
fn monitor_close_cancels_subscription() {
    let mut m = FetchMonitoring::new(3, 7, 6, 1);
    m.transition_to_enable(0);
    drive(&mut m, false);
    m.inp_push_try(rx(CaMsgTy::EventAddResEmpty { data_type: 6, sid: 7, subid: 1 }));
    drive(&mut m, false);
    assert_eq!(m.state(), MonState::Monitoring(StateDirection::Enable));
    m.trigger_closing(0);
    let out = drive(&mut m, false);
    assert_eq!(
        out,
        vec![MonitoringItem::ProtoOutSubid(CaMsgTy::EventCancel { data_type: 6, count: 1, sid: 7, subid: 0 })]
    );
    assert_eq!(m.state(), MonState::RemoveMonitorRecv(StateDirection::Closing));
    m.inp_push_try(rx(CaMsgTy::EventCancelRes { sid: 7, subid: 1 }));
    let out = drive(&mut m, false);
    assert_eq!(out, vec![MonitoringItem::SubidRemove(3)]);
    assert_eq!(m.state(), MonState::Done);
    assert_eq!(m.poll_round(false, 0), MonRound::Finished);
}

#[test]
fn monitor_create_timeout_falls_back() {
    let mut m = FetchMonitoring::new(3, 7, 6, 1);
    m.transition_to_enable(0);
    drive(&mut m, false);
    drive(&mut m, true);
    assert_eq!(m.state(), MonState::DoNothing);
}

#[test]
fn monitor_idle_close_is_immediate() {
    let mut m = FetchMonitoring::new(3, 7, 6, 1);
    m.trigger_closing(0);
    assert_eq!(m.state(), MonState::Closing1);
    for _ in 0..3 {
        assert!(matches!(m.poll_round(false, 0), MonRound::Item(MonitoringItem::LocalLog { .. })));
    }
    assert_eq!(m.poll_round(false, 0), MonRound::Progress);
    assert_eq!(m.state(), MonState::Done);
    m.transition_to_disable(0);
    assert_eq!(m.state(), MonState::Done);
}

fn log_texts(m: &mut FetchMonitoring) -> Vec<String> {
    let mut v = Vec::new();
    loop {
        match m.poll_round(false, 0) {
            MonRound::Item(MonitoringItem::LocalLog { text, .. }) => v.push(text),
            _ => break,
        }
    }
    v
}

#[test]
fn monitor_logs_transitions() {
    let mut m = FetchMonitoring::new(3, 7, 6, 1);
    m.transition_to_enable(0);
    assert_eq!(
        log_texts(&mut m),
        vec!["transition_to_enable  DoNothing".to_string(), "transition  DoNothing -> CreateMonitorSend".to_string()]
    );
    // The round above that found no log entry sent the subscription request.
    assert_eq!(m.state(), MonState::CreateMonitorRecv(StateDirection::Enable));
    assert_eq!(log_texts(&mut m), vec!["transition  CreateMonitorSend -> CreateMonitorRecv".to_string()]);
    m.inp_push_try(rx(CaMsgTy::EventAddResEmpty { data_type: 6, sid: 7, subid: 1 }));
    let r = m.poll_round(false, 0);
    assert_eq!(r, MonRound::Progress);
    assert_eq!(m.state(), MonState::Monitoring(StateDirection::Enable));
    let r = m.poll_round(true, 0);
    match r {
        MonRound::Item(MonitoringItem::LocalLog { num, text, .. }) => {
            assert_eq!(num, 3);
            assert_eq!(text, "transition  CreateMonitorRecv -> Monitoring");
        }
        other => panic!("expected a log entry, got {other:?}"),
    }
    assert_eq!(m.poll_round(true, 0), MonRound::Progress);
    assert_eq!(
        log_texts(&mut m),
        vec![
            "poll_next_unpin  Monitoring  Timeout  7d956c9".to_string(),
            "transition  Monitoring -> Monitoring".to_string()
        ]
    );
}

#[test]
fn monitor_subid_remove_logs_transitions() {
    let mut m = FetchMonitoring::new(3, 7, 6, 1);
    m.transition_to_enable(0);
    drive(&mut m, false);
    m.inp_push_try(rx(CaMsgTy::EventAddResEmpty { data_type: 6, sid: 7, subid: 1 }));
    drive(&mut m, false);
    m.transition_to_disable(0);
    drive(&mut m, false);
    assert_eq!(m.state(), MonState::RemoveMonitorRecv(StateDirection::Disable));
    m.inp_push_try(rx(CaMsgTy::EventCancelRes { sid: 7, subid: 1 }));
    assert_eq!(m.poll_round(false, 0), MonRound::Item(MonitoringItem::SubidRemove(3)));
    assert_eq!(m.state(), MonState::DoNothing);
    assert_eq!(
        log_texts(&mut m),
        vec![
            "transition  RemoveMonitorRecv -> RemoveSubidSend".to_string(),
            "transition  RemoveSubidSend -> DoNothing".to_string()
        ]
    );
}

#[test]
fn monitor_jitter() {
    assert_eq!(duration_jitter(1024, 0), 896);
    assert_eq!(duration_jitter(1024, 255), 1151);
    assert_eq!(duration_jitter(1024, 256 + 10), 906);
}

#[test]
fn pingpong_cycle() {
    let mut p = PingPong::new_idle(0);
    assert_eq!(p.status_info(), PingPongInfo::Idle(10000));
    assert_eq!(p.step(5000), (PingAction::Nothing, false));
    assert_eq!(p.step(10000), (PingAction::Nothing, true));
    assert_eq!(p.phase, PingPhase::Send { has_item: true });
    assert_eq!(p.step(10001), (PingAction::EmitEcho, true));
    assert_eq!(p.phase, PingPhase::Wait);
    p.on_echo(12000);
    assert_eq!(p, PingPong::new_idle(12000));
    p.step(22000);
    p.step(22000);
    assert_eq!(p.step(32000), (PingAction::EchoTimeout, true));
}

#[test]
fn dispatch_targets() {
    assert_eq!(dispatch_target(true, false, false, true), DispatchTarget::ChannelHeap);
    assert_eq!(dispatch_target(false, false, false, true), DispatchTarget::Echo);
    assert_eq!(dispatch_target(false, false, false, false), DispatchTarget::Unhandled);
}

#[test]
fn connection_phases() {
    let p = conn_phase_next(ConnPhase::Connecting, ConnEvent::TcpConnected);
    assert_eq!(p, ConnPhase::Connected(ConnectedPhase::Init));
    let p = connected_start(p);
    assert_eq!(p, ConnPhase::Connected(ConnectedPhase::Handshake));
    let p = conn_phase_next(p, ConnEvent::HandshakeDone);
    assert_eq!(p, ConnPhase::Connected(ConnectedPhase::ActiveCa));
    assert_eq!(conn_phase_next(p, ConnEvent::SessionEnded), ConnPhase::Done);
    assert_eq!(conn_phase_next(ConnPhase::Connecting, ConnEvent::TcpFailed), ConnPhase::Done);
    assert!(conn_health_check(10_000, ConnPhase::Done, false, false));
    assert!(!conn_health_check(641, p, true, false));
    assert!(conn_health_check(640, p, true, false));
    assert!(conn_health_check(10_000, p, false, true));
    assert!(connected_health_check(1000, 1280, 1280));
    assert!(!connected_health_check(1001, 0, 0));
    assert!(!connected_health_check(0, 1281, 0));
}

#[test]
fn ticker_jitter() {
    assert_eq!(jitter_ticker_ns(255, 0), 255);
    assert_eq!(jitter_ticker_ns(255, 31), 286);
    assert_eq!(jitter_ticker_ns(255, 32), 255);
}

#[test]
fn conn_output_batches_writes_in_order() {
    let mut o: ConnOutput<u32, u8> = ConnOutput::new();
    o.add_writes(vec![1, 2]);
    assert_eq!(o.batch_len(), 2);
    o.push_item(10);
    assert!(o.try_flush_write_batch());
    assert!(!o.try_flush_write_batch());
    assert!(o.on_ticker_fired(20, 21));
    let items = o.take();
    assert_eq!(
        items,
        vec![ConnItem::Item(10), ConnItem::WriteItems(vec![1, 2]), ConnItem::Item(20), ConnItem::Item(21)]
    );
    assert_eq!(o.out_len(), 0);
    o.add_writes((0..=255).collect());
    assert_eq!(o.batch_len(), 0, "a full batch is flushed");
    assert_eq!(o.out_len(), 1);
}

#[test]
fn conn_output_status_held_back_when_full() {
    let mut o: ConnOutput<u32, u8> = ConnOutput::new();
    for i in 0..63 {
        o.push_item(i);
    }
    assert!(!o.on_ticker_fired(100, 101));
    assert_eq!(o.out_len(), 64);
    o.add_writes(vec![1]);
    assert!(!o.try_flush_write_batch());
}

#[test]
fn running_read_notify_flow() {
    let mut r = RunningCore::new(7);
    assert_eq!(r.cmd_read_notify(1, 6, 1), Ok(()));
    assert_eq!(r.pop_out(), Some(CaMsgTy::ReadNotify { data_type: 6, count: 1, sid: 7, ioid: 1 }));
    assert_eq!(r.pop_trace(), Some(RunningTrace::ReadNotify));
    let res = CaMsgTy::ReadNotifyRes { data_type: 6, count: 1, sid: 7, ioid: 1, data: vec![9], variants: None };
    assert_eq!(r.route_input(&res), InpRoute::Waiter(1));
    assert_eq!(r.pop_trace(), Some(RunningTrace::ReadNotifyRes));
    assert_eq!(r.pending_count(), 0);
    assert_eq!(r.route_input(&res), InpRoute::ToMpx);
    assert_eq!(r.route_input(&CaMsgTy::Other), InpRoute::Unexpected);
}

#[test]
fn running_read_notify_cap() {
    let mut r = RunningCore::new(7);
    for i in 0..READ_NOTIFY_FUTS_CAP as u32 {
        assert_eq!(r.cmd_read_notify(i, 6, 1), Ok(()));
    }
    let e = r.cmd_read_notify(100, 6, 1).unwrap_err();
    assert_eq!(e, ReadNotifyRefused::TooMany);
    assert_eq!(e.text(), "cmd_read_notify  too many in-flight read-notify commands");
    assert!(r.read_notify_done(3));
    assert!(!r.read_notify_done(3));
    assert_eq!(r.cmd_read_notify(100, 6, 1), Ok(()));
    r.finish();
    assert_eq!(r.cmd_read_notify(200, 6, 1), Err(ReadNotifyRefused::NotRunning));
}

#[test]
fn running_hands_messages_before_traces() {
    let mut r = RunningCore::new(7);
    assert_eq!(r.cmd_read_notify(1, 6, 1), Ok(()));
    assert_eq!(r.cmd_read_notify(2, 6, 1), Ok(()));
    assert_eq!(r.next_output(), Some(RunningOut::Msg(CaMsgTy::ReadNotify { data_type: 6, count: 1, sid: 7, ioid: 1 })));
    assert_eq!(r.next_output(), Some(RunningOut::Msg(CaMsgTy::ReadNotify { data_type: 6, count: 1, sid: 7, ioid: 2 })));
    assert_eq!(r.next_output(), Some(RunningOut::Trace(RunningTrace::ReadNotify)));
    assert_eq!(r.next_output(), Some(RunningOut::Trace(RunningTrace::ReadNotify)));
    assert_eq!(r.next_output(), None);
}

#[test]
fn connection_loop_order() {
    assert_eq!(conn_intake(2, true, ConnPhase::Done), ConnIntake::EmitOutput);
    assert_eq!(conn_intake(0, true, ConnPhase::Connecting), ConnIntake::AwaitCmdForward);
    assert_eq!(conn_intake(0, false, ConnPhase::Done), ConnIntake::SkipCmds);
    assert_eq!(conn_intake(0, false, ConnPhase::Connecting), ConnIntake::TakeCmd);
}
