use daqingest::conf::ChannelConfig;
use daqingest::channelhandler::{
    intercept_close_msg, CaMsgTy, ChannelHandler, ClosingReason, Cmd, Counters, HandlerOut, HandlerRound, ProtoRxItem,
    INP_BUF_CAP,
};

fn rx_item(msg: CaMsgTy) -> ProtoRxItem {
    ProtoRxItem { msg }
}

fn event_add_res() -> CaMsgTy {
    CaMsgTy::EventAddResEmpty { data_type: 0, sid: 7, subid: 1 }
}

fn close_res() -> CaMsgTy {
    CaMsgTy::ChannelCloseRes { sid: 7, cid: 3 }
}

fn handler() -> ChannelHandler {
    ChannelHandler::new("testbackend".to_string(), ChannelConfig::st_monitor("SOME:CHANNEL", "test.hcl"), 3)
}

fn created_handler() -> ChannelHandler {
    let mut ch = handler();
    ch.start();
    ch.created(7, false, 0);
    ch
}

#[test]
fn intercept_consumes_only_close_protocol() {
    let mut peer_closed = false;
    let mut ack = false;
    let pass = intercept_close_msg(rx_item(event_add_res()), &None, &mut peer_closed, &mut ack);
    assert!(pass.is_some(), "a normal message must be forwarded");
    assert!(!peer_closed);
    assert!(!ack);

    let taken = intercept_close_msg(rx_item(close_res()), &None, &mut peer_closed, &mut ack);
    assert!(taken.is_none(), "ChannelCloseRes must be consumed");
    assert!(ack);
    assert!(peer_closed, "an ack we did not ask for means the peer closed");
}

#[test]
fn solicited_ack_is_not_treated_as_peer_close() {
    let mut peer_closed = false;
    let mut ack = false;
    let closing = Some(ClosingReason::Command);
    intercept_close_msg(rx_item(close_res()), &closing, &mut peer_closed, &mut ack);
    assert!(ack);
    assert!(!peer_closed);
}

#[test]
fn ack_behind_a_batch_is_intercepted() {
    let mut ch = created_handler();
    for _ in 0..5 {
        assert!(ch.inp_push_try(rx_item(event_add_res())).is_none());
    }
    assert!(ch.inp_push_try(rx_item(close_res())).is_none());
    // the queued trace item goes out first, then one round of the running state
    let step = ch.poll_round(None, false, 16);
    assert!(matches!(step.round, HandlerRound::Out(HandlerOut::TraceCreated(_))));
    let step = ch.poll_round(None, false, 16);
    assert_eq!(step.round, HandlerRound::Sub);
    assert_eq!(step.to_sub.len(), 5);
    assert!(step.to_sub.iter().all(|x| x.msg == event_add_res()));
    assert!(ch.chan_close_ack(), "ack behind the batch was missed");
    assert!(ch.peer_closed());
    assert!(step.forward_close);
    assert!(ch.closing().is_some(), "peer close must start the close sequence");
}

#[test]
fn peer_close_skips_the_close_command() {
    let mut ch = created_handler();
    assert!(ch.inp_push_try(rx_item(CaMsgTy::ChannelClose { sid: 7, cid: 3 })).is_none());
    assert!(ch.next_for_sub().is_none());
    assert!(ch.peer_closed());
    assert!(ch.check_peer_closed());
    assert_eq!(ch.closing(), &Some(ClosingReason::PeerClosed));
    ch.enter_close_send();
    assert_eq!(ch.state().name_short(), "Done1");
}

#[test]
fn never_created_skips_the_close_command() {
    let mut ch = handler();
    ch.start();
    assert!(ch.handle_cmd(Cmd::Remove));
    assert_eq!(ch.closing(), &Some(ClosingReason::Command));
    ch.enter_close_send();
    assert_eq!(ch.state().name_short(), "Done1");
}

#[test]
fn healthy_close_sends_exactly_one_close_command() {
    let mut ch = created_handler();
    assert!(ch.handle_cmd(Cmd::Remove));
    ch.enter_close_send();
    assert_eq!(ch.state().name_short(), "CloseSend");
    assert!(ch.step_close_send());
    assert_eq!(ch.state().name_short(), "CloseWait");
    let mut close_cnt = 0;
    while let Some(out) = ch.pop_out() {
        if let HandlerOut::ProtoOut(CaMsgTy::ChannelClose { sid, cid }) = out {
            close_cnt += 1;
            assert_eq!(sid, 7);
            assert_eq!(cid, 3);
        }
    }
    assert_eq!(close_cnt, 1, "ChannelClose must be emitted exactly once");
    assert!(!ch.step_close_wait(false));
    assert_eq!(ch.state().name_short(), "CloseWait");
    assert!(ch.inp_push_try(rx_item(close_res())).is_none());
    assert!(ch.step_close_wait(false));
    assert!(ch.chan_close_ack());
    assert_eq!(ch.state().name_short(), "Done1");
    assert!(ch.step_done1(), "a removal waits for the confirmation");
    assert_eq!(ch.state().name_short(), "Done");
}

#[test]
fn input_gone_while_closing_does_not_panic() {
    let mut ch = created_handler();
    assert!(ch.handle_cmd(Cmd::Remove));
    ch.enter_close_send();
    ch.step_close_send();
    assert_eq!(ch.state().name_short(), "CloseWait");
    assert!(!ch.inp_done());
    assert_eq!(ch.state().name_short(), "Done1");
}

#[test]
fn close_wait_ends_on_timeout() {
    let mut ch = created_handler();
    assert!(ch.handle_cmd(Cmd::Remove));
    ch.enter_close_send();
    ch.step_close_send();
    assert!(ch.step_close_wait(true));
    assert_eq!(ch.state().name_short(), "Done1");
}

#[test]
fn closing_reasons_map_to_status() {
    assert!(ClosingReason::InputDone.no_more_protocol());
    assert!(ClosingReason::PeerClosed.no_more_protocol());
    assert!(!ClosingReason::Command.no_more_protocol());
    assert!(!ClosingReason::ErrorMsg("x".to_string()).no_more_protocol());
}

#[test]
fn input_buffer_refuses_when_full() {
    let mut ch = created_handler();
    for _ in 0..INP_BUF_CAP {
        assert!(ch.inp_push_try(rx_item(event_add_res())).is_none());
    }
    assert_eq!(ch.inp_push_try(rx_item(event_add_res())), Some(event_add_res()));
}

#[test]
fn status_snapshot_of_fresh_handler() {
    let ch = handler();
    let st = ch.status_info(12);
    assert_eq!(st.state_short, "Init");
    assert_eq!(st.state_elapsed_ms, 12);
    assert_eq!(st.proto_inp_buf.cap, INP_BUF_CAP);
    assert_eq!(st.proto_inp_buf.len, 0);
    assert_eq!(st.counters, Counters::zero());
    assert_eq!(Counters::zero().event_add_res_cnt, 0);
}

#[test]
fn remove_twice_forwards_once() {
    let mut ch = created_handler();
    assert!(ch.handle_cmd(Cmd::Remove));
    assert!(!ch.handle_cmd(Cmd::Remove));
    assert!(!ch.handle_cmd(Cmd::ChannelHandlerStatus));
}

#[test]
fn fresh_handler_carries_backend_and_config() {
    let ch = handler();
    assert_eq!(ch.backend(), "testbackend");
    assert_eq!(ch.name(), "SOME:CHANNEL");
    assert_eq!(ch.config().origin(), "test.hcl");
    assert_eq!(ch.status_info(0).counters, Counters::zero());
    assert_eq!(ch.status_info(0).outbuf.len, 0);
}

#[test]
fn close_send_without_reason_queues_closed_status() {
    let mut ch = created_handler();
    while ch.pop_out().is_some() {}
    ch.enter_close_send();
    assert_eq!(ch.closing(), &Some(ClosingReason::InputDone));
    assert_eq!(ch.state().name_short(), "Done1");
    assert_eq!(
        ch.pop_out(),
        Some(HandlerOut::ChannelStatusClosed(daqingest::channelhandler::ChannelStatusClosedReason::NoProtocol))
    );
    assert_eq!(ch.pop_out(), None);
}

#[test]
fn close_send_after_remove_keeps_the_queue() {
    let mut ch = created_handler();
    while ch.pop_out().is_some() {}
    assert!(ch.handle_cmd(Cmd::Remove));
    assert_eq!(
        ch.pop_out(),
        Some(HandlerOut::ChannelStatusClosed(daqingest::channelhandler::ChannelStatusClosedReason::ChannelRemove))
    );
    ch.enter_close_send();
    assert_eq!(ch.state().name_short(), "CloseSend");
    assert_eq!(ch.pop_out(), None);
}

#[test]
fn round_serves_output_before_commands() {
    let mut ch = created_handler();
    while ch.pop_out().is_some() {}
    ch.enter_close_send();
    // a queued item goes out first and the command comes back untaken
    let s = ch.poll_round(Some(Cmd::Remove), false, 16);
    assert!(matches!(s.round, HandlerRound::Out(HandlerOut::ChannelStatusClosed(_))));
    assert_eq!(s.cmd_back, Some(Cmd::Remove));
    assert!(!ch.removing());
}

#[test]
fn rounds_send_exactly_one_close_command() {
    let mut ch = created_handler();
    assert!(ch.handle_cmd(Cmd::Remove));
    ch.enter_close_send();
    let mut close_cnt = 0;
    let mut pending = 0;
    for _ in 0..8 {
        let s = ch.poll_round(None, false, 16);
        match s.round {
            HandlerRound::Out(HandlerOut::ProtoOut(CaMsgTy::ChannelClose { sid, .. })) => {
                assert_eq!(sid, 7);
                close_cnt += 1;
            }
            HandlerRound::Pending => pending += 1,
            _ => {}
        }
    }
    assert_eq!(close_cnt, 1);
    assert!(pending > 0);
    assert_eq!(ch.state().name_short(), "CloseWait");
    assert!(ch.inp_push_try(rx_item(close_res())).is_none());
    let s = ch.poll_round(None, false, 16);
    assert_eq!(s.round, HandlerRound::Progress);
    assert!(ch.chan_close_ack());
    assert_eq!(ch.state().name_short(), "Done1");
    let s = ch.poll_round(None, false, 16);
    assert!(s.notify_removing);
    assert_eq!(ch.state().name_short(), "Done");
    assert_eq!(ch.poll_round(None, false, 16).round, HandlerRound::Finished);
}

#[test]
fn sub_round_stops_at_the_room_of_the_sub_handler() {
    let mut ch = created_handler();
    for _ in 0..3 {
        assert!(ch.inp_push_try(rx_item(event_add_res())).is_none());
    }
    assert!(ch.inp_push_try(rx_item(close_res())).is_none());
    let (items, notify) = ch.sub_round(2);
    assert_eq!(items.len(), 2);
    assert!(!notify);
    assert!(!ch.chan_close_ack());
    let (items, notify) = ch.sub_round(2);
    assert_eq!(items.len(), 1);
    assert!(notify);
    assert!(ch.chan_close_ack());
}
