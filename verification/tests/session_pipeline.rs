use daqingest::conf::ChannelConfig;
use daqingest::activeca::{
    ActiveCa, ActiveCaError, CaCommand, CaMsg, CommandEffect, HeapInp, InpItem, ACTIVE_INP_BUF_CAP,
};
use daqingest::channelhandler::CaMsgTy;

fn msg_cid(cid: u32) -> CaMsg {
    CaMsg { ty: CaMsgTy::Other, cid: Some(cid), subid: None, ioid: None }
}

fn echo() -> CaMsg {
    CaMsg { ty: CaMsgTy::Echo, cid: None, subid: None, ioid: None }
}

#[test]
fn session_input_is_bounded() {
    let mut s = ActiveCa::new(0);
    for i in 0..ACTIVE_INP_BUF_CAP {
        assert!(s.inp_is_space());
        assert_eq!(s.inp_push_try(InpItem::CaMsg(msg_cid(i as u32))), None);
    }
    assert!(!s.inp_is_space());
    let back = s.inp_push_try(InpItem::CaMsg(msg_cid(99)));
    assert_eq!(back, Some(InpItem::CaMsg(msg_cid(99))));
}

#[test]
fn session_hands_channel_messages_in_order() {
    let mut s = ActiveCa::new(0);
    s.inp_push_try(InpItem::CaMsg(msg_cid(1)));
    s.inp_push_try(InpItem::CaMsg(CaMsg { ty: CaMsgTy::Other, cid: None, subid: None, ioid: None }));
    s.inp_push_try(InpItem::CaMsg(CaMsg { ty: CaMsgTy::Other, cid: None, subid: Some(7), ioid: None }));
    let mut handed = Vec::new();
    for _ in 0..10 {
        s.pop_input();
        s.dispatch(0);
        handed.extend(s.push_to_chanheap(4));
    }
    assert_eq!(
        handed,
        vec![
            HeapInp::CaMsg(msg_cid(1)),
            HeapInp::CaMsg(CaMsg { ty: CaMsgTy::Other, cid: None, subid: Some(7), ioid: None }),
        ]
    );
}

#[test]
fn session_stage_buffers_hold_one_item() {
    let mut s = ActiveCa::new(0);
    s.inp_push_try(InpItem::CaMsg(msg_cid(1)));
    s.inp_push_try(InpItem::CaMsg(msg_cid(2)));
    assert!(s.pop_input());
    // The message buffer is full until the message is dispatched.
    assert!(!s.pop_input());
    assert!(s.dispatch(0));
    // The buffer towards the heap is full until the heap takes it.
    assert!(s.pop_input());
    assert!(!s.dispatch(0));
    assert_eq!(s.push_to_chanheap(0), Vec::new());
    assert_eq!(s.push_to_chanheap(1), vec![HeapInp::CaMsg(msg_cid(1))]);
    assert!(s.dispatch(0));
    assert_eq!(s.push_to_chanheap(1), vec![HeapInp::CaMsg(msg_cid(2))]);
}

#[test]
fn session_commands_one_at_a_time() {
    let mut s = ActiveCa::new(0);
    s.inp_push_try(InpItem::Cmd(CaCommand::channel_add("A".to_string())));
    s.inp_push_try(InpItem::Cmd(CaCommand::channel_remove("B".to_string())));
    s.inp_push_try(InpItem::Cmd(CaCommand::disconnect_on_idle()));
    assert!(s.pop_input());
    assert_eq!(s.take_command(), Some(CommandEffect::ChannelAdd("A".to_string())));
    assert!(s.pop_input());
    // The first command is still in progress.
    assert_eq!(s.take_command(), None);
    s.command_done();
    assert_eq!(s.take_command(), Some(CommandEffect::RemoveQueued));
    assert_eq!(s.push_to_chanheap(3), vec![HeapInp::RemoveChannel("B".to_string())]);
    s.command_done();
    assert!(s.pop_input());
    assert_eq!(s.take_command(), Some(CommandEffect::DisconnectOnIdle));
}

#[test]
fn session_keepalive_echo_and_timeout() {
    let mut s = ActiveCa::new(0);
    assert_eq!(s.ping(9_999), Ok(None));
    // Idle time over: the echo request is prepared, then handed out.
    assert_eq!(s.ping(10_000), Ok(None));
    assert_eq!(s.ping(10_000), Ok(Some(echo())));
    // The answer comes in: back to idle, no timeout at the old deadline.
    s.inp_push_try(InpItem::CaMsg(echo()));
    s.pop_input();
    assert!(s.dispatch(12_000));
    assert_eq!(s.ping(20_000), Ok(None));
    assert!(!s.is_done());
    // Next round without an answer: the session fails.
    assert_eq!(s.ping(22_000), Ok(None));
    assert_eq!(s.ping(22_000), Ok(Some(echo())));
    assert_eq!(s.ping(32_000), Err(ActiveCaError::IocEchoTimeout));
    assert!(s.is_done());
    // A done session takes nothing in any more.
    s.inp_push_try(InpItem::CaMsg(msg_cid(1)));
    assert!(!s.pop_input());
}

#[test]
fn session_ends_with_heap() {
    let mut s = ActiveCa::new(0);
    assert_eq!(s.dyn_cmd_refusal(), None);
    s.on_heap_end();
    assert!(s.is_done());
    assert_eq!(s.dyn_cmd_refusal(), Some("ActiveCa  State::Done"));
    assert_eq!(s.ping(100_000), Ok(None));
}

use daqingest::caconn::ConnectedPhase;
use daqingest::connected::{split_session_items, Connected, SessionItem};

#[test]
fn connected_handshake_then_session() {
    let mut c = Connected::new();
    assert_eq!(c.dyn_cmd_refusal(), Some("CaConn  Connected  State::Init"));
    assert_eq!(c.proto_rx(msg_cid(1)), None);
    assert_eq!(c.handshake_take(), None);
    assert!(c.start_handshake());
    assert!(!c.start_handshake());
    assert_eq!(c.dyn_cmd_refusal(), Some("CaConn  Connected  State::Handshake"));
    assert_eq!(c.handshake_take(), Some(msg_cid(1)));
    c.proto_rx(msg_cid(2));
    c.proto_rx(msg_cid(3));
    // No session before the handshake is done.
    assert!(!c.pass_msg());
    assert!(c.handshake_done(500));
    assert_eq!(c.phase(), ConnectedPhase::ActiveCa);
    assert_eq!(c.dyn_cmd_refusal(), None);
    assert!(c.pass_msg());
    assert!(c.pass_msg());
    assert!(!c.pass_msg());
    let s = c.session_mut();
    let mut handed = Vec::new();
    for _ in 0..6 {
        s.pop_input();
        s.dispatch(500);
        handed.extend(s.push_to_chanheap(1));
    }
    assert_eq!(handed, vec![HeapInp::CaMsg(msg_cid(2)), HeapInp::CaMsg(msg_cid(3))]);
}

#[test]
fn connected_passes_only_while_session_has_room() {
    let mut c = Connected::new();
    c.start_handshake();
    c.handshake_done(0);
    for i in 0..5 {
        c.proto_rx(msg_cid(i));
    }
    let mut passed = 0;
    while c.pass_msg() {
        passed += 1;
    }
    assert_eq!(passed, ACTIVE_INP_BUF_CAP);
    assert_eq!(c.inp_len(), 5 - ACTIVE_INP_BUF_CAP);
    c.cmd_push_try(CaCommand::disconnect_on_idle());
    assert!(!c.pass_cmd());
    assert_eq!(c.cmd_len(), 1);
    c.goto_state_done();
    assert_eq!(c.dyn_cmd_refusal(), Some("CaConn  Connected  State::Done"));
    assert!(c.health_check(10));
    assert!(!c.health_check(1001));
}

use daqingest::caconn::{dyn_cmd_route, ConnPhase, DynCmdRoute};

#[test]
fn conn_dyn_cmd_routes() {
    let connected = ConnPhase::Connected(ConnectedPhase::ActiveCa);
    assert_eq!(dyn_cmd_route(None, connected), DynCmdRoute::BadCommand);
    assert_eq!(dyn_cmd_route(Some("conn_state_channel_full"), ConnPhase::Connecting), DynCmdRoute::StatusFull);
    assert_eq!(dyn_cmd_route(Some("ca_conn_state_proto"), connected), DynCmdRoute::SocketState);
    assert_eq!(dyn_cmd_route(Some("other"), connected), DynCmdRoute::Forward);
    assert_eq!(
        dyn_cmd_route(Some("ca_conn_state_proto"), ConnPhase::Connecting),
        DynCmdRoute::Refused("CaConn  State::Connecting")
    );
    assert_eq!(dyn_cmd_route(Some("other"), ConnPhase::Done), DynCmdRoute::Refused("CaConn  State::Done"));
}

use daqingest::channelhandler::ChannelHandler;

#[test]
fn handler_info_and_read_refusal() {
    let mut h = ChannelHandler::new("be".to_string(), ChannelConfig::st_monitor("CH:ONE", "test.hcl"), 4);
    let info = h.channel_info_v1();
    assert_eq!(info.name, "CH:ONE");
    assert_eq!(info.state_short, "Init");
    assert_eq!(h.read_notify_refusal(), Some("ChannelHandler  Init".to_string()));
    h.start();
    assert_eq!(h.channel_info_v1().state_short, "Creating");
    h.created(7, false, 1000);
    assert_eq!(h.read_notify_refusal(), None);
}

#[test]
fn session_output_is_split_between_wire_and_caller() {
    let items = vec![
        SessionItem::Up("a"),
        SessionItem::ProtoOut(msg_cid(1)),
        SessionItem::Up("b"),
        SessionItem::ProtoOut(msg_cid(2)),
    ];
    let (wire, up) = split_session_items(items);
    assert_eq!(wire, vec![msg_cid(1), msg_cid(2)]);
    assert_eq!(up, vec!["a", "b"]);
}
