use daqingest::conf::ChannelConfig;
use daqingest::addr::AddrV4;
use daqingest::channelhandler::{CaMsgTy, ProtoRxItem};
use daqingest::channeltrace::{
    ChannelTraceItem, ChannelTraceItemInner, ChannelTraceL1Item, ChannelTraceL2Item, ChannelTraceStash,
    ConnectionTraceL1Item, ConnectionTraceL1ItemInner,
};
use daqingest::connset::{ConnSetCore, ConnSetState};
use daqingest::readenum::{ReadEnum, ReadEnumItem, ReadEnumRound, ReadEnumState, DBR_CTRL_ENUM};

fn l2(ch: &str, ts: u64) -> ChannelTraceL2Item {
    let it = ChannelTraceItem::new(ChannelTraceItemInner::EndOfStream, ts);
    ChannelTraceL2Item::new(AddrV4::new(1, 2), ChannelTraceL1Item::new(ch.into(), it, ts), ts)
}

#[test]
fn read_enum_reads_variants() {
    let mut r = ReadEnum::new(7);
    assert_eq!(
        r.poll_round(),
        ReadEnumRound::Item(ReadEnumItem::CaMsgOutIoid(CaMsgTy::ReadNotify {
            data_type: DBR_CTRL_ENUM,
            count: 0,
            sid: 7,
            ioid: 0
        }))
    );
    assert_eq!(r.state(), ReadEnumState::WaitMsg);
    assert_eq!(r.poll_round(), ReadEnumRound::Pending);
    let vars = vec!["OFF".to_string(), "ON".to_string()];
    r.inp_push_try(ProtoRxItem {
        msg: CaMsgTy::ReadNotifyRes { data_type: 31, count: 1, sid: 7, ioid: 0, data: vec![], variants: Some(vars.clone()) },
    });
    assert_eq!(r.poll_round(), ReadEnumRound::Item(ReadEnumItem::EnumStringSet(vars)));
}

#[test]
fn read_enum_fails_on_unexpected_answer() {
    let mut r = ReadEnum::new(7);
    r.poll_round();
    r.inp_push_try(ProtoRxItem { msg: CaMsgTy::Other });
    assert_eq!(r.poll_round(), ReadEnumRound::Progress);
    assert_eq!(r.state(), ReadEnumState::Done);
    assert_eq!(r.poll_round(), ReadEnumRound::Finished);
}

#[test]
fn read_enum_input_end() {
    let mut r = ReadEnum::new(7);
    r.poll_round();
    r.inp_done();
    assert_eq!(r.poll_round(), ReadEnumRound::Progress);
    assert_eq!(r.state(), ReadEnumState::Done);
}

#[test]
fn trace_stash_keeps_traces_apart() {
    let mut st = ChannelTraceStash::new();
    assert!(st.get_for_channel("A").is_none());
    st.push(l2("A", 1));
    st.push(l2("B", 2));
    st.push(l2("A", 3));
    let qa = st.get_for_channel("A").unwrap();
    assert_eq!(qa.len(), 2);
    assert_eq!(qa.get(1).ts, 3);
    assert_eq!(st.get_for_channel("B").unwrap().len(), 1);
    for i in 0..150 {
        st.push(l2("B", 10 + i));
    }
    assert!(st.get_for_channel("B").unwrap().len() <= 100);
    assert_eq!(st.get_for_channel("A").unwrap().len(), 2);
    let a = AddrV4::new(9, 9);
    st.push_connection_trace(ConnectionTraceL1Item { ts: 5, addr: a, inner: ConnectionTraceL1ItemInner::Ping });
    assert_eq!(st.get_for_connection(a).unwrap().len(), 1);
    assert!(st.get_for_connection(AddrV4::new(9, 8)).is_none());
}

#[test]
fn connset_shutdown_asks_every_channel_once() {
    let mut cs = ConnSetCore::new();
    cs.handle_channel_add(ChannelConfig::st_monitor("B", "test.hcl")).unwrap();
    cs.handle_channel_add(ChannelConfig::st_monitor("A", "test.hcl")).unwrap();
    cs.trigger_shutdown();
    assert!(cs.poll_input());
    assert_eq!(cs.issue_shutdown_remove(0), Some(0));
    assert_eq!(cs.issue_shutdown_remove(0), Some(1));
    assert_eq!(cs.issue_shutdown_remove(0), None);
    assert!(cs.channel_at(0).remove_on_shutdown_sent);
    cs.enter_shutdown2();
    assert_eq!(cs.state(), ConnSetState::Shutdown2);
    assert!(!cs.poll_input());
    cs.enter_done();
    assert_eq!(cs.state(), ConnSetState::Done);
}
