use daqingest::channelhandler::{CaMsgTy, ProtoRxItem};
use daqingest::channeltrace::{CaProto, ChannelTraceItem, ChannelTraceItemInner, ReadNotifyRes};
use daqingest::subfut::{AdhocPoll, CaSubFutItem, ReadNotifyAdhoc, ADHOC_INP_BUF_CAP};

fn answer(ioid: u32) -> CaMsgTy {
    CaMsgTy::ReadNotifyRes { data_type: 6, count: 1, sid: 3, ioid, data: vec![1, 2], variants: None }
}

#[test]
fn adhoc_sends_request_first() {
    let mut a = ReadNotifyAdhoc::new(3, 6, 1, 9);
    assert_eq!(a.awaits_ioid(), Some(9));
    assert_eq!(
        a.poll_next(1_000_000_000),
        AdhocPoll::Item(CaSubFutItem::CaMsgOut(CaMsgTy::ReadNotify { data_type: 6, count: 1, sid: 3, ioid: 9 }))
    );
    assert_eq!(a.poll_next(1_000_000_000), AdhocPoll::Pending);
}

#[test]
fn adhoc_answer_skips_other_messages() {
    let mut a = ReadNotifyAdhoc::new(3, 6, 1, 9);
    a.poll_next(1_000_000_000);
    assert_eq!(a.inp_push_try(ProtoRxItem { msg: CaMsgTy::Other }), None);
    assert_eq!(a.inp_push_try(ProtoRxItem { msg: answer(9) }), None);
    let r = a.poll_next(1_250_000_000);
    assert_eq!(
        r,
        AdhocPoll::Item(CaSubFutItem::ChannelTrace(ChannelTraceItem {
            ts: 1250,
            inner: ChannelTraceItemInner::CaProto(CaProto::ReadNotifyRes(ReadNotifyRes { latency: 250_000_000 })),
        }))
    );
    assert_eq!(a.take_answer(), Some(answer(9)));
    assert_eq!(a.take_answer(), None);
    assert_eq!(a.poll_next(9_000_000_000), AdhocPoll::Finished);
}

#[test]
fn adhoc_times_out_after_four_seconds() {
    let mut a = ReadNotifyAdhoc::new(3, 6, 1, 9);
    a.poll_next(1_000_000_000);
    assert_eq!(a.poll_next(5_000_000_000), AdhocPoll::Pending);
    assert_eq!(
        a.poll_next(5_000_000_001),
        AdhocPoll::Item(CaSubFutItem::ChannelTrace(ChannelTraceItem {
            ts: 5000,
            inner: ChannelTraceItemInner::CaProto(CaProto::ReadNotifyTimeout),
        }))
    );
    assert_eq!(a.poll_next(6_000_000_000), AdhocPoll::Finished);
}

#[test]
fn adhoc_finishes_when_input_ends() {
    let mut a = ReadNotifyAdhoc::new(3, 6, 1, 9);
    a.poll_next(0);
    a.inp_done();
    assert_eq!(a.poll_next(1), AdhocPoll::Finished);
}

#[test]
fn adhoc_input_is_bounded() {
    let mut a = ReadNotifyAdhoc::new(3, 6, 1, 9);
    for _ in 0..ADHOC_INP_BUF_CAP {
        assert_eq!(a.inp_push_try(ProtoRxItem { msg: CaMsgTy::Other }), None);
    }
    assert_eq!(
        a.inp_push_try(ProtoRxItem { msg: CaMsgTy::Other }),
        Some(ProtoRxItem { msg: CaMsgTy::Other })
    );
}
