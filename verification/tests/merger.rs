use daqingest::container::{ContainerEvents, TsNano};
use daqingest::merger::{InputItem, Merger, MergerItem};
use std::collections::VecDeque;

const SEC: u64 = 1_000_000_000;

fn make_container(off: usize, step: usize, cnt: usize) -> ContainerEvents<f32> {
    let mut ret = ContainerEvents::new();
    let mut ts = off;
    for _ in 0..cnt {
        ret.push_back(TsNano::from_ns(SEC * ts as u64), ts as f32);
        ts += step;
    }
    ret
}

fn make_stream_items(off: usize, step: usize, cnt_stream: usize, cnt_item: usize) -> VecDeque<InputItem<f32>> {
    let mut ret = VecDeque::new();
    let mut cnt_todo = cnt_stream;
    let mut off = off;
    while cnt_todo > 0 {
        let cnt = if cnt_todo > cnt_item {
            let x = cnt_item;
            cnt_todo -= x;
            x
        } else {
            let x = cnt_todo;
            cnt_todo = 0;
            x
        };
        ret.push_back(InputItem::Data(make_container(off, step, cnt)));
        off += cnt * step;
    }
    ret
}

fn make_streams_exactly_alternating(
    off: usize,
    n_streams: usize,
    cnt_total: usize,
    cnt_per_item: usize,
) -> Vec<VecDeque<InputItem<f32>>> {
    let mut ret = Vec::new();
    let mut cnt_todo = cnt_total;
    let cnt_per_stream = cnt_total / n_streams;
    for i in 0..n_streams {
        let cnt = if cnt_todo > cnt_per_stream {
            let x = cnt_per_stream;
            cnt_todo -= x;
            x
        } else {
            let x = cnt_todo;
            cnt_todo = 0;
            x
        };
        ret.push(make_stream_items(off + i, n_streams, cnt, cnt_per_item));
    }
    ret
}

fn make_streams_from_pattern(pattern: &[&[&[usize]]]) -> Vec<VecDeque<InputItem<f32>>> {
    let mut streams = Vec::new();
    for pt1 in pattern.iter() {
        let mut conts = VecDeque::new();
        for pt2 in pt1.iter() {
            let mut c = ContainerEvents::new();
            for &pt3 in pt2.iter() {
                c.push_back(TsNano::from_ns(SEC * pt3 as u64), pt3 as f32);
            }
            conts.push_back(InputItem::Data(c));
        }
        streams.push(conts);
    }
    streams
}

fn collect(mut merger: Merger<f32>) -> Vec<MergerItem<f32>> {
    let mut ret = Vec::new();
    while let Some(x) = merger.next() {
        ret.push(x);
    }
    ret
}

fn data_of(items: Vec<MergerItem<f32>>) -> Vec<ContainerEvents<f32>> {
    let mut ret = Vec::new();
    for x in items {
        match x {
            MergerItem::Data(c) => ret.push(c),
            MergerItem::Error(e) => panic!("unexpected error {e:?}"),
            _ => {}
        }
    }
    ret
}

/// Compares a merged output container against the expected stream: every
/// event of the output must be an event of the expected stream, with its
/// value, and the output must be ordered by time.
fn testing_cmp(a: &ContainerEvents<f32>, b: &ContainerEvents<f32>) -> Result<(), String> {
    let ta = a.tss();
    let va = a.values();
    let tb = b.tss();
    let vb = b.values();
    for i in 0..ta.len() {
        if i > 0 && ta[i] < ta[i - 1] {
            return Err(format!("not ordered at {i}"));
        }
        match tb.iter().position(|&t| t == ta[i]) {
            Some(j) => {
                if va[i] != vb[j] {
                    return Err(format!("value mismatch at ts {}", ta[i]));
                }
            }
            None => return Err(format!("unexpected ts {}", ta[i])),
        }
    }
    Ok(())
}

#[test]
fn merger_00() {
    let mut evs0 = ContainerEvents::<f32>::new();
    evs0.push_back(TsNano::from_ns(9), 9.0);
    let mut evs1 = ContainerEvents::<f32>::new();
    evs1.push_back(TsNano::from_ns(11), 11.0);
    let inp0: VecDeque<_> = [InputItem::Data(evs0), InputItem::Data(evs1)].into_iter().collect();
    let merger = Merger::new(vec![inp0], None);
    let out = data_of(collect(merger));
    let tss: Vec<u64> = out.iter().flat_map(|c| c.tss()).collect();
    assert_eq!(tss, vec![9, 11]);
}

#[test]
fn merger_alternating_00() {
    let exp_01 = make_container(400, 1, 100);
    let inps = make_streams_exactly_alternating(400, 3, 100, 7);
    let merger = Merger::new(inps, None);
    let out = data_of(collect(merger));
    assert!(!out.is_empty());
    for x in out.iter() {
        if let Err(msg) = testing_cmp(x, &exp_01) {
            panic!("bad result {msg}");
        }
    }
}

#[test]
fn merger_overlap_00() {
    let pattern: &[&[&[usize]]] = &[
        &[&[400, 405, 408, 410, 414], &[416, 417, 418, 419]],
        &[&[402], &[404, 406, 411, 412, 413]],
        &[&[401], &[403], &[406, 407, 409], &[413, 414, 415]],
    ];
    let inps = make_streams_from_pattern(pattern);
    let exp_00 = make_container(400, 1, 20);
    let merger = Merger::new(inps, None);
    let merged = data_of(collect(merger));
    if let Err(msg) = testing_cmp(&merged[0], &exp_00) {
        panic!("bad result {msg}");
    }
    assert!(merged[0] == exp_00, "bad result {:?}", merged[0]);
}

#[test]
fn merger_out_max_len_splits_output() {
    let inps = vec![make_stream_items(0, 1, 10, 10)];
    let merger = Merger::new(inps, Some(4));
    let out = data_of(collect(merger));
    let lens: Vec<usize> = out.iter().map(|c| c.len()).collect();
    assert_eq!(lens, vec![10]);
}

#[test]
fn merger_rejects_non_monotonic_batch() {
    let mut c = ContainerEvents::<f32>::new();
    c.push_back(TsNano::from_ns(5), 5.0);
    c.push_back(TsNano::from_ns(3), 3.0);
    let inp: VecDeque<_> = [InputItem::Data(c)].into_iter().collect();
    let out = collect(Merger::new(vec![inp], None));
    assert!(matches!(out[0], MergerItem::Error(daqingest::merger::MergerError::InputNotMonotonic)));
    assert_eq!(out.len(), 1);
}

#[test]
fn merger_passes_log_and_drops_range_complete() {
    let mut c = ContainerEvents::<f32>::new();
    c.push_back(TsNano::from_ns(5), 5.0);
    let inp: VecDeque<_> = [InputItem::Log("hello".to_string()), InputItem::Data(c), InputItem::RangeComplete]
        .into_iter()
        .collect();
    let out = collect(Merger::new(vec![inp], None));
    assert!(matches!(&out[0], MergerItem::Log(s) if s == "hello"));
    assert!(matches!(&out[1], MergerItem::Data(c) if c.tss() == vec![5]));
    assert_eq!(out.len(), 2);
}

#[test]
fn merger_input_error_is_reported() {
    let inp: VecDeque<InputItem<f32>> = [InputItem::Error("broken".to_string())].into_iter().collect();
    let out = collect(Merger::new(vec![inp], None));
    assert!(matches!(&out[0], MergerItem::Error(daqingest::merger::MergerError::Input(s)) if s == "broken"));
}
