use daqingest::daemon::{ChannelNameSet, DaemonState};
use daqingest::locallog::LocalLog;
use daqingest::procstat::{cpu_usage_from_stat, memory_usage_from_statm, nth_field, parse_u64};
use daqingest::subfr::{is_pulsed_subfr, is_vec_subfr, pulsed_subfr, subfr_scalar_type, SubFrId};

#[test]
fn local_log_truncates() {
    let mut l = LocalLog::new();
    for i in 0..120 {
        l.push(format!("e{i}"), i as i64);
    }
    assert_eq!(l.to_vec_string().len(), 120);
    l.push("last".into(), 999);
    let v = l.to_vec_string();
    assert_eq!(v.len(), 101);
    assert_eq!(v[0].0, 20);
    assert_eq!(v[100].0, 120);
    assert_eq!(v[100].2, "last");
    assert_eq!(v[100].1, 999);
    assert_eq!(l.pop().map(|e| e.0), Some(20));
    l.enable();
    assert!(l.to_vec_string().is_empty(), "enabling starts a fresh buffer");
}

#[test]
fn parse_like_std() {
    assert_eq!(parse_u64("123"), Some(123));
    assert_eq!(parse_u64("+7"), Some(7));
    assert_eq!(parse_u64("+"), None);
    assert_eq!(parse_u64(""), None);
    assert_eq!(parse_u64("-1"), None);
    assert_eq!(parse_u64("12a"), None);
    assert_eq!(parse_u64("18446744073709551615"), Some(u64::MAX));
    assert_eq!(parse_u64("18446744073709551616"), None);
    for s in ["0", "42", "+42", "007", "x", "99999999999999999999"] {
        assert_eq!(parse_u64(s), s.parse::<u64>().ok(), "{s}");
    }
}

#[test]
fn fields_like_split() {
    let s = "a  b c";
    let v: Vec<&str> = s.split(" ").collect();
    for k in 0..6 {
        assert_eq!(nth_field(s, k), v.get(k).map(|x| x.to_string()), "{k}");
    }
    assert_eq!(nth_field("", 0), Some(String::new()));
}

#[test]
fn cpu_and_memory_usage() {
    let stat = "1 (x) S 0 0 0 0 -1 0 0 0 0 0 120 30 0 0 20 0 1 0 5 0 0";
    assert_eq!(cpu_usage_from_stat(stat), 150);
    assert_eq!(cpu_usage_from_stat("1 2 3"), 0);
    assert_eq!(memory_usage_from_statm("100 25 3 1 0 20 0", 4096), 25 * 4096);
    assert_eq!(memory_usage_from_statm("100", 4096), 0);
}

#[test]
fn daemon_shutdown_deadline() {
    let mut st = DaemonState::Running;
    assert!(!st.deadline_expired(0));
    assert!(st.trigger_shutdown(1000));
    assert_eq!(st, DaemonState::Stopping { deadline_ms: 31000 });
    assert!(!st.trigger_shutdown(2000));
    assert!(!st.deadline_expired(30999));
    assert!(st.deadline_expired(31000));
}

#[test]
fn config_reload_diff() {
    let old = ChannelNameSet::from_names(&vec!["C".into(), "A".into(), "B".into(), "A".into()]);
    assert_eq!(old.len(), 3);
    assert_eq!(old.get(0), "A");
    assert_eq!(old.get(2), "C");
    assert!(old.contains("B"));
    let config: Vec<String> = vec!["D".into(), "A".into(), "E".into()];
    let (add, remove) = old.diff(&config);
    assert_eq!(add, vec!["D".to_string(), "E".to_string()]);
    assert_eq!(remove, vec!["B".to_string(), "C".to_string()]);
}

#[test]
fn subframe_ids() {
    assert_eq!(<u8 as SubFrId>::sub(), 0x01);
    assert_eq!(<Vec<u8> as SubFrId>::sub(), 0x0401);
    assert_eq!(<Vec<String> as SubFrId>::sub(), 0x040c);
    assert!(is_vec_subfr(<Vec<i64> as SubFrId>::sub()));
    assert!(!is_vec_subfr(<i64 as SubFrId>::sub()));
    assert_eq!(pulsed_subfr(0x03), 0x0803);
    assert!(is_pulsed_subfr(pulsed_subfr(0x03)));
    assert_eq!(subfr_scalar_type(0x0c0b), 0x0b);
}
