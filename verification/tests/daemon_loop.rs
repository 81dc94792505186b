use daqingest::daemon::{DaemonCmdKind, DaemonEvent, DaemonLoop, DaemonState, SHUTDOWN_DEADLINE_MS};

#[test]
fn daemon_cmd_names() {
    assert_eq!(DaemonCmdKind::GetMetrics.name(), "GetMetrics");
    assert_eq!(DaemonCmdKind::ScyllaStatus.name(), "ScyllaStatus");
    assert_eq!(DaemonCmdKind::ConfigReload.name(), "ConfigReload");
    assert_eq!(DaemonCmdKind::Shutdown.name(), "Shutdown");
}

#[test]
fn daemon_loop_shutdown_once_and_deadline() {
    let mut d = DaemonLoop::new();
    let s = d.on_event(DaemonEvent::Cmd(DaemonCmdKind::GetMetrics), 0);
    assert_eq!(s.reply, Some(DaemonCmdKind::GetMetrics));
    assert!(!s.shutdown_connset && !s.exit && !s.reload);
    assert!(d.on_event(DaemonEvent::Cmd(DaemonCmdKind::ConfigReload), 0).reload);
    let s = d.on_event(DaemonEvent::Signal, 1000);
    assert!(s.shutdown_connset);
    // A second request does not ask the connection set again.
    let s = d.on_event(DaemonEvent::Cmd(DaemonCmdKind::Shutdown), 2000);
    assert_eq!(s.reply, Some(DaemonCmdKind::Shutdown));
    assert!(!s.shutdown_connset);
    assert!(!d.on_event(DaemonEvent::Tick, 1000 + SHUTDOWN_DEADLINE_MS - 1).exit);
    assert!(d.on_event(DaemonEvent::Tick, 1000 + SHUTDOWN_DEADLINE_MS).exit);
}

#[test]
fn daemon_loop_sources_end() {
    let mut d = DaemonLoop::new();
    assert!(d.listens_signals() && d.listens_cmds() && d.listens_insert_out());
    d.on_event(DaemonEvent::SignalsEnded, 0);
    assert!(!d.listens_signals());
    d.on_event(DaemonEvent::InsertOutEnded, 0);
    assert!(!d.listens_insert_out());
    let s = d.on_event(DaemonEvent::CmdClosed, 5);
    assert!(!d.listens_cmds());
    assert!(s.shutdown_connset);
    assert!(!d.on_event(DaemonEvent::Tick, 10).exit);
    assert!(d.on_event(DaemonEvent::ConnsetEnded, 10).exit);
    let mut st = DaemonState::Running;
    assert!(st.trigger_shutdown(7));
    assert_eq!(st, DaemonState::Stopping { deadline_ms: 7 + SHUTDOWN_DEADLINE_MS });
}

use daqingest::daemon::{queue_totals, QueueLens};

#[test]
fn daemon_queue_totals() {
    let a = QueueLens { st_rf1: 1, st_rf3: 2, mt_rf3: 3, lt_rf3: 4, lt_rf3_lat5: 5 };
    let b = QueueLens { st_rf1: 10, st_rf3: 20, mt_rf3: 30, lt_rf3: 40, lt_rf3_lat5: 50 };
    assert_eq!(queue_totals(&vec![a, b]), QueueLens { st_rf1: 11, st_rf3: 22, mt_rf3: 33, lt_rf3: 44, lt_rf3_lat5: 55 });
    assert_eq!(queue_totals(&Vec::new()), QueueLens { st_rf1: 0, st_rf3: 0, mt_rf3: 0, lt_rf3: 0, lt_rf3_lat5: 0 });
}
