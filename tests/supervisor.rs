use log_hub::broadcaster::{Broadcaster, Received};
use log_hub::messages::BroadcastLog;
use log_hub::supervisor::{
    already_stopped, kill_command, started_message, stopped_message, KillOutcome, ProcessSlot,
    StopStatus,
};

#[test]
fn start_then_stop_targets_the_pid() {
    let mut slot = ProcessSlot::new();
    assert_eq!(slot.on_spawn(Ok(Some(4242))), Ok(Some(4242)));
    assert!(slot.is_running());
    let target = slot.begin_stop();
    assert_eq!(target, Some(4242));
    assert_eq!(kill_command(4242), "kill -9 4242");
    let reply = slot.finish_stop(4242, KillOutcome::Succeeded);
    assert_eq!(reply.status, StopStatus::Stopped);
    assert_eq!(reply.status.label(), "stopped");
    assert_eq!(reply.body, "Server stopped successfully. (PID: 4242)");
    let notice = reply.notice.unwrap();
    assert!(notice.is_error);
    assert_eq!(notice.message, "[INFO]: Server stopped successfully. (PID: 4242)");
    assert_eq!(slot.pid(), None);
}

#[test]
fn stop_without_start_is_already_stopped() {
    let mut slot = ProcessSlot::new();
    assert_eq!(slot.begin_stop(), None);
    let reply = already_stopped();
    assert_eq!(reply.status, StopStatus::AlreadyStopped);
    assert_eq!(reply.status.label(), "already-stopped");
    assert_eq!(reply.body, "Server is already stopped or was never started.");
    assert!(reply.notice.is_none());
    assert!(!slot.is_running());
}

#[test]
fn failed_stop_keeps_the_pid() {
    let mut slot = ProcessSlot::new();
    slot.on_spawn(Ok(Some(77))).unwrap();
    let pid = slot.begin_stop().unwrap();
    let reply = slot.finish_stop(pid, KillOutcome::Failed("no such process".to_string()));
    assert_eq!(reply.status, StopStatus::Failed);
    assert_eq!(reply.status.label(), "failed");
    assert_eq!(reply.body, "Failed to stop server (PID: 77. Error: no such process");
    assert_eq!(
        reply.notice.unwrap().message,
        "[ERR]: Failed to stop server (PID: 77. Error: no such process"
    );
    assert_eq!(slot.begin_stop(), Some(77));
}

#[test]
fn kill_not_run_keeps_the_pid() {
    let mut slot = ProcessSlot::new();
    slot.on_spawn(Ok(Some(5))).unwrap();
    slot.begin_stop();
    let reply = slot.finish_stop(5, KillOutcome::NotRun("sh missing".to_string()));
    assert_eq!(reply.status, StopStatus::Failed);
    assert_eq!(reply.body, "Failed to execute kill command: sh missing");
    assert_eq!(slot.pid(), Some(5));
}

#[test]
fn spawn_failure_leaves_slot_unchanged() {
    let mut slot = ProcessSlot::new();
    slot.on_spawn(Ok(Some(9))).unwrap();
    let r = slot.on_spawn(Err("No such file or directory".to_string()));
    assert_eq!(r, Err("Error starting server: No such file or directory".to_string()));
    assert_eq!(slot.pid(), Some(9));
}

#[test]
fn second_start_overwrites_pid() {
    let mut slot = ProcessSlot::new();
    slot.on_spawn(Ok(Some(1))).unwrap();
    slot.on_spawn(Ok(Some(2))).unwrap();
    assert_eq!(slot.pid(), Some(2));
}

#[test]
fn start_messages() {
    assert_eq!(started_message(Some(1234)), "Server started (PID: 1234)");
    assert_eq!(started_message(None), "Server started (PID: no pid)");
    assert_eq!(started_message(Some(0)), "Server started (PID: 0)");
    assert_eq!(stopped_message(4294967295), "Server stopped successfully. (PID: 4294967295)");
}

fn drain(hub: &mut Broadcaster, id: u64) -> Vec<String> {
    let mut out = Vec::new();
    while let Received::Frame(m) = hub.receive(id) {
        out.push(m.0);
    }
    out
}

#[test]
fn end_to_end_two_subscribers() {
    let mut hub = Broadcaster::new();
    let mut slot = ProcessSlot::new();
    let pid = slot.on_spawn(Ok(Some(300))).unwrap().unwrap();
    hub.connect(1);
    hub.connect(2);
    hub.broadcast(&BroadcastLog::from_line("one\n", false));
    hub.broadcast(&BroadcastLog::from_line("warn\n", true));
    hub.broadcast(&BroadcastLog::from_line("two\n", false));
    hub.broadcast(&BroadcastLog::from_line("three\r\n", false));
    for id in [1u64, 2] {
        let got = drain(&mut hub, id);
        assert_eq!(got.len(), 4);
        assert_eq!(got.iter().filter(|s| s.starts_with("[ERR]: ")).count(), 1);
        let out: Vec<&String> = got.iter().filter(|s| s.starts_with("[OUT]: ")).collect();
        assert_eq!(out, vec!["[OUT]: one", "[OUT]: two", "[OUT]: three"]);
    }
    hub.disconnect(2);
    assert_eq!(slot.begin_stop(), Some(pid));
    let reply = slot.finish_stop(pid, KillOutcome::Succeeded);
    hub.broadcast(&reply.notice.unwrap());
    assert_eq!(
        drain(&mut hub, 1),
        vec!["[ERR]: [INFO]: Server stopped successfully. (PID: 300)".to_string()]
    );
    assert!(matches!(hub.receive(2), Received::Gone));
}
