use agent_supervisor::supervisor::{replay_run, started_notification, Notification, RunState};
use agent_supervisor::text::{decimal_string, join};

#[test]
fn decimal_rendering() {
    assert_eq!(decimal_string(0), "0");
    assert_eq!(decimal_string(7), "7");
    assert_eq!(decimal_string(10), "10");
    assert_eq!(decimal_string(90210), "90210");
    assert_eq!(decimal_string(u32::MAX), "4294967295");
}

#[test]
fn joining_parts() {
    assert_eq!(join(&Vec::new(), " "), "");
    assert_eq!(join(&vec!["one".to_string()], " "), "one");
    assert_eq!(join(&vec!["a".to_string(), "b".to_string(), "c".to_string()], ", "), "a, b, c");
}

#[test]
fn started_notification_carries_pid() {
    let n = started_notification(Some(4242));
    assert_eq!(n, Notification::Started { detail: "Agent PID: 4242".to_string() });
    assert_eq!(n.event_name(), "run-started");
    assert_eq!(n.payload().as_str(), "Agent PID: 4242");
}

#[test]
fn started_notification_marks_missing_pid() {
    let n = started_notification(None);
    assert_eq!(n, Notification::Started { detail: "Agent PID: N/A".to_string() });
}

#[test]
fn event_names_cover_every_kind() {
    let stderr = Notification::StderrLine { line: "oops".to_string() };
    assert_eq!(stderr.event_name(), "run-stderr-line");
    assert_eq!(stderr.payload().as_str(), "oops");
    let success = Notification::Success { detail: "done".to_string() };
    assert_eq!(success.event_name(), "run-success");
    let failure = Notification::RunError { detail: "bad".to_string() };
    assert_eq!(failure.event_name(), "run-error");
}

#[test]
fn successful_run_emits_started_then_lines_then_success() {
    let lines = vec!["warming up".to_string(), "snapping".to_string(), "saved".to_string()];
    let ns = replay_run(Some(7), &lines, true, &"exit status: 0".to_string());
    assert_eq!(ns.len(), 5);
    assert_eq!(ns[0], Notification::Started { detail: "Agent PID: 7".to_string() });
    assert_eq!(ns[1], Notification::StderrLine { line: "warming up".to_string() });
    assert_eq!(ns[2], Notification::StderrLine { line: "snapping".to_string() });
    assert_eq!(ns[3], Notification::StderrLine { line: "saved".to_string() });
    assert_eq!(
        ns[4],
        Notification::Success { detail: "Agent exited successfully (Status: exit status: 0)".to_string() }
    );
    let stderr_count = ns.iter().filter(|n| n.event_name() == "run-stderr-line").count();
    assert_eq!(stderr_count, lines.len());
    let success_count = ns.iter().filter(|n| n.event_name() == "run-success").count();
    assert_eq!(success_count, 1);
}

#[test]
fn failed_run_emits_error_with_status_and_no_success() {
    let lines = vec!["Traceback (most recent call last):".to_string()];
    let ns = replay_run(None, &lines, false, &"exit status: 2".to_string());
    assert_eq!(ns.len(), 3);
    let last = &ns[2];
    assert_eq!(last.event_name(), "run-error");
    assert_eq!(last.payload().as_str(), "Agent exited with non-zero status: exit status: 2");
    assert!(last.payload().contains("exit status: 2"));
    assert!(ns.iter().all(|n| n.event_name() != "run-success"));
}

#[test]
fn run_with_no_output_still_has_both_lifecycle_ends() {
    let ns = replay_run(Some(1), &Vec::new(), true, &"exit status: 0".to_string());
    assert_eq!(ns.len(), 2);
    assert_eq!(ns[0].event_name(), "run-started");
    assert_eq!(ns[1].event_name(), "run-success");
}

#[test]
fn machine_walk_emits_in_driving_order() {
    let mut state = RunState::new();
    assert!(!state.started);
    assert!(!state.finished);
    let started = state.on_spawned(Some(99));
    assert_eq!(started.event_name(), "run-started");
    assert!(state.started);
    let line = state.on_stderr_line("working".to_string());
    assert_eq!(line, Notification::StderrLine { line: "working".to_string() });
    assert!(!state.finished);
    let terminal = state.on_exit(false, &"exit status: 1".to_string());
    assert_eq!(
        terminal,
        Notification::RunError { detail: "Agent exited with non-zero status: exit status: 1".to_string() }
    );
    assert!(state.finished);
}

#[test]
fn wait_failure_names_the_command_line() {
    let mut state = RunState::new();
    state.on_spawned(None);
    let n = state.on_wait_failure(
        &"python3 agent.py --config /tmp/layout.json".to_string(),
        &"no child process".to_string(),
    );
    assert_eq!(n.event_name(), "run-error");
    assert_eq!(
        n.payload().as_str(),
        "Failed to wait for agent process (python3 agent.py --config /tmp/layout.json): no child process"
    );
    assert!(state.finished);
}

#[test]
fn spawn_failure_returns_error_and_emits_nothing() {
    let state = RunState::new();
    let e = state.spawn_failure(
        &"nonexistent-interpreter agent.py --config /tmp/layout.json".to_string(),
        &"No such file or directory".to_string(),
    );
    assert_eq!(
        e,
        "Failed to spawn agent command 'nonexistent-interpreter agent.py --config /tmp/layout.json': No such file or directory"
    );
    assert!(!state.started);
    assert!(!state.finished);
}
