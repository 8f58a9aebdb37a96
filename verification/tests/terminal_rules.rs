use std::sync::atomic::{AtomicUsize, Ordering};

use baibo::domain::terminal::{
    LifecycleEventKind, NewTerminalSession, SessionKind, TerminalEvent, TerminalId,
    TerminalLogCoverage, TerminalSession, TerminalStatus,
};
use baibo::domain::workspace::WorkspaceId;
use baibo::persistence::terminal_records::{
    check_deletable, chunks_to_drop, created_record, ensure_changed, finish, lifecycle_event,
    log_index, mark_running, recover_interrupted, recover_sessions, shell_title, MAX_LOG_BYTES,
};
use baibo::services::terminal::{
    broadcast_event, check_launch_cwd, choose_login_shell, exit_outcome, launch_path_to_string,
    login_shell_candidate, output_step, shell_launch_spec, stop_plan, subscriber_after_send,
    terminal_timestamp, validate_input, validate_size, OutputStep, QueueSend, StopPlan,
    TerminalCommandError, TerminalError, TerminalSubscriber, WaitOutcome, FALLBACK_SHELL,
    MAX_INPUT_BYTES,
};
use baibo::services::workspace::WorkspaceError;

fn new_terminal(id: &str, workspace: &str, now: i64) -> NewTerminalSession {
    NewTerminalSession {
        id: TerminalId::from(id.to_owned()),
        workspace_id: WorkspaceId::from(workspace.to_owned()),
        title: String::new(),
        auto_title: true,
        shell: "/bin/zsh".to_owned(),
        cwd: "/workspace".to_owned(),
        cols: 80,
        rows: 24,
        now,
        session_kind: SessionKind::Shell,
    }
}

fn session(id: &str, workspace: &str, title: &str) -> TerminalSession {
    created_record(new_terminal(id, workspace, 1), title.to_owned())
}

#[test]
fn creates_scoped_sessions_and_rejects_cross_workspace_ids() {
    let title = shell_title(&Vec::new());
    let terminal = session("t1", "workspace-a", &title);

    assert_eq!(terminal.title, "Shell 1");
    assert_eq!(terminal.status, TerminalStatus::Starting);
    assert_eq!(terminal.created_at, 1);
    assert!(terminal.started_at.is_none());
    let other_workspace = WorkspaceId::from("workspace-b".to_owned());
    assert_ne!(terminal.workspace_id, other_workspace);
    assert_eq!(ensure_changed(0, &terminal.id).expect_err("cross workspace").code(), "terminal_not_found");
    assert!(ensure_changed(1, &terminal.id).is_ok());
}

#[test]
fn shell_titles_continue_after_the_largest_number() {
    let titles = vec![
        "Shell 1".to_owned(),
        "Shell 12".to_owned(),
        "Shell 3x".to_owned(),
        "Shell x9".to_owned(),
        "Codex 40".to_owned(),
        "Shell".to_owned(),
    ];
    assert_eq!(shell_title(&titles), "Shell 13");
    assert_eq!(shell_title(&vec!["Shell 099".to_owned()]), "Shell 100");
    assert_eq!(shell_title(&vec!["Shell 7 renamed".to_owned()]), "Shell 8");
}

#[test]
fn recovers_live_sessions_without_relaunching() {
    let terminal = session("t1", "w", "Shell 1");
    let running = mark_running(&terminal, 2);
    assert_eq!(running.status, TerminalStatus::Running);
    assert_eq!(running.started_at, Some(2));

    let recovered = recover_interrupted(&running, 3).expect("recover");
    assert_eq!(recovered.status, TerminalStatus::Interrupted);
    assert_eq!(recovered.ended_at, Some(3));
    assert_eq!(recovered.termination_reason.as_deref(), Some("app_restart"));
    assert!(recover_interrupted(&recovered, 4).is_none());
}

#[test]
fn recovery_over_the_table_interrupts_each_live_session_once() {
    let starting = session("t1", "w", "Shell 1");
    let running = mark_running(&session("t2", "v", "Shell 2"), 2);
    let exited = finish(&mark_running(&session("t3", "w", "Shell 3"), 2), TerminalStatus::Exited, Some(0), "exited", 5);
    let table = vec![starting, exited.clone(), running];

    let recovered = recover_sessions(&table, 9);
    assert_eq!(recovered.len(), 2);
    assert_eq!(recovered[0].id.as_str(), "t1");
    assert_eq!(recovered[1].id.as_str(), "t2");
    assert!(recovered.iter().all(|s| s.status == TerminalStatus::Interrupted
        && s.ended_at == Some(9)
        && s.termination_reason.as_deref() == Some("app_restart")));

    let after = vec![recovered[0].clone(), exited, recovered[1].clone()];
    assert!(recover_sessions(&after, 10).is_empty());
}

#[test]
fn lifecycle_events_follow_the_status() {
    let created = session("t1", "w", "Shell 1");
    let first = lifecycle_event(&created, 1, 1);
    assert_eq!(first.kind, LifecycleEventKind::Created);
    assert_eq!(first.status, TerminalStatus::Starting);
    assert_eq!(first.sequence, 1);
    assert_eq!(first.terminal_id.as_str(), "t1");

    let running = mark_running(&created, 2);
    assert_eq!(lifecycle_event(&running, 2, 2).kind, LifecycleEventKind::Running);

    let recovered = recover_interrupted(&running, 7).expect("recover");
    let interrupted = lifecycle_event(&recovered, 3, 7);
    assert_eq!(interrupted.kind, LifecycleEventKind::Interrupted);
    assert_eq!(interrupted.occurred_at, 7);
    assert_eq!(interrupted.reason.as_deref(), Some("app_restart"));

    let exited = finish(&running, TerminalStatus::Exited, Some(3), "exited", 9);
    let last = lifecycle_event(&exited, 3, 9);
    assert_eq!(last.kind, LifecycleEventKind::Exited);
    assert_eq!(last.exit_code, Some(3));
    assert_eq!(last.reason.as_deref(), Some("exited"));
}

#[test]
fn log_index_summarises_the_retained_chunks() {
    let id = TerminalId::from("t1".to_owned());
    let empty = log_index(&id, &Vec::new(), &Vec::new(), false, 5);
    assert_eq!(empty.first_sequence, None);
    assert_eq!(empty.last_sequence, None);
    assert_eq!(empty.chunk_count, 0);
    assert_eq!(empty.retained_bytes, 0);
    assert_eq!(empty.coverage, TerminalLogCoverage::Complete);
    assert_eq!(empty.updated_at, 5);

    let kept = log_index(&id, &vec![4, 5, 9], &vec![10, 20, 30], true, 6);
    assert_eq!(kept.first_sequence, Some(4));
    assert_eq!(kept.last_sequence, Some(9));
    assert_eq!(kept.chunk_count, 3);
    assert_eq!(kept.retained_bytes, 60);
    assert_eq!(kept.coverage, TerminalLogCoverage::Truncated);

    let huge = log_index(&id, &vec![1, 2], &vec![u64::MAX, 1], false, 6);
    assert_eq!(huge.retained_bytes, i64::MAX);
}

#[test]
fn retains_log_order_and_enforces_the_byte_limit() {
    let sizes: Vec<u64> = vec![16 * 1024; 140];
    let dropped = chunks_to_drop(&sizes, MAX_LOG_BYTES);
    let retained: u64 = sizes[dropped..].iter().sum();

    assert!(retained <= MAX_LOG_BYTES);
    assert_eq!(sizes.len() - 1, 139);
    assert!(dropped < sizes.len());
    assert!(dropped > 0);
    assert_eq!(dropped, 12);
    assert_eq!(chunks_to_drop(&vec![10, 20, 30], 50), 1);
    assert_eq!(chunks_to_drop(&vec![10, 20, 30], 5), 3);
    assert_eq!(chunks_to_drop(&Vec::new(), 0), 0);
}

#[test]
fn refuses_to_delete_live_sessions_and_cascades_logs_for_finished_ones() {
    let live = mark_running(&session("t1", "w", "Shell 1"), 2);
    assert_eq!(check_deletable(&live).expect_err("live").code(), "terminal_still_running");
    let finished = finish(&live, TerminalStatus::Exited, Some(0), "test", 3);
    assert_eq!(finished.status, TerminalStatus::Exited);
    assert_eq!(finished.exit_code, Some(0));
    assert_eq!(finished.ended_at, Some(3));
    assert_eq!(finished.termination_reason.as_deref(), Some("test"));
    assert!(check_deletable(&finished).is_ok());
}

#[test]
fn injectable_backend_failure_is_persisted_without_panicking() {
    let starting = session("t1", "w", "Shell 1");
    let failed = finish(&starting, TerminalStatus::Failed, None, "spawn_failed", 2);
    assert_eq!(failed.status, TerminalStatus::Failed);
    assert_eq!(failed.termination_reason.as_deref(), Some("spawn_failed"));
    assert_eq!(TerminalError::SpawnFailed.code(), "terminal_spawn_failed");
}

#[test]
fn sizes_and_inputs_are_bounded() {
    assert!(validate_size(2, 1).is_ok());
    assert!(validate_size(500, 200).is_ok());
    assert_eq!(validate_size(1, 24).expect_err("narrow").code(), "invalid_terminal_size");
    assert!(validate_size(501, 24).is_err());
    assert!(validate_size(80, 0).is_err());
    assert!(validate_size(80, 201).is_err());
    assert!(validate_input(b"ls\n").is_ok());
    assert_eq!(validate_input(b"").expect_err("empty").code(), "invalid_terminal_input");
    assert!(validate_input(&vec![b'x'; MAX_INPUT_BYTES]).is_ok());
    assert!(validate_input(&vec![b'x'; MAX_INPUT_BYTES + 1]).is_err());
}

#[test]
fn process_exit_is_classified() {
    assert_eq!(
        exit_outcome(true, WaitOutcome::Ended { exit_code: 1, by_signal: true }),
        (TerminalStatus::Stopped, Some(1), "user_stop")
    );
    assert_eq!(
        exit_outcome(false, WaitOutcome::Ended { exit_code: 9, by_signal: true }),
        (TerminalStatus::Failed, Some(9), "signal_exit")
    );
    assert_eq!(
        exit_outcome(false, WaitOutcome::Ended { exit_code: 7, by_signal: false }),
        (TerminalStatus::Exited, Some(7), "process_exit")
    );
    assert_eq!(
        exit_outcome(false, WaitOutcome::WaitFailed),
        (TerminalStatus::Failed, None, "wait_failed")
    );
}

#[test]
fn lagging_output_is_announced_once_per_run() {
    let first = output_step(false, QueueSend::Full);
    assert_eq!(first, OutputStep { lagged: true, announce_truncation: true, stop: false });
    let again = output_step(first.lagged, QueueSend::Full);
    assert!(!again.announce_truncation);
    let recovered = output_step(again.lagged, QueueSend::Sent);
    assert!(!recovered.lagged);
    assert!(output_step(false, QueueSend::Disconnected).stop);
    assert_eq!(subscriber_after_send(QueueSend::Full), (true, true));
    assert_eq!(subscriber_after_send(QueueSend::Disconnected), (false, false));
    assert_eq!(subscriber_after_send(QueueSend::Sent), (true, false));
}

#[test]
fn login_shell_falls_back() {
    assert_eq!(login_shell_candidate(None), FALLBACK_SHELL);
    assert_eq!(login_shell_candidate(Some("/bin/bash".to_owned())), "/bin/bash");
    assert_eq!(choose_login_shell("/bin/bash".to_owned(), true, false).expect("shell"), "/bin/bash");
    assert_eq!(choose_login_shell("/bin/bash".to_owned(), false, true).expect("shell"), "/bin/zsh");
    assert_eq!(
        choose_login_shell("/bin/bash".to_owned(), false, false).expect_err("none").code(),
        "shell_unavailable"
    );
    assert_eq!(launch_path_to_string(b"/bin/\xff").expect_err("bytes").code(), "shell_unavailable");
    let launch = shell_launch_spec(b"/bin/zsh", "/workspace");
    assert_eq!(launch.argv, vec![b"-l".to_vec()]);
    assert!(launch.environment.is_none());
}

#[test]
fn agent_launches_must_use_the_workspace_directory() {
    assert!(check_launch_cwd("/workspace", "/workspace").is_ok());
    assert!(check_launch_cwd("/workspace/", "/workspace").is_ok());
    assert_eq!(
        check_launch_cwd("/elsewhere", "/workspace").expect_err("cwd").code(),
        "invalid_terminal_launch_spec"
    );
}

#[test]
fn stop_requests_escalate_once() {
    assert_eq!(stop_plan(true, Some(12)), StopPlan::AlreadyStopping);
    assert_eq!(stop_plan(false, Some(12)), StopPlan::HangUpGroup(12));
    assert_eq!(stop_plan(false, None), StopPlan::KillChild);
}

struct Recorder {
    alive: bool,
    events: AtomicUsize,
}

impl TerminalSubscriber for Recorder {
    fn send_output(&self, _data: Vec<u8>) -> Result<(), ()> {
        if self.alive { Ok(()) } else { Err(()) }
    }

    fn send_event(&self, _event: TerminalEvent) -> Result<(), ()> {
        self.events.fetch_add(1, Ordering::SeqCst);
        if self.alive { Ok(()) } else { Err(()) }
    }
}

#[test]
fn events_drop_subscribers_that_are_gone() {
    let mut subscribers = vec![
        Recorder { alive: true, events: AtomicUsize::new(0) },
        Recorder { alive: false, events: AtomicUsize::new(0) },
        Recorder { alive: true, events: AtomicUsize::new(0) },
    ];
    let event = TerminalEvent::OutputLagged { terminal_id: TerminalId::from("t".to_owned()) };
    let delivered = broadcast_event(&mut subscribers, &event, |s: &Recorder, e| s.send_event(e));
    assert_eq!(delivered, vec![true, false, true]);
    assert_eq!(subscribers.len(), 2);
    assert!(subscribers.iter().all(|s| s.alive && s.events.load(Ordering::SeqCst) == 1));
}

#[test]
fn stored_text_of_terminal_values() {
    for status in [
        TerminalStatus::Starting,
        TerminalStatus::Running,
        TerminalStatus::Exited,
        TerminalStatus::Failed,
        TerminalStatus::Stopped,
        TerminalStatus::Interrupted,
    ] {
        assert_eq!(TerminalStatus::try_from(status.as_str()).expect("status"), status);
    }
    assert_eq!(TerminalStatus::Running.as_str(), "running");
    assert!(TerminalStatus::try_from("bogus").is_err());
    assert_eq!(SessionKind::try_from("agent").expect("kind"), SessionKind::Agent);
    assert_eq!(SessionKind::Shell.as_str(), "shell");
    assert_eq!(
        LifecycleEventKind::try_from(LifecycleEventKind::Exited.as_str()).expect("kind"),
        LifecycleEventKind::Exited
    );
    assert!(TerminalLogCoverage::try_from("complete").is_ok());
}

#[test]
fn terminal_errors_carry_codes() {
    assert_eq!(terminal_timestamp(9).expect("time"), 9);
    assert_eq!(terminal_timestamp(u128::MAX).expect_err("clock").code(), "clock_unavailable");
    let nested = TerminalError::from_workspace(WorkspaceError::PathNotFound);
    assert_eq!(nested.code(), "path_not_found");
    let reported = TerminalCommandError::from(TerminalError::not_found(&TerminalId::from("t".to_owned())));
    assert_eq!(reported.code, "terminal_not_found");
    assert!(reported.message.contains('t'));
}

#[test]
fn database_failures_are_reported_without_detail() {
    let error = TerminalError::database(rusqlite::Error::QueryReturnedNoRows);
    assert_eq!(error.code(), "terminal_database_unavailable");
    assert_eq!(error.message(), "终端数据库不可用");
}
