use baibo::domain::agent::{AgentIsolationMode, AgentLaunchMode, AgentSessionId};
use baibo::domain::provider::ProviderId;
use baibo::domain::terminal::{NewTerminalSession, SessionKind, TerminalId, TerminalStatus};
use baibo::domain::workspace::WorkspaceId;
use baibo::persistence::terminal_records::{created_record, finish, mark_running};
use baibo::services::agent::{
    agent_title, check_restartable, new_agent_session, AgentCommandError, AgentError,
    AgentSessionStore,
};
use baibo::services::provider::ProviderError;
use baibo::services::terminal::TerminalError;

fn workspace(name: &str) -> WorkspaceId {
    WorkspaceId::from(name.to_owned())
}

fn agent(id: &str, workspace_id: &str, provider_id: ProviderId, created_at: i64) -> baibo::domain::agent::AgentSession {
    let terminal = created_record(
        NewTerminalSession {
            id: TerminalId::from(format!("terminal-{id}")),
            workspace_id: workspace(workspace_id),
            title: String::new(),
            auto_title: false,
            shell: "/bin/codex".to_owned(),
            cwd: "/workspace".to_owned(),
            cols: 80,
            rows: 24,
            now: created_at,
            session_kind: SessionKind::Agent,
        },
        "Codex 1".to_owned(),
    );
    new_agent_session(
        AgentSessionId::from(id.to_owned()),
        workspace(workspace_id),
        provider_id,
        terminal,
        None,
    )
}

fn listed_ids(store: &AgentSessionStore, workspace_id: &str) -> Vec<String> {
    store.list(&workspace(workspace_id)).iter().map(|s| s.id.as_str().to_owned()).collect()
}

#[test]
fn scopes_stop_restart_and_delete_without_touching_workspace_files() {
    let mut store = AgentSessionStore::new();
    let first = agent("first", "workspace-a", ProviderId::Codex, 1);
    store.insert(first.clone());

    assert_eq!(
        store
            .scoped(&workspace("workspace-b"), &first.id)
            .expect_err("cross-workspace stop")
            .code(),
        "agent_session_not_found"
    );
    let mut stopped = store.scoped(&workspace("workspace-a"), &first.id).expect("stop");
    stopped.terminal = finish(&mark_running(&stopped.terminal, 2), TerminalStatus::Stopped, Some(0), "user_stop", 3);
    store.insert(stopped.clone());
    assert!(check_restartable(stopped.terminal.status).is_ok());

    let mut restarted = agent("restarted", "workspace-a", ProviderId::Codex, 4);
    restarted.restarted_from_session_id = Some(first.id.clone());
    store.insert(restarted.clone());
    assert_eq!(restarted.restarted_from_session_id, Some(first.id.clone()));
    assert_ne!(restarted.id, first.id);

    let removed = store.remove(&first.id).expect("delete first");
    assert_eq!(removed.id, first.id);
    assert_eq!(listed_ids(&store, "workspace-a"), vec!["restarted".to_owned()]);

    store.insert(agent("other", "workspace-b", ProviderId::Pi, 5));
    store.remove_workspace(&workspace("workspace-a"));
    assert!(listed_ids(&store, "workspace-a").is_empty());
    assert_eq!(listed_ids(&store, "workspace-b"), vec!["other".to_owned()]);
    assert!(store.scoped(&workspace("workspace-b"), &AgentSessionId::from("other".to_owned())).is_ok());
}

#[test]
fn running_sessions_cannot_restart() {
    assert_eq!(
        check_restartable(TerminalStatus::Running).expect_err("running").code(),
        "agent_session_still_running"
    );
    assert!(check_restartable(TerminalStatus::Starting).is_err());
    assert!(check_restartable(TerminalStatus::Exited).is_ok());
    assert!(check_restartable(TerminalStatus::Interrupted).is_ok());
}

#[test]
fn sessions_are_listed_newest_first_then_by_id() {
    let mut store = AgentSessionStore::new();
    store.insert(agent("b", "w", ProviderId::Codex, 5));
    store.insert(agent("a", "w", ProviderId::Codex, 5));
    store.insert(agent("c", "w", ProviderId::Pi, 9));
    store.insert(agent("d", "x", ProviderId::Pi, 10));
    assert_eq!(listed_ids(&store, "w"), vec!["c".to_owned(), "a".to_owned(), "b".to_owned()]);
    assert_eq!(store.count_for(&workspace("w"), ProviderId::Codex), 2);
    assert_eq!(store.count_for(&workspace("w"), ProviderId::Pi), 1);
    assert_eq!(store.count_for(&workspace("x"), ProviderId::Codex), 0);
}

#[test]
fn storing_a_session_again_replaces_it() {
    let mut store = AgentSessionStore::new();
    store.insert(agent("a", "w", ProviderId::Codex, 1));
    let mut updated = agent("a", "w", ProviderId::Codex, 1);
    updated.terminal.title = "renamed".to_owned();
    store.insert(updated);
    let listed = store.list(&workspace("w"));
    assert_eq!(listed.len(), 1);
    assert_eq!(listed[0].terminal.title, "renamed");
    assert!(store.remove(&AgentSessionId::from("missing".to_owned())).is_none());
}

#[test]
fn new_sessions_are_numbered_per_provider() {
    assert_eq!(agent_title(ProviderId::Codex, 0), "Codex 1");
    assert_eq!(agent_title(ProviderId::Pi, 11), "Pi 12");
    assert_eq!(agent_title(ProviderId::Codex, 99), "Codex 100");
    let session = agent("a", "w", ProviderId::Pi, 42);
    assert_eq!(session.created_at, 42);
    assert_eq!(session.launch_mode, AgentLaunchMode::InteractivePty);
    assert_eq!(session.isolation_mode, AgentIsolationMode::Workspace);
    assert!(session.provider_session_id.is_none());
}

#[test]
fn agent_errors_carry_codes_and_messages() {
    let missing = AgentError::not_found(&AgentSessionId::from("abc".to_owned()));
    assert_eq!(missing.code(), "agent_session_not_found");
    assert_eq!(missing.message(), "未找到 Agent 会话 abc");
    assert_eq!(AgentError::Internal.code(), "agent_internal");
    assert_eq!(
        AgentError::from_provider(ProviderError::PiTrustUnknown).code(),
        "pi_trust_unknown"
    );
    assert_eq!(
        AgentError::from_terminal(TerminalError::NotRunning).code(),
        "terminal_not_running"
    );
    let reported = AgentCommandError::from(AgentError::StillRunning);
    assert_eq!(reported.code, "agent_session_still_running");
    assert_eq!(reported.message, "运行中的 Agent 会话不能重新开始");
}
