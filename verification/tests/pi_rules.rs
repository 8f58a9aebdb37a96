use baibo::domain::provider::PiProjectTrustState;
use baibo::domain::workspace::WorkspaceId;
use baibo::services::pi::{
    default_trust_from_bytes, nearest_trust_decision, pi_agent_dir, pi_trust_or_unknown,
    pi_trust_paths, push_rpc_chunk, resolve_pi_trust, rpc_probe_args, rpc_request,
    rpc_response_matches, scan_rpc_output, trust_decisions, trust_entries_from_bytes,
    validate_rpc_response, DefaultTrustSetting, RpcScan, TrustValue, MAX_RPC_LINE_BYTES,
};
use baibo::services::provider::{LoginEnvironment, ProviderError, MAX_COMMAND_BYTES};

fn file(bytes: &[u8]) -> Option<&[u8]> {
    Some(bytes)
}

fn workspace() -> WorkspaceId {
    WorkspaceId::from("workspace-a".to_owned())
}

#[test]
fn validates_fragment_joined_jsonl_without_splitting_unicode_separators() {
    let line = b"{\"id\":\"probe\",\"type\":\"response\",\"command\":\"get_state\",\"success\":true,\"data\":{\"note\":\"a\\u2028b\\u2029c\"}}\n";
    assert!(validate_rpc_response(line, "probe").is_ok());
    let crlf = b"{\"id\":\"probe\",\"type\":\"response\",\"command\":\"get_state\",\"success\":true}\r\n";
    assert!(validate_rpc_response(crlf, "probe").is_ok());
    assert!(validate_rpc_response(b"{\"id\":\"wrong\"}\n", "probe").is_err());
}

#[test]
fn rpc_validation_errors() {
    let ok = b"{\"id\":\"p\",\"type\":\"response\",\"command\":\"get_state\",\"success\":true}";
    assert_eq!(
        validate_rpc_response(b"not json\n", "p").expect_err("protocol").code(),
        "pi_rpc_protocol_invalid"
    );
    assert_eq!(validate_rpc_response(b"", "p").expect_err("empty").code(), "pi_rpc_protocol_invalid");
    let mut long = vec![b' '; MAX_RPC_LINE_BYTES + 1];
    long.push(b'\n');
    assert_eq!(
        validate_rpc_response(&long, "p").expect_err("long line").code(),
        "pi_rpc_response_too_large"
    );
    let mut after_empty = b"\n\n".to_vec();
    after_empty.extend_from_slice(ok);
    assert!(validate_rpc_response(&after_empty, "p").is_ok());
    assert_eq!(rpc_response_matches(ok, "p").expect("json"), true);
    assert_eq!(rpc_response_matches(ok, "q").expect("json"), false);
    let failed = b"{\"id\":\"p\",\"type\":\"response\",\"command\":\"get_state\",\"success\":false}";
    assert_eq!(rpc_response_matches(failed, "p").expect("json"), false);
}

#[test]
fn streamed_answer_counts_once_a_complete_line_matches() {
    let mut output = Vec::new();
    let (parsed, scan) = push_rpc_chunk(&mut output, b"{\"id\":\"p\",\"type\":\"resp", 0, "p");
    assert_eq!(parsed, 0);
    assert!(matches!(scan, RpcScan::Pending));
    let (parsed, scan) = push_rpc_chunk(
        &mut output,
        b"onse\",\"command\":\"get_state\",\"success\":true}\n",
        parsed,
        "p",
    );
    assert_eq!(parsed, output.len());
    assert!(matches!(scan, RpcScan::Answered));

    let (_, failed) = scan_rpc_output(b"garbage\n", 0, "p");
    assert!(matches!(failed, RpcScan::Failed(ProviderError::RpcProtocolInvalid)));
    let (consumed, other) = scan_rpc_output(b"{\"id\":\"x\"}\n{\"id\":", 0, "p");
    assert_eq!(consumed, 11);
    assert!(matches!(other, RpcScan::Pending));
}

#[test]
fn rpc_request_and_probe_arguments() {
    assert_eq!(rpc_request("abc"), "{\"type\":\"get_state\",\"id\":\"abc\"}\n");
    assert_eq!(
        rpc_probe_args(),
        vec![
            "--mode",
            "rpc",
            "--no-session",
            "--no-approve",
            "--offline",
            "--no-extensions",
            "--no-skills",
            "--no-prompt-templates",
            "--no-themes",
            "--no-context-files",
        ]
    );
}

#[test]
fn nearest_parent_trust_decision_wins() {
    let trust = vec![
        ("/workspace".to_owned(), Some(true)),
        ("/workspace/project".to_owned(), Some(false)),
        ("/workspace/project/child".to_owned(), None),
    ];

    assert_eq!(nearest_trust_decision(&trust, "/workspace/project/child"), Some(false));
    assert_eq!(nearest_trust_decision(&trust, "/workspace/other"), Some(true));
    assert_eq!(nearest_trust_decision(&trust, "/elsewhere"), None);
}

#[test]
fn trust_values_must_be_booleans_or_null() {
    let decisions = trust_decisions(vec![
        ("/a".to_owned(), TrustValue::Decision(true)),
        ("/b".to_owned(), TrustValue::Null),
    ])
    .expect("decisions");
    assert_eq!(decisions, vec![("/a".to_owned(), Some(true)), ("/b".to_owned(), None)]);
    let invalid = trust_decisions(vec![("/invalid".to_owned(), TrustValue::Other)]);
    assert_eq!(invalid.expect_err("invalid").code(), "pi_trust_unknown");
}

#[test]
fn trust_paths_cover_project_resources_and_ancestor_skills() {
    let paths = pi_trust_paths("/home/u/projects/workspace", b"/home/u");
    assert_eq!(
        paths,
        vec![
            "/home/u/projects/workspace/.pi/settings.json",
            "/home/u/projects/workspace/.pi/extensions",
            "/home/u/projects/workspace/.pi/skills",
            "/home/u/projects/workspace/.pi/prompts",
            "/home/u/projects/workspace/.pi/themes",
            "/home/u/projects/workspace/.pi/SYSTEM.md",
            "/home/u/projects/workspace/.pi/APPEND_SYSTEM.md",
            "/home/u/projects/workspace/.agents/skills",
            "/home/u/projects/.agents/skills",
            "/home/.agents/skills",
            "/.agents/skills",
        ]
    );
    let without_home = pi_trust_paths("/w", b"\xff");
    assert_eq!(without_home.len(), 7 + 2);
}

#[test]
fn agent_directory_prefers_the_explicit_setting() {
    let mut environment = LoginEnvironment::new();
    assert_eq!(pi_agent_dir(&environment), None);
    environment.insert(b"HOME".to_vec(), b"/home/u".to_vec());
    assert_eq!(pi_agent_dir(&environment), Some(b"/home/u/.pi/agent".to_vec()));
    environment.insert(b"PI_CODING_AGENT_DIR".to_vec(), b"/custom".to_vec());
    assert_eq!(pi_agent_dir(&environment), Some(b"/custom".to_vec()));
    let mut slash = LoginEnvironment::new();
    slash.insert(b"HOME".to_vec(), b"/home/u/".to_vec());
    assert_eq!(pi_agent_dir(&slash), Some(b"/home/u/.pi/agent".to_vec()));
}

#[test]
fn pi_trust_is_read_only_and_honors_parent_and_default_decisions() {
    let trust_file = b"{\"/home/u/projects\":false}\n".to_vec();
    let settings_file = b"{\"defaultProjectTrust\":\"always\"}\n".to_vec();
    let before = trust_file.clone();
    let decided = resolve_pi_trust(
        workspace(),
        "/home/u/projects/workspace",
        true,
        true,
        trust_entries_from_bytes(file(&trust_file)).ok(),
        default_trust_from_bytes(file(&settings_file)).ok(),
    )
    .expect("trust");
    assert_eq!(decided.state, PiProjectTrustState::Denied);
    assert_eq!(trust_file, before);

    let by_default = resolve_pi_trust(
        workspace(),
        "/home/u/projects/workspace",
        true,
        true,
        Some(Vec::new()),
        Some(DefaultTrustSetting::Text("always".to_owned())),
    )
    .expect("trust");
    assert_eq!(by_default.state, PiProjectTrustState::Trusted);

    let ask = resolve_pi_trust(workspace(), "/w", true, true, Some(Vec::new()), Some(DefaultTrustSetting::Absent))
        .expect("trust");
    assert_eq!(ask.state, PiProjectTrustState::PromptRequired);
}

#[test]
fn pi_trust_reports_not_required_without_project_resources() {
    let trust = resolve_pi_trust(workspace(), "/workspace", true, false, None, None).expect("trust");
    assert_eq!(trust.state, PiProjectTrustState::NotRequired);
    assert_eq!(trust.message, "未发现需要 Pi 项目信任的本地资源。");
}

#[test]
fn pi_trust_rejects_invalid_trust_and_settings_schemas() {
    let invalid_trust_file = b"{\"/home/u\":true,\"/invalid\":\"yes\"}".to_vec();
    assert!(matches!(
        resolve_pi_trust(
            workspace(),
            "/home/u/workspace",
            true,
            true,
            trust_entries_from_bytes(file(&invalid_trust_file)).ok(),
            default_trust_from_bytes(None).ok(),
        ),
        Err(ProviderError::PiTrustUnknown)
    ));
    assert!(matches!(
        resolve_pi_trust(
            workspace(),
            "/home/u/workspace",
            true,
            true,
            trust_entries_from_bytes(file(b"{}")).ok(),
            default_trust_from_bytes(file(b"{\"defaultProjectTrust\":42}")).ok(),
        ),
        Err(ProviderError::PiTrustUnknown)
    ));
    let invalid_trust = trust_decisions(vec![("/invalid".to_owned(), TrustValue::Other)]);
    assert!(matches!(invalid_trust, Err(ProviderError::PiTrustUnknown)));
    assert!(matches!(
        resolve_pi_trust(workspace(), "/w", true, true, None, Some(DefaultTrustSetting::Absent)),
        Err(ProviderError::PiTrustUnknown)
    ));
    assert!(matches!(
        resolve_pi_trust(
            workspace(),
            "/w",
            true,
            true,
            Some(Vec::new()),
            Some(DefaultTrustSetting::NotText)
        ),
        Err(ProviderError::PiTrustUnknown)
    ));
    assert!(matches!(
        resolve_pi_trust(
            workspace(),
            "/w",
            true,
            true,
            Some(Vec::new()),
            Some(DefaultTrustSetting::Text("sometimes".to_owned()))
        ),
        Err(ProviderError::PiTrustUnknown)
    ));
    assert!(matches!(
        resolve_pi_trust(workspace(), "/w", false, true, Some(Vec::new()), None),
        Err(ProviderError::PiTrustUnknown)
    ));
}

#[test]
fn unreadable_trust_is_reported_as_unknown_state() {
    let unknown = pi_trust_or_unknown(&workspace(), Err(ProviderError::PiTrustUnknown)).expect("state");
    assert_eq!(unknown.state, PiProjectTrustState::Unknown);
    assert_eq!(unknown.workspace_id, workspace());
    let other = pi_trust_or_unknown(&workspace(), Err(ProviderError::Internal));
    assert!(matches!(other, Err(ProviderError::Internal)));
}

#[test]
fn pi_files_are_read_from_their_bytes() {
    assert_eq!(trust_entries_from_bytes(None).expect("absent"), Vec::new());
    assert_eq!(
        trust_entries_from_bytes(file(b"{\"/a\":true,\"/b\":null}")).expect("entries"),
        vec![("/a".to_owned(), Some(true)), ("/b".to_owned(), None)]
    );
    for invalid in [&b"[true]"[..], b"not json", b"{\"/a\":1}", b"{\"/a\":\"yes\"}"] {
        assert!(matches!(
            trust_entries_from_bytes(file(invalid)),
            Err(ProviderError::PiTrustUnknown)
        ));
    }
    let mut oversized = b"{}".to_vec();
    oversized.resize(MAX_COMMAND_BYTES + 1, b' ');
    assert!(matches!(
        trust_entries_from_bytes(file(&oversized)),
        Err(ProviderError::PiTrustUnknown)
    ));
    let mut largest = b"{}".to_vec();
    largest.resize(MAX_COMMAND_BYTES, b' ');
    assert_eq!(trust_entries_from_bytes(file(&largest)).expect("fits"), Vec::new());

    assert!(matches!(default_trust_from_bytes(None), Ok(DefaultTrustSetting::Absent)));
    assert!(matches!(default_trust_from_bytes(file(b"{}")), Ok(DefaultTrustSetting::Absent)));
    assert!(matches!(
        default_trust_from_bytes(file(b"{\"other\":1,\"defaultProjectTrust\":\"never\"}")),
        Ok(DefaultTrustSetting::Text(policy)) if policy == "never"
    ));
    assert!(matches!(
        default_trust_from_bytes(file(b"{\"defaultProjectTrust\":null}")),
        Ok(DefaultTrustSetting::NotText)
    ));
    assert!(matches!(
        default_trust_from_bytes(file(b"\"always\"")),
        Err(ProviderError::PiTrustUnknown)
    ));
}
