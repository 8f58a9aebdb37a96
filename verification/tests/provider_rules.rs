use baibo::adapters::provider::{
    adapter, adapters, BuiltinAdapter, CodexAdapter, PiAdapter, ProviderAdapter,
};
use baibo::domain::agent::AgentSessionId;
use baibo::domain::provider::{parse_provider_id, ProviderAvailability, ProviderId};
use baibo::domain::workspace::WorkspaceId;
use baibo::services::detection::{
    finish_detection, isolated_probe_environment, pi_probe_executable, prepare_agent_launch,
    probe_success, unavailable_provider, version_from_output, CommandOutput, DetectionCache,
};
use baibo::services::provider::{
    append_limited, first_nonempty_line, parse_environment, path_directories, LoginEnvironment,
    ProviderCommandError, ProviderError, MAX_COMMAND_BYTES,
};

const ENV_MARKER: &[u8] = b"\0BAIBO_LOGIN_ENV_V1\0";

fn environment(pairs: &[(&str, &[u8])]) -> LoginEnvironment {
    let mut environment = LoginEnvironment::new();
    for (name, value) in pairs {
        environment.insert(name.as_bytes().to_vec(), value.to_vec());
    }
    environment
}

#[test]
fn parses_marker_and_preserves_non_utf8_environment_values() {
    let mut output = b"shell startup noise\n".to_vec();
    output.extend_from_slice(ENV_MARKER);
    output.extend_from_slice(b"PATH=/usr/bin\0TOKEN=\xffsecret\0");
    let environment = parse_environment(&output).expect("environment");

    assert_eq!(environment.get(b"PATH"), Some(b"/usr/bin".to_vec()));
    assert_eq!(environment.get(b"TOKEN").expect("token"), b"\xffsecret".to_vec());
}

#[test]
fn rejects_environment_without_marker_or_path() {
    assert!(parse_environment(b"PATH=/usr/bin\0").is_err());
    let mut output = ENV_MARKER.to_vec();
    output.extend_from_slice(b"HOME=/tmp\0");
    assert!(parse_environment(&output).is_err());
}

#[test]
fn environment_uses_the_last_marker_and_skips_malformed_entries() {
    let mut output = ENV_MARKER.to_vec();
    output.extend_from_slice(b"PATH=/old\0");
    output.extend_from_slice(ENV_MARKER);
    output.extend_from_slice(b"=nameless\0NOEQUALS\0\0PATH=/a:/b\0EMPTY=\0PATH=/c\0");
    let environment = parse_environment(&output).expect("environment");

    assert_eq!(environment.get(b"PATH"), Some(b"/c".to_vec()));
    assert_eq!(environment.get(b"EMPTY"), Some(Vec::new()));
    assert_eq!(environment.get(b"NOEQUALS"), None);
    assert_eq!(environment.get(b""), None);
    assert_eq!(
        parse_environment(b"no marker").expect_err("invalid").code(),
        "login_environment_invalid"
    );
}

#[test]
fn first_line_prefers_stdout_then_stderr_and_trims() {
    assert_eq!(
        first_nonempty_line(b"\n   \n  codex-cli 1.2.3  \nnext", b"ignored"),
        Some("codex-cli 1.2.3".to_owned())
    );
    assert_eq!(first_nonempty_line(b"\n\n", b"  pi 0.9\n"), Some("pi 0.9".to_owned()));
    assert_eq!(first_nonempty_line(b" \n", b"\t\n"), None);
    let long = "v".repeat(300);
    assert_eq!(
        first_nonempty_line(long.as_bytes(), b"").expect("line").chars().count(),
        256
    );
}

#[test]
fn bounded_output_keeps_what_fits_and_reports_overflow() {
    let mut output = b"abc".to_vec();
    assert!(append_limited(&mut output, b"de", 5).is_ok());
    assert_eq!(output, b"abcde".to_vec());
    let error = append_limited(&mut output, b"f", 5).expect_err("too large");
    assert_eq!(error.code(), "provider_command_output_too_large");
    assert_eq!(output, b"abcde".to_vec());
    let mut partial = b"ab".to_vec();
    assert!(append_limited(&mut partial, b"cdef", 4).is_err());
    assert_eq!(partial, b"abcd".to_vec());
}

#[test]
fn path_directories_skip_empty_entries() {
    assert_eq!(
        path_directories(b"/usr/bin::/bin:"),
        vec![b"/usr/bin".to_vec(), b"/bin".to_vec()]
    );
    assert!(path_directories(b"").is_empty());
}

#[test]
fn adapters_build_direct_launch_specs_without_shell_arguments() {
    let environment = environment(&[
        ("HOME", b"/private/home"),
        ("PROVIDER_SECRET", b"memory-only"),
    ]);
    let workspace_id = WorkspaceId::from("workspace-a".to_owned());
    let agent_id = AgentSessionId::new();

    for adapter in [BuiltinAdapter::Codex(CodexAdapter), BuiltinAdapter::Pi(PiAdapter)] {
        let spec = adapter.build_launch_spec(
            b"/usr/local/bin/provider",
            &environment,
            "/workspace",
            &workspace_id,
            &agent_id,
        );

        assert!(spec.argv.is_empty());
        assert_eq!(spec.cwd, "/workspace");
        let env = spec.environment.as_ref().expect("environment");
        assert_eq!(env.get(b"PROVIDER_SECRET"), Some(b"memory-only".to_vec()));
        assert_eq!(
            env.get(b"BAIBO_PROVIDER_ID"),
            Some(adapter.id().as_str().as_bytes().to_vec())
        );
        assert_eq!(env.get(b"BAIBO_WORKSPACE_ID"), Some(b"workspace-a".to_vec()));
        assert_eq!(
            env.get(b"BAIBO_AGENT_SESSION_ID"),
            Some(agent_id.as_str().as_bytes().to_vec())
        );
    }
    assert_eq!(CodexAdapter.id(), ProviderId::Codex);
    assert_eq!(PiAdapter.id(), ProviderId::Pi);
}

#[test]
fn adapters_are_listed_in_provider_order() {
    let all = adapters();
    assert_eq!(all.len(), 2);
    assert_eq!(all[0].id(), ProviderId::Codex);
    assert_eq!(all[1].id(), ProviderId::Pi);
    assert_eq!(adapter(ProviderId::Pi).executable_name(), "pi");
    assert!(adapter(ProviderId::Codex).help_args().is_none());
    assert_eq!(adapter(ProviderId::Pi).help_args(), Some(vec!["--help"]));
    assert_eq!(ProviderId::Codex.as_str(), "codex");
    assert_eq!(ProviderId::Pi.as_str(), "pi");
}

#[test]
fn missing_executable_explains_how_to_recover() {
    let codex = adapter(ProviderId::Codex);
    let detected = unavailable_provider(&codex, false);
    assert_eq!(detected.info.availability, ProviderAvailability::Unavailable);
    assert!(detected.executable.is_none());
    let diagnostic = detected.info.diagnostic.expect("diagnostic");
    assert_eq!(diagnostic.code, "provider_executable_not_found");
    assert_eq!(diagnostic.message, "登录环境的 PATH 中找不到 codex。");
    assert_eq!(
        diagnostic.recovery.as_deref(),
        Some(format!("请在登录 Shell 中安装 {}，或修正 PATH 后刷新。", codex.display_name()).as_str())
    );

    let pi = adapter(ProviderId::Pi);
    let inactive = unavailable_provider(&pi, true).info.diagnostic.expect("diagnostic");
    assert_eq!(
        inactive.recovery.as_deref(),
        Some("该命令安装在非活动 Node 环境中。请让登录 Shell 的 PATH 包含 pi，再刷新 provider。")
    );
}

#[test]
fn version_and_help_checks_decide_availability() {
    let codex = adapter(ProviderId::Codex);
    let executable = b"/usr/local/bin/codex";

    let failed = version_from_output(&codex, executable, Err(ProviderError::CommandTimeout))
        .expect_err("failed version");
    assert_eq!(failed.info.availability, ProviderAvailability::Error);
    assert_eq!(failed.info.diagnostic.expect("diagnostic").code, "provider_version_failed");
    assert_eq!(failed.info.executable_path.as_deref(), Some("/usr/local/bin/codex"));

    let unsuccessful = version_from_output(
        &codex,
        executable,
        Ok(CommandOutput { success: false, stdout: b"1.0".to_vec(), stderr: Vec::new() }),
    )
    .expect_err("unsuccessful version");
    assert_eq!(unsuccessful.info.diagnostic.expect("diagnostic").code, "provider_version_failed");

    let silent = version_from_output(
        &codex,
        executable,
        Ok(CommandOutput { success: true, stdout: b"\n".to_vec(), stderr: b"  ".to_vec() }),
    )
    .expect_err("no version");
    assert_eq!(silent.info.diagnostic.expect("diagnostic").code, "provider_version_invalid");

    let version = version_from_output(
        &codex,
        executable,
        Ok(CommandOutput { success: true, stdout: b"codex 0.5.0\n".to_vec(), stderr: Vec::new() }),
    )
    .expect("version");
    assert_eq!(version, "codex 0.5.0");

    let available = finish_detection(&codex, executable, version, None);
    assert_eq!(available.info.availability, ProviderAvailability::Available);
    assert_eq!(available.info.version.as_deref(), Some("codex 0.5.0"));
    assert!(available.info.diagnostic.is_none());
    assert_eq!(available.executable, Some(executable.to_vec()));

    let pi = adapter(ProviderId::Pi);
    let old_help = CommandOutput { success: true, stdout: b"--mode rpc".to_vec(), stderr: Vec::new() };
    let unsupported = finish_detection(&pi, b"/bin/pi", "pi 0.1".to_owned(), Some(Ok(old_help)));
    assert_eq!(unsupported.info.availability, ProviderAvailability::Unsupported);
    assert!(unsupported.info.version.is_none());
    assert_eq!(
        unsupported.info.diagnostic.expect("diagnostic").code,
        "provider_version_unsupported"
    );
}

#[test]
fn launch_requires_an_available_detected_provider() {
    let environment = environment(&[("PATH", b"/usr/bin")]);
    let workspace_id = WorkspaceId::from("workspace-a".to_owned());
    let agent_id = AgentSessionId::from("agent-1".to_owned());
    let mut cache = DetectionCache::new(environment);

    let missing = prepare_agent_launch(&cache, ProviderId::Codex, "/w", &workspace_id, &agent_id);
    assert_eq!(missing.err().expect("missing").code(), "provider_unavailable");

    let pi = adapter(ProviderId::Pi);
    cache.insert(finish_detection(
        &pi,
        b"/bin/pi",
        "pi".to_owned(),
        Some(Ok(CommandOutput { success: false, stdout: Vec::new(), stderr: Vec::new() })),
    ));
    let unsupported = prepare_agent_launch(&cache, ProviderId::Pi, "/w", &workspace_id, &agent_id);
    assert_eq!(unsupported.err().expect("unsupported").code(), "provider_unsupported");
    assert_eq!(pi_probe_executable(&cache).err().expect("not available").code(), "provider_unavailable");

    let codex = adapter(ProviderId::Codex);
    cache.insert(finish_detection(&codex, b"/bin/codex", "codex 1".to_owned(), None));
    let prepared = prepare_agent_launch(&cache, ProviderId::Codex, "/w", &workspace_id, &agent_id)
        .expect("prepared");
    assert_eq!(prepared.launch.executable, b"/bin/codex".to_vec());
    assert_eq!(prepared.launch.cwd, "/w");
    assert_eq!(prepared.snapshot.executable_path.as_deref(), Some("/bin/codex"));
    assert!(prepared.snapshot.argv.is_empty());
    assert_eq!(prepared.snapshot.provider_version.as_deref(), Some("codex 1"));

    let infos = cache.infos();
    assert_eq!(infos.len(), 2);
    assert_eq!(infos[0].id, ProviderId::Codex);
    assert_eq!(infos[1].id, ProviderId::Pi);

    let mut invalid = DetectionCache::new(LoginEnvironment::new());
    invalid.insert(finish_detection(&codex, b"/bin/\xff", "codex".to_owned(), None));
    let error = prepare_agent_launch(&invalid, ProviderId::Codex, "/w", &workspace_id, &agent_id);
    assert_eq!(error.err().expect("invalid snapshot").code(), "provider_launch_snapshot_invalid");
}

#[test]
fn probe_environment_and_result() {
    let environment = environment(&[("PI_CODING_AGENT_DIR", b"/home/u/.pi/agent")]);
    let isolated = isolated_probe_environment(&environment, b"/tmp/probe");
    assert_eq!(isolated.get(b"PI_CODING_AGENT_DIR"), Some(b"/tmp/probe".to_vec()));
    assert_eq!(environment.get(b"PI_CODING_AGENT_DIR"), Some(b"/home/u/.pi/agent".to_vec()));

    let result = probe_success(42);
    assert!(result.ok);
    assert_eq!(result.provider_id, ProviderId::Pi);
    assert_eq!(result.elapsed_ms, 42);
    assert_eq!(result.message, "Pi RPC get_state 响应有效，JSONL 未连接到终端视图。");
    assert_eq!(probe_success(u128::MAX).elapsed_ms, u64::MAX);
}

#[test]
fn provider_errors_carry_codes_and_messages() {
    let error = ProviderError::ProviderUnavailable(ProviderId::Pi);
    let reported = ProviderCommandError::from(error);
    assert_eq!(reported.code, "provider_unavailable");
    assert!(!reported.message.is_empty());
    assert_eq!(MAX_COMMAND_BYTES, 1024 * 1024);
}

#[test]
fn stored_provider_text_reads_back() {
    for id in [ProviderId::Codex, ProviderId::Pi] {
        assert_eq!(parse_provider_id(id.as_str()), Some(id));
    }
    assert_eq!(parse_provider_id("Codex"), None);
    assert_eq!(parse_provider_id(""), None);
}
