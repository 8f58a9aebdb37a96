use baibo::domain::agent::AgentSessionId;
use baibo::domain::provider::ProviderId;
use baibo::domain::terminal::TerminalId;
use baibo::domain::workspace::WorkspaceId;
use baibo::services::agent::AgentError;
use baibo::services::provider::ProviderError;
use baibo::services::terminal::TerminalError;
use baibo::services::workspace::WorkspaceError;

#[test]
fn workspace_error_codes_and_messages() {
    let cases = vec![
        (WorkspaceError::AppDataDirectory, "app_data_directory", "应用数据目录不能注册为工作空间"),
        (WorkspaceError::Database("x".to_owned()), "database_unavailable", "工作空间数据库不可用"),
        (WorkspaceError::duplicate("甲".to_owned()), "duplicate_workspace", "工作空间“甲”已经注册"),
        (WorkspaceError::FilesystemRoot, "filesystem_root", "不能注册文件系统根目录"),
        (WorkspaceError::GitDetection("x".to_owned()), "git_detection_failed", "无法识别 Git 仓库"),
        (WorkspaceError::InvalidName("名称".to_owned()), "invalid_name", "名称"),
        (WorkspaceError::NotDirectory, "not_directory", "所选路径不是目录"),
        (WorkspaceError::PathNotFound, "path_not_found", "所选目录不存在"),
        (WorkspaceError::PathUnreadable("x".to_owned()), "path_unreadable", "无法读取所选目录"),
        (WorkspaceError::migration("x".to_owned()), "migration_failed", "数据库迁移失败"),
        (WorkspaceError::unsupported_path(), "unsupported_path_encoding", "不支持该路径编码"),
        (
            WorkspaceError::unavailable("乙".to_owned()),
            "workspace_unavailable",
            "工作空间“乙”当前不可用，请恢复目录后重试或移除登记",
        ),
        (
            WorkspaceError::not_found(&WorkspaceId::from("w-1".to_owned())),
            "workspace_not_found",
            "未找到工作空间 w-1",
        ),
        (WorkspaceError::Clock("x".to_owned()), "clock_unavailable", "系统时间不可用"),
    ];
    for (error, code, message) in cases {
        assert_eq!(error.code(), code);
        assert_eq!(error.safe_message(), message);
    }
}

#[test]
fn provider_error_codes_and_messages() {
    let cases = vec![
        (ProviderError::CommandIo, "provider_command_io", "provider 命令输出异常"),
        (
            ProviderError::CommandOutputTooLarge,
            "provider_command_output_too_large",
            "provider 命令输出超过安全上限",
        ),
        (ProviderError::CommandSpawnFailed, "provider_command_spawn_failed", "无法启动 provider 命令"),
        (ProviderError::CommandTimeout, "provider_command_timeout", "provider 命令执行超时"),
        (ProviderError::Internal, "provider_internal", "provider 内部状态不可用"),
        (ProviderError::LoginEnvironmentFailed, "login_environment_failed", "无法解析登录 Shell 环境"),
        (ProviderError::LoginEnvironmentInvalid, "login_environment_invalid", "登录 Shell 环境格式无效"),
        (
            ProviderError::LaunchSnapshotInvalid,
            "provider_launch_snapshot_invalid",
            "provider 启动快照包含无法持久化的路径或参数",
        ),
        (ProviderError::LoginShellUnavailable, "login_shell_unavailable", "无法找到可用的登录 Shell"),
        (
            ProviderError::PiTrustUnknown,
            "pi_trust_unknown",
            "无法读取 Pi 项目信任状态；请直接在 Pi TUI 中确认",
        ),
        (
            ProviderError::ProviderUnavailable(ProviderId::Codex),
            "provider_unavailable",
            "provider codex 在当前登录环境中不可用",
        ),
        (
            ProviderError::ProviderUnsupported(ProviderId::Pi),
            "provider_unsupported",
            "provider pi 的当前版本不受支持",
        ),
        (ProviderError::RpcProtocolInvalid, "pi_rpc_protocol_invalid", "Pi RPC 响应不符合协议"),
        (ProviderError::RpcProbeFailed, "pi_rpc_probe_failed", "Pi RPC 诊断失败"),
        (ProviderError::RpcResponseTooLarge, "pi_rpc_response_too_large", "Pi RPC 响应超过安全上限"),
        (
            ProviderError::from_workspace(WorkspaceError::PathNotFound),
            "path_not_found",
            "所选目录不存在",
        ),
    ];
    for (error, code, message) in cases {
        assert_eq!(error.code(), code);
        assert_eq!(error.message(), message);
    }
}

#[test]
fn terminal_error_codes_and_messages() {
    let cases = vec![
        (TerminalError::ChannelClosed, "terminal_channel_closed", "终端输出通道已关闭"),
        (TerminalError::Database, "terminal_database_unavailable", "终端数据库不可用"),
        (TerminalError::InvalidInput, "invalid_terminal_input", "终端输入无效"),
        (TerminalError::InvalidLaunchSpec, "invalid_terminal_launch_spec", "终端启动规格无效"),
        (TerminalError::InvalidTransition, "invalid_terminal_transition", "终端状态转换无效"),
        (TerminalError::InvalidSize, "invalid_terminal_size", "终端尺寸必须为 2–500 列、1–200 行"),
        (TerminalError::Internal, "terminal_internal", "终端内部状态不可用"),
        (
            TerminalError::not_found(&TerminalId::from("t-1".to_owned())),
            "terminal_not_found",
            "未找到终端 t-1",
        ),
        (TerminalError::NotRunning, "terminal_not_running", "终端进程未在运行"),
        (TerminalError::ResizeFailed, "terminal_resize_failed", "无法调整终端尺寸"),
        (TerminalError::ShellUnavailable, "shell_unavailable", "无法找到可用的登录 Shell"),
        (TerminalError::SpawnFailed, "terminal_spawn_failed", "无法启动终端进程"),
        (TerminalError::StopFailed, "terminal_stop_failed", "无法停止终端进程"),
        (TerminalError::StillRunning, "terminal_still_running", "运行中的终端不能删除"),
        (
            TerminalError::WorkspaceHasRunningTerminals,
            "workspace_has_running_terminals",
            "工作空间仍有运行中的终端，请先停止它们",
        ),
        (TerminalError::WriteFailed, "terminal_write_failed", "无法写入终端"),
        (TerminalError::Clock, "clock_unavailable", "系统时间不可用"),
        (
            TerminalError::from_workspace(WorkspaceError::NotDirectory),
            "not_directory",
            "所选路径不是目录",
        ),
    ];
    for (error, code, message) in cases {
        assert_eq!(error.code(), code);
        assert_eq!(error.message(), message);
    }
}

#[test]
fn agent_error_codes_and_messages() {
    let cases = vec![
        (AgentError::Internal, "agent_internal", "Agent 会话内部状态不可用".to_owned()),
        (
            AgentError::not_found(&AgentSessionId::from("a-1".to_owned())),
            "agent_session_not_found",
            "未找到 Agent 会话 a-1".to_owned(),
        ),
        (
            AgentError::StillRunning,
            "agent_session_still_running",
            "运行中的 Agent 会话不能重新开始".to_owned(),
        ),
        (
            AgentError::from_provider(ProviderError::CommandTimeout),
            "provider_command_timeout",
            "provider 命令执行超时".to_owned(),
        ),
        (
            AgentError::from_terminal(TerminalError::StopFailed),
            "terminal_stop_failed",
            "无法停止终端进程".to_owned(),
        ),
    ];
    for (error, code, message) in cases {
        assert_eq!(error.code(), code);
        assert_eq!(error.message(), message);
    }
}
