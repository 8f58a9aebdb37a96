//! Terminal runtime rules: accepted sizes and input, how a finished process
//! is classified, how output back-pressure is handled, and the errors the
//! terminal commands report.
use vstd::prelude::*;

use crate::domain::terminal::{TerminalEvent, TerminalId, TerminalStatus};
use crate::services::provider::LoginEnvironment;
use crate::services::workspace::{workspace_error_code, workspace_error_message, WorkspaceError};
use crate::paths::{paths_equal, spec_paths_equal};
use crate::text::join_str;
use vstd::utf8::{decode_utf8, valid_utf8};

verus! {

/// Largest accepted input write, in bytes.
pub const MAX_INPUT_BYTES: usize = 65536;

pub const MIN_COLS: u16 = 2;

pub const MAX_COLS: u16 = 500;

pub const MIN_ROWS: u16 = 1;

pub const MAX_ROWS: u16 = 200;

/// The shell used when the account has none that can be run.
pub const FALLBACK_SHELL: &'static str = "/bin/zsh";

/// How a terminal process is started: an absolute executable, its arguments
/// (passed directly, never through a shell), its working directory, and, when
/// given, the complete environment it gets.
#[derive(Clone, Debug)]
pub struct LaunchSpec {
    pub executable: Vec<u8>,
    pub argv: Vec<Vec<u8>>,
    pub cwd: String,
    pub environment: Option<LoginEnvironment>,
}

/// Errors of the terminal runtime.
#[derive(Debug)]
pub enum TerminalError {
    ChannelClosed,
    Database,
    InvalidInput,
    InvalidLaunchSpec,
    InvalidTransition,
    InvalidSize,
    Internal,
    NotFound(TerminalId),
    NotRunning,
    ResizeFailed,
    ShellUnavailable,
    SpawnFailed,
    StopFailed,
    StillRunning,
    WorkspaceHasRunningTerminals,
    WriteFailed,
    Clock,
    Workspace(WorkspaceError),
}

pub open spec fn terminal_error_code(error: TerminalError) -> Seq<char> {
    match error {
        TerminalError::ChannelClosed => "terminal_channel_closed"@,
        TerminalError::Database => "terminal_database_unavailable"@,
        TerminalError::InvalidInput => "invalid_terminal_input"@,
        TerminalError::InvalidLaunchSpec => "invalid_terminal_launch_spec"@,
        TerminalError::InvalidTransition => "invalid_terminal_transition"@,
        TerminalError::InvalidSize => "invalid_terminal_size"@,
        TerminalError::Internal => "terminal_internal"@,
        TerminalError::NotFound(_) => "terminal_not_found"@,
        TerminalError::NotRunning => "terminal_not_running"@,
        TerminalError::ResizeFailed => "terminal_resize_failed"@,
        TerminalError::ShellUnavailable => "shell_unavailable"@,
        TerminalError::SpawnFailed => "terminal_spawn_failed"@,
        TerminalError::StopFailed => "terminal_stop_failed"@,
        TerminalError::StillRunning => "terminal_still_running"@,
        TerminalError::WorkspaceHasRunningTerminals => "workspace_has_running_terminals"@,
        TerminalError::WriteFailed => "terminal_write_failed"@,
        TerminalError::Clock => "clock_unavailable"@,
        TerminalError::Workspace(error) => workspace_error_code(error),
    }
}

pub open spec fn terminal_error_message(error: TerminalError) -> Seq<char> {
    match error {
        TerminalError::ChannelClosed => "终端输出通道已关闭"@,
        TerminalError::Database => "终端数据库不可用"@,
        TerminalError::InvalidInput => "终端输入无效"@,
        TerminalError::InvalidLaunchSpec => "终端启动规格无效"@,
        TerminalError::InvalidTransition => "终端状态转换无效"@,
        TerminalError::InvalidSize => "终端尺寸必须为 2–500 列、1–200 行"@,
        TerminalError::Internal => "终端内部状态不可用"@,
        TerminalError::NotFound(id) => "未找到终端 "@ + id@,
        TerminalError::NotRunning => "终端进程未在运行"@,
        TerminalError::ResizeFailed => "无法调整终端尺寸"@,
        TerminalError::ShellUnavailable => "无法找到可用的登录 Shell"@,
        TerminalError::SpawnFailed => "无法启动终端进程"@,
        TerminalError::StopFailed => "无法停止终端进程"@,
        TerminalError::StillRunning => "运行中的终端不能删除"@,
        TerminalError::WorkspaceHasRunningTerminals => "工作空间仍有运行中的终端，请先停止它们"@,
        TerminalError::WriteFailed => "无法写入终端"@,
        TerminalError::Clock => "系统时间不可用"@,
        TerminalError::Workspace(error) => workspace_error_message(error),
    }
}

impl TerminalError {
    pub fn code(&self) -> (code: &'static str)
        ensures
            code@ == terminal_error_code(*self),
    {
        match self {
            TerminalError::ChannelClosed => "terminal_channel_closed",
            TerminalError::Database => "terminal_database_unavailable",
            TerminalError::InvalidInput => "invalid_terminal_input",
            TerminalError::InvalidLaunchSpec => "invalid_terminal_launch_spec",
            TerminalError::InvalidTransition => "invalid_terminal_transition",
            TerminalError::InvalidSize => "invalid_terminal_size",
            TerminalError::Internal => "terminal_internal",
            TerminalError::NotFound(_) => "terminal_not_found",
            TerminalError::NotRunning => "terminal_not_running",
            TerminalError::ResizeFailed => "terminal_resize_failed",
            TerminalError::ShellUnavailable => "shell_unavailable",
            TerminalError::SpawnFailed => "terminal_spawn_failed",
            TerminalError::StopFailed => "terminal_stop_failed",
            TerminalError::StillRunning => "terminal_still_running",
            TerminalError::WorkspaceHasRunningTerminals => "workspace_has_running_terminals",
            TerminalError::WriteFailed => "terminal_write_failed",
            TerminalError::Clock => "clock_unavailable",
            TerminalError::Workspace(error) => error.code(),
        }
    }

    /// The message shown to the user.
    pub fn message(&self) -> (message: String)
        ensures
            message@ == terminal_error_message(*self),
    {
        match self {
            TerminalError::ChannelClosed => "终端输出通道已关闭".to_owned(),
            TerminalError::Database => "终端数据库不可用".to_owned(),
            TerminalError::InvalidInput => "终端输入无效".to_owned(),
            TerminalError::InvalidLaunchSpec => "终端启动规格无效".to_owned(),
            TerminalError::InvalidTransition => "终端状态转换无效".to_owned(),
            TerminalError::InvalidSize => "终端尺寸必须为 2–500 列、1–200 行".to_owned(),
            TerminalError::Internal => "终端内部状态不可用".to_owned(),
            TerminalError::NotFound(id) => join_str("未找到终端 ", id.as_str()),
            TerminalError::NotRunning => "终端进程未在运行".to_owned(),
            TerminalError::ResizeFailed => "无法调整终端尺寸".to_owned(),
            TerminalError::ShellUnavailable => "无法找到可用的登录 Shell".to_owned(),
            TerminalError::SpawnFailed => "无法启动终端进程".to_owned(),
            TerminalError::StopFailed => "无法停止终端进程".to_owned(),
            TerminalError::StillRunning => "运行中的终端不能删除".to_owned(),
            TerminalError::WorkspaceHasRunningTerminals => "工作空间仍有运行中的终端，请先停止它们".to_owned(),
            TerminalError::WriteFailed => "无法写入终端".to_owned(),
            TerminalError::Clock => "系统时间不可用".to_owned(),
            TerminalError::Workspace(error) => error.safe_message(),
        }
    }

    /// Any SQLite failure is reported as the terminal store being unavailable;
    /// the SQLite text never reaches the user.
    pub fn database(error: rusqlite::Error) -> (r: Self)
        ensures
            r == TerminalError::Database,
    {
        TerminalError::Database
    }

    pub fn from_workspace(error: WorkspaceError) -> (r: Self)
        ensures
            r == TerminalError::Workspace(error),
    {
        TerminalError::Workspace(error)
    }

    pub fn not_found(id: &TerminalId) -> (r: Self)
        ensures
            r == TerminalError::NotFound(*id),
    {
        TerminalError::NotFound(id.clone())
    }
}

/// The accepted terminal sizes: 2 to 500 columns and 1 to 200 rows.
pub open spec fn valid_size(cols: u16, rows: u16) -> bool {
    MIN_COLS <= cols <= MAX_COLS && MIN_ROWS <= rows <= MAX_ROWS
}

/// A terminal is between 2 and 500 columns wide and between 1 and 200 rows
/// high, bounds included.
pub proof fn lemma_size_bounds(cols: u16, rows: u16)
    ensures
        valid_size(cols, rows) <==> (2 <= cols <= 500 && 1 <= rows <= 200),
{
}

pub fn validate_size(cols: u16, rows: u16) -> (r: Result<(), TerminalError>)
    ensures
        valid_size(cols, rows) ==> r is Ok,
        !valid_size(cols, rows) ==> r matches Err(TerminalError::InvalidSize),
{
    if cols < MIN_COLS || cols > MAX_COLS || rows < MIN_ROWS || rows > MAX_ROWS {
        return Err(TerminalError::InvalidSize);
    }
    Ok(())
}

/// Input is written only when it is non-empty and at most 64 KiB.
pub fn validate_input(data: &[u8]) -> (r: Result<(), TerminalError>)
    ensures
        0 < data@.len() <= MAX_INPUT_BYTES ==> r is Ok,
        !(0 < data@.len() <= MAX_INPUT_BYTES) ==> r matches Err(TerminalError::InvalidInput),
{
    if data.len() == 0 || data.len() > MAX_INPUT_BYTES {
        return Err(TerminalError::InvalidInput);
    }
    Ok(())
}

/// How waiting for a terminal's process ended.
#[derive(Clone, Copy, Debug, PartialEq, Eq, Structural)]
pub enum WaitOutcome {
    /// The process ended with this exit code; `by_signal` when a signal ended it.
    Ended { exit_code: u32, by_signal: bool },
    /// Waiting itself failed.
    WaitFailed,
}

/// The status, exit code and reason recorded when a terminal's process ends.
pub open spec fn exit_outcome_spec(stop_requested: bool, waited: WaitOutcome) -> (
    TerminalStatus,
    Option<i32>,
    Seq<char>,
) {
    match waited {
        WaitOutcome::Ended { exit_code, by_signal } => if stop_requested {
            (TerminalStatus::Stopped, Some(exit_code as i32), "user_stop"@)
        } else if by_signal {
            (TerminalStatus::Failed, Some(exit_code as i32), "signal_exit"@)
        } else {
            (TerminalStatus::Exited, Some(exit_code as i32), "process_exit"@)
        },
        WaitOutcome::WaitFailed => (TerminalStatus::Failed, None, "wait_failed"@),
    }
}

/// Classifies a finished process: a requested stop wins, then a signal, then
/// a normal exit; a failed wait is a failure without exit code.
pub fn exit_outcome(stop_requested: bool, waited: WaitOutcome) -> (r: (
    TerminalStatus,
    Option<i32>,
    &'static str,
))
    ensures
        (r.0, r.1, r.2@) == exit_outcome_spec(stop_requested, waited),
        stop_requested && waited is Ended ==> r.0 == TerminalStatus::Stopped && r.2@ == "user_stop"@,
{
    match waited {
        WaitOutcome::Ended { exit_code, by_signal } => {
            let code = exit_code as i32;
            if stop_requested {
                (TerminalStatus::Stopped, Some(code), "user_stop")
            } else if by_signal {
                (TerminalStatus::Failed, Some(code), "signal_exit")
            } else {
                (TerminalStatus::Exited, Some(code), "process_exit")
            }
        },
        WaitOutcome::WaitFailed => (TerminalStatus::Failed, None, "wait_failed"),
    }
}

/// How a finished process is classified. Once a stop was requested, a
/// process that ended is stopped by the user, keeping its exit code, however
/// it ended: a signal changes nothing. Without a stop request, an end by
/// signal is a failure and any other end an exit, each with its code; a
/// failed wait is a failure without code, with or without a stop request.
pub proof fn lemma_exit_classification(exit_code: u32, by_signal: bool)
    ensures
        exit_outcome_spec(true, WaitOutcome::Ended { exit_code, by_signal })
            == (TerminalStatus::Stopped, Some(exit_code as i32), "user_stop"@),
        exit_outcome_spec(true, WaitOutcome::Ended { exit_code, by_signal: true })
            == exit_outcome_spec(true, WaitOutcome::Ended { exit_code, by_signal: false }),
        exit_outcome_spec(false, WaitOutcome::Ended { exit_code, by_signal: true })
            == (TerminalStatus::Failed, Some(exit_code as i32), "signal_exit"@),
        exit_outcome_spec(false, WaitOutcome::Ended { exit_code, by_signal: false })
            == (TerminalStatus::Exited, Some(exit_code as i32), "process_exit"@),
        exit_outcome_spec(by_signal, WaitOutcome::WaitFailed) == (TerminalStatus::Failed, None::<i32>, "wait_failed"@),
{
}

/// What happened when a chunk of output was offered to a bounded queue.
#[derive(Clone, Copy, Debug, PartialEq, Eq, Structural)]
pub enum QueueSend {
    Sent,
    Full,
    Disconnected,
}

/// What the output reader does after offering a chunk to the log queue.
#[derive(Clone, Copy, Debug, PartialEq, Eq, Structural)]
pub struct OutputStep {
    /// Whether the reader is now in the lagged state.
    pub lagged: bool,
    /// Whether to announce a truncation: send the marker to subscribers, mark
    /// the log for a marker, and send an output-lagged event.
    pub announce_truncation: bool,
    /// Whether the reader stops.
    pub stop: bool,
}

/// The reader's back-pressure rule: a full log queue drops the chunk and is
/// announced once per lagged run; a successful send ends the run; a closed
/// queue stops the reader.
pub fn output_step(lagged: bool, sent: QueueSend) -> (r: OutputStep)
    ensures
        sent == QueueSend::Sent ==> r == (OutputStep {
            lagged: false,
            announce_truncation: false,
            stop: false,
        }),
        sent == QueueSend::Full ==> r == (OutputStep {
            lagged: true,
            announce_truncation: !lagged,
            stop: false,
        }),
        sent == QueueSend::Disconnected ==> r == (OutputStep {
            lagged,
            announce_truncation: false,
            stop: true,
        }),
{
    match sent {
        QueueSend::Sent => OutputStep { lagged: false, announce_truncation: false, stop: false },
        QueueSend::Full => OutputStep { lagged: true, announce_truncation: !lagged, stop: false },
        QueueSend::Disconnected => OutputStep { lagged, announce_truncation: false, stop: true },
    }
}

/// Whether a subscriber stays registered after a chunk was offered to it, and
/// whether it is marked as lagged: a full queue keeps it and marks it, a closed
/// one drops it.
pub fn subscriber_after_send(sent: QueueSend) -> (r: (bool, bool))
    ensures
        r == (sent != QueueSend::Disconnected, sent == QueueSend::Full),
{
    match sent {
        QueueSend::Sent => (true, false),
        QueueSend::Full => (true, true),
        QueueSend::Disconnected => (false, false),
    }
}

/// The shell tried first: the account's login shell, or the fallback when
/// the account has none.
pub fn login_shell_candidate(account_shell: Option<String>) -> (r: String)
    ensures
        account_shell matches Some(s) ==> r == s,
        account_shell is None ==> r@ == FALLBACK_SHELL@,
{
    match account_shell {
        Some(shell) => shell,
        None => FALLBACK_SHELL.to_owned(),
    }
}

/// The login shell used for new terminals: the candidate when it can be run,
/// else the fallback when that can be run.
pub fn choose_login_shell(
    candidate: String,
    candidate_executable: bool,
    fallback_executable: bool,
) -> (r: Result<String, TerminalError>)
    ensures
        candidate_executable ==> r == Ok::<String, TerminalError>(candidate),
        !candidate_executable && fallback_executable ==> (r matches Ok(s) && s@
            == FALLBACK_SHELL@),
        !candidate_executable && !fallback_executable ==> r matches Err(
            TerminalError::ShellUnavailable,
        ),
{
    if candidate_executable {
        Ok(candidate)
    } else if fallback_executable {
        Ok(FALLBACK_SHELL.to_owned())
    } else {
        Err(TerminalError::ShellUnavailable)
    }
}

/// A launch path as text; a path that is not UTF-8 cannot be recorded.
pub fn launch_path_to_string(path: &[u8]) -> (r: Result<String, TerminalError>)
    ensures
        valid_utf8(path@) ==> (r matches Ok(s) && s@ == decode_utf8(path@)),
        !valid_utf8(path@) ==> r matches Err(TerminalError::ShellUnavailable),
{
    match crate::text::utf8_to_string(path) {
        Some(text) => Ok(text),
        None => Err(TerminalError::ShellUnavailable),
    }
}

/// An agent must be launched in its workspace's directory.
pub fn check_launch_cwd(launch_cwd: &str, workspace_path: &str) -> (r: Result<(), TerminalError>)
    ensures
        spec_paths_equal(launch_cwd@, workspace_path@) ==> r is Ok,
        !spec_paths_equal(launch_cwd@, workspace_path@) ==> r matches Err(
            TerminalError::InvalidLaunchSpec,
        ),
{
    if paths_equal(launch_cwd, workspace_path) {
        Ok(())
    } else {
        Err(TerminalError::InvalidLaunchSpec)
    }
}

/// Milliseconds since the Unix epoch as stored, or the clock error when the
/// value does not fit.
pub fn terminal_timestamp(millis: u128) -> (r: Result<i64, TerminalError>)
    ensures
        millis <= i64::MAX ==> r == Ok::<i64, TerminalError>(millis as i64),
        millis > i64::MAX ==> r matches Err(TerminalError::Clock),
{
    if millis <= i64::MAX as u128 {
        Ok(millis as i64)
    } else {
        Err(TerminalError::Clock)
    }
}

/// The error a terminal command reports to the user interface.
#[derive(Debug)]
pub struct TerminalCommandError {
    pub code: &'static str,
    pub message: String,
}

impl From<TerminalError> for TerminalCommandError {
    fn from(error: TerminalError) -> (r: Self)
        ensures
            r.code@ == terminal_error_code(error),
            r.message@ == terminal_error_message(error),
    {
        TerminalCommandError { code: error.code(), message: error.message() }
    }
}

impl vstd::std_specs::convert::FromSpecImpl<TerminalError> for TerminalCommandError {
    open spec fn obeys_from_spec() -> bool {
        false
    }

    open spec fn from_spec(v: TerminalError) -> Self {
        arbitrary()
    }
}

/// Someone who receives a terminal's output bytes and events; an `Err`
/// means the receiver is gone.
pub trait TerminalSubscriber: Send + Sync {
    fn send_output(&self, data: Vec<u8>) -> Result<(), ()>;

    fn send_event(&self, event: TerminalEvent) -> Result<(), ()>;
}

/// The items of `items` whose flag in `keep` is set, in their order.
pub open spec fn kept_by<S>(items: Seq<S>, keep: Seq<bool>) -> Seq<S>
    decreases items.len(),
{
    if items.len() == 0 || keep.len() == 0 {
        Seq::empty()
    } else if keep[0] {
        seq![items[0]] + kept_by(items.drop_first(), keep.drop_first())
    } else {
        kept_by(items.drop_first(), keep.drop_first())
    }
}

/// Keeps the subscribers whose delivery succeeded, in their order.
pub fn keep_delivered<S>(subscribers: &mut Vec<S>, delivered: &Vec<bool>)
    requires
        old(subscribers)@.len() == delivered@.len(),
    ensures
        final(subscribers)@ == kept_by(old(subscribers)@, delivered@),
{
    let ghost before = subscribers@;
    let mut i: usize = subscribers.len();
    assert(before.take(i as int) =~= before);
    assert(kept_by(before.skip(i as int), delivered@.skip(i as int)) =~= Seq::<S>::empty());
    assert(subscribers@ =~= before.take(i as int) + kept_by(
        before.skip(i as int),
        delivered@.skip(i as int),
    ));
    while i > 0
        invariant
            i <= before.len(),
            before.len() == delivered@.len(),
            subscribers@ == before.take(i as int) + kept_by(
                before.skip(i as int),
                delivered@.skip(i as int),
            ),
        decreases i,
    {
        let k = i - 1;
        let ghost tail = kept_by(before.skip(i as int), delivered@.skip(i as int));
        assert(before.skip(k as int).drop_first() =~= before.skip(i as int));
        assert(delivered@.skip(k as int).drop_first() =~= delivered@.skip(i as int));
        assert(before.skip(k as int)[0] == before[k as int]);
        assert(delivered@.skip(k as int)[0] == delivered@[k as int]);
        if delivered[k] {
            assert(before.take(i as int) =~= before.take(k as int).push(before[k as int]));
            assert(subscribers@ =~= before.take(k as int) + kept_by(
                before.skip(k as int),
                delivered@.skip(k as int),
            ));
        } else {
            let ghost before = subscribers@;
            subscribers.remove(k);
            assert(subscribers@ =~= before.take(k as int) + tail);
        }
        i = k;
    }
    assert(before.skip(0) =~= before);
    assert(delivered@.skip(0) =~= delivered@);
    assert(before.take(0) =~= Seq::<S>::empty());
    assert(subscribers@ =~= kept_by(before, delivered@));
}

/// Whether `send` may answer `Ok` (when `took`) or `Err` (otherwise) for
/// `subscriber` and `event`: the answer was one that the send gave.
pub open spec fn send_answered<S, F: Fn(&S, TerminalEvent) -> Result<(), ()>>(
    send: F,
    subscriber: &S,
    event: TerminalEvent,
    took: bool,
) -> bool {
    exists|answer: Result<(), ()>|
        call_ensures(send, (subscriber, event), answer) && (answer is Ok) == took
}

/// Offers `event` to every subscriber, in order, through `send`, and keeps
/// exactly those that took it, in their order. Each subscriber is handed the
/// event itself, once; the flags returned say, subscriber by subscriber,
/// what its send answered, so a subscriber is dropped only when its send
/// failed.
pub fn broadcast_event<S, F: Fn(&S, TerminalEvent) -> Result<(), ()>>(
    subscribers: &mut Vec<S>,
    event: &TerminalEvent,
    send: F,
) -> (delivered: Vec<bool>)
    requires
        forall|i: int|
            0 <= i < old(subscribers)@.len() ==> call_requires(send, (&#[trigger] old(subscribers)@[i], *event)),
    ensures
        delivered@.len() == old(subscribers)@.len(),
        forall|i: int|
            0 <= i < delivered@.len() ==> send_answered(
                send,
                &#[trigger] old(subscribers)@[i],
                *event,
                delivered@[i],
            ),
        final(subscribers)@ == kept_by(old(subscribers)@, delivered@),
{
    let ghost before = subscribers@;
    let mut delivered: Vec<bool> = Vec::new();
    let mut i: usize = 0;
    while i < subscribers.len()
        invariant
            subscribers@ == before,
            i <= before.len(),
            delivered@.len() == i,
            forall|k: int| 0 <= k < before.len() ==> call_requires(send, (&#[trigger] before[k], *event)),
            forall|k: int|
                0 <= k < i ==> send_answered(send, &#[trigger] before[k], *event, delivered@[k]),
        decreases before.len() - i,
    {
        let offered = event.clone();
        let answer = send(&subscribers[i], offered);
        let took = match answer {
            Ok(()) => true,
            Err(()) => false,
        };
        delivered.push(took);
        i = i + 1;
    }
    keep_delivered(subscribers, &delivered);
    delivered
}

/// The launch of an interactive login shell in `cwd`.
pub fn shell_launch_spec(shell: &[u8], cwd: &str) -> (r: LaunchSpec)
    ensures
        r.executable@ == shell@,
        r.argv@.len() == 1,
        r.argv@[0]@ == seq![45u8, 108u8],
        r.cwd@ == cwd@,
        r.environment is None,
{
    let mut flag: Vec<u8> = Vec::new();
    flag.push(45u8);
    flag.push(108u8);
    let mut argv: Vec<Vec<u8>> = Vec::new();
    argv.push(flag);
    LaunchSpec {
        executable: vstd::slice::slice_to_vec(shell),
        argv,
        cwd: cwd.to_owned(),
        environment: None,
    }
}

/// How a stop request proceeds.
#[derive(Debug, PartialEq, Eq, Structural)]
pub enum StopPlan {
    /// A stop is already under way; the session is returned as it is.
    AlreadyStopping,
    /// Send `SIGHUP` to the process group.
    HangUpGroup(i32),
    /// Kill the child process itself.
    KillChild,
}

/// The first step of stopping a terminal: nothing more when a stop was
/// already requested, else a hang-up to the process group when there is one,
/// else a kill of the child.
pub fn stop_plan(already_requested: bool, process_group: Option<i32>) -> (r: StopPlan)
    ensures
        already_requested ==> r == StopPlan::AlreadyStopping,
        !already_requested && process_group is Some ==> r == StopPlan::HangUpGroup(
            process_group->0,
        ),
        !already_requested && process_group is None ==> r == StopPlan::KillChild,
{
    if already_requested {
        StopPlan::AlreadyStopping
    } else {
        match process_group {
            Some(group) => StopPlan::HangUpGroup(group),
            None => StopPlan::KillChild,
        }
    }
}

} // verus!



