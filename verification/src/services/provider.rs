//! Provider detection rules: the captured login environment, how command
//! output is read, and the errors the provider commands report.
use vstd::prelude::*;

use crate::domain::provider::{provider_id_text, ProviderId};
use crate::services::workspace::{workspace_error_code, workspace_error_message, WorkspaceError};
use crate::text::{
    join_str, split_bytes, split_spec, spec_utf8_lossy, take_chars, take_chars_spec, trim,
    trim_spec, utf8_lossy, views_of,
};
use vstd::slice::slice_to_vec;
use vstd::string::StrSliceExecFns;

verus! {

/// Most bytes read from one provider command's output stream.
pub const MAX_COMMAND_BYTES: usize = 1048576;

/// Most bytes read when capturing the login environment.
pub const MAX_ENV_BYTES: usize = 1048576;

/// Errors of provider detection and launch.
#[derive(Debug)]
pub enum ProviderError {
    CommandIo,
    CommandOutputTooLarge,
    CommandSpawnFailed,
    CommandTimeout,
    Internal,
    LoginEnvironmentFailed,
    LoginEnvironmentInvalid,
    LaunchSnapshotInvalid,
    LoginShellUnavailable,
    PiTrustUnknown,
    ProviderUnavailable(ProviderId),
    ProviderUnsupported(ProviderId),
    RpcProtocolInvalid,
    RpcProbeFailed,
    RpcResponseTooLarge,
    Workspace(WorkspaceError),
}

pub open spec fn provider_error_code(error: ProviderError) -> Seq<char> {
    match error {
        ProviderError::CommandIo => "provider_command_io"@,
        ProviderError::CommandOutputTooLarge => "provider_command_output_too_large"@,
        ProviderError::CommandSpawnFailed => "provider_command_spawn_failed"@,
        ProviderError::CommandTimeout => "provider_command_timeout"@,
        ProviderError::Internal => "provider_internal"@,
        ProviderError::LoginEnvironmentFailed => "login_environment_failed"@,
        ProviderError::LoginEnvironmentInvalid => "login_environment_invalid"@,
        ProviderError::LaunchSnapshotInvalid => "provider_launch_snapshot_invalid"@,
        ProviderError::LoginShellUnavailable => "login_shell_unavailable"@,
        ProviderError::PiTrustUnknown => "pi_trust_unknown"@,
        ProviderError::ProviderUnavailable(_) => "provider_unavailable"@,
        ProviderError::ProviderUnsupported(_) => "provider_unsupported"@,
        ProviderError::RpcProtocolInvalid => "pi_rpc_protocol_invalid"@,
        ProviderError::RpcProbeFailed => "pi_rpc_probe_failed"@,
        ProviderError::RpcResponseTooLarge => "pi_rpc_response_too_large"@,
        ProviderError::Workspace(error) => workspace_error_code(error),
    }
}

pub open spec fn provider_error_message(error: ProviderError) -> Seq<char> {
    match error {
        ProviderError::CommandIo => "provider 命令输出异常"@,
        ProviderError::CommandOutputTooLarge => "provider 命令输出超过安全上限"@,
        ProviderError::CommandSpawnFailed => "无法启动 provider 命令"@,
        ProviderError::CommandTimeout => "provider 命令执行超时"@,
        ProviderError::Internal => "provider 内部状态不可用"@,
        ProviderError::LoginEnvironmentFailed => "无法解析登录 Shell 环境"@,
        ProviderError::LoginEnvironmentInvalid => "登录 Shell 环境格式无效"@,
        ProviderError::LaunchSnapshotInvalid => "provider 启动快照包含无法持久化的路径或参数"@,
        ProviderError::LoginShellUnavailable => "无法找到可用的登录 Shell"@,
        ProviderError::PiTrustUnknown => "无法读取 Pi 项目信任状态；请直接在 Pi TUI 中确认"@,
        ProviderError::ProviderUnavailable(id) => "provider "@ + provider_id_text(id)
            + " 在当前登录环境中不可用"@,
        ProviderError::ProviderUnsupported(id) => "provider "@ + provider_id_text(id)
            + " 的当前版本不受支持"@,
        ProviderError::RpcProtocolInvalid => "Pi RPC 响应不符合协议"@,
        ProviderError::RpcProbeFailed => "Pi RPC 诊断失败"@,
        ProviderError::RpcResponseTooLarge => "Pi RPC 响应超过安全上限"@,
        ProviderError::Workspace(error) => workspace_error_message(error),
    }
}

impl ProviderError {
    pub fn code(&self) -> (code: &'static str)
        ensures
            code@ == provider_error_code(*self),
    {
        match self {
            ProviderError::CommandIo => "provider_command_io",
            ProviderError::CommandOutputTooLarge => "provider_command_output_too_large",
            ProviderError::CommandSpawnFailed => "provider_command_spawn_failed",
            ProviderError::CommandTimeout => "provider_command_timeout",
            ProviderError::Internal => "provider_internal",
            ProviderError::LoginEnvironmentFailed => "login_environment_failed",
            ProviderError::LoginEnvironmentInvalid => "login_environment_invalid",
            ProviderError::LaunchSnapshotInvalid => "provider_launch_snapshot_invalid",
            ProviderError::LoginShellUnavailable => "login_shell_unavailable",
            ProviderError::PiTrustUnknown => "pi_trust_unknown",
            ProviderError::ProviderUnavailable(_) => "provider_unavailable",
            ProviderError::ProviderUnsupported(_) => "provider_unsupported",
            ProviderError::RpcProtocolInvalid => "pi_rpc_protocol_invalid",
            ProviderError::RpcProbeFailed => "pi_rpc_probe_failed",
            ProviderError::RpcResponseTooLarge => "pi_rpc_response_too_large",
            ProviderError::Workspace(error) => error.code(),
        }
    }

    /// The message shown to the user.
    pub fn message(&self) -> (message: String)
        ensures
            message@ == provider_error_message(*self),
    {
        match self {
            ProviderError::CommandIo => "provider 命令输出异常".to_owned(),
            ProviderError::CommandOutputTooLarge => "provider 命令输出超过安全上限".to_owned(),
            ProviderError::CommandSpawnFailed => "无法启动 provider 命令".to_owned(),
            ProviderError::CommandTimeout => "provider 命令执行超时".to_owned(),
            ProviderError::Internal => "provider 内部状态不可用".to_owned(),
            ProviderError::LoginEnvironmentFailed => "无法解析登录 Shell 环境".to_owned(),
            ProviderError::LoginEnvironmentInvalid => "登录 Shell 环境格式无效".to_owned(),
            ProviderError::LaunchSnapshotInvalid => "provider 启动快照包含无法持久化的路径或参数".to_owned(),
            ProviderError::LoginShellUnavailable => "无法找到可用的登录 Shell".to_owned(),
            ProviderError::PiTrustUnknown => "无法读取 Pi 项目信任状态；请直接在 Pi TUI 中确认".to_owned(),
            ProviderError::ProviderUnavailable(id) => join_str(
                &join_str("provider ", id.as_str()),
                " 在当前登录环境中不可用",
            ),
            ProviderError::ProviderUnsupported(id) => join_str(
                &join_str("provider ", id.as_str()),
                " 的当前版本不受支持",
            ),
            ProviderError::RpcProtocolInvalid => "Pi RPC 响应不符合协议".to_owned(),
            ProviderError::RpcProbeFailed => "Pi RPC 诊断失败".to_owned(),
            ProviderError::RpcResponseTooLarge => "Pi RPC 响应超过安全上限".to_owned(),
            ProviderError::Workspace(error) => error.safe_message(),
        }
    }

    pub fn from_workspace(error: WorkspaceError) -> (r: Self)
        ensures
            r == ProviderError::Workspace(error),
    {
        ProviderError::Workspace(error)
    }
}

/// Byte-wise equality of two byte strings.
pub fn bytes_eq(a: &[u8], b: &[u8]) -> (r: bool)
    ensures
        r == (a@ == b@),
{
    if a.len() != b.len() {
        return false;
    }
    let mut i: usize = 0;
    while i < a.len()
        invariant
            a@.len() == b@.len(),
            i <= a@.len(),
            forall|k: int| 0 <= k < i ==> a@[k] == b@[k],
        decreases a@.len() - i,
    {
        if a[i] != b[i] {
            return false;
        }
        i = i + 1;
    }
    assert(a@ =~= b@);
    true
}

/// The variables of an environment: later assignments of a name replace
/// earlier ones.
pub open spec fn env_view(entries: Seq<(Vec<u8>, Vec<u8>)>) -> Map<Seq<u8>, Seq<u8>>
    decreases entries.len(),
{
    if entries.len() == 0 {
        Map::empty()
    } else {
        env_view(entries.drop_last()).insert(entries.last().0@, entries.last().1@)
    }
}

/// Entry sequences that assign the same names and values.
pub open spec fn same_entries(a: Seq<(Vec<u8>, Vec<u8>)>, b: Seq<(Vec<u8>, Vec<u8>)>) -> bool {
    a.len() == b.len() && forall|i: int|
        0 <= i < a.len() ==> (#[trigger] a[i]).0@ == b[i].0@ && a[i].1@ == b[i].1@
}

pub proof fn lemma_env_view_same(a: Seq<(Vec<u8>, Vec<u8>)>, b: Seq<(Vec<u8>, Vec<u8>)>)
    requires
        same_entries(a, b),
    ensures
        env_view(a) == env_view(b),
    decreases a.len(),
{
    if a.len() > 0 {
        assert(same_entries(a.drop_last(), b.drop_last())) by {
            assert forall|i: int| 0 <= i < a.drop_last().len() implies (#[trigger] a.drop_last()[i]).0@
                == b.drop_last()[i].0@ && a.drop_last()[i].1@ == b.drop_last()[i].1@ by {
                assert(a.drop_last()[i] == a[i]);
                assert(b.drop_last()[i] == b[i]);
            }
        }
        lemma_env_view_same(a.drop_last(), b.drop_last());
        assert(a.last() == a[a.len() - 1]);
    }
}

/// The environment of the user's login shell, names and values as raw bytes.
#[derive(Debug)]
pub struct LoginEnvironment {
    pub values: Vec<(Vec<u8>, Vec<u8>)>,
}

impl View for LoginEnvironment {
    type V = Map<Seq<u8>, Seq<u8>>;

    open spec fn view(&self) -> Map<Seq<u8>, Seq<u8>> {
        env_view(self.values@)
    }
}

impl Clone for LoginEnvironment {
    fn clone(&self) -> (r: Self)
        ensures
            r@ == self@,
    {
        let mut values: Vec<(Vec<u8>, Vec<u8>)> = Vec::new();
        let mut i: usize = 0;
        while i < self.values.len()
            invariant
                i <= self.values@.len(),
                same_entries(values@, self.values@.take(i as int)),
            decreases self.values@.len() - i,
        {
            let name = slice_to_vec(self.values[i].0.as_slice());
            let value = slice_to_vec(self.values[i].1.as_slice());
            values.push((name, value));
            i = i + 1;
            assert(same_entries(values@, self.values@.take(i as int))) by {
                assert forall|k: int| 0 <= k < values@.len() implies (#[trigger] values@[k]).0@
                    == self.values@.take(i as int)[k].0@ && values@[k].1@ == self.values@.take(
                    i as int,
                )[k].1@ by {
                    if k < i - 1 {
                        assert(self.values@.take(i as int)[k] == self.values@.take(i - 1)[k]);
                    }
                }
            }
        }
        assert(self.values@.take(self.values@.len() as int) =~= self.values@);
        proof {
            lemma_env_view_same(values@, self.values@);
        }
        LoginEnvironment { values }
    }
}

impl LoginEnvironment {
    pub fn new() -> (r: Self)
        ensures
            r@ == Map::<Seq<u8>, Seq<u8>>::empty(),
    {
        LoginEnvironment { values: Vec::new() }
    }

    /// The value of variable `name`.
    pub fn get(&self, name: &[u8]) -> (r: Option<Vec<u8>>)
        ensures
            match r {
                Some(value) => self@.contains_key(name@) && value@ == self@[name@],
                None => !self@.contains_key(name@),
            },
    {
        let mut k: usize = self.values.len();
        while k > 0
            invariant
                k <= self.values@.len(),
                forall|j: int| k <= j < self.values@.len() ==> (#[trigger] self.values@[j]).0@ != name@,
            decreases k,
        {
            if bytes_eq(self.values[k - 1].0.as_slice(), name) {
                proof {
                    let prefix = self.values@.take(k as int);
                    assert(prefix.drop_last() =~= self.values@.take(k - 1));
                    lemma_env_view_suffix(self.values@, k as int, name@);
                }
                return Some(slice_to_vec(self.values[k - 1].1.as_slice()));
            }
            k = k - 1;
        }
        proof {
            lemma_env_view_suffix(self.values@, 0, name@);
        }
        None
    }

    /// Sets variable `name` to `value`.
    pub fn insert(&mut self, name: Vec<u8>, value: Vec<u8>)
        ensures
            final(self)@ == old(self)@.insert(name@, value@),
    {
        let ghost before = self.values@;
        self.values.push((name, value));
        assert(self.values@.drop_last() =~= before);
    }
}

/// When no entry from position `k` on assigns `name`, the whole environment
/// and its first `k` entries agree on `name`.
pub proof fn lemma_env_view_suffix(entries: Seq<(Vec<u8>, Vec<u8>)>, k: int, name: Seq<u8>)
    requires
        0 <= k <= entries.len(),
        forall|j: int| k <= j < entries.len() ==> (#[trigger] entries[j]).0@ != name,
    ensures
        env_view(entries).contains_key(name) == env_view(entries.take(k)).contains_key(name),
        env_view(entries).contains_key(name) ==> env_view(entries)[name] == env_view(
            entries.take(k),
        )[name],
    decreases entries.len() - k,
{
    if k == entries.len() {
        assert(entries.take(k) =~= entries);
    } else {
        let shorter = entries.drop_last();
        assert forall|j: int| k <= j < shorter.len() implies (#[trigger] shorter[j]).0@ != name by {
            assert(shorter[j] == entries[j]);
        }
        lemma_env_view_suffix(shorter, k, name);
        assert(shorter.take(k) =~= entries.take(k));
        assert(entries[entries.len() - 1].0@ != name);
    }
}

/// `\0BAIBO_LOGIN_ENV_V1\0`: printed just before the environment dump, so
/// that anything the login shell prints on startup is ignored.
pub open spec fn env_marker() -> Seq<u8> {
    seq![0u8, 66, 65, 73, 66, 79, 95, 76, 79, 71, 73, 78, 95, 69, 78, 86, 95, 86, 49, 0]
}

/// `PATH`
pub open spec fn path_name() -> Seq<u8> {
    seq![80u8, 65, 84, 72]
}

pub open spec fn marker_at(output: Seq<u8>, i: int) -> bool {
    0 <= i && i + 20 <= output.len() && output.subrange(i, i + 20) == env_marker()
}

/// `i` is where the last marker in `output` starts.
pub open spec fn is_last_marker(output: Seq<u8>, i: int) -> bool {
    marker_at(output, i) && forall|j: int| i < j ==> !marker_at(output, j)
}

/// The position of the first occurrence of `b` in `s`.
pub open spec fn index_of_byte(s: Seq<u8>, b: u8) -> Option<int>
    decreases s.len(),
{
    if s.len() == 0 {
        None
    } else if s[0] == b {
        Some(0)
    } else {
        match index_of_byte(s.drop_first(), b) {
            Some(i) => Some(i + 1),
            None => None,
        }
    }
}

/// The variable that a `NAME=value` entry assigns: split at the first `=`;
/// entries without `=`, or with an empty name, assign nothing.
pub open spec fn env_entry(piece: Seq<u8>) -> Option<(Seq<u8>, Seq<u8>)> {
    match index_of_byte(piece, 61u8) {
        Some(i) => if i > 0 {
            Some((piece.take(i), piece.skip(i + 1)))
        } else {
            None
        },
        None => None,
    }
}

/// In `name` + `=` + `value`, where `name` holds no `=`, the first `=` is
/// the one after the name.
proof fn lemma_first_equals_after_name(name: Seq<u8>, value: Seq<u8>)
    requires
        forall|j: int| 0 <= j < name.len() ==> name[j] != 61u8,
    ensures
        index_of_byte(name + seq![61u8] + value, 61u8) == Some(name.len() as int),
    decreases name.len(),
{
    let piece = name + seq![61u8] + value;
    if name.len() == 0 {
        assert(piece[0] == 61u8);
    } else {
        let rest = name.drop_first();
        assert forall|j: int| 0 <= j < rest.len() implies rest[j] != 61u8 by {
            assert(rest[j] == name[j + 1]);
        }
        lemma_first_equals_after_name(rest, value);
        assert(piece.drop_first() =~= rest + seq![61u8] + value);
        assert(piece[0] == name[0]);
    }
}

/// An entry `NAME=VALUE` whose name is not empty and holds no `=` assigns
/// exactly `VALUE` to `NAME`: the entry splits at its first `=`, so the value
/// keeps every later `=`, and the entry replaces any earlier value of the name
/// while leaving every other variable as it was.
pub proof fn lemma_entry_assigns_name(pieces: Seq<Seq<u8>>, name: Seq<u8>, value: Seq<u8>)
    requires
        name.len() > 0,
        forall|j: int| 0 <= j < name.len() ==> name[j] != 61u8,
    ensures
        env_entry(name + seq![61u8] + value) == Some((name, value)),
        env_from_pieces(pieces.push(name + seq![61u8] + value)) == env_from_pieces(pieces).insert(
            name,
            value,
        ),
        env_from_pieces(pieces.push(name + seq![61u8] + value))[name] == value,
{
    let piece = name + seq![61u8] + value;
    lemma_first_equals_after_name(name, value);
    assert(piece.take(name.len() as int) =~= name);
    assert(piece.skip(name.len() as int + 1) =~= value);
    assert(pieces.push(piece).drop_last() =~= pieces);
}

/// The environment that a sequence of entries assigns, later entries winning.
pub open spec fn env_from_pieces(pieces: Seq<Seq<u8>>) -> Map<Seq<u8>, Seq<u8>>
    decreases pieces.len(),
{
    if pieces.len() == 0 {
        Map::empty()
    } else {
        let before = env_from_pieces(pieces.drop_last());
        match env_entry(pieces.last()) {
            Some((name, value)) => before.insert(name, value),
            None => before,
        }
    }
}

/// The login environment in a captured `env -0` dump: the NUL-separated
/// entries after the last marker, provided they set `PATH`.
pub open spec fn login_environment_spec(output: Seq<u8>) -> Option<Map<Seq<u8>, Seq<u8>>> {
    if exists|i: int| is_last_marker(output, i) {
        let i = choose|i: int| is_last_marker(output, i);
        let env = env_from_pieces(split_spec(output.skip(i + 20), 0u8));
        if env.contains_key(path_name()) {
            Some(env)
        } else {
            None
        }
    } else {
        None
    }
}

/// The position of the first `=` in an entry.
fn find_equals(piece: &[u8]) -> (r: Option<usize>)
    ensures
        match r {
            Some(i) => index_of_byte(piece@, 61u8) == Some(i as int) && i < piece@.len(),
            None => index_of_byte(piece@, 61u8) is None,
        },
{
    let n = piece.len();
    let mut i: usize = 0;
    assert(piece@.skip(0) =~= piece@);
    while i < n
        invariant
            n == piece@.len(),
            i <= n,
            forall|k: int| 0 <= k < i ==> piece@[k] != 61u8,
            index_of_byte(piece@, 61u8) == match index_of_byte(piece@.skip(i as int), 61u8) {
                Some(j) => Some(j + i),
                None => None::<int>,
            },
        decreases n - i,
    {
        if piece[i] == 61u8 {
            assert(piece@.skip(i as int)[0] == 61u8);
            return Some(i);
        }
        assert(piece@.skip(i as int).drop_first() =~= piece@.skip(i + 1));
        i = i + 1;
    }
    assert(piece@.skip(n as int) =~= Seq::<u8>::empty());
    None
}

/// Where the last marker in `output` starts.
fn find_last_marker(output: &[u8]) -> (r: Option<usize>)
    ensures
        match r {
            Some(i) => is_last_marker(output@, i as int),
            None => forall|j: int| !marker_at(output@, j),
        },
{
    let marker: [u8; 20] = [0u8, 66, 65, 73, 66, 79, 95, 76, 79, 71, 73, 78, 95, 69, 78, 86, 95, 86, 49, 0];
    let n = output.len();
    if n < 20 {
        return None;
    }
    let mut at: usize = n - 20 + 1;
    while at > 0
        invariant
            n == output@.len(),
            20 <= n,
            at <= n - 20 + 1,
            marker@ == env_marker(),
            forall|j: int| at <= j ==> !marker_at(output@, j),
        decreases at,
    {
        let i = at - 1;
        let mut k: usize = 0;
        let mut same = true;
        while k < 20
            invariant
                n == output@.len(),
                i + 20 <= n,
                k <= 20,
                marker@ == env_marker(),
                same == (forall|m: int| 0 <= m < k ==> output@[i + m] == marker@[m]),
            decreases 20 - k,
        {
            if output[i + k] != marker[k] {
                same = false;
            }
            k = k + 1;
        }
        if same {
            assert(output@.subrange(i as int, i + 20) =~= env_marker());
            return Some(i);
        }
        assert(!marker_at(output@, i as int)) by {
            if output@.subrange(i as int, i + 20) == env_marker() {
                let m = choose|m: int| 0 <= m < 20 && output@[i + m] != marker@[m];
                assert(output@.subrange(i as int, i + 20)[m] == output@[i + m]);
            }
        }
        at = i;
    }
    None
}

/// Parses a captured login environment. Values are kept as raw bytes, so
/// values that are not UTF-8 survive unchanged.
pub fn parse_environment(output: &[u8]) -> (r: Result<LoginEnvironment, ProviderError>)
    ensures
        match login_environment_spec(output@) {
            Some(env) => r matches Ok(e) && e@ == env,
            None => r matches Err(ProviderError::LoginEnvironmentInvalid),
        },
{
    let n = output.len();
    let start = match find_last_marker(output) {
        Some(i) => i,
        None => {
            assert(!exists|i: int| is_last_marker(output@, i));
            return Err(ProviderError::LoginEnvironmentInvalid);
        },
    };
    proof {
        let c = choose|i: int| is_last_marker(output@, i);
        if c != start {
            if c < start {
                assert(!marker_at(output@, start as int));
            } else {
                assert(!marker_at(output@, c));
            }
        }
    }
    let rest = &output[start + 20..n];
    assert(rest@ =~= output@.skip(start + 20));
    let pieces = split_bytes(rest, 0u8);
    let mut environment = LoginEnvironment::new();
    let mut p: usize = 0;
    while p < pieces.len()
        invariant
            p <= pieces@.len(),
            views_of(pieces@) == split_spec(rest@, 0u8),
            environment@ == env_from_pieces(views_of(pieces@).take(p as int)),
        decreases pieces@.len() - p,
    {
        let piece = pieces[p].as_slice();
        let piece_len = piece.len();
        let ghost all = views_of(pieces@);
        assert(all.take(p + 1).drop_last() =~= all.take(p as int));
        assert(all.take(p + 1).last() == piece@);
        match find_equals(piece) {
            Some(eq) => {
                if eq > 0 {
                    let name = slice_to_vec(&piece[0..eq]);
                    let value = slice_to_vec(&piece[eq + 1..piece_len]);
                    assert(name@ =~= piece@.take(eq as int));
                    assert(value@ =~= piece@.skip(eq + 1));
                    environment.insert(name, value);
                }
            },
            None => {},
        }
        p = p + 1;
    }
    assert(views_of(pieces@).take(pieces@.len() as int) =~= views_of(pieces@));
    let path: [u8; 4] = [80u8, 65, 84, 72];
    assert(path@ == path_name());
    if environment.get(&path).is_none() {
        return Err(ProviderError::LoginEnvironmentInvalid);
    }
    Ok(environment)
}

/// The first non-empty line of a command's output, trimmed and cut to 256
/// characters: the lines of standard output come first, then those of
/// standard error.
pub open spec fn first_nonempty_line_spec(lines: Seq<Seq<u8>>) -> Option<Seq<char>>
    decreases lines.len(),
{
    if lines.len() == 0 {
        None
    } else {
        let line = trim_spec(spec_utf8_lossy(lines[0]));
        if line.len() > 0 {
            Some(take_chars_spec(line, 256))
        } else {
            first_nonempty_line_spec(lines.drop_first())
        }
    }
}

pub fn first_nonempty_line(stdout: &[u8], stderr: &[u8]) -> (r: Option<String>)
    ensures
        match first_nonempty_line_spec(split_spec(stdout@, 10u8) + split_spec(stderr@, 10u8)) {
            Some(line) => r matches Some(s) && s@ == line,
            None => r is None,
        },
{
    let mut lines = split_bytes(stdout, 10u8);
    let mut more = split_bytes(stderr, 10u8);
    let ghost a = views_of(lines@);
    let ghost b = views_of(more@);
    lines.append(&mut more);
    let ghost all = a + b;
    assert(views_of(lines@) =~= all);
    let mut k: usize = 0;
    assert(all.skip(0) =~= all);
    while k < lines.len()
        invariant
            k <= lines@.len(),
            views_of(lines@) == all,
            all == split_spec(stdout@, 10u8) + split_spec(stderr@, 10u8),
            first_nonempty_line_spec(all) == first_nonempty_line_spec(all.skip(k as int)),
        decreases lines@.len() - k,
    {
        let text = utf8_lossy(lines[k].as_slice());
        let line = trim(text.as_str());
        assert(all.skip(k as int)[0] == all[k as int]);
        assert(lines@[k as int]@ == all[k as int]);
        if line.unicode_len() > 0 {
            assert(all.skip(k as int).len() > 0);
            assert(trim_spec(spec_utf8_lossy(all.skip(k as int)[0])) == line@);
            assert(first_nonempty_line_spec(all.skip(k as int)) == Some(take_chars_spec(line@, 256)));
            return Some(take_chars(line, 256));
        }
        assert(all.skip(k as int).drop_first() =~= all.skip(k + 1));
        k = k + 1;
    }
    assert(all.skip(k as int) =~= Seq::<Seq<u8>>::empty());
    None
}

/// One read of a bounded output stream: the chunk is appended up to the limit,
/// and a chunk that goes past the limit makes the output too large.
pub fn append_limited(output: &mut Vec<u8>, chunk: &[u8], limit: usize) -> (r: Result<
    (),
    ProviderError,
>)
    ensures
        ({
            let remaining = if old(output)@.len() <= limit {
                limit - old(output)@.len()
            } else {
                0
            };
            let taken = if chunk@.len() <= remaining {
                chunk@.len() as int
            } else {
                remaining
            };
            &&& final(output)@ == old(output)@ + chunk@.take(taken)
            &&& chunk@.len() <= remaining ==> r is Ok
            &&& chunk@.len() > remaining ==> r matches Err(ProviderError::CommandOutputTooLarge)
        }),
{
    let remaining = if output.len() <= limit {
        limit - output.len()
    } else {
        0
    };
    let taken = if chunk.len() <= remaining {
        chunk.len()
    } else {
        remaining
    };
    let mut i: usize = 0;
    let ghost before = output@;
    while i < taken
        invariant
            taken <= chunk@.len(),
            i <= taken,
            output@ == before + chunk@.take(i as int),
        decreases taken - i,
    {
        output.push(chunk[i]);
        i = i + 1;
        assert(output@ =~= before + chunk@.take(i as int));
    }
    if chunk.len() > remaining {
        return Err(ProviderError::CommandOutputTooLarge);
    }
    Ok(())
}

/// The directories of a `PATH` value, in order, empty entries skipped.
pub open spec fn path_directories_spec(path: Seq<u8>) -> Seq<Seq<u8>> {
    split_spec(path, 58u8).filter(|d: Seq<u8>| d.len() > 0)
}

pub fn path_directories(path: &[u8]) -> (r: Vec<Vec<u8>>)
    ensures
        views_of(r@) == path_directories_spec(path@),
{
    let pieces = split_bytes(path, 58u8);
    let ghost all = views_of(pieces@);
    let mut r: Vec<Vec<u8>> = Vec::new();
    let mut k: usize = 0;
    assert(all.take(0).filter(|d: Seq<u8>| d.len() > 0) =~= Seq::<Seq<u8>>::empty());
    while k < pieces.len()
        invariant
            k <= pieces@.len(),
            views_of(pieces@) == all,
            views_of(r@) == all.take(k as int).filter(|d: Seq<u8>| d.len() > 0),
        decreases pieces@.len() - k,
    {
        assert(all.take(k + 1).drop_last() =~= all.take(k as int));
        reveal_with_fuel(Seq::filter, 1);
        if pieces[k].len() > 0 {
            r.push(slice_to_vec(pieces[k].as_slice()));
            assert(views_of(r@) =~= all.take(k as int).filter(|d: Seq<u8>| d.len() > 0).push(
                all[k as int],
            ));
        }
        k = k + 1;
    }
    assert(all.take(pieces@.len() as int) =~= all);
    r
}

/// The error a provider command reports to the user interface.
#[derive(Debug)]
pub struct ProviderCommandError {
    pub code: &'static str,
    pub message: String,
}

impl From<ProviderError> for ProviderCommandError {
    fn from(error: ProviderError) -> (r: Self)
        ensures
            r.code@ == provider_error_code(error),
            r.message@ == provider_error_message(error),
    {
        ProviderCommandError { code: error.code(), message: error.message() }
    }
}

impl vstd::std_specs::convert::FromSpecImpl<ProviderError> for ProviderCommandError {
    open spec fn obeys_from_spec() -> bool {
        false
    }

    open spec fn from_spec(v: ProviderError) -> Self {
        arbitrary()
    }
}

/// Whether a file can be run as a command: an absolute path to a regular file
/// with at least one execute permission bit (`0o111`).
pub fn is_executable_entry(absolute: bool, is_file: bool, mode: u32) -> (r: bool)
    ensures
        r == (absolute && is_file && (mode & 73u32) != 0),
{
    absolute && is_file && (mode & 73u32) != 0
}

} // verus!


