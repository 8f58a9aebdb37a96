//! Provider detection decisions: what a lookup of the executable and the
//! version and help commands make of a provider, and whether a detected
//! provider can be launched.
use vstd::prelude::*;

use crate::adapters::provider::{
    adapter, agent_environment, capabilities_spec, checks_help_spec, display_name_spec, executable_name_spec,
    help_valid_spec, launch_modes_spec, BuiltinAdapter, ProviderAdapter,
};
use crate::domain::agent::{AgentLaunchSnapshot, AgentSessionId};
use crate::domain::provider::{
    PiRpcProbeResult, ProviderAvailability, ProviderDiagnostic, ProviderId, ProviderInfo,
};
use crate::domain::workspace::{clone_opt_string, WorkspaceId};
use crate::services::terminal::LaunchSpec;
use crate::services::provider::{
    first_nonempty_line, first_nonempty_line_spec, LoginEnvironment, ProviderError,
};
use crate::text::{join_str, opt_text, spec_utf8_lossy, split_spec, utf8_lossy, utf8_text, utf8_to_string};
use vstd::slice::slice_to_vec;
use vstd::string::StrSliceExecFns;
use vstd::utf8::{decode_utf8, encode_utf8, valid_utf8};

verus! {

/// What a provider command printed, and whether it exited successfully.
#[derive(Debug)]
pub struct CommandOutput {
    pub success: bool,
    pub stdout: Vec<u8>,
    pub stderr: Vec<u8>,
}

/// A provider as detection left it: the record shown to the user, and the
/// canonical executable where one was found.
#[derive(Debug)]
pub struct DetectedProvider {
    pub info: ProviderInfo,
    pub executable: Option<Vec<u8>>,
}

/// The fields that a detected record takes from its adapter.
pub open spec fn describes_adapter(info: ProviderInfo, id: ProviderId) -> bool {
    &&& info.id == id
    &&& info.display_name@ == display_name_spec(id)
    &&& info.launch_modes@ == launch_modes_spec(id)
    &&& info.capabilities == capabilities_spec(id)
}

/// A diagnostic with this code, message and recovery hint.
pub open spec fn diagnostic_is(
    diagnostic: Option<ProviderDiagnostic>,
    code: Seq<char>,
    message: Seq<char>,
    recovery: Seq<char>,
) -> bool {
    &&& diagnostic is Some
    &&& diagnostic->0.code@ == code
    &&& diagnostic->0.message@ == message
    &&& opt_text(diagnostic->0.recovery) == Some(recovery)
}

pub open spec fn not_found_message(executable_name: Seq<char>) -> Seq<char> {
    "登录环境的 PATH 中找不到 "@ + executable_name + "。"@
}

pub open spec fn inactive_node_recovery(executable_name: Seq<char>) -> Seq<char> {
    "该命令安装在非活动 Node 环境中。请让登录 Shell 的 PATH 包含 "@ + executable_name
        + "，再刷新 provider。"@
}

pub open spec fn install_recovery(display_name: Seq<char>) -> Seq<char> {
    "请在登录 Shell 中安装 "@ + display_name + "，或修正 PATH 后刷新。"@
}

pub open spec fn update_recovery() -> Seq<char> {
    "请更新该 CLI，并在刷新 provider 后重试。"@
}

/// The record of a provider whose executable is not on the login `PATH`.
/// `inactive_node` says whether the executable was found in an inactive nvm
/// Node installation, which changes the recovery hint.
pub fn unavailable_provider(adapter: &BuiltinAdapter, inactive_node: bool) -> (r: DetectedProvider)
    ensures
        describes_adapter(r.info, adapter.provider()),
        r.info.availability == ProviderAvailability::Unavailable,
        r.info.executable_path is None,
        r.info.version is None,
        r.executable is None,
        diagnostic_is(
            r.info.diagnostic,
            "provider_executable_not_found"@,
            not_found_message(executable_name_spec(adapter.provider())),
            if inactive_node {
                inactive_node_recovery(executable_name_spec(adapter.provider()))
            } else {
                install_recovery(display_name_spec(adapter.provider()))
            },
        ),
{
    let name = adapter.executable_name();
    let recovery = if inactive_node {
        join_str(
            &join_str("该命令安装在非活动 Node 环境中。请让登录 Shell 的 PATH 包含 ", name),
            "，再刷新 provider。",
        )
    } else {
        join_str(&join_str("请在登录 Shell 中安装 ", adapter.display_name()), "，或修正 PATH 后刷新。")
    };
    DetectedProvider {
        info: ProviderInfo {
            id: adapter.id(),
            display_name: adapter.display_name().to_owned(),
            availability: ProviderAvailability::Unavailable,
            executable_path: None,
            version: None,
            launch_modes: adapter.supported_launch_modes(),
            capabilities: adapter.capabilities(),
            diagnostic: Some(
                ProviderDiagnostic {
                    code: "provider_executable_not_found".to_owned(),
                    message: join_str(&join_str("登录环境的 PATH 中找不到 ", name), "。"),
                    recovery: Some(recovery),
                },
            ),
        },
        executable: None,
    }
}

/// The record of a provider whose executable exists but failed a check.
pub fn detection_failure(
    adapter: &BuiltinAdapter,
    executable: &[u8],
    availability: ProviderAvailability,
    code: &str,
    message: &str,
) -> (r: DetectedProvider)
    ensures
        describes_adapter(r.info, adapter.provider()),
        r.info.availability == availability,
        opt_text(r.info.executable_path) == utf8_text(executable@),
        r.info.version is None,
        r.executable matches Some(e) && e@ == executable@,
        diagnostic_is(r.info.diagnostic, code@, message@, update_recovery()),
{
    DetectedProvider {
        info: ProviderInfo {
            id: adapter.id(),
            display_name: adapter.display_name().to_owned(),
            availability,
            executable_path: utf8_to_string(executable),
            version: None,
            launch_modes: adapter.supported_launch_modes(),
            capabilities: adapter.capabilities(),
            diagnostic: Some(
                ProviderDiagnostic {
                    code: code.to_owned(),
                    message: message.to_owned(),
                    recovery: Some("请更新该 CLI，并在刷新 provider 后重试。".to_owned()),
                },
            ),
        },
        executable: Some(slice_to_vec(executable)),
    }
}

/// Whether the command ran and exited successfully.
pub open spec fn command_succeeded(output: Result<CommandOutput, ProviderError>) -> bool {
    match output {
        Ok(o) => o.success,
        Err(_) => false,
    }
}

/// The version a successful version command printed: its first non-empty line.
pub open spec fn printed_version(output: Result<CommandOutput, ProviderError>) -> Option<Seq<char>> {
    match output {
        Ok(o) => if o.success {
            first_nonempty_line_spec(split_spec(o.stdout@, 10u8) + split_spec(o.stderr@, 10u8))
        } else {
            None
        },
        Err(_) => None,
    }
}

/// Reads the output of the version command. A command that failed, or exited
/// unsuccessfully, makes the provider an `Error` with
/// `provider_version_failed`; one that printed no line makes it an `Error`
/// with `provider_version_invalid`; otherwise the version is returned.
pub fn version_from_output(
    adapter: &BuiltinAdapter,
    executable: &[u8],
    output: Result<CommandOutput, ProviderError>,
) -> (r: Result<String, DetectedProvider>)
    ensures
        match r {
            Ok(version) => printed_version(output) == Some(version@),
            Err(d) => {
                &&& printed_version(output) is None
                &&& describes_adapter(d.info, adapter.provider())
                &&& d.info.availability == ProviderAvailability::Error
                &&& opt_text(d.info.executable_path) == utf8_text(executable@)
                &&& d.info.version is None
                &&& d.executable matches Some(e) && e@ == executable@
                &&& if command_succeeded(output) {
                    diagnostic_is(
                        d.info.diagnostic,
                        "provider_version_invalid"@,
                        "版本命令没有返回可识别的版本。"@,
                        update_recovery(),
                    )
                } else {
                    diagnostic_is(
                        d.info.diagnostic,
                        "provider_version_failed"@,
                        "可执行文件存在，但版本检测失败。"@,
                        update_recovery(),
                    )
                }
            },
        },
{
    let printed = match &output {
        Ok(o) => if o.success {
            first_nonempty_line(o.stdout.as_slice(), o.stderr.as_slice())
        } else {
            return Err(
                detection_failure(
                    adapter,
                    executable,
                    ProviderAvailability::Error,
                    "provider_version_failed",
                    "可执行文件存在，但版本检测失败。",
                ),
            );
        },
        Err(_) => {
            return Err(
                detection_failure(
                    adapter,
                    executable,
                    ProviderAvailability::Error,
                    "provider_version_failed",
                    "可执行文件存在，但版本检测失败。",
                ),
            );
        },
    };
    match printed {
        Some(version) => Ok(version),
        None => Err(
            detection_failure(
                adapter,
                executable,
                ProviderAvailability::Error,
                "provider_version_invalid",
                "版本命令没有返回可识别的版本。",
            ),
        ),
    }
}

/// Whether the help command shows what the adapter needs: it succeeded, and
/// its standard output, read as UTF-8 with invalid bytes replaced, passes the
/// adapter's check.
pub open spec fn help_accepted(
    adapter: BuiltinAdapter,
    help: Result<CommandOutput, ProviderError>,
) -> bool {
    help matches Ok(o) && o.success && help_valid_spec(
        adapter.provider(),
        spec_utf8_lossy(o.stdout@),
    )
}

/// Finishes detection once the version is known. `help` is the output of the
/// help command, present exactly when the adapter checks its help; a help
/// that is not accepted makes the provider `Unsupported`, otherwise it is
/// `Available` with its executable and version.
pub fn finish_detection(
    adapter: &BuiltinAdapter,
    executable: &[u8],
    version: String,
    help: Option<Result<CommandOutput, ProviderError>>,
) -> (r: DetectedProvider)
    requires
        help is Some <==> checks_help_spec(adapter.provider()),
    ensures
        describes_adapter(r.info, adapter.provider()),
        opt_text(r.info.executable_path) == utf8_text(executable@),
        r.executable matches Some(e) && e@ == executable@,
        help matches Some(h) && !help_accepted(*adapter, h) ==> {
            &&& r.info.availability == ProviderAvailability::Unsupported
            &&& r.info.version is None
            &&& diagnostic_is(
                r.info.diagnostic,
                "provider_version_unsupported"@,
                "当前版本缺少 CP3 所需的 RPC 或 trust 参数。"@,
                update_recovery(),
            )
        },
        !(help matches Some(h) && !help_accepted(*adapter, h)) ==> {
            &&& r.info.availability == ProviderAvailability::Available
            &&& opt_text(r.info.version) == Some(version@)
            &&& r.info.diagnostic is None
        },
{
    let accepted = match &help {
        None => true,
        Some(Ok(o)) => o.success && {
            let text = utf8_lossy(o.stdout.as_slice());
            adapter.validate_help(text.as_str())
        },
        Some(Err(_)) => false,
    };
    if !accepted {
        return detection_failure(
            adapter,
            executable,
            ProviderAvailability::Unsupported,
            "provider_version_unsupported",
            "当前版本缺少 CP3 所需的 RPC 或 trust 参数。",
        );
    }
    DetectedProvider {
        info: ProviderInfo {
            id: adapter.id(),
            display_name: adapter.display_name().to_owned(),
            availability: ProviderAvailability::Available,
            executable_path: utf8_to_string(executable),
            version: Some(version),
            launch_modes: adapter.supported_launch_modes(),
            capabilities: adapter.capabilities(),
            diagnostic: None,
        },
        executable: Some(slice_to_vec(executable)),
    }
}

/// The result of one detection run: the login environment, and the detected
/// providers keyed by provider.
#[derive(Debug)]
pub struct DetectionCache {
    environment: LoginEnvironment,
    codex: Option<DetectedProvider>,
    pi: Option<DetectedProvider>,
}

impl DetectionCache {
    /// The detected provider of each provider id.
    pub closed spec fn providers(&self) -> Map<ProviderId, DetectedProvider> {
        Map::new(
            |id: ProviderId| self.slot(id) is Some,
            |id: ProviderId| self.slot(id)->0,
        )
    }

    closed spec fn slot(&self, id: ProviderId) -> Option<DetectedProvider> {
        match id {
            ProviderId::Codex => self.codex,
            ProviderId::Pi => self.pi,
        }
    }

    /// The login environment that detection captured.
    pub closed spec fn login_environment(&self) -> Map<Seq<u8>, Seq<u8>> {
        self.environment@
    }

    pub fn environment(&self) -> (r: &LoginEnvironment)
        ensures
            r@ == self.login_environment(),
    {
        &self.environment
    }

    /// Every record is stored under its own provider id.
    #[verifier::type_invariant]
    closed spec fn inv(&self) -> bool {
        &&& self.codex matches Some(d) ==> d.info.id == ProviderId::Codex
        &&& self.pi matches Some(d) ==> d.info.id == ProviderId::Pi
    }

    pub fn new(environment: LoginEnvironment) -> (r: Self)
        ensures
            r.login_environment() == environment@,
            r.providers() == Map::<ProviderId, DetectedProvider>::empty(),
    {
        let r = DetectionCache { environment, codex: None, pi: None };
        assert(r.providers() =~= Map::<ProviderId, DetectedProvider>::empty());
        r
    }

    /// Records a detected provider under its id, replacing an earlier record.
    pub fn insert(&mut self, detected: DetectedProvider)
        ensures
            final(self).login_environment() == old(self).login_environment(),
            final(self).providers() == old(self).providers().insert(detected.info.id, detected),
    {
        proof {
            use_type_invariant(&*self);
        }
        let ghost before = self.providers();
        let ghost id = detected.info.id;
        let ghost value = detected;
        match detected.info.id {
            ProviderId::Codex => {
                assert(detected.info.id == ProviderId::Codex);
                self.codex = Some(detected);
            },
            ProviderId::Pi => {
                assert(detected.info.id == ProviderId::Pi);
                self.pi = Some(detected);
            },
        }
        assert(self.providers() =~= before.insert(id, value));
    }

    /// The detected provider of `id`.
    pub fn get(&self, id: ProviderId) -> (r: Option<&DetectedProvider>)
        ensures
            match r {
                Some(d) => self.providers().contains_key(id) && *d == self.providers()[id],
                None => !self.providers().contains_key(id),
            },
    {
        match id {
            ProviderId::Codex => match &self.codex {
                Some(d) => Some(d),
                None => None,
            },
            ProviderId::Pi => match &self.pi {
                Some(d) => Some(d),
                None => None,
            },
        }
    }

    /// The records of the detected providers, in provider order: Codex, then Pi.
    pub fn infos(&self) -> (r: Vec<ProviderInfo>)
        ensures
            r@.len() == listed(self.providers()).len(),
            forall|i: int|
                0 <= i < r@.len() ==> (#[trigger] r@[i]).same_as(&listed(self.providers())[i].info),
    {
        let mut r: Vec<ProviderInfo> = Vec::new();
        if let Some(d) = &self.codex {
            r.push(d.info.clone());
        }
        if let Some(d) = &self.pi {
            r.push(d.info.clone());
        }
        proof {
            let m = self.providers();
            assert(m.contains_key(ProviderId::Codex) == (self.codex is Some));
            assert(m.contains_key(ProviderId::Pi) == (self.pi is Some));
        }
        r
    }
}

/// The providers of a map in provider order.
pub open spec fn listed(providers: Map<ProviderId, DetectedProvider>) -> Seq<DetectedProvider> {
    (if providers.contains_key(ProviderId::Codex) {
        seq![providers[ProviderId::Codex]]
    } else {
        Seq::empty()
    }) + (if providers.contains_key(ProviderId::Pi) {
        seq![providers[ProviderId::Pi]]
    } else {
        Seq::empty()
    })
}

/// An agent launch together with what is recorded of it.
#[derive(Debug)]
pub struct PreparedAgentLaunch {
    pub launch: LaunchSpec,
    pub snapshot: AgentLaunchSnapshot,
}

/// Why a detected provider cannot be launched, if it cannot: it was not
/// detected, it is not `Available` (`Unsupported` is reported as such), or
/// no executable was found.
pub open spec fn launch_refusal(detected: Option<DetectedProvider>, id: ProviderId) -> Option<
    ProviderError,
> {
    match detected {
        None => Some(ProviderError::ProviderUnavailable(id)),
        Some(d) => if d.info.availability == ProviderAvailability::Available {
            if d.executable is Some {
                None
            } else {
                Some(ProviderError::ProviderUnavailable(id))
            }
        } else if d.info.availability == ProviderAvailability::Unsupported {
            Some(ProviderError::ProviderUnsupported(id))
        } else {
            Some(ProviderError::ProviderUnavailable(id))
        },
    }
}

/// Only a provider detected as `Available`, with an executable, can be
/// launched. Every other detection refuses the launch: `Unsupported` as
/// unsupported; `Checking`, `Unavailable`, `Error`, an available provider
/// without an executable, and a provider never detected as unavailable.
pub proof fn lemma_only_available_providers_launch(detected: Option<DetectedProvider>, id: ProviderId)
    ensures
        launch_refusal(detected, id) is None <==> (detected matches Some(d)
            && d.info.availability == ProviderAvailability::Available && d.executable is Some),
        detected matches Some(d) && d.info.availability == ProviderAvailability::Unsupported
            ==> launch_refusal(detected, id) == Some(ProviderError::ProviderUnsupported(id)),
        detected matches Some(d) && d.info.availability != ProviderAvailability::Available
            && d.info.availability != ProviderAvailability::Unsupported ==> launch_refusal(detected, id)
            == Some(ProviderError::ProviderUnavailable(id)),
        detected is None ==> launch_refusal(detected, id) == Some(ProviderError::ProviderUnavailable(id)),
{
}

/// Builds the launch of an agent of provider `id` in the workspace directory
/// `cwd`, from the detection results. The snapshot records the executable
/// path, which must be UTF-8, the arguments and the detected version.
pub fn prepare_agent_launch(
    cache: &DetectionCache,
    id: ProviderId,
    cwd: &str,
    workspace_id: &WorkspaceId,
    agent_session_id: &AgentSessionId,
) -> (r: Result<PreparedAgentLaunch, ProviderError>)
    ensures
        ({
            let detected = if cache.providers().contains_key(id) {
                Some(cache.providers()[id])
            } else {
                None
            };
            match launch_refusal(detected, id) {
                Some(e) => r == Err::<PreparedAgentLaunch, ProviderError>(e),
                None => {
                    let d = detected->0;
                    let executable = d.executable->0@;
                    match r {
                        Ok(p) => {
                            &&& valid_utf8(executable)
                            &&& p.launch.executable@ == executable
                            &&& p.launch.argv@.len() == 0
                            &&& p.launch.cwd@ == cwd@
                            &&& p.launch.environment matches Some(env) && env@ == agent_environment(
                                cache.login_environment(),
                                id,
                                workspace_id@,
                                agent_session_id@,
                            )
                            &&& opt_text(p.snapshot.executable_path) == Some(decode_utf8(executable))
                            &&& p.snapshot.argv@.len() == 0
                            &&& opt_text(p.snapshot.provider_version) == opt_text(d.info.version)
                        },
                        Err(e) => !valid_utf8(executable) && e == ProviderError::LaunchSnapshotInvalid,
                    }
                },
            }
        }),
        r is Ok ==> cache.providers().contains_key(id) && cache.providers()[id].info.availability
            == ProviderAvailability::Available,
        cache.providers().contains_key(id) && cache.providers()[id].info.availability
            == ProviderAvailability::Unsupported ==> r == Err::<PreparedAgentLaunch, ProviderError>(
            ProviderError::ProviderUnsupported(id),
        ),
        (!cache.providers().contains_key(id) || (cache.providers()[id].info.availability
            != ProviderAvailability::Available && cache.providers()[id].info.availability
            != ProviderAvailability::Unsupported)) ==> r == Err::<PreparedAgentLaunch, ProviderError>(
            ProviderError::ProviderUnavailable(id),
        ),
{
    let detected = match cache.get(id) {
        Some(d) => d,
        None => {
            return Err(ProviderError::ProviderUnavailable(id));
        },
    };
    match detected.info.availability {
        ProviderAvailability::Available => {},
        ProviderAvailability::Unsupported => {
            return Err(ProviderError::ProviderUnsupported(id));
        },
        _ => {
            return Err(ProviderError::ProviderUnavailable(id));
        },
    }
    let executable = match &detected.executable {
        Some(e) => e,
        None => {
            return Err(ProviderError::ProviderUnavailable(id));
        },
    };
    let launch = adapter(id).build_launch_spec(
        executable.as_slice(),
        cache.environment(),
        cwd,
        workspace_id,
        agent_session_id,
    );
    let executable_path = match utf8_to_string(launch.executable.as_slice()) {
        Some(path) => path,
        None => {
            return Err(ProviderError::LaunchSnapshotInvalid);
        },
    };
    Ok(
        PreparedAgentLaunch {
            launch,
            snapshot: AgentLaunchSnapshot {
                executable_path: Some(executable_path),
                argv: Vec::new(),
                provider_version: clone_opt_string(&detected.info.version),
            },
        },
    )
}

/// The executable for Pi's RPC probe: Pi must be detected, `Available` and
/// have an executable; otherwise Pi is unavailable.
pub fn pi_probe_executable(cache: &DetectionCache) -> (r: Result<Vec<u8>, ProviderError>)
    ensures
        ({
            let p = cache.providers();
            if p.contains_key(ProviderId::Pi) && p[ProviderId::Pi].info.availability
                == ProviderAvailability::Available && p[ProviderId::Pi].executable is Some {
                r matches Ok(e) && e@ == p[ProviderId::Pi].executable->0@
            } else {
                r == Err::<Vec<u8>, ProviderError>(ProviderError::ProviderUnavailable(ProviderId::Pi))
            }
        }),
{
    let detected = match cache.get(ProviderId::Pi) {
        Some(d) => d,
        None => {
            return Err(ProviderError::ProviderUnavailable(ProviderId::Pi));
        },
    };
    if detected.info.availability != ProviderAvailability::Available {
        return Err(ProviderError::ProviderUnavailable(ProviderId::Pi));
    }
    match &detected.executable {
        Some(e) => Ok(slice_to_vec(e.as_slice())),
        None => Err(ProviderError::ProviderUnavailable(ProviderId::Pi)),
    }
}

/// The environment of the RPC probe: the login environment with Pi's agent
/// directory moved to the probe's own temporary directory.
pub fn isolated_probe_environment(environment: &LoginEnvironment, agent_dir: &[u8]) -> (r: LoginEnvironment)
    ensures
        r@ == environment@.insert(pi_agent_dir_variable(), agent_dir@),
{
    let mut isolated = environment.clone();
    isolated.insert(slice_to_vec("PI_CODING_AGENT_DIR".as_bytes()), slice_to_vec(agent_dir));
    isolated
}

pub open spec fn pi_agent_dir_variable() -> Seq<u8> {
    encode_utf8("PI_CODING_AGENT_DIR"@)
}

/// The answer of a successful RPC probe; the elapsed milliseconds saturate at
/// `u64::MAX`.
pub fn probe_success(elapsed_ms: u128) -> (r: PiRpcProbeResult)
    ensures
        r.provider_id == ProviderId::Pi,
        r.ok,
        r.message@ == "Pi RPC get_state 响应有效，JSONL 未连接到终端视图。"@,
        r.elapsed_ms == if elapsed_ms <= u64::MAX {
            elapsed_ms as u64
        } else {
            u64::MAX
        },
{
    let elapsed: u64 = if elapsed_ms <= u64::MAX as u128 {
        elapsed_ms as u64
    } else {
        u64::MAX
    };
    PiRpcProbeResult {
        provider_id: ProviderId::Pi,
        ok: true,
        message: "Pi RPC get_state 响应有效，JSONL 未连接到终端视图。".to_owned(),
        elapsed_ms: elapsed,
    }
}

} // verus!
