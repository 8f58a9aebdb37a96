//! The built-in provider adapters: what Baibo knows about the Codex and Pi
//! CLIs, and how an agent process is launched for each.
use vstd::prelude::*;
use vstd::string::StringSliceAdditionalSpecFns;
use vstd::utf8::encode_utf8;

use crate::domain::agent::AgentSessionId;
use crate::domain::provider::{
    provider_id_text, CapabilitySupport, ProviderCapabilities, ProviderId, ProviderLaunchMode,
};
use crate::domain::workspace::WorkspaceId;
use crate::services::provider::LoginEnvironment;
use crate::services::terminal::LaunchSpec;
use crate::text::{contains_spec, str_contains};
use vstd::slice::slice_to_vec;

verus! {

pub open spec fn display_name_spec(id: ProviderId) -> Seq<char> {
    match id {
        ProviderId::Codex => "Codex"@,
        ProviderId::Pi => "Pi"@,
    }
}

pub open spec fn executable_name_spec(id: ProviderId) -> Seq<char> {
    match id {
        ProviderId::Codex => "codex"@,
        ProviderId::Pi => "pi"@,
    }
}

/// The flags a Pi build must list in its help text to be supported.
pub open spec fn pi_required_flags() -> Seq<Seq<char>> {
    seq!["--mode"@, "rpc"@, "--approve"@, "--no-approve"@, "--offline"@]
}

/// Whether a provider's help text shows the features Baibo relies on. Codex
/// is not checked; Pi must list every required flag.
pub open spec fn help_valid_spec(id: ProviderId, help: Seq<char>) -> bool {
    match id {
        ProviderId::Codex => true,
        ProviderId::Pi => forall|i: int|
            0 <= i < pi_required_flags().len() ==> contains_spec(
                encode_utf8(help),
                encode_utf8(#[trigger] pi_required_flags()[i]),
            ),
    }
}

pub open spec fn capabilities_spec(id: ProviderId) -> ProviderCapabilities {
    match id {
        ProviderId::Codex => ProviderCapabilities {
            interactive_pty: CapabilitySupport::Supported,
            native_resume: CapabilitySupport::Supported,
            structured_events: CapabilitySupport::Experimental,
            approvals: CapabilitySupport::Supported,
            mcp: CapabilitySupport::Supported,
            rpc: CapabilitySupport::Unsupported,
            extensions: CapabilitySupport::Unsupported,
            skills: CapabilitySupport::Supported,
            project_trust: CapabilitySupport::Unsupported,
        },
        ProviderId::Pi => ProviderCapabilities {
            interactive_pty: CapabilitySupport::Supported,
            native_resume: CapabilitySupport::Supported,
            structured_events: CapabilitySupport::Experimental,
            approvals: CapabilitySupport::Supported,
            mcp: CapabilitySupport::Unsupported,
            rpc: CapabilitySupport::Experimental,
            extensions: CapabilitySupport::Supported,
            skills: CapabilitySupport::Supported,
            project_trust: CapabilitySupport::Supported,
        },
    }
}

pub open spec fn launch_modes_spec(id: ProviderId) -> Seq<ProviderLaunchMode> {
    match id {
        ProviderId::Codex => seq![ProviderLaunchMode::InteractivePty],
        ProviderId::Pi => seq![ProviderLaunchMode::InteractivePty, ProviderLaunchMode::Rpc],
    }
}

/// Whether the provider's help is checked before it is reported available.
pub open spec fn checks_help_spec(id: ProviderId) -> bool {
    id == ProviderId::Pi
}

/// The environment variable names Baibo adds for an agent process.
pub open spec fn workspace_id_variable() -> Seq<u8> {
    encode_utf8("BAIBO_WORKSPACE_ID"@)
}

pub open spec fn agent_session_id_variable() -> Seq<u8> {
    encode_utf8("BAIBO_AGENT_SESSION_ID"@)
}

pub open spec fn provider_id_variable() -> Seq<u8> {
    encode_utf8("BAIBO_PROVIDER_ID"@)
}

/// The environment an agent process gets: the login environment plus the
/// workspace, agent-session and provider identifiers.
pub open spec fn agent_environment(
    environment: Map<Seq<u8>, Seq<u8>>,
    id: ProviderId,
    workspace_id: Seq<char>,
    agent_session_id: Seq<char>,
) -> Map<Seq<u8>, Seq<u8>> {
    environment.insert(workspace_id_variable(), encode_utf8(workspace_id)).insert(
        agent_session_id_variable(),
        encode_utf8(agent_session_id),
    ).insert(provider_id_variable(), encode_utf8(provider_id_text(id)))
}

/// A provider CLI that Baibo can detect and launch.
pub trait ProviderAdapter {
    spec fn provider(&self) -> ProviderId;

    fn id(&self) -> (r: ProviderId)
        ensures
            r == self.provider(),
    ;

    fn display_name(&self) -> (r: &'static str)
        ensures
            r@ == display_name_spec(self.provider()),
    ;

    fn executable_name(&self) -> (r: &'static str)
        ensures
            r@ == executable_name_spec(self.provider()),
    ;

    /// The arguments that print the version.
    fn version_args(&self) -> (r: Vec<&'static str>)
        ensures
            r@.len() == 1 && r@[0]@ == "--version"@,
    ;

    /// The arguments that print the help text, when the help is checked.
    fn help_args(&self) -> (r: Option<Vec<&'static str>>)
        ensures
            checks_help_spec(self.provider()) ==> (r matches Some(args) && args@.len() == 1
                && args@[0]@ == "--help"@),
            !checks_help_spec(self.provider()) ==> r is None,
    ;

    fn validate_help(&self, help: &str) -> (r: bool)
        ensures
            r == help_valid_spec(self.provider(), help@),
    ;

    fn capabilities(&self) -> (r: ProviderCapabilities)
        ensures
            r == capabilities_spec(self.provider()),
    ;

    fn supported_launch_modes(&self) -> (r: Vec<ProviderLaunchMode>)
        ensures
            r@ == launch_modes_spec(self.provider()),
    ;

    /// The launch of an agent: the executable itself with no arguments, in
    /// the workspace directory, with the login environment and Baibo's
    /// identifiers.
    fn build_launch_spec(
        &self,
        executable: &[u8],
        environment: &LoginEnvironment,
        cwd: &str,
        workspace_id: &WorkspaceId,
        agent_session_id: &AgentSessionId,
    ) -> (r: LaunchSpec)
        ensures
            r.executable@ == executable@,
            r.argv@.len() == 0,
            r.cwd@ == cwd@,
            r.environment matches Some(env) && env@ == agent_environment(
                environment@,
                self.provider(),
                workspace_id@,
                agent_session_id@,
            ),
    {
        let mut env = environment.clone();
        env.insert(
            slice_to_vec("BAIBO_WORKSPACE_ID".as_bytes()),
            slice_to_vec(workspace_id.as_str().as_bytes()),
        );
        env.insert(
            slice_to_vec("BAIBO_AGENT_SESSION_ID".as_bytes()),
            slice_to_vec(agent_session_id.as_str().as_bytes()),
        );
        env.insert(
            slice_to_vec("BAIBO_PROVIDER_ID".as_bytes()),
            slice_to_vec(self.id().as_str().as_bytes()),
        );
        LaunchSpec {
            executable: slice_to_vec(executable),
            argv: Vec::new(),
            cwd: cwd.to_owned(),
            environment: Some(env),
        }
    }
}

pub struct CodexAdapter;

impl ProviderAdapter for CodexAdapter {
    open spec fn provider(&self) -> ProviderId {
        ProviderId::Codex
    }

    fn id(&self) -> (r: ProviderId) {
        ProviderId::Codex
    }

    fn display_name(&self) -> (r: &'static str) {
        "Codex"
    }

    fn executable_name(&self) -> (r: &'static str) {
        "codex"
    }

    fn version_args(&self) -> (r: Vec<&'static str>) {
        vec!["--version"]
    }

    fn help_args(&self) -> (r: Option<Vec<&'static str>>) {
        None
    }

    fn validate_help(&self, help: &str) -> (r: bool) {
        true
    }

    fn capabilities(&self) -> (r: ProviderCapabilities) {
        ProviderCapabilities {
            interactive_pty: CapabilitySupport::Supported,
            native_resume: CapabilitySupport::Supported,
            structured_events: CapabilitySupport::Experimental,
            approvals: CapabilitySupport::Supported,
            mcp: CapabilitySupport::Supported,
            rpc: CapabilitySupport::Unsupported,
            extensions: CapabilitySupport::Unsupported,
            skills: CapabilitySupport::Supported,
            project_trust: CapabilitySupport::Unsupported,
        }
    }

    fn supported_launch_modes(&self) -> (r: Vec<ProviderLaunchMode>) {
        let r = vec![ProviderLaunchMode::InteractivePty];
        assert(r@ =~= launch_modes_spec(ProviderId::Codex));
        r
    }
}

pub struct PiAdapter;

impl ProviderAdapter for PiAdapter {
    open spec fn provider(&self) -> ProviderId {
        ProviderId::Pi
    }

    fn id(&self) -> (r: ProviderId) {
        ProviderId::Pi
    }

    fn display_name(&self) -> (r: &'static str) {
        "Pi"
    }

    fn executable_name(&self) -> (r: &'static str) {
        "pi"
    }

    fn version_args(&self) -> (r: Vec<&'static str>) {
        vec!["--version"]
    }

    fn help_args(&self) -> (r: Option<Vec<&'static str>>) {
        Some(vec!["--help"])
    }

    fn validate_help(&self, help: &str) -> (r: bool) {
        let flags = vec!["--mode", "rpc", "--approve", "--no-approve", "--offline"];
        let mut i: usize = 0;
        while i < flags.len()
            invariant
                flags@.len() == 5,
                forall|k: int| 0 <= k < 5 ==> (#[trigger] flags@[k])@ == pi_required_flags()[k],
                i <= 5,
                forall|k: int|
                    0 <= k < i ==> contains_spec(
                        encode_utf8(help@),
                        encode_utf8(#[trigger] pi_required_flags()[k]),
                    ),
            decreases 5 - i,
        {
            if !str_contains(help, flags[i]) {
                return false;
            }
            i = i + 1;
        }
        true
    }

    fn capabilities(&self) -> (r: ProviderCapabilities) {
        ProviderCapabilities {
            interactive_pty: CapabilitySupport::Supported,
            native_resume: CapabilitySupport::Supported,
            structured_events: CapabilitySupport::Experimental,
            approvals: CapabilitySupport::Supported,
            mcp: CapabilitySupport::Unsupported,
            rpc: CapabilitySupport::Experimental,
            extensions: CapabilitySupport::Supported,
            skills: CapabilitySupport::Supported,
            project_trust: CapabilitySupport::Supported,
        }
    }

    fn supported_launch_modes(&self) -> (r: Vec<ProviderLaunchMode>) {
        let r = vec![ProviderLaunchMode::InteractivePty, ProviderLaunchMode::Rpc];
        assert(r@ =~= launch_modes_spec(ProviderId::Pi));
        r
    }
}

/// One of the built-in adapters.
pub enum BuiltinAdapter {
    Codex(CodexAdapter),
    Pi(PiAdapter),
}

impl ProviderAdapter for BuiltinAdapter {
    open spec fn provider(&self) -> ProviderId {
        match self {
            BuiltinAdapter::Codex(_) => ProviderId::Codex,
            BuiltinAdapter::Pi(_) => ProviderId::Pi,
        }
    }

    fn id(&self) -> (r: ProviderId) {
        match self {
            BuiltinAdapter::Codex(a) => a.id(),
            BuiltinAdapter::Pi(a) => a.id(),
        }
    }

    fn display_name(&self) -> (r: &'static str) {
        match self {
            BuiltinAdapter::Codex(a) => a.display_name(),
            BuiltinAdapter::Pi(a) => a.display_name(),
        }
    }

    fn executable_name(&self) -> (r: &'static str) {
        match self {
            BuiltinAdapter::Codex(a) => a.executable_name(),
            BuiltinAdapter::Pi(a) => a.executable_name(),
        }
    }

    fn version_args(&self) -> (r: Vec<&'static str>) {
        match self {
            BuiltinAdapter::Codex(a) => a.version_args(),
            BuiltinAdapter::Pi(a) => a.version_args(),
        }
    }

    fn help_args(&self) -> (r: Option<Vec<&'static str>>) {
        match self {
            BuiltinAdapter::Codex(a) => a.help_args(),
            BuiltinAdapter::Pi(a) => a.help_args(),
        }
    }

    fn validate_help(&self, help: &str) -> (r: bool) {
        match self {
            BuiltinAdapter::Codex(a) => a.validate_help(help),
            BuiltinAdapter::Pi(a) => a.validate_help(help),
        }
    }

    fn capabilities(&self) -> (r: ProviderCapabilities) {
        match self {
            BuiltinAdapter::Codex(a) => a.capabilities(),
            BuiltinAdapter::Pi(a) => a.capabilities(),
        }
    }

    fn supported_launch_modes(&self) -> (r: Vec<ProviderLaunchMode>) {
        match self {
            BuiltinAdapter::Codex(a) => a.supported_launch_modes(),
            BuiltinAdapter::Pi(a) => a.supported_launch_modes(),
        }
    }
}

/// The adapter of a provider.
pub fn adapter(provider_id: ProviderId) -> (r: BuiltinAdapter)
    ensures
        r.provider() == provider_id,
{
    match provider_id {
        ProviderId::Codex => BuiltinAdapter::Codex(CodexAdapter),
        ProviderId::Pi => BuiltinAdapter::Pi(PiAdapter),
    }
}

/// Every built-in adapter, in provider order.
pub fn adapters() -> (r: Vec<BuiltinAdapter>)
    ensures
        r@.len() == 2,
        r@[0].provider() == ProviderId::Codex,
        r@[1].provider() == ProviderId::Pi,
{
    vec![BuiltinAdapter::Codex(CodexAdapter), BuiltinAdapter::Pi(PiAdapter)]
}

} // verus!
