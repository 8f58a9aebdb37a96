use vstd::prelude::*;

use super::workspace::WorkspaceId;
use crate::text::str_eq;

verus! {

/// The agent CLIs Baibo knows how to launch.
#[derive(Clone, Copy, Debug, PartialEq, Eq, Structural, PartialOrd, Ord, Hash)]
pub enum ProviderId {
    Codex,
    Pi,
}

/// The stored text of each value.
pub open spec fn provider_id_text(value: ProviderId) -> Seq<char> {
    match value {
        ProviderId::Codex => "codex"@,
        ProviderId::Pi => "pi"@,
    }
}

impl ProviderId {
    pub fn as_str(self) -> (s: &'static str)
        ensures
            s@ == provider_id_text(self),
    {
        match self {
            ProviderId::Codex => "codex",
            ProviderId::Pi => "pi",
        }
    }
}

/// The provider whose stored text is `text`, if any.
pub open spec fn parse_provider_id_spec(text: Seq<char>) -> Option<ProviderId> {
    if text == "codex"@ {
        Some(ProviderId::Codex)
    } else if text == "pi"@ {
        Some(ProviderId::Pi)
    } else {
        None
    }
}

/// Reads a provider from its stored text.
pub fn parse_provider_id(text: &str) -> (r: Option<ProviderId>)
    ensures
        r == parse_provider_id_spec(text@),
{
    if str_eq(text, "codex") {
        Some(ProviderId::Codex)
    } else if str_eq(text, "pi") {
        Some(ProviderId::Pi)
    } else {
        None
    }
}

/// Parsing the stored text of a provider gives the provider back, and the
/// only text that parses to a provider is its stored text.
pub proof fn lemma_provider_id_text_roundtrip(value: ProviderId, text: Seq<char>)
    ensures
        parse_provider_id_spec(provider_id_text(value)) == Some(value),
        parse_provider_id_spec(text) == Some(value) ==> text == provider_id_text(value),
{
    broadcast use vstd::string::group_string_axioms;

    reveal_strlit("codex");
    reveal_strlit("pi");
    assert("codex"@.len() != "pi"@.len());
}

/// Outcome of detecting a provider in the login environment.
#[derive(Clone, Copy, Debug, PartialEq, Eq, Structural)]
pub enum ProviderAvailability {
    Checking,
    Available,
    Unavailable,
    Unsupported,
    Error,
}

/// How far a provider supports a capability.
#[derive(Clone, Copy, Debug, PartialEq, Eq, Structural)]
pub enum CapabilitySupport {
    Supported,
    Unsupported,
    Experimental,
}

/// The capabilities a provider declares; nothing here is inferred from its name.
#[derive(Clone, Copy, Debug, PartialEq, Eq, Structural)]
pub struct ProviderCapabilities {
    pub interactive_pty: CapabilitySupport,
    pub native_resume: CapabilitySupport,
    pub structured_events: CapabilitySupport,
    pub approvals: CapabilitySupport,
    pub mcp: CapabilitySupport,
    pub rpc: CapabilitySupport,
    pub extensions: CapabilitySupport,
    pub skills: CapabilitySupport,
    pub project_trust: CapabilitySupport,
}

/// A way in which a provider can be launched.
#[derive(Clone, Copy, Debug, PartialEq, Eq, Structural)]
pub enum ProviderLaunchMode {
    InteractivePty,
    Rpc,
}

/// A recoverable explanation of why a provider is not available.
#[derive(Debug)]
pub struct ProviderDiagnostic {
    pub code: String,
    pub message: String,
    pub recovery: Option<String>,
}

impl Clone for ProviderDiagnostic {
    fn clone(&self) -> (r: Self)
        ensures
            r == *self,
    {
        ProviderDiagnostic {
            code: self.code.clone(),
            message: self.message.clone(),
            recovery: super::workspace::clone_opt_string(&self.recovery),
        }
    }
}

/// What Baibo knows about one provider after detection.
#[derive(Debug)]
pub struct ProviderInfo {
    pub id: ProviderId,
    pub display_name: String,
    pub availability: ProviderAvailability,
    pub executable_path: Option<String>,
    pub version: Option<String>,
    pub launch_modes: Vec<ProviderLaunchMode>,
    pub capabilities: ProviderCapabilities,
    pub diagnostic: Option<ProviderDiagnostic>,
}

impl ProviderInfo {
    /// Two records that describe the same provider state.
    pub open spec fn same_as(&self, other: &ProviderInfo) -> bool {
        &&& self.id == other.id
        &&& self.display_name == other.display_name
        &&& self.availability == other.availability
        &&& self.executable_path == other.executable_path
        &&& self.version == other.version
        &&& self.launch_modes@ == other.launch_modes@
        &&& self.capabilities == other.capabilities
        &&& self.diagnostic == other.diagnostic
    }
}

impl Clone for ProviderInfo {
    fn clone(&self) -> (r: Self)
        ensures
            r.same_as(self),
    {
        let mut launch_modes: Vec<ProviderLaunchMode> = Vec::new();
        let mut i: usize = 0;
        while i < self.launch_modes.len()
            invariant
                i <= self.launch_modes@.len(),
                launch_modes@ == self.launch_modes@.take(i as int),
            decreases self.launch_modes@.len() - i,
        {
            launch_modes.push(self.launch_modes[i]);
            i = i + 1;
            assert(launch_modes@ =~= self.launch_modes@.take(i as int));
        }
        assert(launch_modes@ =~= self.launch_modes@);
        ProviderInfo {
            id: self.id,
            display_name: self.display_name.clone(),
            availability: self.availability,
            executable_path: super::workspace::clone_opt_string(&self.executable_path),
            version: super::workspace::clone_opt_string(&self.version),
            launch_modes,
            capabilities: self.capabilities,
            diagnostic: match &self.diagnostic {
                Some(d) => Some(d.clone()),
                None => None,
            },
        }
    }
}

/// Pi's project-trust decision for a workspace, as read from Pi's own files.
#[derive(Clone, Copy, Debug, PartialEq, Eq, Structural)]
pub enum PiProjectTrustState {
    NotRequired,
    Trusted,
    Denied,
    PromptRequired,
    Unknown,
}

#[derive(Clone, Debug)]
pub struct PiProjectTrust {
    pub workspace_id: WorkspaceId,
    pub state: PiProjectTrustState,
    pub message: String,
}

#[derive(Clone, Debug)]
pub struct PiRpcProbeResult {
    pub provider_id: ProviderId,
    pub ok: bool,
    pub message: String,
    pub elapsed_ms: u64,
}

} // verus!
