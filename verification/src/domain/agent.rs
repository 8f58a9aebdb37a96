use vstd::prelude::*;

use super::ids::random_uuid_string;
use super::provider::ProviderId;
use super::terminal::TerminalSession;
use super::workspace::WorkspaceId;

verus! {

/// Identifier of an agent session.
#[derive(Debug, Hash)]
pub struct AgentSessionId(String);

impl View for AgentSessionId {
    type V = Seq<char>;

    closed spec fn view(&self) -> Seq<char> {
        self.0@
    }
}

impl AgentSessionId {
    /// A fresh random identifier.
    pub fn new() -> (id: Self)
        ensures
            id@.len() == 36,
    {
        AgentSessionId(random_uuid_string())
    }

    pub fn as_str(&self) -> (s: &str)
        ensures
            s@ == self@,
    {
        self.0.as_str()
    }
}

impl Clone for AgentSessionId {
    fn clone(&self) -> (r: Self)
        ensures
            r == *self,
    {
        AgentSessionId(self.0.clone())
    }
}

impl PartialEq for AgentSessionId {
    fn eq(&self, other: &Self) -> (r: bool) {
        self.0 == other.0
    }
}

impl vstd::std_specs::cmp::PartialEqSpecImpl for AgentSessionId {
    open spec fn obeys_eq_spec() -> bool {
        true
    }

    open spec fn eq_spec(&self, other: &Self) -> bool {
        self@ == other@
    }
}

impl Eq for AgentSessionId {

}

impl From<String> for AgentSessionId {
    fn from(value: String) -> (id: Self)
        ensures
            id@ == value@,
    {
        AgentSessionId(value)
    }
}

impl vstd::std_specs::convert::FromSpecImpl<String> for AgentSessionId {
    open spec fn obeys_from_spec() -> bool {
        true
    }

    closed spec fn from_spec(v: String) -> Self {
        AgentSessionId(v)
    }
}

/// An agent CLI running in a terminal session of a workspace.
#[derive(Debug)]
pub struct AgentSession {
    pub id: AgentSessionId,
    pub workspace_id: WorkspaceId,
    pub provider_id: ProviderId,
    pub provider_session_id: Option<String>,
    pub terminal: TerminalSession,
    pub launch_mode: AgentLaunchMode,
    pub isolation_mode: AgentIsolationMode,
    pub restarted_from_session_id: Option<AgentSessionId>,
    pub created_at: i64,
}

impl Clone for AgentSession {
    fn clone(&self) -> (r: Self)
        ensures
            r == *self,
    {
        AgentSession {
            id: self.id.clone(),
            workspace_id: self.workspace_id.clone(),
            provider_id: self.provider_id,
            provider_session_id: super::workspace::clone_opt_string(&self.provider_session_id),
            terminal: self.terminal.clone(),
            launch_mode: self.launch_mode,
            isolation_mode: self.isolation_mode,
            restarted_from_session_id: match &self.restarted_from_session_id {
                Some(id) => Some(id.clone()),
                None => None,
            },
            created_at: self.created_at,
        }
    }
}

#[derive(Clone, Copy, Debug, PartialEq, Eq, Structural)]
pub enum AgentLaunchMode {
    InteractivePty,
}

#[derive(Clone, Copy, Debug, PartialEq, Eq, Structural)]
pub enum AgentIsolationMode {
    Workspace,
}

/// What was launched for an agent: the absolute executable, its arguments and
/// the provider version seen at detection.
#[derive(Clone, Debug)]
pub struct AgentLaunchSnapshot {
    pub executable_path: Option<String>,
    pub argv: Vec<String>,
    pub provider_version: Option<String>,
}

} // verus!
