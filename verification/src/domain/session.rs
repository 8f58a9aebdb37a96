use vstd::prelude::*;

use super::agent::AgentSession;
use super::terminal::{SessionLifecycleEvent, TerminalLogIndex, TerminalSession};

verus! {

/// Everything recorded about one terminal session.
#[derive(Clone, Debug)]
pub struct SessionDetail {
    pub terminal: TerminalSession,
    pub agent_session: Option<AgentSession>,
    pub lifecycle_events: Vec<SessionLifecycleEvent>,
    pub log_index: TerminalLogIndex,
}

} // verus!
