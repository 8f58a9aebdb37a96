use vstd::prelude::*;

use super::ids::random_uuid_string;
use super::workspace::WorkspaceId;
use crate::text::{join_str, str_eq};

verus! {

/// Identifier of a terminal session.
#[derive(Debug, Hash)]
pub struct TerminalId(String);

impl View for TerminalId {
    type V = Seq<char>;

    closed spec fn view(&self) -> Seq<char> {
        self.0@
    }
}

impl TerminalId {
    /// A fresh random identifier.
    pub fn new() -> (id: Self)
        ensures
            id@.len() == 36,
    {
        TerminalId(random_uuid_string())
    }

    pub fn as_str(&self) -> (s: &str)
        ensures
            s@ == self@,
    {
        self.0.as_str()
    }
}

impl Clone for TerminalId {
    fn clone(&self) -> (r: Self)
        ensures
            r == *self,
    {
        TerminalId(self.0.clone())
    }
}

impl PartialEq for TerminalId {
    fn eq(&self, other: &Self) -> (r: bool) {
        self.0 == other.0
    }
}

impl vstd::std_specs::cmp::PartialEqSpecImpl for TerminalId {
    open spec fn obeys_eq_spec() -> bool {
        true
    }

    open spec fn eq_spec(&self, other: &Self) -> bool {
        self@ == other@
    }
}

impl Eq for TerminalId {

}

impl From<String> for TerminalId {
    fn from(value: String) -> (id: Self)
        ensures
            id@ == value@,
    {
        TerminalId(value)
    }
}

impl vstd::std_specs::convert::FromSpecImpl<String> for TerminalId {
    open spec fn obeys_from_spec() -> bool {
        true
    }

    closed spec fn from_spec(v: String) -> Self {
        TerminalId(v)
    }
}

/// Identifier of one output subscription to a terminal.
#[derive(Debug, Hash)]
pub struct TerminalSubscriptionId(String);

impl View for TerminalSubscriptionId {
    type V = Seq<char>;

    closed spec fn view(&self) -> Seq<char> {
        self.0@
    }
}

impl TerminalSubscriptionId {
    /// A fresh random identifier.
    pub fn new() -> (id: Self)
        ensures
            id@.len() == 36,
    {
        TerminalSubscriptionId(random_uuid_string())
    }

    pub fn as_str(&self) -> (s: &str)
        ensures
            s@ == self@,
    {
        self.0.as_str()
    }
}

impl Clone for TerminalSubscriptionId {
    fn clone(&self) -> (r: Self)
        ensures
            r == *self,
    {
        TerminalSubscriptionId(self.0.clone())
    }
}

impl PartialEq for TerminalSubscriptionId {
    fn eq(&self, other: &Self) -> (r: bool) {
        self.0 == other.0
    }
}

impl vstd::std_specs::cmp::PartialEqSpecImpl for TerminalSubscriptionId {
    open spec fn obeys_eq_spec() -> bool {
        true
    }

    open spec fn eq_spec(&self, other: &Self) -> bool {
        self@ == other@
    }
}

impl Eq for TerminalSubscriptionId {

}

impl From<String> for TerminalSubscriptionId {
    fn from(value: String) -> (id: Self)
        ensures
            id@ == value@,
    {
        TerminalSubscriptionId(value)
    }
}

impl vstd::std_specs::convert::FromSpecImpl<String> for TerminalSubscriptionId {
    open spec fn obeys_from_spec() -> bool {
        true
    }

    closed spec fn from_spec(v: String) -> Self {
        TerminalSubscriptionId(v)
    }
}

/// Lifecycle status of a terminal session.
#[derive(Clone, Copy, Debug, PartialEq, Eq, Structural)]
pub enum TerminalStatus {
    Starting,
    Running,
    Exited,
    Failed,
    Stopped,
    Interrupted,
}

/// The stored text of each value.
pub open spec fn terminal_status_text(value: TerminalStatus) -> Seq<char> {
    match value {
        TerminalStatus::Starting => "starting"@,
        TerminalStatus::Running => "running"@,
        TerminalStatus::Exited => "exited"@,
        TerminalStatus::Failed => "failed"@,
        TerminalStatus::Stopped => "stopped"@,
        TerminalStatus::Interrupted => "interrupted"@,
    }
}

/// The value whose stored text is `text`, if there is one.
pub open spec fn parse_terminal_status(text: Seq<char>) -> Option<TerminalStatus> {
    if text == "starting"@ {
        Some(TerminalStatus::Starting)
    } else if text == "running"@ {
        Some(TerminalStatus::Running)
    } else if text == "exited"@ {
        Some(TerminalStatus::Exited)
    } else if text == "failed"@ {
        Some(TerminalStatus::Failed)
    } else if text == "stopped"@ {
        Some(TerminalStatus::Stopped)
    } else if text == "interrupted"@ {
        Some(TerminalStatus::Interrupted)
    } else {
        None
    }
}

impl TerminalStatus {
    pub fn as_str(self) -> (s: &'static str)
        ensures
            s@ == terminal_status_text(self),
    {
        match self {
            TerminalStatus::Starting => "starting",
            TerminalStatus::Running => "running",
            TerminalStatus::Exited => "exited",
            TerminalStatus::Failed => "failed",
            TerminalStatus::Stopped => "stopped",
            TerminalStatus::Interrupted => "interrupted",
        }
    }
}

impl<'a> TryFrom<&'a str> for TerminalStatus {
    type Error = String;

    /// Parses the stored text; unknown text is reported with the prefix
    /// `"unknown terminal status: "`.
    fn try_from(value: &'a str) -> (r: Result<Self, String>)
        ensures
            r matches Ok(v) ==> parse_terminal_status(value@) == Some(v),
            r matches Err(e) ==> parse_terminal_status(value@) is None && e@ == "unknown terminal status: "@ + value@,
    {
        if str_eq(value, "starting") {
            Ok(TerminalStatus::Starting)
        } else if str_eq(value, "running") {
            Ok(TerminalStatus::Running)
        } else if str_eq(value, "exited") {
            Ok(TerminalStatus::Exited)
        } else if str_eq(value, "failed") {
            Ok(TerminalStatus::Failed)
        } else if str_eq(value, "stopped") {
            Ok(TerminalStatus::Stopped)
        } else if str_eq(value, "interrupted") {
            Ok(TerminalStatus::Interrupted)
        } else {
            Err(join_str("unknown terminal status: ", value))
        }
    }
}

impl<'a> vstd::std_specs::convert::TryFromSpecImpl<&'a str> for TerminalStatus {
    open spec fn obeys_try_from_spec() -> bool {
        false
    }

    open spec fn try_from_spec(v: &'a str) -> Result<Self, String> {
        arbitrary()
    }
}

/// Parsing the stored text of a value gives the value back, and the only
/// text that parses to a value is its stored text.
pub proof fn lemma_terminal_status_text_roundtrip(value: TerminalStatus, text: Seq<char>)
    ensures
        parse_terminal_status(terminal_status_text(value)) == Some(value),
        parse_terminal_status(text) == Some(value) ==> text == terminal_status_text(value),
{
    broadcast use vstd::string::group_string_axioms;

    reveal_strlit("starting");
    reveal_strlit("running");
    reveal_strlit("exited");
    reveal_strlit("failed");
    reveal_strlit("stopped");
    reveal_strlit("interrupted");
    assert("starting"@.len() != "running"@.len());
    assert("starting"@.len() != "exited"@.len());
    assert("starting"@.len() != "failed"@.len());
    assert("starting"@.len() != "stopped"@.len());
    assert("starting"@.len() != "interrupted"@.len());
    assert("running"@.len() != "exited"@.len());
    assert("running"@.len() != "failed"@.len());
    assert("running"@[0] != "stopped"@[0]);
    assert("running"@.len() != "interrupted"@.len());
    assert("exited"@[0] != "failed"@[0]);
    assert("exited"@.len() != "stopped"@.len());
    assert("exited"@.len() != "interrupted"@.len());
    assert("failed"@.len() != "stopped"@.len());
    assert("failed"@.len() != "interrupted"@.len());
    assert("stopped"@.len() != "interrupted"@.len());
}

/// What a terminal session runs.
#[derive(Clone, Copy, Debug, PartialEq, Eq, Structural)]
pub enum SessionKind {
    Shell,
    Agent,
    Legacy,
}

/// The stored text of each value.
pub open spec fn session_kind_text(value: SessionKind) -> Seq<char> {
    match value {
        SessionKind::Shell => "shell"@,
        SessionKind::Agent => "agent"@,
        SessionKind::Legacy => "legacy"@,
    }
}

/// The value whose stored text is `text`, if there is one.
pub open spec fn parse_session_kind(text: Seq<char>) -> Option<SessionKind> {
    if text == "shell"@ {
        Some(SessionKind::Shell)
    } else if text == "agent"@ {
        Some(SessionKind::Agent)
    } else if text == "legacy"@ {
        Some(SessionKind::Legacy)
    } else {
        None
    }
}

impl SessionKind {
    pub fn as_str(self) -> (s: &'static str)
        ensures
            s@ == session_kind_text(self),
    {
        match self {
            SessionKind::Shell => "shell",
            SessionKind::Agent => "agent",
            SessionKind::Legacy => "legacy",
        }
    }
}

impl<'a> TryFrom<&'a str> for SessionKind {
    type Error = String;

    /// Parses the stored text; unknown text is reported with the prefix
    /// `"unknown session kind: "`.
    fn try_from(value: &'a str) -> (r: Result<Self, String>)
        ensures
            r matches Ok(v) ==> parse_session_kind(value@) == Some(v),
            r matches Err(e) ==> parse_session_kind(value@) is None && e@ == "unknown session kind: "@ + value@,
    {
        if str_eq(value, "shell") {
            Ok(SessionKind::Shell)
        } else if str_eq(value, "agent") {
            Ok(SessionKind::Agent)
        } else if str_eq(value, "legacy") {
            Ok(SessionKind::Legacy)
        } else {
            Err(join_str("unknown session kind: ", value))
        }
    }
}

impl<'a> vstd::std_specs::convert::TryFromSpecImpl<&'a str> for SessionKind {
    open spec fn obeys_try_from_spec() -> bool {
        false
    }

    open spec fn try_from_spec(v: &'a str) -> Result<Self, String> {
        arbitrary()
    }
}

/// Parsing the stored text of a value gives the value back, and the only
/// text that parses to a value is its stored text.
pub proof fn lemma_session_kind_text_roundtrip(value: SessionKind, text: Seq<char>)
    ensures
        parse_session_kind(session_kind_text(value)) == Some(value),
        parse_session_kind(text) == Some(value) ==> text == session_kind_text(value),
{
    broadcast use vstd::string::group_string_axioms;

    reveal_strlit("shell");
    reveal_strlit("agent");
    reveal_strlit("legacy");
    assert("shell"@[0] != "agent"@[0]);
    assert("shell"@.len() != "legacy"@.len());
    assert("agent"@.len() != "legacy"@.len());
}

/// Kind of a recorded lifecycle event.
#[derive(Clone, Copy, Debug, PartialEq, Eq, Structural)]
pub enum LifecycleEventKind {
    Created,
    Running,
    Exited,
    Failed,
    Stopped,
    Interrupted,
}

/// The stored text of each value.
pub open spec fn lifecycle_event_kind_text(value: LifecycleEventKind) -> Seq<char> {
    match value {
        LifecycleEventKind::Created => "created"@,
        LifecycleEventKind::Running => "running"@,
        LifecycleEventKind::Exited => "exited"@,
        LifecycleEventKind::Failed => "failed"@,
        LifecycleEventKind::Stopped => "stopped"@,
        LifecycleEventKind::Interrupted => "interrupted"@,
    }
}

/// The value whose stored text is `text`, if there is one.
pub open spec fn parse_lifecycle_event_kind(text: Seq<char>) -> Option<LifecycleEventKind> {
    if text == "created"@ {
        Some(LifecycleEventKind::Created)
    } else if text == "running"@ {
        Some(LifecycleEventKind::Running)
    } else if text == "exited"@ {
        Some(LifecycleEventKind::Exited)
    } else if text == "failed"@ {
        Some(LifecycleEventKind::Failed)
    } else if text == "stopped"@ {
        Some(LifecycleEventKind::Stopped)
    } else if text == "interrupted"@ {
        Some(LifecycleEventKind::Interrupted)
    } else {
        None
    }
}

impl LifecycleEventKind {
    pub fn as_str(self) -> (s: &'static str)
        ensures
            s@ == lifecycle_event_kind_text(self),
    {
        match self {
            LifecycleEventKind::Created => "created",
            LifecycleEventKind::Running => "running",
            LifecycleEventKind::Exited => "exited",
            LifecycleEventKind::Failed => "failed",
            LifecycleEventKind::Stopped => "stopped",
            LifecycleEventKind::Interrupted => "interrupted",
        }
    }
}

impl<'a> TryFrom<&'a str> for LifecycleEventKind {
    type Error = String;

    /// Parses the stored text; unknown text is reported with the prefix
    /// `"unknown lifecycle event kind: "`.
    fn try_from(value: &'a str) -> (r: Result<Self, String>)
        ensures
            r matches Ok(v) ==> parse_lifecycle_event_kind(value@) == Some(v),
            r matches Err(e) ==> parse_lifecycle_event_kind(value@) is None && e@ == "unknown lifecycle event kind: "@ + value@,
    {
        if str_eq(value, "created") {
            Ok(LifecycleEventKind::Created)
        } else if str_eq(value, "running") {
            Ok(LifecycleEventKind::Running)
        } else if str_eq(value, "exited") {
            Ok(LifecycleEventKind::Exited)
        } else if str_eq(value, "failed") {
            Ok(LifecycleEventKind::Failed)
        } else if str_eq(value, "stopped") {
            Ok(LifecycleEventKind::Stopped)
        } else if str_eq(value, "interrupted") {
            Ok(LifecycleEventKind::Interrupted)
        } else {
            Err(join_str("unknown lifecycle event kind: ", value))
        }
    }
}

impl<'a> vstd::std_specs::convert::TryFromSpecImpl<&'a str> for LifecycleEventKind {
    open spec fn obeys_try_from_spec() -> bool {
        false
    }

    open spec fn try_from_spec(v: &'a str) -> Result<Self, String> {
        arbitrary()
    }
}

/// Parsing the stored text of a value gives the value back, and the only
/// text that parses to a value is its stored text.
pub proof fn lemma_lifecycle_event_kind_text_roundtrip(value: LifecycleEventKind, text: Seq<char>)
    ensures
        parse_lifecycle_event_kind(lifecycle_event_kind_text(value)) == Some(value),
        parse_lifecycle_event_kind(text) == Some(value) ==> text == lifecycle_event_kind_text(value),
{
    broadcast use vstd::string::group_string_axioms;

    reveal_strlit("created");
    reveal_strlit("running");
    reveal_strlit("exited");
    reveal_strlit("failed");
    reveal_strlit("stopped");
    reveal_strlit("interrupted");
    assert("created"@[0] != "running"@[0]);
    assert("created"@.len() != "exited"@.len());
    assert("created"@.len() != "failed"@.len());
    assert("created"@[0] != "stopped"@[0]);
    assert("created"@.len() != "interrupted"@.len());
    assert("running"@.len() != "exited"@.len());
    assert("running"@.len() != "failed"@.len());
    assert("running"@[0] != "stopped"@[0]);
    assert("running"@.len() != "interrupted"@.len());
    assert("exited"@[0] != "failed"@[0]);
    assert("exited"@.len() != "stopped"@.len());
    assert("exited"@.len() != "interrupted"@.len());
    assert("failed"@.len() != "stopped"@.len());
    assert("failed"@.len() != "interrupted"@.len());
    assert("stopped"@.len() != "interrupted"@.len());
}

/// How much of a terminal's output the retained log covers.
#[derive(Clone, Copy, Debug, PartialEq, Eq, Structural)]
pub enum TerminalLogCoverage {
    Complete,
    Truncated,
    Unknown,
}

/// The value whose stored text is `text`, if there is one.
pub open spec fn parse_terminal_log_coverage(text: Seq<char>) -> Option<TerminalLogCoverage> {
    if text == "complete"@ {
        Some(TerminalLogCoverage::Complete)
    } else if text == "truncated"@ {
        Some(TerminalLogCoverage::Truncated)
    } else if text == "unknown"@ {
        Some(TerminalLogCoverage::Unknown)
    } else {
        None
    }
}

impl<'a> TryFrom<&'a str> for TerminalLogCoverage {
    type Error = String;

    /// Parses the stored text; unknown text is reported with the prefix
    /// `"unknown terminal log coverage: "`.
    fn try_from(value: &'a str) -> (r: Result<Self, String>)
        ensures
            r matches Ok(v) ==> parse_terminal_log_coverage(value@) == Some(v),
            r matches Err(e) ==> parse_terminal_log_coverage(value@) is None && e@ == "unknown terminal log coverage: "@ + value@,
    {
        if str_eq(value, "complete") {
            Ok(TerminalLogCoverage::Complete)
        } else if str_eq(value, "truncated") {
            Ok(TerminalLogCoverage::Truncated)
        } else if str_eq(value, "unknown") {
            Ok(TerminalLogCoverage::Unknown)
        } else {
            Err(join_str("unknown terminal log coverage: ", value))
        }
    }
}

impl<'a> vstd::std_specs::convert::TryFromSpecImpl<&'a str> for TerminalLogCoverage {
    open spec fn obeys_try_from_spec() -> bool {
        false
    }

    open spec fn try_from_spec(v: &'a str) -> Result<Self, String> {
        arbitrary()
    }
}

/// One terminal session as stored.
#[derive(Debug)]
pub struct TerminalSession {
    pub id: TerminalId,
    pub workspace_id: WorkspaceId,
    pub title: String,
    pub shell: String,
    pub cwd: String,
    pub status: TerminalStatus,
    pub cols: u16,
    pub rows: u16,
    pub created_at: i64,
    pub started_at: Option<i64>,
    pub ended_at: Option<i64>,
    pub exit_code: Option<i32>,
    pub termination_reason: Option<String>,
    pub session_kind: SessionKind,
}

impl Clone for TerminalSession {
    fn clone(&self) -> (r: Self)
        ensures
            r == *self,
    {
        TerminalSession {
            id: self.id.clone(),
            workspace_id: self.workspace_id.clone(),
            title: self.title.clone(),
            shell: self.shell.clone(),
            cwd: self.cwd.clone(),
            status: self.status,
            cols: self.cols,
            rows: self.rows,
            created_at: self.created_at,
            started_at: self.started_at,
            ended_at: self.ended_at,
            exit_code: self.exit_code,
            termination_reason: super::workspace::clone_opt_string(&self.termination_reason),
            session_kind: self.session_kind,
        }
    }
}

/// One recorded change of a session's lifecycle.
#[derive(Clone, Debug)]
pub struct SessionLifecycleEvent {
    pub terminal_id: TerminalId,
    pub sequence: i64,
    pub kind: LifecycleEventKind,
    pub status: TerminalStatus,
    pub occurred_at: i64,
    pub exit_code: Option<i32>,
    pub reason: Option<String>,
}

/// Summary of the retained output log of a terminal.
#[derive(Clone, Debug)]
pub struct TerminalLogIndex {
    pub terminal_id: TerminalId,
    pub first_sequence: Option<i64>,
    pub last_sequence: Option<i64>,
    pub chunk_count: i64,
    pub retained_bytes: i64,
    pub coverage: TerminalLogCoverage,
    pub updated_at: i64,
}

/// What attaching to a terminal hands back.
#[derive(Clone, Debug)]
pub struct TerminalAttachment {
    pub subscription_id: TerminalSubscriptionId,
    pub session: TerminalSession,
}

/// A structured event sent to a terminal subscriber, separate from output bytes.
#[derive(Debug)]
pub enum TerminalEvent {
    SessionUpdated { session: TerminalSession },
    OutputLagged { terminal_id: TerminalId },
}

impl Clone for TerminalEvent {
    fn clone(&self) -> (r: Self)
        ensures
            r == *self,
    {
        match self {
            TerminalEvent::SessionUpdated { session } => TerminalEvent::SessionUpdated {
                session: session.clone(),
            },
            TerminalEvent::OutputLagged { terminal_id } => TerminalEvent::OutputLagged {
                terminal_id: terminal_id.clone(),
            },
        }
    }
}

/// What creating a terminal session stores.
pub struct NewTerminalSession {
    pub id: TerminalId,
    pub workspace_id: WorkspaceId,
    pub title: String,
    pub auto_title: bool,
    pub shell: String,
    pub cwd: String,
    pub cols: u16,
    pub rows: u16,
    pub now: i64,
    pub session_kind: SessionKind,
}

} // verus!
