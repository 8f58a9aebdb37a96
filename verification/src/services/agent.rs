//! Agent sessions: the store of sessions per workspace, how they are listed
//! and titled, and the errors of agent operations.
use vstd::prelude::*;
use vstd::utf8::encode_utf8;

use crate::domain::agent::{AgentIsolationMode, AgentLaunchMode, AgentSession, AgentSessionId};
use crate::domain::provider::ProviderId;
use crate::domain::terminal::{TerminalSession, TerminalStatus};
use crate::domain::workspace::WorkspaceId;
use crate::persistence::order::{bytes_lt, lemma_bytes_lt_irreflexive, lemma_bytes_lt_transitive, str_bytes_lt};
use crate::persistence::terminal_records::{is_live, is_live_status};
use crate::services::provider::{provider_error_code, provider_error_message, ProviderError};
use crate::services::terminal::{terminal_error_code, terminal_error_message, TerminalError};
use crate::text::{decimal_spec, decimal_text, join_str};

verus! {

broadcast use vstd::seq_lib::group_to_multiset_ensures;

/// Errors of agent operations.
#[derive(Debug)]
pub enum AgentError {
    Internal,
    NotFound(AgentSessionId),
    StillRunning,
    Provider(ProviderError),
    Terminal(TerminalError),
}

pub open spec fn agent_error_code(error: AgentError) -> Seq<char> {
    match error {
        AgentError::Internal => "agent_internal"@,
        AgentError::NotFound(_) => "agent_session_not_found"@,
        AgentError::StillRunning => "agent_session_still_running"@,
        AgentError::Provider(e) => provider_error_code(e),
        AgentError::Terminal(e) => terminal_error_code(e),
    }
}

pub open spec fn agent_error_message(error: AgentError) -> Seq<char> {
    match error {
        AgentError::Internal => "Agent 会话内部状态不可用"@,
        AgentError::NotFound(id) => "未找到 Agent 会话 "@ + id@,
        AgentError::StillRunning => "运行中的 Agent 会话不能重新开始"@,
        AgentError::Provider(e) => provider_error_message(e),
        AgentError::Terminal(e) => terminal_error_message(e),
    }
}

impl AgentError {
    /// The stable code reported to the user interface.
    pub fn code(&self) -> (code: &'static str)
        ensures
            code@ == agent_error_code(*self),
    {
        match self {
            AgentError::Internal => "agent_internal",
            AgentError::NotFound(_) => "agent_session_not_found",
            AgentError::StillRunning => "agent_session_still_running",
            AgentError::Provider(e) => e.code(),
            AgentError::Terminal(e) => e.code(),
        }
    }

    /// The message shown to the user.
    pub fn message(&self) -> (message: String)
        ensures
            message@ == agent_error_message(*self),
    {
        match self {
            AgentError::Internal => "Agent 会话内部状态不可用".to_owned(),
            AgentError::NotFound(id) => join_str("未找到 Agent 会话 ", id.as_str()),
            AgentError::StillRunning => "运行中的 Agent 会话不能重新开始".to_owned(),
            AgentError::Provider(e) => e.message(),
            AgentError::Terminal(e) => e.message(),
        }
    }

    pub fn not_found(id: &AgentSessionId) -> (r: Self)
        ensures
            r matches AgentError::NotFound(x) && x@ == id@,
    {
        AgentError::NotFound(id.clone())
    }

    pub fn from_provider(error: ProviderError) -> (r: Self)
        ensures
            r == AgentError::Provider(error),
    {
        AgentError::Provider(error)
    }

    pub fn from_terminal(error: TerminalError) -> (r: Self)
        ensures
            r == AgentError::Terminal(error),
    {
        AgentError::Terminal(error)
    }
}

/// The agent sessions of all workspaces, each stored once under its id.
pub struct AgentSessionStore {
    sessions: Vec<AgentSession>,
}

/// The sessions of a sequence, keyed by id.
pub open spec fn sessions_by_id(sessions: Seq<AgentSession>) -> Map<Seq<char>, AgentSession>
    decreases sessions.len(),
{
    if sessions.len() == 0 {
        Map::empty()
    } else {
        sessions_by_id(sessions.drop_last()).insert(sessions.last().id@, sessions.last())
    }
}

/// No id occurs twice.
pub open spec fn unique_ids(sessions: Seq<AgentSession>) -> bool {
    forall|i: int, j: int|
        0 <= i < sessions.len() && 0 <= j < sessions.len() && i != j ==> (#[trigger] sessions[i]).id@
            != (#[trigger] sessions[j]).id@
}

/// With unique ids, the map holds exactly the stored sessions.
pub proof fn lemma_sessions_by_id(sessions: Seq<AgentSession>)
    requires
        unique_ids(sessions),
    ensures
        forall|i: int|
            0 <= i < sessions.len() ==> sessions_by_id(sessions).contains_key(
                (#[trigger] sessions[i]).id@,
            ) && sessions_by_id(sessions)[sessions[i].id@] == sessions[i],
        forall|id: Seq<char>|
            #[trigger] sessions_by_id(sessions).contains_key(id) ==> exists|i: int|
                0 <= i < sessions.len() && (#[trigger] sessions[i]).id@ == id,
    decreases sessions.len(),
{
    if sessions.len() > 0 {
        let rest = sessions.drop_last();
        assert(unique_ids(rest)) by {
            assert forall|i: int, j: int|
                0 <= i < rest.len() && 0 <= j < rest.len() && i != j implies (#[trigger] rest[i]).id@
                != (#[trigger] rest[j]).id@ by {
                assert(rest[i] == sessions[i] && rest[j] == sessions[j]);
            }
        }
        lemma_sessions_by_id(rest);
        let last = sessions.last();
        assert forall|i: int| 0 <= i < sessions.len() implies sessions_by_id(sessions).contains_key(
            (#[trigger] sessions[i]).id@,
        ) && sessions_by_id(sessions)[sessions[i].id@] == sessions[i] by {
            if i < sessions.len() - 1 {
                assert(rest[i] == sessions[i]);
                assert(sessions[i].id@ != sessions[sessions.len() - 1].id@);
            }
        }
        assert forall|id: Seq<char>| #[trigger] sessions_by_id(sessions).contains_key(id) implies exists|
            i: int,
        | 0 <= i < sessions.len() && (#[trigger] sessions[i]).id@ == id by {
            if id == last.id@ {
                assert(sessions[sessions.len() - 1].id@ == id);
            } else {
                assert(sessions_by_id(rest).contains_key(id));
                let k = choose|k: int| 0 <= k < rest.len() && (#[trigger] rest[k]).id@ == id;
                assert(sessions[k] == rest[k]);
            }
        }
    }
}

/// `a` is listed before `b`: the newer first, then by id, byte by byte.
pub open spec fn session_listed_before(a: AgentSession, b: AgentSession) -> bool {
    ||| a.created_at > b.created_at
    ||| (a.created_at == b.created_at && bytes_lt(encode_utf8(a.id@), encode_utf8(b.id@)))
}

pub proof fn lemma_session_listed_before_irreflexive(a: AgentSession)
    ensures
        !session_listed_before(a, a),
{
    lemma_bytes_lt_irreflexive(encode_utf8(a.id@));
}

pub proof fn lemma_session_listed_before_transitive(a: AgentSession, b: AgentSession, c: AgentSession)
    requires
        session_listed_before(a, b),
        session_listed_before(b, c),
    ensures
        session_listed_before(a, c),
{
    if a.created_at == b.created_at && b.created_at == c.created_at {
        lemma_bytes_lt_transitive(encode_utf8(a.id@), encode_utf8(b.id@), encode_utf8(c.id@));
    }
}

pub fn session_listed_before_exec(a: &AgentSession, b: &AgentSession) -> (r: bool)
    ensures
        r == session_listed_before(*a, *b),
{
    if a.created_at != b.created_at {
        a.created_at > b.created_at
    } else {
        str_bytes_lt(a.id.as_str(), b.id.as_str())
    }
}

/// No session of `s` is listed before one that precedes it.
pub open spec fn sessions_in_order(s: Seq<AgentSession>) -> bool {
    forall|i: int, j: int|
        0 <= i < j < s.len() ==> !session_listed_before(#[trigger] s[j], #[trigger] s[i])
}

/// The sessions of workspace `workspace_id`, in store order.
pub open spec fn sessions_of(sessions: Seq<AgentSession>, workspace_id: Seq<char>) -> Seq<AgentSession> {
    sessions.filter(|s: AgentSession| s.workspace_id@ == workspace_id)
}

/// Whether a session of workspace `workspace_id` with id `id` is stored.
pub open spec fn has_scoped(
    sessions: Map<Seq<char>, AgentSession>,
    workspace_id: Seq<char>,
    id: Seq<char>,
) -> bool {
    sessions.contains_key(id) && sessions[id].workspace_id@ == workspace_id
}

impl AgentSessionStore {
    pub closed spec fn entries(&self) -> Seq<AgentSession> {
        self.sessions@
    }

    /// The stored sessions by id.
    pub open spec fn sessions(&self) -> Map<Seq<char>, AgentSession> {
        sessions_by_id(self.entries())
    }

    /// No id is stored twice.
    #[verifier::type_invariant]
    closed spec fn inv(&self) -> bool {
        unique_ids(self.sessions@)
    }

    pub fn new() -> (r: Self)
        ensures
            r.entries().len() == 0,
            r.sessions() == Map::<Seq<char>, AgentSession>::empty(),
    {
        AgentSessionStore { sessions: Vec::new() }
    }

    fn position(&self, id: &AgentSessionId) -> (r: Option<usize>)
        ensures
            match r {
                Some(k) => k < self.entries().len() && self.entries()[k as int].id@ == id@,
                None => forall|k: int|
                    0 <= k < self.entries().len() ==> (#[trigger] self.entries()[k]).id@ != id@,
            },
    {
        let mut k: usize = 0;
        while k < self.sessions.len()
            invariant
                k <= self.sessions@.len(),
                forall|m: int| 0 <= m < k ==> (#[trigger] self.sessions@[m]).id@ != id@,
            decreases self.sessions@.len() - k,
        {
            if self.sessions[k].id == *id {
                return Some(k);
            }
            k = k + 1;
        }
        None
    }

    /// Stores `session`, replacing the stored session with the same id.
    pub fn insert(&mut self, session: AgentSession)
        ensures
            final(self).sessions() == old(self).sessions().insert(session.id@, session),
    {
        proof {
            use_type_invariant(&*self);
        }
        let ghost before = self.sessions@;
        let ghost value = session;
        proof {
            lemma_sessions_by_id(before);
        }
        let position = self.position(&session.id);
        let mut sessions: Vec<AgentSession> = Vec::new();
        std::mem::swap(&mut sessions, &mut self.sessions);
        match position {
            Some(k) => {
                sessions.set(k, session);
                proof {
                    assert forall|i: int, j: int|
                        0 <= i < sessions@.len() && 0 <= j < sessions@.len() && i != j
                        implies (#[trigger] sessions@[i]).id@ != (#[trigger] sessions@[j]).id@ by {
                        if i != k && j != k {
                            assert(sessions@[i] == before[i] && sessions@[j] == before[j]);
                        } else if i == k {
                            assert(sessions@[j] == before[j]);
                        } else {
                            assert(sessions@[i] == before[i]);
                        }
                    }
                    lemma_sessions_by_id(sessions@);
                    let after = sessions_by_id(sessions@);
                    let expected = sessions_by_id(before).insert(value.id@, value);
                    assert forall|id: Seq<char>| #[trigger] after.contains_key(id) implies expected.contains_key(
                        id,
                    ) by {
                        let i = choose|i: int|
                            0 <= i < sessions@.len() && (#[trigger] sessions@[i]).id@ == id;
                        if i != k {
                            assert(sessions@[i] == before[i]);
                        }
                    }
                    assert forall|id: Seq<char>| #[trigger] expected.contains_key(id) implies after.contains_key(
                        id,
                    ) && after[id] == expected[id] by {
                        if id != value.id@ {
                            let i = choose|i: int| 0 <= i < before.len() && (#[trigger] before[i]).id@ == id;
                            assert(sessions@[i] == before[i]);
                        } else {
                            assert(sessions@[k as int] == value);
                        }
                    }
                    assert(after =~= expected);
                }
            },
            None => {
                sessions.push(session);
                proof {
                    assert(sessions@.drop_last() =~= before);
                    assert forall|i: int, j: int|
                        0 <= i < sessions@.len() && 0 <= j < sessions@.len() && i != j
                        implies (#[trigger] sessions@[i]).id@ != (#[trigger] sessions@[j]).id@ by {
                        if i < before.len() && j < before.len() {
                            assert(sessions@[i] == before[i] && sessions@[j] == before[j]);
                        } else if i < before.len() {
                            assert(sessions@[i] == before[i]);
                        } else {
                            assert(sessions@[j] == before[j]);
                        }
                    }
                }
            },
        }
        self.sessions = sessions;
    }

    /// The session `id` of workspace `workspace_id`. A session of another
    /// workspace is not found, as if it did not exist.
    pub fn scoped(&self, workspace_id: &WorkspaceId, id: &AgentSessionId) -> (r: Result<
        AgentSession,
        AgentError,
    >)
        ensures
            has_scoped(self.sessions(), workspace_id@, id@) ==> r == Ok::<
                AgentSession,
                AgentError,
            >(self.sessions()[id@]),
            !has_scoped(self.sessions(), workspace_id@, id@) ==> (r matches Err(
                AgentError::NotFound(x),
            ) && x@ == id@),
    {
        proof {
            use_type_invariant(self);
            lemma_sessions_by_id(self.sessions@);
        }
        match self.position(id) {
            Some(k) => {
                if self.sessions[k].workspace_id == *workspace_id {
                    Ok(self.sessions[k].clone())
                } else {
                    Err(AgentError::not_found(id))
                }
            },
            None => {
                proof {
                    if self.sessions().contains_key(id@) {
                        let i = choose|i: int|
                            0 <= i < self.sessions@.len() && (#[trigger] self.sessions@[i]).id@ == id@;
                    }
                }
                Err(AgentError::not_found(id))
            },
        }
    }

    /// Removes session `id`; the removed session is returned, `None` when no
    /// session has that id.
    pub fn remove(&mut self, id: &AgentSessionId) -> (r: Option<AgentSession>)
        ensures
            final(self).sessions() == old(self).sessions().remove(id@),
            old(self).sessions().contains_key(id@) ==> r == Some(old(self).sessions()[id@]),
            !old(self).sessions().contains_key(id@) ==> r is None,
    {
        proof {
            use_type_invariant(&*self);
        }
        let ghost before = self.sessions@;
        proof {
            lemma_sessions_by_id(before);
        }
        match self.position(id) {
            Some(k) => {
                let mut sessions: Vec<AgentSession> = Vec::new();
                std::mem::swap(&mut sessions, &mut self.sessions);
                let removed = sessions.remove(k);
                proof {
                    assert(sessions@ =~= before.remove(k as int));
                    assert forall|i: int, j: int|
                        0 <= i < sessions@.len() && 0 <= j < sessions@.len() && i != j
                        implies (#[trigger] sessions@[i]).id@ != (#[trigger] sessions@[j]).id@ by {
                        let bi = if i < k { i } else { i + 1 };
                        let bj = if j < k { j } else { j + 1 };
                        assert(sessions@[i] == before[bi] && sessions@[j] == before[bj]);
                    }
                    lemma_sessions_by_id(sessions@);
                    let after = sessions_by_id(sessions@);
                    assert forall|key: Seq<char>| #[trigger] after.contains_key(key)
                        implies sessions_by_id(before).remove(id@).contains_key(key)
                        && after[key] == sessions_by_id(before)[key] by {
                        let i = choose|i: int|
                            0 <= i < sessions@.len() && (#[trigger] sessions@[i]).id@ == key;
                        let bi = if i < k { i } else { i + 1 };
                        assert(sessions@[i] == before[bi]);
                    }
                    assert forall|key: Seq<char>|
                        #[trigger] sessions_by_id(before).remove(id@).contains_key(key)
                        implies after.contains_key(key) by {
                        let i = choose|i: int| 0 <= i < before.len() && (#[trigger] before[i]).id@ == key;
                        assert(i != k);
                        let si = if i < k { i } else { i - 1 };
                        assert(sessions@[si] == before[i]);
                    }
                    assert(after =~= sessions_by_id(before).remove(id@));
                }
                self.sessions = sessions;
                Some(removed)
            },
            None => {
                proof {
                    if sessions_by_id(before).contains_key(id@) {
                        let i = choose|i: int| 0 <= i < before.len() && (#[trigger] before[i]).id@ == id@;
                    }
                    assert(sessions_by_id(before).remove(id@) =~= sessions_by_id(before));
                }
                None
            },
        }
    }

    /// Removes every session of workspace `workspace_id`; the others stay.
    pub fn remove_workspace(&mut self, workspace_id: &WorkspaceId)
        ensures
            final(self).sessions() == old(self).sessions().restrict(
                old(self).sessions().dom().filter(
                    |id: Seq<char>| old(self).sessions()[id].workspace_id@ != workspace_id@,
                ),
            ),
    {
        proof {
            use_type_invariant(&*self);
        }
        let ghost before = self.sessions@;
        let ghost f = |s: AgentSession| s.workspace_id@ != workspace_id@;
        let mut kept: Vec<AgentSession> = Vec::new();
        let mut k: usize = 0;
        while k < self.sessions.len()
            invariant
                k <= self.sessions@.len(),
                self.sessions@ == before,
                unique_ids(before),
                unique_ids(kept@),
                f == (|s: AgentSession| s.workspace_id@ != workspace_id@),
                kept@ == before.take(k as int).filter(f),
            decreases self.sessions@.len() - k,
        {
            assert(before.take(k + 1).drop_last() =~= before.take(k as int));
            reveal_with_fuel(Seq::filter, 1);
            if self.sessions[k].workspace_id != *workspace_id {
                let s = self.sessions[k].clone();
                proof {
                    let prior = before.take(k as int);
                    assert forall|m: int| 0 <= m < kept@.len() implies (#[trigger] kept@[m]).id@
                        != s.id@ by {
                        assert(prior.filter(f)[m] == kept@[m]);
                        assert(prior.filter(f).contains(kept@[m]));
                        prior.lemma_filter_contains_rev(f, kept@[m]);
                        let i = choose|i: int| 0 <= i < prior.len() && prior[i] == kept@[m];
                        assert(before[i] == prior[i]);
                        assert(before[k as int] == s);
                    }
                    assert forall|a: int, b: int|
                        0 <= a < kept@.push(s).len() && 0 <= b < kept@.push(s).len() && a != b
                        implies (#[trigger] kept@.push(s)[a]).id@ != (#[trigger] kept@.push(s)[b]).id@ by {
                        if a < kept@.len() && b < kept@.len() {
                            assert(kept@.push(s)[a] == kept@[a] && kept@.push(s)[b] == kept@[b]);
                        } else if a < kept@.len() {
                            assert(kept@.push(s)[a] == kept@[a]);
                        } else {
                            assert(kept@.push(s)[b] == kept@[b]);
                        }
                    }
                }
                kept.push(s);
            }
            k = k + 1;
        }
        assert(before.take(before.len() as int) =~= before);
        self.sessions = kept;
        proof {
            lemma_sessions_by_id(before);
            lemma_sessions_by_id(self.sessions@);
            let old_map = sessions_by_id(before);
            let expected = old_map.restrict(
                old_map.dom().filter(|id: Seq<char>| old_map[id].workspace_id@ != workspace_id@),
            );
            assert forall|key: Seq<char>| #[trigger] self.sessions().contains_key(key) implies expected.contains_key(
                key,
            ) && self.sessions()[key] == expected[key] by {
                let i = choose|i: int|
                    0 <= i < self.sessions@.len() && (#[trigger] self.sessions@[i]).id@ == key;
                let x = self.sessions@[i];
                assert(before.filter(f)[i] == x);
                assert(before.filter(f).contains(x));
                before.lemma_filter_contains_rev(f, x);
                before.lemma_filter_pred(f, i);
                let j = choose|j: int| 0 <= j < before.len() && before[j] == x;
                assert(old_map[before[j].id@] == before[j]);
            }
            assert forall|key: Seq<char>| #[trigger] expected.contains_key(key) implies self.sessions().contains_key(
                key,
            ) by {
                let j = choose|j: int| 0 <= j < before.len() && (#[trigger] before[j]).id@ == key;
                assert(old_map[key] == before[j]);
                before.lemma_filter_contains(f, j);
                let i = choose|i: int| 0 <= i < before.filter(f).len() && before.filter(f)[i] == before[j];
                assert(self.sessions@[i] == before[j]);
            }
            assert(self.sessions() =~= expected);
        }
    }

    /// The sessions of workspace `workspace_id`, newest first, then by id.
    pub fn list(&self, workspace_id: &WorkspaceId) -> (r: Vec<AgentSession>)
        ensures
            sessions_in_order(r@),
            r@.to_multiset() == sessions_of(self.entries(), workspace_id@).to_multiset(),
            forall|s: AgentSession|
                r@.contains(s) <==> has_scoped(self.sessions(), workspace_id@, s.id@)
                    && self.sessions()[s.id@] == s,
    {
        proof {
            use_type_invariant(self);
        }
        let n = self.sessions.len();
        let mut sorted: Vec<AgentSession> = Vec::new();
        let mut i: usize = 0;
        while i < n
            invariant
                n == self.sessions@.len(),
                i <= n,
                sessions_in_order(sorted@),
                sorted@.to_multiset() == sessions_of(self.sessions@.take(i as int), workspace_id@).to_multiset(),
            decreases n - i,
        {
            assert(self.sessions@.take(i + 1).drop_last() =~= self.sessions@.take(i as int));
            reveal_with_fuel(Seq::filter, 1);
            if self.sessions[i].workspace_id == *workspace_id {
                let s = self.sessions[i].clone();
                let mut k: usize = 0;
                while k < sorted.len() && !session_listed_before_exec(&s, &sorted[k])
                    invariant
                        k <= sorted@.len(),
                        forall|m: int| 0 <= m < k ==> !session_listed_before(s, #[trigger] sorted@[m]),
                    decreases sorted@.len() - k,
                {
                    k = k + 1;
                }
                let ghost before = sorted@;
                sorted.insert(k, s);
                proof {
                    assert(sorted@ == before.insert(k as int, s));
                    assert forall|a: int, b: int| 0 <= a < b < sorted@.len() implies !session_listed_before(
                        #[trigger] sorted@[b],
                        #[trigger] sorted@[a],
                    ) by {
                        if b < k {
                            assert(sorted@[a] == before[a] && sorted@[b] == before[b]);
                        } else if b == k {
                            assert(sorted@[a] == before[a]);
                        } else if a == k {
                            assert(sorted@[b] == before[b - 1]);
                            assert(session_listed_before(s, before[k as int]));
                            if session_listed_before(before[b - 1], s) {
                                lemma_session_listed_before_transitive(before[b - 1], s, before[k as int]);
                                if b - 1 > k {
                                    assert(!session_listed_before(before[b - 1], before[k as int]));
                                } else {
                                    lemma_session_listed_before_irreflexive(before[k as int]);
                                }
                            }
                        } else if a < k {
                            assert(sorted@[a] == before[a] && sorted@[b] == before[b - 1]);
                        } else {
                            assert(sorted@[a] == before[a - 1] && sorted@[b] == before[b - 1]);
                        }
                    }
                }
            }
            i = i + 1;
        }
        assert(self.sessions@.take(n as int) =~= self.sessions@);
        proof {
            let all = self.sessions@;
            let f = |s: AgentSession| s.workspace_id@ == workspace_id@;
            lemma_sessions_by_id(all);
            assert(sessions_of(all, workspace_id@) == all.filter(f));
            assert forall|s: AgentSession|
                sorted@.contains(s) <==> has_scoped(self.sessions(), workspace_id@, s.id@)
                    && self.sessions()[s.id@] == s by {
                if sorted@.contains(s) {
                    assert(sorted@.to_multiset().count(s) > 0);
                    assert(all.filter(f).to_multiset().count(s) > 0);
                    assert(all.filter(f).contains(s));
                    all.lemma_filter_contains_rev(f, s);
                    let i = choose|i: int| 0 <= i < all.filter(f).len() && all.filter(f)[i] == s;
                    all.lemma_filter_pred(f, i);
                    let j = choose|j: int| 0 <= j < all.len() && all[j] == s;
                    assert(self.sessions()[all[j].id@] == all[j]);
                }
                if has_scoped(self.sessions(), workspace_id@, s.id@) && self.sessions()[s.id@] == s {
                    let j = choose|j: int| 0 <= j < all.len() && (#[trigger] all[j]).id@ == s.id@;
                    assert(self.sessions()[all[j].id@] == all[j]);
                    all.lemma_filter_contains(f, j);
                    assert(all.filter(f).to_multiset().count(s) > 0);
                    assert(sorted@.to_multiset().count(s) > 0);
                }
            }
        }
        sorted
    }

    /// How many sessions of `provider_id` workspace `workspace_id` has.
    pub fn count_for(&self, workspace_id: &WorkspaceId, provider_id: ProviderId) -> (r: usize)
        ensures
            r == self.entries().filter(
                |s: AgentSession| s.workspace_id@ == workspace_id@ && s.provider_id == provider_id,
            ).len(),
    {
        let mut count: usize = 0;
        let mut i: usize = 0;
        while i < self.sessions.len()
            invariant
                i <= self.sessions@.len(),
                count == self.sessions@.take(i as int).filter(
                    |s: AgentSession| s.workspace_id@ == workspace_id@ && s.provider_id == provider_id,
                ).len(),
                count <= i,
            decreases self.sessions@.len() - i,
        {
            assert(self.sessions@.take(i + 1).drop_last() =~= self.sessions@.take(i as int));
            reveal_with_fuel(Seq::filter, 1);
            if self.sessions[i].workspace_id == *workspace_id && self.sessions[i].provider_id == provider_id {
                count = count + 1;
            }
            i = i + 1;
        }
        assert(self.sessions@.take(self.sessions@.len() as int) =~= self.sessions@);
        count
    }
}

/// A session whose terminal may still run cannot be restarted.
pub fn check_restartable(status: TerminalStatus) -> (r: Result<(), AgentError>)
    ensures
        is_live(status) ==> r matches Err(AgentError::StillRunning),
        !is_live(status) ==> r is Ok,
{
    if is_live_status(status) {
        Err(AgentError::StillRunning)
    } else {
        Ok(())
    }
}

/// The new session record of an agent launched in `terminal`: an interactive
/// PTY isolated to the workspace, created when its terminal was.
pub fn new_agent_session(
    id: AgentSessionId,
    workspace_id: WorkspaceId,
    provider_id: ProviderId,
    terminal: TerminalSession,
    restarted_from_session_id: Option<AgentSessionId>,
) -> (r: AgentSession)
    ensures
        r.id == id,
        r.workspace_id == workspace_id,
        r.provider_id == provider_id,
        r.provider_session_id is None,
        r.created_at == terminal.created_at,
        r.terminal == terminal,
        r.launch_mode == AgentLaunchMode::InteractivePty,
        r.isolation_mode == AgentIsolationMode::Workspace,
        r.restarted_from_session_id == restarted_from_session_id,
{
    AgentSession {
        id,
        workspace_id,
        provider_id,
        provider_session_id: None,
        created_at: terminal.created_at,
        terminal,
        launch_mode: AgentLaunchMode::InteractivePty,
        isolation_mode: AgentIsolationMode::Workspace,
        restarted_from_session_id,
    }
}

/// The label of a provider in agent titles.
pub open spec fn provider_label(provider_id: ProviderId) -> Seq<char> {
    match provider_id {
        ProviderId::Codex => "Codex"@,
        ProviderId::Pi => "Pi"@,
    }
}

/// The title of a new agent: the provider's label and its number among the
/// workspace's sessions of that provider, counting from one. `existing` is
/// how many such sessions there already are.
pub fn agent_title(provider_id: ProviderId, existing: usize) -> (r: String)
    ensures
        r@ == provider_label(provider_id) + " "@ + decimal_spec((existing + 1) as nat),
{
    let label = match provider_id {
        ProviderId::Codex => "Codex ",
        ProviderId::Pi => "Pi ",
    };
    proof {
        reveal_strlit("Codex ");
        reveal_strlit("Codex");
        reveal_strlit("Pi ");
        reveal_strlit("Pi");
        reveal_strlit(" ");
    }
    let number = decimal_text(existing as u128 + 1);
    let r = join_str(label, number.as_str());
    assert(r@ =~= provider_label(provider_id) + " "@ + decimal_spec((existing + 1) as nat));
    r
}

/// A stored session is found again in its own workspace, as it was stored.
pub proof fn lemma_stored_session_is_found(
    sessions: Map<Seq<char>, AgentSession>,
    session: AgentSession,
)
    ensures
        has_scoped(sessions.insert(session.id@, session), session.workspace_id@, session.id@),
        sessions.insert(session.id@, session)[session.id@] == session,
{
}

/// A session is never found from another workspace.
pub proof fn lemma_other_workspace_not_found(
    sessions: Map<Seq<char>, AgentSession>,
    workspace_id: Seq<char>,
    id: Seq<char>,
)
    requires
        sessions.contains_key(id),
        sessions[id].workspace_id@ != workspace_id,
    ensures
        !has_scoped(sessions, workspace_id, id),
{
}

/// A removed session is not found in any workspace.
pub proof fn lemma_removed_session_not_found(
    sessions: Map<Seq<char>, AgentSession>,
    workspace_id: Seq<char>,
    id: Seq<char>,
)
    ensures
        !has_scoped(sessions.remove(id), workspace_id, id),
{
}

/// Removing a workspace's sessions leaves none of that workspace and every
/// session of other workspaces as it was.
pub proof fn lemma_remove_workspace_scope(
    sessions: Map<Seq<char>, AgentSession>,
    workspace_id: Seq<char>,
    other: Seq<char>,
    id: Seq<char>,
)
    requires
        other != workspace_id,
    ensures
        ({
            let after = sessions.restrict(
                sessions.dom().filter(|k: Seq<char>| sessions[k].workspace_id@ != workspace_id),
            );
            &&& !has_scoped(after, workspace_id, id)
            &&& has_scoped(after, other, id) == has_scoped(sessions, other, id)
            &&& has_scoped(sessions, other, id) ==> after[id] == sessions[id]
        }),
{
}

/// The error a agent command reports to the user interface.
#[derive(Debug)]
pub struct AgentCommandError {
    pub code: &'static str,
    pub message: String,
}

impl From<AgentError> for AgentCommandError {
    fn from(error: AgentError) -> (r: Self)
        ensures
            r.code@ == agent_error_code(error),
            r.message@ == agent_error_message(error),
    {
        AgentCommandError { code: error.code(), message: error.message() }
    }
}

impl vstd::std_specs::convert::FromSpecImpl<AgentError> for AgentCommandError {
    open spec fn obeys_from_spec() -> bool {
        false
    }

    open spec fn from_spec(v: AgentError) -> Self {
        arbitrary()
    }
}

} // verus!

