//! The workspace registry: every registered directory and the active one, with
//! the rules that registering, opening, renaming and removing follow.
//!
//! The registry is the state a store holds; a store loads it, applies one
//! operation, and writes back what the operation changed.
use vstd::prelude::*;
use vstd::utf8::encode_utf8;

use super::order::{
    bytes_lt, lemma_bytes_lt_irreflexive, lemma_bytes_lt_transitive,
    str_bytes_lt,
};
use crate::domain::workspace::{
    GitMetadata, NewWorkspace, Workspace, WorkspaceId, WorkspaceRegistrySnapshot,
};
use crate::services::workspace::WorkspaceError;

verus! {

broadcast use vstd::seq_lib::group_to_multiset_ensures;

/// The bytes by which workspaces with equal timestamps are ordered.
pub open spec fn id_key(w: Workspace) -> Seq<u8> {
    encode_utf8(w.id@)
}

/// `a` is listed before `b`: the more recently opened first, then the one
/// created earlier, then by identifier.
pub open spec fn listed_before(a: Workspace, b: Workspace) -> bool {
    ||| a.last_opened_at > b.last_opened_at
    ||| (a.last_opened_at == b.last_opened_at && a.created_at < b.created_at)
    ||| (a.last_opened_at == b.last_opened_at && a.created_at == b.created_at && bytes_lt(
        id_key(a),
        id_key(b),
    ))
}

pub proof fn lemma_listed_before_irreflexive(a: Workspace)
    ensures
        !listed_before(a, a),
{
    lemma_bytes_lt_irreflexive(id_key(a));
}

pub proof fn lemma_listed_before_transitive(a: Workspace, b: Workspace, c: Workspace)
    requires
        listed_before(a, b),
        listed_before(b, c),
    ensures
        listed_before(a, c),
{
    if a.last_opened_at == b.last_opened_at && b.last_opened_at == c.last_opened_at
        && a.created_at == b.created_at && b.created_at == c.created_at {
        lemma_bytes_lt_transitive(id_key(a), id_key(b), id_key(c));
    }
}

/// No workspace of `s` is listed before one that precedes it.
pub open spec fn listed_in_order(s: Seq<Workspace>) -> bool {
    forall|i: int, j: int| 0 <= i < j < s.len() ==> !listed_before(#[trigger] s[j], #[trigger] s[i])
}

/// What a registration stores.
pub open spec fn registered_record(new: NewWorkspace) -> Workspace {
    Workspace {
        id: new.id,
        name: new.name,
        canonical_path: new.canonical_path,
        repository_root: new.repository_root,
        git_repository: new.git_repository,
        created_at: new.now,
        last_opened_at: new.now,
    }
}

/// The opening time recorded when a workspace is opened at `now`: `now`, but
/// always later than the previous opening, so the opened workspace is listed
/// first.
pub open spec fn reopen_time(previous: i64, now: i64) -> i64 {
    if now > previous {
        now
    } else if previous < i64::MAX {
        (previous + 1) as i64
    } else {
        previous
    }
}

/// A workspace after it was opened at `now` with freshly discovered Git facts.
pub open spec fn opened_record(w: Workspace, git: GitMetadata, now: i64) -> Workspace {
    Workspace {
        repository_root: git.repository_root,
        git_repository: git.git_repository,
        last_opened_at: reopen_time(w.last_opened_at, now),
        ..w
    }
}

/// The workspaces, their identifiers and their paths, and which is active.
pub struct WorkspaceRegistry {
    pub workspaces: Vec<Workspace>,
    pub active_workspace_id: Option<WorkspaceId>,
}

/// `snapshot` lists exactly the workspaces of `workspaces`, in listing order,
/// with `active` as its active workspace.
pub open spec fn is_snapshot_of(
    snapshot: WorkspaceRegistrySnapshot,
    workspaces: Seq<Workspace>,
    active: Option<WorkspaceId>,
) -> bool {
    &&& listed_in_order(snapshot.workspaces@)
    &&& snapshot.workspaces@.to_multiset() == workspaces.to_multiset()
    &&& snapshot.active_workspace_id == active
}

impl WorkspaceRegistry {
    /// Identifiers are unique, canonical paths are unique, and the active
    /// workspace, if any, is registered.
    pub open spec fn wf(&self) -> bool {
        &&& forall|i: int, j: int|
            0 <= i < j < self.workspaces@.len() ==> (#[trigger] self.workspaces@[i]).id@
                != (#[trigger] self.workspaces@[j]).id@
        &&& forall|i: int, j: int|
            0 <= i < j < self.workspaces@.len() ==> (#[trigger] self.workspaces@[i]).canonical_path@
                != (#[trigger] self.workspaces@[j]).canonical_path@
        &&& self.active_workspace_id matches Some(active) ==> self.has_id(active@)
    }

    pub open spec fn has_id(&self, id: Seq<char>) -> bool {
        exists|i: int| 0 <= i < self.workspaces@.len() && (#[trigger] self.workspaces@[i]).id@ == id
    }

    pub open spec fn has_path(&self, path: Seq<char>) -> bool {
        exists|i: int|
            0 <= i < self.workspaces@.len() && (#[trigger] self.workspaces@[i]).canonical_path@
                == path
    }

    /// The position of the workspace with identifier `id`.
    pub open spec fn index_of(&self, id: Seq<char>) -> int {
        choose|i: int| 0 <= i < self.workspaces@.len() && (#[trigger] self.workspaces@[i]).id@ == id
    }

    /// A registry with nothing registered.
    pub fn new() -> (r: Self)
        ensures
            r.wf(),
            r.workspaces@.len() == 0,
            r.active_workspace_id is None,
    {
        WorkspaceRegistry { workspaces: Vec::new(), active_workspace_id: None }
    }

    /// Checks the well-formedness of a registry that was loaded from storage.
    pub fn is_well_formed(&self) -> (r: bool)
        ensures
            r == self.wf(),
    {
        let n = self.workspaces.len();
        let mut i: usize = 0;
        while i < n
            invariant
                n == self.workspaces@.len(),
                i <= n,
                forall|a: int, b: int|
                    0 <= a < b < n && a < i ==> (#[trigger] self.workspaces@[a]).id@
                        != (#[trigger] self.workspaces@[b]).id@,
                forall|a: int, b: int|
                    0 <= a < b < n && a < i ==> (#[trigger] self.workspaces@[a]).canonical_path@
                        != (#[trigger] self.workspaces@[b]).canonical_path@,
            decreases n - i,
        {
            let mut j: usize = i + 1;
            while j < n
                invariant
                    n == self.workspaces@.len(),
                    i < n,
                    i + 1 <= j <= n,
                    forall|b: int|
                        i < b < j ==> self.workspaces@[i as int].id@
                            != (#[trigger] self.workspaces@[b]).id@,
                    forall|b: int|
                        i < b < j ==> self.workspaces@[i as int].canonical_path@
                            != (#[trigger] self.workspaces@[b]).canonical_path@,
                decreases n - j,
            {
                if self.workspaces[i].id == self.workspaces[j].id {
                    return false;
                }
                if self.workspaces[i].canonical_path == self.workspaces[j].canonical_path {
                    return false;
                }
                j = j + 1;
            }
            i = i + 1;
        }
        match &self.active_workspace_id {
            Some(active) => self.find(active).is_some(),
            None => true,
        }
    }

    /// The position of the workspace with identifier `id`, if it is registered.
    pub fn find(&self, id: &WorkspaceId) -> (r: Option<usize>)
        ensures
            match r {
                Some(i) => i < self.workspaces@.len() && self.workspaces@[i as int].id@ == id@,
                None => !self.has_id(id@),
            },
    {
        let n = self.workspaces.len();
        let mut i: usize = 0;
        while i < n
            invariant
                n == self.workspaces@.len(),
                i <= n,
                forall|k: int| 0 <= k < i ==> (#[trigger] self.workspaces@[k]).id@ != id@,
            decreases n - i,
        {
            if self.workspaces[i].id == *id {
                return Some(i);
            }
            i = i + 1;
        }
        None
    }

    /// The position of the workspace registered at `path`, if any.
    pub fn find_path(&self, path: &String) -> (r: Option<usize>)
        ensures
            match r {
                Some(i) => i < self.workspaces@.len() && self.workspaces@[i as int].canonical_path@
                    == path@,
                None => !self.has_path(path@),
            },
    {
        let n = self.workspaces.len();
        let mut i: usize = 0;
        while i < n
            invariant
                n == self.workspaces@.len(),
                i <= n,
                forall|k: int|
                    0 <= k < i ==> (#[trigger] self.workspaces@[k]).canonical_path@ != path@,
            decreases n - i,
        {
            if self.workspaces[i].canonical_path == *path {
                return Some(i);
            }
            i = i + 1;
        }
        None
    }

    /// The registered workspaces in listing order, and the active one.
    pub fn snapshot(&self) -> (s: WorkspaceRegistrySnapshot)
        ensures
            is_snapshot_of(s, self.workspaces@, self.active_workspace_id),
    {
        let n = self.workspaces.len();
        let mut sorted: Vec<Workspace> = Vec::new();
        let mut i: usize = 0;
        while i < n
            invariant
                n == self.workspaces@.len(),
                i <= n,
                listed_in_order(sorted@),
                sorted@.to_multiset() == self.workspaces@.take(i as int).to_multiset(),
            decreases n - i,
        {
            let w = self.workspaces[i].clone();
            let mut k: usize = 0;
            while k < sorted.len() && !listed_before_exec(&w, &sorted[k])
                invariant
                    k <= sorted@.len(),
                    forall|m: int| 0 <= m < k ==> !listed_before(w, #[trigger] sorted@[m]),
                decreases sorted@.len() - k,
            {
                k = k + 1;
            }
            let ghost before = sorted@;
            sorted.insert(k, w);
            proof {
                assert(sorted@ == before.insert(k as int, w));
                assert forall|a: int, b: int| 0 <= a < b < sorted@.len() implies !listed_before(
                    #[trigger] sorted@[b],
                    #[trigger] sorted@[a],
                ) by {
                    if b < k {
                        assert(sorted@[a] == before[a] && sorted@[b] == before[b]);
                    } else if b == k {
                        assert(sorted@[a] == before[a]);
                    } else if a == k {
                        assert(sorted@[b] == before[b - 1]);
                        assert(listed_before(w, before[k as int]));
                        if listed_before(before[b - 1], w) {
                            lemma_listed_before_transitive(before[b - 1], w, before[k as int]);
                            if b - 1 > k {
                                assert(!listed_before(before[b - 1], before[k as int]));
                            } else {
                                lemma_listed_before_irreflexive(before[k as int]);
                            }
                        }
                    } else if a < k {
                        assert(sorted@[a] == before[a] && sorted@[b] == before[b - 1]);
                    } else {
                        assert(sorted@[a] == before[a - 1] && sorted@[b] == before[b - 1]);
                    }
                }
                assert(self.workspaces@.take(i + 1) =~= self.workspaces@.take(i as int).push(w));
            }
            i = i + 1;
        }
        assert(self.workspaces@.take(n as int) =~= self.workspaces@);
        WorkspaceRegistrySnapshot {
            workspaces: sorted,
            active_workspace_id: match &self.active_workspace_id {
                Some(id) => Some(id.clone()),
                None => None,
            },
        }
    }

    /// The workspace with identifier `id`.
    pub fn get(&self, id: &WorkspaceId) -> (r: Result<Workspace, WorkspaceError>)
        requires
            self.wf(),
        ensures
            self.has_id(id@) ==> (r matches Ok(w) && w == self.workspaces@[self.index_of(id@)]),
            !self.has_id(id@) ==> r == Err::<Workspace, WorkspaceError>(
                WorkspaceError::WorkspaceNotFound(*id),
            ),
    {
        match self.find(id) {
            Some(i) => {
                proof {
                    self.lemma_index_of(id@, i as int);
                }
                Ok(self.workspaces[i].clone())
            },
            None => Err(WorkspaceError::not_found(id)),
        }
    }

    /// In a well-formed registry the position of an identifier is unique.
    pub proof fn lemma_index_of(&self, id: Seq<char>, i: int)
        requires
            self.wf(),
            0 <= i < self.workspaces@.len(),
            self.workspaces@[i].id@ == id,
        ensures
            self.index_of(id) == i,
    {
        let k = self.index_of(id);
        assert(0 <= k < self.workspaces@.len() && self.workspaces@[k].id@ == id);
        if k < i {
            assert(self.workspaces@[k].id@ != self.workspaces@[i].id@);
        } else if i < k {
            assert(self.workspaces@[i].id@ != self.workspaces@[k].id@);
        }
    }

    /// Registers a new workspace and makes it active. A canonical path that is
    /// already registered is refused with the existing workspace's name.
    pub fn register(&mut self, new: NewWorkspace) -> (r: Result<
        WorkspaceRegistrySnapshot,
        WorkspaceError,
    >)
        requires
            old(self).wf(),
        ensures
            final(self).wf(),
            old(self).has_path(new.canonical_path@) ==> (r matches Err(
                WorkspaceError::DuplicateWorkspace(name),
            ) && (exists|i: int|
                0 <= i < old(self).workspaces@.len() && (#[trigger] old(self).workspaces@[i]).canonical_path@
                    == new.canonical_path@ && old(self).workspaces@[i].name == name)),
            !old(self).has_path(new.canonical_path@) && old(self).has_id(new.id@) ==> (r matches Err(
                WorkspaceError::Database(_),
            )),
            !old(self).has_path(new.canonical_path@) && !old(self).has_id(new.id@) ==> (r matches Ok(
                s,
            ) && final(self).workspaces@ == old(self).workspaces@.push(registered_record(new))
                && final(self).active_workspace_id == Some(new.id) && is_snapshot_of(
                s,
                final(self).workspaces@,
                final(self).active_workspace_id,
            )),
            r is Err ==> *final(self) == *old(self),
    {
        if let Some(i) = self.find_path(&new.canonical_path) {
            return Err(WorkspaceError::duplicate(self.workspaces[i].name.clone()));
        }
        if self.find(&new.id).is_some() {
            return Err(WorkspaceError::database("UNIQUE constraint failed: workspaces.id".to_owned()));
        }
        let ghost old_workspaces = self.workspaces@;
        let id = new.id.clone();
        let record = Workspace {
            id: new.id,
            name: new.name,
            canonical_path: new.canonical_path,
            repository_root: new.repository_root,
            git_repository: new.git_repository,
            created_at: new.now,
            last_opened_at: new.now,
        };
        self.workspaces.push(record);
        self.active_workspace_id = Some(id);
        proof {
            let ws = self.workspaces@;
            assert(ws.last().id@ == id@);
            assert(forall|k: int| 0 <= k < old_workspaces.len() ==> ws[k] == old_workspaces[k]);
            assert(self.has_id(id@)) by {
                assert(ws[ws.len() - 1].id@ == id@);
            }
        }
        Ok(self.snapshot())
    }

    /// Opens a workspace: records the Git facts found now, moves its opening
    /// time past every earlier one, and makes it active.
    pub fn open(&mut self, id: &WorkspaceId, git: GitMetadata, now: i64) -> (r: Result<
        WorkspaceRegistrySnapshot,
        WorkspaceError,
    >)
        requires
            old(self).wf(),
        ensures
            final(self).wf(),
            !old(self).has_id(id@) ==> r == Err::<WorkspaceRegistrySnapshot, WorkspaceError>(
                WorkspaceError::WorkspaceNotFound(*id),
            ),
            old(self).has_id(id@) ==> ({
                let i = old(self).index_of(id@);
                &&& r matches Ok(s) && is_snapshot_of(
                    s,
                    final(self).workspaces@,
                    final(self).active_workspace_id,
                )
                &&& final(self).workspaces@ == old(self).workspaces@.update(
                    i,
                    opened_record(old(self).workspaces@[i], git, now),
                )
                &&& final(self).active_workspace_id == Some(*id)
                &&& final(self).workspaces@[i].repository_root == git.repository_root
                &&& final(self).workspaces@[i].git_repository == git.git_repository
                &&& final(self).workspaces@[i].id == old(self).workspaces@[i].id
            }),
            r is Err ==> *final(self) == *old(self),
    {
        let i = match self.find(id) {
            Some(i) => i,
            None => return Err(WorkspaceError::not_found(id)),
        };
        proof {
            self.lemma_index_of(id@, i as int);
        }
        let ghost old_workspaces = self.workspaces@;
        let previous = self.workspaces[i].last_opened_at;
        let last_opened_at = if now > previous {
            now
        } else if previous < i64::MAX {
            previous + 1
        } else {
            previous
        };
        let current = &self.workspaces[i];
        let record = Workspace {
            id: current.id.clone(),
            name: current.name.clone(),
            canonical_path: current.canonical_path.clone(),
            repository_root: git.repository_root,
            git_repository: git.git_repository,
            created_at: current.created_at,
            last_opened_at,
        };
        self.workspaces.set(i, record);
        self.active_workspace_id = Some(id.clone());
        proof {
            let ws = self.workspaces@;
            assert(forall|k: int| 0 <= k < ws.len() && k != i ==> ws[k] == old_workspaces[k]);
            assert(ws[i as int].id@ == id@);
        }
        Ok(self.snapshot())
    }

    /// Renames a workspace; the name must already be validated.
    pub fn rename(&mut self, id: &WorkspaceId, name: String) -> (r: Result<
        WorkspaceRegistrySnapshot,
        WorkspaceError,
    >)
        requires
            old(self).wf(),
        ensures
            final(self).wf(),
            !old(self).has_id(id@) ==> r == Err::<WorkspaceRegistrySnapshot, WorkspaceError>(
                WorkspaceError::WorkspaceNotFound(*id),
            ),
            old(self).has_id(id@) ==> ({
                let i = old(self).index_of(id@);
                &&& r matches Ok(s) && is_snapshot_of(
                    s,
                    final(self).workspaces@,
                    final(self).active_workspace_id,
                )
                &&& final(self).workspaces@ == old(self).workspaces@.update(
                    i,
                    Workspace { name: name, ..old(self).workspaces@[i] },
                )
                &&& final(self).active_workspace_id == old(self).active_workspace_id
            }),
            r is Err ==> *final(self) == *old(self),
    {
        let i = match self.find(id) {
            Some(i) => i,
            None => return Err(WorkspaceError::not_found(id)),
        };
        proof {
            self.lemma_index_of(id@, i as int);
        }
        let ghost old_workspaces = self.workspaces@;
        let current = &self.workspaces[i];
        let record = Workspace {
            id: current.id.clone(),
            name,
            canonical_path: current.canonical_path.clone(),
            repository_root: crate::domain::workspace::clone_opt_string(&current.repository_root),
            git_repository: current.git_repository,
            created_at: current.created_at,
            last_opened_at: current.last_opened_at,
        };
        self.workspaces.set(i, record);
        proof {
            let ws = self.workspaces@;
            assert(forall|k: int| 0 <= k < ws.len() && k != i ==> ws[k] == old_workspaces[k]);
            assert(ws[i as int].id@ == old_workspaces[i as int].id@);
            if let Some(active) = &self.active_workspace_id {
                let a = choose|a: int|
                    0 <= a < old_workspaces.len() && (#[trigger] old_workspaces[a]).id@ == active@;
                assert(ws[a].id@ == active@);
            }
        }
        Ok(self.snapshot())
    }

    /// Removes a registration; the directory itself is never touched. When the
    /// active workspace is removed, the first remaining one in listing order
    /// becomes active, or none when nothing remains.
    pub fn remove(&mut self, id: &WorkspaceId) -> (r: Result<
        WorkspaceRegistrySnapshot,
        WorkspaceError,
    >)
        requires
            old(self).wf(),
        ensures
            final(self).wf(),
            !old(self).has_id(id@) ==> r == Err::<WorkspaceRegistrySnapshot, WorkspaceError>(
                WorkspaceError::WorkspaceNotFound(*id),
            ),
            old(self).has_id(id@) ==> ({
                let i = old(self).index_of(id@);
                let remaining = final(self).workspaces@;
                &&& r matches Ok(s) && is_snapshot_of(
                    s,
                    remaining,
                    final(self).active_workspace_id,
                )
                &&& remaining == old(self).workspaces@.remove(i)
                &&& !(old(self).active_workspace_id matches Some(a) && a@ == id@)
                    ==> final(self).active_workspace_id == old(self).active_workspace_id
                &&& (old(self).active_workspace_id matches Some(a) && a@ == id@) ==> (
                if remaining.len() == 0 {
                    final(self).active_workspace_id is None
                } else {
                    exists|k: int|
                        0 <= k < remaining.len() && final(self).active_workspace_id == Some(
                            (#[trigger] remaining[k]).id,
                        ) && forall|m: int|
                            0 <= m < remaining.len() ==> !listed_before(
                                #[trigger] remaining[m],
                                remaining[k],
                            )
                })
            }),
            r is Err ==> *final(self) == *old(self),
    {
        let i = match self.find(id) {
            Some(i) => i,
            None => return Err(WorkspaceError::not_found(id)),
        };
        proof {
            self.lemma_index_of(id@, i as int);
        }
        let ghost old_workspaces = self.workspaces@;
        let was_active = match &self.active_workspace_id {
            Some(active) => *active == *id,
            None => false,
        };
        self.workspaces.remove(i);
        proof {
            let ws = self.workspaces@;
            assert(ws == old_workspaces.remove(i as int));
            assert(forall|k: int| 0 <= k < i ==> ws[k] == old_workspaces[k]);
            assert(forall|k: int| i <= k < ws.len() ==> ws[k] == old_workspaces[k + 1]);
        }
        if was_active {
            match first_listed(&self.workspaces) {
                Some(k) => {
                    self.active_workspace_id = Some(self.workspaces[k].id.clone());
                },
                None => {
                    self.active_workspace_id = None;
                },
            }
        } else {
            proof {
                if let Some(active) = &self.active_workspace_id {
                    let a = choose|a: int|
                        0 <= a < old_workspaces.len() && (#[trigger] old_workspaces[a]).id@
                            == active@;
                    assert(a != i);
                    if a < i {
                        assert(self.workspaces@[a].id@ == active@);
                    } else {
                        assert(self.workspaces@[a - 1].id@ == active@);
                    }
                }
            }
        }
        Ok(self.snapshot())
    }
}

/// A registered workspace is found again under its identifier, as it was
/// registered, and becomes the active one.
pub proof fn lemma_registered_workspace_is_found(after: WorkspaceRegistry, before: Seq<Workspace>, new: NewWorkspace)
    requires
        after.wf(),
        after.workspaces@ == before.push(registered_record(new)),
        after.active_workspace_id == Some(new.id),
    ensures
        after.has_id(new.id@),
        after.workspaces@[after.index_of(new.id@)] == registered_record(new),
        after.active_workspace_id matches Some(active) && active@ == new.id@,
{
    let last = before.len() as int;
    assert(after.workspaces@[last] == registered_record(new));
    after.lemma_index_of(new.id@, last);
}

/// A workspace is registered as described, opened at the moment it was
/// created: its id, name, path and Git facts are the ones given.
pub proof fn lemma_registered_record_is_as_described(new: NewWorkspace)
    ensures
        registered_record(new).id == new.id,
        registered_record(new).name == new.name,
        registered_record(new).canonical_path == new.canonical_path,
        registered_record(new).repository_root == new.repository_root,
        registered_record(new).git_repository == new.git_repository,
        registered_record(new).created_at == new.now,
        registered_record(new).last_opened_at == new.now,
{
}

/// The listing order: a workspace opened more recently is listed first;
/// between two opened at the same time, the one created earlier; and two
/// different workspaces are always ordered one way.
pub proof fn lemma_listing_order(a: Workspace, b: Workspace)
    ensures
        a.last_opened_at > b.last_opened_at ==> listed_before(a, b) && !listed_before(b, a),
        a.last_opened_at == b.last_opened_at && a.created_at < b.created_at ==> listed_before(a, b)
            && !listed_before(b, a),
        listed_before(a, b) ==> a.last_opened_at >= b.last_opened_at,
{
    if a.last_opened_at > b.last_opened_at || (a.last_opened_at == b.last_opened_at && a.created_at < b.created_at) {
        assert(!listed_before(b, a));
    }
}

/// Opening a workspace records the Git facts found at opening, whatever it
/// held before, and keeps what identifies it: its id, name, path and creation
/// time. Its opening time never goes back, and is `now` when `now` is later.
pub proof fn lemma_open_records_git_facts(w: Workspace, git: GitMetadata, now: i64)
    ensures
        opened_record(w, git, now).repository_root == git.repository_root,
        opened_record(w, git, now).git_repository == git.git_repository,
        opened_record(w, git, now).id == w.id,
        opened_record(w, git, now).name == w.name,
        opened_record(w, git, now).canonical_path == w.canonical_path,
        opened_record(w, git, now).created_at == w.created_at,
        opened_record(w, git, now).last_opened_at >= w.last_opened_at,
        now > w.last_opened_at ==> opened_record(w, git, now).last_opened_at == now,
{
}

/// After a successful open, the workspace stored under that id carries the
/// Git facts handed to the open.
pub proof fn lemma_opened_workspace_has_git_facts(
    before: WorkspaceRegistry,
    after: WorkspaceRegistry,
    id: WorkspaceId,
    git: GitMetadata,
    now: i64,
)
    requires
        before.wf(),
        after.wf(),
        before.has_id(id@),
        after.workspaces@ == before.workspaces@.update(
            before.index_of(id@),
            opened_record(before.workspaces@[before.index_of(id@)], git, now),
        ),
    ensures
        after.has_id(id@),
        after.workspaces@[after.index_of(id@)].repository_root == git.repository_root,
        after.workspaces@[after.index_of(id@)].git_repository == git.git_repository,
{
    let i = before.index_of(id@);
    before.lemma_index_of(id@, i);
    assert(after.workspaces@[i].id@ == id@);
    assert(after.has_id(id@));
    after.lemma_index_of(id@, i);
}

/// Opening a workspace at `now` lists it before every workspace last opened no
/// later than its own previous opening or strictly before `now`, unless its
/// opening time is already the largest possible.
pub proof fn lemma_opened_workspace_is_listed_first(w: Workspace, others: Seq<Workspace>, git: GitMetadata, now: i64)
    requires
        forall|k: int| 0 <= k < others.len() ==> (#[trigger] others[k]).last_opened_at <= w.last_opened_at
            || others[k].last_opened_at < now,
        w.last_opened_at < i64::MAX,
    ensures
        forall|k: int| 0 <= k < others.len() ==> !listed_before(#[trigger] others[k], opened_record(w, git, now)),
{
}

/// `listed_before` on concrete workspaces.
pub fn listed_before_exec(a: &Workspace, b: &Workspace) -> (r: bool)
    ensures
        r == listed_before(*a, *b),
{
    if a.last_opened_at != b.last_opened_at {
        a.last_opened_at > b.last_opened_at
    } else if a.created_at != b.created_at {
        a.created_at < b.created_at
    } else {
        str_bytes_lt(a.id.as_str(), b.id.as_str())
    }
}

/// The position of the workspace that the listing order puts first.
pub fn first_listed(workspaces: &Vec<Workspace>) -> (r: Option<usize>)
    ensures
        match r {
            Some(k) => k < workspaces@.len() && forall|m: int|
                0 <= m < workspaces@.len() ==> !listed_before(
                    #[trigger] workspaces@[m],
                    workspaces@[k as int],
                ),
            None => workspaces@.len() == 0,
        },
{
    let n = workspaces.len();
    if n == 0 {
        return None;
    }
    let mut best: usize = 0;
    let mut k: usize = 1;
    proof {
        lemma_listed_before_irreflexive(workspaces@[0]);
    }
    while k < n
        invariant
            n == workspaces@.len(),
            1 <= k <= n,
            best < k,
            forall|m: int|
                0 <= m < k ==> !listed_before(#[trigger] workspaces@[m], workspaces@[best as int]),
        decreases n - k,
    {
        if listed_before_exec(&workspaces[k], &workspaces[best]) {
            proof {
                assert forall|m: int| 0 <= m <= k implies !listed_before(
                    #[trigger] workspaces@[m],
                    workspaces@[k as int],
                ) by {
                    if m == k {
                        lemma_listed_before_irreflexive(workspaces@[k as int]);
                    } else if listed_before(workspaces@[m], workspaces@[k as int]) {
                        lemma_listed_before_transitive(
                            workspaces@[m],
                            workspaces@[k as int],
                            workspaces@[best as int],
                        );
                    }
                }
            }
            best = k;
        }
        k = k + 1;
    }
    Some(best)
}

} // verus!
