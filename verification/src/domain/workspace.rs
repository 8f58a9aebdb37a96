use vstd::prelude::*;

use super::ids::random_uuid_string;

verus! {

/// Stable identifier of a registered workspace.
#[derive(Debug, Hash)]
pub struct WorkspaceId(String);

impl View for WorkspaceId {
    type V = Seq<char>;

    closed spec fn view(&self) -> Seq<char> {
        self.0@
    }
}

impl WorkspaceId {
    /// A fresh random identifier.
    pub fn new() -> (id: Self)
        ensures
            id@.len() == 36,
    {
        WorkspaceId(random_uuid_string())
    }

    pub fn as_str(&self) -> (s: &str)
        ensures
            s@ == self@,
    {
        self.0.as_str()
    }
}

impl Clone for WorkspaceId {
    fn clone(&self) -> (r: Self)
        ensures
            r == *self,
    {
        WorkspaceId(self.0.clone())
    }
}

impl PartialEq for WorkspaceId {
    fn eq(&self, other: &Self) -> (r: bool) {
        self.0 == other.0
    }
}

impl vstd::std_specs::cmp::PartialEqSpecImpl for WorkspaceId {
    open spec fn obeys_eq_spec() -> bool {
        true
    }

    open spec fn eq_spec(&self, other: &Self) -> bool {
        self@ == other@
    }
}

impl Eq for WorkspaceId {

}

impl From<String> for WorkspaceId {
    fn from(value: String) -> (id: Self)
        ensures
            id@ == value@,
    {
        WorkspaceId(value)
    }
}

impl vstd::std_specs::convert::FromSpecImpl<String> for WorkspaceId {
    open spec fn obeys_from_spec() -> bool {
        true
    }

    closed spec fn from_spec(v: String) -> Self {
        WorkspaceId(v)
    }
}

/// A registered directory.
#[derive(Debug)]
pub struct Workspace {
    pub id: WorkspaceId,
    pub name: String,
    pub canonical_path: String,
    pub repository_root: Option<String>,
    pub git_repository: bool,
    pub created_at: i64,
    pub last_opened_at: i64,
}

pub fn clone_opt_string(v: &Option<String>) -> (r: Option<String>)
    ensures
        r == *v,
{
    match v {
        Some(s) => Some(s.clone()),
        None => None,
    }
}

impl Clone for Workspace {
    fn clone(&self) -> (r: Self)
        ensures
            r == *self,
    {
        Workspace {
            id: self.id.clone(),
            name: self.name.clone(),
            canonical_path: self.canonical_path.clone(),
            repository_root: clone_opt_string(&self.repository_root),
            git_repository: self.git_repository,
            created_at: self.created_at,
            last_opened_at: self.last_opened_at,
        }
    }
}

/// The registry as the user sees it: every workspace, most recently opened
/// first, and the active one.
#[derive(Clone, Debug)]
pub struct WorkspaceRegistrySnapshot {
    pub workspaces: Vec<Workspace>,
    pub active_workspace_id: Option<WorkspaceId>,
}

/// What registration stores for a new workspace.
#[derive(Debug)]
pub struct NewWorkspace {
    pub id: WorkspaceId,
    pub name: String,
    pub canonical_path: String,
    pub repository_root: Option<String>,
    pub git_repository: bool,
    pub now: i64,
}

/// Repository facts found for a workspace directory.
#[derive(Debug)]
pub struct GitMetadata {
    pub repository_root: Option<String>,
    pub git_repository: bool,
}

impl Clone for GitMetadata {
    fn clone(&self) -> (r: Self)
        ensures
            r == *self,
    {
        GitMetadata {
            repository_root: clone_opt_string(&self.repository_root),
            git_repository: self.git_repository,
        }
    }
}

} // verus!
