//! Workspace registration rules: name and path validation, Git discovery
//! outcomes, and the errors the workspace commands report.
use vstd::prelude::*;

use crate::domain::workspace::{GitMetadata, NewWorkspace, WorkspaceId};
use crate::paths::{
    path_file_name, path_parent, path_starts_with, spec_path_file_name, spec_path_parent,
    spec_path_starts_with,
};
use crate::text::{
    has_control, has_control_spec, join_str, lemma_trim_idempotent, trim, trim_spec, utf8_to_string,
};
use vstd::string::StrSliceExecFns;
use vstd::utf8::{decode_utf8, valid_utf8};

verus! {

/// Longest accepted workspace name, in characters.
pub const MAX_NAME_CHARS: usize = 128;

/// Errors of the workspace registry.
#[derive(Debug)]
pub enum WorkspaceError {
    AppDataDirectory,
    Database(String),
    DuplicateWorkspace(String),
    FilesystemRoot,
    GitDetection(String),
    InvalidName(String),
    NotDirectory,
    PathNotFound,
    PathUnreadable(String),
    Migration(String),
    UnsupportedPath,
    WorkspaceUnavailable(String),
    WorkspaceNotFound(WorkspaceId),
    Clock(String),
}

/// The stable code of each error, as the frontend receives it.
pub open spec fn workspace_error_code(error: WorkspaceError) -> Seq<char> {
    match error {
        WorkspaceError::AppDataDirectory => "app_data_directory"@,
        WorkspaceError::Database(_) => "database_unavailable"@,
        WorkspaceError::DuplicateWorkspace(_) => "duplicate_workspace"@,
        WorkspaceError::FilesystemRoot => "filesystem_root"@,
        WorkspaceError::GitDetection(_) => "git_detection_failed"@,
        WorkspaceError::InvalidName(_) => "invalid_name"@,
        WorkspaceError::NotDirectory => "not_directory"@,
        WorkspaceError::PathNotFound => "path_not_found"@,
        WorkspaceError::PathUnreadable(_) => "path_unreadable"@,
        WorkspaceError::Migration(_) => "migration_failed"@,
        WorkspaceError::UnsupportedPath => "unsupported_path_encoding"@,
        WorkspaceError::WorkspaceUnavailable(_) => "workspace_unavailable"@,
        WorkspaceError::WorkspaceNotFound(_) => "workspace_not_found"@,
        WorkspaceError::Clock(_) => "clock_unavailable"@,
    }
}

/// The user-facing message of each error. Details that may hold paths or
/// database text are never part of it.
pub open spec fn workspace_error_message(error: WorkspaceError) -> Seq<char> {
    match error {
        WorkspaceError::AppDataDirectory => "应用数据目录不能注册为工作空间"@,
        WorkspaceError::Database(_) => "工作空间数据库不可用"@,
        WorkspaceError::DuplicateWorkspace(name) => "工作空间“"@ + name@ + "”已经注册"@,
        WorkspaceError::FilesystemRoot => "不能注册文件系统根目录"@,
        WorkspaceError::GitDetection(_) => "无法识别 Git 仓库"@,
        WorkspaceError::InvalidName(message) => message@,
        WorkspaceError::NotDirectory => "所选路径不是目录"@,
        WorkspaceError::PathNotFound => "所选目录不存在"@,
        WorkspaceError::PathUnreadable(_) => "无法读取所选目录"@,
        WorkspaceError::Migration(_) => "数据库迁移失败"@,
        WorkspaceError::UnsupportedPath => "不支持该路径编码"@,
        WorkspaceError::WorkspaceUnavailable(name) => "工作空间“"@ + name@
            + "”当前不可用，请恢复目录后重试或移除登记"@,
        WorkspaceError::WorkspaceNotFound(id) => "未找到工作空间 "@ + id@,
        WorkspaceError::Clock(_) => "系统时间不可用"@,
    }
}

impl WorkspaceError {
    pub fn code(&self) -> (code: &'static str)
        ensures
            code@ == workspace_error_code(*self),
    {
        match self {
            WorkspaceError::AppDataDirectory => "app_data_directory",
            WorkspaceError::Database(_) => "database_unavailable",
            WorkspaceError::DuplicateWorkspace(_) => "duplicate_workspace",
            WorkspaceError::FilesystemRoot => "filesystem_root",
            WorkspaceError::GitDetection(_) => "git_detection_failed",
            WorkspaceError::InvalidName(_) => "invalid_name",
            WorkspaceError::NotDirectory => "not_directory",
            WorkspaceError::PathNotFound => "path_not_found",
            WorkspaceError::PathUnreadable(_) => "path_unreadable",
            WorkspaceError::Migration(_) => "migration_failed",
            WorkspaceError::UnsupportedPath => "unsupported_path_encoding",
            WorkspaceError::WorkspaceUnavailable(_) => "workspace_unavailable",
            WorkspaceError::WorkspaceNotFound(_) => "workspace_not_found",
            WorkspaceError::Clock(_) => "clock_unavailable",
        }
    }

    /// The message shown to the user.
    pub fn safe_message(&self) -> (message: String)
        ensures
            message@ == workspace_error_message(*self),
    {
        match self {
            WorkspaceError::AppDataDirectory => "应用数据目录不能注册为工作空间".to_owned(),
            WorkspaceError::Database(_) => "工作空间数据库不可用".to_owned(),
            WorkspaceError::DuplicateWorkspace(name) => join_str(
                &join_str("工作空间“", name.as_str()),
                "”已经注册",
            ),
            WorkspaceError::FilesystemRoot => "不能注册文件系统根目录".to_owned(),
            WorkspaceError::GitDetection(_) => "无法识别 Git 仓库".to_owned(),
            WorkspaceError::InvalidName(message) => message.clone(),
            WorkspaceError::NotDirectory => "所选路径不是目录".to_owned(),
            WorkspaceError::PathNotFound => "所选目录不存在".to_owned(),
            WorkspaceError::PathUnreadable(_) => "无法读取所选目录".to_owned(),
            WorkspaceError::Migration(_) => "数据库迁移失败".to_owned(),
            WorkspaceError::UnsupportedPath => "不支持该路径编码".to_owned(),
            WorkspaceError::WorkspaceUnavailable(name) => join_str(
                &join_str("工作空间“", name.as_str()),
                "”当前不可用，请恢复目录后重试或移除登记",
            ),
            WorkspaceError::WorkspaceNotFound(id) => join_str("未找到工作空间 ", id.as_str()),
            WorkspaceError::Clock(_) => "系统时间不可用".to_owned(),
        }
    }

    pub fn database(detail: String) -> (error: Self)
        ensures
            error == WorkspaceError::Database(detail),
    {
        WorkspaceError::Database(detail)
    }

    pub fn migration(detail: String) -> (error: Self)
        ensures
            error == WorkspaceError::Migration(detail),
    {
        WorkspaceError::Migration(detail)
    }

    /// A SQLite failure, keeping SQLite's text as the detail. The detail is
    /// the error's `Display` text, which no clause states: the error is opaque
    /// here, and some of its variants format a boxed error of any kind.
    pub fn from_database(error: rusqlite::Error) -> (r: Self)
        ensures
            r is Database,
    {
        WorkspaceError::Database(crate::persistence::sqlite::sqlite_error_text(&error))
    }

    pub fn duplicate(name: String) -> (error: Self)
        ensures
            error == WorkspaceError::DuplicateWorkspace(name),
    {
        WorkspaceError::DuplicateWorkspace(name)
    }

    pub fn not_found(id: &WorkspaceId) -> (error: Self)
        ensures
            error == WorkspaceError::WorkspaceNotFound(*id),
    {
        WorkspaceError::WorkspaceNotFound(id.clone())
    }

    pub fn unavailable(name: String) -> (error: Self)
        ensures
            error == WorkspaceError::WorkspaceUnavailable(name),
    {
        WorkspaceError::WorkspaceUnavailable(name)
    }

    pub fn unsupported_path() -> (error: Self)
        ensures
            error == WorkspaceError::UnsupportedPath,
    {
        WorkspaceError::UnsupportedPath
    }

    /// Whether the error says that a registered directory has gone away or
    /// cannot be read.
    pub open spec fn is_missing_directory(self) -> bool {
        ||| self is PathNotFound
        ||| self is NotDirectory
        ||| self is PathUnreadable
    }
}

/// The messages of the three name rules.
pub open spec fn empty_name_message() -> Seq<char> {
    "工作空间名称不能为空"@
}

pub open spec fn long_name_message() -> Seq<char> {
    "工作空间名称不能超过 128 个字符"@
}

pub open spec fn control_name_message() -> Seq<char> {
    "工作空间名称不能包含控制字符"@
}

/// The outcome of name validation: the trimmed name, or the first rule it breaks.
pub open spec fn validate_name_spec(name: Seq<char>) -> Result<Seq<char>, Seq<char>> {
    let trimmed = trim_spec(name);
    if trimmed.len() == 0 {
        Err(empty_name_message())
    } else if trimmed.len() > MAX_NAME_CHARS {
        Err(long_name_message())
    } else if has_control_spec(trimmed) {
        Err(control_name_message())
    } else {
        Ok(trimmed)
    }
}

/// What name validation accepts: a name, once trimmed, that is not empty,
/// has at most 128 characters and no control character, and it keeps the
/// trimmed name. An empty name, then a long one, then one with a control
/// character is refused with its own message.
pub proof fn lemma_name_rules(name: Seq<char>)
    ensures
        validate_name_spec(name) matches Ok(t) ==> t == trim_spec(name) && 0 < t.len() <= 128
            && !has_control_spec(t),
        trim_spec(name).len() == 0 ==> validate_name_spec(name) == Err::<Seq<char>, Seq<char>>(
            "工作空间名称不能为空"@,
        ),
        trim_spec(name).len() > 128 ==> validate_name_spec(name) == Err::<Seq<char>, Seq<char>>(
            "工作空间名称不能超过 128 个字符"@,
        ),
        0 < trim_spec(name).len() <= 128 && has_control_spec(trim_spec(name)) ==> validate_name_spec(
            name,
        ) == Err::<Seq<char>, Seq<char>>("工作空间名称不能包含控制字符"@),
        0 < trim_spec(name).len() <= 128 && !has_control_spec(trim_spec(name)) ==> validate_name_spec(
            name,
        ) == Ok::<Seq<char>, Seq<char>>(trim_spec(name)),
{
}

/// A name that passed validation passes it again unchanged, so storing a
/// validated name and validating it once more never alters it.
pub proof fn lemma_validated_name_is_stable(name: Seq<char>)
    ensures
        validate_name_spec(name) matches Ok(trimmed) ==> validate_name_spec(trimmed) == Ok::<
            Seq<char>,
            Seq<char>,
        >(trimmed),
{
    lemma_trim_idempotent(name);
}

/// Trims a workspace name and checks that it is non-empty, at most 128
/// characters and free of control characters.
pub fn validate_name(name: &str) -> (r: Result<String, WorkspaceError>)
    ensures
        match validate_name_spec(name@) {
            Ok(trimmed) => r matches Ok(s) && s@ == trimmed,
            Err(message) => r matches Err(WorkspaceError::InvalidName(m)) && m@ == message,
        },
{
    let trimmed = trim(name);
    let length = trimmed.unicode_len();
    if length == 0 {
        return Err(WorkspaceError::InvalidName("工作空间名称不能为空".to_owned()));
    }
    if length > MAX_NAME_CHARS {
        return Err(WorkspaceError::InvalidName("工作空间名称不能超过 128 个字符".to_owned()));
    }
    if has_control(trimmed) {
        return Err(WorkspaceError::InvalidName("工作空间名称不能包含控制字符".to_owned()));
    }
    Ok(trimmed.to_owned())
}

/// A path's bytes as text; paths that are not UTF-8 are refused.
pub fn path_to_string(path: &[u8]) -> (r: Result<String, WorkspaceError>)
    ensures
        valid_utf8(path@) ==> (r matches Ok(s) && s@ == decode_utf8(path@)),
        !valid_utf8(path@) ==> r matches Err(WorkspaceError::UnsupportedPath),
{
    match utf8_to_string(path) {
        Some(text) => Ok(text),
        None => Err(WorkspaceError::unsupported_path()),
    }
}

/// Why a selected path could not be resolved to its canonical form.
#[derive(Clone, Copy, Debug, PartialEq, Eq, Structural)]
pub enum PathErrorKind {
    NotFound,
    PermissionDenied,
    Other,
}

/// The error reported when canonicalizing the selected path fails.
pub fn canonicalize_error(kind: PathErrorKind, detail: String) -> (error: WorkspaceError)
    ensures
        kind == PathErrorKind::NotFound ==> error == WorkspaceError::PathNotFound,
        kind == PathErrorKind::PermissionDenied ==> (error matches WorkspaceError::PathUnreadable(m)
            && m@ == "没有权限访问该目录"@),
        kind == PathErrorKind::Other ==> error == WorkspaceError::PathUnreadable(detail),
{
    match kind {
        PathErrorKind::NotFound => WorkspaceError::PathNotFound,
        PathErrorKind::PermissionDenied => WorkspaceError::PathUnreadable(
            "没有权限访问该目录".to_owned(),
        ),
        PathErrorKind::Other => WorkspaceError::PathUnreadable(detail),
    }
}

/// The checks made on a canonical directory path before it can be
/// registered, in the order the registry applies them.
pub open spec fn check_canonical_directory_spec(
    canonical_path: Seq<char>,
    is_directory: bool,
    app_data_root: Seq<char>,
) -> Result<(), WorkspaceError> {
    if !is_directory {
        Err(WorkspaceError::NotDirectory)
    } else if spec_path_parent(canonical_path) is None {
        Err(WorkspaceError::FilesystemRoot)
    } else if spec_path_starts_with(canonical_path, app_data_root) {
        Err(WorkspaceError::AppDataDirectory)
    } else {
        Ok(())
    }
}

/// Refuses non-directories, the filesystem root, and anything inside the
/// application's own data directory.
pub fn check_canonical_directory(canonical_path: &str, is_directory: bool, app_data_root: &str) -> (r:
    Result<(), WorkspaceError>)
    ensures
        r == check_canonical_directory_spec(canonical_path@, is_directory, app_data_root@),
{
    if !is_directory {
        return Err(WorkspaceError::NotDirectory);
    }
    if path_parent(canonical_path).is_none() {
        return Err(WorkspaceError::FilesystemRoot);
    }
    if path_starts_with(canonical_path, app_data_root) {
        return Err(WorkspaceError::AppDataDirectory);
    }
    Ok(())
}

/// For a registered workspace, a directory that is gone or unreadable is
/// reported as the workspace being unavailable; other errors pass through.
pub fn unavailable_when_missing(error: WorkspaceError, name: String) -> (r: WorkspaceError)
    ensures
        error.is_missing_directory() ==> r == WorkspaceError::WorkspaceUnavailable(name),
        !error.is_missing_directory() ==> r == error,
{
    match error {
        WorkspaceError::PathNotFound | WorkspaceError::NotDirectory
        | WorkspaceError::PathUnreadable(_) => WorkspaceError::unavailable(name),
        other => other,
    }
}

/// What discovering a Git repository above a directory found.
pub enum GitDiscovery {
    /// A repository; its working directory (or, when bare, its Git directory),
    /// canonicalized, as raw path bytes.
    Repository { canonical_root: Vec<u8> },
    /// No repository contains the directory.
    NotFound,
    /// Discovery or canonicalization failed with this message.
    Failed { message: String },
}

/// The repository facts stored for a workspace, from a discovery outcome.
pub fn git_metadata(discovery: GitDiscovery) -> (r: Result<GitMetadata, WorkspaceError>)
    ensures
        match discovery {
            GitDiscovery::Repository { canonical_root } => if valid_utf8(canonical_root@) {
                r matches Ok(meta) && meta.git_repository && (meta.repository_root matches Some(
                    root,
                ) && root@ == decode_utf8(canonical_root@))
            } else {
                r matches Err(WorkspaceError::UnsupportedPath)
            },
            GitDiscovery::NotFound => r matches Ok(meta) && !meta.git_repository
                && meta.repository_root is None,
            GitDiscovery::Failed { message } => r == Err::<GitMetadata, WorkspaceError>(
                WorkspaceError::GitDetection(message),
            ),
        },
{
    match discovery {
        GitDiscovery::Repository { canonical_root } => {
            let root = path_to_string(canonical_root.as_slice())?;
            Ok(GitMetadata { repository_root: Some(root), git_repository: true })
        },
        GitDiscovery::NotFound => Ok(GitMetadata { repository_root: None, git_repository: false }),
        GitDiscovery::Failed { message } => Err(WorkspaceError::GitDetection(message)),
    }
}

/// The name a newly registered workspace gets: the last component of its
/// canonical path, validated like any other name.
pub fn workspace_name_for(canonical_path: &str) -> (r: Result<String, WorkspaceError>)
    ensures
        match spec_path_file_name(canonical_path@) {
            None => r matches Err(WorkspaceError::UnsupportedPath),
            Some(name) => match validate_name_spec(name) {
                Ok(trimmed) => r matches Ok(s) && s@ == trimmed,
                Err(message) => r matches Err(WorkspaceError::InvalidName(m)) && m@ == message,
            },
        },
{
    match path_file_name(canonical_path) {
        Some(name) => validate_name(name.as_str()),
        None => Err(WorkspaceError::unsupported_path()),
    }
}

/// The record stored when a validated directory is registered: a fresh id,
/// the name taken from the path, and the repository facts.
pub fn new_registration(canonical_path: String, git: GitMetadata, now: i64) -> (r: Result<
    NewWorkspace,
    WorkspaceError,
>)
    ensures
        match spec_path_file_name(canonical_path@) {
            None => r matches Err(WorkspaceError::UnsupportedPath),
            Some(name) => match validate_name_spec(name) {
                Ok(trimmed) => r matches Ok(w) && w.name@ == trimmed && w.canonical_path
                    == canonical_path && w.repository_root == git.repository_root
                    && w.git_repository == git.git_repository && w.now == now,
                Err(message) => r matches Err(WorkspaceError::InvalidName(m)) && m@ == message,
            },
        },
{
    let name = workspace_name_for(canonical_path.as_str())?;
    Ok(
        NewWorkspace {
            id: WorkspaceId::new(),
            name,
            canonical_path,
            repository_root: git.repository_root,
            git_repository: git.git_repository,
            now,
        },
    )
}

/// Milliseconds since the Unix epoch as stored, or the clock error when the
/// value does not fit.
pub fn millis_to_timestamp(millis: u128) -> (r: Result<i64, WorkspaceError>)
    ensures
        millis <= i64::MAX ==> r == Ok::<i64, WorkspaceError>(millis as i64),
        millis > i64::MAX ==> (r matches Err(WorkspaceError::Clock(m)) && m@ == "系统时间超出支持范围"@),
{
    if millis <= i64::MAX as u128 {
        Ok(millis as i64)
    } else {
        Err(WorkspaceError::Clock("系统时间超出支持范围".to_owned()))
    }
}

/// The error a workspace command reports to the user interface.
#[derive(Debug)]
pub struct CommandError {
    pub code: &'static str,
    pub message: String,
}

impl From<WorkspaceError> for CommandError {
    fn from(error: WorkspaceError) -> (r: Self)
        ensures
            r.code@ == workspace_error_code(error),
            r.message@ == workspace_error_message(error),
    {
        CommandError { code: error.code(), message: error.safe_message() }
    }
}

impl vstd::std_specs::convert::FromSpecImpl<WorkspaceError> for CommandError {
    open spec fn obeys_from_spec() -> bool {
        false
    }

    open spec fn from_spec(v: WorkspaceError) -> Self {
        arbitrary()
    }
}

} // verus!

