use baibo::domain::workspace::{GitMetadata, NewWorkspace, WorkspaceId, WorkspaceRegistrySnapshot};
use baibo::persistence::workspace_registry::WorkspaceRegistry;
use baibo::services::workspace::{
    canonicalize_error, check_canonical_directory, git_metadata, millis_to_timestamp,
    new_registration, path_to_string, unavailable_when_missing, validate_name,
    workspace_name_for, CommandError, GitDiscovery, PathErrorKind, WorkspaceError,
};

fn new_workspace(id: &str, path: &str, now: i64) -> NewWorkspace {
    NewWorkspace {
        id: WorkspaceId::from(id.to_owned()),
        name: path.rsplit('/').next().expect("name").to_owned(),
        canonical_path: path.to_owned(),
        repository_root: None,
        git_repository: false,
        now,
    }
}

fn plain_git() -> GitMetadata {
    GitMetadata { repository_root: None, git_repository: false }
}

fn ids(snapshot: &WorkspaceRegistrySnapshot) -> Vec<String> {
    snapshot.workspaces.iter().map(|w| w.id.as_str().to_owned()).collect()
}

#[test]
fn rejects_non_utf8_path_encoding() {
    let invalid = vec![b'i', b'n', b'v', 0xFF];
    let error = path_to_string(&invalid).expect_err("non utf8");

    assert_eq!(error.code(), "unsupported_path_encoding");
}

#[test]
fn validates_paths_and_names() {
    assert_eq!(canonicalize_error(PathErrorKind::NotFound, String::new()).code(), "path_not_found");
    assert_eq!(
        check_canonical_directory("/w/file.txt", false, "/app-data/baibo")
            .expect_err("file")
            .code(),
        "not_directory"
    );
    assert_eq!(
        check_canonical_directory("/", true, "/app-data/baibo").expect_err("root").code(),
        "filesystem_root"
    );
    assert_eq!(
        check_canonical_directory("/app-data/baibo", true, "/app-data/baibo")
            .expect_err("app data")
            .code(),
        "app_data_directory"
    );
    assert!(check_canonical_directory("/w/project", true, "/app-data/baibo").is_ok());
    assert!(validate_name("  renamed  ").is_ok());
    assert_eq!(validate_name(" \n ").expect_err("empty").code(), "invalid_name");
    assert_eq!(validate_name(&"a".repeat(129)).expect_err("too long").code(), "invalid_name");
    assert_eq!(validate_name("bad\u{0000}name").expect_err("control").code(), "invalid_name");
}

#[test]
fn names_are_trimmed_and_bounded() {
    assert_eq!(validate_name("  项目一  ").expect("name"), "项目一");
    assert_eq!(validate_name(&"a".repeat(128)).expect("128 characters").chars().count(), 128);
    match validate_name("") {
        Err(WorkspaceError::InvalidName(message)) => assert_eq!(message, "工作空间名称不能为空"),
        other => panic!("unexpected {other:?}"),
    }
    match validate_name(&"名".repeat(129)) {
        Err(WorkspaceError::InvalidName(message)) => {
            assert_eq!(message, "工作空间名称不能超过 128 个字符")
        }
        other => panic!("unexpected {other:?}"),
    }
    match validate_name("a\tb") {
        Err(WorkspaceError::InvalidName(message)) => {
            assert_eq!(message, "工作空间名称不能包含控制字符")
        }
        other => panic!("unexpected {other:?}"),
    }
    assert_eq!(workspace_name_for("/home/u/project").expect("name"), "project");
    assert_eq!(workspace_name_for("/").expect_err("root").code(), "unsupported_path_encoding");
}

#[test]
fn registration_records_git_facts() {
    let git = git_metadata(GitDiscovery::Repository { canonical_root: b"/repo".to_vec() })
        .expect("git");
    assert!(git.git_repository);
    assert_eq!(git.repository_root.as_deref(), Some("/repo"));
    let plain = git_metadata(GitDiscovery::NotFound).expect("plain");
    assert!(!plain.git_repository);
    assert!(plain.repository_root.is_none());
    let failed = git_metadata(GitDiscovery::Failed { message: "broken".to_owned() });
    assert_eq!(failed.expect_err("failed").code(), "git_detection_failed");

    let new = new_registration("/repo/packages/app".to_owned(), git, 7).expect("registration");
    assert_eq!(new.name, "app");
    assert_eq!(new.canonical_path, "/repo/packages/app");
    assert_eq!(new.repository_root.as_deref(), Some("/repo"));
    assert!(new.git_repository);
    assert_eq!(new.now, 7);
    assert_eq!(new.id.as_str().len(), 36);
}

#[test]
fn registers_git_and_non_git_directories_and_activates_them() {
    let mut registry = WorkspaceRegistry::new();
    let first = registry.register(new_workspace("plain-id", "/w/plain", 1)).expect("plain");
    let mut git = new_workspace("git-id", "/w/git", 2);
    git.repository_root = Some("/w/git".to_owned());
    git.git_repository = true;
    let second = registry.register(git).expect("git");

    assert_eq!(first.workspaces.len(), 1);
    assert!(!first.workspaces[0].git_repository);
    assert_eq!(second.workspaces.len(), 2);
    let registered_git = second
        .workspaces
        .iter()
        .find(|workspace| workspace.name == "git")
        .expect("registered git");
    assert!(registered_git.git_repository);
    assert_eq!(registered_git.repository_root.as_deref(), Some("/w/git"));
    assert_eq!(second.active_workspace_id.as_ref(), Some(&registered_git.id));
}

#[test]
fn rejects_duplicate_canonical_paths_but_allows_siblings() {
    let mut registry = WorkspaceRegistry::new();
    registry.register(new_workspace("a", "/repo/first", 1)).expect("first register");
    let duplicate = registry.register(new_workspace("b", "/repo/first", 2)).expect_err("duplicate");
    let snapshot = registry.register(new_workspace("c", "/repo/second", 3)).expect("second register");

    assert_eq!(duplicate.code(), "duplicate_workspace");
    match duplicate {
        WorkspaceError::DuplicateWorkspace(name) => assert_eq!(name, "first"),
        other => panic!("unexpected {other:?}"),
    }
    assert_eq!(snapshot.workspaces.len(), 2);
}

#[test]
fn renames_switches_and_removes_without_touching_files() {
    let mut registry = WorkspaceRegistry::new();
    let first = registry.register(new_workspace("first", "/w/first", 1)).expect("first");
    let first_id = first.workspaces[0].id.clone();
    let second = registry.register(new_workspace("second", "/w/second", 2)).expect("second");
    let second_id = second.active_workspace_id.expect("second active");

    let opened = registry.open(&first_id, plain_git(), 3).expect("open first");
    assert_eq!(opened.active_workspace_id.as_ref(), Some(&first_id));
    assert_eq!(ids(&opened), vec!["first".to_owned(), "second".to_owned()]);
    let name = validate_name("  项目一  ").expect("name");
    let renamed = registry.rename(&first_id, name).expect("rename");
    assert_eq!(renamed.workspaces[0].name, "项目一");
    let removed = registry.remove(&first_id).expect("remove");

    assert_eq!(removed.active_workspace_id.as_ref(), Some(&second_id));
    assert_eq!(ids(&removed), vec!["second".to_owned()]);
}

#[test]
fn failed_workspace_ids_do_not_modify_another_workspace() {
    let mut registry = WorkspaceRegistry::new();
    let registered = registry.register(new_workspace("kept", "/w/kept", 1)).expect("register");

    let error = registry
        .rename(&WorkspaceId::from("unknown".to_owned()), "changed".to_owned())
        .expect_err("unknown id");
    let after = registry.snapshot();

    assert_eq!(error.code(), "workspace_not_found");
    assert_eq!(ids(&after), ids(&registered));
    assert_eq!(after.workspaces[0].name, registered.workspaces[0].name);
    assert_eq!(after.active_workspace_id, registered.active_workspace_id);
}

#[test]
fn keeps_registration_when_the_path_disappears() {
    let mut registry = WorkspaceRegistry::new();
    let first = registry.register(new_workspace("first", "/w/first", 1)).expect("first");
    let first_id = first.active_workspace_id.expect("first active");
    let second = registry.register(new_workspace("second", "/w/second", 2)).expect("second");
    let second_id = second.active_workspace_id.expect("second active");

    let error = unavailable_when_missing(WorkspaceError::PathNotFound, "first".to_owned());
    let snapshot = registry.snapshot();

    assert_eq!(error.code(), "workspace_unavailable");
    assert_eq!(snapshot.active_workspace_id.as_ref(), Some(&second_id));
    assert!(snapshot.workspaces.iter().any(|workspace| workspace.id == first_id));
    assert_eq!(
        unavailable_when_missing(WorkspaceError::FilesystemRoot, "x".to_owned()).code(),
        "filesystem_root"
    );
}

#[test]
fn snapshot_lists_recently_opened_first() {
    let mut registry = WorkspaceRegistry::new();
    registry.register(new_workspace("a", "/w/a", 10)).expect("a");
    registry.register(new_workspace("b", "/w/b", 20)).expect("b");
    registry.register(new_workspace("c", "/w/c", 20)).expect("c");
    assert_eq!(ids(&registry.snapshot()), vec!["b".to_owned(), "c".to_owned(), "a".to_owned()]);
    let opened = registry.open(&WorkspaceId::from("a".to_owned()), plain_git(), 25).expect("open");
    assert_eq!(ids(&opened), vec!["a".to_owned(), "b".to_owned(), "c".to_owned()]);
    assert_eq!(opened.workspaces[0].last_opened_at, 25);
    let stale_clock = registry.open(&WorkspaceId::from("c".to_owned()), plain_git(), 5).expect("open c");
    assert_eq!(ids(&stale_clock), vec!["a".to_owned(), "c".to_owned(), "b".to_owned()]);
    assert_eq!(stale_clock.workspaces[1].last_opened_at, 21);
}

#[test]
fn removing_the_active_workspace_activates_the_first_listed() {
    let mut registry = WorkspaceRegistry::new();
    registry.register(new_workspace("a", "/w/a", 1)).expect("a");
    registry.register(new_workspace("b", "/w/b", 3)).expect("b");
    registry.register(new_workspace("c", "/w/c", 2)).expect("c");
    let removed = registry.remove(&WorkspaceId::from("c".to_owned())).expect("remove");
    assert_eq!(removed.active_workspace_id, Some(WorkspaceId::from("b".to_owned())));
    let last = registry.remove(&WorkspaceId::from("a".to_owned())).expect("remove a");
    assert_eq!(last.active_workspace_id, Some(WorkspaceId::from("b".to_owned())));
    let empty = registry.remove(&WorkspaceId::from("b".to_owned())).expect("remove b");
    assert!(empty.active_workspace_id.is_none());
    assert!(empty.workspaces.is_empty());
    assert_eq!(
        registry.remove(&WorkspaceId::from("b".to_owned())).expect_err("gone").code(),
        "workspace_not_found"
    );
}

#[test]
fn workspace_errors_hide_details() {
    let reported = CommandError::from(WorkspaceError::database("disk I/O error at /secret".to_owned()));
    assert_eq!(reported.code, "database_unavailable");
    assert!(!reported.message.contains("/secret"));
    assert_eq!(millis_to_timestamp(5).expect("time"), 5);
    assert_eq!(
        millis_to_timestamp(u128::MAX).expect_err("clock").code(),
        "clock_unavailable"
    );
    assert_eq!(WorkspaceError::migration("x".to_owned()).code(), "migration_failed");
    assert_eq!(
        WorkspaceError::not_found(&WorkspaceId::from("w".to_owned())).code(),
        "workspace_not_found"
    );
}

#[test]
fn keeps_selected_subdirectory_and_discovers_repository_root() {
    let git = git_metadata(GitDiscovery::Repository { canonical_root: b"/w/repo".to_vec() })
        .expect("git");
    let new = new_registration("/w/repo/packages/app".to_owned(), git, 1).expect("register");
    let mut registry = WorkspaceRegistry::new();
    let snapshot = registry.register(new).expect("register");
    let workspace = &snapshot.workspaces[0];

    assert_eq!(workspace.canonical_path, "/w/repo/packages/app");
    assert_eq!(workspace.repository_root.as_deref(), Some("/w/repo"));
    assert_eq!(workspace.name, "app");
}

#[test]
fn resolves_symlinks_before_duplicate_detection() {
    let mut registry = WorkspaceRegistry::new();
    registry.register(new_workspace("real", "/w/real", 1)).expect("real register");
    let linked = new_workspace("linked", "/w/real", 2);
    let error = registry.register(linked).expect_err("symlink duplicate");

    assert_eq!(error.code(), "duplicate_workspace");
}

#[test]
fn registers_a_bare_repository() {
    let git = git_metadata(GitDiscovery::Repository { canonical_root: b"/w/bare.git".to_vec() })
        .expect("bare repository");
    let new = new_registration("/w/bare.git".to_owned(), git, 1).expect("register bare");
    let mut registry = WorkspaceRegistry::new();
    let snapshot = registry.register(new).expect("register bare");
    let workspace = &snapshot.workspaces[0];

    assert!(workspace.git_repository);
    assert_eq!(workspace.repository_root.as_deref(), Some("/w/bare.git"));
}

#[test]
fn detects_a_linked_git_worktree() {
    let git = git_metadata(GitDiscovery::Repository {
        canonical_root: b"/w/linked-worktree".to_vec(),
    })
    .expect("linked worktree");
    let new = new_registration("/w/linked-worktree".to_owned(), git, 1).expect("register worktree");

    assert!(new.git_repository);
    assert_eq!(new.repository_root.as_deref(), Some("/w/linked-worktree"));
}

#[test]
fn concurrent_duplicate_registration_has_one_winner() {
    let mut registry = WorkspaceRegistry::new();
    let results = [
        registry.register(new_workspace("first", "/w/shared", 1)),
        registry.register(new_workspace("second", "/w/shared", 1)),
    ];
    let successes = results.iter().filter(|result| result.is_ok()).count();
    let duplicates = results
        .iter()
        .filter(|result| {
            result
                .as_ref()
                .is_err_and(|error| error.code() == "duplicate_workspace")
        })
        .count();

    assert_eq!(successes, 1);
    assert_eq!(duplicates, 1);
    assert_eq!(registry.snapshot().workspaces.len(), 1);
}

#[test]
fn rejects_unreadable_directories() {
    let error = canonicalize_error(PathErrorKind::PermissionDenied, "denied".to_owned());
    assert_eq!(error.code(), "path_unreadable");
    match error {
        WorkspaceError::PathUnreadable(message) => assert_eq!(message, "没有权限访问该目录"),
        other => panic!("unexpected {other:?}"),
    }
    match canonicalize_error(PathErrorKind::Other, "I/O error".to_owned()) {
        WorkspaceError::PathUnreadable(message) => assert_eq!(message, "I/O error"),
        other => panic!("unexpected {other:?}"),
    }
}

#[test]
fn database_errors_keep_their_code() {
    let error = WorkspaceError::from_database(rusqlite::Error::QueryReturnedNoRows);
    assert_eq!(error.code(), "database_unavailable");
    match error {
        WorkspaceError::Database(detail) => assert!(!detail.is_empty()),
        other => panic!("unexpected {other:?}"),
    }
}
