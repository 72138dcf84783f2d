use gitops_bootstrap::git::{repo_name_of, GitManager, SyncStep};

#[test]
fn test_git_manager_creation() {
    let mgr = GitManager::new("https://example.com/repo.git").unwrap();
    assert_eq!(mgr.repo_url, "https://example.com/repo.git");
    // Ensure cache directory has the expected suffix
    assert!(mgr.cache_dir.contains("gitops-bootstrap-tui"));
    assert!(std::path::Path::new(&mgr.repo_dir).ends_with("repo"));
}

#[test]
fn repo_name_drops_every_trailing_git() {
    assert_eq!(repo_name_of("https://github.com/org/templates.git.git"), "templates");
    assert_eq!(repo_name_of("git@host:org/flux.git"), "flux");
    assert_eq!(repo_name_of("plain-name"), "plain-name");
    assert_eq!(repo_name_of("https://host/dir/"), "");
    assert_eq!(repo_name_of(".git"), "");
}

#[test]
fn manager_without_cache_dir_is_an_error() {
    let err = GitManager::with_cache_dir("https://example.com/repo.git", None).unwrap_err();
    assert_eq!(err, "Could not determine config directory");
}

#[test]
fn manager_places_clone_below_cache_dir() {
    let mgr = GitManager::with_cache_dir("https://example.com/x/flux-templates.git", Some("/tmp/cache".to_string())).unwrap();
    assert_eq!(mgr.cache_dir, "/tmp/cache");
    assert_eq!(mgr.repo_dir, "/tmp/cache/flux-templates");
    assert_eq!(mgr.git_dir(), "/tmp/cache/flux-templates/.git");
    let mgr = GitManager::with_cache_dir("repo", Some("/c/".to_string())).unwrap();
    assert_eq!(mgr.repo_dir, "/c/repo");
}

#[test]
fn sync_pulls_only_into_a_clone() {
    assert_eq!(GitManager::sync_step(false, true), SyncStep::Pull);
    assert_eq!(GitManager::sync_step(true, true), SyncStep::Clone);
    assert_eq!(GitManager::sync_step(false, false), SyncStep::Clone);
    assert_eq!(GitManager::sync_step(true, false), SyncStep::Clone);
}

#[test]
fn sync_commands_name_the_directory() {
    let mgr = GitManager::with_cache_dir("https://e.com/r.git", Some("/c".to_string())).unwrap();
    let pull = mgr.sync_command(SyncStep::Pull);
    assert_eq!(pull.args, vec!["-C", "/c/r", "pull"]);
    assert_eq!(pull.failure, "Failed to pull latest changes from git repository");
    let clone = mgr.sync_command(SyncStep::Clone);
    assert_eq!(clone.args, vec!["clone", "https://e.com/r.git", "/c/r"]);
    assert_eq!(clone.failure, "Failed to clone git repository");
}
