use amx::exit;
use amx::store::Meta;
use amx::verbs::diff::{run, shown, viewer_ended, Shown};

/// A record of an agent, with its tree wherever the test wants it.
fn record(id: &str, worktree: Option<&str>) -> Meta {
    Meta {
        id: id.to_string(),
        task: "fix the login bug".to_string(),
        agent: None,
        dir: worktree.unwrap_or("/srv/app").to_string(),
        worktree: worktree.map(str::to_string),
        branch: worktree.map(|_| format!("amx/{id}")),
        base: worktree.map(|_| "0f1e2d3".to_string()),
        pane: "%1".to_string(),
        session: None,
        parent: None,
    }
}

#[test]
fn diff_has_nothing_to_compare_for_an_agent_without_a_tree() {
    let said = run(&record("no-tree-b2c", None), "no-tree-b2c", false).unwrap_err();
    assert!(said.contains("no worktree"), "{said}");
    assert!(
        said.contains("/srv/app"),
        "and it names where the work happens instead: {said}"
    );
}

#[test]
fn diff_says_where_the_work_went_when_the_tree_is_gone() {
    let meta = record("fix-login-a1b", Some("/srv/app/.amx/worktrees/fix-login-a1b"));
    let said = run(&meta, "fix-login-a1b", false).unwrap_err();
    assert!(said.contains("gone"), "{said}");
    assert!(said.contains("amx/fix-login-a1b"), "{said}");
    assert_eq!(
        said,
        "/srv/app/.amx/worktrees/fix-login-a1b is gone; what `fix-login-a1b` did is on amx/fix-login-a1b"
    );
}

#[test]
fn a_viewer_that_failed_is_a_failure_of_its_own() {
    let (code, said) = viewer_ended("exit 3", Some(3));
    assert_eq!(code, exit::FAILURE);
    assert_eq!(said.as_deref(), Some("amx diff: exit 3 exited 3"));
}

#[test]
fn a_tree_that_is_there_is_measured_from_where_it_was_cut() {
    let meta = record("fix-login-a1b", Some("/srv/app/.amx/worktrees/fix-login-a1b"));
    assert_eq!(
        run(&meta, "fix-login-a1b", true),
        Ok((
            "/srv/app/.amx/worktrees/fix-login-a1b".to_string(),
            "0f1e2d3".to_string()
        ))
    );
}

#[test]
fn a_tree_gone_with_no_branch_says_only_that() {
    let mut meta = record("fix-login-a1b", Some("/tmp/t"));
    meta.branch = None;
    assert_eq!(run(&meta, "fix-login-a1b", false), Err("/tmp/t is gone".to_string()));
}

#[test]
fn the_whole_refusal_for_an_agent_without_a_tree() {
    assert_eq!(
        run(&record("no-tree-b2c", None), "no-tree-b2c", true),
        Err("`no-tree-b2c` has no worktree of its own; it works in /srv/app, so there is nothing to compare it against".to_string())
    );
}

#[test]
fn a_viewer_that_read_to_the_end_is_the_verb_done() {
    assert_eq!(viewer_ended("less -R", Some(0)), (exit::OK, None));
    assert_eq!(viewer_ended("less -R", None), (exit::FAILURE, None));
    assert_eq!(
        viewer_ended("delta", Some(-1)).1.as_deref(),
        Some("amx diff: delta exited -1")
    );
}

#[test]
fn a_patch_goes_to_the_viewer_only_on_a_terminal_and_never_for_a_stat() {
    assert_eq!(shown(false, true, Some("delta")), Shown::Viewer("delta".to_string()));
    assert_eq!(shown(true, true, Some("delta")), Shown::Git);
    assert_eq!(shown(false, false, Some("delta")), Shown::Git);
    assert_eq!(shown(false, true, None), Shown::Git);
}
