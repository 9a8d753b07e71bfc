use amx::verbs::stop::{asked, must_ask, prompt, reply, Disposition};

/// What was typed, as a line reader hands it over: nothing at all is nobody
/// there to type.
fn line(typed: &str) -> Option<&str> {
    match typed {
        "" => None,
        _ => Some(typed),
    }
}

fn ask(told: Option<Disposition>, force: bool, fallback: Disposition, typed: &str) -> Disposition {
    asked(told, force, fallback, "delete it?", line(typed)).0
}

#[test]
fn stop_a_flag_is_the_answer_and_nobody_is_asked() {
    let (answer, out) = asked(
        Some(Disposition::Keep),
        false,
        Disposition::Delete,
        "delete it?",
        Some("y\n"),
    );
    assert_eq!(answer, Disposition::Keep);
    assert!(out.is_empty(), "and nothing was asked: {out:?}");
    assert!(!must_ask(Some(Disposition::Keep), false));
}

#[test]
fn stop_force_takes_the_default_without_asking() {
    let (answer, out) = asked(None, true, Disposition::Delete, "delete it?", Some("n\n"));
    assert_eq!(answer, Disposition::Delete);
    assert!(out.is_empty(), "{out:?}");
    assert!(!must_ask(None, true));
}

#[test]
fn stop_a_typed_answer_decides() {
    assert_eq!(ask(None, false, Disposition::Delete, "n\n"), Disposition::Keep);
    assert_eq!(ask(None, false, Disposition::Keep, "y\n"), Disposition::Delete);
    assert_eq!(ask(None, false, Disposition::Keep, "yes\n"), Disposition::Delete);
}

#[test]
fn stop_the_default_answers_for_a_shrug() {
    for typed in ["\n", "maybe\n", ""] {
        assert_eq!(
            ask(None, false, Disposition::Delete, typed),
            Disposition::Delete,
            "{typed:?}"
        );
        assert_eq!(
            ask(None, false, Disposition::Keep, typed),
            Disposition::Keep,
            "{typed:?}"
        );
    }
}

#[test]
fn stop_the_question_shows_which_way_enter_goes() {
    let (_, asked) = asked(
        None,
        false,
        Disposition::Delete,
        "delete the worktree?",
        Some("\n"),
    );
    assert!(asked.contains("delete the worktree?"), "{asked}");
    assert!(asked.contains("[Y/n]"), "{asked}");
    assert!(must_ask(None, false));
}

#[test]
fn a_shouted_answer_is_the_same_answer() {
    assert_eq!(reply(Some("  YES \n"), Disposition::Keep), Disposition::Delete);
    assert_eq!(reply(Some("No"), Disposition::Delete), Disposition::Keep);
    assert_eq!(reply(None, Disposition::Keep), Disposition::Keep);
}

#[test]
fn the_branch_question_leans_towards_keeping() {
    assert_eq!(prompt("delete the branch amx/x?", Disposition::Keep), "delete the branch amx/x? [y/N] ");
}

#[test]
fn nobody_at_the_keyboard_still_ends_the_line() {
    let (answer, out) = asked(None, false, Disposition::Keep, "delete it?", None);
    assert_eq!(answer, Disposition::Keep);
    assert_eq!(out, "delete it? [y/N] \n");
}

use amx::store::Meta;
use amx::verbs::stop::{branch_asks, branch_kept, descendants, run, tree_step, TreeStep};

fn record(id: &str, parent: Option<&str>) -> Meta {
    Meta {
        id: id.to_string(),
        task: "fix the login bug".to_string(),
        agent: None,
        dir: "/srv/app".to_string(),
        worktree: None,
        branch: None,
        base: None,
        pane: "%1".to_string(),
        session: None,
        parent: parent.map(str::to_string),
    }
}

#[test]
fn the_family_is_ended_deepest_first_and_by_id_among_equals() {
    let records = vec![
        record("root-a1b", None),
        record("kid-b", Some("root-a1b")),
        record("kid-a", Some("root-a1b")),
        record("grandkid", Some("kid-b")),
        record("stranger", None),
        record("orphan", Some("gone-z9z")),
    ];
    assert_eq!(descendants(&records, "root-a1b"), ["grandkid", "kid-a", "kid-b"]);
    assert_eq!(descendants(&records, "kid-b"), ["grandkid"]);
    assert!(descendants(&records, "stranger").is_empty());
}

#[test]
fn a_circle_of_parents_is_walked_once() {
    let records = vec![
        record("a", Some("b")),
        record("b", Some("a")),
        record("self", Some("self")),
        record("c", Some("a")),
    ];
    assert_eq!(descendants(&records, "a"), ["b", "c"]);
    assert!(descendants(&records, "self").is_empty());
}

#[test]
fn stop_ends_the_one_named_and_then_its_family_unless_it_stands() {
    let records = vec![record("p", None), record("c", Some("p")), record("g", Some("c"))];
    assert_eq!(run(&records, "p", false), ["p", "g", "c"]);
    assert_eq!(run(&records, "p", true), ["p"]);
}

#[test]
fn work_no_commit_has_is_kept_before_anybody_is_asked() {
    let tree = Some("/srv/app/.amx/worktrees/fix-a1b");
    let branch = Some("amx/fix-a1b");
    assert_eq!(
        tree_step(tree, branch, true, Some(true)),
        TreeStep::Keep("keeping /srv/app/.amx/worktrees/fix-a1b: it holds work no commit has".to_string())
    );
    assert!(matches!(tree_step(tree, branch, true, None), TreeStep::Keep(_)));
    assert_eq!(
        tree_step(tree, branch, true, Some(false)),
        TreeStep::Ask("delete the worktree /srv/app/.amx/worktrees/fix-a1b?".to_string())
    );
    assert!(matches!(tree_step(tree, branch, false, Some(true)), TreeStep::Ask(_)));
    assert_eq!(tree_step(None, branch, true, Some(true)), TreeStep::Nothing);
    assert_eq!(
        branch_kept("/t", "amx/x", true).as_deref(),
        Some("kept amx/x: /t still has it checked out")
    );
    assert_eq!(branch_kept("/t", "amx/x", false), None);
    assert_eq!(branch_asks("amx/x"), "delete the branch amx/x?");
}

#[test]
fn keep_is_the_one_disposition_that_keeps() {
    assert!(Disposition::Keep.is_keep());
    assert!(!Disposition::Delete.is_keep());
}
