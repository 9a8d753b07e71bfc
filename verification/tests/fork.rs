use amx::store::Meta;
use amx::vendor::{self, Capability, SessionSpec, Vendor};
use amx::verbs::fork::{cannot_branch, copied_session, copying, run, Fork};
use amx::verbs::resume::{is_session_id, Handoff};

fn second() -> Vendor {
    Vendor {
        name: "second".to_string(),
        capabilities: vec![Capability::Adopt, Capability::Resume],
        session: Some(SessionSpec {
            resume: "-c".to_string(),
            joined: false,
            conflicts: vec!["--open".to_string()],
            fork: None,
        }),
    }
}

fn handoff(command: &[&str], task: &str) -> Handoff {
    Handoff {
        task: task.to_string(),
        command: command.iter().map(|word| word.to_string()).collect(),
    }
}

fn meta(id: &str, session: Option<&str>) -> Meta {
    Meta {
        id: id.to_string(),
        task: "fix the login bug".to_string(),
        agent: None,
        dir: "/srv/app".to_string(),
        worktree: None,
        branch: None,
        base: None,
        pane: "%7".to_string(),
        session: session.map(str::to_string),
        parent: None,
    }
}

#[test]
fn fork_asks_the_vendor_to_copy_the_session_the_agent_opened() {
    let started = handoff(
        &["first", "--model", "opus", "fix the login bug"],
        "fix the login bug",
    );
    assert_eq!(
        copying(&started, "abc-123", None),
        ["first", "--model", "opus", "--resume=abc-123", "--fork-session"]
    );
}

#[test]
fn fork_puts_a_task_of_its_own_where_a_prompt_goes() {
    let started = handoff(
        &["first", "--model", "opus", "fix the login bug"],
        "fix the login bug",
    );
    assert_eq!(
        copying(&started, "abc-123", Some("now do it with sqlite")),
        [
            "first",
            "--model",
            "opus",
            "--resume=abc-123",
            "--fork-session",
            "now do it with sqlite"
        ]
    );
}

#[test]
fn fork_carries_everything_the_agent_was_started_with() {
    let started = handoff(
        &[
            "first",
            "--model",
            "opus",
            "--add-dir",
            "/srv/data",
            "--verbose",
            "port the importer",
        ],
        "port the importer",
    );
    assert_eq!(
        copying(&started, "abc-123", None),
        [
            "first",
            "--model",
            "opus",
            "--add-dir",
            "/srv/data",
            "--verbose",
            "--resume=abc-123",
            "--fork-session"
        ]
    );
}

#[test]
fn fork_asks_for_one_session_and_forks_it_once() {
    for written in [
        &["first", "--add-dir", "/srv/data", "--resume=old"][..],
        &["first", "--add-dir", "/srv/data", "--resume", "old"],
        &["first", "--add-dir", "/srv/data", "-r", "old"],
        &["first", "--session-id", "old", "--add-dir", "/srv/data"],
        &["first", "--add-dir", "/srv/data", "--resume=old", "--fork-session"],
    ] {
        let started = handoff(written, "go");
        assert_eq!(
            copying(&started, "def-456", None),
            ["first", "--add-dir", "/srv/data", "--resume=def-456", "--fork-session"],
            "{written:?}"
        );
    }

    let started = handoff(&["first", "--resume", "--verbose", "go"], "go");
    assert_eq!(
        copying(&started, "def-456", None),
        ["first", "--verbose", "--resume=def-456", "--fork-session"]
    );
}

#[test]
fn fork_refuses_a_vendor_that_cannot_branch_a_conversation() {
    let said = cannot_branch(Some(&second()), "fix-login-a1b").expect("it cannot fork");
    assert!(said.contains("fix-login-a1b"), "{said}");
    assert!(said.contains("second"), "{said}");
    assert!(said.contains("cannot branch a conversation"), "{said}");
    assert!(said.contains("amx resume fix-login-a1b"), "{said}");

    assert_eq!(
        cannot_branch(vendor::entry("first").as_ref(), "fix-login-a1b"),
        None,
        "the vendor amx was written against can"
    );
    assert_eq!(cannot_branch(None, "fix-login-a1b"), None);
}

#[test]
fn fork_hands_on_a_session_id_and_nothing_else() {
    assert!(is_session_id("6f1c9f4e-0d5b-4a51-9f6e-2b1f0c3d4e5a"));
    assert!(is_session_id("abc_123"));

    assert!(!is_session_id(""));
    assert!(!is_session_id("--dangerously-skip-permissions"));
    assert!(!is_session_id("abc 123"));
    assert!(!is_session_id("$(rm -rf /)"));
    assert!(!is_session_id("../../elsewhere"));
    assert!(!is_session_id(&"a".repeat(65)));
}

#[test]
fn fork_refuses_an_agent_that_never_recorded_a_session_and_says_why() {
    let said = copied_session(&meta("fix-login-a1b", None)).unwrap_err();
    assert!(said.contains("fix-login-a1b"), "{said}");
    assert!(said.contains("no conversation to copy"), "{said}");
    assert!(said.contains("amx new"), "{said}");

    let said =
        copied_session(&meta("fix-login-a1b", Some("--dangerously-skip-permissions"))).unwrap_err();
    assert!(said.contains("not a session id"), "{said}");

    assert_eq!(
        copied_session(&meta("fix-login-a1b", Some("abc-123"))).unwrap(),
        "abc-123"
    );
}

#[test]
fn a_copy_of_a_copy_asks_for_one_fork() {
    let started = handoff(&["first", "--add-dir", "/srv/data", "go"], "go");
    let copy = Handoff {
        command: copying(&started, "abc-123", None),
        ..started
    };
    assert_eq!(
        copying(&copy, "def-456", None),
        ["first", "--add-dir", "/srv/data", "--resume=def-456", "--fork-session"]
    );
}

const SESSION: &str = "0f9a7c2e-1b3d-4e5f-8a6b-7c8d9e0f1a2b";

#[test]
fn fork_copies_the_session_under_the_task_it_was_given() {
    let started = handoff(&["first", "fix the login bug"], "fix the login bug");
    let origin = meta("fix-login-a1b", Some(SESSION));
    let first = vendor::first();
    assert_eq!(
        run(&origin, true, &started, Some(&first), 2, 8, None),
        Fork::Copy {
            session: SESSION.to_string(),
            task: "fix the login bug".to_string(),
            command: vec![
                "first".to_string(),
                format!("--resume={SESSION}"),
                "--fork-session".to_string()
            ],
        }
    );
    match run(&origin, true, &started, Some(&first), 2, 8, Some("now with sqlite")) {
        Fork::Copy { task, .. } => assert_eq!(task, "now with sqlite"),
        other => panic!("{other:?}"),
    }
}

#[test]
fn fork_refuses_before_anything_is_made() {
    let started = handoff(&["first", "fix the login bug"], "fix the login bug");
    let first = vendor::first();
    match run(&meta("fix-login-a1b", None), true, &started, Some(&first), 0, 8, None) {
        Fork::Refused(why) => assert!(why.contains("no session was ever recorded"), "{why}"),
        other => panic!("{other:?}"),
    }
    assert_eq!(
        run(&meta("fix-login-a1b", Some(SESSION)), false, &started, Some(&first), 0, 8, None),
        Fork::Refused("/srv/app is gone, and it is where fix-login-a1b ran".to_string())
    );
    match run(&meta("fix-login-a1b", Some(SESSION)), true, &started, Some(&second()), 0, 8, None) {
        Fork::Refused(why) => assert!(why.contains("second"), "{why}"),
        other => panic!("{other:?}"),
    }
    assert_eq!(
        run(&meta("fix-login-a1b", Some(SESSION)), true, &started, Some(&first), 8, 8, None),
        Fork::Full("amx fork: 8 agents already running, and max_agents is 8".to_string())
    );
}
