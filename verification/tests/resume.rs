use amx::exit;
use amx::store::{Meta, Phase, State};
use amx::vendor::{self, Capability, SessionSpec, Vendor};
use amx::verbs::resume::{
    again, at_capacity, build_continuation, cannot_continue, continuing, is_session_id, refusal,
    fresh_turn, still_going, to_bring_back, to_continue, to_start, vendor_of, Comeback, Handoff,
    NOTHING_BACK,
};
use amx::derive::{Evidence, Reading, Verdict};

/// A vendor of the table's shape that resumes by a word of its own and
/// spells its conflict nothing like first does.
fn second() -> Vendor {
    Vendor {
        name: "second".to_string(),
        capabilities: vec![Capability::Adopt, Capability::Resume],
        session: Some(SessionSpec {
            resume: "-c".to_string(),
            joined: false,
            conflicts: vec!["--open".to_string()],
            fork: None,
        }),
    }
}

fn handoff(command: &[&str], task: &str) -> Handoff {
    Handoff {
        task: task.to_string(),
        command: command.iter().map(|word| word.to_string()).collect(),
    }
}

fn meta(id: &str, session: Option<&str>) -> Meta {
    Meta {
        id: id.to_string(),
        task: "fix the login bug".to_string(),
        agent: Some("first".to_string()),
        dir: "/srv/app".to_string(),
        worktree: None,
        branch: None,
        base: None,
        pane: "%7".to_string(),
        session: session.map(str::to_string),
        parent: None,
    }
}

#[test]
fn resume_refuses_a_vendor_that_cannot_carry_a_session_on() {
    let cannot = Vendor {
        capabilities: vec![Capability::Adopt],
        ..second()
    };
    let said = cannot_continue(Some(&cannot), "fix-login-a1b").expect("it cannot resume");
    assert!(said.contains("fix-login-a1b"), "{said}");
    assert!(said.contains(&cannot.name), "{said}");
    assert!(said.contains("carry a session on"), "{said}");
    assert!(said.contains("amx new"), "{said}");

    assert_eq!(cannot_continue(Some(&second()), "fix-login-a1b"), None);
    assert_eq!(
        cannot_continue(vendor::entry("first").as_ref(), "fix-login-a1b"),
        None,
        "the vendor amx was written against can"
    );
    assert_eq!(cannot_continue(None, "fix-login-a1b"), None);
}

#[test]
fn resume_refuses_a_vendor_that_names_no_session_vocabulary() {
    let cannot = Vendor {
        session: None,
        ..second()
    };
    assert!(cannot.can(Capability::Resume));
    let said = cannot_continue(Some(&cannot), "fix-login-a1b").expect("it names no session vocabulary");
    assert!(said.contains("fix-login-a1b"), "{said}");
    assert!(said.contains(&cannot.name), "{said}");
    assert!(said.contains("no session vocabulary"), "{said}");
    assert!(said.contains("amx new"), "{said}");
}

#[test]
fn resume_reads_a_different_vendors_own_spelling_off_the_table() {
    let spec = second().session.expect("the second vendor names a session");
    let started = handoff(&["second", "--open", "old", "go"], "go");
    assert_eq!(
        build_continuation(&started, "abc-123", &spec),
        ["second", "-c", "abc-123"]
    );
}

#[test]
fn resume_says_which_half_is_missing_before_it_starts_anything() {
    let said = to_start(false, None, "fix-login-a1b").expect("no handoff at all");
    assert!(said.contains("started by hand"), "{said}");

    let recorded = handoff(&["first", "go"], "go");
    assert_eq!(to_start(true, vendor_of(&recorded).as_ref(), "fix-login-a1b"), None);

    let unmeasured = handoff(&["mock-first", "go"], "go");
    assert_eq!(to_start(true, vendor_of(&unmeasured).as_ref(), "fix-login-a1b"), None);

    let cannot = Vendor {
        capabilities: vec![Capability::Adopt],
        ..second()
    };
    let said = to_start(true, Some(&cannot), "fix-login-a1b").expect("it cannot resume");
    assert!(said.contains("carry a session on"), "{said}");
}

#[test]
fn resume_asks_the_vendor_to_continue_the_session_it_opened() {
    let started = handoff(
        &["first", "--model", "opus", "fix the login bug"],
        "fix the login bug",
    );
    assert_eq!(
        continuing(&started, "abc-123"),
        ["first", "--model", "opus", "--resume=abc-123"]
    );
}

#[test]
fn resume_does_not_put_the_task_a_second_time() {
    let started = handoff(&["first", "--model", "--model"], "--model");
    assert_eq!(continuing(&started, "abc"), ["first", "--model", "--resume=abc"]);
}

#[test]
fn resume_drops_the_flag_that_would_start_a_session_instead() {
    for started in [
        handoff(&["first", "--session-id", "abc-123", "--model", "opus", "go"], "go"),
        handoff(&["first", "--session-id=abc-123", "--model", "opus", "go"], "go"),
    ] {
        assert_eq!(
            continuing(&started, "abc-123"),
            ["first", "--model", "opus", "--resume=abc-123"],
            "{:?}",
            started.command
        );
    }
}

#[test]
fn clibatch_resume_carries_everything_the_agent_was_started_with() {
    let started = handoff(
        &[
            "first",
            "--model",
            "opus",
            "--add-dir",
            "/srv/data",
            "--verbose",
            "port the importer",
        ],
        "port the importer",
    );
    assert_eq!(
        continuing(&started, "abc-123"),
        [
            "first",
            "--model",
            "opus",
            "--add-dir",
            "/srv/data",
            "--verbose",
            "--resume=abc-123"
        ]
    );
}

#[test]
fn clibatch_resuming_twice_asks_for_one_session_and_not_two() {
    let started = handoff(&["first", "--add-dir", "/srv/data", "go"], "go");
    let after_one = Handoff {
        command: continuing(&started, "abc-123"),
        ..started
    };
    assert_eq!(
        continuing(&after_one, "def-456"),
        ["first", "--add-dir", "/srv/data", "--resume=def-456"]
    );

    for written in [
        &["first", "--resume", "old", "go"][..],
        &["first", "--resume=old", "go"],
        &["first", "-r", "old", "go"],
    ] {
        let started = handoff(written, "go");
        assert_eq!(
            continuing(&started, "def-456"),
            ["first", "--resume=def-456"],
            "{written:?}"
        );
    }

    let started = handoff(&["first", "--resume", "--verbose", "go"], "go");
    assert_eq!(
        continuing(&started, "def-456"),
        ["first", "--verbose", "--resume=def-456"]
    );
}

#[test]
fn resume_drops_the_flag_naming_the_session_a_copy_was_branched_from() {
    let spec = vendor::entry("pi")
        .and_then(|pi| pi.session)
        .expect("pi declares a session vocabulary");
    for written in [
        &["pi", "--fork", "abc-123", "--session-id", "port-it-b2c", "go"][..],
        &["pi", "--fork=abc-123", "--session-id=port-it-b2c", "go"],
    ] {
        let started = handoff(written, "go");
        assert_eq!(
            build_continuation(&started, "port-it-b2c", &spec),
            ["pi", "--session-id", "port-it-b2c"],
            "{written:?}"
        );
    }
}

#[test]
fn resume_leaves_a_bare_fork_marker_where_the_vendor_wrote_it() {
    let spec = vendor::entry("first")
        .and_then(|first| first.session)
        .expect("first declares a session vocabulary");
    let started = handoff(&["first", "--resume=abc-123", "--fork-session", "go"], "go");
    assert_eq!(
        build_continuation(&started, "def-456", &spec),
        ["first", "--fork-session", "--resume=def-456"]
    );
}

#[test]
fn resume_hands_on_a_session_id_and_nothing_else() {
    assert!(is_session_id("6f1c9f4e-0d5b-4a51-9f6e-2b1f0c3d4e5a"));
    assert!(is_session_id("abc_123"));

    assert!(!is_session_id(""));
    assert!(!is_session_id("--dangerously-skip-permissions"));
    assert!(!is_session_id("abc 123"));
    assert!(!is_session_id("$(rm -rf /)"));
    assert!(!is_session_id("../../elsewhere"));
    assert!(!is_session_id(&"a".repeat(65)));
    assert!(is_session_id(&"a".repeat(64)));
}

#[test]
fn pi_is_told_its_own_spelling_by_the_program_it_runs() {
    let started = handoff(&["/usr/local/bin/pi", "--session-id", "old", "go"], "go");
    assert_eq!(
        continuing(&started, "new-1"),
        ["/usr/local/bin/pi", "--session-id", "new-1"]
    );
}

#[test]
fn a_door_to_an_agent_says_which_half_is_missing() {
    let recorded = handoff(&["first", "go"], "go");
    let runs = vendor_of(&recorded);
    let runs = runs.as_ref();
    match again(&meta("fix-login-a1b", None), true, runs, 0, 8) {
        Comeback::No(why) => assert!(why.contains("no session was ever recorded"), "{why}"),
        Comeback::Back => panic!("an agent with no session came back"),
    }
    match again(&meta("fix-login-a1b", Some("--evil")), true, runs, 0, 8) {
        Comeback::No(why) => assert!(why.contains("not a session id"), "{why}"),
        Comeback::Back => panic!("a flag was handed on as a session"),
    }
    match again(&meta("fix-login-a1b", Some("abc-123")), false, None, 0, 8) {
        Comeback::No(why) => assert!(why.contains("started by hand"), "{why}"),
        Comeback::Back => panic!("an adopted agent was started again"),
    }
    match again(&meta("fix-login-a1b", Some("abc-123")), true, runs, 8, 8) {
        Comeback::No(why) => assert_eq!(why, "8 agents already running, and max_agents is 8"),
        Comeback::Back => panic!("a full machine took another agent"),
    }
    let cannot = Vendor {
        capabilities: vec![Capability::Adopt],
        ..second()
    };
    match again(&meta("fix-login-a1b", Some("abc-123")), true, Some(&cannot), 0, 8) {
        Comeback::No(why) => assert!(why.contains("cannot be told to carry a session on"), "{why}"),
        Comeback::Back => panic!("a vendor that cannot resume was asked to"),
    }
    assert_eq!(
        again(&meta("fix-login-a1b", Some("abc-123")), true, runs, 2, 8),
        Comeback::Back
    );
    assert_eq!(
        to_continue(&meta("fix-login-a1b", Some("abc-123"))),
        Ok("abc-123".to_string())
    );
}

#[test]
fn a_resume_of_an_agent_still_going_is_refused() {
    let refused = refusal(Phase::Working, "fix-login-a1b", 0, 8).expect("it is still going");
    assert_eq!(refused.code, exit::BLOCKED);
    assert_eq!(
        refused.err,
        "amx resume: fix-login-a1b is working. stop it before starting it again\n"
    );
    let full = refusal(Phase::Stopped, "fix-login-a1b", 3, 3).expect("no room");
    assert_eq!(full.err, "amx resume: 3 agents already running, and max_agents is 3\n");
    assert!(refusal(Phase::Stopped, "fix-login-a1b", 0, 3).is_none());
    assert_eq!(at_capacity(1, 4), None);
}

#[test]
fn an_agent_going_already_is_not_brought_back_twice() {
    assert_eq!(
        still_going(Phase::Working, true, "fix-login-a1b").as_deref(),
        Some("fix-login-a1b is already going again")
    );
    assert_eq!(still_going(Phase::Working, false, "fix-login-a1b"), None, "its pane went");
    assert_eq!(still_going(Phase::Done, true, "fix-login-a1b"), None, "its record ended");
}

#[test]
fn a_resumed_record_keeps_its_count_and_nothing_of_the_last_turn() {
    let mut state = State {
        state: Phase::Done,
        result: Some("the cookie expires early".to_string()),
        exit: Some(0),
        seq: 4,
        since: 1_000,
        last_event: 1_200,
        ended: 1_200,
        parked_at: 900,
        ..State::default()
    };
    fresh_turn(&mut state);
    assert_eq!(
        state,
        State {
            seq: 4,
            ..State::default()
        }
    );
}

#[test]
fn a_resume_of_everything_brings_back_the_stopped_ones_only() {
    let read = |id: &str, phase: Phase| Reading {
        meta: meta(id, Some("abc-123")),
        state: State {
            state: phase,
            ..State::default()
        },
        verdict: Verdict {
            phase,
            evidence: Evidence::Gone,
            rule: None,
            age: 0,
        },
    };
    let wall = vec![
        read("fix-login-a1b", Phase::Stopped),
        read("port-it-b2c", Phase::Done),
        read("watch-log-c3d", Phase::Stopped),
        read("ask-me-d4e", Phase::Waiting),
    ];
    assert_eq!(to_bring_back(&wall), [0, 2]);
    assert_eq!(to_bring_back(&wall[1..2].to_vec()), Vec::<usize>::new());
    assert_eq!(NOTHING_BACK, "nothing to bring back");
}
