use amx::exit;
use amx::store::Phase;
use amx::verbs::new::{Config, Dial, Harness, Listing, Named, Step, DEFAULT};
use amx::verbs::sub::{
    answer_of, crowded, digest_of, dir_of, escalation_refused, inherit, launched, live_children,
    needs_a_parent, step, waited, Asked, Child, Launched, Parent, SubStep, CROWDED,
};

fn child(parent: Option<&str>, phase: Phase) -> Child {
    Child {
        parent: parent.map(str::to_string),
        phase,
    }
}

#[test]
fn only_live_children_of_this_parent_count() {
    let records = vec![
        child(Some("fix-login-a1b"), Phase::Working),
        child(Some("fix-login-a1b"), Phase::Done),
        child(Some("fix-login-a1b"), Phase::Waiting),
        child(Some("port-it-b2c"), Phase::Working),
        child(None, Phase::Idle),
        child(Some("fix-login-a1b"), Phase::Stopped),
    ];
    assert_eq!(live_children(&records, "fix-login-a1b"), 2);
    assert_eq!(live_children(&records, "port-it-b2c"), 1);
    assert_eq!(live_children(&records, "nobody"), 0);
}

#[test]
fn a_parent_at_its_limit_is_refused_another_child() {
    assert_eq!(
        crowded(2, 2, "fix-login-a1b").as_deref(),
        Some("amx sub: max_children is 2 and fix-login-a1b already has that many")
    );
    assert_eq!(crowded(2, 1, "fix-login-a1b"), None);
    assert_eq!(crowded(0, 40, "fix-login-a1b"), None, "a key of zero is no limit");
    assert_eq!(CROWDED, exit::BLOCKED);
}

#[test]
fn a_digest_needs_somebody_to_digest() {
    assert_eq!(
        needs_a_parent(true, false).as_deref(),
        Some("amx sub: --context digest needs a parent, and there is none here")
    );
    assert_eq!(needs_a_parent(true, true), None);
    assert_eq!(needs_a_parent(false, false), None);
}

#[test]
fn a_child_runs_where_it_was_sent_else_where_its_parent_works() {
    assert_eq!(dir_of(Some("/srv/other"), Some("/srv/app"), "/home/dev"), "/srv/other");
    assert_eq!(dir_of(None, Some("/srv/app"), "/home/dev"), "/srv/app");
    assert_eq!(dir_of(None, None, "/home/dev"), "/home/dev");
}

#[test]
fn the_digest_is_the_task_and_the_latest_word() {
    assert_eq!(
        digest_of("fix-login-a1b", "fix the login bug", None),
        "Your parent agent, fix-login-a1b, is working on the task:\n\nfix the login bug"
    );
    assert_eq!(
        digest_of("fix-login-a1b", "fix the login bug", Some("the cookie expires early")),
        "Your parent agent, fix-login-a1b, is working on the task:\n\nfix the login bug\n\nIts latest word on it:\n\nthe cookie expires early"
    );
}

#[test]
fn json_carries_an_answer_only_where_there_was_one() {
    assert_eq!(answer_of(exit::OK, "42\n").as_deref(), Some("42"));
    assert_eq!(answer_of(exit::BLOCKED, "Proceed? [y/n]\n"), None);
}

fn words(each: &[&str]) -> Vec<String> {
    each.iter().map(|w| w.to_string()).collect()
}

fn table() -> Vec<Harness> {
    let open = |flag: &str| {
        Some(Dial {
            flag: flag.to_string(),
            cycle: words(&[DEFAULT]),
            open: true,
        })
    };
    vec![
        Harness {
            name: "first".to_string(),
            model: open("--model"),
            permission: Some(Dial {
                flag: "--permission-mode".to_string(),
                cycle: words(&[DEFAULT, "acceptEdits", "plan"]),
                open: false,
            }),
            effort: Some(Dial {
                flag: "--effort".to_string(),
                cycle: words(&[DEFAULT, "low", "high", "max"]),
                open: false,
            }),
            listing: Listing::Held(words(&["opus", "haiku"])),
            start: None,
            trust_flag: None,
        },
        Harness {
            name: "pi".to_string(),
            model: open("--model"),
            permission: None,
            effort: None,
            listing: Listing::Held(words(&["openai/gpt-5"])),
            start: Some("--session-id".to_string()),
            trust_flag: Some("--approve".to_string()),
        },
    ]
}

fn config() -> Config {
    Config {
        agent: "first".to_string(),
        model: None,
        permission: None,
        effort: None,
        harnesses: Vec::new(),
    }
}

fn parent(agent: &str, model: Option<&str>, effort: Option<&str>) -> Parent {
    Parent {
        id: "fix-login-a1b".to_string(),
        task: "fix the login bug".to_string(),
        dir: "/srv/app".to_string(),
        agent: Some(agent.to_string()),
        model: model.map(str::to_string),
        effort: effort.map(str::to_string),
    }
}

fn named(command: Option<&str>, model: Option<&str>, permission: Option<&str>) -> Named {
    Named {
        command: command.map(str::to_string),
        model: model.map(str::to_string),
        permission: permission.map(str::to_string),
        effort: None,
    }
}

fn unread() -> Vec<Option<Vec<String>>> {
    vec![None, None]
}

#[test]
fn a_child_of_the_same_vendor_inherits_the_model_and_the_effort() {
    let p = parent("first --add-dir /srv", Some("opus"), Some("high"));
    assert_eq!(
        inherit(&table(), &config(), &unread(), Some(&p), &named(None, None, None)),
        Step::Done(Named {
            command: Some("first --add-dir /srv".to_string()),
            model: Some("opus".to_string()),
            permission: None,
            effort: Some("high".to_string()),
        })
    );
    // What the child typed wins.
    match inherit(&table(), &config(), &unread(), Some(&p), &named(Some("first"), Some("haiku"), None)) {
        Step::Done(n) => {
            assert_eq!(n.model.as_deref(), Some("haiku"));
            assert_eq!(n.effort.as_deref(), Some("high"));
        }
        other => panic!("{other:?}"),
    }
}

#[test]
fn a_child_on_another_vendor_inherits_no_dial() {
    let p = parent("first", Some("opus"), Some("high"));
    assert_eq!(
        inherit(&table(), &config(), &unread(), Some(&p), &named(Some("pi"), None, None)),
        Step::Done(named(Some("pi"), None, None))
    );
    assert_eq!(
        inherit(&table(), &config(), &unread(), None, &named(None, Some("opus"), None)),
        Step::Done(named(None, Some("opus"), None)),
        "no parent, nothing to inherit"
    );
}

#[test]
fn a_childs_permission_is_an_escalation_the_config_has_to_allow() {
    assert_eq!(
        escalation_refused(false, Some("acceptEdits")).as_deref(),
        Some("amx sub: subagents_may_escalate is false, so --permission \"acceptEdits\" is refused")
    );
    assert_eq!(escalation_refused(true, Some("acceptEdits")), None);
    assert_eq!(escalation_refused(false, None), None);
}

fn asked(digest: bool, may_escalate: bool, max_children: u64, live: u64) -> Asked {
    Asked {
        digest,
        may_escalate,
        max_children,
        live,
        latest: None,
        colours: false,
    }
}

#[test]
fn the_refusals_come_in_their_order() {
    let p = parent("first", None, None);
    assert_eq!(
        step(&table(), &config(), &unread(), None, &named(None, None, Some("plan")), &asked(true, false, 1, 9)),
        SubStep::Refused {
            code: exit::USAGE,
            said: "amx sub: --context digest needs a parent, and there is none here".to_string()
        },
        "the digest first"
    );
    match step(&table(), &config(), &unread(), Some(&p), &named(None, None, Some("plan")), &asked(true, false, 1, 9)) {
        SubStep::Refused { code, said } => {
            assert_eq!(code, exit::BLOCKED);
            assert!(said.contains("subagents_may_escalate"), "{said}");
        }
        other => panic!("{other:?}"),
    }
    match step(&table(), &config(), &unread(), Some(&p), &named(Some("mock-first"), Some("opus"), None), &asked(false, true, 1, 9)) {
        SubStep::Refused { code, said } => {
            assert_eq!(code, exit::USAGE);
            assert!(said.starts_with("amx sub: --model"), "{said}");
        }
        other => panic!("{other:?}"),
    }
    assert_eq!(
        step(&table(), &config(), &unread(), Some(&p), &named(None, None, None), &asked(false, true, 2, 2)),
        SubStep::Refused {
            code: exit::BLOCKED,
            said: "amx sub: max_children is 2 and fix-login-a1b already has that many".to_string()
        }
    );
    match step(&table(), &config(), &unread(), Some(&p), &named(None, None, None), &asked(true, true, 2, 1)) {
        SubStep::Start { named, brief } => {
            assert_eq!(named.command.as_deref(), Some("first"));
            assert!(brief.unwrap().contains("fix the login bug"));
        }
        other => panic!("{other:?}"),
    }
}

#[test]
fn sub_ends_with_news_code_when_the_child_never_started() {
    assert_eq!(launched(exit::USAGE, "", false, false), Launched::Ended(exit::USAGE));
    assert_eq!(
        launched(exit::OK, "fix-login-a1b\n", true, false),
        Launched::Report("fix-login-a1b".to_string())
    );
    assert_eq!(
        launched(exit::OK, "fix-login-a1b\n", false, true),
        Launched::Wait { id: "fix-login-a1b".to_string(), say_id: false }
    );
    assert_eq!(
        launched(exit::OK, "fix-login-a1b\n", false, false),
        Launched::Wait { id: "fix-login-a1b".to_string(), say_id: true }
    );
}

#[test]
fn sub_exits_with_the_code_result_gave() {
    assert_eq!(
        waited(exit::OK, "the bug was in the cookie\n", false),
        (exit::OK, "the bug was in the cookie\n".to_string(), None)
    );
    assert_eq!(
        waited(exit::OK, "the bug was in the cookie\n", true),
        (exit::OK, String::new(), Some("the bug was in the cookie".to_string()))
    );
    assert_eq!(waited(exit::FAILURE, "", true), (exit::FAILURE, String::new(), None));
    assert_eq!(waited(exit::BLOCKED, "", false).0, exit::BLOCKED);
}
