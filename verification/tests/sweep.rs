use amx::derive::{Evidence, Reading, Verdict};
use amx::store::{Meta, Phase, State};
use amx::verbs::sweep::{
    agreed, finished, kept, listed, settled, sweep, why_landed, why_landed_asking, Landing, Pr, Standing,
};

fn reading(phase: Phase, branch: Option<&str>) -> Reading {
    Reading {
        meta: Meta {
            id: "fix-login-a1b".to_string(),
            task: "fix the login bug".to_string(),
            agent: None,
            dir: "/srv/app".to_string(),
            worktree: Some("/srv/app/.amx/worktrees/fix-login-a1b".to_string()),
            branch: branch.map(str::to_string),
            base: None,
            pane: "%1".to_string(),
            session: None,
            parent: None,
        },
        state: State {
            state: phase,
            ..State::default()
        },
        verdict: Verdict {
            phase,
            evidence: Evidence::Record,
            rule: None,
            age: 0,
        },
    }
}

fn nothing_known() -> Landing {
    Landing {
        requests: Vec::new(),
        merged_into: None,
        gone_from_origin: false,
    }
}

#[test]
fn sweep_is_only_ever_about_an_agent_that_is_finished_with_its_branch() {
    for phase in [Phase::Done, Phase::Failed, Phase::Stopped, Phase::Idle] {
        assert!(finished(phase), "{phase:?}");
    }
    for phase in [Phase::Starting, Phase::Working, Phase::Waiting] {
        assert!(!finished(phase), "{phase:?}");
    }
    assert!(!finished(Phase::Unknown));
}

#[test]
fn sweep_reads_a_request_that_is_over_as_the_reason() {
    let request = |number, standing| Pr { number, standing };
    assert_eq!(settled(&vec![request(12, Standing::Merged)]).as_deref(), Some("#12 merged"));
    assert_eq!(settled(&vec![request(12, Standing::Closed)]).as_deref(), Some("#12 closed"));
    assert_eq!(
        settled(&vec![request(12, Standing::Ready), request(9, Standing::Merged)]).as_deref(),
        Some("#9 merged"),
        "a branch read twice is swept for the attempt that landed"
    );
    assert_eq!(settled(&vec![request(12, Standing::Failing)]), None);
    assert_eq!(settled(&vec![]), None, "and so is a branch with no request");
}

#[test]
fn sweep_reads_a_branch_the_origin_no_longer_has_as_work_that_landed() {
    let gone = Landing {
        gone_from_origin: true,
        ..nothing_known()
    };
    assert_eq!(
        why_landed(&reading(Phase::Done, Some("amx/fix-login-a1b")), &gone).as_deref(),
        Some("amx/fix-login-a1b gone from origin")
    );
    assert_eq!(why_landed(&reading(Phase::Done, Some("amx/fix-login-a1b")), &nothing_known()), None);
}

#[test]
fn the_three_facts_are_asked_in_the_order_they_cost() {
    let all = Landing {
        requests: vec![Pr {
            number: 7,
            standing: Standing::Merged,
        }],
        merged_into: Some("main".to_string()),
        gone_from_origin: true,
    };
    let finished_agent = reading(Phase::Idle, Some("amx/x"));
    assert_eq!(why_landed(&finished_agent, &all).as_deref(), Some("#7 merged"));
    let merged = Landing {
        requests: Vec::new(),
        ..all.clone()
    };
    assert_eq!(why_landed(&finished_agent, &merged).as_deref(), Some("amx/x merged into main"));
    assert_eq!(why_landed(&reading(Phase::Working, Some("amx/x")), &all), None);
    assert_eq!(why_landed(&reading(Phase::Done, None), &all), None);
}

#[test]
fn sweep_takes_a_shrug_for_a_no() {
    for typed in [Some("\n"), Some("maybe\n"), Some("no\n"), None] {
        assert!(!agreed(2, typed).0, "{typed:?}");
    }
    for typed in ["y\n", "yes\n", "Y\n"] {
        assert!(agreed(2, Some(typed)).0, "{typed:?}");
    }
    assert_eq!(agreed(2, Some("y\n")).1, "sweep 2? [y/N] ");
}

#[test]
fn sweep_keeps_a_tree_that_holds_work_no_commit_has() {
    assert_eq!(
        kept("fix-a1b", Some("/t"), true, Some(true)).as_deref(),
        Some("kept fix-a1b: /t holds work no commit has")
    );
    assert!(kept("fix-a1b", Some("/t"), true, None).is_some());
    assert_eq!(kept("fix-a1b", Some("/t"), true, Some(false)), None);
    assert_eq!(kept("fix-a1b", Some("/t"), false, Some(true)), None);
    assert_eq!(kept("fix-a1b", None, true, Some(true)), None);
}

#[test]
fn sweep_asks_nothing_of_a_wall_with_nothing_on_it_to_sweep() {
    assert_eq!(listed(&vec![]), "nothing to sweep\n");
    assert_eq!(
        listed(&vec![("a".to_string(), "#1 merged".to_string())]),
        "a  #1 merged\n"
    );
}

#[test]
fn the_verb_reads_the_forge_s_answer_the_same_way_the_view_reads_its_note() {
    let asked_now = Landing {
        requests: vec![Pr {
            number: 7,
            standing: Standing::Merged,
        }],
        merged_into: None,
        gone_from_origin: true,
    };
    let finished_agent = reading(Phase::Idle, Some("amx/x"));
    assert_eq!(
        why_landed_asking(&finished_agent, &asked_now),
        why_landed(&finished_agent, &asked_now)
    );
    assert_eq!(why_landed_asking(&finished_agent, &asked_now).as_deref(), Some("#7 merged"));
    assert_eq!(why_landed_asking(&reading(Phase::Working, Some("amx/x")), &asked_now), None);
}

fn candidates() -> Vec<(String, String)> {
    vec![
        ("fix-login-a1b".to_string(), "#12 merged".to_string()),
        ("add-cache-c2d".to_string(), "its branch is gone from origin".to_string()),
    ]
}

#[test]
fn sweep_lists_everything_before_it_asks_and_takes_only_on_a_yes() {
    let (said, taken) = sweep(&candidates(), false, Some("y\n"));
    assert_eq!(
        said,
        "fix-login-a1b  #12 merged\nadd-cache-c2d  its branch is gone from origin\nsweep 2? [y/N] "
    );
    assert_eq!(taken, ["fix-login-a1b", "add-cache-c2d"]);

    let (said, taken) = sweep(&candidates(), false, Some("nah\n"));
    assert!(said.ends_with("sweep 2? [y/N] nothing swept\n"), "{said}");
    assert!(taken.is_empty());

    let (said, taken) = sweep(&candidates(), false, None);
    assert!(said.ends_with("sweep 2? [y/N] \nnothing swept\n"), "{said}");
    assert!(taken.is_empty());
}

#[test]
fn sweep_with_force_asks_nothing_and_says_nothing_when_nothing_landed() {
    let (said, taken) = sweep(&candidates(), true, None);
    assert!(!said.contains("[y/N]"), "{said}");
    assert_eq!(taken, ["fix-login-a1b", "add-cache-c2d"]);

    let (said, taken) = sweep(&Vec::new(), false, Some("y"));
    assert_eq!(said, "nothing to sweep\n");
    assert!(taken.is_empty());
}
