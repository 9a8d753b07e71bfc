use amx::derive::{Evidence, Reading, Verdict};
use amx::store::{Meta, Phase, State};
use amx::verbs::clear::{clearing, finished_rows, held, take_row, Take};
use amx::verbs::sweep::{asked_once, Landing, Pr, Standing};

fn reading(id: &str, phase: Phase) -> Reading {
    Reading {
        meta: Meta {
            id: id.to_string(),
            task: "fix the login bug".to_string(),
            agent: None,
            dir: "/srv/app".to_string(),
            worktree: None,
            branch: Some(format!("amx/{id}")),
            base: None,
            pane: "%1".to_string(),
            session: None,
            parent: None,
        },
        state: State {
            state: phase,
            ..State::default()
        },
        verdict: Verdict {
            phase,
            evidence: Evidence::Record,
            rule: None,
            age: 0,
        },
    }
}

fn nothing() -> Landing {
    Landing {
        requests: Vec::new(),
        merged_into: None,
        gone_from_origin: false,
    }
}

#[test]
fn clear_lists_every_finished_row_with_why_and_leaves_an_idle_one() {
    let views = vec![
        reading("a", Phase::Stopped),
        reading("b", Phase::Idle),
        reading("c", Phase::Done),
        reading("d", Phase::Working),
        reading("e", Phase::Failed),
    ];
    let facts = vec![
        nothing(),
        nothing(),
        Landing {
            requests: vec![Pr {
                number: 12,
                standing: Standing::Merged,
            }],
            ..nothing()
        },
        nothing(),
        nothing(),
    ];
    assert_eq!(
        finished_rows(&views, &facts),
        [
            (0, "stopped".to_string()),
            (2, "#12 merged".to_string()),
            (4, "failed".to_string())
        ]
    );
}

#[test]
fn clear_takes_each_row_the_way_its_evidence_says() {
    assert_eq!(take_row(true, None), Take::Land);
    assert_eq!(take_row(false, None), Take::Forget);
    assert_eq!(take_row(true, Some("/t")), Take::Hold("/t".to_string()));
    assert_eq!(take_row(false, Some("/t")), Take::Hold("/t".to_string()));
    assert_eq!(held("a", "/t"), "kept a: /t holds work no commit has\n");
}

#[test]
fn clear_asks_once_and_takes_a_shrug_for_a_no() {
    assert_eq!(asked_once("clear", 3, None), (false, "clear 3? [y/N] \n".to_string()));
    assert!(asked_once("clear", 3, Some("yes\n")).0);
    assert!(!asked_once("clear", 3, Some("sure\n")).0);
}

#[test]
fn clear_lists_the_rows_asks_once_and_a_no_clears_nothing() {
    let rows = vec![
        ("fix-login-a1b".to_string(), "done".to_string()),
        ("port-it-b2c".to_string(), "#12 merged".to_string()),
    ];
    let (said, taken) = clearing(&rows, false, Some("YES\n"));
    assert_eq!(said, "fix-login-a1b  done\nport-it-b2c  #12 merged\nclear 2? [y/N] ");
    assert_eq!(taken, ["fix-login-a1b", "port-it-b2c"]);

    let (said, taken) = clearing(&rows, false, Some("\n"));
    assert!(said.ends_with("clear 2? [y/N] nothing cleared\n"), "{said}");
    assert!(taken.is_empty());

    let (said, taken) = clearing(&Vec::new(), true, None);
    assert_eq!(said, "nothing to clear\n");
    assert!(taken.is_empty());
}
