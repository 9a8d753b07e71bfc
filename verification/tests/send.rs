use amx::derive::{Evidence, Reading, Verdict};
use amx::exit;
use amx::store::{Event, Kind, Meta, Phase, State};
use amx::verbs::send::{
    after, before, deliver, ends_its_own_paste, how_to_answer, nothing_more_is_coming, numbered,
    remedy, rendered, submissions, waiting_on_a_question, SUBMITTED,
};

fn meta(id: &str) -> Meta {
    Meta {
        id: id.to_string(),
        task: "fix the login bug".to_string(),
        agent: None,
        dir: "/srv/app".to_string(),
        worktree: None,
        branch: None,
        base: None,
        pane: "%1".to_string(),
        session: None,
        parent: None,
    }
}

/// An agent stopped on a question, as a reader hands it over.
fn asking(question: Option<&str>, options: &[&str], kind: Option<Kind>) -> Reading {
    Reading {
        meta: meta("fix-login-a1b"),
        state: State {
            state: Phase::Waiting,
            question: question.map(str::to_string),
            options: options.iter().map(|label| label.to_string()).collect(),
            kind,
            ..State::default()
        },
        verdict: Verdict {
            phase: Phase::Waiting,
            evidence: Evidence::Hooks,
            rule: None,
            age: 3,
        },
    }
}

fn event(kind: &str, agent_id: Option<&str>) -> Event {
    Event {
        at: 1,
        kind: kind.to_string(),
        agent_id: agent_id.map(str::to_string),
        payload: Vec::new(),
    }
}

#[test]
fn hardening_a_message_may_not_end_its_own_paste() {
    assert!(!ends_its_own_paste("fix the login bug\nand the tests with it"));
    assert!(!ends_its_own_paste("the escape \u{1b}[2J on its own is text"));

    assert!(ends_its_own_paste("done\u{1b}[201~/exit\r"));
    assert!(ends_its_own_paste("done\u{9b}201~/exit\r"));
    assert!(ends_its_own_paste("\u{1b}[200~ another paste inside this one"));
}

#[test]
fn hardening_a_message_amx_refuses_never_reaches_the_record() {
    let state = State::default();
    let refused = deliver(&state, "fix-login-a1b", "harmless\u{1b}[201~\u{1b}[B\r").unwrap_err();
    assert!(refused.contains("paste"), "{refused}");
    assert!(refused.contains("fix-login-a1b"), "{refused}");
}

#[test]
fn a_message_that_is_only_text_is_counted_as_one_more_send() {
    let state = State {
        seq: 4,
        ..State::default()
    };
    assert_eq!(deliver(&state, "fix-login-a1b", "fix the login bug"), Ok(5));
}

#[test]
fn send_counts_the_prompts_the_agent_itself_submitted() {
    assert_eq!(submissions(&vec![]), 0);
    let events = vec![
        event("SessionStart", None),
        event(SUBMITTED, None),
        event("Stop", None),
        event(SUBMITTED, None),
    ];
    assert_eq!(submissions(&events), 2);

    let mixed = vec![event(SUBMITTED, None), event(SUBMITTED, Some("sub-1"))];
    assert_eq!(submissions(&mixed), 1);
}

#[test]
fn send_puts_a_pending_question_where_the_answer_would_have_gone() {
    let outcome = waiting_on_a_question(
        &asking(
            Some("The agent needs your permission to use Bash"),
            &["Yes", "No"],
            None,
        ),
        false,
    );
    assert_eq!(outcome.code, exit::BLOCKED);
    assert_eq!(
        outcome.out,
        "The agent needs your permission to use Bash\n1. Yes\n2. No\n"
    );
    assert!(outcome.err.contains("amx answer fix-login-a1b"), "{}", outcome.err);
}

#[test]
fn a_question_nobody_captured_still_blocks() {
    let outcome = waiting_on_a_question(&asking(None, &[], None), false);
    assert_eq!(outcome.code, exit::BLOCKED);
    assert!(outcome.out.is_empty(), "{:?}", outcome.out);
}

#[test]
fn surfaces_the_offer_says_what_this_kind_of_question_will_take() {
    for kind in [None, Some(Kind::Permission), Some(Kind::Trust)] {
        let offered = how_to_answer("fix-login-a1b", kind);
        assert!(offered.contains("y|n|1-9"), "{offered}");
        assert!(!offered.contains("words"), "{offered}");
    }

    let menu = how_to_answer("fix-login-a1b", Some(Kind::Question));
    assert!(menu.contains("words of your own"), "{menu}");
    assert!(menu.starts_with("amx answer fix-login-a1b"), "{menu}");
}

#[test]
fn surfaces_the_choices_are_numbered_the_way_the_screen_numbers_them() {
    let options = vec!["the sqlite one".to_string(), "the docker one".to_string()];
    assert_eq!(numbered(&options), ["1. the sqlite one", "2. the docker one"]);
    assert_eq!(numbered(&vec![]).len(), 0);
}

#[test]
fn the_tenth_choice_is_numbered_ten() {
    let options: Vec<String> = (0..10).map(|i| format!("choice {i}")).collect();
    assert_eq!(numbered(&options)[9], "10. choice 9");
}

#[test]
fn every_ending_says_what_to_do_about_it() {
    for phase in [Phase::Done, Phase::Failed, Phase::Stopped] {
        assert_eq!(
            nothing_more_is_coming("fix-login-a1b", phase).code,
            exit::FAILURE
        );
        assert!(!remedy("fix-login-a1b", phase).is_empty(), "{phase:?} says nothing");
    }
    assert!(remedy("fix-login-a1b", Phase::Stopped).contains("amx resume fix-login-a1b"));
    assert_eq!(
        nothing_more_is_coming("fix-login-a1b", Phase::Stopped).err,
        "amx: fix-login-a1b is stopped. run: amx resume fix-login-a1b\n"
    );
}

#[test]
fn vendor_text_down_a_pipe_is_the_bytes_the_vendor_wrote() {
    let said = "done\u{1b}]0;PWNED\u{7}\n\tindented\n";
    assert_eq!(rendered(said, false), said);
}

#[test]
fn vendor_text_on_a_terminal_cannot_drive_the_terminal_it_prints_into() {
    let shown = rendered("done\u{1b}]0;PWNED\u{7}\nand more\n", true);
    assert!(shown.contains("done"), "{shown:?}");
    assert!(shown.contains("]0;PWNED"), "still readable: {shown:?}");
    assert!(shown.contains("\nand more"), "the line breaks are the agent's");
    assert_eq!(
        shown.chars().filter(|c| c.is_control() && *c != '\n').count(),
        0,
        "and inert: {shown:?}"
    );
}

#[test]
fn a_line_ends_in_one_newline_however_it_arrived() {
    let mut out = amx::verbs::send::line("no newline");
    out.push_str(&amx::verbs::send::line("has one\n"));
    assert_eq!(out, "no newline\nhas one\n");
}

fn in_phase(phase: Phase) -> Reading {
    let mut view = asking(None, &[], None);
    view.state.state = phase;
    view.verdict.phase = phase;
    view
}

#[test]
fn send_types_nothing_at_a_question_or_at_an_agent_that_ended() {
    let blocked = before(&asking(Some("Proceed?"), &["Yes", "No"], Some(Kind::Permission)), false)
        .expect("a question blocks the message");
    assert_eq!(blocked.code, exit::BLOCKED);
    assert!(blocked.out.contains("Proceed?"), "{}", blocked.out);

    let ended = before(&in_phase(Phase::Stopped), false).expect("a stopped agent takes nothing");
    assert_eq!(ended.code, exit::FAILURE);
    assert_eq!(ended.err, "amx: fix-login-a1b is stopped. run: amx resume fix-login-a1b\n");

    assert_eq!(before(&in_phase(Phase::Idle), false), None);
    assert_eq!(before(&in_phase(Phase::Working), false), None);
}

#[test]
fn send_says_a_message_to_a_busy_agent_is_queued_and_an_unanswered_one_may_be_lost() {
    let queued = after("fix-login-a1b", Phase::Working, false);
    assert_eq!(queued.code, exit::OK);
    assert_eq!(queued.err, "amx: fix-login-a1b is working; the message is queued behind the turn it is on\n");

    let took = after("fix-login-a1b", Phase::Idle, true);
    assert_eq!((took.code, took.err.as_str()), (exit::OK, ""));

    let lost = after("fix-login-a1b", Phase::Idle, false);
    assert_eq!(lost.code, exit::FAILURE);
    assert_eq!(
        lost.err,
        "amx: fix-login-a1b did not start working within 5s; the message may not have reached it\n"
    );
}
