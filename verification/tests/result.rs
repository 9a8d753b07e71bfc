use amx::derive::{Evidence, Reading, Verdict, READ_PROMPT, READ_TURN_END};
use amx::exit;
use amx::store::{Event, Meta, Phase, State};
use amx::verbs::interrupt::INTERRUPT;
use amx::verbs::result::{ended_past_the_last_message, settled, step, Ended, Settled, TURN_END};
use amx::verbs::send::SEND;
use amx::verbs::wait::{pace, LOOK, POLL};

fn event(kind: &str) -> Event {
    Event {
        at: 1,
        kind: kind.to_string(),
        agent_id: None,
        payload: Vec::new(),
    }
}

fn log(kinds: &[&str]) -> Vec<Event> {
    kinds.iter().map(|kind| event(kind)).collect()
}

fn parked(id: &str, result: Option<&str>) -> Reading {
    Reading {
        meta: Meta {
            id: id.to_string(),
            task: "fix the login bug".to_string(),
            agent: Some("first".to_string()),
            dir: "/srv/app".to_string(),
            worktree: None,
            branch: None,
            base: None,
            pane: "%404".to_string(),
            session: None,
            parent: None,
        },
        state: State {
            state: Phase::Idle,
            result: result.map(str::to_string),
            ..State::default()
        },
        verdict: Verdict {
            phase: Phase::Idle,
            evidence: Evidence::LetGo,
            rule: None,
            age: 3,
        },
    }
}

#[test]
fn a_turn_ends_a_wait_and_a_question_interrupts_it() {
    assert_eq!(settled(Phase::Idle, Ended::Turn), Settled::Answer);
    assert_eq!(settled(Phase::Done, Ended::Turn), Settled::Answer);
    assert_eq!(settled(Phase::Waiting, Ended::NotYet), Settled::Question);
    assert_eq!(
        settled(Phase::Waiting, Ended::Turn),
        Settled::Question,
        "a question is a question whatever the log says"
    );
    assert_eq!(settled(Phase::Failed, Ended::NotYet), Settled::Nothing);
    assert_eq!(settled(Phase::Stopped, Ended::NotYet), Settled::Nothing);
}

#[test]
fn a_turn_nobody_let_finish_leaves_no_answer_to_hand_back() {
    assert_eq!(settled(Phase::Idle, Ended::Interrupted), Settled::Interrupted);
    assert_eq!(settled(Phase::Done, Ended::Interrupted), Settled::Interrupted);
}

#[test]
fn a_wait_keeps_waiting_while_there_is_a_turn_to_wait_for() {
    for phase in [Phase::Starting, Phase::Working, Phase::Unknown] {
        assert_eq!(settled(phase, Ended::NotYet), Settled::NotYet, "{phase:?}");
    }
    assert_eq!(settled(Phase::Idle, Ended::NotYet), Settled::NotYet);
}

#[test]
fn a_command_that_ended_on_an_unanswered_message_is_not_an_answer() {
    assert_eq!(settled(Phase::Done, Ended::NotYet), Settled::Unanswered);
}

#[test]
fn a_wait_reads_the_record_often_and_the_pane_rarely() {
    for evidence in [Evidence::Record, Evidence::Gone, Evidence::Hooks] {
        assert_eq!(pace(evidence), POLL, "{evidence:?}");
    }
    assert_eq!(pace(Evidence::LetGo), POLL);
    for evidence in [Evidence::Screen, Evidence::Unknown] {
        assert_eq!(pace(evidence), LOOK, "{evidence:?}");
    }
}

#[test]
fn an_agent_nobody_has_written_to_answers_with_its_last_turn() {
    assert_eq!(ended_past_the_last_message(&log(&[])), Ended::Turn);
    assert_eq!(
        ended_past_the_last_message(&log(&["SessionStart", "UserPromptSubmit", "Stop"])),
        Ended::Turn
    );
}

#[test]
fn an_answer_from_before_the_last_message_is_not_past_it() {
    assert_eq!(ended_past_the_last_message(&log(&["Stop", SEND])), Ended::NotYet);
    assert_eq!(
        ended_past_the_last_message(&log(&["Stop", SEND, "UserPromptSubmit"])),
        Ended::NotYet
    );
    assert_eq!(
        ended_past_the_last_message(&log(&["Stop", SEND, "UserPromptSubmit", "Stop"])),
        Ended::Turn
    );
    assert_eq!(ended_past_the_last_message(&log(&[SEND, "Stop", SEND])), Ended::NotYet);
}

#[test]
fn a_turn_a_reading_watched_end_ends_a_wait_like_any_other() {
    assert_eq!(
        ended_past_the_last_message(&log(&[SEND, READ_PROMPT, READ_TURN_END])),
        Ended::Turn
    );
    assert_eq!(
        ended_past_the_last_message(&log(&[SEND, READ_PROMPT])),
        Ended::NotYet,
        "a turn a reading watched begin is under way, not over"
    );
    assert_eq!(
        ended_past_the_last_message(&log(&[READ_TURN_END, SEND])),
        Ended::NotYet,
        "and one that ended before the message is the turn before it"
    );
}

#[test]
fn a_turn_amx_cut_short_is_a_turn_that_ended() {
    assert_eq!(
        ended_past_the_last_message(&log(&[SEND, "UserPromptSubmit", INTERRUPT])),
        Ended::Interrupted
    );
    assert_eq!(
        ended_past_the_last_message(&log(&[SEND, INTERRUPT, TURN_END])),
        Ended::Interrupted
    );
    assert_eq!(ended_past_the_last_message(&log(&[INTERRUPT, SEND])), Ended::NotYet);
}

#[test]
fn result_over_an_interrupted_turn_hands_back_nothing_and_says_so() {
    let waited_on = |id: &str, ended_on: &str| {
        let events = log(&[SEND, ended_on]);
        let outcome = step(&parked(id, Some("the login bug is fixed")), &events, false).unwrap();
        (outcome.code, outcome.out)
    };
    assert_eq!(waited_on("fix-login-a1b", INTERRUPT), (exit::FAILURE, String::new()));
    assert_eq!(
        waited_on("fix-login-c3d", TURN_END),
        (exit::OK, "the login bug is fixed\n".to_string())
    );
}

#[test]
fn a_subagents_turn_is_not_the_agents_turn() {
    let events = vec![
        event(SEND),
        Event {
            at: 2,
            kind: TURN_END.to_string(),
            agent_id: Some("sub-1".to_string()),
            payload: Vec::new(),
        },
    ];
    assert_eq!(ended_past_the_last_message(&events), Ended::NotYet);
}

#[test]
fn a_turn_that_ended_with_nothing_captured_is_a_failure_to_answer() {
    let outcome = step(&parked("fix-login-a1b", None), &log(&[]), false).unwrap();
    assert_eq!(outcome.code, exit::FAILURE);
    assert!(outcome.out.is_empty());
    assert_eq!(
        outcome.err,
        "amx: fix-login-a1b ended its turn, but amx captured no answer\n"
    );
}

#[test]
fn a_wait_on_a_turn_still_to_come_reads_again() {
    assert!(step(&parked("fix-login-a1b", Some("old")), &log(&["Stop", SEND]), false).is_none());
}
