use amx::derive::{Evidence, Reading, Verdict};
use amx::exit;
use amx::store::{Meta, Phase, State};
use amx::verbs::interrupt::{
    stamp,
    a_question_is_answered, answer_it_instead, doing, end_the_command, nothing_is_running, run,
    what_is_running, Cut,
};

/// An agent as a reader hands it over.
fn reading(phase: Phase, evidence: Evidence) -> Reading {
    Reading {
        meta: Meta {
            id: "fix-login-a1b".to_string(),
            task: "fix the login bug".to_string(),
            agent: Some("first".to_string()),
            dir: "/srv/app".to_string(),
            worktree: None,
            branch: None,
            base: None,
            pane: "%1".to_string(),
            session: None,
            parent: None,
        },
        state: State {
            state: phase,
            ..State::default()
        },
        verdict: Verdict {
            phase,
            evidence,
            rule: None,
            age: 3,
        },
    }
}

#[test]
fn interrupt_a_turn_is_the_only_thing_a_key_can_cut_short() {
    assert_eq!(what_is_running(&reading(Phase::Working, Evidence::Hooks)), Cut::Turn);
    assert_eq!(what_is_running(&reading(Phase::Waiting, Evidence::Hooks)), Cut::Question);

    for phase in [
        Phase::Starting,
        Phase::Idle,
        Phase::Done,
        Phase::Failed,
        Phase::Stopped,
        Phase::Unknown,
    ] {
        assert_eq!(what_is_running(&reading(phase, Evidence::Hooks)), Cut::Nothing, "{phase:?}");
    }

    assert_eq!(what_is_running(&reading(Phase::Idle, Evidence::LetGo)), Cut::Nothing);
    assert_eq!(
        doing(&reading(Phase::Idle, Evidence::LetGo)),
        "parked",
        "and the refusal says the pane has gone, not that the agent is idle"
    );
}

#[test]
fn interrupt_a_command_has_no_vendor_in_it_to_read_a_key() {
    let mut command = reading(Phase::Working, Evidence::Screen);
    command.meta.agent = None;
    command.state.state = Phase::Starting;
    assert_eq!(what_is_running(&command), Cut::Command);

    let mut older = reading(Phase::Working, Evidence::Hooks);
    older.meta.agent = None;
    assert_eq!(what_is_running(&older), Cut::Turn);
}

#[test]
fn interrupt_every_refusal_names_what_to_do_instead() {
    let question = answer_it_instead("fix-login-a1b");
    assert!(question.contains("amx answer fix-login-a1b esc"), "{question}");
    let command = end_the_command("fix-login-a1b");
    assert!(command.contains("amx stop fix-login-a1b"), "{command}");
}

#[test]
fn interrupt_a_waiting_agent_gets_its_question_back_rather_than_a_key() {
    let mut view = reading(Phase::Waiting, Evidence::Hooks);
    view.state.question = Some("The agent needs your permission to use Bash".to_string());
    view.state.options = vec!["Yes".to_string(), "No".to_string()];

    let outcome = a_question_is_answered(&view, false);
    assert_eq!(outcome.code, exit::BLOCKED);
    assert_eq!(
        outcome.out,
        "The agent needs your permission to use Bash\n1. Yes\n2. No\n"
    );
}

#[test]
fn interrupt_says_so_when_amx_has_let_the_agents_pane_go() {
    let (outcome, send_the_key) = run(&reading(Phase::Idle, Evidence::LetGo), false);
    assert_eq!(outcome.code, exit::FAILURE);
    assert!(outcome.out.is_empty(), "{:?}", outcome.out);
    assert!(!send_the_key, "and nothing is typed or logged");
    assert_eq!(
        outcome.err,
        "amx: fix-login-a1b is parked; nothing is running to interrupt\n"
    );
}

#[test]
fn interrupt_a_turn_sends_the_key_and_says_nothing() {
    let (outcome, send_the_key) = run(&reading(Phase::Working, Evidence::Hooks), true);
    assert_eq!(outcome.code, exit::OK);
    assert!(send_the_key);
    assert!(outcome.out.is_empty() && outcome.err.is_empty());
}

#[test]
fn interrupt_of_an_idle_agent_names_its_phase() {
    assert_eq!(
        nothing_is_running("fix-login-a1b", "idle"),
        "fix-login-a1b is idle; nothing is running to interrupt"
    );
    let (outcome, send_the_key) = run(&reading(Phase::Done, Evidence::Record), false);
    assert!(!send_the_key);
    assert!(outcome.err.contains("is done"), "{}", outcome.err);
}

#[test]
fn an_interrupt_is_a_stamp_and_nothing_the_agent_said() {
    let mut state = State {
        state: Phase::Working,
        since: 1_000,
        last_event: 1_100,
        ..State::default()
    };
    stamp(&mut state, 1_200);
    assert_eq!(state.interrupted_at, 1_200);
    assert_eq!(state.state, Phase::Working);
    assert_eq!(state.last_event, 1_100);
}
