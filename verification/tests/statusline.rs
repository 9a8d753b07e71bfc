use amx::derive::{Evidence, Reading, Verdict};
use amx::exit;
use amx::store::{Meta, Phase, State};
use amx::verbs::statusline::{glyph, run, summary, PULSE, WARNING};

fn reading(phase: Phase) -> Reading {
    Reading {
        meta: Meta {
            id: "fix-login-a1b".to_string(),
            task: "fix the login bug".to_string(),
            agent: None,
            dir: "/srv/app".to_string(),
            worktree: None,
            branch: None,
            base: None,
            pane: "%1".to_string(),
            session: None,
            parent: None,
        },
        state: State {
            state: phase,
            ..State::default()
        },
        verdict: Verdict {
            phase,
            evidence: Evidence::Hooks,
            rule: None,
            age: 0,
        },
    }
}

#[test]
fn the_glyph_law_puts_each_phase_under_one_sign_or_neither() {
    for (phase, want) in [
        (Phase::Starting, "✽1"),
        (Phase::Working, "✽1"),
        (Phase::Waiting, "⚠1"),
        (Phase::Unknown, "⚠1"),
        (Phase::Idle, ""),
        (Phase::Done, ""),
        (Phase::Failed, ""),
        (Phase::Stopped, ""),
    ] {
        assert_eq!(summary(&vec![phase]), want, "{phase:?}");
    }
}

#[test]
fn the_counts_add_up_with_the_pulse_first() {
    assert_eq!(
        summary(&vec![
            Phase::Working,
            Phase::Waiting,
            Phase::Starting,
            Phase::Unknown,
            Phase::Done
        ]),
        "✽2 ⚠2"
    );
}

#[test]
fn a_sign_nobody_is_under_is_left_off() {
    assert_eq!(summary(&vec![Phase::Working, Phase::Starting]), "✽2");
    assert_eq!(summary(&vec![Phase::Waiting, Phase::Unknown]), "⚠2");
}

#[test]
fn nothing_to_say_is_said_with_nothing() {
    assert_eq!(summary(&vec![]), "");
    assert_eq!(
        summary(&vec![Phase::Done, Phase::Failed, Phase::Stopped, Phase::Idle]),
        ""
    );
}

#[test]
fn the_line_is_nothing_a_status_line_would_read_as_its_own() {
    let line = summary(&vec![Phase::Working, Phase::Waiting]);
    assert!(!line.contains('\u{1b}'), "an escape in {line:?}");
    assert!(!line.contains('#'), "a tmux format in {line:?}");
    assert!(!line.contains('\n'), "a second line in {line:?}");
}

#[test]
fn a_machine_with_no_agents_prints_no_bytes_at_all() {
    let outcome = run(&vec![]);
    assert_eq!(outcome.code, exit::OK);
    assert!(outcome.out.is_empty(), "{:?}", outcome.out);
}

#[test]
fn a_wall_of_finished_agents_prints_no_bytes_either() {
    let outcome = run(&vec![reading(Phase::Done), reading(Phase::Stopped)]);
    assert_eq!(outcome.code, exit::OK);
    assert!(outcome.out.is_empty(), "{:?}", outcome.out);
}

#[test]
fn a_wall_with_news_on_it_prints_one_line() {
    let wall: Vec<Reading> = std::iter::repeat(Phase::Working)
        .take(12)
        .chain([Phase::Waiting, Phase::Idle])
        .map(reading)
        .collect();
    assert_eq!(run(&wall).out, "✽12 ⚠1\n");
}

#[test]
fn the_two_signs_are_the_pulse_and_the_warning() {
    assert_eq!(glyph(Phase::Working), Some(PULSE));
    assert_eq!(glyph(Phase::Waiting), Some(WARNING));
    assert_eq!(glyph(Phase::Idle), None);
}
