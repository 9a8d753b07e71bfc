use amx::derive::Evidence;
use amx::exit;
use amx::store::Phase;
use amx::verbs::wait::{pace, settled, sweep, taken, LOOK, POLL};

fn ids(ids: &[&str]) -> Vec<String> {
    ids.iter().map(ToString::to_string).collect()
}

/// One sweep over agents whose readings say these phases, read off records.
fn swept(
    named: &[&str],
    phases: &[Phase],
    any: bool,
    wanted: Option<Phase>,
    out_of_time: bool,
) -> (Option<i32>, String, Vec<String>) {
    let seen = phases.iter().map(|phase| (*phase, Evidence::Record)).collect();
    let s = sweep(&ids(named), &seen, any, wanted, out_of_time);
    (s.ended, s.printed, s.pending)
}

#[test]
fn a_turn_that_is_over_or_a_question_is_what_a_wait_is_for() {
    for phase in [
        Phase::Waiting,
        Phase::Idle,
        Phase::Done,
        Phase::Failed,
        Phase::Stopped,
    ] {
        assert!(settled(phase, None), "{phase:?}");
    }
    for phase in [Phase::Starting, Phase::Working, Phase::Unknown] {
        assert!(!settled(phase, None), "{phase:?}");
    }
}

#[test]
fn for_a_named_phase_waits_for_that_one_and_no_other() {
    assert!(settled(Phase::Working, Some(Phase::Working)));
    assert!(!settled(Phase::Done, Some(Phase::Working)));
    assert!(!settled(Phase::Waiting, Some(Phase::Working)));
    assert!(settled(Phase::Unknown, Some(Phase::Unknown)));
}

#[test]
fn an_agent_named_twice_is_one_agent() {
    assert_eq!(taken(&ids(&["b", "a", "b"])), ["b", "a"]);
    assert_eq!(taken(&ids(&["a"])), ["a"]);
}

#[test]
fn a_wait_reads_the_records_often_and_the_panes_rarely() {
    for evidence in [
        Evidence::Record,
        Evidence::Gone,
        Evidence::Hooks,
        Evidence::LetGo,
    ] {
        assert_eq!(pace(evidence), POLL, "{evidence:?}");
    }
    for evidence in [Evidence::Screen, Evidence::Unknown] {
        assert_eq!(pace(evidence), LOOK, "{evidence:?}");
    }
}

#[test]
fn every_agent_is_printed_as_it_settles_and_the_wait_ends_with_the_last() {
    let (ended, said, left) = swept(&["a", "b"], &[Phase::Done, Phase::Idle], false, None, false);
    assert_eq!(ended, Some(exit::OK));
    assert_eq!(said, "a done\nb idle\n");
    assert!(left.is_empty());
}

#[test]
fn any_ends_at_the_first_agent_to_settle_and_leaves_the_rest_running() {
    let (ended, said, _) = swept(&["a", "b"], &[Phase::Working, Phase::Failed], true, None, false);
    assert_eq!(ended, Some(exit::OK));
    assert_eq!(said, "b failed\n", "the one still working is not waited out");
}

#[test]
fn a_wait_that_runs_out_of_patience_keeps_what_settled() {
    let (ended, said, left) = swept(&["a", "b"], &[Phase::Working, Phase::Done], false, None, true);
    assert_eq!(ended, Some(exit::TIMEOUT));
    assert_eq!(said, "b done\n");
    assert_eq!(left, ["a"]);
}

#[test]
fn a_wait_for_a_phase_ends_on_that_phase() {
    let (ended, said, _) = swept(&["a"], &[Phase::Working], false, Some(Phase::Working), false);
    assert_eq!(ended, Some(exit::OK));
    assert_eq!(said, "a working\n");

    let (ended, said, _) = swept(&["a"], &[Phase::Working], false, None, true);
    assert_eq!(ended, Some(exit::TIMEOUT));
    assert_eq!(said, "");
}

#[test]
fn a_wait_still_going_sleeps_at_the_pace_of_its_slowest_reading() {
    let seen = vec![(Phase::Working, Evidence::Hooks), (Phase::Unknown, Evidence::Screen)];
    let s = sweep(&ids(&["a", "b"]), &seen, false, None, false);
    assert_eq!(s.ended, None);
    assert_eq!(s.pause, LOOK);
    assert_eq!(s.pending, ["a", "b"]);

    let seen = vec![(Phase::Working, Evidence::Hooks)];
    assert_eq!(sweep(&ids(&["a"]), &seen, false, None, false).pause, POLL);
}
