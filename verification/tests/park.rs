use amx::store::{Phase, State};
use amx::verbs::park::{consider, ripe, stamp, Pane, Parking, PARKED};

/// An agent that came into `phase` at `since`, and was last heard from then.
fn recorded(phase: Phase, since: u64) -> State {
    State {
        state: phase,
        since,
        last_event: since,
        ..State::default()
    }
}

/// A pane that is there, that nobody is looking at and nobody pinned.
fn sitting() -> Pane {
    Pane {
        alive: true,
        watched: false,
        pinned: false,
    }
}

#[test]
fn park_takes_the_pane_of_an_agent_that_has_sat_idle_long_enough() {
    let mut state = recorded(Phase::Idle, 1_000);
    assert_eq!(
        consider(&state, 3_600, 4_600, sitting()),
        Parking::LetGo { idle: 3_600 },
        "the pane went with the vendor"
    );

    // Everything the agent is stays where it was. Only the stamp is new.
    stamp(&mut state, 4_600);
    assert_eq!(state.parked_at, 4_600);
    assert_eq!(state.state, Phase::Idle);
    assert_eq!(state.last_event, 1_000);
    assert_eq!(PARKED, "park");
}

#[test]
fn park_leaves_an_agent_that_is_not_idle_alone() {
    let state = recorded(Phase::Working, 1_000);
    assert_eq!(consider(&state, 3_600, 4_600, sitting()), Parking::Leave);
}

#[test]
fn park_takes_no_pane_at_all_where_the_key_is_zero() {
    let state = recorded(Phase::Idle, 1_000);
    assert_eq!(consider(&state, 0, 90_000, sitting()), Parking::Leave);
}

#[test]
fn park_waits_out_the_whole_of_the_key() {
    let state = recorded(Phase::Idle, 1_000);
    assert_eq!(consider(&state, 3_600, 4_599, sitting()), Parking::Leave);
    assert!(
        ripe(&state, 3_600, 4_600),
        "and a second later it is the hour the key asked for"
    );
}

#[test]
fn park_does_not_stamp_a_pane_that_had_already_gone() {
    let state = recorded(Phase::Idle, 1_000);
    let gone = Pane {
        alive: false,
        ..sitting()
    };
    assert_eq!(consider(&state, 3_600, 4_600, gone), Parking::Leave);
}

#[test]
fn park_leaves_a_pane_somebody_is_looking_at() {
    let state = recorded(Phase::Idle, 1_000);
    let watched = Pane {
        watched: true,
        ..sitting()
    };
    assert_eq!(consider(&state, 3_600, 4_600, watched), Parking::Leave);
}

#[test]
fn park_leaves_an_agent_somebody_pinned_where_they_put_it() {
    let state = recorded(Phase::Idle, 1_000);
    let pinned = Pane {
        pinned: true,
        ..sitting()
    };
    assert_eq!(consider(&state, 3_600, 4_600, pinned), Parking::Leave);
}

#[test]
fn a_key_at_the_top_of_the_clock_waits_for_the_top_of_the_clock() {
    let state = recorded(Phase::Idle, 1_000);
    assert!(!ripe(&state, u64::MAX, u64::MAX - 1));
    assert!(ripe(&state, u64::MAX, u64::MAX));
}

#[test]
fn a_timer_that_fires_late_still_parks() {
    let state = recorded(Phase::Idle, 1_000);
    assert_eq!(
        consider(&state, 3_600, 90_000, sitting()),
        Parking::LetGo { idle: 89_000 }
    );
}
