use amx::store::Meta;
use amx::vendor;
use amx::verbs::attach::{
    agent_in, current, handover, noted, pick, switches, visit, visited, Aim, Group, Handover, Socket,
    TRAIL,
};

/// A wall, as the view's order gives one.
fn wall(rows: &[(Group, &str)]) -> Vec<(Group, String)> {
    rows.iter().map(|(group, id)| (*group, (*id).to_string())).collect()
}

/// The wall a person opens in the morning: something pinned, a question,
/// work in flight, a turn that ended, and one they put under everything.
fn a_wall() -> Vec<(Group, String)> {
    wall(&[
        (Group::Pinned, "pin-a1b"),
        (Group::NeedsInput, "ask-b2c"),
        (Group::Working, "busy-c3d"),
        (Group::Completed, "done-d4e"),
        (Group::Asleep, "gone-e5f"),
    ])
}

fn trail(ids: &[&str]) -> Vec<String> {
    ids.iter().map(|id| id.to_string()).collect()
}

#[test]
fn attach_next_and_prev_step_through_the_wall_and_wrap() {
    let wall = a_wall();
    let step = |current: Option<&str>, aim| pick(&wall, current, &vec![], &aim).unwrap();

    assert_eq!(step(Some("ask-b2c"), Aim::Next), "busy-c3d");
    assert_eq!(step(Some("ask-b2c"), Aim::Prev), "pin-a1b");

    assert_eq!(step(Some("gone-e5f"), Aim::Next), "pin-a1b");
    assert_eq!(step(Some("pin-a1b"), Aim::Prev), "gone-e5f");

    assert_eq!(step(None, Aim::Next), "pin-a1b");
    assert_eq!(step(None, Aim::Prev), "gone-e5f");
}

#[test]
fn attach_waiting_takes_the_question_first_and_the_last_ending_last() {
    let waiting = |wall: &Vec<(Group, String)>| pick(wall, None, &vec![], &Aim::Waiting);

    assert_eq!(waiting(&a_wall()).unwrap(), "ask-b2c");

    let reviewing = wall(&[
        (Group::Working, "busy-c3d"),
        (Group::Review, "ship-f6g"),
        (Group::Completed, "done-d4e"),
    ]);
    assert_eq!(waiting(&reviewing).unwrap(), "ship-f6g");

    let ended = wall(&[
        (Group::Working, "busy-c3d"),
        (Group::Completed, "late-g7h"),
        (Group::Completed, "early-h8i"),
    ]);
    assert_eq!(waiting(&ended).unwrap(), "late-g7h");

    let nothing = wall(&[(Group::Working, "busy-c3d"), (Group::Asleep, "gone-e5f")]);
    let why = waiting(&nothing).unwrap_err();
    assert!(why.contains("waiting on you"), "{why}");
}

#[test]
fn attach_last_goes_back_to_the_agent_you_came_from() {
    let wall = a_wall();
    let back = |current: Option<&str>, visited: &Vec<String>| pick(&wall, current, visited, &Aim::Last);

    let there = trail(&["busy-c3d", "ask-b2c"]);
    assert_eq!(back(Some("busy-c3d"), &there).unwrap(), "ask-b2c");
    let and_back = trail(&["ask-b2c", "busy-c3d"]);
    assert_eq!(back(Some("ask-b2c"), &and_back).unwrap(), "busy-c3d");

    assert_eq!(back(None, &there).unwrap(), "busy-c3d");

    let gone_since = trail(&["forgotten-z9z", "done-d4e"]);
    assert_eq!(back(None, &gone_since).unwrap(), "done-d4e");

    let only_here = trail(&["busy-c3d", "forgotten-z9z"]);
    let why = back(Some("busy-c3d"), &only_here).unwrap_err();
    assert!(why.contains("no agent to go back to"), "{why}");
    assert!(back(None, &vec![]).is_err(), "and nowhere is nowhere");
}

#[test]
fn attach_keeps_the_trail_newest_first_and_one_place_per_agent() {
    let mut kept: Vec<String> = Vec::new();
    kept = noted(&kept, "ask-b2c");
    kept = noted(&kept, "busy-c3d");
    assert_eq!(kept, ["busy-c3d", "ask-b2c"]);

    kept = noted(&kept, "ask-b2c");
    assert_eq!(kept, ["ask-b2c", "busy-c3d"]);

    for nth in 0..TRAIL {
        kept = noted(&kept, &format!("agent-{nth:02}"));
    }
    assert_eq!(kept.len(), TRAIL);
    assert_eq!(kept.first().unwrap(), &format!("agent-{:02}", TRAIL - 1));
    assert!(!kept.iter().any(|id| id == "ask-b2c"));
}

#[test]
fn attach_steps_from_the_agent_whose_session_the_key_was_pressed_in() {
    assert_eq!(agent_in("amx-fix-login-a1b").as_deref(), Some("fix-login-a1b"));
    assert_eq!(agent_in("work"), None);
    assert_eq!(agent_in(""), None);
    assert_eq!(agent_in("amx-"), None);
}

#[test]
fn attach_steps_from_the_session_this_pane_is_in() {
    let rows = wall(&[(Group::Working, "fix-login-a1b")]);
    assert_eq!(
        current(&rows, Some("amx-fix-login-a1b")).as_deref(),
        Some("fix-login-a1b")
    );
    assert_eq!(current(&a_wall(), Some("amx-fix-login-a1b")), None);
    assert_eq!(current(&rows, None), None);
    assert_eq!(current(&rows, Some("work")), None);
}

#[test]
fn attach_asks_the_client_that_is_already_here_to_switch() {
    let here = Socket::Path("/tmp/tmux-1000/default".to_string());
    assert!(switches(Some("/tmp/tmux-1000/default,4242,0"), &here, None, None));
}

#[test]
fn attach_switches_when_the_socket_was_written_down_the_other_way() {
    let path = "/tmp/tmux-1000/amx-test-attach";
    let inside = format!("{path},4242,0");
    let agents = Socket::Name("amx-test-attach".to_string());
    assert!(switches(Some(&inside), &agents, Some(path), Some(path)));

    let elsewhere = Socket::Name("amx-test-elsewhere".to_string());
    assert!(!switches(
        Some(&inside),
        &elsewhere,
        Some(path),
        Some("/tmp/tmux-1000/amx-test-elsewhere")
    ));
}

#[test]
fn attach_from_elsewhere_starts_a_client_of_its_own() {
    let agents = Socket::Name("amx-test-agents".to_string());
    assert!(!switches(None, &agents, None, None));
    assert!(!switches(Some(""), &agents, None, None));
    let elsewhere = "/tmp/amx-test-nowhere/socket".to_string();
    assert!(!switches(Some(&format!("{elsewhere},4242,0")), &agents, None, None));
    let theirs = Socket::Path("/tmp/amx-test-theirs/socket".to_string());
    assert!(!switches(Some(&format!("{elsewhere},4242,0")), &theirs, None, None));
}

#[test]
fn an_id_somebody_named_is_the_one_attached_to() {
    let aim = Aim::Id("not-on-any-wall".to_string());
    assert_eq!(pick(&vec![], None, &vec![], &aim).unwrap(), "not-on-any-wall");
    let why = pick(&vec![], None, &vec![], &Aim::Next).unwrap_err();
    assert_eq!(why, "nothing on the wall to attach to");
}

fn record(session: Option<&str>) -> Meta {
    Meta {
        id: "fix-login-a1b".to_string(),
        task: "fix the login bug".to_string(),
        agent: Some("first".to_string()),
        dir: "/srv/app".to_string(),
        worktree: None,
        branch: None,
        base: None,
        pane: "%7".to_string(),
        session: session.map(str::to_string),
        parent: None,
    }
}

#[test]
fn attach_hands_over_a_live_pane_and_brings_a_lost_one_back_first() {
    let first = vendor::entry("first");
    assert_eq!(handover(true, &record(None), false, None, 8, 8), Handover::Now);
    assert_eq!(
        handover(false, &record(Some("abc-123")), true, first.as_ref(), 0, 8),
        Handover::AfterComeback
    );
}

#[test]
fn attach_refuses_a_lost_pane_in_the_words_that_say_what_is_missing() {
    let first = vendor::entry("first");
    match handover(false, &record(None), true, first.as_ref(), 0, 8) {
        Handover::Refused(why) => assert!(why.contains("no session was ever recorded"), "{why}"),
        other => panic!("an agent with nothing to continue was handed over: {other:?}"),
    }
    match handover(false, &record(Some("abc-123")), false, None, 0, 8) {
        Handover::Refused(why) => assert!(why.contains("started by hand"), "{why}"),
        other => panic!("an adopted agent was started again: {other:?}"),
    }
}

#[test]
fn attach_writes_the_trail_newest_first_as_pretty_json() {
    let read = b"[\"port-it-b2c\", \"fix-login-a1b\"]".to_vec();
    assert_eq!(visited(Some(&read)), ["port-it-b2c", "fix-login-a1b"]);
    let written = visit(Some(&read), "fix-login-a1b");
    assert_eq!(
        String::from_utf8(written).unwrap(),
        "[\n  \"fix-login-a1b\",\n  \"port-it-b2c\"\n]\n"
    );
}

#[test]
fn a_trail_that_will_not_read_is_a_trail_nobody_has_left_yet() {
    assert!(visited(None).is_empty());
    assert!(visited(Some(b"[\"half wr")).is_empty());
    assert_eq!(
        String::from_utf8(visit(Some(b"{\"not\": \"a list\"}"), "fix-login-a1b")).unwrap(),
        "[\n  \"fix-login-a1b\"\n]\n"
    );
    assert_eq!(
        String::from_utf8(visit(None, "fix-login-a1b")).unwrap(),
        "[\n  \"fix-login-a1b\"\n]\n"
    );
}
