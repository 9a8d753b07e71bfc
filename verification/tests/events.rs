use amx::store::{Event, Value};
use amx::verbs::events::{clock, detail, merged};

fn event(at: u64, kind: &str, payload: &[(&str, Value)]) -> Event {
    Event {
        at,
        kind: kind.to_string(),
        agent_id: None,
        payload: payload
            .iter()
            .map(|(key, value)| (key.to_string(), value.clone()))
            .collect(),
    }
}

fn text(s: &str) -> Value {
    Value::Text(s.to_string())
}

#[test]
fn events_the_clock_is_the_time_of_day_it_happened() {
    assert_eq!(clock(0), "00:00:00Z");
    assert_eq!(clock(86_399), "23:59:59Z");
    assert_eq!(clock(1_800_000_061), "08:01:01Z", "and the day is dropped");
}

#[test]
fn events_a_line_says_when_whose_and_what() {
    let shown = amx::verbs::events::line(
        "fix-login-a1b",
        &event(1, "Stop", &[("last_assistant_message", text("the tests pass now"))]),
        "fix-login-a1b".len(),
    );
    assert!(shown.starts_with("00:00:01Z  fix-login-a1b  Stop"), "{shown}");
    assert!(shown.ends_with("the tests pass now"), "{shown}");
    assert_eq!(shown.lines().count(), 1);
}

#[test]
fn events_every_kind_shows_the_one_thing_it_is_about() {
    let about = |kind: &str, key: &str, value: Value| detail(&event(1, kind, &[(key, value)]));
    assert_eq!(about("SessionStart", "source", text("resume")), "resume");
    assert_eq!(about("UserPromptSubmit", "prompt", text("run the tests")), "run the tests");
    assert_eq!(about("PreToolUse", "tool_name", text("Bash")), "Bash");
    assert_eq!(
        about("Notification", "message", text("permission to use Bash")),
        "permission to use Bash"
    );
    assert_eq!(about("send", "text", text("and the linter")), "and the linter");
    assert_eq!(about("answer", "key", text("2")), "2");
    assert_eq!(about("exit", "code", Value::Int(-1)), "code -1");
    assert_eq!(about("exit", "code", Value::Other), "");
    assert_eq!(about("Unheard", "text", text("anything")), "");
}

#[test]
fn events_a_subagents_event_says_whose_it_is() {
    let mut e = event(1, "Stop", &[]);
    e.agent_id = Some("sub-1".to_string());
    assert_eq!(detail(&e), "subagent");
    e.payload = vec![("last_assistant_message".to_string(), text("done"))];
    assert_eq!(detail(&e), "subagent done");
}

#[test]
fn events_nothing_in_a_payload_can_add_a_line_to_the_stream() {
    let shown = amx::verbs::events::line(
        "a",
        &event(
            1,
            "Stop",
            &[("last_assistant_message", text("first line\nsecond line\u{1b}]0;x\u{7}"))],
        ),
        1,
    );
    assert_eq!(shown.lines().count(), 1, "{shown:?}");
    assert!(shown.ends_with("first line"), "{shown:?}");
    assert!(!shown.contains('\u{1b}'));
}

#[test]
fn events_merges_by_time_and_leaves_each_log_in_its_own_order() {
    let batch = vec![
        ("a".to_string(), event(2, "first-of-a", &[])),
        ("a".to_string(), event(2, "second-of-a", &[])),
        ("a".to_string(), event(5, "third-of-a", &[])),
        ("b".to_string(), event(1, "first-of-b", &[])),
        ("b".to_string(), event(2, "second-of-b", &[])),
    ];
    let order: Vec<(String, String)> = merged(batch)
        .into_iter()
        .map(|(id, e)| (id, e.kind))
        .collect();
    assert_eq!(
        order,
        [
            ("b".to_string(), "first-of-b".to_string()),
            ("a".to_string(), "first-of-a".to_string()),
            ("a".to_string(), "second-of-a".to_string()),
            ("b".to_string(), "second-of-b".to_string()),
            ("a".to_string(), "third-of-a".to_string()),
        ]
    );
}

#[test]
fn events_draws_every_line_to_the_same_columns() {
    let one = amx::verbs::events::line("a", &event(61, "Stop", &[]), 5);
    let two = amx::verbs::events::line("abcde", &event(3_661, "SessionStart", &[("source", text("resume"))]), 5);
    assert_eq!(one, "00:01:01Z  a      Stop");
    assert_eq!(two, "01:01:01Z  abcde  SessionStart      resume");
}
