use amx::store::Phase;
use amx::verbs::adopt::{either, label, seeded, session_in, spoken_for, Standing, Taker};

fn table() -> Vec<Taker> {
    vec![
        Taker {
            name: "first".to_string(),
            adopts: true,
            session_env: Some("FIRST_SESSION_ID".to_string()),
        },
        Taker {
            name: "pi".to_string(),
            adopts: false,
            session_env: None,
        },
    ]
}

fn env(pairs: &[(&str, &str)]) -> Vec<(String, String)> {
    pairs
        .iter()
        .map(|(k, v)| (k.to_string(), v.to_string()))
        .collect()
}

#[test]
fn adopt_takes_the_session_from_whichever_vendor_named_it() {
    let vendors = table();
    for vendor in &vendors {
        if !vendor.adopts {
            continue;
        }
        let named = vendor.session_env.as_deref().expect("a vendor that can be adopted");
        let (found, session) =
            session_in(&vendors, &env(&[(named, "abc-123")])).expect("the session");
        assert_eq!(vendors[found].name, vendor.name);
        assert_eq!(session, "abc-123");
    }

    let cannot = vec![Taker {
        name: "second".to_string(),
        adopts: false,
        session_env: Some("SECOND_SESSION".to_string()),
    }];
    let said = session_in(&cannot, &env(&[("SECOND_SESSION", "abc-123")])).unwrap_err();
    assert!(said.contains("second"), "{said}");
    assert!(said.contains("cannot be taken over"), "{said}");
}

#[test]
fn adopt_the_row_is_named_after_the_directory_the_pane_is_in() {
    assert_eq!(label(Some("app"), "first"), "adopted app");
    assert_eq!(label(None, "second"), "adopted second");
}

#[test]
fn adopt_outside_any_session_names_what_it_looked_for() {
    let said = session_in(&table(), &env(&[("TMUX_PANE", "%3")])).unwrap_err();
    assert_eq!(
        said,
        "no $FIRST_SESSION_ID here, so no first started this command. `amx adopt` is run inside the agent it adopts, and that session id is how its events are recognised afterwards"
    );

    let said = session_in(&table(), &env(&[("FIRST_SESSION_ID", "")])).unwrap_err();
    assert!(said.starts_with("no $FIRST_SESSION_ID here"), "an empty variable names nothing: {said}");
}

#[test]
fn adopt_with_nothing_adoptable_says_so() {
    let said = session_in(&Vec::new(), &env(&[])).unwrap_err();
    assert_eq!(
        said,
        "amx has an entry for no vendor it can take over, so there is nothing here for `amx adopt` to write a record about"
    );
}

#[test]
fn either_names_one_two_or_many() {
    let names = |each: &[&str]| either(&each.iter().map(|e| e.to_string()).collect());
    assert_eq!(names(&[]), "nothing");
    assert_eq!(names(&["a"]), "a");
    assert_eq!(names(&["a", "b"]), "a or b");
    assert_eq!(names(&["a", "b", "c"]), "a, b or c");
}

fn standing(id: &str, pane: &str, session: Option<&str>, ended: bool) -> Standing {
    Standing {
        id: id.to_string(),
        socket: "amx".to_string(),
        pane: pane.to_string(),
        session: session.map(str::to_string),
        ended,
    }
}

#[test]
fn adopt_refuses_a_pane_or_a_conversation_amx_is_already_looking_at() {
    let records = vec![
        standing("zeta-c3d", "%7", Some("def-456"), false),
        standing("alpha-b2c", "%3", None, false),
        standing("beta-a1b", "%9", Some("abc-123"), false),
    ];
    assert_eq!(
        spoken_for(&records, "amx", "%3", "nothing-of-it").as_deref(),
        Some("%3 is agent `alpha-b2c` already")
    );
    assert_eq!(
        spoken_for(&records, "amx", "%5", "abc-123").as_deref(),
        Some("this conversation is agent `beta-a1b` already")
    );
    assert_eq!(
        spoken_for(&records, "amx", "%3", "def-456").as_deref(),
        Some("%3 is agent `alpha-b2c` already"),
        "the first in the order of the ids"
    );
    assert_eq!(spoken_for(&records, "other", "%3", "x"), None, "another server's pane");
}

#[test]
fn adopt_stands_aside_for_a_record_that_has_ended() {
    let records = vec![standing("old-one-a1b", "%3", Some("abc-123"), true)];
    assert_eq!(spoken_for(&records, "amx", "%3", "abc-123"), None);
}

#[test]
fn an_adopted_agent_is_what_its_screen_says() {
    assert_eq!(seeded(Some(Phase::Waiting)), Phase::Waiting);
    assert_eq!(seeded(None), Phase::Unknown);
}
