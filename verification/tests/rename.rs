use amx::exit;
use amx::verbs::rename::{rename, run, Renamed, NAME};

#[test]
fn acts_rename_puts_the_name_on_the_record_and_leaves_the_id_where_it_was() {
    let (done, kept) = rename("fix-login-a1b", "  auth\u{7}  ");
    match done {
        Renamed::Yes(said) => assert_eq!(said, "fix-login-a1b is auth"),
        Renamed::No(why) => panic!("the rename was refused: {why}"),
    }
    assert_eq!(kept.as_deref(), Some("auth"));

    let (_, kept) = rename("fix-login-a1b", "auth\nfix");
    assert_eq!(kept.as_deref(), Some("auth fix"), "a name pasted over two lines is two words");
}

#[test]
fn acts_rename_refuses_what_no_row_could_carry() {
    let refused = |typed: &str| match rename("fix-login-a1b", typed) {
        (Renamed::No(why), kept) => {
            assert_eq!(kept, None, "and nothing is written");
            why
        }
        (Renamed::Yes(said), _) => panic!("{typed:?} was taken: {said}"),
    };
    assert!(refused("   ").contains("a name"), "nothing is not a name");
    assert!(refused(&"x".repeat(NAME + 1)).contains(&NAME.to_string()));
    assert!(matches!(rename("fix-login-a1b", &"x".repeat(NAME)).0, Renamed::Yes(_)));
}

#[test]
fn rename_says_what_the_agent_is_called_now() {
    let (outcome, written) = run("fix-login-a1b", "auth");
    assert_eq!(outcome.code, exit::OK);
    assert_eq!(outcome.out, "fix-login-a1b is auth\n");
    assert_eq!(written, Some(Some("auth".to_string())));
}

#[test]
fn rename_a_name_no_row_could_carry_is_a_usage_refusal() {
    for typed in ["   ".to_string(), "x".repeat(NAME + 1)] {
        let (outcome, written) = run("fix-login-a1b", &typed);
        assert_eq!(outcome.code, exit::USAGE, "{typed:?}");
        assert!(outcome.out.is_empty(), "{typed:?}");
        assert!(outcome.err.starts_with("amx: a name"), "{}", outcome.err);
        assert_eq!(written, None, "and nothing was written");
    }
}

#[test]
fn rename_to_the_id_is_the_name_it_already_had() {
    let (outcome, written) = run("fix-login-a1b", "fix-login-a1b");
    assert_eq!(outcome.code, exit::OK);
    assert_eq!(written, Some(None), "the record goes back to holding none");
}
