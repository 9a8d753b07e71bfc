use amx::exit;
use amx::verbs::logs::{run, tail_of, LINES};

#[test]
fn logs_end_at_the_last_line_with_anything_on_it() {
    let screen = "first\nsecond\nthird\n\n   \n\n";
    assert_eq!(tail_of(screen, 100), "first\nsecond\nthird");
    assert_eq!(tail_of(screen, 2), "second\nthird");

    assert_eq!(tail_of("first\n\nthird\n", 100), "first\n\nthird");

    assert_eq!(tail_of("", 100), "");
    assert_eq!(tail_of("\n\n   \n", 100), "");
}

#[test]
fn hardening_a_screen_cannot_drive_the_terminal_it_is_printed_into() {
    let painted = "done\u{1b}]0;PWNED\u{7}\n\u{9b}2J ad\u{200b}min\n";
    let shown = tail_of(painted, 100);

    assert!(shown.contains("]0;PWNED"), "still readable: {shown:?}");
    assert!(shown.contains("ad min"), "{shown:?}");
    assert_eq!(
        shown.chars().filter(|c| c.is_control() && *c != '\n').count(),
        0,
        "and inert: {shown:?}"
    );
}

#[test]
fn logs_are_what_the_pane_has_been_saying() {
    let outcome = run("fix-login-a1b", true, "$ cargo test\nok\n\n\n", None, LINES, false);
    assert_eq!(outcome.code, exit::OK);
    assert_eq!(outcome.out, "$ cargo test\nok\n");
}

#[test]
fn logs_of_a_pane_that_has_printed_nothing_are_not_a_failure() {
    let outcome = run("fix-login-a1b", true, "\n\n", None, LINES, false);
    assert_eq!(outcome.code, exit::OK);
    assert!(outcome.out.is_empty());
    assert!(outcome.err.contains("printed nothing yet"), "{}", outcome.err);
}

#[test]
fn logs_hand_back_the_recorded_answer_once_the_pane_is_gone() {
    let outcome = run("fix-login-a1b", false, "", Some("the login bug is fixed"), LINES, false);
    assert_eq!(outcome.code, exit::OK);
    assert_eq!(outcome.out, "the login bug is fixed\n");
}

#[test]
fn logs_of_an_agent_that_left_nothing_behind_say_so() {
    let outcome = run("fix-login-a1b", false, "", None, LINES, false);
    assert_eq!(outcome.code, exit::FAILURE);
    assert!(outcome.out.is_empty());
    assert!(outcome.err.contains("no pane any more"), "{}", outcome.err);
}
