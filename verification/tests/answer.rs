use amx::store::{Ask, Choice, Kind, Phase, State};
use amx::verbs::answer::{
    a_walk, answer, answered, drive, grammar, named, read, steps, Answer, AnswerArgs, Call,
    Shape, Step,
};

/// A choice with the sentence the screen draws under it.
fn choice(label: &str, description: &str) -> Choice {
    Choice {
        label: label.to_string(),
        description: Some(description.to_string()),
        preview: None,
    }
}

/// The record of a call, as a hook that carried the whole payload leaves it.
fn asking(questions: Vec<Ask>) -> State {
    let mut state = State {
        state: Phase::Waiting,
        kind: Some(Kind::Question),
        ..State::default()
    };
    state.asks_all(questions);
    state
}

fn a_checkbox_question() -> State {
    asking(vec![Ask {
        header: Some("Features".to_string()),
        text: "Which features should be enabled?".to_string(),
        options: vec![
            choice("Logging", "Write a log file"),
            choice("Metrics", "Export counters"),
            choice("Tracing", "Emit spans"),
        ],
        multi: true,
        answer: None,
    }])
}

fn a_plain_question() -> State {
    asking(vec![Ask {
        header: Some("License".to_string()),
        text: "Which license should the LICENSE file contain?".to_string(),
        options: vec![
            choice("MIT", "Short and permissive"),
            choice("Apache-2.0", "Permissive with a patent grant"),
        ],
        multi: false,
        answer: None,
    }])
}

fn a_previewed_question() -> State {
    asking(vec![Ask {
        header: Some("Layout".to_string()),
        text: "Which header layout should the page use?".to_string(),
        options: vec![
            Choice {
                label: "Stacked".to_string(),
                description: Some("Title over subtitle".to_string()),
                preview: Some("+----------+\n| TITLE    |\n+----------+".to_string()),
            },
            Choice {
                label: "Inline".to_string(),
                description: Some("Title beside subtitle".to_string()),
                preview: Some(
                    "+---------------------+\n| TITLE - subtitle    |\n+---------------------+"
                        .to_string(),
                ),
            },
        ],
        multi: false,
        answer: None,
    }])
}

fn a_trust_gate() -> State {
    State {
        state: Phase::Waiting,
        question: Some(
            "Quick safety check: Is this a project you created or one you trust?".to_string(),
        ),
        kind: Some(Kind::Trust),
        ..State::default()
    }
}

fn a_permission_box() -> State {
    State {
        state: Phase::Waiting,
        question: Some("The agent needs your permission to use Bash".to_string()),
        options: vec!["Yes".to_string(), "No".to_string()],
        kind: Some(Kind::Permission),
        ..State::default()
    }
}

fn keys(named: &[&str]) -> Vec<Step> {
    named.iter().map(|key| Step::Key(key.to_string())).collect()
}

fn given(answer: &str) -> AnswerArgs {
    AnswerArgs {
        key: Some(answer.to_string()),
        ..AnswerArgs::default()
    }
}

fn given_text(words: &str) -> AnswerArgs {
    AnswerArgs {
        text: Some(words.to_string()),
        ..AnswerArgs::default()
    }
}

fn typed(state: &State, args: &AnswerArgs) -> Vec<Step> {
    let answer = answer(args, state.kind, state).expect("an answer this question takes");
    steps(&answer, None, Shape::of(state))
}

fn words(text: &str) -> Step {
    Step::Type(text.to_string())
}

/// What a pane would have had typed at it, one call to a row.
fn typed_at(steps: &Vec<Step>) -> Vec<Vec<String>> {
    drive(steps)
        .into_iter()
        .map(|call| match call {
            Call::Keys(keys) => keys,
            Call::Paste(text) => vec![format!("paste {text}")],
            Call::Settle => vec!["settle".to_string()],
        })
        .collect()
}

#[test]
fn surfaces_every_key_of_an_answer_is_a_call_of_its_own() {
    let checkbox = a_checkbox_question();
    assert_eq!(
        typed_at(&typed(&checkbox, &given("1,3"))),
        vec![
            vec!["1"],
            vec!["settle"],
            vec!["3"],
            vec!["settle"],
            vec!["Right"],
            vec!["settle"],
            vec!["Enter"],
        ],
    );

    assert_eq!(
        typed_at(&typed(&checkbox, &given_text("Audit"))),
        vec![
            vec!["Up"],
            vec!["settle"],
            vec!["paste Audit"],
            vec!["settle"],
            vec!["Down"],
            vec!["settle"],
            vec!["Enter"],
            vec!["settle"],
            vec!["Enter"],
        ],
    );
}

#[test]
fn surfaces_the_rows_the_vendor_adds_are_not_the_questions_choices() {
    let plain = a_plain_question();
    let refused = answer(&given("3"), Some(Kind::Question), &plain).expect_err("not a choice");
    assert!(refused.contains("--text"), "{refused}");
    let refused = answer(&given("4"), Some(Kind::Question), &plain).expect_err("not a choice");
    assert!(refused.contains("offers 2 choices"), "{refused}");

    let checkbox = a_checkbox_question();
    let refused = answer(&given("4"), Some(Kind::Question), &checkbox).expect_err("the field");
    assert!(refused.contains("--text"), "{refused}");

    let previewed = a_previewed_question();
    let refused = answer(&given("3"), Some(Kind::Question), &previewed).expect_err("no row");
    assert!(refused.contains("offers 2 choices"), "{refused}");

    assert_eq!(
        answer(&given("3"), Some(Kind::Permission), &a_permission_box()),
        Ok(Answer::Key("3".to_string()))
    );
}

#[test]
fn surfaces_the_grammar_counts_the_choices_the_question_offers() {
    assert_eq!(
        grammar(Some(Kind::Question), &a_plain_question()),
        "use 1-2, enter, esc, or words of your own"
    );
    assert!(
        grammar(Some(Kind::Question), &a_checkbox_question()).contains("1,3"),
        "a question that takes several says how to give it several"
    );
    assert_eq!(
        grammar(Some(Kind::Question), &a_previewed_question()),
        "use 1-2, enter or esc",
        "a previewed question has no row for words of your own"
    );

    assert!(grammar(Some(Kind::Permission), &a_permission_box()).contains("y, n, 1-9"));
    assert!(grammar(Some(Kind::Question), &State::default()).contains("1-9"));

    assert_eq!(
        grammar(Some(Kind::Trust), &a_trust_gate()),
        "use down enter, up enter, or esc"
    );
}

#[test]
fn surfaces_a_question_that_takes_several_choices_takes_several() {
    let state = a_checkbox_question();
    assert_eq!(
        answer(&given("1,3"), Some(Kind::Question), &state),
        Ok(Answer::Toggle(vec![1, 3]))
    );
    assert_eq!(
        typed(&state, &given("1,3")),
        keys(&["1", "3", "Right", "Enter"])
    );
    assert_eq!(
        typed(&state, &given(" 1 , 3 ")),
        keys(&["1", "3", "Right", "Enter"])
    );
}

#[test]
fn surfaces_one_choice_of_a_checkbox_menu_is_still_a_box() {
    let checkbox = a_checkbox_question();
    assert_eq!(
        answer(&given("1"), Some(Kind::Question), &checkbox),
        Ok(Answer::Toggle(vec![1]))
    );
    assert_eq!(typed(&checkbox, &given("1")), keys(&["1", "Right", "Enter"]));

    let plain = a_plain_question();
    assert_eq!(
        answer(&given("1"), Some(Kind::Question), &plain),
        Ok(Answer::Key("1".to_string()))
    );
    assert_eq!(typed(&plain, &given("1")), keys(&["1"]));
}

#[test]
fn surfaces_a_question_that_takes_one_choice_is_offered_one() {
    for state in [a_plain_question(), a_permission_box(), State::default()] {
        let refused = answer(&given("1,3"), state.kind, &state).expect_err("one choice");
        assert!(refused.contains("one choice"), "{refused}");
    }
}

#[test]
fn surfaces_a_box_the_question_does_not_offer_is_not_a_box() {
    let state = a_checkbox_question();
    for refused in ["1,4", "1,9", "0,1"] {
        assert!(
            answer(&given(refused), Some(Kind::Question), &state).is_err(),
            "{refused} is not a choice this question offers"
        );
    }
    let refused = answer(&given("1,1"), Some(Kind::Question), &state).expect_err("twice");
    assert!(refused.contains("twice"), "{refused}");
}

#[test]
fn surfaces_the_answer_that_finishes_a_call_confirms_it() {
    let mut state = asking(vec![
        a_plain_question().asking[0].clone(),
        a_checkbox_question().asking[0].clone(),
    ]);
    assert!(!Shape::of(&state).confirms, "two questions are outstanding");
    assert_eq!(typed(&state, &given("1")), keys(&["1"]), "and the vendor advances");

    state.answered("MIT".to_string());
    assert!(Shape::of(&state).confirms, "this one is the last of them");
    assert_eq!(
        typed(&state, &given("1,3")),
        keys(&["1", "3", "Right", "Enter"])
    );

    assert!(!Shape::of(&a_plain_question()).confirms);
    assert!(!Shape::of(&a_permission_box()).confirms);
}

#[test]
fn surfaces_words_of_your_own_go_in_the_row_the_question_offers_for_them() {
    let plain = a_plain_question();
    assert_eq!(
        answer(&given_text("BSD-3-Clause"), Some(Kind::Question), &plain),
        Ok(Answer::Words("BSD-3-Clause".to_string()))
    );
    assert_eq!(
        typed(&plain, &given_text("BSD-3-Clause")),
        vec![
            Step::Key("Up".to_string()),
            words("BSD-3-Clause"),
            Step::Key("Enter".to_string())
        ]
    );

    let checkbox = a_checkbox_question();
    assert_eq!(
        typed(&checkbox, &given_text("Audit")),
        vec![
            Step::Key("Up".to_string()),
            words("Audit"),
            Step::Key("Down".to_string()),
            Step::Key("Enter".to_string()),
            Step::Key("Enter".to_string()),
        ]
    );

    assert_eq!(
        answer(&given_text("  Audit  "), Some(Kind::Question), &checkbox),
        Ok(Answer::Words("Audit".to_string()))
    );
    assert!(answer(&given_text("   "), Some(Kind::Question), &checkbox).is_err());
}

#[test]
fn surfaces_the_row_for_words_reads_a_digit_as_the_character_it_is() {
    let state = a_plain_question();
    assert_eq!(
        answer(&given_text("2"), Some(Kind::Question), &state),
        Ok(Answer::Words("2".to_string()))
    );
    assert_eq!(
        answer(&given("2"), Some(Kind::Question), &state),
        Ok(Answer::Key("2".to_string()))
    );
    assert_eq!(
        answer(&given_text("down enter"), Some(Kind::Question), &state),
        Ok(Answer::Words("down enter".to_string()))
    );
}

#[test]
fn surfaces_a_prompt_with_no_row_for_words_is_offered_none() {
    for kind in [None, Some(Kind::Permission), Some(Kind::Trust)] {
        let state = State {
            kind,
            ..a_permission_box()
        };
        let refused = answer(&given_text("keep both"), kind, &state).expect_err("no row");
        assert!(refused.contains("y, n, 1-9"), "{refused}");
    }

    let previewed = a_previewed_question();
    let refused =
        answer(&given_text("stacked"), Some(Kind::Question), &previewed).expect_err("no row");
    assert!(refused.contains("preview"), "{refused}");

    let refused = answer(&given("stacked, please"), Some(Kind::Question), &previewed)
        .expect_err("no row");
    assert!(!refused.contains("words of your own"), "{refused}");
}

#[test]
fn surfaces_a_note_rides_beside_the_choice_it_is_about() {
    let state = a_previewed_question();
    let line = AnswerArgs {
        key: Some("1".to_string()),
        note: Some("prefer the stacked one".to_string()),
        ..AnswerArgs::default()
    };
    let (answer, note) = read(&line, Some(Kind::Question), &state).expect("a note and a choice");
    assert_eq!(answer, Answer::Key("1".to_string()));
    assert_eq!(
        steps(&answer, note.as_deref(), Shape::of(&state)),
        vec![
            Step::Key("n".to_string()),
            words("prefer the stacked one"),
            Step::Key("Escape".to_string()),
            Step::Key("1".to_string()),
        ],
        "the note is typed before the answer that carries it"
    );
}

#[test]
fn surfaces_a_question_that_draws_no_notes_field_takes_no_note() {
    for state in [a_plain_question(), a_checkbox_question(), a_permission_box()] {
        let line = AnswerArgs {
            key: Some("1".to_string()),
            note: Some("prefer the stacked one".to_string()),
            ..AnswerArgs::default()
        };
        let refused = read(&line, state.kind, &state).expect_err("no notes field");
        assert!(refused.contains("preview"), "{refused}");
    }

    let blank = AnswerArgs {
        key: Some("1".to_string()),
        note: Some("  ".to_string()),
        ..AnswerArgs::default()
    };
    assert!(read(&blank, Some(Kind::Question), &a_previewed_question()).is_err());
}

#[test]
fn surfaces_the_record_names_the_choices_that_were_checked() {
    let state = a_checkbox_question();
    let pending = state.pending();
    assert_eq!(Answer::Toggle(vec![1, 3]).said(pending), "Logging, Tracing");
    assert_eq!(Answer::Key("2".to_string()).said(pending), "Metrics");
    assert_eq!(
        Answer::Words("audit".to_string()).said(pending),
        "audit",
        "and words of your own are their own answer"
    );
    assert_eq!(Answer::Key("y".to_string()).said(None), "y");
}

#[test]
fn the_grammar_is_y_n_one_through_nine_the_two_moves_enter_and_esc() {
    for key in ["y", "n", "1", "5", "9"] {
        assert_eq!(named(key).as_deref(), Some(key));
    }
    assert_eq!(named("enter").as_deref(), Some("Enter"));
    assert_eq!(named("esc").as_deref(), Some("Escape"));
    assert_eq!(named("down").as_deref(), Some("Down"));
    assert_eq!(named("up").as_deref(), Some("Up"));
}

#[test]
fn surfaces_a_list_with_no_numbers_is_answered_by_walking_to_the_row() {
    let gate = a_trust_gate();
    assert_eq!(
        answer(&given("down enter"), Some(Kind::Trust), &gate),
        Ok(Answer::Walk(vec!["Down".to_string(), "Enter".to_string()]))
    );
    assert_eq!(typed(&gate, &given("down enter")), keys(&["Down", "Enter"]));
    assert_eq!(
        typed(&gate, &given("down down enter")),
        keys(&["Down", "Down", "Enter"])
    );
    assert_eq!(typed(&gate, &given("up enter")), keys(&["Up", "Enter"]));

    assert_eq!(
        typed_at(&typed(&gate, &given("down enter"))),
        vec![vec!["Down"], vec!["settle"], vec!["Enter"]],
    );
}

#[test]
fn surfaces_a_walk_that_takes_nothing_is_not_an_answer() {
    let gate = a_trust_gate();
    for walked in ["down", "up", "down down"] {
        let refused = answer(&given(walked), Some(Kind::Trust), &gate).expect_err("no take");
        assert!(refused.contains("down enter"), "{refused}");
    }
    assert_eq!(a_walk("enter down"), None);
    assert_eq!(a_walk("down enter enter"), None);
    assert_eq!(a_walk("down esc"), None);
    assert_eq!(a_walk("hold on, up to you"), None);
}

#[test]
fn surfaces_the_key_that_takes_the_highlighted_row_is_refused_where_none_is_numbered() {
    let gate = a_trust_gate();
    let refused = answer(&given("enter"), Some(Kind::Trust), &gate).expect_err("the default");
    assert!(refused.contains("down enter"), "{refused}");

    assert_eq!(
        answer(&given("enter"), Some(Kind::Permission), &a_permission_box()),
        Ok(Answer::Key("Enter".to_string()))
    );
    let numbered = State {
        kind: Some(Kind::Trust),
        ..a_permission_box()
    };
    assert_eq!(
        answer(&given("enter"), Some(Kind::Trust), &numbered),
        Ok(Answer::Key("Enter".to_string())),
        "including the trust screen of a vendor that still numbers its rows"
    );
}

#[test]
fn surfaces_a_walk_leaves_no_answer_amx_cannot_name_behind_it() {
    let mut state = a_trust_gate();
    let walked = Answer::Walk(vec!["Down".to_string(), "Enter".to_string()]);
    let said = walked.said(state.pending());
    let record = walked.event(&said, None);
    answered(&mut state, &walked);

    assert_eq!(state.state, Phase::Working);
    assert_eq!(state.question, None);
    assert_eq!(state.kind, None);
    assert_eq!(
        record,
        vec![("key".to_string(), "Down Enter".to_string())]
    );
}

#[test]
fn a_shouted_key_is_the_same_key() {
    assert_eq!(named("Y").as_deref(), Some("y"));
    assert_eq!(named("ESC").as_deref(), Some("Escape"));
    assert_eq!(named(" 2 ").as_deref(), Some("2"));
}

#[test]
fn nothing_else_is_an_answer() {
    for refused in [
        "", "0", "10", "z", "yes", "escape", "return", "esc esc", "^[",
    ] {
        assert_eq!(named(refused), None, "{refused:?} must not be an answer");
    }
}

#[test]
fn surfaces_a_question_of_the_vendors_own_takes_words() {
    let state = a_plain_question();
    assert_eq!(
        answer(&given("neither, keep both"), Some(Kind::Question), &state),
        Ok(Answer::Words("neither, keep both".to_string()))
    );
    assert_eq!(
        answer(&given("  the sqlite one  "), Some(Kind::Question), &state),
        Ok(Answer::Words("the sqlite one".to_string()))
    );
}

#[test]
fn surfaces_a_prompt_that_reads_one_key_is_offered_one_key() {
    for kind in [None, Some(Kind::Permission), Some(Kind::Trust)] {
        let state = State {
            kind,
            ..a_permission_box()
        };
        assert!(
            answer(&given("neither, keep both"), kind, &state).is_err(),
            "{kind:?}"
        );
        assert!(grammar(kind, &state).contains("y, n, 1-9"), "{kind:?}");
    }
}

#[test]
fn surfaces_the_choices_are_still_read_as_choices() {
    let state = a_plain_question();
    for key in ["2", "y", "enter", "esc"] {
        assert!(
            matches!(
                answer(&given(key), Some(Kind::Question), &state),
                Ok(Answer::Key(_))
            ),
            "{key:?}"
        );
    }
}

#[test]
fn surfaces_an_empty_answer_is_not_an_answer_to_a_question_either() {
    let state = a_plain_question();
    for blank in ["", "   ", "\t\n"] {
        assert!(
            answer(&given(blank), Some(Kind::Question), &state).is_err(),
            "{blank:?}"
        );
    }
    assert!(grammar(Some(Kind::Question), &state).contains("words of your own"));
}

#[test]
fn surfaces_answering_one_question_of_a_call_puts_up_the_next() {
    let mut state = asking(vec![
        a_plain_question().asking[0].clone(),
        a_checkbox_question().asking[0].clone(),
    ]);

    let first = Answer::Key("2".to_string());
    let said = first.said(state.pending());
    let record = first.event(&said, None);
    answered(&mut state, &first);
    assert_eq!(state.state, Phase::Waiting, "the prompt is still up");
    assert_eq!(state.asking[0].answer.as_deref(), Some("Apache-2.0"));
    assert_eq!(
        state.question.as_deref(),
        Some("Which features should be enabled?")
    );
    assert!(state.multi());
    assert_eq!(record, vec![("key".to_string(), "2".to_string())]);

    let second = Answer::Toggle(vec![1, 3]);
    let said = second.said(state.pending());
    let record = second.event(&said, None);
    answered(&mut state, &second);
    assert_eq!(state.state, Phase::Working, "and now it is over");
    assert_eq!(state.question, None);
    assert!(state.asking.is_empty(), "and it leaves nothing behind");
    assert_eq!(
        record,
        vec![
            ("key".to_string(), "1,3".to_string()),
            ("answer".to_string(), "Logging, Tracing".to_string()),
        ]
    );
}

#[test]
fn surfaces_a_key_amx_cannot_name_the_answer_of_leaves_no_question_behind() {
    for key in ["Escape", "Enter", "y"] {
        let mut state = asking(vec![
            a_plain_question().asking[0].clone(),
            a_checkbox_question().asking[0].clone(),
        ]);
        answered(&mut state, &Answer::Key(key.to_string()));

        assert_eq!(state.state, Phase::Working, "{key}");
        assert_eq!(state.question, None, "{key}");
        assert!(state.asking.is_empty(), "{key}");
        assert_eq!(state.kind, None, "{key}");
    }
}
