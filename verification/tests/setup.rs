use amx::exit;
use amx::verbs::setup::{entries, run, wrote, Entry, Plan, Wire};

fn said(plan: Plan) -> (i32, String) {
    match plan {
        Plan::Said(code, line) => (code, line),
        Plan::Wire(name, _) => panic!("{name} would have been wired"),
    }
}

#[test]
fn setup_with_no_name_writes_nothing_and_names_every_agent() {
    let (code, printed) = said(run(None, &entries()));
    assert_eq!(code, exit::USAGE, "{printed}");
    for vendor in entries() {
        assert!(printed.contains(vendor.name.as_str()), "{printed}");
    }
    assert_eq!(printed, "name an agent to set up: first, pi");
}

#[test]
fn setup_refuses_a_name_amx_has_no_entry_for() {
    let (code, printed) = said(run(Some("codex"), &entries()));
    assert_eq!(code, exit::USAGE, "{printed}");
    assert!(printed.contains("codex"), "it names what was asked for");
    for vendor in entries() {
        assert!(printed.contains(vendor.name.as_str()), "{printed}");
    }
    assert_eq!(printed, "amx has no entry for `codex`: first, pi");
}

#[test]
fn setup_wires_the_agent_it_was_asked_for_the_way_its_entry_says() {
    assert_eq!(
        run(Some("first"), &entries()),
        Plan::Wire("first".to_string(), Wire::Settings)
    );
    assert_eq!(
        run(Some("pi"), &entries()),
        Plan::Wire("pi".to_string(), Wire::File)
    );
}

#[test]
fn setup_of_an_agent_that_reports_nothing_says_its_pane_is_read() {
    let table = vec![Entry {
        name: "plain".to_string(),
        wire: None,
    }];
    assert_eq!(
        run(Some("plain"), &table),
        Plan::Said(
            exit::OK,
            "plain reports nothing amx can wire, so its pane is what amx reads".to_string()
        )
    );
}

#[test]
fn setup_run_again_says_there_was_nothing_to_do() {
    assert_eq!(
        wrote(Wire::Settings, "/home/dev/.first/settings.json", false, None),
        vec!["nothing to do: /home/dev/.first/settings.json is already that".to_string()]
    );
}

#[test]
fn setup_says_where_it_wrote_and_where_the_old_file_went() {
    assert_eq!(
        wrote(
            Wire::Settings,
            "/home/dev/.first/settings.json",
            true,
            Some("/home/dev/.first/settings.json.amx-7")
        ),
        vec![
            "wired the hooks into /home/dev/.first/settings.json".to_string(),
            "the file as it was is at /home/dev/.first/settings.json.amx-7".to_string(),
        ]
    );
    assert_eq!(
        wrote(Wire::File, "/home/dev/.pi/extensions/amx.ts", true, None),
        vec!["wrote the extension to /home/dev/.pi/extensions/amx.ts".to_string()]
    );
}
