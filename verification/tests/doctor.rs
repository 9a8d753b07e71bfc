use amx::exit;
use amx::verbs::attach::Socket;
use amx::store::Phase;
use amx::verbs::doctor::{
    carries_env, clean_handoffs, cleaned, same_file_path, amx_check, once_each, parked_of, unusable, program, report, run, wiring_check, Check, Findings, Folder, Parked, ServerCwd, Setup,
    StandingServer, VendorWiring, WireKind, Wired,
};

/// One agent's wiring, whole or missing, where its own entry puts it.
fn wiring(vendor: &str, there: bool) -> VendorWiring {
    VendorWiring {
        vendor: vendor.to_string(),
        hooks: Some(WireKind::Plugin),
        wire: format!("/home/dev/.{vendor}/plugins/amx"),
        wired: Wired::File {
            present: there,
            current: there,
        },
        opt_in: Vec::new(),
    }
}

fn healthy() -> Findings {
    Findings {
        tmux: Some((3, 5)),
        vendor: "first".to_string(),
        vendor_path: Some("/usr/local/bin/first".to_string()),
        config: "/home/dev/.config/amx/config.toml".to_string(),
        config_warnings: Vec::new(),
        home: "/home/dev".to_string(),
        wirings: vec![wiring("first", true)],
        exe: "/home/dev/.cargo/bin/amx".to_string(),
        on_path: vec!["/home/dev/.cargo/bin/amx".to_string()],
        state_root: "/home/dev/.local/state/amx/agents".to_string(),
        state_error: None,
        dirty_handoffs: Vec::new(),
        parked: Vec::new(),
        server: None,
        store: Some("/home/dev/.first.json".to_string()),
        stale: Vec::new(),
        folder: None,
    }
}

fn check(found: &Findings, name: &str) -> Check {
    report(found)
        .into_iter()
        .find(|check| check.name == name)
        .unwrap_or_else(|| panic!("no check named {name}"))
}

fn said(found: &Findings, fix: bool) -> (i32, String) {
    run(found, fix, found.dirty_handoffs.len(), found.stale.len())
}

/// A server standing in `path`, deleted or not.
fn standing(path: &str, stale: bool) -> StandingServer {
    StandingServer {
        socket: Socket::Name("default".to_string()),
        cwd: ServerCwd {
            pid: 27267,
            path: path.to_string(),
            stale,
        },
    }
}

#[test]
fn doctor_says_nothing_is_wrong_when_nothing_is() {
    let checks = report(&healthy());
    assert!(checks.iter().all(Check::is_ok), "{checks:#?}");
    assert_eq!(checks.len(), 9);

    let (code, printed) = said(&healthy(), false);
    assert_eq!(code, exit::OK);
    assert!(printed.contains("tmux"), "{printed}");
}

#[test]
fn doctor_says_nothing_about_a_server_it_cannot_see() {
    let found = healthy();
    assert!(found.server.is_none());
    assert!(!report(&found).iter().any(|check| check.name == "server"));
    assert_eq!(said(&found, false).0, exit::OK);
}

#[test]
fn doctor_passes_a_server_standing_somewhere_that_is_still_there() {
    let mut found = healthy();
    found.server = Some(standing("/home/dev/src/app", false));

    let server = check(&found, "server");
    assert!(server.is_ok(), "{server:?}");
    assert!(server.found.contains("/home/dev/src/app"), "{}", server.found);
    assert_eq!(said(&found, false).0, exit::OK);
}

#[test]
fn doctor_names_a_server_whose_directory_was_deleted() {
    let mut found = healthy();
    found.server = Some(standing("/tmp/no-git-test", true));

    let server = check(&found, "server");
    assert!(server.found.contains("27267"), "which server: {}", server.found);
    assert!(server.found.contains("/tmp/no-git-test"), "{}", server.found);

    let remedy = server.remedy.as_deref().unwrap();
    assert!(remedy.contains("tmux -L default kill-server"), "{remedy}");
    assert_eq!(said(&found, false).0, exit::FAILURE);
}

#[test]
fn the_restart_names_the_socket_the_server_is_actually_on() {
    let mut found = healthy();
    found.server = Some(StandingServer {
        socket: Socket::Path("/run/user/1000/tmux/sock".to_string()),
        ..standing("/tmp/gone", true)
    });

    let remedy = check(&found, "server").remedy.unwrap();
    assert!(remedy.contains("tmux -S /run/user/1000/tmux/sock kill-server"), "{remedy}");
}

#[test]
fn doctor_names_the_floor_when_tmux_is_too_old() {
    let mut found = healthy();
    found.tmux = Some((3, 0));

    let tmux = check(&found, "tmux");
    let remedy = tmux.remedy.as_deref().unwrap();
    assert!(remedy.contains("3.2"), "{remedy}");
    assert!(tmux.found.contains("3.0"), "{}", tmux.found);
    assert_eq!(said(&found, false).0, exit::FAILURE);
}

#[test]
fn doctor_names_tmux_when_there_is_none() {
    let mut found = healthy();
    found.tmux = None;

    let tmux = check(&found, "tmux");
    assert!(tmux.remedy.as_deref().unwrap().contains("tmux"));
}

#[test]
fn doctor_points_at_the_config_when_the_vendor_is_not_there() {
    let mut found = healthy();
    found.vendor_path = None;
    found.vendor = "first --model opus".to_string();

    let vendor = check(&found, "agent");
    let remedy = vendor.remedy.as_deref().unwrap();
    assert!(remedy.contains("agent"), "the config key to set: {remedy}");
    assert!(vendor.found.contains("first"), "{}", vendor.found);
    assert!(!vendor.found.contains("opus"), "{}", vendor.found);
}

#[test]
fn doctor_repeats_what_the_config_said_about_itself() {
    let mut found = healthy();
    found.config_warnings = vec!["ignoring unknown key `wardrobe`".to_string()];

    let config = check(&found, "config");
    assert!(config.found.contains("wardrobe"), "{}", config.found);
    assert!(config.remedy.as_deref().unwrap().contains("config.toml"));
}

#[test]
fn doctor_says_a_vendor_that_reports_nothing_leaves_the_pane_to_read() {
    let hooks = wiring_check(&VendorWiring {
        vendor: "second".to_string(),
        hooks: None,
        wire: "/home/dev".to_string(),
        wired: Wired::Nothing,
        opt_in: Vec::new(),
    });
    assert!(hooks.is_ok(), "nothing here is anybody's to repair: {hooks:?}");
    assert!(hooks.found.contains("second"), "{}", hooks.found);
    assert!(hooks.found.contains("pane"), "{}", hooks.found);

    let hooks = wiring_check(&wiring("first", false));
    assert!(!hooks.is_ok(), "{hooks:?}");
    let remedy = hooks.remedy.as_deref().unwrap();
    assert!(remedy.contains("amx setup first"), "{remedy}");
    assert!(!remedy.contains("--fix"), "doctor repairs none of it: {remedy}");
}

#[test]
fn doctor_judges_a_file_wire_by_the_file_that_is_there() {
    let mut found = VendorWiring {
        vendor: "pi".to_string(),
        hooks: Some(WireKind::File),
        wire: "/home/dev/.pi/agent/extensions/amx.ts".to_string(),
        wired: Wired::File {
            present: false,
            current: false,
        },
        opt_in: Vec::new(),
    };
    let hooks = wiring_check(&found);
    assert!(!hooks.is_ok());
    assert!(hooks.found.contains("no extension"), "{}", hooks.found);
    assert_eq!(hooks.remedy.as_deref(), Some("run `amx setup pi`"), "{hooks:?}");

    found.wired = Wired::File {
        present: true,
        current: false,
    };
    let hooks = wiring_check(&found);
    assert!(!hooks.is_ok());
    assert!(
        hooks.found.contains("not the extension this amx ships"),
        "{}",
        hooks.found
    );
    assert_eq!(hooks.remedy.as_deref(), Some("run `amx setup pi`"));

    found.wired = Wired::File {
        present: true,
        current: true,
    };
    let hooks = wiring_check(&found);
    assert!(hooks.is_ok(), "{hooks:?}");
    assert!(hooks.found.contains("amx.ts"), "{}", hooks.found);
}

#[test]
fn doctor_names_a_second_amx_on_the_path() {
    let stale = "/home/dev/.cargo/bin/amx".to_string();
    let fresh = "/home/dev/.local/bin/amx".to_string();

    let mut found = healthy();
    found.exe = stale.clone();
    found.on_path = vec![stale.clone(), fresh.clone()];
    let amx = check(&found, "amx");
    assert!(!amx.is_ok(), "{amx:?}");
    assert!(amx.found.contains("/home/dev/.local/bin/amx"), "{}", amx.found);
    assert!(amx.remedy.as_deref().unwrap().contains("symlink"), "{amx:?}");
    assert_eq!(said(&found, false).0, exit::FAILURE);

    found.exe = fresh;
    let amx = check(&found, "amx");
    assert!(!amx.is_ok(), "{amx:?}");
    assert!(amx.found.contains("/home/dev/.cargo/bin/amx"), "{}", amx.found);
    assert!(amx.found.contains("first"), "{}", amx.found);
}

#[test]
fn doctor_passes_the_one_amx_the_path_finds_and_names_one_it_cannot() {
    let amx = check(&healthy(), "amx");
    assert!(amx.is_ok(), "{amx:?}");
    assert!(amx.found.contains("/home/dev/.cargo/bin/amx"), "{}", amx.found);

    let mut found = healthy();
    found.on_path = Vec::new();
    let amx = check(&found, "amx");
    assert!(!amx.is_ok(), "{amx:?}");
    assert!(
        amx.remedy.as_deref().unwrap().contains("/home/dev/.cargo/bin"),
        "the directory to put on the PATH: {amx:?}"
    );
}

#[test]
fn doctor_reads_the_program_out_of_a_command_with_arguments() {
    assert_eq!(program("first"), "first");
    assert_eq!(program("first --model opus"), "first");
    assert_eq!(program("/usr/local/bin/first --resume"), "/usr/local/bin/first");
}

#[test]
fn doctor_names_an_unwritable_state_root_instead_of_saying_no_agents() {
    let mut found = healthy();
    found.state_root = "/srv/amx/agents".to_string();
    found.state_error = Some("/srv/amx/agents cannot be written to: Permission denied".to_string());

    let state = check(&found, "state");
    assert!(state.found.contains("/srv/amx/agents"), "{}", state.found);
    assert!(state.found.contains("Permission denied"), "{}", state.found);
    assert!(state.remedy.is_some(), "and something to do about it: {state:?}");
    assert_eq!(said(&found, false).0, exit::FAILURE);
}

#[test]
fn doctor_fix_cleans_the_environment_out_of_a_handoff_and_says_how_many() {
    let mut found = healthy();
    found.dirty_handoffs = vec!["/home/dev/.local/state/amx/agents/a/handoff.json".to_string()];

    let env = check(&found, "env");
    assert!(!env.is_ok(), "{env:?}");
    assert!(env.remedy.as_deref().unwrap().contains("--fix"), "{env:?}");

    let (code, printed) = said(&found, true);
    assert_eq!(code, exit::OK, "nothing is wrong any more: {printed}");
    assert!(printed.contains("cleaned the environment out of 1 handoff.json file"), "{printed}");

    let with = r#"{"task": "t", "env": {"PATH": "/bin"}}"#.to_string();
    let rewritten = cleaned(&with).expect("an environment to take out");
    assert!(!rewritten.contains("env"), "{rewritten}");
    assert!(rewritten.contains("\"task\""), "{rewritten}");
    assert!(rewritten.ends_with("}\n"), "{rewritten:?}");
    assert_eq!(cleaned(r#"{"task": "t"}"#), None);

    assert!(!carries_env(&rewritten), "{rewritten}");

    let (out, n, stopped) =
        clean_handoffs(&vec![Some(with.clone()), None, Some(r#"{"task": "t"}"#.to_string())]);
    assert_eq!((n, stopped), (1, None));
    assert!(out[0].is_some());
    assert_eq!(out[1], None);
    assert_eq!(out[2], None);

    let (out, n, stopped) = clean_handoffs(&vec![
        Some(with.clone()),
        Some("{ half a handoff".to_string()),
        Some(with),
    ]);
    assert_eq!((n, stopped), (1, Some(1)), "a handoff that is not JSON stops the clean");
    assert_eq!(out.len(), 1);
}

#[test]
fn doctor_counts_the_trees_the_vendors_store_still_names_after_they_went() {
    let mut found = healthy();
    found.store = Some("/home/dev/.first.json".to_string());
    let store = check(&found, "store");
    assert!(store.is_ok(), "nothing of amx's is left in it: {store:?}");
    assert!(store.found.contains("/home/dev/.first.json"), "{}", store.found);

    found.stale = vec![
        "/src/app/.amx/worktrees/fix-login-a1b".to_string(),
        "/src/app/.amx/worktrees/port-cli-b91".to_string(),
    ];
    let store = check(&found, "store");
    assert!(!store.is_ok(), "{store:?}");
    assert!(store.found.contains('2'), "how many: {}", store.found);
    assert!(store.remedy.as_deref().unwrap().contains("amx doctor --fix"), "{store:?}");
    assert_eq!(said(&found, false).0, exit::FAILURE);
}

#[test]
fn doctor_asks_nothing_of_a_vendor_that_keeps_no_store_amx_writes() {
    let mut found = healthy();
    found.vendor = "second".to_string();
    found.store = None;

    let store = check(&found, "store");
    assert!(store.is_ok(), "{store:?}");
    assert!(store.found.contains("second"), "{}", store.found);
    assert_eq!(said(&found, false).0, exit::OK);
}

#[test]
fn doctor_fix_forgets_the_stale_trees_and_says_how_many_from_where() {
    let mut found = healthy();
    found.stale = vec!["/src/app/.amx/worktrees/fix-login-a1b".to_string()];
    let (code, printed) = said(&found, true);
    assert_eq!(code, exit::OK, "nothing is left to prune: {printed}");
    assert!(printed.contains("forgot 1 tree"), "how many: {printed}");
    assert!(printed.contains("/home/dev/.first.json"), "and out of which file: {printed}");
}

/// A directory doctor was asked about, judged.
fn asked(repo: Option<&str>, covered: Option<bool>, trust: bool) -> Findings {
    Findings {
        folder: Some(Folder {
            dir: "/srv/app/plan/t1".to_string(),
            repo: repo.map(str::to_string),
            covered,
            trust,
        }),
        ..healthy()
    }
}

#[test]
fn doctor_says_whether_an_agent_started_in_a_directory_would_meet_the_trust_screen() {
    assert!(report(&healthy()).iter().all(|check| check.name != "trust"));

    let fine = check(&asked(None, Some(true), false), "trust");
    assert!(fine.is_ok(), "{fine:?}");
    assert!(fine.found.contains("/srv/app/plan/t1"), "{}", fine.found);

    let plain = asked(None, Some(false), true);
    let stopped = check(&plain, "trust");
    assert!(stopped.found.contains("folder-trust screen"), "{}", stopped.found);
    let remedy = stopped.remedy.as_deref().unwrap();
    assert!(remedy.contains("/srv/app/plan/t1"), "{remedy}");
    assert!(!remedy.contains("trust = true"), "{remedy}");
    assert_eq!(said(&plain, false).0, exit::FAILURE);

    let linked = check(&asked(Some("/srv/app"), Some(false), false), "trust");
    let remedy = linked.remedy.as_deref().unwrap();
    assert!(remedy.contains("/srv/app") && remedy.contains("trust = true"), "{remedy}");

    let answered = check(&asked(Some("/srv/app"), Some(false), true), "trust");
    assert!(answered.is_ok(), "{answered:?}");
    assert!(answered.found.contains("amx answers"), "{}", answered.found);

    let unread = check(&asked(None, None, false), "trust");
    assert!(unread.is_ok(), "{unread:?}");
    assert!(unread.found.contains("no store"), "{}", unread.found);
}

#[test]
fn doctor_names_an_agent_the_vendor_never_let_start() {
    let mut found = healthy();
    found.parked = vec![Parked {
        id: "port-cli-b91".to_string(),
        screen: Setup::Unread,
    }];

    let stopped = check(&found, "gate");
    assert!(stopped.found.contains("port-cli-b91"), "{}", stopped.found);
    assert!(stopped.remedy.as_deref().unwrap().contains("amx attach"), "{stopped:?}");
}

#[test]
fn doctor_names_every_agent_stopped_at_a_gate_and_one_to_start_with() {
    let mut found = healthy();
    found.parked = vec![
        Parked {
            id: "fix-auth-2k3".to_string(),
            screen: Setup::Gate {
                screen: "trust_folder".to_string(),
                trust: true,
            },
        },
        Parked {
            id: "port-cli-b91".to_string(),
            screen: Setup::Unread,
        },
    ];

    let stopped = check(&found, "gate");
    assert!(stopped.found.contains('2'), "how many: {}", stopped.found);
    assert!(stopped.found.contains("fix-auth-2k3"), "{}", stopped.found);
    assert!(stopped.found.contains("port-cli-b91"), "{}", stopped.found);
    let remedy = stopped.remedy.as_deref().unwrap();
    assert!(remedy.contains("amx attach fix-auth-2k3"), "{stopped:?}");
    assert!(remedy.contains("trust = true"), "{remedy}");
}

#[test]
fn the_printed_report_says_ok_and_no_in_a_column() {
    let mut found = healthy();
    found.tmux = None;
    let (code, printed) = said(&found, false);
    assert_eq!(code, exit::FAILURE);
    assert!(
        printed.starts_with("  no  tmux    not installed\n         install tmux 3.2 or newer\n  ok  agent   first at /usr/local/bin/first\n"),
        "{printed}"
    );
}

#[test]
fn a_state_root_that_cannot_be_used_says_where_and_why() {
    assert_eq!(
        unusable("/srv/state/agents", "/srv/state/agents", "Permission denied"),
        "/srv/state/agents is not readable and writable: Permission denied"
    );
    assert_eq!(
        unusable("/srv/state/agents", "/srv", "Read-only file system"),
        "/srv/state/agents would be made in /srv, which is not writable: Read-only file system"
    );
}

#[test]
fn an_agent_stuck_at_its_vendors_setup_is_named_with_the_screen() {
    assert_eq!(
        parked_of("fix-login-a1b", Phase::Waiting, Phase::Waiting, Some(("trust", true))),
        Some(Parked {
            id: "fix-login-a1b".to_string(),
            screen: Setup::Gate {
                screen: "trust".to_string(),
                trust: true
            },
        })
    );
    assert_eq!(
        parked_of("fix-login-a1b", Phase::Unknown, Phase::Starting, None),
        Some(Parked {
            id: "fix-login-a1b".to_string(),
            screen: Setup::Unread,
        })
    );
    assert_eq!(parked_of("fix-login-a1b", Phase::Working, Phase::Working, None), None);
    assert_eq!(
        parked_of("fix-login-a1b", Phase::Idle, Phase::Idle, Some(("trust", true))),
        None,
        "a setup screen nobody is waiting on is history"
    );
}

#[test]
fn every_amx_on_the_path_is_named_once() {
    let found: Vec<String> = ["/usr/bin/amx", "/home/dev/.cargo/bin/amx", "/usr/bin/amx"]
        .iter()
        .map(|p| p.to_string())
        .collect();
    assert_eq!(once_each(&found), ["/usr/bin/amx", "/home/dev/.cargo/bin/amx"]);
}

#[test]
fn a_handoff_carries_the_environment_where_env_is_one_of_its_keys() {
    assert!(carries_env(r#"{"task": "t", "env": {"PATH": "/bin"}}"#));
    assert!(!carries_env(r#"{"task": "t", "command": ["first"]}"#));
    assert!(!carries_env("{ not json at all }"));
    assert!(!carries_env(r#"["env"]"#), "a list has no keys");
}

#[test]
fn paths_are_the_same_file_the_way_path_compares_them() {
    assert!(same_file_path("/usr/bin//amx", "/usr/bin/amx"));
    assert!(same_file_path("/usr/bin/./amx", "/usr/bin/amx/"));
    assert!(!same_file_path("usr/bin/amx", "/usr/bin/amx"));
    assert!(!same_file_path("/usr/local/bin/amx", "/usr/bin/amx"));
    assert!(same_file_path("./amx", "./amx"));
    assert!(!same_file_path("./amx", "amx"));
}

#[test]
fn the_same_amx_written_twice_on_the_path_is_one_amx() {
    let mut found = healthy();
    found.exe = "/usr/bin/amx".to_string();
    found.on_path = vec!["/usr/bin//amx".to_string()];
    assert!(amx_check(&found).is_ok(), "{:?}", amx_check(&found));
}
