use amx::exit;
use amx::verbs::doctor::WireKind;
use amx::verbs::uninstall::{still_running, took_out, REFUSED};

#[test]
fn uninstall_refuses_while_an_agent_is_still_running() {
    let running = vec!["port-it-b2c".to_string(), "watch-log-a1b".to_string()];
    let said = still_running(&running).expect("a refusal");
    for id in &running {
        assert!(said.contains(id.as_str()), "the refusal names everything still there: {said}");
    }
    assert_eq!(
        said,
        "still running: port-it-b2c, watch-log-a1b. stop them first, or their answers go with the records."
    );
    assert_eq!(REFUSED, exit::FAILURE);
    assert_eq!(still_running(&Vec::new()), None);
}

#[test]
fn uninstall_says_so_when_there_was_nothing_of_amxs_to_remove() {
    assert_eq!(
        took_out(WireKind::Plugin, false, "/home/dev/.first/plugins/amx"),
        "no plugin of amx's at /home/dev/.first/plugins/amx"
    );
    assert_eq!(
        took_out(WireKind::File, false, "/home/dev/.pi/extensions/amx.ts"),
        "no extension of amx's at /home/dev/.pi/extensions/amx.ts"
    );
    assert_eq!(
        took_out(WireKind::Plugin, true, "/home/dev/.first/plugins/amx"),
        "removed the plugin at /home/dev/.first/plugins/amx"
    );
    assert_eq!(
        took_out(WireKind::File, true, "/home/dev/.pi/extensions/amx.ts"),
        "removed /home/dev/.pi/extensions/amx.ts"
    );
}
