use gvm_guest::common::{Command, GVMCmd, PluginMsg};
use gvm_guest::dispatch::{bootstrap_report, bootstrap_request, handle, Action, Event, BOOT_MARKER};
use gvm_guest::common::GVMError;
use gvm_guest::registry::PluginRegistry;

fn request(cmd: GVMCmd, plugin: &str, msg: Option<&str>) -> Event<u32> {
    Event::Request(PluginMsg { cmd, plugin: plugin.to_string(), msg: msg.map(|m| m.to_string()) })
}

fn refusal(cmd: GVMCmd, text: &str) -> Action {
    Action::Send(Command { cmd, resp: Some(text.to_string()), finished: Some(false) })
}

fn loaded(plugin: &str, handle_value: u32) -> PluginRegistry<u32> {
    let mut registry = PluginRegistry::new();
    assert_eq!(registry.load(plugin.to_string(), Some(handle_value)), Ok(()));
    registry
}

#[test]
fn boot_marker_path() {
    assert_eq!(BOOT_MARKER, "/tmp/init-nets");
}

#[test]
fn bootstrap_asks_for_the_network_when_not_done_before() {
    assert_eq!(
        bootstrap_request(false),
        Some(Command { cmd: GVMCmd::GetNetwork, resp: None, finished: None })
    );
}

#[test]
fn bootstrap_is_skipped_when_done_before() {
    assert_eq!(bootstrap_request(true), None);
}

#[test]
fn bootstrap_reports_success() {
    assert_eq!(
        bootstrap_report(Ok(())),
        Command { cmd: GVMCmd::GetNetwork, resp: None, finished: Some(true) }
    );
}

#[test]
fn bootstrap_reports_each_failure_by_name() {
    let cases = [
        (GVMError::NicNotFound, "NicNotFound"),
        (GVMError::IOError, "IOError"),
        (GVMError::InvalidDescriptor, "InvalidDescriptor"),
    ];
    for (error, text) in cases {
        assert_eq!(
            bootstrap_report(Err(error)),
            Command {
                cmd: GVMCmd::GetNetwork,
                resp: Some(text.to_string()),
                finished: Some(false)
            }
        );
    }
}

#[test]
fn create_links_for_a_free_identifier_asks_to_open() {
    let mut registry: PluginRegistry<u32> = PluginRegistry::new();
    let action = handle(&mut registry, request(GVMCmd::CreatePluginLinks, "/opt/a.so", None));
    assert_eq!(action, Action::Open { plugin: "/opt/a.so".to_string() });
    assert_eq!(registry.len(), 0);
}

#[test]
fn opened_module_is_registered() {
    let mut registry: PluginRegistry<u32> = PluginRegistry::new();
    let action = handle(
        &mut registry,
        Event::Opened { plugin: "/opt/a.so".to_string(), module: Some(7) },
    );
    assert_eq!(
        action,
        Action::Send(Command { cmd: GVMCmd::CreatePluginLinks, resp: None, finished: Some(true) })
    );
    assert_eq!(registry.len(), 1);
    assert_eq!(registry.get(&"/opt/a.so".to_string()), Ok(&7));
}

#[test]
fn module_that_cannot_be_opened_is_plugin_not_found() {
    let mut registry: PluginRegistry<u32> = PluginRegistry::new();
    let action =
        handle(&mut registry, Event::Opened { plugin: "/opt/a.so".to_string(), module: None });
    assert_eq!(action, refusal(GVMCmd::CreatePluginLinks, "PluginNotFound"));
    assert_eq!(registry.len(), 0);
}

#[test]
fn loading_twice_is_plugin_loaded() {
    let mut registry: PluginRegistry<u32> = PluginRegistry::new();
    assert_eq!(
        handle(&mut registry, request(GVMCmd::CreatePluginLinks, "/opt/a.so", None)),
        Action::Open { plugin: "/opt/a.so".to_string() }
    );
    handle(&mut registry, Event::Opened { plugin: "/opt/a.so".to_string(), module: Some(7) });
    let again = handle(&mut registry, request(GVMCmd::CreatePluginLinks, "/opt/a.so", None));
    assert_eq!(again, refusal(GVMCmd::CreatePluginLinks, "PluginLoaded"));
    assert_eq!(registry.len(), 1);
    assert_eq!(registry.get(&"/opt/a.so".to_string()), Ok(&7));
}

#[test]
fn module_opened_for_a_taken_identifier_is_plugin_loaded() {
    let mut registry = loaded("/opt/a.so", 7);
    let action = handle(
        &mut registry,
        Event::Opened { plugin: "/opt/a.so".to_string(), module: Some(8) },
    );
    assert_eq!(action, refusal(GVMCmd::CreatePluginLinks, "PluginLoaded"));
    assert_eq!(registry.len(), 1);
    assert_eq!(registry.get(&"/opt/a.so".to_string()), Ok(&7));
}

#[test]
fn start_of_a_loaded_plugin_asks_for_the_call() {
    let mut registry = loaded("/opt/a.so", 7);
    assert_eq!(
        handle(&mut registry, request(GVMCmd::StartPlugin, "/opt/a.so", None)),
        Action::Start { plugin: "/opt/a.so".to_string() }
    );
    assert_eq!(registry.len(), 1);
}

#[test]
fn start_ignores_a_message() {
    let mut registry = loaded("/opt/a.so", 7);
    assert_eq!(
        handle(&mut registry, request(GVMCmd::StartPlugin, "/opt/a.so", Some("extra"))),
        Action::Start { plugin: "/opt/a.so".to_string() }
    );
}

#[test]
fn stop_of_a_loaded_plugin_asks_for_the_call_and_keeps_the_entry() {
    let mut registry = loaded("/opt/a.so", 7);
    assert_eq!(
        handle(&mut registry, request(GVMCmd::StopPlugin, "/opt/a.so", None)),
        Action::Stop { plugin: "/opt/a.so".to_string() }
    );
    let reply = handle(
        &mut registry,
        Event::Returned { cmd: GVMCmd::StopPlugin, text: Some("stopped".to_string()) },
    );
    assert_eq!(
        reply,
        Action::Send(Command {
            cmd: GVMCmd::StopPlugin,
            resp: Some("stopped".to_string()),
            finished: Some(true)
        })
    );
    assert_eq!(registry.len(), 1);
    assert_eq!(
        handle(&mut registry, request(GVMCmd::StartPlugin, "/opt/a.so", None)),
        Action::Start { plugin: "/opt/a.so".to_string() }
    );
}

#[test]
fn plugin_cmd_hands_the_message_on() {
    let mut registry = loaded("/opt/a.so", 7);
    assert_eq!(
        handle(&mut registry, request(GVMCmd::PluginCmd, "/opt/a.so", Some("ping"))),
        Action::Process { plugin: "/opt/a.so".to_string(), msg: "ping".to_string() }
    );
    assert_eq!(
        handle(&mut registry, request(GVMCmd::PluginCmd, "/opt/a.so", Some(""))),
        Action::Process { plugin: "/opt/a.so".to_string(), msg: String::new() }
    );
}

#[test]
fn returned_text_is_the_response() {
    let mut registry = loaded("/opt/a.so", 7);
    for cmd in [GVMCmd::StartPlugin, GVMCmd::PluginCmd, GVMCmd::StopPlugin] {
        assert_eq!(
            handle(&mut registry, Event::Returned { cmd, text: Some("pong".to_string()) }),
            Action::Send(Command { cmd, resp: Some("pong".to_string()), finished: Some(true) })
        );
    }
    assert_eq!(registry.len(), 1);
}

#[test]
fn no_returned_text_is_still_success() {
    let mut registry = loaded("/opt/a.so", 7);
    for cmd in [GVMCmd::StartPlugin, GVMCmd::PluginCmd, GVMCmd::StopPlugin] {
        assert_eq!(
            handle(&mut registry, Event::Returned { cmd, text: None }),
            Action::Send(Command { cmd, resp: None, finished: Some(true) })
        );
    }
}

#[test]
fn unknown_plugin_is_plugin_not_found() {
    let mut registry = loaded("/opt/a.so", 7);
    assert_eq!(
        handle(&mut registry, request(GVMCmd::StartPlugin, "/opt/b.so", None)),
        refusal(GVMCmd::StartPlugin, "PluginNotFound")
    );
    assert_eq!(
        handle(&mut registry, request(GVMCmd::PluginCmd, "/opt/b.so", Some("ping"))),
        refusal(GVMCmd::PluginCmd, "PluginNotFound")
    );
    assert_eq!(
        handle(&mut registry, request(GVMCmd::StopPlugin, "/opt/b.so", None)),
        refusal(GVMCmd::StopPlugin, "PluginNotFound")
    );
    assert_eq!(registry.len(), 1);
    assert!(!registry.contains(&"/opt/b.so".to_string()));
    assert_eq!(registry.get(&"/opt/a.so".to_string()), Ok(&7));
}

#[test]
fn unknown_plugin_in_an_empty_registry() {
    let mut registry: PluginRegistry<u32> = PluginRegistry::new();
    assert_eq!(
        handle(&mut registry, request(GVMCmd::StartPlugin, "", None)),
        refusal(GVMCmd::StartPlugin, "PluginNotFound")
    );
    assert_eq!(registry.len(), 0);
}

#[test]
fn shutdown_leaves_the_loop_without_a_response() {
    let mut registry = loaded("/opt/a.so", 7);
    assert_eq!(handle(&mut registry, request(GVMCmd::ShutdownGuest, "/opt/a.so", None)), Action::Exit);
    assert_eq!(
        handle(&mut registry, request(GVMCmd::ShutdownGuest, "nothing", Some("bye"))),
        Action::Exit
    );
    assert_eq!(registry.len(), 1);
    let mut empty: PluginRegistry<u32> = PluginRegistry::new();
    assert_eq!(handle(&mut empty, request(GVMCmd::ShutdownGuest, "", None)), Action::Exit);
}

#[test]
fn plugin_cmd_without_message_is_passed_over() {
    let mut registry = loaded("/opt/a.so", 7);
    assert_eq!(
        handle(&mut registry, request(GVMCmd::PluginCmd, "/opt/a.so", None)),
        Action::Nothing
    );
    assert_eq!(
        handle(&mut registry, request(GVMCmd::PluginCmd, "/opt/b.so", None)),
        Action::Nothing
    );
    assert_eq!(registry.len(), 1);
    assert_eq!(registry.get(&"/opt/a.so".to_string()), Ok(&7));
}

#[test]
fn get_network_is_not_supported_while_serving() {
    let mut registry = loaded("/opt/a.so", 7);
    assert_eq!(
        handle(&mut registry, request(GVMCmd::GetNetwork, "/opt/a.so", None)),
        refusal(GVMCmd::GetNetwork, "PluginCommandNotSupported")
    );
    assert_eq!(
        handle(&mut registry, request(GVMCmd::GetNetwork, "", Some("x"))),
        refusal(GVMCmd::GetNetwork, "PluginCommandNotSupported")
    );
    assert_eq!(registry.len(), 1);
}

#[test]
fn a_session_from_load_to_shutdown() {
    let mut registry: PluginRegistry<u32> = PluginRegistry::new();
    let mut sent: Vec<Command> = Vec::new();
    let script = vec![
        request(GVMCmd::StartPlugin, "/opt/a.so", None),
        request(GVMCmd::CreatePluginLinks, "/opt/a.so", None),
        request(GVMCmd::CreatePluginLinks, "/opt/a.so", None),
        request(GVMCmd::StartPlugin, "/opt/a.so", None),
        request(GVMCmd::PluginCmd, "/opt/a.so", None),
        request(GVMCmd::PluginCmd, "/opt/a.so", Some("ping")),
        request(GVMCmd::StopPlugin, "/opt/a.so", None),
        request(GVMCmd::ShutdownGuest, "", None),
        request(GVMCmd::StartPlugin, "/opt/a.so", None),
    ];
    let mut served = 0;
    for event in script {
        served += 1;
        let mut action = handle(&mut registry, event);
        let stop = loop {
            match action {
                Action::Send(command) => {
                    sent.push(command);
                    break false;
                }
                Action::Nothing => break false,
                Action::Exit => break true,
                Action::Open { plugin } => {
                    action = handle(&mut registry, Event::Opened { plugin, module: Some(1) });
                }
                Action::Start { plugin } => {
                    assert!(registry.contains(&plugin));
                    action = handle(
                        &mut registry,
                        Event::Returned { cmd: GVMCmd::StartPlugin, text: Some("up".to_string()) },
                    );
                }
                Action::Process { plugin, msg } => {
                    assert!(registry.contains(&plugin));
                    action = handle(
                        &mut registry,
                        Event::Returned { cmd: GVMCmd::PluginCmd, text: Some(format!("re: {}", msg)) },
                    );
                }
                Action::Stop { plugin } => {
                    assert!(registry.contains(&plugin));
                    action =
                        handle(&mut registry, Event::Returned { cmd: GVMCmd::StopPlugin, text: None });
                }
            }
        };
        if stop {
            break;
        }
    }
    assert_eq!(served, 8);
    let reply = |cmd, resp: Option<&str>, ok| Command {
        cmd,
        resp: resp.map(|r| r.to_string()),
        finished: Some(ok),
    };
    assert_eq!(
        sent,
        vec![
            reply(GVMCmd::StartPlugin, Some("PluginNotFound"), false),
            reply(GVMCmd::CreatePluginLinks, None, true),
            reply(GVMCmd::CreatePluginLinks, Some("PluginLoaded"), false),
            reply(GVMCmd::StartPlugin, Some("up"), true),
            reply(GVMCmd::PluginCmd, Some("re: ping"), true),
            reply(GVMCmd::StopPlugin, None, true),
        ]
    );
    assert_eq!(registry.len(), 1);
}
