use nefu::bridge::{
    blocker_type_arg, bounce_type_arg, dispatch_message, invoke_reply, storage_file_name, theme_source_arg,
    theme_source_name, Dispatch, EventQueue, IpcMessage, MethodRegistry,
};
use nefu::dock::BounceType;
use nefu::native_theme::ThemeSource;
use nefu::power_save_blocker::{PowerSaveBlocker, PowerSaveBlockerType};

fn registry() -> MethodRegistry {
    let mut r = MethodRegistry::new();
    r.register_method("echo");
    r.register_method("fs.readFile");
    r.register_method("fs.writeFile");
    r
}

#[test]
fn test_register_custom_method() {
    let mut bridge = registry();
    bridge.register_method("custom.add");
    assert!(bridge.has_method("custom.add"));
}

#[test]
fn registering_twice_lists_once() {
    let mut r = registry();
    r.register_method("echo");
    assert_eq!(r.list_methods(), vec!["echo", "fs.readFile", "fs.writeFile"]);
    assert!(!r.has_method("fs.read"));
}

#[test]
fn test_handle_invoke_echo() {
    let bridge = registry();
    let msg = IpcMessage::Invoke { id: 1, method: "echo".to_string(), args: vec!["\"hello\"".to_string()] };
    match dispatch_message(&bridge, msg) {
        Dispatch::Call { id, method, args } => {
            assert_eq!(id, 1);
            assert_eq!(method, "echo");
            let response = invoke_reply(id, &Ok(Some(args[0].clone())));
            let resp: serde_json::Value = serde_json::from_str(&response).unwrap();
            assert_eq!(resp["result"], "hello");
        }
        other => panic!("unexpected dispatch: {:?}", other),
    }
}

#[test]
fn test_handle_invoke_unknown_method() {
    let bridge = registry();
    let msg = IpcMessage::Invoke { id: 1, method: "nonexistent".to_string(), args: vec![] };
    match dispatch_message(&bridge, msg) {
        Dispatch::Unknown { reply, .. } => {
            let resp: serde_json::Value = serde_json::from_str(&reply).unwrap();
            assert!(resp["error"].is_string());
            assert_eq!(
                reply,
                "{\"type\":\"callback\",\"id\":1,\"error\":\"unknown method: 'nonexistent'. use nefu.listMethods() to list the available methods\"}"
            );
        }
        other => panic!("unexpected dispatch: {:?}", other),
    }
}

#[test]
fn unknown_method_offers_similar_names() {
    let bridge = registry();
    let msg = IpcMessage::Invoke { id: 7, method: "fs.readFil".to_string(), args: vec![] };
    match dispatch_message(&bridge, msg) {
        Dispatch::Unknown { similar, .. } => assert_eq!(similar, vec!["fs.readFile", "fs.writeFile"]),
        other => panic!("unexpected dispatch: {:?}", other),
    }
}

#[test]
fn test_handle_send() {
    let bridge = registry();
    let msg = IpcMessage::Send { data: "{\"key\":\"value\"}".to_string() };
    match dispatch_message(&bridge, msg) {
        Dispatch::Deliver { data } => assert_eq!(data, "{\"key\":\"value\"}"),
        other => panic!("unexpected dispatch: {:?}", other),
    }
    let back = IpcMessage::Event { event: "x".to_string(), data: "1".to_string() };
    assert!(matches!(dispatch_message(&bridge, back), Dispatch::Ignore));
}

#[test]
fn replies_to_handler_outcomes() {
    assert_eq!(invoke_reply(3, &Ok(None)), "{\"type\":\"callback\",\"id\":3}");
    assert_eq!(invoke_reply(3, &Ok(Some("[1,2]".to_string()))), "{\"type\":\"callback\",\"id\":3,\"result\":[1,2]}");
    assert_eq!(
        invoke_reply(3, &Err("disk \"full\"".to_string())),
        "{\"type\":\"callback\",\"id\":3,\"error\":\"disk \\\"full\\\"\"}"
    );
}

#[test]
fn test_queue_and_drain_events() {
    let mut bridge = EventQueue::new();
    bridge.queue_event("evt1", "true");
    bridge.queue_event("evt2", "false");

    let events = bridge.drain_pending_events();
    assert_eq!(events.len(), 2);
    assert_eq!(events[0], ("evt1".to_string(), "true".to_string()));
    assert_eq!(events[1], ("evt2".to_string(), "false".to_string()));

    let events2 = bridge.drain_pending_events();
    assert!(events2.is_empty());
}

#[test]
fn builtin_method_arguments() {
    assert_eq!(storage_file_name("my key!"), "my_key_.json");
    assert_eq!(theme_source_arg(Some("dark")), ThemeSource::Dark);
    assert_eq!(theme_source_arg(Some("light")), ThemeSource::Light);
    assert_eq!(theme_source_arg(Some("Dark")), ThemeSource::System);
    assert_eq!(theme_source_arg(None), ThemeSource::System);
    assert_eq!(theme_source_name(ThemeSource::Dark), "dark");
    assert_eq!(theme_source_name(ThemeSource::System), "system");
    assert_eq!(bounce_type_arg(Some("critical")), BounceType::Critical);
    assert_eq!(bounce_type_arg(Some("other")), BounceType::Informational);
    assert_eq!(blocker_type_arg(Some("prevent-display-sleep")), PowerSaveBlockerType::PreventDisplaySleep);
    assert_eq!(blocker_type_arg(None), PowerSaveBlockerType::PreventSleep);
}

#[test]
fn blocker_ids_count_up() {
    let mut b = PowerSaveBlocker::new();
    assert_eq!(b.next_id(), 1);
    let id = b.start(PowerSaveBlockerType::PreventSleep);
    assert_eq!(id, 1);
    assert_eq!(b.next_id(), 2);
}
