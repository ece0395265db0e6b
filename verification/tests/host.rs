use spatiotemporal_agent::error::Error;
use spatiotemporal_agent::host::{
    Capabilities, config_str, grant_list, process_caps, process_guest, resolve_path, script_caps, wasm_caps, wasm_guest,
};
use spatiotemporal_agent::json::{Json, JsonNumber};

fn object(fields: Vec<(&str, Json)>) -> Json {
    Json::Object(fields.into_iter().map(|(k, v)| (k.to_owned(), v)).collect())
}

#[test]
fn granting_an_unexposed_capability_is_refused() {
    let mut caps = Capabilities::new();
    caps.expose("db");
    match caps.inject(&["db".to_owned(), "sandbox".to_owned()]) {
        Err(Error::UnknownKey(name)) => assert_eq!(name, "sandbox"),
        other => panic!("unexpected {other:?}"),
    }
    assert_eq!(caps.inject(&["db".to_owned()]).unwrap(), vec!["db".to_owned()]);
    assert_eq!(caps.inject(&[]).unwrap(), Vec::<String>::new());
}

#[test]
fn exposed_names_are_sorted_and_unique() {
    let mut caps = Capabilities::new();
    caps.expose("shell");
    caps.expose("db");
    caps.expose("shell");
    caps.expose("markdown");
    assert_eq!(caps.names(), vec!["db".to_owned(), "markdown".to_owned(), "shell".to_owned()]);
    assert!(caps.exposes("db"));
    assert!(!caps.exposes("vault"));
}

#[test]
fn guests_see_the_document() {
    for caps in [wasm_caps(), script_caps(), process_caps()] {
        assert_eq!(caps.names(), vec!["markdown".to_owned()]);
    }
}

#[test]
fn guest_paths_live_under_the_build_directory() {
    assert_eq!(wasm_guest("/proj", "outline"), "/proj/target/guests/outline.wasm");
    assert_eq!(process_guest("/proj/", "probe"), "/proj/target/guests/probe");
    assert_eq!(resolve_path("/proj", "plugins/a.js"), "/proj/plugins/a.js");
    assert_eq!(resolve_path("/proj", "/abs/a.js"), "/abs/a.js");
}

#[test]
fn rows_grant_their_string_items() {
    let row = object(vec![
        ("grant", Json::Array(vec![Json::Str("db".into()), Json::Number(JsonNumber::PosInt(1)), Json::Str("fs".into())])),
        ("role", Json::Str("r".into())),
    ]);
    assert_eq!(grant_list(&row), vec!["db".to_owned(), "fs".to_owned()]);
    assert_eq!(grant_list(&Json::Null), Vec::<String>::new());
    assert_eq!(config_str(&row, "role"), Some("r".to_owned()));
    assert_eq!(config_str(&row, "grant"), None);
}
