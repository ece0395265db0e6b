use spatiotemporal_agent::error::Error;
use spatiotemporal_agent::guest::{capability, open_process, open_wasm, runtime_failure};
use spatiotemporal_agent::host::Capabilities;

/// What the hosts expose in these tests: a database and a secret store.
fn capabilities() -> Capabilities {
    let mut caps = Capabilities::new();
    caps.expose("db");
    caps.expose("secrets");
    caps
}

fn project(name: &str) -> Result<String, Error> {
    match name {
        "db" => Ok("postgres://localhost/app".to_owned()),
        "secrets" => Ok("secret-token".to_owned()),
        other => Err(Error::UnknownKey(other.to_owned())),
    }
}

fn granted(names: &[&str]) -> Vec<String> {
    names.iter().map(|n| n.to_string()).collect()
}

fn only_granted_are_visible() {
    let view = capabilities().snapshot(&granted(&["db"]), project).unwrap();
    let db = capability(&view, "db").unwrap();
    assert!(format!("db = {db}").contains("db = postgres"));
    assert_eq!(capability(&view, "secrets").unwrap_err(), "没有授予这项能力：secrets");
}

#[test]
fn process_only_granted_capabilities_are_visible() {
    only_granted_are_visible();
}

#[test]
fn script_only_granted_capabilities_are_visible() {
    only_granted_are_visible();
}

#[test]
fn wasm_only_granted_capabilities_are_visible() {
    only_granted_are_visible();
}

#[test]
fn process_granting_an_unexposed_capability_is_refused() {
    let error = capabilities().inject(&granted(&["db", "sandbox"])).expect_err("sandbox 没暴露");
    assert!(matches!(error, Error::UnknownKey(ref name) if name == "sandbox"), "实际是：{error:?}");
}

#[test]
fn script_granting_an_unexposed_capability_is_refused() {
    let error = capabilities()
        .snapshot(&granted(&["db", "并不存在的能力"]), project)
        .expect_err("没暴露的能力不该能被授予");
    assert!(matches!(error, Error::UnknownKey(ref name) if name == "并不存在的能力"));
}

#[test]
fn wasm_granting_an_unexposed_capability_is_refused() {
    let error = capabilities()
        .inject(&granted(&["db", "并不存在的能力"]))
        .expect_err("没暴露的能力不该能被授予");
    assert!(matches!(error, Error::UnknownKey(ref name) if name == "并不存在的能力"));
}

#[test]
fn the_name_comes_from_the_file() {
    let (name, keys) = open_wasm("/project/target/guests/probe.wasm", &capabilities(), &[]).expect("probe 应该能编");
    assert_eq!(name, "probe");
    assert!(keys.is_empty());
}

#[test]
fn process_guests_are_named_after_their_program() {
    let (name, keys) = open_process("/project/target/guests/probe", true, &capabilities(), &granted(&["db"])).unwrap();
    assert_eq!(name, "probe");
    assert_eq!(keys, vec!["db".to_owned()]);
    assert!(matches!(
        open_process("/nowhere/probe", false, &capabilities(), &granted(&["sandbox"])),
        Err(Error::Component(m)) if m == "找不到 guest 可执行文件：/nowhere/probe"
    ));
    assert!(matches!(
        open_process("/p/probe", true, &capabilities(), &granted(&["db", "sandbox"])),
        Err(Error::UnknownKey(name)) if name == "sandbox"
    ));
    assert_eq!(open_wasm("/", &capabilities(), &[]).unwrap().0, "wasm");
}

#[test]
fn process_the_adapter_reports_errors_as_component_failures() {
    let missing = open_process("/project/target/guests/根本没有这个文件", false, &capabilities(), &[]);
    assert!(matches!(missing, Err(Error::Component(_))), "文件不存在该以组件失败的形式出现");
}

#[test]
fn wasm_the_adapter_reports_errors_as_component_failures() {
    let error = runtime_failure("编不动 /project/target/guests/根本没有这个文件.wasm", "failed to read input file");
    assert!(
        matches!(error, Error::Component(_)),
        "wasm 侧的问题该以组件失败的形式出现，实际是：{error:?}"
    );
}
