use spatiotemporal_agent::error::Error;
use spatiotemporal_agent::json::Json;
use spatiotemporal_agent::paths::{contain_path, workspace_invalid, workspace_root, write_candidates, write_target};
use spatiotemporal_agent::registry::{
    announcement_of, doc_row_path, script_name, script_row_path, uncompiled, unopened, unreadable, wasm_row_path,
};

fn with_root(root: &str) -> Json {
    Json::Object(vec![("root".to_owned(), Json::Str(root.to_owned()))])
}

#[test]
fn paths_stay_inside_the_workspace() {
    assert_eq!(contain_path("/ws", "a.txt", Ok("/ws/a.txt".to_owned())).unwrap(), "/ws/a.txt");
    assert_eq!(contain_path("/ws", ".", Ok("/ws".to_owned())).unwrap(), "/ws");
    assert!(matches!(
        contain_path("/ws", "../etc", Ok("/etc".to_owned())),
        Err(Error::Component(m)) if m == "路径在工作区外：../etc"
    ));
    assert!(matches!(
        contain_path("/ws", "x", Ok("/wsx/x".to_owned())),
        Err(Error::Component(m)) if m == "路径在工作区外：x"
    ));
    assert!(matches!(
        contain_path("/ws", "gone", Err("No such file".to_owned())),
        Err(Error::Component(m)) if m == "路径不存在或不可访问：gone (No such file)"
    ));
    assert!(matches!(workspace_invalid("denied"), Error::Component(m) if m == "工作区无效：denied"));
}

#[test]
fn the_configured_root_is_read_against_the_default() {
    assert_eq!(workspace_root(&Json::Object(vec![]), "/home/u"), "/home/u");
    assert_eq!(workspace_root(&with_root("."), "/home/u"), "/home/u");
    assert_eq!(workspace_root(&with_root(""), "/home/u"), "/home/u");
    assert_eq!(workspace_root(&with_root("/srv/w"), "/home/u"), "/srv/w");
    assert_eq!(workspace_root(&with_root("proj"), "/home/u"), "/home/u/proj");
    assert_eq!(workspace_root(&Json::Null, "/home/u"), "/home/u");
}

#[test]
fn registry_rows_announce_their_role() {
    assert_eq!(announcement_of("tool-fs", &Json::Null), Some(("native".to_owned(), "登记 read / write / edit".to_owned())));
    let creation = Json::Object(vec![("creation".to_owned(), Json::Bool(true))]);
    assert_eq!(announcement_of("web", &creation).unwrap().1, "浏览器界面（创造模式）");
    assert_eq!(announcement_of("web", &Json::Null).unwrap().1, "浏览器界面");
    let role = Json::Object(vec![("role".to_owned(), Json::Str("大纲".to_owned()))]);
    assert_eq!(announcement_of("wasm", &role), Some(("wasm".to_owned(), "大纲".to_owned())));
    assert_eq!(announcement_of("process", &Json::Null).unwrap().1, "子进程插件");
    assert_eq!(announcement_of("script", &Json::Null).unwrap().1, "脚本插件");
    assert_eq!(announcement_of("nope", &Json::Null), None);
}

#[test]
fn guest_rows_find_their_guest() {
    let row = |key: &str, value: &str| Json::Object(vec![(key.to_owned(), Json::Str(value.to_owned()))]);
    assert_eq!(wasm_row_path("/p", &row("guest", "outline")).unwrap(), "/p/target/guests/outline.wasm");
    assert!(matches!(wasm_row_path("/p", &Json::Null), Err(Error::Config(m)) if m == "wasm 需要 config.guest"));
    assert_eq!(script_row_path("/p", &row("file", "js/cite.js")).unwrap(), "/p/js/cite.js");
    assert_eq!(script_row_path("/p", &row("file", "/abs/cite.js")).unwrap(), "/abs/cite.js");
    assert!(matches!(script_row_path("/p", &Json::Null), Err(Error::Config(m)) if m == "script 需要 config.file"));
    assert_eq!(doc_row_path("/p", &row("path", "a.md")).unwrap(), "/p/a.md");
    assert!(matches!(doc_row_path("/p", &Json::Null), Err(Error::Config(m)) if m == "doc 需要 config.path"));
    assert_eq!(script_name("/p/js/cite.js"), "cite");
    assert_eq!(script_name("/"), "script");
    assert!(matches!(unreadable("/a", "gone"), Error::Config(m) if m == "读不了 /a：gone"));
    assert!(matches!(unopened("/a", "gone"), Error::Config(m) if m == "打不开 /a：gone"));
    assert!(matches!(uncompiled("/a", "bad"), Error::Config(m) if m.starts_with("编不了 /a：bad\n")));
}

/// What resolving each path gives on a disk holding `/ws`, `/ws/a.txt`,
/// `/ws/docs` and a link `/ws/out` to `/etc`.
fn probe(path: &str) -> Result<String, String> {
    match path {
        "/ws" | "/ws/." => Ok("/ws".to_owned()),
        "/ws/a.txt" => Ok("/ws/a.txt".to_owned()),
        "/ws/docs" => Ok("/ws/docs".to_owned()),
        "/ws/out" => Ok("/etc".to_owned()),
        "/" => Ok("/".to_owned()),
        _ => Err("No such file or directory (os error 2)".to_owned()),
    }
}

fn write_in_ws(user_path: &str) -> Result<String, Error> {
    let probes: Vec<Result<String, String>> = write_candidates("/ws", user_path).iter().map(|p| probe(p)).collect();
    write_target("/ws", user_path, &probes)
}

#[test]
fn writes_may_make_new_files_inside_the_workspace() {
    assert_eq!(
        write_candidates("/ws", "docs/new/x.md"),
        vec!["/ws/docs/new/x.md".to_owned(), "/ws/docs/new".to_owned(), "/ws/docs".to_owned(), "/ws".to_owned(), "/".to_owned()]
    );
    assert_eq!(write_in_ws("a.txt").unwrap(), "/ws/a.txt");
    assert_eq!(write_in_ws("new.txt").unwrap(), "/ws/new.txt");
    assert_eq!(write_in_ws("./new.txt").unwrap(), "/ws/new.txt");
    assert_eq!(write_in_ws("docs/new/x.md").unwrap(), "/ws/docs/new/x.md");
    assert_eq!(write_in_ws("/ws/docs/y.md").unwrap(), "/ws/docs/y.md");
    assert!(matches!(write_in_ws("out/passwd"), Err(Error::Component(m)) if m == "路径在工作区外：out/passwd"));
    assert!(matches!(write_in_ws("/tmp/x"), Err(Error::Component(m)) if m == "路径在工作区外：/tmp/x"));
    assert!(matches!(
        write_in_ws("missing/../../x"),
        Err(Error::Component(m)) if m == "路径不存在或不可访问：missing/../../x (No such file or directory (os error 2))"
    ));
}
