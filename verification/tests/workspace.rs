use spatiotemporal_agent::workspace::{
    DirEntry, child_path, listing, not_a_directory, not_a_file, parent_of, preview_file, preview_path, request_path,
    should_skip, sort_entries,
};
use spatiotemporal_agent::workspace_store::{Registry, WorkspaceStore, canonical_dir, merge_recent, touch_recent};
use spatiotemporal_agent::error::Error;

fn entry(name: &str, kind: &str) -> DirEntry {
    DirEntry { name: name.into(), path: name.into(), kind: kind.into(), size: None, count: None }
}

#[test]
fn vcs_and_build_directories_are_skipped() {
    for name in [".git", "target", "node_modules", ".agent", ".cursor"] {
        assert!(should_skip(name));
    }
    assert!(!should_skip("src"));
    assert!(!should_skip(".github"));
}

#[test]
fn request_paths_are_trimmed_of_slashes() {
    assert_eq!(request_path("  /src/lib/ "), "src/lib");
    assert_eq!(request_path("///"), "");
    assert_eq!(request_path(""), "");
    assert_eq!(child_path("", "a"), "a");
    assert_eq!(child_path("src", "a"), "src/a");
}

#[test]
fn parents_of_listings() {
    assert_eq!(parent_of(""), None);
    assert_eq!(parent_of("src"), None);
    assert_eq!(parent_of("src/lib"), Some("src".to_owned()));
    assert_eq!(parent_of("a/b/c"), Some("a/b".to_owned()));
}

#[test]
fn files_come_before_directories_then_names_ignore_case() {
    let sorted = sort_entries(vec![
        entry("zeta", "dir"),
        entry("Beta", "file"),
        entry("alpha", "file"),
        entry("Alpha", "dir"),
        entry("beta", "file"),
    ]);
    let names: Vec<(String, String)> = sorted.into_iter().map(|e| (e.kind, e.name)).collect();
    assert_eq!(
        names,
        vec![
            ("file".to_owned(), "alpha".to_owned()),
            ("file".to_owned(), "Beta".to_owned()),
            ("file".to_owned(), "beta".to_owned()),
            ("dir".to_owned(), "Alpha".to_owned()),
            ("dir".to_owned(), "zeta".to_owned()),
        ]
    );
}

#[test]
fn listing_leaves_out_skipped_names() {
    let l = listing("src", vec![entry(".git", "dir"), entry("lib.rs", "file"), entry("bin", "dir")]);
    assert_eq!(l.path, "src");
    assert_eq!(l.parent, None);
    let names: Vec<String> = l.entries.into_iter().map(|e| e.name).collect();
    assert_eq!(names, vec!["lib.rs".to_owned(), "bin".to_owned()]);
}

#[test]
fn previews_text_and_binary() {
    let f = preview_file("README.md", b"# hi".to_vec());
    assert_eq!(f.text, "# hi");
    assert!(!f.binary);
    assert!(!f.truncated);
    let b = preview_file("a.bin", vec![1, 0, 2]);
    assert!(b.binary);
    assert_eq!(b.text, "");
    let big = preview_file("big.txt", vec![b'x'; 300_000]);
    assert!(big.truncated);
    assert_eq!(big.text.len(), 262_144);
}

#[test]
fn preview_requests_need_a_path() {
    match preview_path(" / ") {
        Err(Error::Component(m)) => assert_eq!(m, "缺少文件路径"),
        _ => panic!("expected an error"),
    }
    assert_eq!(preview_path("/docs/a.md").unwrap(), "docs/a.md");
    assert!(matches!(not_a_file("x"), Error::Component(m) if m == "不是文件：x"));
    assert!(matches!(not_a_directory("y"), Error::Component(m) if m == "不是目录：y"));
}

#[test]
fn touching_moves_a_workspace_to_the_front() {
    let reg = Registry { current: None, recent: vec!["/a".into(), "/b".into(), "/c".into()] };
    let reg = touch_recent(&reg, "/b");
    assert_eq!(reg.current.as_deref(), Some("/b"));
    assert_eq!(reg.recent, vec!["/b".to_owned(), "/a".to_owned(), "/c".to_owned()]);
    let again = touch_recent(&reg, "/b");
    assert_eq!(again.recent, reg.recent);
}

#[test]
fn the_recent_list_keeps_twelve() {
    let mut reg = Registry::default();
    for i in 0..20 {
        reg = touch_recent(&reg, &format!("/w{i}"));
    }
    assert_eq!(reg.recent.len(), 12);
    assert_eq!(reg.recent[0], "/w19");
    assert_eq!(reg.recent[11], "/w8");
}

#[test]
fn merging_saved_workspaces_uses_the_existing_ones_in_order() {
    let reg = merge_recent(
        Registry::default(),
        &["/a".to_owned(), "/gone".to_owned(), "/c".to_owned()],
        &[true, false, true],
    );
    assert_eq!(reg.recent, vec!["/c".to_owned(), "/a".to_owned()]);
    assert_eq!(reg.current.as_deref(), Some("/c"));
}

#[test]
fn the_store_switches_and_lists() {
    let (mut store, saved) = WorkspaceStore::new("/start", true, None, None, &[]);
    assert_eq!(store.registry_path(), "/start/.agent/workspaces.json");
    assert_eq!(store.current(), "/start");
    let saved = saved.unwrap();
    assert_eq!(saved.current.as_deref(), Some("/start"));
    assert_eq!(saved.recent, vec!["/start".to_owned()]);
    let probe = |p: &str| -> Result<(String, bool), String> {
        match p {
            "/other" => Ok(("/other".to_owned(), true)),
            "/file" => Ok(("/file".to_owned(), false)),
            _ => Err("No such file".to_owned()),
        }
    };
    assert_eq!(store.switch("  ", probe, &saved).unwrap_err(), "缺少目录路径");
    assert_eq!(store.switch("/file", probe, &saved).unwrap_err(), "不是目录");
    assert_eq!(store.switch("/gone", probe, &saved).unwrap_err(), "无法打开目录：No such file");
    assert_eq!(store.current(), "/start");
    let (now, reg) = store.switch(" /other ", probe, &saved).unwrap();
    assert_eq!(now, "/other");
    assert_eq!(store.current(), "/other");
    assert_eq!(reg.recent, vec!["/other".to_owned(), "/start".to_owned()]);
    let list = store.list(&["/x".to_owned(), "/y".to_owned()], &[false, true]);
    assert_eq!(list.current, "/other");
    assert_eq!(list.recent, vec!["/y".to_owned()]);
}

#[test]
fn opening_restores_and_merges_the_saved_registry() {
    let saved = Registry { current: Some("/saved".into()), recent: vec!["/saved".into(), "/gone".into(), "/c".into()] };
    let found = [Some("/saved".to_owned()), None, Some("/c".to_owned())];
    let (store, reg) = WorkspaceStore::new("/start", true, Some(saved), Some("/saved".into()), &found);
    assert_eq!(store.current(), "/saved");
    let reg = reg.unwrap();
    assert_eq!(reg.current.as_deref(), Some("/saved"));
    assert_eq!(reg.recent, vec!["/saved".to_owned(), "/c".to_owned(), "/gone".to_owned()]);
    let (store, reg) = WorkspaceStore::new("rel", false, None, None, &[]);
    assert_eq!(store.current(), "rel");
    assert!(reg.is_none());
}

#[test]
fn switch_updates_current_and_recent() {
    let a = "/tmp/st-ws-store-a-1";
    let b = "/tmp/st-ws-store-b-1";
    let (mut store, saved) = WorkspaceStore::new(a, true, Some(Registry::default()), None, &[]);
    let saved = saved.unwrap();
    let (c, reg) = store.switch(b, |p: &str| Ok((p.to_owned(), true)), &saved).expect("switch");
    assert_eq!(store.current(), b);
    assert_eq!(c, b);
    let list = store.list(&reg.recent, &vec![true; reg.recent.len()]);
    assert_eq!(list.current, b);
    assert_eq!(list.recent[0], list.current);
    assert!(list.recent.iter().any(|entry| entry.contains("st-ws-store-b")));
}

#[test]
fn workspace_paths_are_checked() {
    assert_eq!(canonical_dir("   ", |_p: &str| Ok(("/x".to_owned(), true))), Err("缺少目录路径".to_owned()));
    assert_eq!(canonical_dir(" /tmp ", |p: &str| Ok((format!("{p}/"), true))), Ok("/tmp/".to_owned()));
    assert_eq!(canonical_dir("/f", |_p: &str| Ok(("/f".to_owned(), false))), Err("不是目录".to_owned()));
    assert_eq!(
        canonical_dir("/nope", |_p: &str| Err("No such file".to_owned())),
        Err("无法打开目录：No such file".to_owned())
    );
}
