use spatiotemporal_agent::error::Error;
use spatiotemporal_agent::json::{Json, to_json_text};
use spatiotemporal_agent::tool_schema::define_script_schema;
use spatiotemporal_agent::tools::{
    arg_str, bash_command, bash_timeout_message, bash_transcript, cap_output, char_boundary, check_fetch_url,
    edit_report, edit_text, fetch_report, parse_json_args, read_doc_output, write_report,
};

fn component_text(e: Error) -> String {
    match e {
        Error::Component(m) => m,
        other => panic!("unexpected {other:?}"),
    }
}

#[test]
fn blank_arguments_are_an_empty_object() {
    let v = parse_json_args("  \n").unwrap();
    assert_eq!(to_json_text(&v), "{}");
}

#[test]
fn arguments_are_parsed_as_json() {
    let v = parse_json_args("{\"path\": \"a.txt\", \"n\": 3}").unwrap();
    assert_eq!(v.get_str("path"), Some("a.txt"));
    assert_eq!(v.get_u64("n"), Some(3));
    let e = component_text(parse_json_args("{oops").unwrap_err());
    assert!(e.starts_with("参数不是合法 JSON："));
    assert!(e.len() > "参数不是合法 JSON：".len());
}

#[test]
fn a_missing_argument_is_named() {
    let v = parse_json_args("{\"path\": 1}").unwrap();
    assert_eq!(component_text(arg_str(&v, "path").unwrap_err()), "缺少字段 `path`");
    assert_eq!(component_text(arg_str(&v, "content").unwrap_err()), "缺少字段 `content`");
}

#[test]
fn bash_reads_command_or_input_or_raw_text() {
    let v = parse_json_args("{\"command\": \"  ls -l \"}").unwrap();
    assert_eq!(bash_command("{\"command\": \"  ls -l \"}", &v).unwrap(), "ls -l");
    let v = parse_json_args("{\"input\": \"pwd\"}").unwrap();
    assert_eq!(bash_command("{\"input\": \"pwd\"}", &v).unwrap(), "pwd");
    let v = parse_json_args("{\"command\": 5, \"input\": \"pwd\"}").unwrap();
    assert_eq!(bash_command("{\"command\": 5, \"input\": \"pwd\"}", &v).unwrap(), "{\"command\": 5, \"input\": \"pwd\"}");
    let v = parse_json_args("").unwrap();
    assert_eq!(component_text(bash_command("   ", &v).unwrap_err()), "空命令");
}

#[test]
fn bash_transcript_layout() {
    assert_eq!(bash_transcript(Some(0), "/ws", "out\n", ""), "exit=0\ncwd=/ws\nout\n");
    assert_eq!(bash_transcript(None, "/ws", "", "err"), "exit=-1\ncwd=/ws\n--- stderr ---\nerr");
    assert_eq!(bash_transcript(Some(2), "/w", "a", "b"), "exit=2\ncwd=/w\na\n--- stderr ---\nb");
    assert_eq!(bash_transcript(Some(-9), "/w", "", ""), "exit=-9\ncwd=/w\n");
    assert_eq!(bash_timeout_message("sleep 99"), "命令超时（>30s）：sleep 99");
}

#[test]
fn long_output_is_capped_in_bytes() {
    let long = "y".repeat(40_000);
    let capped = cap_output(long);
    assert!(capped.starts_with(&"y".repeat(32_000)));
    assert!(capped.ends_with("\n…（输出已截断）"));
    assert_eq!(capped.len(), 32_000 + "\n…（输出已截断）".len());
    assert_eq!(cap_output("short".into()), "short");
}

#[test]
fn boundaries_follow_utf8() {
    let s = "a中b";
    assert!(char_boundary(s, 0));
    assert!(char_boundary(s, 1));
    assert!(!char_boundary(s, 2));
    assert!(!char_boundary(s, 3));
    assert!(char_boundary(s, 4));
    assert!(char_boundary(s, 5));
    assert!(!char_boundary(s, 6));
}

#[test]
fn read_doc_cuts_at_24000_bytes() {
    let short = "# 标题\n正文";
    assert_eq!(read_doc_output(short), short);
    let long = "z".repeat(30_000);
    let out = read_doc_output(&long);
    assert!(out.starts_with(&"z".repeat(24_000)));
    assert!(out.ends_with("…\n\n（正文已截断，完整 30000 字节。用 outline / cite 看结构或引用。）"));
}

#[test]
fn edit_replaces_the_first_occurrence_only() {
    assert_eq!(edit_text("f.txt", "a b a", "a", "X").unwrap(), "X b a");
    assert_eq!(edit_text("f.txt", "abc", "", "-").unwrap(), "-abc");
    assert_eq!(
        component_text(edit_text("f.txt", "abc", "zz", "X").unwrap_err()),
        "文件 f.txt 里没有找到要替换的片段"
    );
    assert_eq!(edit_report("f.txt"), "已编辑 f.txt");
    assert_eq!(write_report("/ws/f.txt", "中文"), "已写入 /ws/f.txt（6 字节）");
}

#[test]
fn fetch_accepts_only_http() {
    assert!(check_fetch_url("https://example.com").is_ok());
    assert!(check_fetch_url("http://example.com").is_ok());
    assert_eq!(component_text(check_fetch_url("ftp://x").unwrap_err()), "web_fetch 只支持 http:// 或 https://");
}

#[test]
fn fetch_report_shows_text_or_a_binary_note() {
    let r = fetch_report(200, Some("text/plain; charset=utf-8"), "http://x", b"hello".to_vec());
    assert_eq!(r, "status=200\ncontent-type=text/plain; charset=utf-8\nurl=http://x\n\nhello");
    let r = fetch_report(404, None, "http://x", vec![0, 1, 2]);
    assert_eq!(r, "status=404\ncontent-type=application/octet-stream\nurl=http://x\n\n[二进制内容，3 字节，Content-Type: application/octet-stream]");
    let r = fetch_report(200, Some("application/json"), "http://x", vec![0xff, b'a']);
    assert!(r.ends_with("\n\n\u{fffd}a"));
    let big = vec![b'q'; 600_000];
    let r = fetch_report(200, Some("text/html"), "http://x", big);
    assert!(r.ends_with("\n\n…（响应已截断至 512KB）"));
    assert!(r.contains(&"q".repeat(524_288)));
    assert!(!r.contains(&"q".repeat(524_289)));
}

#[test]
fn empty_object_text_is_compact() {
    assert_eq!(to_json_text(&Json::Object(Vec::new())), "{}");
}

#[test]
fn define_script_parameters() {
    let text = to_json_text(&define_script_schema());
    assert_eq!(
        text,
        "{\"properties\":{\
         \"grant\":{\"description\":\"可选，授予的 capability 名，如 markdown\",\"items\":{\"type\":\"string\"},\"type\":\"array\"},\
         \"id\":{\"description\":\"插件 id，也是文件名 stem\",\"type\":\"string\"},\
         \"role\":{\"description\":\"可选，插件说明\",\"type\":\"string\"},\
         \"source\":{\"description\":\"完整 JavaScript 源码（含 load/unload）\",\"type\":\"string\"}},\
         \"required\":[\"id\",\"source\"],\"type\":\"object\"}"
    );
}
