use spatiotemporal_agent::outline::{headings, lines};

#[test]
fn headings_are_trimmed_heading_lines() {
    let md = "# 标题\n正文\n  ## 二级 标题  \n#没有空格\n### 三\r\n";
    assert_eq!(headings(md), "# 标题\n## 二级 标题\n### 三");
}

#[test]
fn no_headings_gives_a_note() {
    assert_eq!(headings("正文\n更多正文"), "(没有标题)");
    assert_eq!(headings(""), "(没有标题)");
}

#[test]
fn lines_follow_str_lines() {
    for text in ["", "a", "a\n", "a\r\nb", "\n", "a\n\nb\r", "x\r\n\r\n"] {
        let ours = lines(text);
        let std_lines: Vec<String> = text.lines().map(str::to_owned).collect();
        assert_eq!(ours, std_lines, "text {text:?}");
    }
}
