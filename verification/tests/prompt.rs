use spatiotemporal_agent::error::Error;
use spatiotemporal_agent::json::{Json, JsonNumber};
use spatiotemporal_agent::prompt::{
    AgentProfile, PromptInput, PromptService, SystemPromptPlugin, doc_reader_prompt, fallback_system_prompt, tool_guide,
};
use spatiotemporal_agent::toolbox::Toolbox;

type Tool = fn(&str) -> Result<String, Error>;

fn empty_tool(_args: &str) -> Result<String, Error> {
    Ok(String::new())
}

fn read_toolbox() -> Toolbox<Tool> {
    let mut tools: Toolbox<Tool> = Toolbox::new();
    tools.insert("read".into(), "读文件".into(), "native", empty_tool as Tool);
    tools
}

#[test]
fn fallback_prompt_lists_tools() {
    let tools = read_toolbox();
    let service = PromptService { agents_path: None, agents_file: "AGENTS.md".into() };
    let text = service.build(PromptInput { workspace: "/tmp", doc_path: None, creation: false, tools: &tools }, None);
    assert!(text.contains("read"));
    assert!(text.contains("parameters"));
}

#[test]
fn assembled_prompt_sections() {
    let tools = read_toolbox();
    let service = PromptService { agents_path: Some("/tmp/AGENTS.md".into()), agents_file: "AGENTS.md".into() };
    let text = service.build(
        PromptInput { workspace: "/ws", doc_path: Some("a.md"), creation: true, tools: &tools },
        Some("  be brief  \n"),
    );
    let sections: Vec<&str> = text.split("\n\n").collect();
    assert!(sections[0].starts_with("你是 spatiotemporal agent，一个可组合插件宿主上的通用助手。\n工作区根目录：/ws\n"));
    assert_eq!(sections[1], "当前文档：a.md。可用 read_doc / outline / cite 阅读。");
    assert_eq!(sections[2], "## 项目指令（AGENTS.md）\nbe brief");
    assert!(sections[3].starts_with("## 工具与 JSON 参数\n- **read** [native]：读文件\n  parameters: {"));
    assert!(text.ends_with("save_patch 持久化。"));
    let blank = service.build(PromptInput { workspace: "/ws", doc_path: None, creation: false, tools: &tools }, Some(" \n "));
    assert!(!blank.contains("项目指令"));
}

#[test]
fn tool_guide_shows_parameters_as_json() {
    let tools = read_toolbox();
    let guide = tool_guide(&tools);
    assert_eq!(
        guide,
        "## 工具与 JSON 参数\n- **read** [native]：读文件\n  parameters: {\"properties\":{\"query\":{\"description\":\"工具输入\",\"type\":\"string\"}},\"type\":\"object\"}\n"
    );
}

#[test]
fn fallback_system_prompt_by_profile() {
    let mut tools = read_toolbox();
    tools.insert("bash".into(), "跑命令".into(), "native", empty_tool as Tool);
    let general = fallback_system_prompt("/ws", Some("doc.md"), AgentProfile::General, &tools);
    assert!(general.starts_with("你是 spatiotemporal agent，运行在一个可组合插件宿主上。\n工作区根目录：/ws\n当前可用工具：bash, read\n当前文档：doc.md。"));
    assert!(!general.contains("【"));
    let coding = fallback_system_prompt("/ws", Some("doc.md"), AgentProfile::Coding, &tools);
    assert!(!coding.contains("当前文档"));
    assert!(coding.ends_with("（outline/cite/stats/read_doc 已禁用）。\n"));
    let creation = fallback_system_prompt("/ws", None, AgentProfile::Creation, &tools);
    assert!(creation.contains("【创造模式】"));
}

#[test]
fn doc_reader_prompt_names_the_document() {
    let text = doc_reader_prompt("notes.md");
    assert!(text.starts_with("你是这篇 Markdown 文档的讲解员。文档路径：notes.md。\n"));
}

#[test]
fn system_prompt_plugin_reads_agents_file() {
    let plugin = SystemPromptPlugin::from_config(&Json::Object(vec![("agents_file".into(), Json::Str("GUIDE.md".into()))]));
    assert_eq!(plugin.agents_file, "GUIDE.md");
    let default = SystemPromptPlugin::from_config(&Json::Number(JsonNumber::PosInt(1)));
    assert_eq!(default.agents_file, "AGENTS.md");
}
