//! System prompts: the built-in fallback, the assembled prompt of the
//! `system-prompt` plugin, and the document reader's prompt.
use vstd::prelude::*;

use crate::chat::at_key;
use crate::json::{Json, JsonV, json_text, to_json_text};
use crate::text::{join, joined, trim, trimmed};
use crate::tool_schema::{empty_object, function_schema_value, object_schema};
use crate::toolbox::{ToolV, Toolbox};

verus! {

/// Which kind of work the agent is set up for.
#[derive(PartialEq, Eq, Structural, Clone, Copy, Debug)]
pub enum AgentProfile {
    General,
    Coding,
    Creation,
}

/// The names of `tools`, in order.
pub open spec fn tool_names<F>(tools: Seq<ToolV<F>>) -> Seq<Seq<char>> {
    tools.map_values(|t: ToolV<F>| t.name)
}

/// The built-in system prompt used when no `system-prompt` plugin is loaded.
pub open spec fn fallback_prompt(
    workspace: Seq<char>,
    doc_path: Option<Seq<char>>,
    profile: AgentProfile,
    names: Seq<Seq<char>>,
) -> Seq<char> {
    "你是 spatiotemporal agent，运行在一个可组合插件宿主上。\n工作区根目录："@ + workspace + "\n当前可用工具："@
        + joined(names, ", "@) + "\n"@ + match doc_path {
        Some(p) => if profile != AgentProfile::Coding {
            "当前文档："@ + p + "。可用 read_doc / outline / cite 阅读。\n"@
        } else {
            Seq::empty()
        },
        None => Seq::empty(),
    } + fallback_rules() + match profile {
        AgentProfile::Creation => creation_note(),
        AgentProfile::Coding => coding_note(),
        AgentProfile::General => Seq::empty(),
    }
}

/// The tool conventions every fallback prompt states.
pub open spec fn fallback_rules() -> Seq<char> {
    "文件操作用 read / write / edit（JSON：path；write 还需 content；edit 还需 old、new）；shell 用 bash（JSON：command，可选 cwd）；网络用 web_fetch（JSON：url）。所有工具参数必须是合法 JSON 对象，字段名与 schema 一致。\n回答用中文，引用时尽量附上原文或命令输出。不要编造没有依据的内容。\n"@
}

/// The fallback prompt's note on creation mode.
pub open spec fn creation_note() -> Seq<char> {
    "【创造模式】可用 inspect_plugins / inspect_tools / inspect_config 查看运行时；define_plugin / run_patch 按审批策略提交安装或试跑请求，必须等用户在浏览器点击「批准」；revert_patch 撤销动态层；undefine_plugin 禁用；save_patch 持久化。\n"@
}

/// The fallback prompt's note on coding mode.
pub open spec fn coding_note() -> Seq<char> {
    "【编码模式】专注 read/write/edit/bash；同一文件少重复 read；改完用一条 bash 验证；不要调用 demo 文档工具（outline/cite/stats/read_doc 已禁用）。\n"@
}

/// The built-in system prompt: the workspace, the tools on offer, the current
/// document (not in coding mode), the tool conventions and the mode's note.
pub fn fallback_system_prompt<F>(
    workspace: &str,
    doc_path: Option<&str>,
    profile: AgentProfile,
    tools: &Toolbox<F>,
) -> (r: String)
    ensures
        r@ == fallback_prompt(
            workspace@,
            match doc_path {
                Some(p) => Some(p@),
                None => None,
            },
            profile,
            tool_names(tools.entries()),
        ),
{
    let listed = tools.list();
    let mut names: Vec<String> = Vec::new();
    let mut i: usize = 0;
    while i < listed.len()
        invariant
            i <= listed@.len(),
            listed@.len() == tools.entries().len(),
            forall|j: int| 0 <= j < listed@.len() ==> (#[trigger] listed@[j]).name@ == tools.entries()[j].name,
            names@.len() == i,
            forall|j: int| 0 <= j < i ==> (#[trigger] names@[j])@ == tools.entries()[j].name,
        decreases listed@.len() - i,
    {
        names.push(listed[i].name.clone());
        i = i + 1;
    }
    assert(names@.map_values(|p: String| p@) =~= tool_names(tools.entries()));
    let mut prompt = "你是 spatiotemporal agent，运行在一个可组合插件宿主上。\n工作区根目录：".to_owned();
    prompt.append(workspace);
    prompt.append("\n当前可用工具：");
    let list = join(&names, ", ");
    prompt.append(list.as_str());
    prompt.append("\n");
    let ghost head = prompt@;
    match doc_path {
        Some(p) => {
            if profile != AgentProfile::Coding {
                prompt.append("当前文档：");
                prompt.append(p);
                prompt.append("。可用 read_doc / outline / cite 阅读。\n");
            }
        },
        None => {},
    }
    let ghost with_doc = prompt@;
    prompt.append(
        "文件操作用 read / write / edit（JSON：path；write 还需 content；edit 还需 old、new）；shell 用 bash（JSON：command，可选 cwd）；网络用 web_fetch（JSON：url）。所有工具参数必须是合法 JSON 对象，字段名与 schema 一致。\n回答用中文，引用时尽量附上原文或命令输出。不要编造没有依据的内容。\n",
    );
    let ghost with_rules = prompt@;
    if profile == AgentProfile::Creation {
        prompt.append(
            "【创造模式】可用 inspect_plugins / inspect_tools / inspect_config 查看运行时；define_plugin / run_patch 按审批策略提交安装或试跑请求，必须等用户在浏览器点击「批准」；revert_patch 撤销动态层；undefine_plugin 禁用；save_patch 持久化。\n",
        );
    }
    if profile == AgentProfile::Coding {
        prompt.append(
            "【编码模式】专注 read/write/edit/bash；同一文件少重复 read；改完用一条 bash 验证；不要调用 demo 文档工具（outline/cite/stats/read_doc 已禁用）。\n",
        );
    }
    proof {
        let dp = match doc_path {
            Some(p) => Some(p@),
            None => None,
        };
        let doc_part = match dp {
            Some(p) => if profile != AgentProfile::Coding {
                "当前文档："@ + p + "。可用 read_doc / outline / cite 阅读。\n"@
            } else {
                Seq::empty()
            },
            None => Seq::empty(),
        };
        assert(with_doc =~= head + doc_part);
        let note = match profile {
            AgentProfile::Creation => creation_note(),
            AgentProfile::Coding => coding_note(),
            AgentProfile::General => Seq::<char>::empty(),
        };
        assert(prompt@ =~= with_rules + note);
        assert(prompt@ =~= fallback_prompt(workspace@, dp, profile, tool_names(tools.entries())));
    }
    prompt
}

/// The document reader's system prompt.
pub open spec fn doc_reader_prompt_text(doc_path: Seq<char>) -> Seq<char> {
    "你是这篇 Markdown 文档的讲解员。文档路径："@ + doc_path
        + "。\n先用工具看文档再回答：read_doc 读正文，outline 看结构，cite 按关键词引用原文。\n回答用中文，引用时尽量附上原文片段。不要编造文档里没有的内容。"@
}

/// The system prompt of the document reader for the document at `doc_path`.
pub fn doc_reader_prompt(doc_path: &str) -> (r: String)
    ensures
        r@ == doc_reader_prompt_text(doc_path@),
{
    let mut prompt = "你是这篇 Markdown 文档的讲解员。文档路径：".to_owned();
    prompt.append(doc_path);
    prompt.append(
        "。\n先用工具看文档再回答：read_doc 读正文，outline 看结构，cite 按关键词引用原文。\n回答用中文，引用时尽量附上原文片段。不要编造文档里没有的内容。",
    );
    prompt
}

/// The parameters a tool's schema declares: `schema["function"]["parameters"]`.
pub open spec fn schema_parameters(schema: JsonV) -> Option<JsonV> {
    at_key(schema, "function"@).member("parameters"@)
}

/// The parameters of a schema built by `function_schema` are the ones it was given.
proof fn lemma_schema_parameters(name: Seq<char>, description: Seq<char>, parameters: JsonV)
    ensures
        schema_parameters(function_schema_value(name, description, parameters)) == Some(parameters),
{
    reveal_strlit("function");
    reveal_strlit("description");
    reveal_strlit("name");
    reveal_strlit("parameters");
    let inner = seq![
        ("description"@, JsonV::Str(description)),
        ("name"@, JsonV::Str(name)),
        ("parameters"@, parameters),
    ];
    let outer = seq![("function"@, JsonV::Object(inner)), ("type"@, JsonV::Str("function"@))];
    assert(outer[0].0 == "function"@);
    assert("description"@.len() == 11);
    assert("name"@.len() == 4);
    assert("parameters"@.len() == 10);
    assert(inner[0].0 != "parameters"@);
    assert(inner.drop_first()[0].0 != "parameters"@);
    assert(inner.drop_first().drop_first()[0].0 == "parameters"@);
    reveal_with_fuel(crate::json::field_of, 4);
}

/// One line of the tool guide.
pub open spec fn guide_line(
    name: Seq<char>,
    substrate: Seq<char>,
    description: Seq<char>,
    parameters_text: Seq<char>,
) -> Seq<char> {
    "- **"@ + name + "** ["@ + substrate + "]："@ + description + "\n  parameters: "@ + parameters_text
        + "\n"@
}

/// The guide lines of `tools`, in order.
pub open spec fn guide_lines<F>(tools: Seq<ToolV<F>>) -> Seq<char>
    decreases tools.len(),
{
    if tools.len() == 0 {
        Seq::empty()
    } else {
        let t = tools.last();
        guide_lines(tools.drop_last()) + guide_line(
            t.name,
            t.substrate,
            t.description,
            json_text(t.parameters),
        )
    }
}

/// The tool guide: every tool with its substrate, description and JSON parameters.
pub open spec fn tool_guide_text<F>(tools: Seq<ToolV<F>>) -> Seq<char> {
    "## 工具与 JSON 参数\n"@ + guide_lines(tools)
}

/// The tool guide of `tools`.
pub fn tool_guide<F>(tools: &Toolbox<F>) -> (r: String)
    requires
        tools.wf(),
    ensures
        r@ == tool_guide_text(tools.entries()),
{
    let listed = tools.list();
    let schemas = tools.schemas();
    let ghost es = tools.entries();
    let mut out = "## 工具与 JSON 参数\n".to_owned();
    let mut i: usize = 0;
    while i < listed.len()
        invariant
            es == tools.entries(),
            listed@.len() == es.len(),
            schemas@.len() == es.len(),
            forall|j: int|
                0 <= j < listed@.len() ==> (#[trigger] listed@[j]).name@ == es[j].name
                    && listed@[j].description@ == es[j].description && listed@[j].substrate@
                    == es[j].substrate,
            forall|j: int|
                0 <= j < schemas@.len() ==> (#[trigger] schemas@[j])@ == function_schema_value(
                    es[j].name,
                    crate::toolbox::tagged_description(es[j].substrate, es[j].description),
                    es[j].parameters,
                ),
            i <= es.len(),
            out@ == "## 工具与 JSON 参数\n"@ + guide_lines(es.subrange(0, i as int)),
        decreases es.len() - i,
    {
        let tool = &listed[i];
        let params: Json = match schemas[i].get("function") {
            Some(f) => match f.get("parameters") {
                Some(p) => p.deep_clone(),
                None => empty_object(),
            },
            None => empty_object(),
        };
        proof {
            lemma_schema_parameters(
                es[i as int].name,
                crate::toolbox::tagged_description(es[i as int].substrate, es[i as int].description),
                es[i as int].parameters,
            );
            assert(params@ == es[i as int].parameters);
            let next = es.subrange(0, i + 1);
            assert(next.drop_last() =~= es.subrange(0, i as int));
            assert(next.last() == es[i as int]);
        }
        let text = to_json_text(&params);
        let ghost before = out@;
        out.append("- **");
        out.append(tool.name.as_str());
        out.append("** [");
        out.append(tool.substrate.as_str());
        out.append("]：");
        out.append(tool.description.as_str());
        out.append("\n  parameters: ");
        out.append(text.as_str());
        out.append("\n");
        proof {
            assert(out@ =~= before + guide_line(
                es[i as int].name,
                es[i as int].substrate,
                es[i as int].description,
                json_text(es[i as int].parameters),
            ));
        }
        i = i + 1;
    }
    assert(es.subrange(0, es.len() as int) =~= es);
    out
}

/// What the prompt is assembled from.
pub struct PromptInput<'a, F> {
    pub workspace: &'a str,
    pub doc_path: Option<&'a str>,
    pub creation: bool,
    pub tools: &'a Toolbox<F>,
}

/// The `system-prompt` plugin's service: where the project instructions live.
pub struct PromptService {
    pub agents_path: Option<String>,
    pub agents_file: String,
}

/// The sections of an assembled prompt, in order.
pub open spec fn prompt_sections<F>(
    workspace: Seq<char>,
    doc_path: Option<Seq<char>>,
    agents_file: Seq<char>,
    agents_text: Option<Seq<char>>,
    creation: bool,
    tools: Seq<ToolV<F>>,
) -> Seq<Seq<char>> {
    seq![
        "你是 spatiotemporal agent，一个可组合插件宿主上的通用助手。\n工作区根目录："@ + workspace
            + "\n优先用工具收集事实，再回答；不要编造没有依据的内容。\n回答用中文。"@,
    ] + match doc_path {
        Some(p) => seq!["当前文档："@ + p + "。可用 read_doc / outline / cite 阅读。"@],
        None => Seq::empty(),
    } + match agents_text {
        Some(t) => if trimmed(t).len() > 0 {
            seq!["## 项目指令（"@ + agents_file + "）\n"@ + trimmed(t)]
        } else {
            Seq::empty()
        },
        None => Seq::empty(),
    } + seq![tool_guide_text(tools), safety_note()] + if creation {
        seq![creation_section()]
    } else {
        Seq::empty()
    }
}

/// The assembled prompt's safety section.
pub open spec fn safety_note() -> Seq<char> {
    "安全：不要执行明显破坏性的 bash 命令，除非用户明确要求。\n文件操作用 read / write / edit；shell 用 bash；网络用 web_fetch。"@
}

/// The assembled prompt's creation-mode section.
pub open spec fn creation_section() -> Seq<char> {
    "【创造模式】inspect_* 查看运行时；define_script 提交安装需用户界面批准；undefine_plugin 禁用；save_patch 持久化。"@
}

impl PromptService {
    /// Assembles the prompt: the role and workspace, the current document, the
    /// project instructions (`agents_text`, the content of `agents_path` when
    /// it could be read; skipped when blank), the tool guide, the safety note
    /// and, in creation mode, its note; sections are separated by a blank line.
    pub fn build<F>(&self, input: PromptInput<'_, F>, agents_text: Option<&str>) -> (r: String)
        requires
            input.tools.wf(),
        ensures
            r@ == joined(
                prompt_sections(
                    input.workspace@,
                    match input.doc_path {
                        Some(p) => Some(p@),
                        None => None,
                    },
                    self.agents_file@,
                    match agents_text {
                        Some(t) => Some(t@),
                        None => None,
                    },
                    input.creation,
                    input.tools.entries(),
                ),
                "\n\n"@,
            ),
    {
        let mut sections: Vec<String> = Vec::new();
        let mut first = "你是 spatiotemporal agent，一个可组合插件宿主上的通用助手。\n工作区根目录：".to_owned();
        first.append(input.workspace);
        first.append("\n优先用工具收集事实，再回答；不要编造没有依据的内容。\n回答用中文。");
        sections.push(first);
        let ghost s1 = sections@.map_values(|p: String| p@);
        match input.doc_path {
            Some(p) => {
                let mut doc = "当前文档：".to_owned();
                doc.append(p);
                doc.append("。可用 read_doc / outline / cite 阅读。");
                sections.push(doc);
            },
            None => {},
        }
        let ghost s2 = sections@.map_values(|p: String| p@);
        match agents_text {
            Some(text) => {
                let t = trim(text);
                if t.as_str().unicode_len() > 0 {
                    let mut section = "## 项目指令（".to_owned();
                    section.append(self.agents_file.as_str());
                    section.append("）\n");
                    section.append(t.as_str());
                    sections.push(section);
                }
            },
            None => {},
        }
        let ghost s3 = sections@.map_values(|p: String| p@);
        sections.push(tool_guide(input.tools));
        sections.push(
            "安全：不要执行明显破坏性的 bash 命令，除非用户明确要求。\n文件操作用 read / write / edit；shell 用 bash；网络用 web_fetch。".to_owned(),
        );
        let ghost s4 = sections@.map_values(|p: String| p@);
        if input.creation {
            sections.push(
                "【创造模式】inspect_* 查看运行时；define_script 提交安装需用户界面批准；undefine_plugin 禁用；save_patch 持久化。".to_owned(),
            );
        }
        proof {
            let dp = match input.doc_path {
                Some(p) => Some(p@),
                None => None,
            };
            let at = match agents_text {
                Some(t) => Some(t@),
                None => None,
            };
            let doc_part = match dp {
                Some(p) => seq!["当前文档："@ + p + "。可用 read_doc / outline / cite 阅读。"@],
                None => Seq::<Seq<char>>::empty(),
            };
            let agents_part = match at {
                Some(t) => if trimmed(t).len() > 0 {
                    seq!["## 项目指令（"@ + self.agents_file@ + "）\n"@ + trimmed(t)]
                } else {
                    Seq::<Seq<char>>::empty()
                },
                None => Seq::<Seq<char>>::empty(),
            };
            assert(s2 =~= s1 + doc_part);
            assert(s3 =~= s2 + agents_part);
            assert(s4 =~= s3 + seq![tool_guide_text(input.tools.entries()), safety_note()]);
            let last = if input.creation {
                seq![creation_section()]
            } else {
                Seq::<Seq<char>>::empty()
            };
            assert(sections@.map_values(|p: String| p@) =~= s4 + last);
            assert(sections@.map_values(|p: String| p@) =~= prompt_sections(
                input.workspace@,
                dp,
                self.agents_file@,
                at,
                input.creation,
                input.tools.entries(),
            ));
        }
        join(&sections, "\n\n")
    }
}

/// The `system-prompt` plugin: which file holds the project instructions.
pub struct SystemPromptPlugin {
    pub agents_file: String,
}

impl SystemPromptPlugin {
    /// Reads `agents_file` from the plugin config (default `AGENTS.md`).
    pub fn from_config(config: &Json) -> (r: Self)
        ensures
            r.agents_file@ == match config@.str_member("agents_file"@) {
                Some(f) => f,
                None => "AGENTS.md"@,
            },
    {
        let agents_file = match config.get_str("agents_file") {
            Some(f) => f.to_owned(),
            None => "AGENTS.md".to_owned(),
        };
        SystemPromptPlugin { agents_file }
    }
}

} // verus!
