//! Creation mode's meta tools: what the model may propose, how a proposal
//! is framed for approval, and what the tools answer.
//!
//! Writing generated scripts to disk and applying layers to the running
//! configuration is the host's part.
use vstd::prelude::*;

use crate::approval::{ApprovalQueue, Pending, PendingInstallV, duplicate_message, full_queue_message, has_id};
use crate::error::Error;
use crate::json::{Json, JsonV, json_pretty_text, lemma_view_fields, lemma_view_items, to_pretty_text, view_fields, view_items};
use crate::outline::{lines, lines_of};
use crate::patch::{Entry, Patch, entry_value, layer_value, patch_value, render_patches, yaml_render};
use crate::paths::joined;
use crate::roster::PluginInfo;
use crate::text::{decimal, decimal_text, str_eq, to_chars, from_chars};
use crate::toolbox::ToolInfo;
use crate::tools::{arg_str, parse_json_args, parsed_args, str_arg};
use crate::web::{plugin_value, plugins_json, tool_value, tools_json};

verus! {

/// A plugin the model asked to install.
pub enum Definition {
    /// A script plugin: the host writes `source` to `file` (relative to the
    /// project root) before the proposal is queued.
    Script { id: String, file: String, source: String, preview: String, lines: usize, config: Json },
    /// Any other registry plugin, proposed with its config.
    Plugin { id: String, name: String, config: Json },
}

/// The abstract value of a [`Definition`].
pub enum DefinitionV {
    Script { id: Seq<char>, file: Seq<char>, source: Seq<char>, preview: Seq<char>, lines: nat, config: JsonV },
    Plugin { id: Seq<char>, name: Seq<char>, config: JsonV },
}

/// The abstract value of a definition.
pub open spec fn definition_view(d: Definition) -> DefinitionV {
    match d {
        Definition::Script { id, file, source, preview, lines, config } => DefinitionV::Script {
            id: id@,
            file: file@,
            source: source@,
            preview: preview@,
            lines: lines as nat,
            config: config@,
        },
        Definition::Plugin { id, name, config } => DefinitionV::Plugin { id: id@, name: name@, config: config@ },
    }
}

/// The first `n` characters of `s` (all of them when shorter).
pub open spec fn first_chars(s: Seq<char>, n: nat) -> Seq<char> {
    if s.len() > n {
        s.take(n as int)
    } else {
        s
    }
}

fn take_chars(s: &str, n: usize) -> (r: String)
    ensures
        r@ == first_chars(s@, n as nat),
{
    let cs = to_chars(s);
    if cs.len() <= n {
        return s.to_owned();
    }
    let mut out: Vec<char> = Vec::new();
    let mut i: usize = 0;
    while i < n
        invariant
            n < cs@.len(),
            i <= n,
            out@ == cs@.take(i as int),
        decreases n - i,
    {
        out.push(cs[i]);
        i = i + 1;
        assert(out@ =~= cs@.take(i as int));
    }
    from_chars(&out)
}

/// An empty object.
pub open spec fn empty_object_value() -> JsonV {
    JsonV::Object(Seq::empty())
}

/// What `define_plugin` makes of its arguments: `id` is required; `name`
/// defaults to `script` and `role` to a generic one; a script needs its
/// `source` (it is kept under `plugins/generated/<id>.js`); a wasm plugin
/// needs `guest` (or `config.guest`); anything else takes its `config`.
pub open spec fn planned_definition(args: Seq<char>) -> Result<DefinitionV, Seq<char>> {
    match parsed_args(args) {
        Err(e) => Err(e),
        Ok(v) => match str_arg(v, "id"@) {
            Err(e) => Err(e),
            Ok(id) => {
                let name = match v.str_member("name"@) {
                    Some(n) => n,
                    None => "script"@,
                };
                let role = match v.str_member("role"@) {
                    Some(r) => r,
                    None => "模型生成的插件"@,
                };
                let grant = match v.member("grant"@) {
                    Some(g) => g,
                    None => JsonV::Array(Seq::empty()),
                };
                if name == "script"@ {
                    match str_arg(v, "source"@) {
                        Err(e) => Err(e),
                        Ok(source) => {
                            let file = "plugins/generated/"@ + id + ".js"@;
                            Ok(
                                DefinitionV::Script {
                                    id,
                                    file,
                                    source,
                                    preview: first_chars(source, 800),
                                    lines: lines_of(source).len(),
                                    config: JsonV::Object(
                                        seq![
                                            ("file"@, JsonV::Str(file)),
                                            ("grant"@, grant),
                                            ("role"@, JsonV::Str(role)),
                                        ],
                                    ),
                                },
                            )
                        },
                    }
                } else if name == "wasm"@ {
                    let guest = match v.member("guest"@) {
                        Some(g) => g.text(),
                        None => match v.member("config"@) {
                            Some(c) => c.str_member("guest"@),
                            None => None,
                        },
                    };
                    match guest {
                        None => Err("wasm 插件需要 guest 字段"@),
                        Some(g) => Ok(
                            DefinitionV::Plugin {
                                id,
                                name,
                                config: JsonV::Object(
                                    seq![
                                        ("grant"@, grant),
                                        ("guest"@, JsonV::Str(g)),
                                        ("role"@, JsonV::Str(role)),
                                    ],
                                ),
                            },
                        ),
                    }
                } else {
                    Ok(
                        DefinitionV::Plugin {
                            id,
                            name,
                            config: match v.member("config"@) {
                                Some(c) => c,
                                None => empty_object_value(),
                            },
                        },
                    )
                }
            },
        },
    }
}

fn text_or(value: Option<&str>, default: &str) -> (r: String)
    ensures
        r@ == match value {
            Some(v) => v@,
            None => default@,
        },
{
    match value {
        Some(v) => v.to_owned(),
        None => default.to_owned(),
    }
}

/// Reads a `define_plugin` (or `define_script`) call.
pub fn plan_definition(args: &str) -> (r: Result<Definition, Error>)
    ensures
        match r {
            Ok(d) => planned_definition(args@) == Ok::<DefinitionV, Seq<char>>(definition_view(d)),
            Err(e) => e is Component && planned_definition(args@) == Err::<DefinitionV, Seq<char>>(e.text()),
        },
{
    let value = parse_json_args(args)?;
    let id = arg_str(&value, "id")?;
    let name = text_or(value.get_str("name"), "script");
    let role = text_or(value.get_str("role"), "模型生成的插件");
    let grant = match value.get("grant") {
        Some(g) => g.deep_clone(),
        None => Json::Array(Vec::new()),
    };
    proof {
        lemma_view_items(Seq::<Json>::empty());
    }
    if str_eq(name.as_str(), "script") {
        let source = arg_str(&value, "source")?;
        let mut file = "plugins/generated/".to_owned();
        file.append(id.as_str());
        file.append(".js");
        let preview = take_chars(source.as_str(), 800);
        let all_lines = lines(source.as_str());
        let count = all_lines.len();
        assert(count == lines_of(source@).len()) by {
            assert(all_lines@.map_values(|l: String| l@).len() == all_lines@.len());
        }
        let ghost gv = grant@;
        let ghost rv = role@;
        let fields = vec![
            ("file".to_owned(), Json::Str(file.clone())),
            ("grant".to_owned(), grant),
            ("role".to_owned(), Json::Str(role)),
        ];
        proof {
            lemma_view_fields(fields@);
            assert(view_fields(fields@) =~= seq![
                ("file"@, JsonV::Str(file@)),
                ("grant"@, gv),
                ("role"@, JsonV::Str(rv)),
            ]);
        }
        let config = Json::Object(fields);
        return Ok(Definition::Script { id, file, source, preview, lines: count, config });
    }
    if str_eq(name.as_str(), "wasm") {
        let guest: Option<&str> = match value.get("guest") {
            Some(g) => g.as_str(),
            None => match value.get("config") {
                Some(c) => c.get_str("guest"),
                None => None,
            },
        };
        return match guest {
            None => Err(Error::Component("wasm 插件需要 guest 字段".to_owned())),
            Some(g) => {
                let ghost gv = grant@;
                let ghost rv = role@;
                let fields = vec![
                    ("grant".to_owned(), grant),
                    ("guest".to_owned(), Json::Str(g.to_owned())),
                    ("role".to_owned(), Json::Str(role)),
                ];
                proof {
                    lemma_view_fields(fields@);
                    assert(view_fields(fields@) =~= seq![
                        ("grant"@, gv),
                        ("guest"@, JsonV::Str(g@)),
                        ("role"@, JsonV::Str(rv)),
                    ]);
                }
                Ok(Definition::Plugin { id, name, config: Json::Object(fields) })
            },
        };
    }
    let config = match value.get("config") {
        Some(c) => c.deep_clone(),
        None => {
            let empty: Vec<(String, Json)> = Vec::new();
            proof {
                lemma_view_fields(empty@);
                assert(view_fields(empty@) =~= Seq::<(Seq<char>, JsonV)>::empty());
            }
            Json::Object(empty)
        },
    };
    Ok(Definition::Plugin { id, name, config })
}

/// The layer a proposal installs: switch off any row `id`, then insert the
/// row `id` of component `name` with `config`.
pub open spec fn install_layer(id: Seq<char>, name: Seq<char>, config: JsonV) -> Seq<JsonV> {
    seq![
        JsonV::Object(seq![("id"@, JsonV::Str(id)), ("disabled"@, JsonV::Bool(true))]),
        JsonV::Object(
            seq![
                ("insert"@, JsonV::Array(
                    seq![
                        JsonV::Object(
                            seq![("id"@, JsonV::Str(id)), ("name"@, JsonV::Str(name))] + if config != JsonV::Null {
                                seq![("config"@, config)]
                            } else {
                                Seq::empty()
                            },
                        ),
                    ],
                )),
            ],
        ),
    ]
}

fn layer_for(id: &str, name: &str, config: Json) -> (r: Vec<Patch>)
    ensures
        r@.map_values(|p: Patch| patch_value(p)) == install_layer(id@, name@, config@),
{
    let ghost cv = config@;
    let off = Patch { id: Some(id.to_owned()), config: None, disabled: Some(true), insert: None, name: None };
    let row = Entry::new(id, name).with_config(config);
    let ghost rv = entry_value(row);
    let rows = vec![row];
    let add = Patch { id: None, config: None, disabled: None, insert: Some(rows), name: None };
    let layer = vec![off, add];
    proof {
        assert(rows@.map_values(|e: Entry| entry_value(e)) =~= seq![rv]);
        assert(rv == JsonV::Object(
            seq![("id"@, JsonV::Str(id@)), ("name"@, JsonV::Str(name@))] + if cv != JsonV::Null {
                seq![("config"@, cv)]
            } else {
                Seq::empty()
            },
        )) by {
            assert(seq![("id"@, JsonV::Str(id@)), ("name"@, JsonV::Str(name@))] + Seq::<(Seq<char>, JsonV)>::empty()
                =~= seq![("id"@, JsonV::Str(id@)), ("name"@, JsonV::Str(name@))]);
        }
        let pv0 = patch_value(layer@[0]);
        assert(pv0 == JsonV::Object(seq![("id"@, JsonV::Str(id@)), ("disabled"@, JsonV::Bool(true))])) by {
            assert(seq![("id"@, JsonV::Str(id@))] + Seq::<(Seq<char>, JsonV)>::empty() + seq![("disabled"@, JsonV::Bool(true))]
                + Seq::<(Seq<char>, JsonV)>::empty() + Seq::<(Seq<char>, JsonV)>::empty() =~= seq![
                ("id"@, JsonV::Str(id@)),
                ("disabled"@, JsonV::Bool(true)),
            ]);
        }
        let pv1 = patch_value(layer@[1]);
        assert(pv1 == JsonV::Object(seq![("insert"@, JsonV::Array(seq![rv]))])) by {
            assert(Seq::<(Seq<char>, JsonV)>::empty() + Seq::<(Seq<char>, JsonV)>::empty()
                + Seq::<(Seq<char>, JsonV)>::empty() + Seq::<(Seq<char>, JsonV)>::empty() + seq![
                ("insert"@, JsonV::Array(seq![rv])),
            ] =~= seq![("insert"@, JsonV::Array(seq![rv]))]);
        }
        assert(layer@.map_values(|p: Patch| patch_value(p)) =~= seq![pv0, pv1]);
    }
    layer
}

/// What a queued install proposal answers the model.
pub open spec fn proposal_message(id: Seq<char>, summary: Seq<char>, lines: Option<nat>) -> Seq<char> {
    "已提交安装请求 `"@ + id + "` → "@ + summary + "。请用户在浏览器界面点击「批准」后才会热装。"@ + match lines {
        Some(n) => "（"@ + decimal_text(n) + " 行）"@,
        None => Seq::empty(),
    }
}

/// The summary, preview, line count and component name a definition is proposed with.
pub open spec fn proposal_of(d: DefinitionV) -> (Seq<char>, Seq<char>, Seq<char>, Option<nat>, Seq<char>, Seq<char>, JsonV, Option<Seq<char>>) {
    match d {
        DefinitionV::Script { id, file, source, preview, lines, config } => (
            id,
            "script"@,
            file,
            Some(lines),
            preview,
            "script"@,
            config,
            Some(file),
        ),
        DefinitionV::Plugin { id, name, config } => (
            id,
            name,
            name + " ("@ + id + ")"@,
            None,
            json_pretty_text(config),
            name,
            config,
            None,
        ),
    }
}

/// Queues a definition for approval (a script's source already written to
/// its file, which is removed again if the proposal is rejected), and answers
/// the model. The queue refuses a proposal when it is full or already holds one
/// with the same id.
pub fn propose_definition(
    approvals: &mut ApprovalQueue,
    session_id: String,
    definition: Definition,
) -> (r: Result<String, Error>)
    requires
        old(approvals).wf(),
    ensures
        final(approvals).wf(),
        final(approvals).current_policy() == old(approvals).current_policy(),
        ({
            let (id, kind, summary, lines, preview, name, config, cleanup) = proposal_of(
                definition_view(definition),
            );
            &&& r is Ok <==> old(approvals).queue().len() < old(approvals).current_policy().max_queue
                && !has_id(old(approvals).queue(), id)
            &&& match r {
                Ok(message) => {
                    &&& message@ == proposal_message(id, summary, lines)
                    &&& final(approvals).queue().drop_last() == old(approvals).queue()
                    &&& final(approvals).queue().last().install@ == (PendingInstallV {
                        id,
                        kind,
                        summary,
                        preview,
                        session_id: session_id@,
                        source_lines: match lines {
                            Some(n) => Some(n as usize),
                            None => None,
                        },
                    })
                    &&& final(approvals).queue().last().layer@.map_values(|p: Patch| patch_value(p))
                        == install_layer(id, name, config)
                    &&& match final(approvals).queue().last().cleanup_path {
                        Some(p) => cleanup == Some(p@),
                        None => cleanup is None,
                    }
                },
                Err(e) => {
                    &&& final(approvals).queue() == old(approvals).queue()
                    &&& e is Component
                    &&& if old(approvals).queue().len() >= old(approvals).current_policy().max_queue {
                        e.text() == full_queue_message(old(approvals).current_policy().max_queue as nat)
                    } else {
                        e.text() == duplicate_message(id)
                    }
                },
            }
        }),
{
    let (id, kind, summary, lines, preview, name, config, cleanup) = match definition {
        Definition::Script { id, file, source, preview, lines, config } => {
            (id, "script".to_owned(), file.clone(), Some(lines), preview, "script".to_owned(), config, Some(file))
        },
        Definition::Plugin { id, name, config } => {
            let mut summary = name.clone();
            summary.append(" (");
            summary.append(id.as_str());
            summary.append(")");
            let preview = to_pretty_text(&config);
            (id, name.clone(), summary, None, preview, name, config, None)
        },
    };
    let layer = layer_for(id.as_str(), name.as_str(), config);
    let mut message = "已提交安装请求 `".to_owned();
    message.append(id.as_str());
    message.append("` → ");
    message.append(summary.as_str());
    message.append("。请用户在浏览器界面点击「批准」后才会热装。");
    match lines {
        Some(n) => {
            message.append("（");
            let count = decimal(n as u64);
            message.append(count.as_str());
            message.append(" 行）");
        },
        None => {},
    }
    match approvals.propose_install(session_id, id, kind, summary, preview, lines, layer, cleanup) {
        Ok(_) => Ok(message),
        Err(e) => Err(e),
    }
}

/// What `run_patch` asks: the patch YAML (`patch`, required) and the id the
/// run is proposed under (`id`, default `patch-run`).
pub fn patch_run_request(args: &str) -> (r: Result<(String, String), Error>)
    ensures
        match r {
            Ok((yaml, id)) => match parsed_args(args@) {
                Ok(v) => str_arg(v, "patch"@) == Ok::<Seq<char>, Seq<char>>(yaml@) && id@ == match v.str_member("id"@) {
                    Some(i) => i,
                    None => "patch-run"@,
                },
                Err(_) => false,
            },
            Err(e) => e is Component && match parsed_args(args@) {
                Ok(v) => str_arg(v, "patch"@) == Err::<Seq<char>, Seq<char>>(e.text()),
                Err(m) => m == e.text(),
            },
        },
{
    let value = parse_json_args(args)?;
    let yaml = arg_str(&value, "patch")?;
    let id = text_or(value.get_str("id"), "patch-run");
    Ok((yaml, id))
}

/// What becomes of a patch run.
pub enum PatchRun {
    /// It waits for approval; the text answers the model.
    Proposed(String),
    /// No approval needed: the host applies the layer now.
    Apply(Vec<Patch>),
}

/// The summary a patch run is proposed with.
pub open spec fn patch_run_summary(count: nat) -> Seq<char> {
    "试跑 patch（"@ + decimal_text(count) + " 条）"@
}

/// Decides a patch run of `layer` (parsed from `yaml`): when the policy
/// requires approval for `patch` it is queued (preview: the first 1200
/// characters of the YAML), otherwise it is handed back to apply.
pub fn plan_patch_run(
    approvals: &mut ApprovalQueue,
    session_id: String,
    id: String,
    yaml: &str,
    layer: Vec<Patch>,
) -> (r: Result<PatchRun, Error>)
    requires
        old(approvals).wf(),
    ensures
        final(approvals).wf(),
        final(approvals).current_policy() == old(approvals).current_policy(),
        !old(approvals).current_policy().needs("patch"@) ==> (final(approvals).queue() == old(approvals).queue()
            && (r matches Ok(PatchRun::Apply(l)) && l == layer)),
        old(approvals).current_policy().needs("patch"@) ==> {
            &&& r is Ok <==> old(approvals).queue().len() < old(approvals).current_policy().max_queue
                && !has_id(old(approvals).queue(), id@)
            &&& match r {
                Ok(PatchRun::Proposed(message)) => {
                    &&& message@ == "已提交 patch 试跑请求。请用户在浏览器界面点击「批准」后才会热装。"@
                    &&& final(approvals).queue().drop_last() == old(approvals).queue()
                    &&& final(approvals).queue().last().install@ == (PendingInstallV {
                        id: id@,
                        kind: "patch"@,
                        summary: patch_run_summary(layer@.len()),
                        preview: first_chars(yaml@, 1200),
                        session_id: session_id@,
                        source_lines: Some(lines_of(yaml@).len() as usize),
                    })
                    &&& final(approvals).queue().last().layer == layer
                    &&& final(approvals).queue().last().cleanup_path is None
                },
                Ok(PatchRun::Apply(_)) => false,
                Err(e) => {
                    &&& final(approvals).queue() == old(approvals).queue()
                    &&& e is Component
                },
            }
        },
{
    if !approvals.requires_approval("patch") {
        return Ok(PatchRun::Apply(layer));
    }
    let preview = take_chars(yaml, 1200);
    let count = lines(yaml).len();
    let mut summary = "试跑 patch（".to_owned();
    let n = decimal(layer.len() as u64);
    summary.append(n.as_str());
    summary.append(" 条）");
    match approvals.propose_install(session_id, id, "patch".to_owned(), summary, preview, Some(count), layer, None) {
        Ok(_) => Ok(PatchRun::Proposed("已提交 patch 试跑请求。请用户在浏览器界面点击「批准」后才会热装。".to_owned())),
        Err(e) => Err(e),
    }
}

/// What `undefine_plugin` asks: the layer switching off the row `id`.
pub fn undefine_request(args: &str) -> (r: Result<(String, Vec<Patch>), Error>)
    ensures
        match r {
            Ok((id, layer)) => match parsed_args(args@) {
                Ok(v) => str_arg(v, "id"@) == Ok::<Seq<char>, Seq<char>>(id@)
                    && layer@.map_values(|p: Patch| patch_value(p)) == seq![
                        JsonV::Object(seq![("id"@, JsonV::Str(id@)), ("disabled"@, JsonV::Bool(true))]),
                    ],
                Err(_) => false,
            },
            Err(e) => e is Component && match parsed_args(args@) {
                Ok(v) => str_arg(v, "id"@) == Err::<Seq<char>, Seq<char>>(e.text()),
                Err(m) => m == e.text(),
            },
        },
{
    let value = parse_json_args(args)?;
    let id = arg_str(&value, "id")?;
    let off = Patch { id: Some(id.clone()), config: None, disabled: Some(true), insert: None, name: None };
    let layer = vec![off];
    proof {
        assert(seq![("id"@, JsonV::Str(id@))] + Seq::<(Seq<char>, JsonV)>::empty() + seq![("disabled"@, JsonV::Bool(true))]
            + Seq::<(Seq<char>, JsonV)>::empty() + Seq::<(Seq<char>, JsonV)>::empty() =~= seq![
            ("id"@, JsonV::Str(id@)),
            ("disabled"@, JsonV::Bool(true)),
        ]);
        assert(layer@.map_values(|p: Patch| patch_value(p)) =~= seq![
            JsonV::Object(seq![("id"@, JsonV::Str(id@)), ("disabled"@, JsonV::Bool(true))]),
        ]);
    }
    Ok((id, layer))
}

/// What `inspect_plugins` answers: the mounted plugins as indented JSON.
pub fn plugins_listing(plugins: &Vec<PluginInfo>) -> (r: String)
    ensures
        r@ == json_pretty_text(JsonV::Array(plugins@.map_values(|p: PluginInfo| plugin_value(p@)))),
{
    to_pretty_text(&plugins_json(plugins))
}

/// What `inspect_tools` answers: the registered tools as indented JSON.
pub fn tools_listing(tools: &Vec<ToolInfo>) -> (r: String)
    ensures
        r@ == json_pretty_text(
            JsonV::Array(tools@.map_values(|t: ToolInfo| tool_value(t.name@, t.description@, t.substrate@))),
        ),
{
    to_pretty_text(&tools_json(tools))
}

/// One configuration row as `inspect_config` shows it: its config only when asked.
pub open spec fn config_row(e: Entry, include_config: bool) -> JsonV {
    JsonV::Object(
        (if include_config {
            seq![("config"@, e.config@)]
        } else {
            Seq::empty()
        }) + seq![("disabled"@, JsonV::Bool(e.disabled)), ("id"@, JsonV::Str(e.id@)), ("name"@, JsonV::Str(e.name@))],
    )
}

/// Whether `inspect_config` should show each row's config (`include_config`, default false).
pub open spec fn include_config_of(args: Seq<char>) -> Result<bool, Seq<char>> {
    match parsed_args(args) {
        Ok(v) => Ok(v.bool_member("include_config"@) == Some(true)),
        Err(e) => Err(e),
    }
}

/// What `inspect_config` answers for the rows in force.
pub fn config_listing(args: &str, entries: &Vec<Entry>) -> (r: Result<String, Error>)
    ensures
        match r {
            Ok(text) => match include_config_of(args@) {
                Ok(with_config) => text@ == json_pretty_text(
                    JsonV::Array(entries@.map_values(|e: Entry| config_row(e, with_config))),
                ),
                Err(_) => false,
            },
            Err(e) => e is Component && include_config_of(args@) == Err::<bool, Seq<char>>(e.text()),
        },
{
    let value = parse_json_args(args)?;
    let with_config = match value.get_bool("include_config") {
        Some(b) => b,
        None => false,
    };
    let mut rows: Vec<Json> = Vec::new();
    let mut i: usize = 0;
    while i < entries.len()
        invariant
            i <= entries@.len(),
            rows@.len() == i,
            forall|j: int| 0 <= j < i ==> (#[trigger] rows@[j])@ == config_row(entries@[j], with_config),
        decreases entries@.len() - i,
    {
        let e = &entries[i];
        let mut fields: Vec<(String, Json)> = Vec::new();
        if with_config {
            fields.push(("config".to_owned(), e.config.deep_clone()));
        }
        let ghost head = fields@;
        fields.push(("disabled".to_owned(), Json::Bool(e.disabled)));
        fields.push(("id".to_owned(), Json::Str(e.id.clone())));
        fields.push(("name".to_owned(), Json::Str(e.name.clone())));
        proof {
            lemma_view_fields(head);
            lemma_view_fields(fields@);
            assert(view_fields(fields@) =~= match config_row(*e, with_config) {
                JsonV::Object(f) => f,
                _ => Seq::empty(),
            });
        }
        rows.push(Json::Object(fields));
        i = i + 1;
    }
    proof {
        lemma_view_items(rows@);
        assert(view_items(rows@) =~= entries@.map_values(|e: Entry| config_row(e, with_config)));
    }
    Ok(to_pretty_text(&Json::Array(rows)))
}

/// What `save_patch` does.
pub enum SavePlan {
    /// There is nothing to save; the tool answers with the text.
    Nothing(String),
    /// Write `content` to `path`, then answer `message`.
    Write { path: String, content: String, message: String },
}

/// The answer when no runtime patch exists.
pub open spec fn nothing_to_save() -> Seq<char> {
    "没有运行时动态 patch 可保存（bootstrap / 文件层不含在内）。"@
}

/// The patches of a stack of layers, in order.
pub open spec fn flat_patches(layers: Seq<Vec<Patch>>) -> Seq<Patch> {
    layers.map_values(|l: Vec<Patch>| l@).flatten()
}

/// Where `save_patch` writes: the `path` argument, else `cordis.patch.yml`
/// under the project root `root`.
pub open spec fn save_path(value: JsonV, root: Seq<char>) -> Seq<char> {
    match value.str_member("path"@) {
        Some(p) => p,
        None => joined(root, "cordis.patch.yml"@),
    }
}

/// What saving the runtime `layers` with arguments `args` amounts to: the
/// arguments' parse error; nothing when there are no patches; else the
/// patches as YAML under a header, and how many were written where (or the
/// YAML writer's failure).
pub open spec fn save_outcome(args: Seq<char>, root: Seq<char>, layers: Seq<Vec<Patch>>) -> Result<
    Option<(Seq<char>, Seq<char>, Seq<char>)>,
    Seq<char>,
> {
    match parsed_args(args) {
        Err(e) => Err(e),
        Ok(value) => {
            let flat = flat_patches(layers);
            let path = save_path(value, root);
            if flat.len() == 0 {
                Ok(None)
            } else {
                match yaml_render(layer_value(flat)) {
                    Err(m) => Err("patch YAML 序列化失败："@ + m),
                    Ok(t) => Ok(
                        Some(
                            (
                                path,
                                "# 由 creation-tools 自动生成\n"@ + t,
                                "已写入 "@ + path + "（"@ + decimal_text(flat.len()) + " 条 patch）"@,
                            ),
                        ),
                    ),
                }
            }
        },
    }
}

proof fn lemma_flatten_front(rest: Seq<Vec<Patch>>)
    requires
        rest.len() > 0,
    ensures
        flat_patches(rest) == rest[0]@ + flat_patches(rest.drop_first()),
{
    let f = |l: Vec<Patch>| l@;
    assert(rest.map_values(f).drop_first() =~= rest.drop_first().map_values(f));
}

/// Plans `save_patch`: which file gets which text, and the answer (see
/// [`save_outcome`]). Writing the file is the host's part.
pub fn plan_save(args: &str, root: &str, layers: Vec<Vec<Patch>>) -> (r: Result<SavePlan, Error>)
    ensures
        match save_outcome(args@, root@, layers@) {
            Err(m) => r is Err && r->Err_0 is Component && r->Err_0.text() == m,
            Ok(None) => r matches Ok(SavePlan::Nothing(t)) && t@ == nothing_to_save(),
            Ok(Some((path, content, message))) => r matches Ok(SavePlan::Write { path: p, content: c, message: m })
                && p@ == path && c@ == content && m@ == message,
        },
{
    let value = parse_json_args(args)?;
    let path = match value.get_str("path") {
        Some(p) => p.to_owned(),
        None => crate::paths::join(root, "cordis.patch.yml"),
    };
    let ghost all = layers@;
    let mut rest = layers;
    let mut flat: Vec<Patch> = Vec::new();
    proof {
        assert(flat@ + flat_patches(rest@) =~= flat_patches(all));
    }
    while rest.len() > 0
        invariant
            flat@ + flat_patches(rest@) == flat_patches(all),
        decreases rest@.len(),
    {
        proof {
            lemma_flatten_front(rest@);
        }
        let ghost before = rest@;
        let mut layer = rest.remove(0);
        proof {
            assert(rest@ =~= before.drop_first());
        }
        let ghost f0 = flat@;
        let ghost l0 = layer@;
        flat.append(&mut layer);
        proof {
            assert(flat@ =~= f0 + l0);
            assert(f0 + (l0 + flat_patches(rest@)) =~= (f0 + l0) + flat_patches(rest@));
        }
    }
    proof {
        assert(flat@ =~= flat_patches(all));
    }
    if flat.len() == 0 {
        return Ok(SavePlan::Nothing("没有运行时动态 patch 可保存（bootstrap / 文件层不含在内）。".to_owned()));
    }
    let yaml = render_patches(&flat)?;
    let mut content = "# 由 creation-tools 自动生成\n".to_owned();
    content.append(yaml.as_str());
    let mut message = "已写入 ".to_owned();
    message.append(path.as_str());
    message.append("（");
    let count = decimal(flat.len() as u64);
    message.append(count.as_str());
    message.append(" 条 patch）");
    Ok(SavePlan::Write { path, content, message })
}

} // verus!
