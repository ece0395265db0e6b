//! JSON schemas of the tools offered to the model.
use vstd::prelude::*;

use crate::json::{Json, JsonV, lemma_view_fields, lemma_view_items, view_fields, view_items};

verus! {

/// `{"type": type, "description": description}` (keys in map order).
pub open spec fn typed_property(ty: Seq<char>, description: Seq<char>) -> JsonV {
    JsonV::Object(seq![("description"@, JsonV::Str(description)), ("type"@, JsonV::Str(ty))])
}

/// `{"type": "object", "properties": {..}}` with `required` when given (keys in map order).
pub open spec fn object_schema(properties: Seq<(Seq<char>, JsonV)>, required: Option<Seq<Seq<char>>>) -> JsonV {
    JsonV::Object(
        seq![("properties"@, JsonV::Object(properties))] + match required {
            Some(names) => seq![("required"@, JsonV::Array(names.map_values(|n: Seq<char>| JsonV::Str(n))))],
            None => Seq::empty(),
        } + seq![("type"@, JsonV::Str("object"@))],
    )
}

/// `{"type": "function", "function": {"name", "description", "parameters"}}`.
pub open spec fn function_schema_value(name: Seq<char>, description: Seq<char>, parameters: JsonV) -> JsonV {
    JsonV::Object(
        seq![
            ("function"@, JsonV::Object(
                seq![
                    ("description"@, JsonV::Str(description)),
                    ("name"@, JsonV::Str(name)),
                    ("parameters"@, parameters),
                ],
            )),
            ("type"@, JsonV::Str("function"@)),
        ],
    )
}

fn string_value(s: &str) -> (r: Json)
    ensures
        r@ == JsonV::Str(s@),
{
    Json::Str(s.to_owned())
}

fn typed(ty: &str, description: &str) -> (r: Json)
    ensures
        r@ == typed_property(ty@, description@),
{
    let mut fields: Vec<(String, Json)> = Vec::new();
    fields.push(("description".to_owned(), string_value(description)));
    fields.push(("type".to_owned(), string_value(ty)));
    proof {
        lemma_view_fields(fields@);
        assert(view_fields(fields@) =~= seq![
            ("description"@, JsonV::Str(description@)),
            ("type"@, JsonV::Str(ty@)),
        ]);
    }
    Json::Object(fields)
}

fn object(properties: Vec<(String, Json)>, required: Option<Vec<&str>>) -> (r: Json)
    ensures
        r@ == object_schema(
            view_fields(properties@),
            match required {
                Some(names) => Some(names@.map_values(|n: &str| n@)),
                None => None,
            },
        ),
{
    let ghost props = view_fields(properties@);
    let ghost req = match &required {
        Some(names) => Some(names@.map_values(|n: &str| n@)),
        None => None,
    };
    let mut fields: Vec<(String, Json)> = Vec::new();
    fields.push(("properties".to_owned(), Json::Object(properties)));
    if let Some(names) = required {
        let mut items: Vec<Json> = Vec::new();
        let mut i: usize = 0;
        while i < names.len()
            invariant
                i <= names@.len(),
                items@.len() == i,
                forall|j: int| 0 <= j < i ==> (#[trigger] items@[j])@ == JsonV::Str(names@[j]@),
            decreases names@.len() - i,
        {
            items.push(string_value(names[i]));
            i = i + 1;
        }
        proof {
            lemma_view_items(items@);
            assert(view_items(items@) =~= names@.map_values(|n: &str| n@).map_values(
                |n: Seq<char>| JsonV::Str(n),
            ));
        }
        fields.push(("required".to_owned(), Json::Array(items)));
    }
    fields.push(("type".to_owned(), string_value("object")));
    proof {
        lemma_view_fields(fields@);
        assert(view_fields(fields@) =~= match object_schema(props, req) {
            JsonV::Object(f) => f,
            _ => Seq::empty(),
        });
    }
    Json::Object(fields)
}

/// The function-calling schema of one tool.
pub fn function_schema(name: &str, description: &str, parameters: Json) -> (r: Json)
    ensures
        r@ == function_schema_value(name@, description@, parameters@),
{
    let mut inner: Vec<(String, Json)> = Vec::new();
    inner.push(("description".to_owned(), string_value(description)));
    inner.push(("name".to_owned(), string_value(name)));
    inner.push(("parameters".to_owned(), parameters));
    let mut outer: Vec<(String, Json)> = Vec::new();
    outer.push(("function".to_owned(), Json::Object(inner)));
    outer.push(("type".to_owned(), string_value("function")));
    proof {
        lemma_view_fields(inner@);
        lemma_view_fields(outer@);
        assert(view_fields(inner@) =~= seq![
            ("description"@, JsonV::Str(description@)),
            ("name"@, JsonV::Str(name@)),
            ("parameters"@, parameters@),
        ]);
        assert(view_fields(outer@) =~= match function_schema_value(name@, description@, parameters@) {
            JsonV::Object(f) => f,
            _ => Seq::empty(),
        });
    }
    Json::Object(outer)
}

/// Parameters of a tool that takes one free-text `query`.
pub fn text_query(description: &str) -> (r: Json)
    ensures
        r@ == object_schema(seq![("query"@, typed_property("string"@, description@))], None),
{
    let mut props: Vec<(String, Json)> = Vec::new();
    props.push(("query".to_owned(), typed("string", description)));
    proof {
        lemma_view_fields(props@);
        assert(view_fields(props@) =~= seq![("query"@, typed_property("string"@, description@))]);
    }
    object(props, None)
}

/// Parameters of a tool that takes nothing.
pub fn empty_object() -> (r: Json)
    ensures
        r@ == object_schema(Seq::empty(), None),
{
    let props: Vec<(String, Json)> = Vec::new();
    proof {
        lemma_view_fields(props@);
        assert(view_fields(props@) =~= Seq::<(Seq<char>, JsonV)>::empty());
    }
    object(props, None)
}

/// Parameters of `read`: a workspace `path`.
pub fn read_schema() -> (r: Json)
    ensures
        r@ == object_schema(
            seq![("path"@, typed_property("string"@, "工作区内的相对或绝对路径"@))],
            Some(seq!["path"@]),
        ),
{
    let mut props: Vec<(String, Json)> = Vec::new();
    props.push(("path".to_owned(), typed("string", "工作区内的相对或绝对路径")));
    let mut required: Vec<&str> = Vec::new();
    required.push("path");
    proof {
        lemma_view_fields(props@);
        assert(view_fields(props@) =~= seq![("path"@, typed_property("string"@, "工作区内的相对或绝对路径"@))]);
        assert(required@.map_values(|n: &str| n@) =~= seq!["path"@]);
    }
    object(props, Some(required))
}

/// Parameters of `write`: a workspace `path` and the full `content`.
pub fn write_schema() -> (r: Json)
    ensures
        r@ == object_schema(
            seq![
                ("content"@, typed_property("string"@, "要写入的全文"@)),
                ("path"@, typed_property("string"@, "工作区内的相对或绝对路径"@)),
            ],
            Some(seq!["path"@, "content"@]),
        ),
{
    let mut props: Vec<(String, Json)> = Vec::new();
    props.push(("content".to_owned(), typed("string", "要写入的全文")));
    props.push(("path".to_owned(), typed("string", "工作区内的相对或绝对路径")));
    let mut required: Vec<&str> = Vec::new();
    required.push("path");
    required.push("content");
    proof {
        lemma_view_fields(props@);
        assert(view_fields(props@) =~= seq![
            ("content"@, typed_property("string"@, "要写入的全文"@)),
            ("path"@, typed_property("string"@, "工作区内的相对或绝对路径"@)),
        ]);
        assert(required@.map_values(|n: &str| n@) =~= seq!["path"@, "content"@]);
    }
    object(props, Some(required))
}

/// Parameters of `edit`: a workspace `path`, the `old` fragment and its `new` text.
pub fn edit_schema() -> (r: Json)
    ensures
        r@ == object_schema(
            seq![
                ("new"@, typed_property("string"@, "替换后的文本"@)),
                ("old"@, typed_property("string"@, "要被替换的原文片段"@)),
                ("path"@, typed_property("string"@, "工作区内的相对或绝对路径"@)),
            ],
            Some(seq!["path"@, "old"@, "new"@]),
        ),
{
    let mut props: Vec<(String, Json)> = Vec::new();
    props.push(("new".to_owned(), typed("string", "替换后的文本")));
    props.push(("old".to_owned(), typed("string", "要被替换的原文片段")));
    props.push(("path".to_owned(), typed("string", "工作区内的相对或绝对路径")));
    let mut required: Vec<&str> = Vec::new();
    required.push("path");
    required.push("old");
    required.push("new");
    proof {
        lemma_view_fields(props@);
        assert(view_fields(props@) =~= seq![
            ("new"@, typed_property("string"@, "替换后的文本"@)),
            ("old"@, typed_property("string"@, "要被替换的原文片段"@)),
            ("path"@, typed_property("string"@, "工作区内的相对或绝对路径"@)),
        ]);
        assert(required@.map_values(|n: &str| n@) =~= seq!["path"@, "old"@, "new"@]);
    }
    object(props, Some(required))
}

/// Parameters of `bash`: the `command`, and optionally a `cwd` in the workspace.
pub fn bash_schema() -> (r: Json)
    ensures
        r@ == object_schema(
            seq![
                ("command"@, typed_property("string"@, "要执行的 shell 命令"@)),
                ("cwd"@, typed_property("string"@, "可选，工作区内的起始目录"@)),
            ],
            Some(seq!["command"@]),
        ),
{
    let mut props: Vec<(String, Json)> = Vec::new();
    props.push(("command".to_owned(), typed("string", "要执行的 shell 命令")));
    props.push(("cwd".to_owned(), typed("string", "可选，工作区内的起始目录")));
    let mut required: Vec<&str> = Vec::new();
    required.push("command");
    proof {
        lemma_view_fields(props@);
        assert(view_fields(props@) =~= seq![
            ("command"@, typed_property("string"@, "要执行的 shell 命令"@)),
            ("cwd"@, typed_property("string"@, "可选，工作区内的起始目录"@)),
        ]);
        assert(required@.map_values(|n: &str| n@) =~= seq!["command"@]);
    }
    object(props, Some(required))
}

/// `{"type": "array", "items": {"type": "string"}, "description": description}`
/// (keys in map order).
pub open spec fn string_list_property(description: Seq<char>) -> JsonV {
    JsonV::Object(
        seq![
            ("description"@, JsonV::Str(description)),
            ("items"@, JsonV::Object(seq![("type"@, JsonV::Str("string"@))])),
            ("type"@, JsonV::Str("array"@)),
        ],
    )
}

fn string_list(description: &str) -> (r: Json)
    ensures
        r@ == string_list_property(description@),
{
    let mut item: Vec<(String, Json)> = Vec::new();
    item.push(("type".to_owned(), string_value("string")));
    let mut fields: Vec<(String, Json)> = Vec::new();
    fields.push(("description".to_owned(), string_value(description)));
    proof {
        lemma_view_fields(item@);
        assert(view_fields(item@) =~= seq![("type"@, JsonV::Str("string"@))]);
    }
    fields.push(("items".to_owned(), Json::Object(item)));
    fields.push(("type".to_owned(), string_value("array")));
    proof {
        lemma_view_fields(fields@);
        assert(view_fields(fields@) =~= seq![
            ("description"@, JsonV::Str(description@)),
            ("items"@, JsonV::Object(seq![("type"@, JsonV::Str("string"@))])),
            ("type"@, JsonV::Str("array"@)),
        ]);
    }
    Json::Object(fields)
}

/// Parameters of `define_script`: the plugin `id` and its JavaScript
/// `source`, and optionally the capabilities to `grant` and its `role`.
pub fn define_script_schema() -> (r: Json)
    ensures
        r@ == object_schema(
            seq![
                ("grant"@, string_list_property("可选，授予的 capability 名，如 markdown"@)),
                ("id"@, typed_property("string"@, "插件 id，也是文件名 stem"@)),
                ("role"@, typed_property("string"@, "可选，插件说明"@)),
                ("source"@, typed_property("string"@, "完整 JavaScript 源码（含 load/unload）"@)),
            ],
            Some(seq!["id"@, "source"@]),
        ),
{
    let mut props: Vec<(String, Json)> = Vec::new();
    props.push(("grant".to_owned(), string_list("可选，授予的 capability 名，如 markdown")));
    props.push(("id".to_owned(), typed("string", "插件 id，也是文件名 stem")));
    props.push(("role".to_owned(), typed("string", "可选，插件说明")));
    props.push(("source".to_owned(), typed("string", "完整 JavaScript 源码（含 load/unload）")));
    let mut required: Vec<&str> = Vec::new();
    required.push("id");
    required.push("source");
    proof {
        lemma_view_fields(props@);
        assert(view_fields(props@) =~= seq![
            ("grant"@, string_list_property("可选，授予的 capability 名，如 markdown"@)),
            ("id"@, typed_property("string"@, "插件 id，也是文件名 stem"@)),
            ("role"@, typed_property("string"@, "可选，插件说明"@)),
            ("source"@, typed_property("string"@, "完整 JavaScript 源码（含 load/unload）"@)),
        ]);
        assert(required@.map_values(|n: &str| n@) =~= seq!["id"@, "source"@]);
    }
    object(props, Some(required))
}

/// Parameters of tools that take one row `id`.
pub fn id_only_schema() -> (r: Json)
    ensures
        r@ == object_schema(
            seq![("id"@, typed_property("string"@, "配置行 id"@))],
            Some(seq!["id"@]),
        ),
{
    let mut props: Vec<(String, Json)> = Vec::new();
    props.push(("id".to_owned(), typed("string", "配置行 id")));
    let mut required: Vec<&str> = Vec::new();
    required.push("id");
    proof {
        lemma_view_fields(props@);
        assert(view_fields(props@) =~= seq![("id"@, typed_property("string"@, "配置行 id"@))]);
        assert(required@.map_values(|n: &str| n@) =~= seq!["id"@]);
    }
    object(props, Some(required))
}

/// Parameters of `save_patch`: an optional output `path`.
pub fn save_patch_schema() -> (r: Json)
    ensures
        r@ == object_schema(
            seq![("path"@, typed_property("string"@, "可选，输出路径，默认 cordis.patch.yml"@))],
            None,
        ),
{
    let mut props: Vec<(String, Json)> = Vec::new();
    props.push(("path".to_owned(), typed("string", "可选，输出路径，默认 cordis.patch.yml")));
    proof {
        lemma_view_fields(props@);
        assert(view_fields(props@) =~= seq![
            ("path"@, typed_property("string"@, "可选，输出路径，默认 cordis.patch.yml"@)),
        ]);
    }
    object(props, None)
}

/// Parameters of `inspect_config`: whether to include each row's config.
pub fn inspect_config_schema() -> (r: Json)
    ensures
        r@ == object_schema(
            seq![("include_config"@, typed_property("boolean"@, "是否包含每行的 config 字段"@))],
            None,
        ),
{
    let mut props: Vec<(String, Json)> = Vec::new();
    props.push(("include_config".to_owned(), typed("boolean", "是否包含每行的 config 字段")));
    proof {
        lemma_view_fields(props@);
        assert(view_fields(props@) =~= seq![
            ("include_config"@, typed_property("boolean"@, "是否包含每行的 config 字段"@)),
        ]);
    }
    object(props, None)
}

} // verus!
