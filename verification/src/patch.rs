//! Configuration rows and the patches layered over them, and their JSON form.
use vstd::prelude::*;

use crate::error::Error;
use crate::json::{Json, JsonV, json_pretty_text, lemma_view_fields, lemma_view_items, to_pretty_text, view_fields, view_items};
use crate::text::{trim, trimmed};

verus! {

/// One configuration row: a component `name` from the registry, mounted under `id`.
pub struct Entry {
    pub id: String,
    pub name: String,
    pub disabled: bool,
    pub config: Json,
}

/// One patch over a list of rows: either an edit of the row `id` (its
/// `config` replaced, `disabled` switched, `name` asserted) or rows to `insert`.
pub struct Patch {
    pub id: Option<String>,
    pub config: Option<Json>,
    pub disabled: Option<bool>,
    pub insert: Option<Vec<Entry>>,
    pub name: Option<String>,
}

impl Entry {
    /// A row with an empty config.
    pub fn new(id: &str, name: &str) -> (r: Entry)
        ensures
            r.id@ == id@,
            r.name@ == name@,
            !r.disabled,
            r.config@ == JsonV::Null,
    {
        Entry { id: id.to_owned(), name: name.to_owned(), disabled: false, config: Json::Null }
    }

    /// The row with `config` as its config.
    pub fn with_config(self, config: Json) -> (r: Entry)
        ensures
            r.id == self.id,
            r.name == self.name,
            r.disabled == self.disabled,
            r.config == config,
    {
        Entry { config, ..self }
    }
}

/// The JSON object a row is written as: `id` and `name`, `disabled` only when
/// set, `config` only when not null.
pub open spec fn entry_value(e: Entry) -> JsonV {
    JsonV::Object(
        seq![("id"@, JsonV::Str(e.id@)), ("name"@, JsonV::Str(e.name@))]
            + (if e.disabled { seq![("disabled"@, JsonV::Bool(true))] } else { Seq::empty() })
            + (if e.config@ != JsonV::Null { seq![("config"@, e.config@)] } else { Seq::empty() }),
    )
}

/// The JSON object a patch is written as: each field only when present, in
/// the order `id`, `config`, `disabled`, `name`, `insert`.
pub open spec fn patch_value(p: Patch) -> JsonV {
    JsonV::Object(
        (match p.id { Some(id) => seq![("id"@, JsonV::Str(id@))], None => Seq::empty() })
            + (match p.config { Some(c) => seq![("config"@, c@)], None => Seq::empty() })
            + (match p.disabled { Some(d) => seq![("disabled"@, JsonV::Bool(d))], None => Seq::empty() })
            + (match p.name { Some(n) => seq![("name"@, JsonV::Str(n@))], None => Seq::empty() })
            + (match p.insert {
                Some(rows) => seq![("insert"@, JsonV::Array(rows@.map_values(|e: Entry| entry_value(e))))],
                None => Seq::empty(),
            }),
    )
}

/// Writes a row as JSON.
pub fn entry_to_value(entry: &Entry) -> (r: Json)
    ensures
        r@ == entry_value(*entry),
{
    let mut fields: Vec<(String, Json)> = Vec::new();
    fields.push(("id".to_owned(), Json::Str(entry.id.clone())));
    fields.push(("name".to_owned(), Json::Str(entry.name.clone())));
    if entry.disabled {
        fields.push(("disabled".to_owned(), Json::Bool(true)));
    }
    let null = match &entry.config {
        Json::Null => true,
        _ => false,
    };
    if !null {
        fields.push(("config".to_owned(), entry.config.deep_clone()));
    }
    proof {
        lemma_view_fields(fields@);
        assert(view_fields(fields@) =~= match entry_value(*entry) {
            JsonV::Object(f) => f,
            _ => Seq::empty(),
        });
    }
    Json::Object(fields)
}

/// Writes a patch as JSON.
pub fn patch_to_value(patch: &Patch) -> (r: Json)
    ensures
        r@ == patch_value(*patch),
{
    let mut fields: Vec<(String, Json)> = Vec::new();
    if let Some(id) = &patch.id {
        fields.push(("id".to_owned(), Json::Str(id.clone())));
    }
    if let Some(config) = &patch.config {
        fields.push(("config".to_owned(), config.deep_clone()));
    }
    if let Some(disabled) = patch.disabled {
        fields.push(("disabled".to_owned(), Json::Bool(disabled)));
    }
    if let Some(name) = &patch.name {
        fields.push(("name".to_owned(), Json::Str(name.clone())));
    }
    if let Some(rows) = &patch.insert {
        let mut items: Vec<Json> = Vec::new();
        let mut i: usize = 0;
        while i < rows.len()
            invariant
                i <= rows@.len(),
                items@.len() == i,
                forall|j: int| 0 <= j < i ==> (#[trigger] items@[j])@ == entry_value(rows@[j]),
            decreases rows@.len() - i,
        {
            items.push(entry_to_value(&rows[i]));
            i = i + 1;
        }
        proof {
            lemma_view_items(items@);
            assert(view_items(items@) =~= rows@.map_values(|e: Entry| entry_value(e)));
        }
        fields.push(("insert".to_owned(), Json::Array(items)));
    }
    proof {
        lemma_view_fields(fields@);
        assert(view_fields(fields@) =~= match patch_value(*patch) {
            JsonV::Object(f) => f,
            _ => Seq::empty(),
        });
    }
    Json::Object(fields)
}

/// The JSON form of a layer: its patches, in order.
pub open spec fn layer_value(layer: Seq<Patch>) -> JsonV {
    JsonV::Array(layer.map_values(|p: Patch| patch_value(p)))
}

fn layer_to_value(layer: &Vec<Patch>) -> (r: Json)
    ensures
        r@ == layer_value(layer@),
{
    let mut items: Vec<Json> = Vec::new();
    let mut i: usize = 0;
    while i < layer.len()
        invariant
            i <= layer@.len(),
            items@.len() == i,
            forall|j: int| 0 <= j < i ==> (#[trigger] items@[j])@ == patch_value(layer@[j]),
        decreases layer@.len() - i,
    {
        items.push(patch_to_value(&layer[i]));
        i = i + 1;
    }
    proof {
        lemma_view_items(items@);
        assert(view_items(items@) =~= layer@.map_values(|p: Patch| patch_value(p)));
    }
    Json::Array(items)
}

/// Writes a session's stack of patch layers as indented JSON, one array per layer.
pub fn render_layer_stack(layers: &Vec<Vec<Patch>>) -> (r: String)
    ensures
        r@ == json_pretty_text(JsonV::Array(layers@.map_values(|l: Vec<Patch>| layer_value(l@)))),
{
    let mut items: Vec<Json> = Vec::new();
    let mut i: usize = 0;
    while i < layers.len()
        invariant
            i <= layers@.len(),
            items@.len() == i,
            forall|j: int| 0 <= j < i ==> (#[trigger] items@[j])@ == layer_value(layers@[j]@),
        decreases layers@.len() - i,
    {
        items.push(layer_to_value(&layers[i]));
        i = i + 1;
    }
    proof {
        lemma_view_items(items@);
        assert(view_items(items@) =~= layers@.map_values(|l: Vec<Patch>| layer_value(l@)));
    }
    to_pretty_text(&Json::Array(items))
}

/// What `serde_yaml_ng::to_string` makes of a value: its YAML text, or the
/// text of the serializer's error.
pub uninterp spec fn yaml_render(value: JsonV) -> Result<Seq<char>, Seq<char>>;

/// `serde_yaml_ng::to_string` of a value, named by `yaml_render`.
#[verifier::external_body]
fn to_yaml_text(value: &Json) -> (r: Result<String, String>)
    ensures
        match r {
            Ok(t) => yaml_render(value@) == Ok::<Seq<char>, Seq<char>>(t@),
            Err(e) => yaml_render(value@) == Err::<Seq<char>, Seq<char>>(e@),
        },
{
    serde_yaml_ng::to_string(&crate::json::to_serde(value)).map_err(|e| e.to_string())
}

/// Writes patches as the YAML the configuration loader reads back.
pub fn render_patches(patches: &Vec<Patch>) -> (r: Result<String, Error>)
    ensures
        match r {
            Ok(t) => yaml_render(layer_value(patches@)) == Ok::<Seq<char>, Seq<char>>(t@),
            Err(e) => e is Component && exists|m: Seq<char>|
                yaml_render(layer_value(patches@)) == Err::<Seq<char>, Seq<char>>(m) && #[trigger] e.text()
                    == "patch YAML 序列化失败："@ + m,
        },
{
    let value = layer_to_value(patches);
    match to_yaml_text(&value) {
        Ok(t) => Ok(t),
        Err(m) => {
            let mut text = "patch YAML 序列化失败：".to_owned();
            text.append(m.as_str());
            Err(Error::Component(text))
        },
    }
}

/// What `serde_json::from_str::<Vec<Vec<Value>>>` makes of `text`: the
/// layers of values, or the text of the parser's error.
pub uninterp spec fn json_layers(text: Seq<char>) -> Result<Seq<Seq<JsonV>>, Seq<char>>;

/// `serde_json::from_str::<Vec<Vec<Value>>>`, named by `json_layers`.
#[verifier::external_body]
fn parse_layers(text: &str) -> (r: Result<Vec<Vec<Json>>, String>)
    ensures
        match r {
            Ok(ls) => json_layers(text@) == Ok::<Seq<Seq<JsonV>>, Seq<char>>(
                ls@.map_values(|l: Vec<Json>| view_items(l@)),
            ),
            Err(e) => json_layers(text@) == Err::<Seq<Seq<JsonV>>, Seq<char>>(e@),
        },
{
    match serde_json::from_str::<Vec<Vec<serde_json::Value>>>(text) {
        Ok(layers) => Ok(layers.iter().map(|l| l.iter().map(crate::json::from_serde).collect()).collect()),
        Err(e) => Err(e.to_string()),
    }
}

/// The layers a session's stored patch stack holds: none for blank text,
/// else the arrays of the JSON text (or the parser's complaint).
pub open spec fn stored_layers_of(text: Seq<char>) -> Result<Seq<Seq<JsonV>>, Seq<char>> {
    if trimmed(text).len() == 0 {
        Ok(Seq::empty())
    } else {
        match json_layers(text) {
            Ok(ls) => Ok(ls),
            Err(m) => Err("session patch JSON 解析失败："@ + m),
        }
    }
}

/// Reads a session's stored patch stack into its layers of raw patch values;
/// the configuration loader's patch parser reads each layer's YAML (see
/// [`layer_yaml`]).
pub fn stored_layers(text: &str) -> (r: Result<Vec<Vec<Json>>, Error>)
    ensures
        match stored_layers_of(text@) {
            Ok(ls) => r is Ok && r->Ok_0@.map_values(|l: Vec<Json>| view_items(l@)) == ls,
            Err(m) => r is Err && r->Err_0 is Component && r->Err_0.text() == m,
        },
{
    let t = trim(text);
    if t.as_str().unicode_len() == 0 {
        let r: Vec<Vec<Json>> = Vec::new();
        assert(r@.map_values(|l: Vec<Json>| view_items(l@)) =~= Seq::<Seq<JsonV>>::empty());
        return Ok(r);
    }
    match parse_layers(text) {
        Ok(ls) => Ok(ls),
        Err(m) => {
            let mut message = "session patch JSON 解析失败：".to_owned();
            message.append(m.as_str());
            Err(Error::Component(message))
        },
    }
}

/// One stored layer as YAML for the patch parser, or the writer's complaint.
pub fn layer_yaml(layer: Vec<Json>) -> (r: Result<String, Error>)
    ensures
        match yaml_render(JsonV::Array(view_items(layer@))) {
            Ok(t) => r is Ok && r->Ok_0@ == t,
            Err(m) => r is Err && r->Err_0 is Component && r->Err_0.text() == "session patch YAML 转换失败："@ + m,
        },
{
    let value = Json::Array(layer);
    match to_yaml_text(&value) {
        Ok(t) => Ok(t),
        Err(m) => {
            let mut message = "session patch YAML 转换失败：".to_owned();
            message.append(m.as_str());
            Err(Error::Component(message))
        },
    }
}

} // verus!
