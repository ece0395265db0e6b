use spatiotemporal_agent::approval::ApprovalQueue;
use spatiotemporal_agent::creation::{
    Definition, PatchRun, SavePlan, plan_save, config_listing, patch_run_request, plan_definition, plan_patch_run, plugins_listing,
    propose_definition, tools_listing, undefine_request,
};
use spatiotemporal_agent::error::Error;
use spatiotemporal_agent::json::{Json, to_json_text};
use spatiotemporal_agent::patch::{
    Entry, Patch, layer_yaml, patch_to_value, render_layer_stack, render_patches, stored_layers,
};
use spatiotemporal_agent::roster::PluginInfo;
use spatiotemporal_agent::toolbox::ToolInfo;

fn component_text(e: Error) -> String {
    match e {
        Error::Component(m) => m,
        other => panic!("unexpected {other:?}"),
    }
}

#[test]
fn a_script_definition_keeps_its_source() {
    let args = "{\"id\": \"echo\", \"source\": \"line1\\nline2\\n\", \"grant\": [\"markdown\"]}";
    match plan_definition(args).unwrap() {
        Definition::Script { id, file, source, preview, lines, config } => {
            assert_eq!(id, "echo");
            assert_eq!(file, "plugins/generated/echo.js");
            assert_eq!(source, "line1\nline2\n");
            assert_eq!(preview, source);
            assert_eq!(lines, 2);
            assert_eq!(
                to_json_text(&config),
                "{\"file\":\"plugins/generated/echo.js\",\"grant\":[\"markdown\"],\"role\":\"模型生成的插件\"}"
            );
        }
        _ => panic!("expected a script"),
    }
    let long = format!("{{\"id\": \"big\", \"source\": \"{}\"}}", "a".repeat(900));
    match plan_definition(&long).unwrap() {
        Definition::Script { preview, .. } => assert_eq!(preview.chars().count(), 800),
        _ => panic!("expected a script"),
    }
}

#[test]
fn definitions_need_their_fields() {
    assert_eq!(component_text(plan_definition("{}").err().unwrap()), "缺少字段 `id`");
    assert_eq!(component_text(plan_definition("{\"id\": \"x\"}").err().unwrap()), "缺少字段 `source`");
    assert_eq!(
        component_text(plan_definition("{\"id\": \"x\", \"name\": \"wasm\"}").err().unwrap()),
        "wasm 插件需要 guest 字段"
    );
}

#[test]
fn wasm_and_other_plugins() {
    match plan_definition("{\"id\": \"o\", \"name\": \"wasm\", \"config\": {\"guest\": \"outline\"}, \"role\": \"大纲\"}").unwrap() {
        Definition::Plugin { id, name, config } => {
            assert_eq!((id.as_str(), name.as_str()), ("o", "wasm"));
            assert_eq!(to_json_text(&config), "{\"grant\":[],\"guest\":\"outline\",\"role\":\"大纲\"}");
        }
        _ => panic!("expected a plugin"),
    }
    match plan_definition("{\"id\": \"w\", \"name\": \"web\"}").unwrap() {
        Definition::Plugin { config, .. } => assert_eq!(to_json_text(&config), "{}"),
        _ => panic!("expected a plugin"),
    }
}

#[test]
fn proposing_queues_the_install_layer() {
    let mut queue = ApprovalQueue::new("/ws".into());
    let def = plan_definition("{\"id\": \"echo\", \"source\": \"x\"}").unwrap();
    let message = propose_definition(&mut queue, "s1".into(), def).unwrap();
    assert_eq!(
        message,
        "已提交安装请求 `echo` → plugins/generated/echo.js。请用户在浏览器界面点击「批准」后才会热装。（1 行）"
    );
    let pending = queue.approve(Some("echo")).unwrap();
    assert_eq!(pending.cleanup_path.as_deref(), Some("plugins/generated/echo.js"));
    assert_eq!(pending.install.source_lines, Some(1));
    assert_eq!(pending.layer.len(), 2);
    assert_eq!(to_json_text(&patch_to_value(&pending.layer[0])), "{\"disabled\":true,\"id\":\"echo\"}");
    assert!(to_json_text(&patch_to_value(&pending.layer[1])).contains("\"name\":\"script\""));

    let def = plan_definition("{\"id\": \"w\", \"name\": \"web\", \"config\": {\"port\": 1}}").unwrap();
    let message = propose_definition(&mut queue, "s1".into(), def).unwrap();
    assert_eq!(message, "已提交安装请求 `w` → web (w)。请用户在浏览器界面点击「批准」后才会热装。");
    let pending = queue.pending().unwrap();
    assert!(pending.preview.contains("\"port\": 1"));
    assert!(pending.preview.contains('\n'));
}

#[test]
fn patch_runs_follow_the_policy() {
    let (yaml, id) = patch_run_request("{\"patch\": \"- id: a\\n  disabled: true\\n\"}").unwrap();
    assert_eq!(id, "patch-run");
    assert_eq!(yaml, "- id: a\n  disabled: true\n");
    assert_eq!(component_text(patch_run_request("{}").err().unwrap()), "缺少字段 `patch`");

    let layer = vec![Patch { id: Some("a".into()), config: None, disabled: Some(true), insert: None, name: None }];
    let mut queue = ApprovalQueue::new("/ws".into());
    match plan_patch_run(&mut queue, "s".into(), id.clone(), &yaml, layer).unwrap() {
        PatchRun::Proposed(m) => assert_eq!(m, "已提交 patch 试跑请求。请用户在浏览器界面点击「批准」后才会热装。"),
        PatchRun::Apply(_) => panic!("patch needs approval by default"),
    }
    let p = queue.pending().unwrap();
    assert_eq!(p.summary, "试跑 patch（1 条）");
    assert_eq!(p.source_lines, Some(2));

    let mut open = ApprovalQueue::new("/ws".into());
    let mut policy = open.policy();
    policy.require = vec!["script".into()];
    open.set_policy(policy);
    let layer = vec![Patch { id: Some("b".into()), config: None, disabled: Some(false), insert: None, name: None }];
    assert!(matches!(plan_patch_run(&mut open, "s".into(), id, &yaml, layer).unwrap(), PatchRun::Apply(l) if l.len() == 1));
    assert!(open.pending().is_none());
}

#[test]
fn undefining_switches_a_row_off() {
    let (id, layer) = undefine_request("{\"id\": \"web\"}").unwrap();
    assert_eq!(id, "web");
    assert_eq!(to_json_text(&patch_to_value(&layer[0])), "{\"disabled\":true,\"id\":\"web\"}");
}

#[test]
fn listings_are_indented_json() {
    let plugins = vec![PluginInfo { name: "doc".into(), substrate: "native".into(), role: "文档".into() }];
    assert_eq!(plugins_listing(&plugins), "[\n  {\n    \"name\": \"doc\",\n    \"role\": \"文档\",\n    \"substrate\": \"native\"\n  }\n]");
    let tools: Vec<ToolInfo> = Vec::new();
    assert_eq!(tools_listing(&tools), "[]");
    let entries = vec![Entry::new("web", "web").with_config(Json::Bool(true))];
    let rows = config_listing("{\"include_config\": true}", &entries).unwrap();
    assert!(rows.contains("\"config\": true"));
    let rows = config_listing("", &entries).unwrap();
    assert!(!rows.contains("config"));
    assert!(rows.contains("\"disabled\": false"));
}

#[test]
fn layers_render_as_json_and_yaml() {
    let layer = vec![
        Patch { id: Some("llm".into()), config: None, disabled: Some(true), insert: None, name: None },
        Patch {
            id: None,
            config: None,
            disabled: None,
            insert: Some(vec![Entry::new("echo", "script").with_config(Json::Object(vec![
                ("file".into(), Json::Str("plugins/echo.js".into())),
                ("grant".into(), Json::Array(Vec::new())),
            ]))]),
            name: None,
        },
    ];
    let yaml = render_patches(&layer).unwrap();
    assert!(yaml.contains("id: llm"));
    assert!(yaml.contains("disabled: true"));
    assert!(yaml.contains("name: script"));
    let json = render_layer_stack(&vec![layer]);
    assert!(json.starts_with("[\n  [\n"));
    assert!(json.contains("\"file\": \"plugins/echo.js\""));
}

fn disable(id: &str) -> Patch {
    Patch { id: Some(id.to_owned()), config: None, disabled: Some(true), insert: None, name: None }
}

#[test]
fn saving_writes_every_runtime_patch() {
    match plan_save("", "/p", vec![vec![disable("a")], vec![], vec![disable("b")]]).unwrap() {
        SavePlan::Write { path, content, message } => {
            assert_eq!(path, "/p/cordis.patch.yml");
            assert!(content.starts_with("# 由 creation-tools 自动生成\n"));
            assert_eq!(&content["# 由 creation-tools 自动生成\n".len()..], render_patches(&vec![disable("a"), disable("b")]).unwrap());
            assert_eq!(message, "已写入 /p/cordis.patch.yml（2 条 patch）");
        },
        SavePlan::Nothing(text) => panic!("unexpected {text}"),
    }
    match plan_save("{\"path\":\"/tmp/x.yml\"}", "/p", vec![vec![disable("a")]]).unwrap() {
        SavePlan::Write { path, message, .. } => {
            assert_eq!(path, "/tmp/x.yml");
            assert_eq!(message, "已写入 /tmp/x.yml（1 条 patch）");
        },
        SavePlan::Nothing(text) => panic!("unexpected {text}"),
    }
    match plan_save("{}", "/p", vec![vec![]]).unwrap() {
        SavePlan::Nothing(text) => assert_eq!(text, "没有运行时动态 patch 可保存（bootstrap / 文件层不含在内）。"),
        SavePlan::Write { .. } => panic!("nothing should be written"),
    }
    assert!(component_text(plan_save("{oops", "/p", vec![]).err().unwrap()).starts_with("参数不是合法 JSON："));
}

#[test]
fn stored_layer_stacks_are_read_back() {
    assert!(stored_layers("").unwrap().is_empty());
    assert!(stored_layers("  \n").unwrap().is_empty());
    let stack = vec![vec![disable("a")], vec![], vec![disable("b"), disable("c")]];
    let layers = stored_layers(&render_layer_stack(&stack)).unwrap();
    assert_eq!(layers.len(), 3);
    assert_eq!(layers[1].len(), 0);
    assert_eq!(to_json_text(&layers[2][1]), to_json_text(&patch_to_value(&disable("c"))));
    let yaml = layer_yaml(layers.into_iter().next().unwrap()).unwrap();
    assert_eq!(yaml, render_patches(&vec![disable("a")]).unwrap());
    for bad in ["{", "[1]", "{\"a\":[]}"] {
        assert!(component_text(stored_layers(bad).err().unwrap()).starts_with("session patch JSON 解析失败："));
    }
}

#[test]
fn layer_stack_round_trip() {
    let patches = vec![
        Patch { id: Some("llm".into()), config: None, disabled: Some(true), insert: None, name: None },
        Patch {
            id: None,
            config: None,
            disabled: None,
            insert: Some(vec![Entry {
                id: "echo".into(),
                name: "script".into(),
                disabled: false,
                config: Json::Object(vec![
                    ("file".into(), Json::Str("plugins/echo.js".into())),
                    ("grant".into(), Json::Array(Vec::new())),
                ]),
            }]),
            name: None,
        },
    ];
    let layers = vec![patches];
    let json = render_layer_stack(&layers);
    let parsed = stored_layers(&json).expect("parse");
    assert_eq!(parsed.len(), 1);
    assert_eq!(parsed[0].len(), 2);
    let yaml = layer_yaml(parsed.into_iter().next().unwrap()).expect("yaml");
    assert_eq!(yaml, render_patches(&layers[0]).unwrap());
}
