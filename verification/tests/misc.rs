use deepseek_code_agent::commands::{
    api_key_status, greet, require_api_key, stored_api_key, CreateProjectPayload, KeyLookup,
};
use deepseek_code_agent::llm::{build_tools, is_stream_end, StreamDelta, ToolCallDelta};
use deepseek_code_agent::models::ProjectType;
use deepseek_code_agent::project::{sanitize_name, ProjectManager};
use deepseek_code_agent::templates::{template_plan, DESKTOP_README_MD, WEB_CARGO_TOML};

#[test]
fn greeting() {
    assert_eq!(greet("World"), "Hello, World! You've been greeted from Rust!");
}

#[test]
fn api_key_lookup() {
    assert_eq!(stored_api_key(KeyLookup::Found("sk".to_string())), Ok(Some("sk".to_string())));
    assert_eq!(stored_api_key(KeyLookup::Found(String::new())), Ok(None));
    assert_eq!(stored_api_key(KeyLookup::NoEntry), Ok(None));
    assert_eq!(stored_api_key(KeyLookup::Failed("locked".to_string())), Err("读取钥匙串失败: locked".to_string()));
    assert!(api_key_status(Ok(Some("k".to_string()))).unwrap().configured);
    assert!(!api_key_status(Ok(None)).unwrap().configured);
    assert_eq!(api_key_status(Err("x".to_string())).unwrap_err(), "读取 API Key 失败: x");
}

#[test]
fn payload_becomes_request() {
    let p = CreateProjectPayload { name: "n".to_string(), description: None, project_type: ProjectType::Website };
    let r = p.into_request();
    assert_eq!(r.name, "n");
    assert_eq!(r.project_type, ProjectType::Website);
}

#[test]
fn project_names_are_sanitized() {
    assert_eq!(sanitize_name("My App!"), "my_app_");
    assert_eq!(sanitize_name("待办-Tool_2"), "待办-tool_2");
    assert_eq!(sanitize_name("a/b c"), "a_b_c");
    assert_eq!(sanitize_name("中/"), "中_");
}

#[test]
fn project_directories() {
    let m = ProjectManager::new("/home/u/DeepSeekCodeAgentProjects");
    assert_eq!(m.dir_name("My App", ProjectType::Desktop), "my_app_desktop");
    assert_eq!(m.project_dir("Shop", ProjectType::Website), "/home/u/DeepSeekCodeAgentProjects/shop_website");
    assert!(m.should_delete("/home/u/DeepSeekCodeAgentProjects/shop_website", true));
    assert!(!m.should_delete("/home/u/DeepSeekCodeAgentProjects/shop_website", false));
    assert!(!m.should_delete("/home/u/Documents", true));
    assert!(!m.should_delete("/home/u/DeepSeekCodeAgentProjects/../Documents", true));
    assert!(m.should_delete("/home/u/DeepSeekCodeAgentProjects/a/../b", true));
    assert!(!ProjectManager::may_delete(true, false));
    assert_eq!(m.base_dir(), "/home/u/DeepSeekCodeAgentProjects");
}

#[test]
fn tools_offered_to_the_model() {
    let tools = build_tools();
    let names: Vec<&str> = tools.iter().map(|t| t.function.name.as_str()).collect();
    assert_eq!(names, vec!["read_file", "write_file", "edit_file", "list_directory", "execute_command", "ask_user"]);
    for t in &tools {
        assert_eq!(t.tool_type, "function");
        for r in &t.function.parameters.required {
            assert!(t.function.parameters.properties.iter().any(|p| &p.name == r));
        }
    }
    let ask = &tools[5].function.parameters.properties[1];
    assert_eq!((ask.name.as_str(), ask.kind.as_str(), ask.item_kind.as_deref()), ("options", "array", Some("string")));
}

fn delta(content: &str, calls: Vec<(u32, &str, &str, &str)>, finish: Option<&str>) -> StreamDelta {
    StreamDelta {
        content: content.to_string(),
        tool_calls: calls
            .into_iter()
            .map(|(index, id, name, arguments)| ToolCallDelta {
                index,
                id: id.to_string(),
                name: name.to_string(),
                arguments: arguments.to_string(),
            })
            .collect(),
        finish_reason: finish.map(|s| s.to_string()),
    }
}

#[test]
fn stream_fragments_merge_by_index() {
    let mut agg = StreamDelta::empty();
    agg.accumulate(&delta("Hel", vec![(0, "call_", "read_", "{\"pa")], None));
    agg.accumulate(&delta("lo", vec![(1, "c2", "ls", "{}"), (0, "1", "file", "th\":1}")], None));
    agg.accumulate(&delta("", vec![], Some("tool_calls")));
    agg.accumulate(&delta("!", vec![], None));
    assert_eq!(agg.content, "Hello!");
    assert_eq!(agg.tool_calls.len(), 2);
    assert_eq!(agg.tool_calls[0].id, "call_1");
    assert_eq!(agg.tool_calls[0].name, "read_file");
    assert_eq!(agg.tool_calls[0].arguments, "{\"path\":1}");
    assert_eq!(agg.tool_calls[1].index, 1);
    assert_eq!(agg.finish_reason.as_deref(), Some("tool_calls"));
}

#[test]
fn stream_end_marker() {
    assert!(is_stream_end("[DONE]"));
    assert!(!is_stream_end("[DONE] "));
    assert!(!is_stream_end("{}"));
}

#[test]
fn project_templates() {
    let d = template_plan(ProjectType::Desktop);
    assert_eq!(d.dirs, vec!["".to_string()]);
    assert_eq!(d.files.len(), 1);
    assert_eq!(d.files[0].path, "README.md");
    assert_eq!(d.files[0].content, DESKTOP_README_MD);
    assert!(DESKTOP_README_MD.starts_with("# Tauri 桌面应用"));
    let w = template_plan(ProjectType::Website);
    assert_eq!(w.dirs, vec!["".to_string(), "src".to_string(), "frontend/src".to_string()]);
    let paths: Vec<&str> = w.files.iter().map(|f| f.path.as_str()).collect();
    assert_eq!(
        paths,
        vec![
            "README.md",
            "Cargo.toml",
            "src/main.rs",
            "frontend/package.json",
            "frontend/vite.config.js",
            "frontend/index.html",
            "frontend/src/main.js",
            "frontend/src/App.vue"
        ]
    );
    assert_eq!(w.files[1].content, WEB_CARGO_TOML);
}

#[test]
fn requests_need_an_api_key() {
    assert_eq!(require_api_key(Some("sk-1".to_string())), Ok("sk-1".to_string()));
    assert_eq!(require_api_key(None), Err("未配置 DeepSeek API Key".to_string()));
}
