use deepseek_code_agent::text::{join_strings, sort_strings, str_contains, trim_chars};
use deepseek_code_agent::tools::{
    decimal_string, edit_content, CommandRun, CommandTool, DirEntryInfo, FileOp, FileTool,
    ToolResult,
};

fn chars(s: &str) -> Vec<char> {
    s.chars().collect()
}

#[test]
fn trim_removes_unicode_whitespace_both_ends() {
    assert_eq!(trim_chars(&chars(" \t abc \n\u{3000}")), chars("abc"));
    assert_eq!(trim_chars(&chars("   ")), chars(""));
    assert_eq!(trim_chars(&chars("a b")), chars("a b"));
}

#[test]
fn contains_finds_substrings() {
    assert!(str_contains("hello world", "o w"));
    assert!(str_contains("abc", ""));
    assert!(!str_contains("abc", "abcd"));
    assert!(!str_contains("", "a"));
}

#[test]
fn join_puts_separator_between() {
    let v = vec!["a".to_string(), "b".to_string(), "c".to_string()];
    assert_eq!(join_strings(&v, ", "), "a, b, c");
    assert_eq!(join_strings(&Vec::new(), ", "), "");
    assert_eq!(join_strings(&vec!["x".to_string()], ", "), "x");
}

#[test]
fn sort_orders_like_string_sort() {
    let v: Vec<String> = ["b", "a/", "B", "中文", "a", "ab"].iter().map(|s| s.to_string()).collect();
    let mut expected = v.clone();
    expected.sort();
    assert_eq!(sort_strings(v), expected);
}

#[test]
fn edit_replaces_every_occurrence() {
    assert_eq!(edit_content("a-b-c", "-", "+").unwrap(), "a+b+c");
    assert_eq!(edit_content("aaa", "aa", "b").unwrap(), "ba");
    assert_eq!(edit_content("fn main() {}", "main", "start").unwrap(), "fn start() {}");
}

#[test]
fn edit_with_empty_pattern_inserts_everywhere() {
    assert_eq!(edit_content("ab", "", "X").unwrap(), "XaXbX");
    assert_eq!(edit_content("ab", "", "X").unwrap(), "ab".replace("", "X"));
}

#[test]
fn edit_fails_when_text_is_absent() {
    let e = edit_content("hello", "bye", "x").unwrap_err();
    assert!(!e.success);
    assert_eq!(e.output, "");
    assert_eq!(e.error.as_deref(), Some("未找到要替换的内容"));
}

#[test]
fn edit_by_itself_keeps_content() {
    assert_eq!(edit_content("abcabc", "bc", "bc").unwrap(), "abcabc");
}

#[test]
fn tool_result_constructors() {
    let s = ToolResult::success("ok".to_string());
    assert!(s.success && s.output == "ok" && s.error.is_none());
    let e = ToolResult::error("bad".to_string());
    assert!(!e.success && e.output.is_empty() && e.error.as_deref() == Some("bad"));
    let d = e.duplicate();
    assert_eq!(d.error.as_deref(), Some("bad"));
}

#[test]
fn decimal_formats_like_display() {
    for n in [0, 7, 10, 42, -1, -128, i32::MAX, i32::MIN] {
        assert_eq!(decimal_string(n), n.to_string());
    }
}

#[test]
fn command_outcome_success_prefers_stdout() {
    let tool = CommandTool::new("/p");
    let r = tool.outcome(CommandRun::Finished {
        success: true,
        code: Some(0),
        stdout: b"built\n".to_vec(),
        stderr: b"warn".to_vec(),
    });
    assert!(r.success);
    assert_eq!(r.output, "built\n");
    let r = tool.outcome(CommandRun::Finished {
        success: true,
        code: Some(0),
        stdout: Vec::new(),
        stderr: b"only stderr".to_vec(),
    });
    assert_eq!(r.output, "only stderr");
}

#[test]
fn command_outcome_failure_reports_code_and_streams() {
    let tool = CommandTool::new("/p");
    let r = tool.outcome(CommandRun::Finished {
        success: false,
        code: Some(2),
        stdout: b"out".to_vec(),
        stderr: b"err".to_vec(),
    });
    assert!(!r.success);
    assert_eq!(r.error.as_deref(), Some("命令退出码: 2\nstdout:\nout\nstderr:\nerr"));
    let r = tool.outcome(CommandRun::Finished { success: false, code: None, stdout: vec![0xff], stderr: Vec::new() });
    assert_eq!(r.error.as_deref(), Some("命令退出码: -1\nstdout:\n\u{fffd}\nstderr:\n"));
}

#[test]
fn command_outcome_missing_dir_and_spawn_failure() {
    let tool = CommandTool::new("/p");
    assert_eq!(tool.outcome(CommandRun::DirMissing).error.as_deref(), Some("项目目录不存在"));
    let r = tool.outcome(CommandRun::SpawnFailed { reason: "no shell".to_string() });
    assert_eq!(r.error.as_deref(), Some("执行命令失败: no shell"));
}

#[test]
fn resolve_path_keeps_paths_inside_project() {
    let tool = FileTool::new("/home/u/proj");
    assert_eq!(tool.join("src/main.rs"), "/home/u/proj/src/main.rs");
    assert_eq!(tool.resolve_path("src/main.rs", None).unwrap(), "/home/u/proj/src/main.rs");
    assert_eq!(
        tool.resolve_path("src/main.rs", Some("/home/u/proj/src/main.rs".to_string())).unwrap(),
        "/home/u/proj/src/main.rs"
    );
}

#[test]
fn resolve_path_refuses_paths_outside_project() {
    let tool = FileTool::new("/home/u/proj");
    let e = tool.resolve_path("/etc/passwd", None).unwrap_err();
    assert_eq!(e.error.as_deref(), Some("禁止访问项目目录外的路径"));
    let e = tool.resolve_path("../other", Some("/home/u/other".to_string())).unwrap_err();
    assert_eq!(e.error.as_deref(), Some("禁止访问项目目录外的路径"));
}

#[test]
fn resolve_path_resolves_dot_dot_before_testing() {
    let tool = FileTool::new("/home/u/proj");
    let e = tool.resolve_path("../outside/new.txt", None).unwrap_err();
    assert_eq!(e.error.as_deref(), Some("禁止访问项目目录外的路径"));
    assert!(tool.resolve_path("src/../../etc/passwd", None).is_err());
    assert!(tool.resolve_path("..", None).is_err());
    assert!(tool.resolve_path("a/../../proj2/x", None).is_err());
    // Paths that stay inside once `..` is resolved are kept as given.
    assert_eq!(tool.resolve_path("src/../main.rs", None).unwrap(), "/home/u/proj/src/../main.rs");
    assert!(tool.resolve_path("./src//main.rs", None).is_ok());
    assert!(tool.resolve_path("..hidden/a..b", None).is_ok());
    assert!(tool.resolve_path("src\\..\\x", None).is_ok());
    assert!(tool.resolve_path("src\\..\\..\\x", None).is_err());
    // The project directory itself is inside.
    assert!(tool.resolve_path(".", None).is_ok());
}

#[test]
fn listing_is_sorted_with_directory_marks() {
    let tool = FileTool::new("/p");
    let entries = vec![
        DirEntryInfo { name: "src".to_string(), is_dir: true },
        DirEntryInfo { name: "README.md".to_string(), is_dir: false },
        DirEntryInfo { name: "Cargo.toml".to_string(), is_dir: false },
    ];
    let r = tool.format_listing(&entries);
    assert!(r.success);
    assert_eq!(r.output, "Cargo.toml\nREADME.md\nsrc/");
    assert_eq!(tool.format_listing(&Vec::new()).output, "");
}

#[test]
fn file_operation_results() {
    let tool = FileTool::new("/p");
    assert_eq!(tool.read_result(Ok("x".to_string())).output, "x");
    assert_eq!(
        tool.read_result(Err("missing".to_string())).error.as_deref(),
        Some("读取文件失败: missing")
    );
    assert_eq!(FileTool::failure(FileOp::CreateDir, "e".to_string()).error.as_deref(), Some("创建目录失败: e"));
    assert_eq!(FileTool::failure(FileOp::Write, "e".to_string()).error.as_deref(), Some("写入文件失败: e"));
    assert_eq!(FileTool::failure(FileOp::List, "e".to_string()).error.as_deref(), Some("列出目录失败: e"));
    assert_eq!(FileTool::written().output, "文件写入成功");
    assert_eq!(FileTool::edited().output, "文件修改成功");
    assert_eq!(tool.edit("a", "a", "b").unwrap(), "b");
    assert_eq!(tool.project_dir(), "/p");
}
