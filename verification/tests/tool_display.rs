use chat_adapter::config::ToolDisplay;
use chat_adapter::tools::{
    compose_display, end_tool, sanitize_title, start_tool, ToolEntry, ToolState,
};

fn tool(id: &str, title: &str, state: ToolState) -> ToolEntry {
    ToolEntry {
        id: id.into(),
        title: title.into(),
        state,
    }
}

#[test]
fn compose_display_full_shows_complete_title() {
    let tools = vec![tool(
        "1",
        "curl -s https://example.com",
        ToolState::Completed,
    )];
    let out = compose_display(&tools, "done", false, ToolDisplay::Full);
    assert!(out.contains("`curl -s https://example.com`"));
}

#[test]
fn compose_display_compact_shows_count_summary() {
    let tools = vec![
        tool("1", "curl -s https://example.com", ToolState::Completed),
        tool("2", "grep -r pattern src/", ToolState::Completed),
        tool("3", "cat /etc/hosts", ToolState::Failed),
    ];
    let out = compose_display(&tools, "done", false, ToolDisplay::Compact);
    assert!(out.contains("✅ 2"), "expected completed count: {out}");
    assert!(out.contains("❌ 1"), "expected failed count: {out}");
    assert!(out.contains("tool(s)"), "expected tool(s) label: {out}");
    // Must NOT contain individual tool names
    assert!(!out.contains("curl"), "should not show tool names: {out}");
    assert!(!out.contains("grep"), "should not show tool names: {out}");
}

#[test]
fn compose_display_compact_shows_running_count() {
    let tools = vec![
        tool("1", "curl", ToolState::Completed),
        tool("2", "npm install", ToolState::Running),
    ];
    let out = compose_display(&tools, "", true, ToolDisplay::Compact);
    assert!(out.contains("✅ 1"), "expected completed count: {out}");
    assert!(out.contains("🔧 1"), "expected running count: {out}");
}

#[test]
fn compose_display_none_hides_tools() {
    let tools = vec![tool(
        "1",
        "curl -s https://example.com",
        ToolState::Completed,
    )];
    let out = compose_display(&tools, "response text", false, ToolDisplay::Hidden);
    assert_eq!(out, "response text");
}

#[test]
fn compact_displays_are_one_line_and_the_text() {
    let tools = vec![
        tool("1", "a", ToolState::Completed),
        tool("2", "b", ToolState::Failed),
        tool("3", "c", ToolState::Running),
    ];
    assert_eq!(
        compose_display(&tools, "text \n", true, ToolDisplay::Compact),
        "✅ 1 · ❌ 1 · 🔧 1 tool(s)\n\ntext"
    );
    assert_eq!(
        compose_display(&tools[1..].to_vec(), "", false, ToolDisplay::Compact),
        "❌ 1 · 🔧 1 tool(s)\n\n"
    );
}

#[test]
fn full_displays_list_tools_in_order() {
    let tools = vec![
        tool("1", "a", ToolState::Completed),
        tool("2", "b", ToolState::Running),
        tool("3", "c", ToolState::Failed),
    ];
    assert_eq!(
        compose_display(&tools, "x", false, ToolDisplay::Full),
        "✅ `a`\n🔧 `b`...\n❌ `c`\n\nx"
    );
    assert_eq!(
        compose_display(&tools, "x", true, ToolDisplay::Full),
        "✅ `a`\n❌ `c`\n🔧 `b`...\n\nx"
    );
}

#[test]
fn streaming_displays_collapse_many_tools() {
    let mut tools = Vec::new();
    for i in 0..12 {
        tools.push(tool(&format!("d{i}"), "done", ToolState::Completed));
    }
    tools.push(tool("f", "bad", ToolState::Failed));
    for i in 0..5 {
        tools.push(tool(&format!("r{i}"), &format!("run{i}"), ToolState::Running));
    }
    assert_eq!(
        compose_display(&tools, "", true, ToolDisplay::Full),
        "✅ 12 · ❌ 1 tool(s) completed\n🔧 2 more running\n🔧 `run2`...\n🔧 `run3`...\n🔧 `run4`...\n\n"
    );
}

#[test]
fn three_finished_tools_are_not_collapsed_and_four_are() {
    let mut tools = Vec::new();
    for i in 0..3 {
        tools.push(tool(&format!("{i}"), "t", ToolState::Failed));
    }
    assert_eq!(
        compose_display(&tools, "", true, ToolDisplay::Full),
        "❌ `t`\n❌ `t`\n❌ `t`\n\n"
    );
    tools.push(tool("3", "t", ToolState::Failed));
    assert_eq!(
        compose_display(&tools, "", true, ToolDisplay::Full),
        "❌ 4 tool(s) completed\n\n"
    );
}

#[test]
fn displays_without_tools_are_the_text_without_trailing_white_space() {
    let none = Vec::new();
    assert_eq!(compose_display(&none, " a\u{3000}\n", true, ToolDisplay::Full), " a");
    assert_eq!(compose_display(&none, " \n", false, ToolDisplay::Compact), "");
}

#[test]
fn titles_become_one_line() {
    assert_eq!(sanitize_title("a\r\nb`c`"), "a ; b'c'");
    assert_eq!(sanitize_title("plain title"), "plain title");
    assert_eq!(sanitize_title(&sanitize_title("x\n`\r")), sanitize_title("x\n`\r"));
    assert_eq!(sanitize_title(""), "");
}

#[test]
fn rendered_tools_show_their_state() {
    assert_eq!(tool("1", "t", ToolState::Running).render(), "🔧 `t`...");
    assert_eq!(tool("1", "t", ToolState::Completed).render(), "✅ `t`");
    assert_eq!(tool("1", "t", ToolState::Failed).render(), "❌ `t`");
    let entry = tool("1", "t", ToolState::Failed).clone();
    assert_eq!(entry.id, "1");
}

#[test]
fn tools_are_listed_once_each() {
    let mut tools = Vec::new();
    start_tool(&mut tools, "a".into(), "first\ntry");
    start_tool(&mut tools, "b".into(), "second");
    start_tool(&mut tools, "a".into(), "again");
    assert_eq!(tools.len(), 2);
    assert_eq!(tools[0].title, "again");
    end_tool(&mut tools, "a".into(), "", "completed");
    end_tool(&mut tools, "b".into(), "new `name`", "cancelled");
    end_tool(&mut tools, "c".into(), "", "completed");
    end_tool(&mut tools, "d".into(), "late", "completed");
    assert_eq!(tools.len(), 3);
    assert_eq!((tools[0].title.as_str(), tools[0].state), ("again", ToolState::Completed));
    assert_eq!((tools[1].title.as_str(), tools[1].state), ("new 'name'", ToolState::Failed));
    assert_eq!((tools[2].id.as_str(), tools[2].title.as_str()), ("d", "late"));
}

#[test]
fn compact_displays_do_not_depend_on_titles() {
    let a = vec![tool("1", "a", ToolState::Failed), tool("2", "b", ToolState::Running)];
    let b = vec![tool("3", "long", ToolState::Running), tool("4", "title", ToolState::Failed)];
    assert_eq!(
        compose_display(&a, "x", true, ToolDisplay::Compact),
        compose_display(&b, "x", false, ToolDisplay::Compact)
    );
}

#[test]
fn streaming_displays_hold_few_tool_lines() {
    let mut tools = Vec::new();
    for i in 0..100 {
        let state = if i % 2 == 0 { ToolState::Running } else { ToolState::Failed };
        tools.push(tool(&format!("{i}"), "t", state));
    }
    let out = compose_display(&tools, "", true, ToolDisplay::Full);
    assert_eq!(out.matches('\n').count(), 6);
    assert!(out.starts_with("❌ 50 tool(s) completed\n🔧 47 more running\n"));
}
