use chat_adapter::directives::{
    extract_upload_directives, is_upload_fence_start, parse_upload_path_line,
};

#[test]
fn extract_upload_directives_strips_block_and_collects_paths() {
    let input = r#"Here are the screenshots.

```openab-upload
# comment
"/tmp/a.png"
- /tmp/b with spaces.jpg
```

Done."#;
    let (visible, paths) = extract_upload_directives(input);
    assert_eq!(visible, "Here are the screenshots.\n\nDone.");
    assert_eq!(
        paths,
        vec![
            "/tmp/a.png".to_string(),
            "/tmp/b with spaces.jpg".to_string()
        ]
    );
}

#[test]
fn fences_open_uploads_by_name() {
    assert!(is_upload_fence_start("```openab-upload"));
    assert!(is_upload_fence_start("```openab-uploads"));
    assert!(is_upload_fence_start("```openab-send-images"));
    assert!(!is_upload_fence_start("```"));
    assert!(!is_upload_fence_start(" ```openab-upload"));
    assert!(!is_upload_fence_start("```openab-upload x"));
    assert!(!is_upload_fence_start(""));
}

#[test]
fn path_lines_lose_marks_and_quotes() {
    assert_eq!(parse_upload_path_line("  # note"), None);
    assert_eq!(parse_upload_path_line(" \t "), None);
    assert_eq!(parse_upload_path_line("/a b"), Some("/a b".to_string()));
    assert_eq!(parse_upload_path_line(" -  \"/a\" "), Some("/a".to_string()));
    assert_eq!(parse_upload_path_line("'\"/a\"'"), Some("\"/a\"".to_string()));
    assert_eq!(parse_upload_path_line("\"'/a'\""), Some("/a".to_string()));
    assert_eq!(parse_upload_path_line("-/a"), Some("-/a".to_string()));
    assert_eq!(parse_upload_path_line("\"\""), Some("".to_string()));
    assert_eq!(parse_upload_path_line("- - /a"), Some("- /a".to_string()));
}

#[test]
fn one_blank_line_after_a_block_goes() {
    let (visible, paths) =
        extract_upload_directives("a\n```openab-upload\n/x\n```\n\n\nb");
    assert_eq!(visible, "a\n\nb");
    assert_eq!(paths, vec!["/x".to_string()]);
    let (visible, _) = extract_upload_directives("a\n```openab-upload\n/x\n```\nb");
    assert_eq!(visible, "a\nb");
}

#[test]
fn an_open_block_takes_the_rest() {
    let (visible, paths) = extract_upload_directives("a\n  ```openab-uploads \n/x\nb");
    assert_eq!(visible, "a");
    assert_eq!(paths, vec!["/x".to_string(), "b".to_string()]);
}

#[test]
fn blocks_follow_each_other() {
    let (visible, paths) = extract_upload_directives(
        "```openab-upload\n/x\n```\n```openab-send-images\r\n/y\r\n```\r\nend\r\n",
    );
    assert_eq!(visible, "end");
    assert_eq!(paths, vec!["/x".to_string(), "/y".to_string()]);
}

#[test]
fn a_fence_inside_a_block_is_a_path_line() {
    let (visible, paths) =
        extract_upload_directives("```openab-upload\n```openab-upload\n```\n");
    assert_eq!(visible, "");
    assert_eq!(paths, vec!["```openab-upload".to_string()]);
}

#[test]
fn other_text_is_kept() {
    let (visible, paths) = extract_upload_directives("  x\r\n```rust\ny\n```\n\nz \n");
    assert_eq!(visible, "x\n```rust\ny\n```\n\nz");
    assert!(paths.is_empty());
    let (visible, paths) = extract_upload_directives("");
    assert_eq!(visible, "");
    assert!(paths.is_empty());
}

#[test]
fn carriage_returns_end_lines_only_before_line_feeds() {
    let (visible, _) = extract_upload_directives("a\rb\r\r\nc\r");
    assert_eq!(visible, "a\rb\r\nc");
}

#[test]
fn what_is_shown_names_no_more_paths() {
    let (visible, _) = extract_upload_directives(
        "\n \n```openab-upload\n/x\n```\n ```openab-upload\n```\nrest\r\r\nof it",
    );
    let (again, paths) = extract_upload_directives(&visible);
    assert!(paths.is_empty());
    let (third, _) = extract_upload_directives(&again);
    assert_eq!(third, again);
}

#[test]
fn white_space_is_what_unicode_says() {
    for n in 0..0x110000u32 {
        if let Some(c) = char::from_u32(n) {
            let listed = matches!(n, 0x9..=0xd | 0x20 | 0x85 | 0xa0 | 0x1680 | 0x2000..=0x200a
                | 0x2028 | 0x2029 | 0x202f | 0x205f | 0x3000);
            assert_eq!(c.is_whitespace(), listed);
            if listed {
                let (visible, _) = extract_upload_directives(&format!("{c}a{c}"));
                assert_eq!(visible, "a");
            }
        }
    }
    let (visible, _) = extract_upload_directives("\u{200b}a\u{feff}");
    assert_eq!(visible, "\u{200b}a\u{feff}");
}

#[test]
fn replies_without_carriage_returns_are_settled_at_once() {
    for reply in ["a\n```openab-upload\n/x\n```\n\n\n b \n", " x \n", "```openab-upload\n/y\n```"] {
        let (visible, _) = extract_upload_directives(reply);
        let (again, paths) = extract_upload_directives(&visible);
        assert_eq!(again, visible);
        assert!(paths.is_empty());
    }
}
