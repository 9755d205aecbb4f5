use notarai::init::{
    claude_context, extract_notarai_section, gitignore_with_cache, has_notarai_hook,
    replace_notarai_section, NOTARAI_SECTION,
};
use notarai::json::{JsonValue, Member};

#[test]
fn extracts_section_from_start_to_eof() {
    let content = "## NotarAI\n\nSome content here.\n";
    let result = extract_notarai_section(content);
    assert_eq!(result, "## NotarAI\n\nSome content here.\n");
}

#[test]
fn extracts_section_between_headings() {
    let content = "## Intro\n\nIntro text.\n\n## NotarAI\n\nNotarAI content.\n\n## Other\n\nOther content.\n";
    let result = extract_notarai_section(content);
    assert_eq!(result, "## NotarAI\n\nNotarAI content.\n");
}

#[test]
fn returns_empty_when_not_found() {
    let content = "## Intro\n\nNo notarai here.\n";
    let result = extract_notarai_section(content);
    assert_eq!(result, "");
}

#[test]
fn replace_section_at_eof() {
    let content = "# Project\n\n## NotarAI\n\nOld content.\n";
    let result = replace_notarai_section(content, "## NotarAI\nnew\n");
    assert_eq!(result, "# Project\n\n## NotarAI\nnew\n");
}

#[test]
fn replace_section_with_following_heading() {
    let content = "# Project\n\n## NotarAI\n\nOld.\n\n## Other\n\nAfter.\n";
    let result = replace_notarai_section(content, "## NotarAI\nnew\n");
    assert_eq!(result, "# Project\n\n## NotarAI\nnew\n## Other\n\nAfter.\n");
}

#[test]
fn replace_returns_unchanged_when_no_section() {
    let content = "## Intro\n\nNo notarai.\n";
    let result = replace_notarai_section(content, "## NotarAI\nnew\n");
    assert_eq!(result, content);
}

#[test]
fn replace_adds_missing_line_feed_to_new_section() {
    let result = replace_notarai_section("a\n## NotarAI\nold\n## Z\nz", "## NotarAI\nnew");
    assert_eq!(result, "a\n## NotarAI\nnew\n## Z\nz\n");
}

#[test]
fn replace_handles_carriage_returns() {
    let result = replace_notarai_section("a\r\n## NotarAI\r\nold\r\n", "N\n");
    assert_eq!(result, "a\nN\n");
}

#[test]
fn extract_trims_trailing_blank_space() {
    let result = extract_notarai_section("## NotarAI\ntext \t\n\n\n## Next\n");
    assert_eq!(result, "## NotarAI\ntext\n");
}

#[test]
fn creates_claude_md_when_missing() {
    assert_eq!(claude_context(None), NOTARAI_SECTION);
    assert_eq!(
        NOTARAI_SECTION,
        "## NotarAI\n@.notarai/README.md\n@.notarai/notarai.spec.json\n"
    );
}

#[test]
fn appends_to_existing_claude_md() {
    let result = claude_context(Some("# My Project\n\nExisting content.\n"));
    assert_eq!(
        result,
        "# My Project\n\nExisting content.\n\n## NotarAI\n@.notarai/README.md\n@.notarai/notarai.spec.json\n"
    );
    let unterminated = claude_context(Some("# My Project"));
    assert_eq!(
        unterminated,
        "# My Project\n\n## NotarAI\n@.notarai/README.md\n@.notarai/notarai.spec.json\n"
    );
    assert_eq!(claude_context(Some("")), format!("\n{}", NOTARAI_SECTION));
}

#[test]
fn replaces_existing_notarai_section_in_claude_md() {
    let result = claude_context(Some("## NotarAI\n\nThis is outdated content.\n"));
    assert!(!result.contains("This is outdated content."));
    assert_eq!(result, NOTARAI_SECTION);
    let again = claude_context(Some(&result));
    assert_eq!(again, result);
}

#[test]
fn replaces_notarai_section_on_second_run() {
    let first = claude_context(Some("# Project\n\n## Other\n\ntext\n"));
    let second = claude_context(Some(&first));
    assert_eq!(second.matches("## NotarAI").count(), 1);
    assert_eq!(second, first);
}

#[test]
fn gitignore_entry_added() {
    assert_eq!(gitignore_with_cache(""), Some(".notarai/.cache/\n".to_string()));
    assert_eq!(
        gitignore_with_cache("target"),
        Some("target\n.notarai/.cache/\n".to_string())
    );
    assert_eq!(
        gitignore_with_cache("target\n"),
        Some("target\n.notarai/.cache/\n".to_string())
    );
    assert_eq!(gitignore_with_cache("target\n.notarai/.cache/\n"), None);
}

fn text(s: &str) -> JsonValue {
    JsonValue::Text(s.to_string())
}

fn object(members: Vec<(&str, JsonValue)>) -> JsonValue {
    JsonValue::Object(
        members
            .into_iter()
            .map(|(k, v)| Member { key: k.to_string(), value: v })
            .collect(),
    )
}

#[test]
fn hook_is_found_among_matchers() {
    let ours = object(vec![
        ("matcher", text("Write|Edit")),
        (
            "hooks",
            JsonValue::Array(vec![object(vec![
                ("type", text("command")),
                ("command", text("notarai hook validate")),
            ])]),
        ),
    ]);
    let other = object(vec![
        ("matcher", text("Bash")),
        (
            "hooks",
            JsonValue::Array(vec![object(vec![("command", text("echo hi"))])]),
        ),
    ]);
    assert!(!has_notarai_hook(&vec![]));
    assert!(!has_notarai_hook(&vec![object(vec![]), JsonValue::Null]));
    let only_other = vec![object(vec![
        ("matcher", text("Bash")),
        (
            "hooks",
            JsonValue::Array(vec![object(vec![("command", text("echo hi"))])]),
        ),
    ])];
    assert!(!has_notarai_hook(&only_other));
    assert!(has_notarai_hook(&vec![other, ours]));
}
