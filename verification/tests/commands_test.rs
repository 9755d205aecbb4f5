use notarai::cache_cli::{collect_paths, resolve_path, status_lines};
use notarai::env::{Observations, Request, Response, Step};
use notarai::init::{
    config_text, config_with_server, hook_entry, mcp_config_update, readme_text, server_entry,
    settings_with_hook, Setup,
};
use notarai::json::JsonValue;
use notarai::schema_bump::{
    find_project_root, parent, project_schema_version, update_spec_text, version_in,
};
use notarai::text::{decimal_text, replace_all, signed_decimal_text};
use notarai::validate_cmd::{
    exit_code, find_spec_files, freshness_warning, id_warning, reports, verdict_report,
};
use notarai::validator::ValidationResult;
use notarai::yaml::parse_yaml;

fn strings(v: &[&str]) -> Vec<String> {
    v.iter().map(|s| s.to_string()).collect()
}

fn tree(text: &str) -> JsonValue {
    parse_yaml(text).expect("a document")
}

#[test]
fn paths_come_from_arguments_or_input() {
    let input = strings(&["a.txt", "", "   ", " b.txt "]);
    assert_eq!(collect_paths(strings(&["x", ""]), &input), vec!["x", ""]);
    assert_eq!(collect_paths(vec![], &input), vec!["a.txt", " b.txt "]);
    assert!(collect_paths(vec![], &vec![]).is_empty());
}

#[test]
fn paths_are_resolved_against_the_working_directory() {
    assert_eq!(resolve_path("a/b.txt", "/repo"), "/repo/a/b.txt");
    assert_eq!(resolve_path("/etc/hosts", "/repo"), "/etc/hosts");
}

#[test]
fn status_exits_0_on_empty_cache() {
    assert_eq!(
        status_lines("/repo/.notarai/.cache/notarai.db", None),
        vec!["Cache DB: /repo/.notarai/.cache/notarai.db (not initialized)", "Entries: 0"]
    );
    assert_eq!(status_lines("db", Some((0, None))), vec!["Cache DB: db", "Entries: 0"]);
    assert_eq!(
        status_lines("db", Some((12, Some(1_700_000_000)))),
        vec!["Cache DB: db", "Entries: 12", "Newest: 1700000000"]
    );
    assert_eq!(
        status_lines("db", Some((1, Some(-5)))),
        vec!["Cache DB: db", "Entries: 1", "Newest: -5"]
    );
}

#[test]
fn numbers_are_written_in_decimal() {
    for n in [0u64, 7, 10, 99, 100, 1234567890, u64::MAX] {
        assert_eq!(decimal_text(n), n.to_string());
    }
    for n in [0i64, -1, 1, -10, 42, i64::MIN, i64::MAX] {
        assert_eq!(signed_decimal_text(n), n.to_string());
    }
}

#[test]
fn replacing_goes_from_left_to_right() {
    for (hay, from, to) in [
        ("aaa", "aa", "b"),
        ("abcabc", "bc", "-"),
        ("abc", "abcd", "x"),
        ("", "a", "b"),
        ("xyz", "y", ""),
        ("a.b.c", ".", ".."),
        ("schema_version: '0.4'", "'0.4'", "'0.5'"),
    ] {
        assert_eq!(replace_all(hay, from, to), hay.replace(from, to), "{hay:?} {from:?} {to:?}");
    }
    assert_eq!(replace_all("abc", "", "x"), "abc");
}

#[test]
fn update_spec_files_handles_single_quotes() {
    let content = "schema_version: '0.4'\nintent: 'test'\nbehaviors: []\nartifacts: {}\n";
    let updated = update_spec_text(content, "0.4", "0.5").expect("a change");
    assert!(updated.contains("schema_version: '0.5'"));
    assert_eq!(updated, "schema_version: '0.5'\nintent: 'test'\nbehaviors: []\nartifacts: {}\n");
}

#[test]
fn update_spec_files_handles_double_quotes() {
    let content = "schema_version: \"0.4\"\nintent: 'test'\nbehaviors: []\nartifacts: {}\n";
    let updated = update_spec_text(content, "0.4", "0.5").expect("a change");
    assert!(updated.contains("schema_version: \"0.5\""));
}

#[test]
fn specs_at_another_version_are_left_alone() {
    assert_eq!(update_spec_text("schema_version: '0.3'\n", "0.4", "0.5"), None);
    assert_eq!(update_spec_text("schema_version: 0.4\n", "0.4", "0.5"), None);
    assert_eq!(update_spec_text("", "0.4", "0.5"), None);
}

#[test]
fn project_version_comes_from_enum_or_id() {
    assert_eq!(
        project_schema_version("{\"properties\":{\"schema_version\":{\"enum\":[\"0.4\",\"0.3\"]}}}"),
        Some("0.4".to_string())
    );
    assert_eq!(
        project_schema_version("{\"$id\":\"https://notarai.dev/schema/0.3/spec.schema.json\"}"),
        Some("0.3".to_string())
    );
    assert_eq!(project_schema_version("{\"$id\":\"a/b\"}"), Some("a".to_string()));
    assert_eq!(project_schema_version("{\"$id\":\"/b\"}"), Some(String::new()));
    assert_eq!(project_schema_version("{\"$id\":\"no-separator\"}"), None);
    assert_eq!(project_schema_version("{}"), None);
    assert_eq!(project_schema_version("not json"), None);
    assert_eq!(
        project_schema_version(notarai::schema::SCHEMA_STR),
        notarai::schema::bundled_version()
    );
}

#[test]
fn version_is_read_off_a_schema() {
    assert_eq!(
        version_in(&tree("{\"properties\":{\"schema_version\":{\"enum\":[\"0.7\"]}},\"$id\":\"x/0.1/y\"}")),
        Some("0.7".to_string())
    );
    assert_eq!(
        version_in(&tree("{\"properties\":{\"schema_version\":{\"enum\":[]}},\"$id\":\"x/0.1/y\"}")),
        Some("0.1".to_string())
    );
    assert_eq!(version_in(&tree("[]")), None);
}

#[test]
fn parents_go_up_to_the_root() {
    assert_eq!(parent("/a/b/c"), Some("/a/b".to_string()));
    assert_eq!(parent("/a/b/"), Some("/a".to_string()));
    assert_eq!(parent("/a"), Some("/".to_string()));
    assert_eq!(parent("/"), None);
    assert_eq!(parent(""), None);
    assert_eq!(parent("a"), Some(String::new()));
    assert_eq!(parent("a/b"), Some("a".to_string()));
    assert_eq!(parent("/a//b"), Some("/a".to_string()));
    for path in ["/a/b/c", "/a/b/", "/a", "/", "", "a", "a/b", "/w/p/src/deep"] {
        let expected = std::path::Path::new(path).parent().map(|p| p.to_string_lossy().to_string());
        assert_eq!(parent(path), expected, "{path:?}");
    }
}

/// Finds the project root when exactly the directories in `with_specs` hold
/// a specs directory.
fn root_from(cwd: &str, with_specs: &[&str]) -> String {
    let mut env = Observations::new();
    for _ in 0..20 {
        match find_project_root(cwd, &env) {
            Step::Done(root) => return root,
            Step::Need(request) => {
                let answer = match &request {
                    Request::IsDir { path } => {
                        with_specs.iter().any(|d| format!("{d}/.notarai") == *path)
                    }
                    _ => panic!("unexpected request"),
                };
                assert!(env.record(request, Response::Flag(answer)));
            }
        }
    }
    panic!("the search keeps asking");
}

#[test]
fn project_root_is_the_nearest_directory_with_specs() {
    assert_eq!(root_from("/w/p/src/deep", &["/w/p", "/w"]), "/w/p");
    assert_eq!(root_from("/w/p", &["/w/p"]), "/w/p");
    assert_eq!(root_from("/w/p/src", &[]), "/w/p/src");
}

#[test]
fn stale_schema_copies_are_warned_about() {
    let path = ".config/notarai.spec.json";
    assert_eq!(freshness_warning(path, notarai::schema::SCHEMA_STR), None);
    assert_eq!(freshness_warning(path, "not json"), None);
    assert_eq!(
        freshness_warning(path, "{\"$id\":\"https://notarai.dev/schema/0.3/spec.schema.json\"}"),
        Some(
            "Warning: .config/notarai.spec.json is out of date (local: https://notarai.dev/schema/0.3/spec.schema.json, bundled: https://notarai.dev/schema/0.5/spec.schema.json). Run `notarai init` to update."
                .to_string()
        )
    );
    let without_id = freshness_warning(path, "{}").expect("a warning");
    assert!(without_id.contains("(local: unknown, bundled: https://"));
    assert!(without_id.contains("out of date"));
}

#[test]
fn identifiers_are_compared() {
    assert_eq!(id_warning("p", Some("a"), Some("a")), None);
    assert_eq!(id_warning("p", None, None), None);
    assert_eq!(
        id_warning("p", Some("a"), Some("b")),
        Some("Warning: p is out of date (local: a, bundled: b). Run `notarai init` to update.".to_string())
    );
    assert_eq!(
        id_warning("p", Some("a"), None),
        Some("Warning: p is out of date (local: a, bundled: unknown). Run `notarai init` to update.".to_string())
    );
}

#[test]
fn verdicts_are_reported_line_by_line() {
    let flagged = verdict_report(
        "f.spec.yaml",
        &ValidationResult { valid: false, errors: strings(&["/: a", "/b: c"]) },
    );
    assert!(flagged.failed);
    assert_eq!(flagged.lines, vec!["FAIL f.spec.yaml", "  /: a", "  /b: c"]);
    let passed = verdict_report("f.spec.yaml", &ValidationResult { valid: true, errors: vec![] });
    assert!(!passed.failed);
    assert_eq!(passed.lines, vec!["PASS f.spec.yaml"]);
}

#[test]
fn spec_files_are_found_and_sorted() {
    let found = find_spec_files(&strings(&[
        "/p/.notarai/z.spec.yaml",
        "/p/.notarai/README.md",
        "/p/.notarai/a.spec.yaml",
        "/p/.notarai/sub/m.spec.yaml",
        "/p/.notarai/a.spec.yaml",
    ]));
    assert_eq!(
        found,
        vec![
            "/p/.notarai/a.spec.yaml",
            "/p/.notarai/a.spec.yaml",
            "/p/.notarai/sub/m.spec.yaml",
            "/p/.notarai/z.spec.yaml"
        ]
    );
    assert!(find_spec_files(&vec![]).is_empty());
}

#[test]
fn files_are_reported_as_pass_or_fail() {
    let files = strings(&["a.spec.yaml", "b.spec.yaml", "c.spec.yaml"]);
    let reads = vec![
        Ok("valid".to_string()),
        Ok("invalid".to_string()),
        Err("Permission denied".to_string()),
    ];
    let verdicts = vec![
        ValidationResult { valid: true, errors: vec![] },
        ValidationResult { valid: false, errors: strings(&["/: x", "/y: z"]) },
        ValidationResult { valid: true, errors: vec![] },
    ];
    let (lines, failed) = reports(&files, &reads, &verdicts);
    assert!(failed);
    assert_eq!(
        lines,
        vec![
            "PASS a.spec.yaml",
            "FAIL b.spec.yaml",
            "  /: x",
            "  /y: z",
            "FAIL c.spec.yaml",
            "  Could not read file: Permission denied"
        ]
    );
    let (lines, failed) = reports(
        &files[..1].to_vec(),
        &reads[..1].to_vec(),
        &vec![ValidationResult { valid: true, errors: vec![] }],
    );
    assert!(!failed);
    assert_eq!(lines, vec!["PASS a.spec.yaml"]);
    assert_eq!(exit_code(true), 1);
    assert_eq!(exit_code(false), 0);
}

fn post_tool_use(settings: &JsonValue) -> Vec<JsonValue> {
    match settings.get("hooks").and_then(|h| h.get("PostToolUse")) {
        Some(JsonValue::Array(items)) => items.iter().map(copy).collect(),
        _ => panic!("no hook list"),
    }
}

fn copy(v: &JsonValue) -> JsonValue {
    tree(&config_text(v))
}

#[test]
fn creates_settings_with_hook() {
    let updated = match settings_with_hook(tree("{}")) {
        Setup::Updated(v) => v,
        _ => panic!("expected an update"),
    };
    let hooks = post_tool_use(&updated);
    assert_eq!(hooks.len(), 1);
    assert_eq!(hooks[0].get_str("matcher"), Some("Write|Edit"));
    let inner = hooks[0].get("hooks").and_then(|h| h.as_array()).expect("hooks");
    assert_eq!(inner[0].get_str("command"), Some("notarai hook validate"));
    assert_eq!(inner[0].get_str("type"), Some("command"));
    assert_eq!(
        config_text(&updated),
        "{\n  \"hooks\": {\n    \"PostToolUse\": [\n      {\n        \"hooks\": [\n          {\n            \"command\": \"notarai hook validate\",\n            \"type\": \"command\"\n          }\n        ],\n        \"matcher\": \"Write|Edit\"\n      }\n    ]\n  }\n}\n"
    );
}

#[test]
fn preserves_existing_settings_keys() {
    let settings = tree("{\"customKey\": \"preserved\", \"hooks\": {\"Stop\": [1], \"PostToolUse\": [{\"matcher\": \"Bash\"}]}}");
    let updated = match settings_with_hook(settings) {
        Setup::Updated(v) => v,
        _ => panic!("expected an update"),
    };
    assert_eq!(updated.get_str("customKey"), Some("preserved"));
    assert!(updated.get("hooks").and_then(|h| h.get("Stop")).is_some());
    let hooks = post_tool_use(&updated);
    assert_eq!(hooks.len(), 2);
    assert_eq!(hooks[0].get_str("matcher"), Some("Bash"));
    assert_eq!(hooks[1].get_str("matcher"), Some("Write|Edit"));
}

#[test]
fn idempotent_second_run_no_duplicate_hook() {
    let first = match settings_with_hook(tree("null")) {
        Setup::Updated(v) => v,
        _ => panic!("expected an update"),
    };
    assert!(matches!(settings_with_hook(first), Setup::AlreadyConfigured));
}

#[test]
fn malformed_settings_are_told_apart() {
    assert!(matches!(settings_with_hook(tree("[1, 2]")), Setup::Malformed));
    assert!(matches!(settings_with_hook(tree("{\"hooks\": [1]}")), Setup::Malformed));
    assert!(matches!(
        settings_with_hook(tree("{\"hooks\": {\"PostToolUse\": {}}}")),
        Setup::Malformed
    ));
    assert!(matches!(
        settings_with_hook(tree("{\"hooks\": {\"PostToolUse\": null}}")),
        Setup::Malformed
    ));
    assert!(matches!(settings_with_hook(tree("{\"hooks\": null}")), Setup::Updated(_)));
}

#[test]
fn mcp_json_created() {
    let created = match mcp_config_update(None) {
        Setup::Updated(v) => v,
        _ => panic!("expected an update"),
    };
    let entry = created.get("mcpServers").and_then(|s| s.get("notarai")).expect("the entry");
    assert_eq!(entry.get_str("command"), Some("notarai"));
    assert_eq!(entry.get_str("type"), Some("stdio"));
    let args = entry.get("args").and_then(|a| a.as_array()).expect("args");
    assert_eq!(args.len(), 1);
    assert_eq!(args[0].as_str(), Some("mcp"));
    assert_eq!(
        config_text(&created),
        "{\n  \"mcpServers\": {\n    \"notarai\": {\n      \"args\": [\n        \"mcp\"\n      ],\n      \"command\": \"notarai\",\n      \"type\": \"stdio\"\n    }\n  }\n}\n"
    );
    assert!(matches!(mcp_config_update(Some("not json")), Setup::Updated(_)));
}

#[test]
fn mcp_json_keeps_other_servers() {
    let text = "{\"mcpServers\": {\"other\": {\"command\": \"x\"}}, \"extra\": 1.5}";
    let updated = match mcp_config_update(Some(text)) {
        Setup::Updated(v) => v,
        _ => panic!("expected an update"),
    };
    assert!(updated.get("mcpServers").and_then(|s| s.get("other")).is_some());
    assert!(updated.get("mcpServers").and_then(|s| s.get("notarai")).is_some());
    assert!(matches!(updated.get("extra"), Some(JsonValue::Number(n)) if n.as_f64() == Some(1.5)));
    assert!(config_text(&updated).contains("\"extra\": 1.5"));
    let again = config_text(&updated);
    assert!(matches!(mcp_config_update(Some(&again)), Setup::AlreadyConfigured));
    assert!(matches!(
        config_with_server(tree("{\"mcpServers\": [1]}")),
        Setup::Malformed
    ));
    assert!(matches!(config_with_server(tree("\"text\"")), Setup::Malformed));
}

#[test]
fn entries_have_the_expected_shape() {
    assert_eq!(hook_entry().get_str("matcher"), Some("Write|Edit"));
    assert_eq!(server_entry().get_str("command"), Some("notarai"));
}

#[test]
fn readme_gets_the_version() {
    assert_eq!(
        readme_text("# NotarAI {{VERSION}}\nrun `notarai validate` ({{VERSION}})\n", "0.1.0"),
        "# NotarAI 0.1.0\nrun `notarai validate` (0.1.0)\n"
    );
    assert_eq!(readme_text("no mark", "1"), "no mark");
}

#[test]
fn validate_warns_when_local_schema_is_stale() {
    let warning = freshness_warning(
        ".config/notarai.spec.json",
        "{\"$id\":\"https://notarai.dev/schema/0.3/spec.schema.json\"}",
    )
    .expect("a warning");
    assert!(warning.contains("out of date"));
}
