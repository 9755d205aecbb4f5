use notarai::env::{Observations, Request, Response, Step};
use notarai::hook_validate::{
    hook_report, hook_verdict, is_spec_file, pathdiff, process_hook_input, target_in, HookResult,
};
use notarai::json::{JsonValue, Member};
use notarai::validator::ValidationResult;

const VALID_SPEC_YAML: &str = "\
schema_version: \"0.4\"
intent: \"Test spec\"
behaviors:
  - name: b1
    given: \"x\"
    then: \"y\"
artifacts:
  code:
    - path: \"src/foo.ts\"
      role: \"test\"
";

fn payload(file_path: &str) -> String {
    format!("{{\"tool_input\":{{\"file_path\":\"{file_path}\"}}}}")
}

/// Runs the hook, answering its request to read `path` with `content`.
fn run_hook(input: &str, cwd: &str, path: &str, content: Result<&str, &str>) -> HookResult {
    let mut env = Observations::new();
    for _ in 0..5 {
        match process_hook_input(input, cwd, &env) {
            Step::Done(result) => return result,
            Step::Need(request) => {
                match &request {
                    Request::ReadTexts { paths } => assert_eq!(paths, &vec![path.to_string()]),
                    _ => panic!("unexpected request"),
                }
                let read = content.map(String::from).map_err(String::from);
                assert!(env.record(request, Response::Texts(vec![read])));
            }
        }
    }
    panic!("the hook keeps asking");
}

#[test]
fn returns_0_for_non_spec_file() {
    let result = run_hook(&payload("/tmp/project/src/foo.ts"), "/tmp/project", "", Ok(""));
    assert_eq!(result.exit_code, 0);
    assert_eq!(result.file_path, None);
}

#[test]
fn returns_0_for_malformed_json() {
    let result = run_hook("not json!", "/tmp/project", "", Ok(""));
    assert_eq!(result.exit_code, 0);
}

#[test]
fn returns_0_for_missing_file_path() {
    let result = run_hook("{\"tool_input\":{}}", "/tmp/project", "", Ok(""));
    assert_eq!(result.exit_code, 0);
    let no_input = run_hook("{}", "/tmp/project", "", Ok(""));
    assert_eq!(no_input.exit_code, 0);
    let not_a_string = run_hook("{\"tool_input\":{\"file_path\":3}}", "/tmp/project", "", Ok(""));
    assert_eq!(not_a_string.exit_code, 0);
}

#[test]
fn returns_0_for_valid_spec() {
    let path = "/tmp/project/.notarai/test.spec.yaml";
    let result = run_hook(&payload(path), "/tmp/project", path, Ok(VALID_SPEC_YAML));
    assert_eq!(result.exit_code, 0);
    assert!(result.errors.is_empty());
    assert_eq!(result.file_path.as_deref(), Some(path));
}

#[test]
fn returns_1_for_invalid_spec() {
    let path = "/tmp/project/.notarai/test.spec.yaml";
    let result = run_hook(&payload(path), "/tmp/project", path, Ok("schema_version: \"0.4\"\n"));
    assert_eq!(result.exit_code, 1);
    assert!(!result.errors.is_empty());
    assert_eq!(result.file_path.as_deref(), Some(path));
}

#[test]
fn returns_0_for_missing_file_on_disk() {
    let path = "/tmp/project/.notarai/missing.spec.yaml";
    let result = run_hook(&payload(path), "/tmp/project", path, Err("No such file"));
    assert_eq!(result.exit_code, 0);
    assert_eq!(result.file_path.as_deref(), Some(path));
}

#[test]
fn spec_files_are_told_from_the_project_root() {
    assert!(is_spec_file("/p/.notarai/a.spec.yaml", "/p"));
    assert!(is_spec_file("/p/.notarai/sub/a.spec.yaml", "/p/"));
    assert!(!is_spec_file("/p/.notarai/a.spec.yaml", "/q"));
    assert!(!is_spec_file("/p/sub/.notarai/a.spec.yaml", "/p"));
    assert!(!is_spec_file("/p/.notarai/a.yaml", "/p"));
    assert_eq!(pathdiff("/p/a/b", "/p"), Ok("a/b".to_string()));
    assert_eq!(pathdiff("/p/a/b", "/x"), Err(()));
}

#[test]
fn the_payload_names_the_file() {
    let payload = |path: &str| {
        JsonValue::Object(vec![Member {
            key: "tool_input".to_string(),
            value: JsonValue::Object(vec![Member {
                key: "file_path".to_string(),
                value: JsonValue::Text(path.to_string()),
            }]),
        }])
    };
    assert_eq!(
        target_in(&payload("/p/.notarai/a.spec.yaml"), "/p"),
        Some("/p/.notarai/a.spec.yaml".to_string())
    );
    assert_eq!(target_in(&payload("/p/src/a.rs"), "/p"), None);
    assert_eq!(target_in(&JsonValue::Null, "/p"), None);
}

#[test]
fn verdict_carries_the_validation_errors() {
    let flagged = hook_verdict(
        "f".to_string(),
        ValidationResult { valid: false, errors: vec!["/: bad".to_string()] },
    );
    assert_eq!(flagged.exit_code, 1);
    assert_eq!(flagged.errors, vec!["/: bad"]);
    assert_eq!(flagged.file_path.as_deref(), Some("f"));
    let passed = hook_verdict("f".to_string(), ValidationResult { valid: true, errors: vec![] });
    assert_eq!(passed.exit_code, 0);
    assert!(passed.errors.is_empty());
}

#[test]
fn hook_validate_exits_0_for_non_spec_file() {
    let result = run_hook("{\"tool_input\":{\"file_path\":\"/tmp/foo.ts\"}}", "/tmp/project", "", Ok(""));
    assert_eq!(result.exit_code, 0);
}

#[test]
fn hook_validate_exits_0_for_malformed_json() {
    let result = run_hook("not json!", "/tmp/project", "", Ok(""));
    assert_eq!(result.exit_code, 0);
}

#[test]
fn hook_validate_exits_1_for_invalid_spec() {
    let path = "/tmp/project/.notarai/test.spec.yaml";
    let result = run_hook(&payload(path), "/tmp/project", path, Ok("schema_version: \"0.4\"\n"));
    assert_eq!(result.exit_code, 1);
    assert_eq!(result.file_path.as_deref(), Some(path));
    assert!(!result.errors.is_empty());
}

#[test]
fn hook_validate_exits_0_for_valid_spec() {
    let path = "/tmp/project/.notarai/test.spec.yaml";
    let result = run_hook(&payload(path), "/tmp/project", path, Ok(VALID_SPEC_YAML));
    assert_eq!(result.exit_code, 0);
}

#[test]
fn findings_go_to_standard_error() {
    let flagged = HookResult {
        exit_code: 1,
        errors: vec!["/: a".to_string(), "/b: c".to_string()],
        file_path: Some("/p/.notarai/a.spec.yaml".to_string()),
    };
    let printed = hook_report(&flagged);
    assert!(printed.iter().all(|l| l.to_stderr));
    let texts: Vec<&str> = printed.iter().map(|l| l.text.as_str()).collect();
    assert_eq!(
        texts,
        vec!["Spec validation failed: /p/.notarai/a.spec.yaml", "  /: a", "  /b: c"]
    );
    let passed = HookResult { exit_code: 0, errors: vec![], file_path: None };
    assert!(hook_report(&passed).is_empty());
    let nameless = HookResult { exit_code: 1, errors: vec!["x".to_string()], file_path: None };
    assert_eq!(hook_report(&nameless).len(), 1);
}
