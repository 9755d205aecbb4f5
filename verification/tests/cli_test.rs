use notarai::cache::{FileProbe, HashStore, StoreFailure, StoreStage};
use notarai::cache_cli::{run, run_changed, run_clear, run_status, run_update, CacheAction};
use notarai::cli::{complained, ensure_dir, CliOutput, Line};
use notarai::env::{Observations, Request, Response, Step};
use notarai::hashing::content_hash;
use notarai::hook_validate::run as run_hook;
use notarai::init::{
    apply_setup, mcp_config_update, run as run_init, settings_with_hook, setup_claude_context,
    setup_command, setup_gitignore, setup_notarai_readme, setup_schema, InitAssets, Setup,
    SetupMessages, NOTARAI_SECTION,
};
use notarai::json::JsonValue;
use notarai::schema::SCHEMA_STR;
use notarai::schema_bump::run as run_bump;
use notarai::validate_cmd::run as run_validate;
use std::collections::{BTreeMap, BTreeSet};

const ROOT: &str = "/repo";
const DB: &str = "/repo/.notarai/.cache/notarai.db";

/// A project kept in memory.
struct World {
    files: BTreeMap<String, String>,
    dirs: BTreeSet<String>,
    rows: Vec<(String, String, i64)>,
    store_broken: bool,
    read_only: bool,
    input: String,
    links: BTreeMap<String, String>,
    now: i64,
    asked: Vec<String>,
}

fn world() -> World {
    World {
        files: BTreeMap::new(),
        dirs: BTreeSet::new(),
        rows: Vec::new(),
        store_broken: false,
        read_only: false,
        input: String::new(),
        links: BTreeMap::new(),
        now: 1_700_000_000,
        asked: Vec::new(),
    }
}

fn refused() -> Result<(), String> {
    Err("Permission denied (os error 13)".to_string())
}

fn perform(w: &mut World, request: &Request) -> Response {
    match request {
        Request::ReadTexts { paths } => Response::Texts(
            paths
                .iter()
                .map(|p| w.files.get(p).cloned().ok_or_else(|| "No such file".to_string()))
                .collect(),
        ),
        Request::PathExists { path } => {
            Response::Flag(w.files.contains_key(path) || w.dirs.contains(path))
        }
        Request::IsDir { path } => Response::Flag(w.dirs.contains(path)),
        Request::IsFile { path } => Response::Flag(w.files.contains_key(path)),
        Request::FilesBelow { path } => {
            let below = format!("{path}/");
            let mut found: Vec<String> =
                w.files.keys().filter(|k| k.starts_with(&below)).cloned().collect();
            found.reverse();
            Response::Files(found)
        }
        Request::ProbeFiles { paths } => Response::Probes(
            paths
                .iter()
                .map(|p| FileProbe {
                    exists: w.files.contains_key(p) || w.dirs.contains(p),
                    read: match w.files.get(p) {
                        Some(text) => Ok(text.as_bytes().to_vec()),
                        None => Err("Is a directory (os error 21)".to_string()),
                    },
                })
                .collect(),
        ),
        Request::OpenStore { project_root } => {
            w.asked.push(format!("open {project_root}"));
            if w.store_broken {
                return Response::Store(Err(StoreFailure {
                    stage: StoreStage::Open,
                    detail: "disk I/O error".to_string(),
                }));
            }
            w.files.entry(DB.to_string()).or_default();
            let mut store = HashStore::new();
            for (path, hash, at) in &w.rows {
                store.upsert(path, hash, *at);
            }
            Response::Store(Ok(store))
        }
        Request::Persist { pairs, .. } => {
            for pair in pairs {
                w.rows.retain(|(p, _, _)| *p != pair.path);
                w.rows.push((pair.path.clone(), pair.content_hash.clone(), w.now));
            }
            Response::Persisted(Ok(()))
        }
        Request::RemoveFile { path } => {
            if w.read_only {
                return Response::Effect(refused());
            }
            w.files.remove(path);
            w.rows.clear();
            Response::Effect(Ok(()))
        }
        Request::ReadInput => {
            w.asked.push("input".to_string());
            Response::Input(Ok(w.input.clone()))
        }
        Request::Canonicalize { paths } => {
            Response::Resolved(paths.iter().map(|p| w.links.get(p).cloned()).collect())
        }
        Request::CreateDirs { path } => {
            if w.read_only {
                return Response::Effect(refused());
            }
            w.dirs.insert(path.clone());
            Response::Effect(Ok(()))
        }
        Request::WriteText { path, content } => {
            if w.read_only {
                return Response::Effect(refused());
            }
            w.asked.push(format!("write {path}"));
            w.files.insert(path.clone(), content.clone());
            Response::Effect(Ok(()))
        }
        _ => panic!("unexpected request"),
    }
}

fn drive<T>(w: &mut World, operation: impl Fn(&Observations) -> Step<T>) -> T {
    let mut env = Observations::new();
    for _ in 0..50 {
        match operation(&env) {
            Step::Done(result) => return result,
            Step::Need(request) => {
                let response = perform(w, &request);
                assert!(env.record(request, response));
            }
        }
    }
    panic!("the operation keeps asking");
}

fn strings(v: &[&str]) -> Vec<String> {
    v.iter().map(|s| s.to_string()).collect()
}

fn stdout(lines: &[Line]) -> Vec<&str> {
    lines.iter().filter(|l| !l.to_stderr).map(|l| l.text.as_str()).collect()
}

fn stderr(lines: &[Line]) -> Vec<&str> {
    lines.iter().filter(|l| l.to_stderr).map(|l| l.text.as_str()).collect()
}

fn status(w: &mut World) -> CliOutput {
    drive(w, |env| run_status(ROOT, env))
}

fn update(w: &mut World, args: &[&str]) -> CliOutput {
    let args = strings(args);
    drive(w, |env| run_update(ROOT, &args, env))
}

fn changed(w: &mut World, args: &[&str]) -> CliOutput {
    let args = strings(args);
    drive(w, |env| run_changed(ROOT, &args, env))
}

#[test]
fn status_of_a_project_without_cache_makes_none() {
    let mut w = world();
    let report = status(&mut w);
    assert_eq!(report.exit_code, 0);
    assert_eq!(
        stdout(&report.lines),
        vec![
            "Cache DB: /repo/.notarai/.cache/notarai.db (not initialized)",
            "Entries: 0"
        ]
    );
    assert!(w.asked.is_empty(), "the store must not be opened");
}

#[test]
fn update_hashes_given_files() {
    let mut w = world();
    w.files.insert("/repo/test.txt".to_string(), "hello".to_string());
    let report = update(&mut w, &["test.txt"]);
    assert_eq!(report.exit_code, 0);
    assert_eq!(stdout(&report.lines), vec!["Updated 1 file(s)"]);
    assert_eq!(
        w.rows,
        vec![("/repo/test.txt".to_string(), content_hash(b"hello"), 1_700_000_000)]
    );
    let after = status(&mut w);
    assert_eq!(after.exit_code, 0);
    assert_eq!(
        stdout(&after.lines),
        vec![
            "Cache DB: /repo/.notarai/.cache/notarai.db",
            "Entries: 1",
            "Newest: 1700000000"
        ]
    );
}

#[test]
fn update_reads_from_stdin_when_no_args() {
    let mut w = world();
    w.files.insert("/repo/test.txt".to_string(), "hello".to_string());
    w.input = "/repo/test.txt\n\n   \n".to_string();
    let report = update(&mut w, &[]);
    assert_eq!(stdout(&report.lines), vec!["Updated 1 file(s)"]);
    assert!(w.asked.contains(&"input".to_string()));
    let mut with_args = world();
    with_args.input = "ignored.txt\n".to_string();
    let report = update(&mut with_args, &["missing.txt"]);
    assert_eq!(stdout(&report.lines), vec!["Updated 0 file(s)"]);
    assert!(!with_args.asked.contains(&"input".to_string()));
}

#[test]
fn update_warns_of_what_cannot_be_hashed() {
    let mut w = world();
    w.files.insert("/repo/test.txt".to_string(), "hello".to_string());
    w.dirs.insert("/repo/sub".to_string());
    let report = update(&mut w, &["sub", "test.txt", "missing.txt"]);
    assert_eq!(report.exit_code, 0);
    assert_eq!(
        stderr(&report.lines),
        vec!["Warning: could not read /repo/sub: Is a directory (os error 21)"]
    );
    assert_eq!(stdout(&report.lines), vec!["Updated 1 file(s)"]);
    assert!(report.lines[0].to_stderr, "the warning comes before the count");
    assert_eq!(w.rows.len(), 1);
}

#[test]
fn update_keys_are_resolved_paths() {
    let mut w = world();
    w.files.insert("/real/test.txt".to_string(), "hello".to_string());
    w.links.insert("/repo/link.txt".to_string(), "/real/test.txt".to_string());
    let report = update(&mut w, &["link.txt"]);
    assert_eq!(stdout(&report.lines), vec!["Updated 1 file(s)"]);
    assert_eq!(w.rows[0].0, "/real/test.txt");
}

#[test]
fn changed_prints_new_file() {
    let mut w = world();
    w.files.insert("/repo/test.txt".to_string(), "hello".to_string());
    let report = changed(&mut w, &["test.txt"]);
    assert_eq!(report.exit_code, 0);
    assert_eq!(stdout(&report.lines), vec!["test.txt"]);
}

#[test]
fn changed_prints_nothing_for_cached_unchanged() {
    let mut w = world();
    w.files.insert("/repo/test.txt".to_string(), "hello".to_string());
    update(&mut w, &["test.txt"]);
    let report = changed(&mut w, &["test.txt"]);
    assert_eq!(report.exit_code, 0);
    assert!(report.lines.is_empty());
}

#[test]
fn changed_prints_path_after_modification() {
    let mut w = world();
    w.files.insert("/repo/test.txt".to_string(), "hello".to_string());
    update(&mut w, &["test.txt"]);
    w.files.insert("/repo/test.txt".to_string(), "world".to_string());
    let report = changed(&mut w, &["test.txt", "gone.txt"]);
    assert_eq!(stdout(&report.lines), vec!["test.txt", "gone.txt"]);
}

#[test]
fn changed_reports_what_cannot_be_checked() {
    let mut w = world();
    w.dirs.insert("/repo/sub".to_string());
    w.files.insert("/repo/a.txt".to_string(), "a".to_string());
    let report = changed(&mut w, &["sub", "a.txt"]);
    assert_eq!(report.exit_code, 0);
    assert_eq!(
        stderr(&report.lines),
        vec!["Error checking sub: could not read /repo/sub: Is a directory (os error 21)"]
    );
    assert_eq!(stdout(&report.lines), vec!["a.txt"]);
    assert!(report.lines[0].to_stderr, "lines keep their order");
}

#[test]
fn clear_removes_db() {
    let mut w = world();
    w.files.insert("/repo/test.txt".to_string(), "hello".to_string());
    update(&mut w, &["test.txt"]);
    assert!(w.files.contains_key(DB));
    let report = drive(&mut w, |env| run_clear(ROOT, env));
    assert_eq!(report.exit_code, 0);
    assert_eq!(stdout(&report.lines), vec!["Cache cleared"]);
    assert!(!w.files.contains_key(DB));
    let again = drive(&mut w, |env| run(&CacheAction::Clear, ROOT, env));
    assert_eq!(again.exit_code, 0);
    assert_eq!(stdout(&again.lines), vec!["Cache not initialized"]);
}

#[test]
fn cache_commands_fail_when_the_store_fails() {
    let mut w = world();
    w.files.insert(DB.to_string(), String::new());
    w.store_broken = true;
    for report in [
        status(&mut w),
        update(&mut w, &["a.txt"]),
        changed(&mut w, &["a.txt"]),
    ] {
        assert_eq!(report.exit_code, 1);
        assert_eq!(stderr(&report.lines), vec!["Error: could not open cache DB: disk I/O error"]);
        assert!(stdout(&report.lines).is_empty());
    }
    w.read_only = true;
    let report = drive(&mut w, |env| run_clear(ROOT, env));
    assert_eq!(report.exit_code, 1);
    assert_eq!(
        stderr(&report.lines),
        vec!["Error: could not delete cache DB: Permission denied (os error 13)"]
    );
}

#[test]
fn actions_are_dispatched() {
    let mut w = world();
    w.files.insert("/repo/a.txt".to_string(), "a".to_string());
    let updated =
        drive(&mut w, |env| run(&CacheAction::Update { paths: strings(&["a.txt"]) }, ROOT, env));
    assert_eq!(stdout(&updated.lines), vec!["Updated 1 file(s)"]);
    let unchanged =
        drive(&mut w, |env| run(&CacheAction::Changed { paths: strings(&["a.txt"]) }, ROOT, env));
    assert!(unchanged.lines.is_empty());
    let shown = drive(&mut w, |env| run(&CacheAction::Status, ROOT, env));
    assert_eq!(stdout(&shown.lines)[1], "Entries: 1");
}

#[test]
fn copies_schema_to_notarai_dir() {
    let mut w = world();
    let printed = drive(&mut w, |env| setup_schema("/repo/.notarai", env));
    assert_eq!(stdout(&printed), vec!["Copied schema to .notarai/notarai.spec.json"]);
    assert_eq!(w.files.get("/repo/.notarai/notarai.spec.json").map(String::as_str), Some(SCHEMA_STR));
}

#[test]
fn always_overwrites_schema_on_rerun() {
    let mut w = world();
    w.files.insert("/repo/.notarai/notarai.spec.json".to_string(), "sentinel".to_string());
    drive(&mut w, |env| setup_schema("/repo/.notarai", env));
    assert_eq!(w.files.get("/repo/.notarai/notarai.spec.json").map(String::as_str), Some(SCHEMA_STR));
}

#[test]
fn writes_notarai_readme() {
    let mut w = world();
    let template = "# NotarAI\n\nSet up with {{VERSION}}. Run `notarai validate`.\n";
    let printed =
        drive(&mut w, |env| setup_notarai_readme("/repo/.notarai", template, "0.1.0", env));
    assert_eq!(stdout(&printed), vec!["Wrote .notarai/README.md"]);
    let readme = w.files.get("/repo/.notarai/README.md").expect("the read-me");
    assert!(readme.contains("# NotarAI"));
    assert!(readme.contains("notarai validate"));
    assert!(readme.contains("0.1.0"));
    assert!(!readme.contains("{{VERSION}}"));
}

#[test]
fn copies_slash_commands() {
    let mut w = world();
    let printed = drive(&mut w, |env| {
        setup_command("notarai-reconcile", "reconcile!", "/repo/.assistant", ".assistant", env)
    });
    assert_eq!(stdout(&printed), vec!["Updated .assistant/commands/notarai-reconcile.md"]);
    assert!(w.dirs.contains("/repo/.assistant/commands"));
    assert_eq!(
        w.files.get("/repo/.assistant/commands/notarai-reconcile.md").map(String::as_str),
        Some("reconcile!")
    );
}

#[test]
fn always_overwrites_slash_commands_on_rerun() {
    let mut w = world();
    w.files.insert(
        "/repo/.assistant/commands/notarai-reconcile.md".to_string(),
        "sentinel content".to_string(),
    );
    drive(&mut w, |env| {
        setup_command("notarai-reconcile", "fresh", "/repo/.assistant", ".assistant", env)
    });
    let content = w.files.get("/repo/.assistant/commands/notarai-reconcile.md").expect("the file");
    assert!(!content.contains("sentinel content"));
}

#[test]
fn setup_steps_warn_and_go_on_when_nothing_can_be_written() {
    let mut w = world();
    w.read_only = true;
    let schema = drive(&mut w, |env| setup_schema("/repo/.notarai", env));
    assert_eq!(
        stderr(&schema),
        vec!["Warning: could not write notarai.spec.json: Permission denied (os error 13)"]
    );
    let command = drive(&mut w, |env| {
        setup_command("notarai-bootstrap", "x", "/repo/.assistant", ".assistant", env)
    });
    assert_eq!(
        stderr(&command),
        vec!["Warning: could not create .assistant/commands/ directory: Permission denied (os error 13)"]
    );
    let context = drive(&mut w, |env| setup_claude_context(ROOT, "CONTEXT.md", env));
    assert_eq!(
        stderr(&context),
        vec!["Warning: could not create CONTEXT.md: Permission denied (os error 13)"]
    );
    let ignore = drive(&mut w, |env| setup_gitignore(ROOT, env));
    assert_eq!(
        stderr(&ignore),
        vec!["Warning: could not update .gitignore: Permission denied (os error 13)"]
    );
    assert!(complained(&ignore));
    assert_eq!(
        drive(&mut w, |env| ensure_dir("/repo/.notarai", env)),
        Some("Permission denied (os error 13)".to_string())
    );
}

#[test]
fn directories_are_made_once() {
    let mut w = world();
    assert_eq!(drive(&mut w, |env| ensure_dir("/repo/.notarai", env)), None);
    assert!(w.dirs.contains("/repo/.notarai"));
    w.read_only = true;
    assert_eq!(drive(&mut w, |env| ensure_dir("/repo/.notarai", env)), None);
}

#[test]
fn context_file_is_created_appended_to_and_updated() {
    let mut w = world();
    let created = drive(&mut w, |env| setup_claude_context(ROOT, "CONTEXT.md", env));
    assert_eq!(stdout(&created), vec!["Added NotarAI context to CONTEXT.md"]);
    assert_eq!(w.files.get("/repo/CONTEXT.md").map(String::as_str), Some(NOTARAI_SECTION));
    let updated = drive(&mut w, |env| setup_claude_context(ROOT, "CONTEXT.md", env));
    assert_eq!(stdout(&updated), vec!["Updated NotarAI section in CONTEXT.md"]);
    assert_eq!(w.files.get("/repo/CONTEXT.md").map(String::as_str), Some(NOTARAI_SECTION));
    w.files.insert("/repo/CONTEXT.md".to_string(), "# My Project\n\nExisting content.\n".to_string());
    let appended = drive(&mut w, |env| setup_claude_context(ROOT, "CONTEXT.md", env));
    assert_eq!(stdout(&appended), vec!["Added NotarAI context to CONTEXT.md"]);
    let content = w.files.get("/repo/CONTEXT.md").expect("the file");
    assert!(content.contains("# My Project"));
    assert!(content.contains("## NotarAI"));
}

#[test]
fn ignore_file_is_made_and_then_left_alone() {
    let mut w = world();
    let added = drive(&mut w, |env| setup_gitignore(ROOT, env));
    assert_eq!(stdout(&added), vec!["Added .notarai/.cache/ to .gitignore"]);
    assert_eq!(w.files.get("/repo/.gitignore").map(String::as_str), Some(".notarai/.cache/\n"));
    w.asked.clear();
    let again = drive(&mut w, |env| setup_gitignore(ROOT, env));
    assert_eq!(stdout(&again), vec![".notarai/.cache/ already in .gitignore"]);
    assert!(w.asked.is_empty(), "nothing is written");
}

fn messages() -> SetupMessages {
    SetupMessages {
        already: "already there".to_string(),
        malformed: "no configuration".to_string(),
        warning: "could not write: ".to_string(),
        done: "written".to_string(),
    }
}

#[test]
fn configuration_updates_are_written_as_indented_json() {
    let mut w = world();
    let update = mcp_config_update(None);
    let printed = drive(&mut w, |env| apply_setup("/repo/.mcp.json", &update, &messages(), env));
    assert_eq!(stdout(&printed), vec!["written"]);
    let text = w.files.get("/repo/.mcp.json").expect("the file");
    assert!(text.starts_with("{\n  \"mcpServers\": {\n    \"notarai\": {"));
    assert!(text.ends_with("}\n"));
    let again = mcp_config_update(Some(text));
    assert!(matches!(again, Setup::AlreadyConfigured));
    w.asked.clear();
    let printed = drive(&mut w, |env| apply_setup("/repo/.mcp.json", &again, &messages(), env));
    assert_eq!(stdout(&printed), vec!["already there"]);
    assert!(w.asked.is_empty());
    let malformed = settings_with_hook(JsonValue::Bool(true));
    let printed = drive(&mut w, |env| apply_setup("/repo/s.json", &malformed, &messages(), env));
    assert_eq!(stderr(&printed), vec!["no configuration"]);
    w.read_only = true;
    let printed = drive(&mut w, |env| apply_setup("/repo/x.json", &update, &messages(), env));
    assert_eq!(stderr(&printed), vec!["could not write: Permission denied (os error 13)"]);
}

const VALID: &str = "schema_version: \"0.5\"\nintent: \"x\"\nbehaviors: []\nartifacts: {}\n";

fn validate(w: &mut World, path: Option<&str>) -> CliOutput {
    drive(w, |env| run_validate(path, ".assistant/notarai.spec.json", env))
}

#[test]
fn validate_exits_0_for_repo_notarai_dir() {
    let mut w = world();
    w.dirs.insert(".notarai".to_string());
    w.files.insert(".notarai/b.spec.yaml".to_string(), VALID.to_string());
    w.files.insert(".notarai/a.spec.yaml".to_string(), VALID.to_string());
    w.files.insert(".notarai/README.md".to_string(), "not a spec".to_string());
    let report = validate(&mut w, None);
    assert_eq!(report.exit_code, 0);
    assert_eq!(
        stdout(&report.lines),
        vec!["PASS .notarai/a.spec.yaml", "PASS .notarai/b.spec.yaml"]
    );
    assert!(stderr(&report.lines).is_empty());
}

#[test]
fn validate_exits_1_for_missing_path() {
    let mut w = world();
    let report = validate(&mut w, Some("/nonexistent/path"));
    assert_eq!(report.exit_code, 1);
    assert_eq!(stderr(&report.lines), vec!["Error: path not found: /nonexistent/path"]);
}

#[test]
fn validate_exits_0_with_warning_for_empty_spec_dir() {
    let mut w = world();
    w.dirs.insert("/p/.notarai".to_string());
    w.files.insert("/p/.notarai/notes.txt".to_string(), "x".to_string());
    let report = validate(&mut w, Some("/p/.notarai"));
    assert_eq!(report.exit_code, 0);
    assert_eq!(stderr(&report.lines), vec!["Warning: no .spec.yaml files found in /p/.notarai"]);
}

#[test]
fn validate_reports_each_file_and_fails_when_one_does() {
    let mut w = world();
    w.dirs.insert("/p/.notarai".to_string());
    w.files.insert("/p/.notarai/good.spec.yaml".to_string(), VALID.to_string());
    w.files.insert("/p/.notarai/bad.spec.yaml".to_string(), "schema_version: \"0.5\"\n".to_string());
    let report = validate(&mut w, Some("/p/.notarai"));
    assert_eq!(report.exit_code, 1);
    let lines = stdout(&report.lines);
    assert_eq!(lines[0], "FAIL /p/.notarai/bad.spec.yaml");
    assert!(lines[1].starts_with("  /: "));
    assert_eq!(lines.last(), Some(&"PASS /p/.notarai/good.spec.yaml"));
    let single = validate(&mut w, Some("/p/.notarai/good.spec.yaml"));
    assert_eq!(single.exit_code, 0);
    assert_eq!(stdout(&single.lines), vec!["PASS /p/.notarai/good.spec.yaml"]);
}

#[test]
fn validate_warns_about_a_stale_schema_copy_first() {
    let mut w = world();
    w.files.insert(
        ".assistant/notarai.spec.json".to_string(),
        "{\"$id\":\"https://notarai.dev/schema/0.3/spec.schema.json\"}".to_string(),
    );
    w.files.insert("a.spec.yaml".to_string(), VALID.to_string());
    let report = validate(&mut w, Some("a.spec.yaml"));
    assert_eq!(report.exit_code, 0);
    assert!(report.lines[0].to_stderr);
    assert!(report.lines[0].text.contains("out of date"));
    assert_eq!(stdout(&report.lines), vec!["PASS a.spec.yaml"]);
}

fn bump(w: &mut World) -> CliOutput {
    drive(w, |env| run_bump(Some("/p"), "/elsewhere", env))
}

fn old_project() -> World {
    let mut w = world();
    w.dirs.insert("/p/.notarai".to_string());
    w.files.insert(
        "/p/.notarai/notarai.spec.json".to_string(),
        "{\"$id\":\"https://notarai.dev/schema/0.4/spec.schema.json\"}".to_string(),
    );
    w.files.insert(
        "/p/.notarai/a.spec.yaml".to_string(),
        "schema_version: '0.4'\nintent: 'a'\nbehaviors: []\nartifacts: {}\n".to_string(),
    );
    w.files.insert(
        "/p/.notarai/b.spec.yaml".to_string(),
        "schema_version: \"0.5\"\nintent: 'b'\nbehaviors: []\nartifacts: {}\n".to_string(),
    );
    w
}

#[test]
fn bump_moves_the_specs_and_installs_the_schema() {
    let mut w = old_project();
    let report = bump(&mut w);
    assert_eq!(report.exit_code, 0, "{:?}", stderr(&report.lines));
    assert_eq!(
        stdout(&report.lines),
        vec!["Updating schema from 0.4 to 0.5", "Updated 1 spec file(s) from 0.4 to 0.5"]
    );
    assert_eq!(w.files.get("/p/.notarai/notarai.spec.json").map(String::as_str), Some(SCHEMA_STR));
    assert!(w.files["/p/.notarai/a.spec.yaml"].starts_with("schema_version: '0.5'\n"));
    assert!(w.files["/p/.notarai/b.spec.yaml"].starts_with("schema_version: \"0.5\"\n"));
    w.asked.clear();
    let again = bump(&mut w);
    assert_eq!(again.exit_code, 0);
    assert_eq!(stdout(&again.lines), vec!["Already at current schema version (0.5)"]);
    assert!(w.asked.is_empty(), "nothing is written");
}

#[test]
fn bump_installs_where_there_is_no_schema() {
    let mut w = world();
    let report = bump(&mut w);
    assert_eq!(report.exit_code, 0);
    assert_eq!(
        stdout(&report.lines),
        vec!["No local schema found, installing version 0.5", "No spec files found in .notarai/"]
    );
    assert!(w.dirs.contains("/p/.notarai"));
    assert!(w.files.contains_key("/p/.notarai/notarai.spec.json"));
}

#[test]
fn bump_fails_when_a_spec_is_not_valid_afterwards() {
    let mut w = old_project();
    w.files.insert("/p/.notarai/c.spec.yaml".to_string(), "schema_version: '0.4'\n".to_string());
    let report = bump(&mut w);
    assert_eq!(report.exit_code, 1);
    let errors = stderr(&report.lines);
    assert_eq!(errors[0], "FAIL /p/.notarai/c.spec.yaml");
    assert!(errors[1].starts_with("  /: "));
    assert_eq!(
        errors.last(),
        Some(&"Validation failed after schema bump -- please review the errors above")
    );
    assert_eq!(w.files["/p/.notarai/c.spec.yaml"], "schema_version: '0.5'\n");
}

#[test]
fn bump_fails_when_nothing_can_be_written() {
    let mut w = old_project();
    w.read_only = true;
    let report = bump(&mut w);
    assert_eq!(report.exit_code, 1);
    assert_eq!(
        stderr(&report.lines),
        vec!["Error: could not write .notarai/notarai.spec.json: Permission denied (os error 13)"]
    );
    let mut bare = world();
    bare.read_only = true;
    let report = bump(&mut bare);
    assert_eq!(
        stderr(&report.lines),
        vec!["Error: could not create .notarai/ directory: Permission denied (os error 13)"]
    );
}

#[test]
fn bump_finds_the_project_from_the_working_directory() {
    let mut w = old_project();
    let report = drive(&mut w, |env| run_bump(None, "/p/src/deep", env));
    assert_eq!(report.exit_code, 0);
    assert_eq!(stdout(&report.lines)[0], "Updating schema from 0.4 to 0.5");
}

#[test]
fn hook_reads_its_payload_from_standard_input() {
    let mut w = world();
    w.files.insert("/p/.notarai/test.spec.yaml".to_string(), "schema_version: \"0.4\"\n".to_string());
    w.input = "{\"tool_input\":{\"file_path\":\"/p/.notarai/test.spec.yaml\"}}".to_string();
    let flagged = drive(&mut w, |env| run_hook("/p", env));
    assert_eq!(flagged.exit_code, 1);
    let errors = stderr(&flagged.lines);
    assert_eq!(errors[0], "Spec validation failed: /p/.notarai/test.spec.yaml");
    assert!(errors.len() > 1);
    assert!(stdout(&flagged.lines).is_empty());
    w.files.insert("/p/.notarai/test.spec.yaml".to_string(), VALID.to_string());
    let passed = drive(&mut w, |env| run_hook("/p", env));
    assert_eq!(passed.exit_code, 0);
    assert!(passed.lines.is_empty());
    w.input = "not json!".to_string();
    let ignored = drive(&mut w, |env| run_hook("/p", env));
    assert_eq!(ignored.exit_code, 0);
    assert!(ignored.lines.is_empty());
}

fn assets() -> InitAssets {
    InitAssets {
        assistant: ".assistant".to_string(),
        context_file: "CONTEXT.md".to_string(),
        reconcile: "reconcile".to_string(),
        bootstrap: "bootstrap".to_string(),
        readme_template: "# NotarAI {{VERSION}}\n".to_string(),
        version: "9.9.9".to_string(),
    }
}

fn init(w: &mut World) -> CliOutput {
    drive(w, |env| run_init("/p", &assets(), env))
}

#[test]
fn init_sets_a_fresh_project_up() {
    let mut w = world();
    let report = init(&mut w);
    assert_eq!(report.exit_code, 0);
    assert!(stderr(&report.lines).is_empty());
    assert_eq!(
        stdout(&report.lines),
        vec![
            "Added NotarAI validation hook to .assistant/settings.json",
            "Copied schema to .notarai/notarai.spec.json",
            "Wrote .notarai/README.md",
            "Updated .assistant/commands/notarai-reconcile.md",
            "Updated .assistant/commands/notarai-bootstrap.md",
            "Added NotarAI context to CONTEXT.md",
            "Added .notarai/.cache/ to .gitignore",
            "Added NotarAI MCP server to .mcp.json",
        ]
    );
    assert!(w.dirs.contains("/p/.assistant"));
    assert!(w.dirs.contains("/p/.notarai"));
    assert!(w.files["/p/.assistant/settings.json"].contains("notarai hook validate"));
    assert_eq!(w.files["/p/.notarai/README.md"], "# NotarAI 9.9.9\n");
    assert_eq!(w.files["/p/.assistant/commands/notarai-bootstrap.md"], "bootstrap");
    assert!(w.files["/p/.mcp.json"].contains("\"notarai\""));
}

#[test]
fn init_can_be_run_again() {
    let mut w = world();
    init(&mut w);
    let settings = w.files["/p/.assistant/settings.json"].clone();
    let report = init(&mut w);
    assert_eq!(report.exit_code, 0);
    assert_eq!(
        stdout(&report.lines),
        vec![
            "NotarAI hook already configured in .assistant/settings.json",
            "Copied schema to .notarai/notarai.spec.json",
            "Wrote .notarai/README.md",
            "Updated .assistant/commands/notarai-reconcile.md",
            "Updated .assistant/commands/notarai-bootstrap.md",
            "Updated NotarAI section in CONTEXT.md",
            ".notarai/.cache/ already in .gitignore",
            "NotarAI MCP server already configured in .mcp.json",
        ]
    );
    assert_eq!(w.files["/p/.assistant/settings.json"], settings);
    assert_eq!(w.files["/p/CONTEXT.md"].matches("## NotarAI").count(), 1);
}

#[test]
fn init_keeps_what_the_settings_hold() {
    let mut w = world();
    w.dirs.insert("/p/.assistant".to_string());
    w.files.insert(
        "/p/.assistant/settings.json".to_string(),
        "{\"customKey\": \"preserved\"}".to_string(),
    );
    w.files.insert("/p/.mcp.json".to_string(), "{\"mcpServers\": {\"other\": {}}}".to_string());
    let report = init(&mut w);
    assert_eq!(report.exit_code, 0);
    assert!(w.files["/p/.assistant/settings.json"].contains("\"customKey\": \"preserved\""));
    assert!(w.files["/p/.assistant/settings.json"].contains("PostToolUse"));
    assert!(w.files["/p/.mcp.json"].contains("\"other\""));
    assert_eq!(stdout(&report.lines).last(), Some(&"Added notarai MCP server to .mcp.json"));
}

#[test]
fn init_stops_at_settings_it_cannot_use() {
    let mut w = world();
    w.dirs.insert("/p/.assistant".to_string());
    w.files.insert("/p/.assistant/settings.json".to_string(), "not json".to_string());
    let report = init(&mut w);
    assert_eq!(report.exit_code, 1);
    assert_eq!(
        stderr(&report.lines),
        vec!["Error: could not parse existing .assistant/settings.json"]
    );
    assert!(!w.files.contains_key("/p/.mcp.json"));
    w.files.insert("/p/.assistant/settings.json".to_string(), "{\"hooks\": 3}".to_string());
    let report = init(&mut w);
    assert_eq!(report.exit_code, 1);
    assert_eq!(stderr(&report.lines), vec!["Error: .assistant/settings.json holds no settings"]);
}

#[test]
fn init_fails_where_nothing_can_be_made() {
    let mut w = world();
    w.read_only = true;
    let report = init(&mut w);
    assert_eq!(report.exit_code, 1);
    assert_eq!(
        stderr(&report.lines),
        vec!["Error: could not create .assistant/ directory: Permission denied (os error 13)"]
    );
}
