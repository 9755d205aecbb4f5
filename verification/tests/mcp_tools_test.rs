use notarai::cache::{FileProbe, HashStore, StoreFailure, StoreStage};
use notarai::env::{CommandOutput, DirEntry, Observations, Request, Response, Step};
use notarai::mcp_tools::{
    clear_cache, diff_arguments, find_system_spec, get_changed_artifacts, get_spec_diff,
    list_affected_specs, mark_reconciled, partition_governed, McpError, INTERNAL_ERROR,
};
use std::collections::BTreeMap;

const ROOT: &str = "/repo";

const TXT_SPEC: &str = "schema_version: '0.4'
intent: 'Test spec governing txt files'
behaviors:
  - name: tracks_txt_files
    given: 'txt files exist'
    then: 'they appear in the diff'
artifacts:
  code:
    - path: '*.txt'
";

const GOVERNING_SPEC: &str = "schema_version: '0.4'
intent: 'Spec that governs a child spec and a code file'
behaviors:
  - name: tracks
    given: 'child spec and code file exist'
    then: 'they are tracked'
artifacts:
  code:
    - path: 'code.txt'
    - path: '.notarai/child.spec.yaml'
";

const CHILD_SPEC_V2: &str = "schema_version: '0.4'
intent: 'Child spec v2 - updated'
behaviors:
  - name: test
    given: 'test'
    then: 'test updated'
artifacts:
  code:
    - path: 'code.txt'
";

const SYSTEM_SPEC: &str = "schema_version: '0.4'
intent: 'System spec with subsystems'
behaviors:
  - name: orchestrates
    given: 'subsystems exist'
    then: 'they are composed'
subsystems:
  - $ref: './child.spec.yaml'
artifacts:
  docs:
    - path: 'README.md'
";

/// A project kept in memory: its files, the rows of its hash store, and the
/// paths that differ from the base revision.
struct World {
    files: BTreeMap<String, Vec<u8>>,
    rows: Vec<(String, String, i64)>,
    has_store: bool,
    store_broken: bool,
    modified: Vec<String>,
    git_fails: bool,
    git_rejects: Option<String>,
    locked: Vec<String>,
    now: i64,
    asked: Vec<String>,
}

fn world() -> World {
    World {
        files: BTreeMap::new(),
        rows: Vec::new(),
        has_store: false,
        store_broken: false,
        modified: Vec::new(),
        git_fails: false,
        git_rejects: None,
        locked: Vec::new(),
        now: 1_700_000_000,
        asked: Vec::new(),
    }
}

fn put(w: &mut World, rel: &str, content: &str) {
    w.files.insert(format!("{ROOT}/{rel}"), content.as_bytes().to_vec());
}

fn glob_options() -> glob::MatchOptions {
    let mut options = glob::MatchOptions::new();
    options.require_literal_separator = true;
    options
}

fn read_text(w: &World, path: &str) -> Result<String, String> {
    match w.files.get(path) {
        Some(bytes) => String::from_utf8(bytes.clone()).map_err(|e| e.to_string()),
        None => Err("No such file or directory (os error 2)".to_string()),
    }
}

fn path_exists(w: &World, path: &str) -> bool {
    let below = format!("{}/", path.trim_end_matches('/'));
    w.files.contains_key(path) || w.files.keys().any(|k| k.starts_with(&below))
}

fn git(w: &World, args: &[String]) -> Result<CommandOutput, String> {
    if w.git_fails {
        return Err("No such file or directory (os error 2)".to_string());
    }
    if let Some(complaint) = &w.git_rejects {
        return Ok(CommandOutput {
            success: false,
            stdout: "partial output".to_string(),
            stderr: complaint.clone(),
        });
    }
    if args.len() == 3 && args[2] == "--name-only" {
        let mut out = String::new();
        for m in &w.modified {
            out.push_str(m);
            out.push('\n');
        }
        return Ok(CommandOutput { success: true, stdout: out, stderr: String::new() });
    }
    let paths: Vec<&String> =
        args[3..].iter().filter(|a| !a.starts_with(":(exclude)")).collect();
    let excluded: Vec<glob::Pattern> = args[3..]
        .iter()
        .filter_map(|a| a.strip_prefix(":(exclude)"))
        .map(|p| glob::Pattern::new(p).unwrap())
        .collect();
    let mut out = String::new();
    for p in paths {
        if w.modified.contains(p) && !excluded.iter().any(|x| x.matches(p)) {
            out.push_str(&format!("diff --git a/{p} b/{p}\n--- a/{p}\n+++ b/{p}\n"));
        }
    }
    Ok(CommandOutput { success: true, stdout: out, stderr: String::new() })
}

fn perform(w: &mut World, request: &Request) -> Response {
    match request {
        Request::ReadTexts { paths } => {
            w.asked.push(format!("read {}", paths.join(",")));
            Response::Texts(paths.iter().map(|p| read_text(w, p)).collect())
        }
        Request::PathExists { path } => {
            w.asked.push(format!("exists {path}"));
            let db = format!("{ROOT}/.notarai/.cache/notarai.db");
            Response::Flag(if *path == db { w.has_store } else { path_exists(w, path) })
        }
        Request::IsDir { path } => {
            w.asked.push(format!("is_dir {path}"));
            let below = format!("{}/", path.trim_end_matches('/'));
            Response::Flag(w.files.keys().any(|k| k.starts_with(&below)))
        }
        Request::IsFile { path } => Response::Flag(w.files.contains_key(path)),
        Request::FilesBelow { path } => {
            let below = format!("{path}/");
            Response::Files(w.files.keys().filter(|k| k.starts_with(&below)).cloned().collect())
        }
        Request::ProbeFiles { paths } => {
            w.asked.push(format!("probe {}", paths.join(",")));
            Response::Probes(
                paths
                    .iter()
                    .map(|p| FileProbe {
                        exists: path_exists(w, p),
                        read: match w.files.get(p) {
                            Some(_) if w.locked.contains(p) => {
                                Err("Permission denied (os error 13)".to_string())
                            }
                            Some(bytes) => Ok(bytes.clone()),
                            None => Err("No such file or directory (os error 2)".to_string()),
                        },
                    })
                    .collect(),
            )
        }
        Request::ExpandGlobs { patterns } => {
            w.asked.push(format!("expand {}", patterns.join(",")));
            Response::Expansions(
                patterns
                    .iter()
                    .map(|p| match glob::Pattern::new(p) {
                        Ok(pattern) => w
                            .files
                            .keys()
                            .filter(|k| pattern.matches_with(k, glob_options()))
                            .cloned()
                            .collect(),
                        Err(_) => Vec::new(),
                    })
                    .collect(),
            )
        }
        Request::ListDir { path } => {
            w.asked.push(format!("list {path}"));
            let below = format!("{path}/");
            Response::Listing(Some(
                w.files
                    .keys()
                    .filter(|k| k.starts_with(&below) && !k[below.len()..].contains('/'))
                    .map(|k| DirEntry { path: k.clone(), is_file: true })
                    .collect(),
            ))
        }
        Request::WalkFiles { path } => {
            w.asked.push(format!("walk {path}"));
            let below = format!("{path}/");
            Response::Walk(Ok(w.files.keys().filter(|k| k.starts_with(&below)).cloned().collect()))
        }
        Request::OpenStore { project_root } => {
            w.asked.push(format!("open {project_root}"));
            if w.store_broken {
                return Response::Store(Err(StoreFailure {
                    stage: StoreStage::Open,
                    detail: "disk I/O error".to_string(),
                }));
            }
            w.has_store = true;
            let mut store = HashStore::new();
            for (path, hash, at) in &w.rows {
                store.upsert(path, hash, *at);
            }
            Response::Store(Ok(store))
        }
        Request::Persist { project_root, pairs } => {
            w.asked.push(format!("persist {project_root} {}", pairs.len()));
            for pair in pairs {
                w.rows.retain(|(p, _, _)| *p != pair.path);
                w.rows.push((pair.path.clone(), pair.content_hash.clone(), w.now));
            }
            Response::Persisted(Ok(()))
        }
        Request::RunGit { project_root, args } => {
            w.asked.push(format!("git {project_root} {}", args.join(" ")));
            Response::Command(git(w, args))
        }
        Request::RemoveFile { path } => {
            w.asked.push(format!("remove {path}"));
            w.has_store = false;
            w.rows.clear();
            Response::Effect(Ok(()))
        }
        Request::ReadInput => Response::Input(Ok(String::new())),
        Request::Canonicalize { paths } => {
            Response::Resolved(paths.iter().map(|p| Some(p.clone())).collect())
        }
        Request::CreateDirs { path } => {
            w.asked.push(format!("mkdir {path}"));
            Response::Effect(Ok(()))
        }
        Request::WriteText { path, content } => {
            w.asked.push(format!("write {path}"));
            w.files.insert(path.clone(), content.as_bytes().to_vec());
            Response::Effect(Ok(()))
        }
    }
}

/// Runs an operation to its end, carrying out each request it makes. Every
/// call starts from nothing observed, as every call of the program does.
fn drive<T>(w: &mut World, operation: impl Fn(&Observations) -> Step<T>) -> T {
    let mut env = Observations::new();
    for _ in 0..50 {
        match operation(&env) {
            Step::Done(result) => return result,
            Step::Need(request) => {
                let response = perform(w, &request);
                assert!(env.record(request, response));
            }
        }
    }
    panic!("the operation keeps asking");
}

fn ok<T>(r: Result<T, McpError>) -> T {
    match r {
        Ok(v) => v,
        Err(e) => panic!("unexpected error {}: {}", e.code, e.message),
    }
}

fn strings(v: &[&str]) -> Vec<String> {
    v.iter().map(|s| s.to_string()).collect()
}

fn txt_project() -> World {
    let mut w = world();
    put(&mut w, ".notarai/test.spec.yaml", TXT_SPEC);
    put(&mut w, "alpha.txt", "changed");
    put(&mut w, "beta.txt", "changed");
    w.modified = strings(&["alpha.txt", "beta.txt"]);
    w
}

fn spec_diff(
    w: &mut World,
    spec: &str,
    excludes: &[&str],
    bypass: bool,
) -> Result<notarai::mcp_tools::SpecDiff, McpError> {
    let excludes = strings(excludes);
    drive(w, |env| get_spec_diff(spec, "HEAD~1", &excludes, bypass, ROOT, env))
}

#[test]
fn get_spec_diff_cold_cache_includes_all_changed_files() {
    let mut w = txt_project();
    let d = ok(spec_diff(&mut w, ".notarai/test.spec.yaml", &[], false));
    assert!(d.diff.contains("diff --git a/alpha.txt"));
    assert!(d.diff.contains("diff --git a/beta.txt"));
    assert_eq!(d.files, vec!["alpha.txt", "beta.txt"]);
    assert!(d.skipped.is_empty());
    assert!(d.excluded.is_empty());
    assert!(d.spec_changes.is_empty());
    assert!(d.system_spec.is_none());
}

#[test]
fn get_spec_diff_skips_file_matching_cache() {
    let mut w = txt_project();
    let seeded = ok(drive(&mut w, |env| mark_reconciled(&strings(&["beta.txt"]), ROOT, env)));
    assert_eq!(seeded.updated, 1);
    let d = ok(spec_diff(&mut w, ".notarai/test.spec.yaml", &[], false));
    assert!(d.diff.contains("diff --git a/alpha.txt"));
    assert!(!d.diff.contains("diff --git a/beta.txt"));
    assert_eq!(d.files, vec!["alpha.txt"]);
    assert_eq!(d.skipped, vec!["beta.txt"]);
}

#[test]
fn get_spec_diff_skips_all_when_all_files_cached() {
    let mut w = txt_project();
    ok(drive(&mut w, |env| mark_reconciled(&strings(&["alpha.txt", "beta.txt"]), ROOT, env)));
    w.asked.clear();
    let d = ok(spec_diff(&mut w, ".notarai/test.spec.yaml", &[], false));
    assert_eq!(d.diff, "");
    assert!(d.files.is_empty());
    assert_eq!(d.skipped, vec!["alpha.txt", "beta.txt"]);
    assert!(!w.asked.iter().any(|a| a.starts_with("git ")), "the tool must not be run");
}

#[test]
fn get_spec_diff_bypass_cache_includes_all_files() {
    let mut w = txt_project();
    ok(drive(&mut w, |env| mark_reconciled(&strings(&["alpha.txt", "beta.txt"]), ROOT, env)));
    w.asked.clear();
    let d = ok(spec_diff(&mut w, ".notarai/test.spec.yaml", &[], true));
    assert!(d.diff.contains("diff --git a/alpha.txt"));
    assert!(d.diff.contains("diff --git a/beta.txt"));
    assert_eq!(d.files, vec!["alpha.txt", "beta.txt"]);
    assert!(d.skipped.is_empty());
    assert!(!w.asked.iter().any(|a| a.starts_with("open ")), "the store must not be opened");
}

#[test]
fn clear_cache_allows_full_diff_on_next_call() {
    let mut w = txt_project();
    ok(drive(&mut w, |env| mark_reconciled(&strings(&["alpha.txt", "beta.txt"]), ROOT, env)));
    let cleared = ok(drive(&mut w, |env| clear_cache(ROOT, env)));
    assert!(cleared.cleared);
    let again = ok(drive(&mut w, |env| clear_cache(ROOT, env)));
    assert!(!again.cleared);
    let d = ok(spec_diff(&mut w, ".notarai/test.spec.yaml", &[], false));
    assert!(d.diff.contains("diff --git a/alpha.txt"));
    assert!(d.diff.contains("diff --git a/beta.txt"));
    assert!(d.skipped.is_empty());
}

#[test]
fn get_spec_diff_without_exclude_patterns_shows_all_changed_files() {
    let mut w = world();
    put(&mut w, ".notarai/test.spec.yaml", TXT_SPEC);
    put(&mut w, "included.txt", "modified");
    put(&mut w, "noisy.txt", "modified");
    w.modified = strings(&["included.txt", "noisy.txt"]);
    let d = ok(spec_diff(&mut w, ".notarai/test.spec.yaml", &[], false));
    assert!(d.diff.contains("diff --git a/included.txt"));
    assert!(d.diff.contains("diff --git a/noisy.txt"));
}

#[test]
fn get_spec_diff_exclude_patterns_suppresses_exact_filename_from_diff() {
    let mut w = world();
    put(&mut w, ".notarai/test.spec.yaml", TXT_SPEC);
    put(&mut w, "included.txt", "modified");
    put(&mut w, "noisy.txt", "modified");
    w.modified = strings(&["included.txt", "noisy.txt"]);
    let d = ok(spec_diff(&mut w, ".notarai/test.spec.yaml", &["noisy.txt"], false));
    assert!(d.diff.contains("diff --git a/included.txt"));
    assert!(!d.diff.contains("diff --git a/noisy.txt"));
    assert_eq!(d.excluded, vec!["noisy.txt"]);
}

#[test]
fn every_governed_file_is_on_one_side_of_the_partition() {
    let files = strings(&[
        "src/a.rs",
        ".notarai/a.spec.yaml",
        ".notarai/README.md",
        "docs/b.spec.yaml",
        ".notarai/sub/c.spec.yaml",
        "src/a.rs",
    ]);
    let (specs, artifacts) = partition_governed(&files);
    assert_eq!(specs, vec![".notarai/a.spec.yaml", ".notarai/sub/c.spec.yaml"]);
    assert_eq!(
        artifacts,
        vec!["src/a.rs", ".notarai/README.md", "docs/b.spec.yaml", "src/a.rs"]
    );
    assert_eq!(specs.len() + artifacts.len(), files.len());
    assert!(specs.iter().all(|f| !artifacts.contains(f)));
    let (no_specs, no_artifacts) = partition_governed(&vec![]);
    assert!(no_specs.is_empty() && no_artifacts.is_empty());
}

#[test]
fn get_spec_diff_degrades_when_the_store_cannot_be_opened() {
    let mut w = txt_project();
    ok(drive(&mut w, |env| mark_reconciled(&strings(&["alpha.txt", "beta.txt"]), ROOT, env)));
    w.store_broken = true;
    let d = ok(spec_diff(&mut w, ".notarai/test.spec.yaml", &[], false));
    assert_eq!(d.files, vec!["alpha.txt", "beta.txt"]);
    assert!(d.skipped.is_empty());
    assert_eq!(d.warnings, vec!["Warning: could not open cache DB: disk I/O error"]);
    let bypassed = ok(spec_diff(&mut w, ".notarai/test.spec.yaml", &[], true));
    assert_eq!(bypassed.files, vec!["alpha.txt", "beta.txt"]);
    assert!(bypassed.warnings.is_empty(), "the store was not asked for");
}

#[test]
fn get_spec_diff_keeps_a_file_that_cannot_be_hashed() {
    let mut w = txt_project();
    ok(drive(&mut w, |env| mark_reconciled(&strings(&["alpha.txt", "beta.txt"]), ROOT, env)));
    w.locked = strings(&["/repo/beta.txt"]);
    let d = ok(spec_diff(&mut w, ".notarai/test.spec.yaml", &[], false));
    assert_eq!(d.files, vec!["beta.txt"]);
    assert_eq!(d.skipped, vec!["alpha.txt"]);
    assert_eq!(
        d.warnings,
        vec!["Warning: could not read /repo/beta.txt: Permission denied (os error 13)"]
    );
}

#[test]
fn get_spec_diff_exclude_patterns_supports_glob_patterns() {
    let mut w = world();
    put(
        &mut w,
        ".notarai/test.spec.yaml",
        "schema_version: '0.4'\nintent: 'x'\nbehaviors: []\nartifacts:\n  code:\n    - path: 'a.txt'\n    - path: 'b.lock'\n",
    );
    put(&mut w, "a.txt", "modified");
    put(&mut w, "b.lock", "modified");
    w.modified = strings(&["a.txt", "b.lock"]);
    let d = ok(spec_diff(&mut w, ".notarai/test.spec.yaml", &["*.lock"], false));
    assert!(d.diff.contains("diff --git a/a.txt"));
    assert!(!d.diff.contains("diff --git a/b.lock"));
    assert_eq!(d.excluded, vec!["*.lock"]);
    assert_eq!(d.files, vec!["a.txt", "b.lock"]);
    assert!(w
        .asked
        .contains(&"git /repo diff HEAD~1 -- a.txt b.lock :(exclude)*.lock".to_string()));
}

#[test]
fn diff_arguments_list_revision_files_and_exclusions() {
    let args = diff_arguments("main", &strings(&["a.txt", "src/b.rs"]), &strings(&["*.lock", "Cargo.lock"]));
    assert_eq!(
        args,
        vec!["diff", "main", "--", "a.txt", "src/b.rs", ":(exclude)*.lock", ":(exclude)Cargo.lock"]
    );
    assert_eq!(diff_arguments("main", &[].to_vec(), &[].to_vec()), vec!["diff", "main", "--"]);
}

fn governing_project() -> World {
    let mut w = world();
    put(&mut w, ".notarai/system.spec.yaml", SYSTEM_SPEC);
    put(&mut w, ".notarai/governing.spec.yaml", GOVERNING_SPEC);
    put(&mut w, ".notarai/child.spec.yaml", CHILD_SPEC_V2);
    put(&mut w, "code.txt", "initial");
    put(&mut w, "README.md", "readme");
    w.modified = strings(&[".notarai/child.spec.yaml"]);
    w
}

#[test]
fn get_spec_diff_includes_system_spec_when_spec_changes() {
    let mut w = governing_project();
    ok(drive(&mut w, |env| mark_reconciled(&strings(&["code.txt"]), ROOT, env)));
    w.asked.clear();
    let d = ok(spec_diff(&mut w, ".notarai/governing.spec.yaml", &[], false));
    assert_eq!(d.spec_changes.len(), 1);
    assert_eq!(d.spec_changes[0].path, ".notarai/child.spec.yaml");
    assert_eq!(d.spec_changes[0].content, CHILD_SPEC_V2);
    assert_eq!(d.diff, "");
    assert!(d.files.is_empty());
    assert_eq!(d.skipped, vec!["code.txt"]);
    let system = d.system_spec.expect("a system spec");
    assert_eq!(system.path, ".notarai/system.spec.yaml");
    assert_eq!(system.content.as_deref(), Some(SYSTEM_SPEC));
    assert!(!w.asked.iter().any(|a| a.starts_with("git ")));
}

#[test]
fn get_spec_diff_splits_spec_files_into_spec_changes() {
    let mut w = governing_project();
    w.modified = strings(&[".notarai/child.spec.yaml", "code.txt"]);
    let d = ok(spec_diff(&mut w, ".notarai/governing.spec.yaml", &[], false));
    assert_eq!(d.spec_changes.len(), 1);
    assert!(d.spec_changes[0].path.ends_with("child.spec.yaml"));
    assert!(d.diff.contains("diff --git a/code.txt"));
    assert!(!d.diff.contains("diff --git a/.notarai/child.spec.yaml"));
    assert_eq!(d.files, vec!["code.txt"]);
}

#[test]
fn get_spec_diff_no_spec_changes_when_only_code_changes() {
    let mut w = txt_project();
    w.asked.clear();
    let d = ok(spec_diff(&mut w, ".notarai/test.spec.yaml", &[], false));
    assert!(d.spec_changes.is_empty());
    assert!(d.system_spec.is_none());
    assert!(!w.asked.iter().any(|a| a.starts_with("list ")));
}

#[test]
fn get_spec_diff_cache_filtering_applies_to_spec_files() {
    let mut w = governing_project();
    w.modified = strings(&[".notarai/child.spec.yaml", "code.txt"]);
    ok(drive(&mut w, |env| {
        mark_reconciled(&strings(&[".notarai/child.spec.yaml"]), ROOT, env)
    }));
    let d = ok(spec_diff(&mut w, ".notarai/governing.spec.yaml", &[], false));
    assert!(d.diff.contains("diff --git a/code.txt"));
    assert!(d.spec_changes.is_empty());
    assert!(d.system_spec.is_none());
    assert!(d.skipped.is_empty(), "unchanged spec files are not listed as skipped");
}

#[test]
fn system_spec_that_changed_is_referred_to_by_path_only() {
    let mut w = governing_project();
    let shown = strings(&[".notarai/system.spec.yaml"]);
    let found = ok(drive(&mut w, |env| find_system_spec(ROOT, &shown, env)));
    let system = found.expect("a system spec");
    assert_eq!(system.path, ".notarai/system.spec.yaml");
    assert_eq!(system.content, None);
}

#[test]
fn system_spec_falls_back_to_the_fixed_name() {
    let mut w = world();
    put(&mut w, ".notarai/system.spec.yaml", "intent: 'no subsystems here'\n");
    put(&mut w, ".notarai/a.spec.yaml", "intent: 'a'\n");
    let found = ok(drive(&mut w, |env| find_system_spec(ROOT, &[].to_vec(), env)));
    let system = found.expect("the fallback");
    assert_eq!(system.path, ".notarai/system.spec.yaml");
    assert_eq!(system.content.as_deref(), Some("intent: 'no subsystems here'\n"));
}

#[test]
fn system_spec_is_absent_without_candidates_or_directory() {
    let mut w = world();
    put(&mut w, "README.md", "x");
    assert!(ok(drive(&mut w, |env| find_system_spec(ROOT, &[].to_vec(), env))).is_none());
    put(&mut w, ".notarai/a.spec.yaml", "intent: 'a'\n");
    put(&mut w, ".notarai/sub/deep.spec.yaml", SYSTEM_SPEC);
    assert!(
        ok(drive(&mut w, |env| find_system_spec(ROOT, &[].to_vec(), env))).is_none(),
        "the scan does not descend"
    );
}

#[test]
fn get_spec_diff_of_spec_without_files_is_empty() {
    let mut w = world();
    put(&mut w, ".notarai/test.spec.yaml", TXT_SPEC);
    w.asked.clear();
    let d = ok(spec_diff(&mut w, ".notarai/test.spec.yaml", &["*.lock"], false));
    assert_eq!(d.diff, "");
    assert!(d.files.is_empty() && d.skipped.is_empty() && d.spec_changes.is_empty());
    assert!(d.system_spec.is_none());
    assert_eq!(d.excluded, vec!["*.lock"]);
    assert!(!w.asked.iter().any(|a| a.starts_with("open ") || a.starts_with("git ")));
}

#[test]
fn get_spec_diff_fails_on_unreadable_or_malformed_spec() {
    let mut w = world();
    let missing = spec_diff(&mut w, ".notarai/none.spec.yaml", &[], false);
    match missing {
        Err(e) => {
            assert_eq!(e.code, INTERNAL_ERROR);
            assert_eq!(e.code, -32603);
            assert_eq!(e.message, "read error: No such file or directory (os error 2)");
        }
        Ok(_) => panic!("expected an error"),
    }
    put(&mut w, ".notarai/bad.spec.yaml", "foo: [unterminated");
    match spec_diff(&mut w, ".notarai/bad.spec.yaml", &[], false) {
        Err(e) => assert_eq!(e.code, -32603),
        Ok(_) => panic!("expected an error"),
    }
}

#[test]
fn get_spec_diff_reports_a_tool_that_cannot_be_run() {
    let mut w = txt_project();
    w.git_fails = true;
    match spec_diff(&mut w, ".notarai/test.spec.yaml", &[], true) {
        Err(e) => {
            assert_eq!(e.code, -32603);
            assert_eq!(e.message, "git error: No such file or directory (os error 2)");
        }
        Ok(_) => panic!("expected an error"),
    }
}

#[test]
fn get_spec_diff_reports_a_tool_that_exits_with_failure() {
    let mut w = txt_project();
    w.git_rejects = Some("fatal: bad revision 'HEAD~1'\n".to_string());
    match spec_diff(&mut w, ".notarai/test.spec.yaml", &[], true) {
        Err(e) => {
            assert_eq!(e.code, -32603);
            assert_eq!(e.message, "fatal: bad revision 'HEAD~1'\n");
        }
        Ok(_) => panic!("expected an error"),
    }
    let base = "HEAD~1";
    match drive(&mut w, |env| list_affected_specs(base, ROOT, env)) {
        Err(e) => assert_eq!(e.message, "fatal: bad revision 'HEAD~1'\n"),
        Ok(_) => panic!("expected an error"),
    }
}

#[test]
fn overlapping_globs_repeat_files() {
    let mut w = world();
    put(
        &mut w,
        ".notarai/test.spec.yaml",
        "artifacts:\n  code:\n    - path: '*.txt'\n  docs:\n    - path: 'a*'\n    - role: 'no path'\n    - path: '[broken'\n",
    );
    put(&mut w, "a.txt", "1");
    put(&mut w, "b.txt", "2");
    w.modified = strings(&["a.txt", "b.txt"]);
    let d = ok(spec_diff(&mut w, ".notarai/test.spec.yaml", &[], true));
    assert_eq!(d.files, vec!["a.txt", "b.txt", "a.txt"]);
    let docs = ok(drive(&mut w, |env| {
        get_changed_artifacts(".notarai/test.spec.yaml", Some("docs"), ROOT, env)
    }));
    assert_eq!(docs.changed_artifacts, vec!["a.txt"]);
    let none = ok(drive(&mut w, |env| {
        get_changed_artifacts(".notarai/test.spec.yaml", Some("absent"), ROOT, env)
    }));
    assert!(none.changed_artifacts.is_empty());
}

#[test]
fn mark_reconciled_twice_leaves_files_unchanged() {
    let mut w = txt_project();
    let files = strings(&["alpha.txt", "beta.txt", "missing.txt"]);
    let first = ok(drive(&mut w, |env| mark_reconciled(&files, ROOT, env)));
    assert_eq!(first.updated, 2);
    let after_first = ok(drive(&mut w, |env| {
        get_changed_artifacts(".notarai/test.spec.yaml", None, ROOT, env)
    }));
    assert!(after_first.changed_artifacts.is_empty());
    w.now += 60;
    let second = ok(drive(&mut w, |env| mark_reconciled(&files, ROOT, env)));
    assert_eq!(second.updated, 2);
    let after_second = ok(drive(&mut w, |env| {
        get_changed_artifacts(".notarai/test.spec.yaml", None, ROOT, env)
    }));
    assert!(after_second.changed_artifacts.is_empty());
    assert_eq!(w.rows.len(), 2, "one entry per path");
    put(&mut w, "alpha.txt", "edited");
    let after_edit = ok(drive(&mut w, |env| {
        get_changed_artifacts(".notarai/test.spec.yaml", None, ROOT, env)
    }));
    assert_eq!(after_edit.changed_artifacts, vec!["alpha.txt"]);
    put(&mut w, "alpha.txt", "changed");
    let after_revert = ok(drive(&mut w, |env| {
        get_changed_artifacts(".notarai/test.spec.yaml", None, ROOT, env)
    }));
    assert!(after_revert.changed_artifacts.is_empty(), "hashing goes by content");
}

#[test]
fn mark_reconciled_of_nothing_writes_nothing() {
    let mut w = world();
    let r = ok(drive(&mut w, |env| mark_reconciled(&strings(&["gone.txt"]), ROOT, env)));
    assert_eq!(r.updated, 0);
    assert!(!w.asked.iter().any(|a| a.starts_with("persist ")));
}

#[test]
fn mark_reconciled_fails_when_the_store_fails() {
    let mut w = txt_project();
    w.store_broken = true;
    match drive(&mut w, |env| mark_reconciled(&strings(&["alpha.txt"]), ROOT, env)) {
        Err(e) => {
            assert_eq!(e.code, -32603);
            assert_eq!(e.message, "could not open cache DB: disk I/O error");
        }
        Ok(_) => panic!("expected an error"),
    }
    assert!(!w.asked.iter().any(|a| a.starts_with("persist ")));
}

#[test]
fn get_changed_artifacts_lists_everything_when_the_store_cannot_be_opened() {
    let mut w = txt_project();
    ok(drive(&mut w, |env| mark_reconciled(&strings(&["alpha.txt", "beta.txt"]), ROOT, env)));
    let before = ok(drive(&mut w, |env| {
        get_changed_artifacts(".notarai/test.spec.yaml", None, ROOT, env)
    }));
    assert!(before.changed_artifacts.is_empty());
    assert!(before.warnings.is_empty());
    w.store_broken = true;
    let r = ok(drive(&mut w, |env| {
        get_changed_artifacts(".notarai/test.spec.yaml", None, ROOT, env)
    }));
    assert_eq!(r.changed_artifacts, vec!["alpha.txt", "beta.txt"]);
    assert_eq!(r.warnings, vec!["Warning: could not open cache DB: disk I/O error"]);
}

#[test]
fn files_that_cannot_be_hashed_are_warned_of() {
    let mut w = txt_project();
    w.locked = strings(&["/repo/beta.txt"]);
    let files = strings(&["alpha.txt", "beta.txt", "missing.txt"]);
    let done = ok(drive(&mut w, |env| mark_reconciled(&files, ROOT, env)));
    assert_eq!(done.updated, 1);
    assert_eq!(
        done.warnings,
        vec!["Warning: could not read /repo/beta.txt: Permission denied (os error 13)"]
    );
    assert_eq!(w.rows.len(), 1);
    assert_eq!(w.rows[0].0, "alpha.txt");
    let changed = ok(drive(&mut w, |env| {
        get_changed_artifacts(".notarai/test.spec.yaml", None, ROOT, env)
    }));
    assert!(changed.changed_artifacts.is_empty(), "neither changed nor unchanged");
    assert_eq!(
        changed.warnings,
        vec!["Warning: could not read /repo/beta.txt: Permission denied (os error 13)"]
    );
    w.locked.clear();
    let readable = ok(drive(&mut w, |env| mark_reconciled(&files, ROOT, env)));
    assert_eq!(readable.updated, 2);
    assert!(readable.warnings.is_empty(), "a missing file is passed over without a word");
}

#[test]
fn list_affected_specs_matches_by_pattern() {
    let mut w = world();
    put(
        &mut w,
        ".notarai/cli.spec.yaml",
        "intent: 'cli'\nbehaviors:\n  - name: b\nconstraints:\n  - 'c1'\nartifacts:\n  code:\n    - path: 'src/**'\n",
    );
    put(&mut w, ".notarai/docs.spec.yaml", "intent: 'docs'\nartifacts:\n  docs:\n    - path: 'docs/*.md'\n");
    put(&mut w, ".notarai/sub/deep.spec.yaml", "artifacts:\n  code:\n    - path: 'src/a/b.ts'\n");
    put(&mut w, ".notarai/README.md", "not a spec");
    w.modified = strings(&["src/a/b.ts", "Cargo.toml"]);
    let r = ok(drive(&mut w, |env| list_affected_specs("main", ROOT, env)));
    assert_eq!(r.changed_files, vec!["src/a/b.ts", "Cargo.toml"]);
    let paths: Vec<&str> = r.affected_specs.iter().map(|s| s.spec_path.as_str()).collect();
    assert_eq!(paths, vec![".notarai/cli.spec.yaml", ".notarai/sub/deep.spec.yaml"]);
    let cli = &r.affected_specs[0];
    assert!(cli.behaviors().is_some());
    assert!(cli.constraints().is_some());
    assert!(cli.invariants().is_none());
    assert!(w.asked.contains(&"git /repo diff main --name-only".to_string()));
}

#[test]
fn list_affected_specs_without_specs_directory() {
    let mut w = world();
    put(&mut w, "src/a.rs", "x");
    w.modified = strings(&["src/a.rs"]);
    let r = ok(drive(&mut w, |env| list_affected_specs("main", ROOT, env)));
    assert_eq!(r.changed_files, vec!["src/a.rs"]);
    assert!(r.affected_specs.is_empty());
}

#[test]
fn list_affected_specs_fails_on_a_malformed_spec() {
    let mut w = world();
    put(&mut w, ".notarai/bad.spec.yaml", "foo: [unterminated");
    w.modified = strings(&["src/a.rs"]);
    match drive(&mut w, |env| list_affected_specs("main", ROOT, env)) {
        Err(e) => assert_eq!(e.code, -32603),
        Ok(_) => panic!("expected an error"),
    }
}

#[test]
fn a_response_of_the_wrong_kind_is_refused() {
    let mut env = Observations::new();
    assert!(!env.record(Request::PathExists { path: "/x".to_string() }, Response::Texts(vec![])));
    assert!(!env.record(
        Request::ReadTexts { paths: strings(&["/a", "/b"]) },
        Response::Texts(vec![Ok("only one".to_string())]),
    ));
    assert!(env.record(Request::PathExists { path: "/x".to_string() }, Response::Flag(true)));
    assert!(env.record(Request::PathExists { path: "/x".to_string() }, Response::Flag(false)));
    assert!(matches!(env.path_exists("/x"), Ok(true)), "the first answer counts");
    assert!(matches!(env.path_exists("/y"), Err(Request::PathExists { .. })));
}
