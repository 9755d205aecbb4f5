use notarai::json::JsonValue;
use notarai::resolver::{
    any_hits, artifact_patterns, artifact_type_patterns, governed_files, is_spec_affected,
};
use notarai::text::{le, lines, non_empty_lines, sorted, trimmed_end};
use notarai::yaml::parse_yaml;

fn doc(yaml: &str) -> JsonValue {
    parse_yaml(yaml).expect("valid YAML")
}

fn strings(v: &[&str]) -> Vec<String> {
    v.iter().map(|s| s.to_string()).collect()
}

const SPEC: &str = "artifacts:
  docs:
    - path: 'docs/*.md'
      role: 'guide'
    - role: 'no path'
    - path: 3
  code:
    - path: 'src/**'
    - path: 'Cargo.toml'
  notes: 'not a list'
";

#[test]
fn patterns_come_type_by_type() {
    assert_eq!(artifact_patterns(&doc(SPEC)), vec!["src/**", "Cargo.toml", "docs/*.md"]);
    assert!(artifact_patterns(&doc("intent: 'x'\n")).is_empty());
    assert!(artifact_patterns(&doc("artifacts: [a, b]\n")).is_empty());
    assert!(artifact_patterns(&JsonValue::Null).is_empty());
}

#[test]
fn patterns_of_one_type() {
    assert_eq!(artifact_type_patterns(&doc(SPEC), "docs"), vec!["docs/*.md"]);
    assert_eq!(artifact_type_patterns(&doc(SPEC), "code"), vec!["src/**", "Cargo.toml"]);
    assert!(artifact_type_patterns(&doc(SPEC), "notes").is_empty());
    assert!(artifact_type_patterns(&doc(SPEC), "absent").is_empty());
}

#[test]
fn affected_goes_by_pattern_not_membership() {
    let spec = doc("artifacts:\n  code:\n    - path: 'src/**'\n");
    assert!(is_spec_affected(&spec, &strings(&["README.md", "src/a/b.ts"])));
    assert!(!is_spec_affected(&spec, &strings(&["README.md", "lib/a.ts"])));
    assert!(!is_spec_affected(&spec, &[].to_vec()));
    assert!(!is_spec_affected(&doc("intent: 'x'\n"), &strings(&["src/a.ts"])));
}

#[test]
fn ill_formed_patterns_match_nothing() {
    assert!(!any_hits(&strings(&["[broken", "a**b"]), &strings(&["[broken", "a**b", "ab"])));
    assert!(any_hits(&strings(&["[broken", "c?t"]), &strings(&["cat"])));
    assert!(any_hits(&strings(&["k[!e]tteh"]), &strings(&["kitteh"])));
    assert!(!any_hits(&strings(&["k[!e]tteh"]), &strings(&["ketteh"])));
    assert!(!any_hits(&[].to_vec(), &strings(&["x"])));
}

#[test]
fn governed_files_are_relative_and_concatenated() {
    let expansions = vec![
        strings(&["/repo/a.txt", "/repo/b.txt"]),
        vec![],
        strings(&["/repo/a.txt", "/elsewhere/c.txt", "/repo/src/d.rs"]),
    ];
    assert_eq!(
        governed_files("/repo", &expansions),
        vec!["a.txt", "b.txt", "a.txt", "src/d.rs"]
    );
    assert!(governed_files("/repo", &vec![]).is_empty());
}

#[test]
fn lines_follow_line_endings() {
    assert_eq!(lines("a\nb\r\nc"), vec!["a", "b", "c"]);
    assert_eq!(lines("a\n\nb\n"), vec!["a", "", "b"]);
    assert_eq!(lines("a\r"), vec!["a\r"]);
    assert_eq!(lines("\n"), vec![""]);
    assert!(lines("").is_empty());
    for s in ["a\nb\r\nc", "a\n\nb\n", "a\r", "\n", "", "\r\n\r\n", "x\r\r\n"] {
        let expected: Vec<String> = s.lines().map(String::from).collect();
        assert_eq!(lines(s), expected, "{s:?}");
    }
    assert_eq!(non_empty_lines("a.txt\n\nsrc/b.rs\n"), vec!["a.txt", "src/b.rs"]);
}

#[test]
fn trimming_removes_white_space_at_the_end() {
    for s in ["a b \t\n", "", "  ", "x\u{a0}\u{3000}", "\u{85}y", "z\u{200b}"] {
        assert_eq!(trimmed_end(s), s.trim_end(), "{s:?}");
    }
}

#[test]
fn sorting_agrees_with_the_order_of_strings() {
    let list: Vec<String> = ["b", "a", "", "ab", "a", "\u{e9}", "z", "Z", "\u{10000}", "\u{ffff}", "a/b", "a.b"]
        .iter()
        .map(|s| s.to_string())
        .collect();
    let mut expected = list.clone();
    expected.sort();
    assert_eq!(sorted(&list), expected);
    assert!(sorted(&vec![]).is_empty());
    for a in &list {
        for b in &list {
            assert_eq!(le(a, b), a <= b, "{a:?} {b:?}");
        }
    }
}
