use notarai::cache::{
    check_changed, check_changed_batch, compare_hash, failure_message, hash_file, FileCheck,
    FileProbe, HashPair, HashStore, StoreFailure, StoreStage,
};
use notarai::hashing::{content_hash, to_hex};

fn present(content: &str) -> FileProbe {
    FileProbe { exists: true, read: Ok(content.as_bytes().to_vec()) }
}

fn absent() -> FileProbe {
    FileProbe { exists: false, read: Err("No such file or directory (os error 2)".to_string()) }
}

fn unreadable() -> FileProbe {
    FileProbe { exists: true, read: Err("Permission denied (os error 13)".to_string()) }
}

#[test]
fn hash_is_consistent() {
    let h1 = hash_file("/tmp/test.txt", &Ok(b"hello world".to_vec())).unwrap();
    let h2 = hash_file("/tmp/test.txt", &Ok(b"hello world".to_vec())).unwrap();
    assert_eq!(h1, h2);
}

#[test]
fn hash_is_the_blake3_digest_in_lowercase_hex() {
    assert_eq!(
        content_hash(b"hello world"),
        "d74981efa70a0c880b8d8c1985d075dbcbf679b99a5f9914e5aaf96b831a9e24"
    );
    assert_eq!(
        content_hash(b""),
        "af1349b9f5f9a1a6a0404dea36dcc9499bcb25c9adc112b7cc9a93cae41f3262"
    );
    assert_eq!(content_hash(b"hello world"), blake3::hash(b"hello world").to_hex().to_string());
    assert_ne!(content_hash(b"hello"), content_hash(b"world"));
    assert_eq!(to_hex(&[0x00, 0x0f, 0xa0, 0xff, 0x1b]), "000fa0ff1b");
    assert_eq!(to_hex(&[]), "");
}

#[test]
fn hashes_are_64_lowercase_hex_digits() {
    let inputs: [&[u8]; 4] = [b"", b"hello world", &[0xff; 300], &[0x00, 0x80, 0x7f]];
    for bytes in inputs {
        let direct = content_hash(bytes);
        assert_eq!(direct.len(), 64);
        assert!(direct.chars().all(|c| matches!(c, '0'..='9' | 'a'..='f')), "{direct}");
        let of_file = hash_file("/repo/a.bin", &Ok(bytes.to_vec())).unwrap();
        assert_eq!(of_file, direct);
    }
    let store = HashStore::new();
    let found = check_changed(&store, "a.txt", "/repo/a.txt", &present("x")).unwrap().unwrap();
    assert_eq!(found.len(), 64);
    let gone = check_changed(&store, "a.txt", "/repo/a.txt", &absent()).unwrap().unwrap();
    assert_eq!(gone, "", "an absent file has no hash");
    assert!(hash_file("/repo/a.txt", &unreadable().read).is_err());
}

#[test]
fn hash_file_reports_the_path_of_a_failed_read() {
    let r = hash_file("/repo/a.txt", &Err("Permission denied (os error 13)".to_string()));
    assert_eq!(r, Err("could not read /repo/a.txt: Permission denied (os error 13)".to_string()));
}

#[test]
fn upsert_then_unchanged() {
    let mut store = HashStore::new();
    let hash = content_hash(b"hello");
    store.upsert("/tmp/test.txt", &hash, 1);
    let result = check_changed(&store, "/tmp/test.txt", "/tmp/test.txt", &present("hello")).unwrap();
    assert!(result.is_none(), "expected None for unchanged file");
}

#[test]
fn modified_file_returns_some() {
    let mut store = HashStore::new();
    let hash = content_hash(b"hello");
    store.upsert("/tmp/test.txt", &hash, 1);
    let result = check_changed(&store, "/tmp/test.txt", "/tmp/test.txt", &present("world")).unwrap();
    assert!(result.is_some(), "expected Some for modified file");
    assert_eq!(result, Some(content_hash(b"world")));
}

#[test]
fn missing_file_returns_some() {
    let store = HashStore::new();
    let result =
        check_changed(&store, "/tmp/nonexistent.txt", "/tmp/nonexistent.txt", &absent()).unwrap();
    assert!(result.is_some(), "expected Some for missing file");
    assert_eq!(result, Some(String::new()));
}

#[test]
fn missing_file_is_changed_whatever_the_store_holds() {
    let mut store = HashStore::new();
    store.upsert("gone.txt", "", 1);
    store.upsert("gone.txt", &content_hash(b""), 2);
    let result = check_changed(&store, "gone.txt", "/repo/gone.txt", &absent()).unwrap();
    assert_eq!(result, Some(String::new()));
}

#[test]
fn hashes_are_compared_with_the_store() {
    let mut store = HashStore::new();
    store.upsert("a.txt", "abc", 1);
    assert_eq!(compare_hash(&store, "a.txt", "abc".to_string()), None);
    assert_eq!(compare_hash(&store, "a.txt", "abd".to_string()), Some("abd".to_string()));
    assert_eq!(compare_hash(&store, "b.txt", "abc".to_string()), Some("abc".to_string()));
    assert_eq!(compare_hash(&HashStore::new(), "a.txt", String::new()), Some(String::new()));
}

#[test]
fn unknown_file_is_changed() {
    let store = HashStore::new();
    let result = check_changed(&store, "new.txt", "/repo/new.txt", &present("x")).unwrap();
    assert_eq!(result, Some(content_hash(b"x")));
}

#[test]
fn unreadable_file_is_an_error() {
    let store = HashStore::new();
    let result = check_changed(&store, "a.txt", "/repo/a.txt", &unreadable());
    assert_eq!(
        result,
        Err("could not read /repo/a.txt: Permission denied (os error 13)".to_string())
    );
}

fn check(rel: &str, probe: FileProbe) -> FileCheck {
    FileCheck { rel_path: rel.to_string(), abs_path: format!("/repo/{rel}"), probe }
}

#[test]
fn batch_splits_changed_from_unchanged() {
    let mut store = HashStore::new();
    store.upsert("same.txt", &content_hash(b"same"), 1);
    store.upsert("edited.txt", &content_hash(b"before"), 1);
    let files = vec![
        check("same.txt", present("same")),
        check("gone.txt", absent()),
        check("edited.txt", present("after")),
        check("new.txt", present("new")),
        check("same.txt", present("same")),
    ];
    let (changed, unchanged) = check_changed_batch(&store, &files).unwrap();
    assert_eq!(changed, vec!["gone.txt", "edited.txt", "new.txt"]);
    assert_eq!(unchanged, vec!["same.txt", "same.txt"]);
    let (none_changed, none_unchanged) = check_changed_batch(&store, &vec![]).unwrap();
    assert!(none_changed.is_empty() && none_unchanged.is_empty());
}

#[test]
fn batch_fails_with_the_first_unreadable_file() {
    let store = HashStore::new();
    let files = vec![
        check("a.txt", present("a")),
        check("b.txt", unreadable()),
        check("c.txt", FileProbe { exists: true, read: Err("other".to_string()) }),
    ];
    assert_eq!(
        check_changed_batch(&store, &files),
        Err("could not read /repo/b.txt: Permission denied (os error 13)".to_string())
    );
}

#[test]
fn store_keeps_one_entry_per_path() {
    let mut store = HashStore::new();
    assert_eq!(store.status(), (0, None));
    assert_eq!(store.lookup("a"), None);
    store.upsert("a", "h1", 10);
    store.upsert("b", "h2", 30);
    store.upsert("a", "h3", 20);
    assert_eq!(store.lookup("a"), Some("h3"));
    assert_eq!(store.lookup("b"), Some("h2"));
    assert_eq!(store.lookup("c"), None);
    assert_eq!(store.status(), (2, Some(30)));
    assert_eq!(store.len(), 2);
}

#[test]
fn batch_upsert_writes_in_order() {
    let mut store = HashStore::new();
    store.upsert("a", "old", -5);
    let pairs = vec![
        HashPair { path: "a".to_string(), content_hash: "x".to_string() },
        HashPair { path: "b".to_string(), content_hash: "y".to_string() },
        HashPair { path: "a".to_string(), content_hash: "z".to_string() },
    ];
    assert_eq!(store.upsert_batch(&pairs, 7), 3);
    assert_eq!(store.lookup("a"), Some("z"));
    assert_eq!(store.lookup("b"), Some("y"));
    assert_eq!(store.status(), (2, Some(7)));
    assert_eq!(store.upsert_batch(&vec![], 9), 0);
    assert_eq!(store.status(), (2, Some(7)));
}

#[test]
fn store_failures_say_what_was_being_done() {
    let message = |stage| failure_message(&StoreFailure { stage, detail: "boom".to_string() });
    assert_eq!(message(StoreStage::CreateDir), "could not create cache directory: boom");
    assert_eq!(message(StoreStage::Open), "could not open cache DB: boom");
    assert_eq!(message(StoreStage::Schema), "could not initialize cache schema: boom");
    assert_eq!(message(StoreStage::Transaction), "transaction error: boom");
    assert_eq!(message(StoreStage::Prepare), "prepare error: boom");
    assert_eq!(message(StoreStage::Upsert), "upsert failed: boom");
    assert_eq!(message(StoreStage::Commit), "commit error: boom");
    assert_eq!(message(StoreStage::Load), "could not read cache entries: boom");
}
