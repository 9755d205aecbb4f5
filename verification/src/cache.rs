//! The hash store and the change detector.
//!
//! The store maps a repo-relative path to the content hash recorded when the
//! file was last reconciled. The change detector compares what is on disk now,
//! as its caller observed it, against the store.

use vstd::prelude::*;
use crate::hashing::{content_hash, is_content_hash, spec_content_hash};
use crate::text::{concat, concat3, owned, str_eq, texts};

verus! {

/// One row of the store.
pub struct CacheEntry {
    /// Repo-relative path; the key.
    pub path: String,
    /// Content hash in lowercase hexadecimal.
    pub content_hash: String,
    /// Unix seconds of the last update.
    pub updated_at: i64,
}

/// What the store keeps for one path.
pub struct Stored {
    pub content_hash: Seq<char>,
    pub updated_at: i64,
}

/// A path and the hash to record for it.
pub struct HashPair {
    pub path: String,
    pub content_hash: String,
}

/// The store: at most one entry per path.
pub struct HashStore {
    entries: Vec<CacheEntry>,
}

/// The position of the first row for `path`, if any.
pub open spec fn row_index(rows: Seq<CacheEntry>, path: Seq<char>) -> Option<int>
    decreases rows.len(),
{
    if rows.len() == 0 {
        None
    } else if rows[0].path@ == path {
        Some(0)
    } else {
        match row_index(rows.skip(1), path) {
            Some(i) => Some(i + 1),
            None => None,
        }
    }
}

/// What `row_index` returns is the first position that holds `path`.
pub proof fn lemma_row_index(rows: Seq<CacheEntry>, path: Seq<char>)
    ensures
        match row_index(rows, path) {
            Some(i) => 0 <= i < rows.len() && rows[i].path@ == path && forall|j: int|
                0 <= j < i ==> rows[j].path@ != path,
            None => forall|j: int| 0 <= j < rows.len() ==> rows[j].path@ != path,
        },
    decreases rows.len(),
{
    if rows.len() > 0 && rows[0].path@ != path {
        lemma_row_index(rows.skip(1), path);
        match row_index(rows.skip(1), path) {
            Some(i) => {
                assert(rows.skip(1)[i] == rows[i + 1]);
                assert forall|j: int| 0 <= j < i + 1 implies rows[j].path@ != path by {
                    if j > 0 {
                        assert(rows.skip(1)[j - 1] == rows[j]);
                    }
                }
            },
            None => {
                assert forall|j: int| 0 <= j < rows.len() implies rows[j].path@ != path by {
                    if j > 0 {
                        assert(rows.skip(1)[j - 1] == rows[j]);
                    }
                }
            },
        }
    }
}

/// What a row stores for its path.
pub open spec fn stored_of(row: CacheEntry) -> Stored {
    Stored { content_hash: row.content_hash@, updated_at: row.updated_at }
}

/// The map that a list of rows stands for; of two rows for one path the
/// first counts.
pub open spec fn rows_map(rows: Seq<CacheEntry>) -> Map<Seq<char>, Stored> {
    Map::new(
        |p: Seq<char>| row_index(rows, p) is Some,
        |p: Seq<char>| stored_of(rows[row_index(rows, p).unwrap()]),
    )
}

/// True when no two rows share a path.
pub open spec fn distinct_paths(rows: Seq<CacheEntry>) -> bool {
    forall|i: int, j: int| 0 <= i < j < rows.len() ==> rows[i].path@ != rows[j].path@
}

/// The paths and hashes of a list of pairs.
pub open spec fn pairs_view(pairs: Seq<HashPair>) -> Seq<(Seq<char>, Seq<char>)> {
    Seq::new(pairs.len(), |i: int| (pairs[i].path@, pairs[i].content_hash@))
}

/// The store after each pair (path, hash) of `pairs`, in order, was inserted
/// or has replaced the entry of its path, all with the timestamp `now`.
pub open spec fn spec_upsert_all(
    m: Map<Seq<char>, Stored>,
    pairs: Seq<(Seq<char>, Seq<char>)>,
    now: i64,
) -> Map<Seq<char>, Stored>
    decreases pairs.len(),
{
    if pairs.len() == 0 {
        m
    } else {
        spec_upsert_all(m, pairs.drop_last(), now).insert(
            pairs.last().0,
            Stored { content_hash: pairs.last().1, updated_at: now },
        )
    }
}

/// The step at which the storage engine failed.
#[derive(Clone, Copy, PartialEq, Eq, Structural)]
pub enum StoreStage {
    /// Creating the directory that holds the store.
    CreateDir,
    /// Opening the store's file.
    Open,
    /// Making sure the table exists.
    Schema,
    /// Beginning a transaction.
    Transaction,
    /// Preparing a statement.
    Prepare,
    /// Writing one entry.
    Upsert,
    /// Committing a transaction.
    Commit,
    /// Reading the entries.
    Load,
}

/// A failure of the storage engine: where it happened and the engine's
/// message.
pub struct StoreFailure {
    pub stage: StoreStage,
    pub detail: String,
}

/// What starts the message of a failure at `stage`.
pub open spec fn stage_prefix(stage: StoreStage) -> Seq<char> {
    match stage {
        StoreStage::CreateDir => "could not create cache directory: "@,
        StoreStage::Open => "could not open cache DB: "@,
        StoreStage::Schema => "could not initialize cache schema: "@,
        StoreStage::Transaction => "transaction error: "@,
        StoreStage::Prepare => "prepare error: "@,
        StoreStage::Upsert => "upsert failed: "@,
        StoreStage::Commit => "commit error: "@,
        StoreStage::Load => "could not read cache entries: "@,
    }
}

/// The message that reports `failure`.
pub open spec fn spec_failure_message(failure: StoreFailure) -> Seq<char> {
    stage_prefix(failure.stage) + failure.detail@
}

/// The message that reports `failure`: what was being done, then the
/// engine's own words.
pub fn failure_message(failure: &StoreFailure) -> (r: String)
    ensures
        r@ == spec_failure_message(*failure),
{
    let prefix = match failure.stage {
        StoreStage::CreateDir => "could not create cache directory: ",
        StoreStage::Open => "could not open cache DB: ",
        StoreStage::Schema => "could not initialize cache schema: ",
        StoreStage::Transaction => "transaction error: ",
        StoreStage::Prepare => "prepare error: ",
        StoreStage::Upsert => "upsert failed: ",
        StoreStage::Commit => "commit error: ",
        StoreStage::Load => "could not read cache entries: ",
    };
    concat(prefix, failure.detail.as_str())
}

/// True when `t` is the newest timestamp in `m`, or `m` is empty and there is
/// none.
pub open spec fn is_newest(m: Map<Seq<char>, Stored>, t: Option<i64>) -> bool {
    match t {
        None => m.dom() =~= Set::<Seq<char>>::empty(),
        Some(t) => (exists|p: Seq<char>| m.contains_key(p) && m[p].updated_at == t) && forall|
            p: Seq<char>,
        | m.contains_key(p) ==> m[p].updated_at <= t,
    }
}

/// The newest timestamp in `m`; none when `m` is empty.
pub open spec fn newest_in(m: Map<Seq<char>, Stored>) -> Option<i64> {
    if m.dom() =~= Set::<Seq<char>>::empty() {
        None
    } else {
        Some(choose|t: i64| is_newest(m, Some(t)))
    }
}

/// The newest timestamp of a store is the only one that is newest.
pub proof fn lemma_newest_in(m: Map<Seq<char>, Stored>, t: Option<i64>)
    requires
        is_newest(m, t),
    ensures
        t == newest_in(m),
{
    match t {
        None => {},
        Some(a) => {
            let p = choose|p: Seq<char>| m.contains_key(p) && m[p].updated_at == a;
            assert(m.dom().contains(p));
            let b = choose|b: i64| is_newest(m, Some(b));
            assert(is_newest(m, Some(b)));
            let q = choose|q: Seq<char>| m.contains_key(q) && m[q].updated_at == b;
            assert(m[p].updated_at <= b);
            assert(m[q].updated_at <= a);
        },
    }
}

/// Replacing the row of a path changes what is stored for that path only.
proof fn lemma_update_row(before: Seq<CacheEntry>, i: int, e: CacheEntry)
    requires
        distinct_paths(before),
        0 <= i < before.len(),
        before[i].path@ == e.path@,
    ensures
        distinct_paths(before.update(i, e)),
        rows_map(before.update(i, e)) == rows_map(before).insert(e.path@, stored_of(e)),
{
    let after = before.update(i, e);
    let target = rows_map(before).insert(e.path@, stored_of(e));
    assert forall|j: int| 0 <= j < before.len() implies #[trigger] after[j].path@
        == before[j].path@ by {}
    assert forall|q: Seq<char>| #[trigger] rows_map(after).dom().contains(q)
        == target.dom().contains(q) by {
        lemma_row_index(before, q);
        lemma_row_index(after, q);
        if row_index(after, q) is Some {
            let a = row_index(after, q).unwrap();
            assert(after[a].path@ == before[a].path@);
        }
        if row_index(before, q) is Some {
            let b = row_index(before, q).unwrap();
            assert(after[b].path@ == before[b].path@);
        }
    }
    assert forall|q: Seq<char>| #[trigger]
        rows_map(after).dom().contains(q) implies rows_map(after)[q] == target[q] by {
        lemma_row_index(before, q);
        lemma_row_index(after, q);
        assert(row_index(before, q) is Some);
        let a = row_index(after, q).unwrap();
        let b = row_index(before, q).unwrap();
        assert(after[a].path@ == before[a].path@);
        assert(after[b].path@ == before[b].path@);
        assert(a == b);
    }
    assert(rows_map(after) =~= target);
}

/// Adding a row for a path that has none adds that path and changes nothing
/// else.
proof fn lemma_push_row(before: Seq<CacheEntry>, e: CacheEntry)
    requires
        distinct_paths(before),
        row_index(before, e.path@) is None,
    ensures
        distinct_paths(before.push(e)),
        rows_map(before.push(e)) == rows_map(before).insert(e.path@, stored_of(e)),
{
    let after = before.push(e);
    let target = rows_map(before).insert(e.path@, stored_of(e));
    lemma_row_index(before, e.path@);
    assert forall|j: int| 0 <= j < before.len() implies #[trigger] after[j] == before[j] by {}
    assert forall|q: Seq<char>| #[trigger] rows_map(after).dom().contains(q)
        == target.dom().contains(q) by {
        lemma_row_index(before, q);
        lemma_row_index(after, q);
        if q != e.path@ && row_index(after, q) is Some {
            let a = row_index(after, q).unwrap();
            assert(a < before.len());
            assert(after[a] == before[a]);
        }
        if row_index(before, q) is Some {
            let b = row_index(before, q).unwrap();
            assert(after[b] == before[b]);
        }
        if q == e.path@ {
            assert(after[before.len() as int].path@ == q);
        }
    }
    assert forall|q: Seq<char>| #[trigger]
        rows_map(after).dom().contains(q) implies rows_map(after)[q] == target[q] by {
        lemma_row_index(before, q);
        lemma_row_index(after, q);
        let a = row_index(after, q).unwrap();
        if q == e.path@ {
            assert(a == before.len());
        } else {
            assert(a < before.len());
            assert(after[a] == before[a]);
            let b = row_index(before, q).unwrap();
            assert(after[b] == before[b]);
            assert(a == b);
        }
    }
    assert(rows_map(after) =~= target);
}

proof fn lemma_rows_dom(rows: Seq<CacheEntry>)
    requires
        distinct_paths(rows),
    ensures
        rows_map(rows).dom().finite(),
        rows_map(rows).dom().len() == rows.len(),
    decreases rows.len(),
{
    if rows.len() == 0 {
        assert(rows_map(rows).dom() =~= Set::<Seq<char>>::empty());
    } else {
        let init = rows.drop_last();
        let p = rows.last().path@;
        lemma_rows_dom(init);
        assert(row_index(init, p) is None) by {
            lemma_row_index(init, p);
            if row_index(init, p) is Some {
                let j = row_index(init, p).unwrap();
                assert(init[j] == rows[j]);
            }
        }
        lemma_push_row(init, rows.last());
        assert(init.push(rows.last()) =~= rows);
        assert(rows_map(rows).dom() =~= rows_map(init).dom().insert(p));
        assert(!rows_map(init).dom().contains(p)) by {
            lemma_row_index(init, p);
        }
    }
}

impl View for HashStore {
    type V = Map<Seq<char>, Stored>;

    closed spec fn view(&self) -> Map<Seq<char>, Stored> {
        rows_map(self.entries@)
    }
}

impl HashStore {
    /// The store's invariant: no path has two entries.
    #[verifier::type_invariant]
    closed spec fn wf(&self) -> bool {
        distinct_paths(self.entries@)
    }

    /// An empty store.
    pub fn new() -> (s: HashStore)
        ensures
            s@ == Map::<Seq<char>, Stored>::empty(),
    {
        let s = HashStore { entries: Vec::new() };
        assert(s@ =~= Map::<Seq<char>, Stored>::empty());
        s
    }

    fn find(&self, path: &str) -> (r: Option<usize>)
        ensures
            match r {
                Some(i) => i < self.entries@.len() && self.entries@[i as int].path@ == path@
                    && row_index(self.entries@, path@) == Some(i as int),
                None => row_index(self.entries@, path@) is None,
            },
    {
        let mut i: usize = 0;
        while i < self.entries.len()
            invariant
                i <= self.entries.len(),
                forall|j: int| 0 <= j < i ==> self.entries@[j].path@ != path@,
            decreases self.entries.len() - i,
        {
            if str_eq(self.entries[i].path.as_str(), path) {
                proof {
                    lemma_row_index(self.entries@, path@);
                }
                return Some(i);
            }
            i += 1;
        }
        proof {
            lemma_row_index(self.entries@, path@);
        }
        None
    }

    /// The hash recorded for `path`, if there is one.
    pub fn lookup(&self, path: &str) -> (r: Option<&str>)
        ensures
            match r {
                Some(h) => self@.contains_key(path@) && self@[path@].content_hash == h@,
                None => !self@.contains_key(path@),
            },
    {
        match self.find(path) {
            Some(i) => Some(self.entries[i].content_hash.as_str()),
            None => None,
        }
    }

    /// Records `content_hash` for `path` with the timestamp `now`, in place of
    /// whatever was recorded for `path` before.
    pub fn upsert(&mut self, path: &str, content_hash: &str, now: i64)
        ensures
            final(self)@ == old(self)@.insert(
                path@,
                Stored { content_hash: content_hash@, updated_at: now },
            ),
    {
        let entry = CacheEntry {
            path: owned(path),
            content_hash: owned(content_hash),
            updated_at: now,
        };
        proof {
            use_type_invariant(&*self);
        }
        let ghost before = self.entries@;
        let ghost e = entry;
        let found = self.find(path);
        match found {
            Some(i) => {
                proof {
                    lemma_update_row(before, i as int, e);
                }
                let mut rows: Vec<CacheEntry> = Vec::new();
                core::mem::swap(&mut self.entries, &mut rows);
                rows[i] = entry;
                core::mem::swap(&mut self.entries, &mut rows);
                assert(self.entries@ =~= before.update(i as int, e));
            },
            None => {
                proof {
                    lemma_push_row(before, e);
                }
                let mut rows: Vec<CacheEntry> = Vec::new();
                core::mem::swap(&mut self.entries, &mut rows);
                rows.push(entry);
                core::mem::swap(&mut self.entries, &mut rows);
                assert(self.entries@ =~= before.push(e));
            },
        }
    }

    /// Inserts or replaces each pair of `pairs`, in order, with the timestamp
    /// `now`, and returns how many pairs were written.
    pub fn upsert_batch(&mut self, pairs: &Vec<HashPair>, now: i64) -> (count: usize)
        ensures
            final(self)@ == spec_upsert_all(old(self)@, pairs_view(pairs@), now),
            count == pairs.len(),
    {
        let mut i: usize = 0;
        assert(pairs_view(pairs@).take(0) =~= Seq::<(Seq<char>, Seq<char>)>::empty());
        while i < pairs.len()
            invariant
                i <= pairs.len(),
                self@ == spec_upsert_all(old(self)@, pairs_view(pairs@).take(i as int), now),
            decreases pairs.len() - i,
        {
            proof {
                let next = pairs_view(pairs@).take(i + 1);
                assert(next.drop_last() =~= pairs_view(pairs@).take(i as int));
                assert(next.last() == (pairs@[i as int].path@, pairs@[i as int].content_hash@));
            }
            self.upsert(pairs[i].path.as_str(), pairs[i].content_hash.as_str(), now);
            i += 1;
        }
        assert(pairs_view(pairs@).take(pairs.len() as int) =~= pairs_view(pairs@));
        i
    }

    /// The number of entries, and the newest timestamp among them (`None`
    /// when the store is empty).
    pub fn status(&self) -> (r: (usize, Option<i64>))
        ensures
            self@.dom().finite(),
            r.0 == self@.dom().len(),
            is_newest(self@, r.1),
            r.1 == newest_in(self@),
    {
        proof {
            use_type_invariant(self);
            lemma_rows_dom(self.entries@);
        }
        let count = self.entries.len();
        if count == 0 {
            assert(self@.dom() =~= Set::<Seq<char>>::empty());
            return (0, None);
        }
        assert(!(self@.dom() =~= Set::<Seq<char>>::empty())) by {
            lemma_row_index(self.entries@, self.entries@[0].path@);
            assert(self@.dom().contains(self.entries@[0].path@));
        }
        let mut newest: i64 = self.entries[0].updated_at;
        let mut i: usize = 1;
        while i < self.entries.len()
            invariant
                1 <= i <= self.entries.len(),
                forall|j: int| 0 <= j < i ==> self.entries@[j].updated_at <= newest,
                exists|j: int| 0 <= j < i && self.entries@[j].updated_at == newest,
            decreases self.entries.len() - i,
        {
            if self.entries[i].updated_at > newest {
                newest = self.entries[i].updated_at;
            }
            i += 1;
        }
        proof {
            let rows = self.entries@;
            let j = choose|j: int| 0 <= j < rows.len() && rows[j].updated_at == newest;
            let p = rows[j].path@;
            lemma_row_index(rows, p);
            assert(self@.contains_key(p) && self@[p].updated_at == newest);
            assert forall|q: Seq<char>| self@.contains_key(q) implies self@[q].updated_at
                <= newest by {
                lemma_row_index(rows, q);
            }
            lemma_newest_in(self@, Some(newest));
        }
        (count, Some(newest))
    }

    /// The number of entries.
    pub fn len(&self) -> (n: usize)
        ensures
            self@.dom().finite(),
            n == self@.dom().len(),
    {
        proof {
            use_type_invariant(self);
            lemma_rows_dom(self.entries@);
        }
        self.entries.len()
    }
}

/// What the caller saw of one file on disk.
pub struct FileProbe {
    /// Whether the path exists.
    pub exists: bool,
    /// The file's bytes, or the message of the failed read.
    pub read: Result<Vec<u8>, String>,
}

/// One file to check: its key in the store, where it lies, and what was seen
/// there.
pub struct FileCheck {
    pub rel_path: String,
    pub abs_path: String,
    pub probe: FileProbe,
}

/// The message for a file at `abs_path` whose read failed with `e`.
pub open spec fn read_failure(abs_path: Seq<char>, e: Seq<char>) -> Seq<char> {
    "could not read "@ + abs_path + ": "@ + e
}

/// The content hash of the file at `abs_path`, given what reading it gave.
pub open spec fn spec_hash_file(abs_path: Seq<char>, read: Result<Vec<u8>, String>) -> Result<
    Seq<char>,
    Seq<char>,
> {
    match read {
        Ok(bytes) => Ok(spec_content_hash(bytes@)),
        Err(e) => Err(read_failure(abs_path, e@)),
    }
}

/// The verdict on a file whose content hashes to `current`: `None` when the
/// store holds exactly that hash for `rel_path`, else the hash.
pub open spec fn spec_compare_hash(
    store: Map<Seq<char>, Stored>,
    rel_path: Seq<char>,
    current: Seq<char>,
) -> Option<Seq<char>> {
    if store.contains_key(rel_path) && store[rel_path].content_hash == current {
        None
    } else {
        Some(current)
    }
}

/// The verdict on one file: `Ok(None)` when its content is what the store
/// recorded, `Ok(Some(hash))` when it changed (with the empty hash when the
/// file is absent), and the read's failure otherwise.
pub open spec fn spec_check_changed(
    store: Map<Seq<char>, Stored>,
    rel_path: Seq<char>,
    abs_path: Seq<char>,
    probe: FileProbe,
) -> Result<Option<Seq<char>>, Seq<char>> {
    if !probe.exists {
        Ok(Some(Seq::<char>::empty()))
    } else {
        match spec_hash_file(abs_path, probe.read) {
            Err(e) => Err(e),
            Ok(h) => Ok(spec_compare_hash(store, rel_path, h)),
        }
    }
}

/// The verdict on `file`.
pub open spec fn verdict(store: Map<Seq<char>, Stored>, file: FileCheck) -> Result<
    Option<Seq<char>>,
    Seq<char>,
> {
    spec_check_changed(store, file.rel_path@, file.abs_path@, file.probe)
}

/// The failure of the first file of `files` that cannot be read, if any.
pub open spec fn first_failure(store: Map<Seq<char>, Stored>, files: Seq<FileCheck>) -> Option<
    Seq<char>,
>
    decreases files.len(),
{
    if files.len() == 0 {
        None
    } else {
        match first_failure(store, files.drop_last()) {
            Some(e) => Some(e),
            None => match verdict(store, files.last()) {
                Err(e) => Some(e),
                Ok(_) => None,
            },
        }
    }
}

/// The relative paths of the files of `files` that changed, in order.
pub open spec fn changed_paths(store: Map<Seq<char>, Stored>, files: Seq<FileCheck>) -> Seq<
    Seq<char>,
>
    decreases files.len(),
{
    if files.len() == 0 {
        Seq::empty()
    } else if verdict(store, files.last()) matches Ok(Some(_)) {
        changed_paths(store, files.drop_last()).push(files.last().rel_path@)
    } else {
        changed_paths(store, files.drop_last())
    }
}

/// The relative paths of the files of `files` that did not change, in order.
pub open spec fn unchanged_paths(store: Map<Seq<char>, Stored>, files: Seq<FileCheck>) -> Seq<
    Seq<char>,
>
    decreases files.len(),
{
    if files.len() == 0 {
        Seq::empty()
    } else if verdict(store, files.last()) matches Ok(None) {
        unchanged_paths(store, files.drop_last()).push(files.last().rel_path@)
    } else {
        unchanged_paths(store, files.drop_last())
    }
}

/// The content hash of the file at `abs_path`, from what reading it gave: the
/// hash of the bytes, which is 64 lowercase hexadecimal digits, or a message
/// that names the path and the failure. A file that cannot be read has no
/// hash.
pub fn hash_file(abs_path: &str, read: &Result<Vec<u8>, String>) -> (r: Result<String, String>)
    ensures
        match r {
            Ok(h) => spec_hash_file(abs_path@, *read) == Ok::<Seq<char>, Seq<char>>(h@)
                && is_content_hash(h@),
            Err(e) => spec_hash_file(abs_path@, *read) == Err::<Seq<char>, Seq<char>>(e@),
        },
{
    match read {
        Ok(bytes) => Ok(content_hash(bytes.as_slice())),
        Err(e) => {
            let head = concat3("could not read ", abs_path, ": ");
            Err(concat(head.as_str(), e.as_str()))
        },
    }
}

/// Compares the hash `current` of a file's content with what the store holds
/// for `rel_path`: `None` when the two are the same, else the hash. A path
/// that the store does not hold has changed.
pub fn compare_hash(store: &HashStore, rel_path: &str, current: String) -> (r: Option<String>)
    ensures
        match r {
            Some(h) => spec_compare_hash(store@, rel_path@, current@) == Some(h@),
            None => spec_compare_hash(store@, rel_path@, current@) is None,
        },
{
    match store.lookup(rel_path) {
        Some(h) => {
            if str_eq(h, current.as_str()) {
                None
            } else {
                Some(current)
            }
        },
        None => Some(current),
    }
}

/// Tells whether one file changed since its hash was recorded.
///
/// A path that does not exist has always changed, whatever the store holds.
/// Otherwise the file changed unless the store holds exactly the hash of its
/// current content. The store is only read.
pub fn check_changed(store: &HashStore, rel_path: &str, abs_path: &str, probe: &FileProbe) -> (r:
    Result<Option<String>, String>)
    ensures
        match r {
            Ok(Some(h)) => spec_check_changed(store@, rel_path@, abs_path@, *probe) == Ok::<
                Option<Seq<char>>,
                Seq<char>,
            >(Some(h@)),
            Ok(None) => spec_check_changed(store@, rel_path@, abs_path@, *probe) == Ok::<
                Option<Seq<char>>,
                Seq<char>,
            >(None),
            Err(e) => spec_check_changed(store@, rel_path@, abs_path@, *probe) == Err::<
                Option<Seq<char>>,
                Seq<char>,
            >(e@),
        },
        probe.exists ==> (r matches Ok(Some(h)) ==> is_content_hash(h@)),
{
    if !probe.exists {
        let empty = String::new();
        assert(empty@ =~= Seq::<char>::empty());
        return Ok(Some(empty));
    }
    let current = match hash_file(abs_path, &probe.read) {
        Ok(h) => h,
        Err(e) => {
            return Err(e);
        },
    };
    Ok(compare_hash(store, rel_path, current))
}

/// Splits `files` into those that changed and those that did not, each list
/// holding relative paths in the order of `files`. Fails with the message of
/// the first file that exists but cannot be read.
pub fn check_changed_batch(store: &HashStore, files: &Vec<FileCheck>) -> (r: Result<
    (Vec<String>, Vec<String>),
    String,
>)
    ensures
        match r {
            Ok((changed, unchanged)) => first_failure(store@, files@) is None && texts(changed@)
                == changed_paths(store@, files@) && texts(unchanged@) == unchanged_paths(
                store@,
                files@,
            ),
            Err(e) => first_failure(store@, files@) == Some(e@),
        },
{
    let mut changed: Vec<String> = Vec::new();
    let mut unchanged: Vec<String> = Vec::new();
    let mut i: usize = 0;
    assert(files@.take(0) =~= Seq::<FileCheck>::empty());
    assert(texts(changed@) =~= Seq::<Seq<char>>::empty());
    assert(texts(unchanged@) =~= Seq::<Seq<char>>::empty());
    while i < files.len()
        invariant
            i <= files.len(),
            first_failure(store@, files@.take(i as int)) is None,
            texts(changed@) == changed_paths(store@, files@.take(i as int)),
            texts(unchanged@) == unchanged_paths(store@, files@.take(i as int)),
        decreases files.len() - i,
    {
        let file = &files[i];
        proof {
            let next = files@.take(i + 1);
            assert(next.drop_last() =~= files@.take(i as int));
            assert(next.last() == files@[i as int]);
        }
        let ghost old_changed = changed@;
        let ghost old_unchanged = unchanged@;
        match check_changed(store, file.rel_path.as_str(), file.abs_path.as_str(), &file.probe) {
            Ok(Some(_)) => {
                changed.push(file.rel_path.clone());
                assert(texts(changed@) =~= texts(old_changed).push(file.rel_path@));
            },
            Ok(None) => {
                unchanged.push(file.rel_path.clone());
                assert(texts(unchanged@) =~= texts(old_unchanged).push(file.rel_path@));
            },
            Err(e) => {
                proof {
                    lemma_failure_stays(store@, files@, i as int + 1);
                }
                return Err(e);
            },
        }
        i += 1;
    }
    assert(files@.take(files.len() as int) =~= files@);
    Ok((changed, unchanged))
}

/// A failure among the first `n` files is the failure of the whole list.
proof fn lemma_failure_stays(store: Map<Seq<char>, Stored>, files: Seq<FileCheck>, n: int)
    requires
        0 <= n <= files.len(),
        first_failure(store, files.take(n)) is Some,
    ensures
        first_failure(store, files) == first_failure(store, files.take(n)),
    decreases files.len() - n,
{
    if n < files.len() {
        let next = files.take(n + 1);
        assert(next.drop_last() =~= files.take(n));
        lemma_failure_stays(store, files, n + 1);
    } else {
        assert(files.take(n) =~= files);
    }
}

} // verus!
