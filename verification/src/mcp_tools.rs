//! The four operations offered to a coding assistant, and what they share.
//!
//! Each operation is a function of its arguments and of the observations
//! made so far. It returns either the next thing to observe or its result;
//! see `crate::env`.

use vstd::prelude::*;
use crate::cache::{
    check_changed, failure_message, hash_file, pairs_view, spec_check_changed,
    spec_failure_message, spec_hash_file, FileProbe, HashPair, HashStore, Stored,
};
use crate::env::{DirEntry, Observations, Outcome, Request, RequestView, Step};
use crate::json::JsonValue;
use crate::paths::{
    db_path, is_spec_file, join_path, spec_db_path, spec_is_spec_file, spec_join,
    spec_strip_root, spec_suffix, specs_dir, strip_root,
};
use crate::resolver::{
    artifact_files_of, artifact_patterns, artifact_type_patterns, governed_files,
    is_spec_affected, spec_artifact_patterns, spec_artifact_type_patterns, spec_file_paths,
    spec_files_in, spec_files_of, spec_governed_files, spec_is_affected,
};
use crate::text::{
    clone_strings, concat, concat3, ends_with, has_suffix, list_contains, non_empty,
    non_empty_lines, owned, spec_lines, texts,
};
use crate::yaml::{parse_yaml, yaml_document, yaml_error};

verus! {

/// An error returned by an operation: a protocol error code and a message.
pub struct McpError {
    pub code: i32,
    pub message: String,
}

/// An `McpError` with its message as plain text.
pub struct McpErrorView {
    pub code: i32,
    pub message: Seq<char>,
}

impl View for McpError {
    type V = McpErrorView;

    open spec fn view(&self) -> McpErrorView {
        McpErrorView { code: self.code, message: self.message@ }
    }
}

/// The code of every failure inside an operation: a file that cannot be
/// read, a document that does not parse, a store or a tool that fails.
pub const INTERNAL_ERROR: i32 = -32603;

/// The internal error with the given message.
pub open spec fn internal(message: Seq<char>) -> McpErrorView {
    McpErrorView { code: INTERNAL_ERROR, message }
}

/// A step of an operation, with the request, the result or the error seen
/// as plain values.
pub open spec fn step_view<T: View>(r: Step<Result<T, McpError>>) -> Outcome<
    Result<T::V, McpErrorView>,
> {
    match r {
        Step::Need(q) => Outcome::Need(q@),
        Step::Done(Ok(v)) => Outcome::Done(Ok(v@)),
        Step::Done(Err(e)) => Outcome::Done(Err(e@)),
    }
}

/// The internal error with the given message.
pub fn internal_error(message: String) -> (e: McpError)
    ensures
        e@ == internal(message@),
{
    McpError { code: INTERNAL_ERROR, message }
}

/// Each path of `rels` resolved against `root`.
pub open spec fn joined(root: Seq<char>, rels: Seq<Seq<char>>) -> Seq<Seq<char>> {
    Seq::new(rels.len(), |i: int| spec_join(root, rels[i]))
}

/// Resolves each path of `rels` against `root`.
pub fn join_all(root: &str, rels: &Vec<String>) -> (r: Vec<String>)
    ensures
        texts(r@) == joined(root@, texts(rels@)),
        r@.len() == rels@.len(),
{
    let mut out: Vec<String> = Vec::new();
    let mut i: usize = 0;
    while i < rels.len()
        invariant
            i <= rels.len(),
            out@.len() == i,
            forall|j: int| 0 <= j < i ==> out@[j]@ == spec_join(root@, rels@[j]@),
        decreases rels.len() - i,
    {
        out.push(join_path(root, rels[i].as_str()));
        i += 1;
    }
    assert(texts(out@) =~= joined(root@, texts(rels@)));
    out
}

/// The spec document at `spec_path` below `root`: read, then parsed. A file
/// that cannot be read and a text that does not parse both end the
/// operation.
pub open spec fn spec_load_document(
    env: Observations,
    root: Seq<char>,
    spec_path: Seq<char>,
) -> Outcome<Result<JsonValue, McpErrorView>> {
    let abs = spec_join(root, spec_path);
    match env.spec_text(abs) {
        None => Outcome::Need(RequestView::ReadTexts { paths: seq![abs] }),
        Some(Err(e)) => Outcome::Done(Err(internal("read error: "@ + e@))),
        Some(Ok(content)) => match yaml_document(content@) {
            Some(doc) => Outcome::Done(Ok(doc)),
            None => Outcome::Done(Err(internal(yaml_error(content@).unwrap()))),
        },
    }
}

/// Reads and parses the spec document at `spec_path` below `project_root`.
pub fn load_document(spec_path: &str, project_root: &str, env: &Observations) -> (r: Step<
    Result<JsonValue, McpError>,
>)
    ensures
        match r {
            Step::Need(q) => spec_load_document(*env, project_root@, spec_path@) == Outcome::<
                Result<JsonValue, McpErrorView>,
            >::Need(q@),
            Step::Done(Ok(doc)) => spec_load_document(*env, project_root@, spec_path@)
                == Outcome::Done(Ok::<JsonValue, McpErrorView>(doc)),
            Step::Done(Err(e)) => spec_load_document(*env, project_root@, spec_path@)
                == Outcome::Done(Err::<JsonValue, McpErrorView>(e@)),
        },
{
    let abs = join_path(project_root, spec_path);
    let content = match env.text_at(abs.as_str()) {
        Err(q) => {
            return Step::Need(q);
        },
        Ok(Err(e)) => {
            return Step::Done(Err(internal_error(concat("read error: ", e.as_str()))));
        },
        Ok(Ok(content)) => content,
    };
    match parse_yaml(content.as_str()) {
        Ok(doc) => Step::Done(Ok(doc)),
        Err(e) => Step::Done(Err(internal_error(e))),
    }
}

/// The governed files that `patterns` stand for, once their expansion was
/// observed.
pub open spec fn spec_expand(
    env: Observations,
    root: Seq<char>,
    patterns: Seq<Seq<char>>,
) -> Option<Seq<Seq<char>>> {
    match env.spec_expansions(joined(root, patterns)) {
        Some(expansions) => Some(spec_governed_files(root, expansions)),
        None => None,
    }
}

/// Expands `patterns`, each taken relative to `project_root`, into
/// repo-relative paths; or says what to observe first.
pub fn expand_patterns(patterns: &Vec<String>, project_root: &str, env: &Observations) -> (r:
    Result<Vec<String>, Request>)
    ensures
        match r {
            Ok(files) => spec_expand(*env, project_root@, texts(patterns@)) == Some(
                texts(files@),
            ),
            Err(q) => spec_expand(*env, project_root@, texts(patterns@)) is None && q@ == (
            RequestView::ExpandGlobs { patterns: joined(project_root@, texts(patterns@)) }),
        },
{
    let abs = join_all(project_root, patterns);
    if abs.len() == 0 {
        let none: Vec<Vec<String>> = Vec::new();
        assert(none@ =~= Seq::<Vec<String>>::empty());
        return Ok(governed_files(project_root, &none));
    }
    match env.expansions_for(&abs) {
        Ok(expansions) => Ok(governed_files(project_root, expansions)),
        Err(q) => Err(q),
    }
}

/// The result of `mark_reconciled`.
pub struct Reconciled {
    /// How many files were hashed and written to the store.
    pub updated: usize,
    /// What went wrong without failing the operation: one warning for each
    /// file that exists but could not be hashed. They are meant for a
    /// diagnostic channel, not for the result that the caller is given.
    pub warnings: Vec<String>,
}

/// A `Reconciled` over plain values.
pub struct ReconciledView {
    pub updated: nat,
    pub warnings: Seq<Seq<char>>,
}

impl View for Reconciled {
    type V = ReconciledView;

    open spec fn view(&self) -> ReconciledView {
        ReconciledView { updated: self.updated as nat, warnings: texts(self.warnings@) }
    }
}

/// The warning about something that went wrong without failing the
/// operation.
pub open spec fn warning(about: Seq<char>) -> Seq<char> {
    "Warning: "@ + about
}

/// The warnings about the files of `files` that exist but cannot be hashed,
/// in order: each names the file and says why it could not be read.
pub open spec fn hash_warnings(
    root: Seq<char>,
    files: Seq<Seq<char>>,
    probes: Seq<FileProbe>,
) -> Seq<Seq<char>>
    decreases files.len(),
{
    if files.len() == 0 {
        Seq::empty()
    } else {
        let rest = hash_warnings(root, files.drop_last(), probes.drop_last());
        if probes.last().exists {
            match spec_hash_file(spec_join(root, files.last()), probes.last().read) {
                Ok(_) => rest,
                Err(e) => rest.push(warning(e)),
            }
        } else {
            rest
        }
    }
}

/// Collects the warnings about the files that exist but cannot be hashed.
pub fn warnings_for(
    project_root: &str,
    files: &Vec<String>,
    abs: &Vec<String>,
    probes: &Vec<FileProbe>,
) -> (warnings: Vec<String>)
    requires
        texts(abs@) == joined(project_root@, texts(files@)),
        abs@.len() == files@.len(),
        probes@.len() == files@.len(),
    ensures
        texts(warnings@) == hash_warnings(project_root@, texts(files@), probes@),
{
    let mut warnings: Vec<String> = Vec::new();
    let mut i: usize = 0;
    assert(texts(files@).take(0) =~= Seq::<Seq<char>>::empty());
    assert(texts(warnings@) =~= Seq::<Seq<char>>::empty());
    while i < files.len()
        invariant
            i <= files.len(),
            abs@.len() == files@.len(),
            probes@.len() == files@.len(),
            texts(abs@) == joined(project_root@, texts(files@)),
            texts(warnings@) == hash_warnings(
                project_root@,
                texts(files@).take(i as int),
                probes@.take(i as int),
            ),
        decreases files.len() - i,
    {
        proof {
            let next = texts(files@).take(i + 1);
            assert(next.drop_last() =~= texts(files@).take(i as int));
            assert(next.last() == files@[i as int]@);
            let next_probes = probes@.take(i + 1);
            assert(next_probes.drop_last() =~= probes@.take(i as int));
            assert(next_probes.last() == probes@[i as int]);
            assert(texts(abs@)[i as int] == abs@[i as int]@);
            assert(joined(project_root@, texts(files@))[i as int] == spec_join(
                project_root@,
                files@[i as int]@,
            ));
        }
        if probes[i].exists {
            match hash_file(abs[i].as_str(), &probes[i].read) {
                Ok(_) => {},
                Err(e) => {
                    let ghost before = warnings@;
                    let ghost ev = e@;
                    warnings.push(concat("Warning: ", e.as_str()));
                    assert(texts(warnings@) =~= texts(before).push(warning(ev)));
                },
            }
        }
        i += 1;
    }
    assert(texts(files@).take(files.len() as int) =~= texts(files@));
    assert(probes@.take(files.len() as int) =~= probes@);
    warnings
}

/// The pairs (path, hash) to record for `files`: one for each file that
/// exists and can be read, in order. Missing and unreadable files are passed
/// over.
pub open spec fn reconcile_pairs(
    root: Seq<char>,
    files: Seq<Seq<char>>,
    probes: Seq<FileProbe>,
) -> Seq<(Seq<char>, Seq<char>)>
    decreases files.len(),
{
    if files.len() == 0 {
        Seq::empty()
    } else {
        let rest = reconcile_pairs(root, files.drop_last(), probes.drop_last());
        if probes.last().exists {
            match spec_hash_file(spec_join(root, files.last()), probes.last().read) {
                Ok(h) => rest.push((files.last(), h)),
                Err(_) => rest,
            }
        } else {
            rest
        }
    }
}

/// What `mark_reconciled` comes to.
pub open spec fn spec_mark_reconciled(
    env: Observations,
    root: Seq<char>,
    files: Seq<Seq<char>>,
) -> Outcome<Result<ReconciledView, McpErrorView>> {
    match env.spec_store(root) {
        None => Outcome::Need(RequestView::OpenStore { project_root: root }),
        Some(Err(f)) => Outcome::Done(Err(internal(spec_failure_message(f)))),
        Some(Ok(_)) => match env.spec_probes(joined(root, files)) {
            None => Outcome::Need(RequestView::ProbeFiles { paths: joined(root, files) }),
            Some(probes) => {
                let pairs = reconcile_pairs(root, files, probes);
                let warnings = hash_warnings(root, files, probes);
                if pairs.len() == 0 {
                    Outcome::Done(Ok(ReconciledView { updated: 0, warnings }))
                } else {
                    match env.spec_persisted(root, pairs) {
                        None => Outcome::Need(
                            RequestView::Persist { project_root: root, pairs },
                        ),
                        Some(Err(f)) => Outcome::Done(Err(internal(spec_failure_message(f)))),
                        Some(Ok(_)) => Outcome::Done(
                            Ok(ReconciledView { updated: pairs.len(), warnings }),
                        ),
                    }
                }
            },
        },
    }
}

/// Computes the pairs to record for `files`, whose absolute paths are `abs`
/// and whose probes are `probes`.
fn pairs_to_record(
    project_root: &str,
    files: &Vec<String>,
    abs: &Vec<String>,
    probes: &Vec<FileProbe>,
) -> (pairs: Vec<HashPair>)
    requires
        texts(abs@) == joined(project_root@, texts(files@)),
        abs@.len() == files@.len(),
        probes@.len() == files@.len(),
    ensures
        pairs_view(pairs@) == reconcile_pairs(project_root@, texts(files@), probes@),
{
    let mut pairs: Vec<HashPair> = Vec::new();
    let mut i: usize = 0;
    assert(texts(files@).take(0) =~= Seq::<Seq<char>>::empty());
    assert(pairs_view(pairs@) =~= Seq::<(Seq<char>, Seq<char>)>::empty());
    while i < files.len()
        invariant
            i <= files.len(),
            abs@.len() == files@.len(),
            probes@.len() == files@.len(),
            texts(abs@) == joined(project_root@, texts(files@)),
            pairs_view(pairs@) == reconcile_pairs(
                project_root@,
                texts(files@).take(i as int),
                probes@.take(i as int),
            ),
        decreases files.len() - i,
    {
        proof {
            let next = texts(files@).take(i + 1);
            assert(next.drop_last() =~= texts(files@).take(i as int));
            assert(next.last() == files@[i as int]@);
            let next_probes = probes@.take(i + 1);
            assert(next_probes.drop_last() =~= probes@.take(i as int));
            assert(next_probes.last() == probes@[i as int]);
            assert(texts(abs@)[i as int] == abs@[i as int]@);
            assert(joined(project_root@, texts(files@))[i as int] == spec_join(
                project_root@,
                files@[i as int]@,
            ));
        }
        if probes[i].exists {
            match hash_file(abs[i].as_str(), &probes[i].read) {
                Ok(h) => {
                    let ghost before = pairs@;
                    let ghost hv = h@;
                    pairs.push(HashPair { path: files[i].clone(), content_hash: h });
                    assert(pairs_view(pairs@) =~= pairs_view(before).push(
                        (files@[i as int]@, hv),
                    ));
                },
                Err(_) => {},
            }
        }
        i += 1;
    }
    assert(texts(files@).take(files.len() as int) =~= texts(files@));
    assert(probes@.take(files.len() as int) =~= probes@);
    pairs
}

/// Records that `files` have been reconciled: each file that exists and can
/// be read is hashed, and the hashes are written to the store under the
/// files' relative paths, all or none. Files that are missing are passed
/// over without a word; files that exist but cannot be read are passed over
/// with a warning. A store that cannot be opened or written fails the
/// operation. Returns how many files were written, and the warnings.
pub fn mark_reconciled(files: &Vec<String>, project_root: &str, env: &Observations) -> (r: Step<
    Result<Reconciled, McpError>,
>)
    ensures
        step_view(r) == spec_mark_reconciled(*env, project_root@, texts(files@)),
{
    match env.store_of(project_root) {
        Err(q) => {
            return Step::Need(q);
        },
        Ok(Err(f)) => {
            return Step::Done(Err(internal_error(failure_message(f))));
        },
        Ok(Ok(_)) => {},
    }
    let abs = join_all(project_root, files);
    let none: Vec<FileProbe> = Vec::new();
    let probes: &Vec<FileProbe> = if abs.len() == 0 {
        assert(none@ =~= Seq::<FileProbe>::empty());
        &none
    } else {
        match env.probes_for(&abs) {
            Ok(v) => v,
            Err(q) => {
                return Step::Need(q);
            },
        }
    };
    let pairs = pairs_to_record(project_root, files, &abs, probes);
    let warnings = warnings_for(project_root, files, &abs, probes);
    let count = pairs.len();
    if count == 0 {
        return Step::Done(Ok(Reconciled { updated: 0, warnings }));
    }
    assert(pairs_view(pairs@).len() == count);
    match env.persisted(project_root, pairs) {
        Err(q) => Step::Need(q),
        Ok(Err(f)) => Step::Done(Err(internal_error(failure_message(f)))),
        Ok(Ok(_)) => Step::Done(Ok(Reconciled { updated: count, warnings })),
    }
}

/// The result of `get_changed_artifacts`.
pub struct ChangedArtifacts {
    /// The governed files whose content is not what the store recorded.
    pub changed_artifacts: Vec<String>,
    /// What went wrong without failing the operation: a store that could
    /// not be opened, files that exist but could not be hashed. They are
    /// meant for a diagnostic channel, not for the result that the caller is
    /// given.
    pub warnings: Vec<String>,
}

/// A `ChangedArtifacts` over plain values.
pub struct ChangedArtifactsView {
    pub changed_artifacts: Seq<Seq<char>>,
    pub warnings: Seq<Seq<char>>,
}

impl View for ChangedArtifacts {
    type V = ChangedArtifactsView;

    open spec fn view(&self) -> ChangedArtifactsView {
        ChangedArtifactsView {
            changed_artifacts: texts(self.changed_artifacts@),
            warnings: texts(self.warnings@),
        }
    }
}

/// The verdict of the change detector on the governed file `rel`.
pub open spec fn file_verdict(
    store: Map<Seq<char>, Stored>,
    root: Seq<char>,
    rel: Seq<char>,
    probe: FileProbe,
) -> Result<Option<Seq<char>>, Seq<char>> {
    spec_check_changed(store, rel, spec_join(root, rel), probe)
}

/// The files of `files` that the change detector found changed, in order. A
/// file that exists but cannot be read is left out.
pub open spec fn dirty_files(
    store: Map<Seq<char>, Stored>,
    root: Seq<char>,
    files: Seq<Seq<char>>,
    probes: Seq<FileProbe>,
) -> Seq<Seq<char>>
    decreases files.len(),
{
    if files.len() == 0 {
        Seq::empty()
    } else {
        let rest = dirty_files(store, root, files.drop_last(), probes.drop_last());
        if file_verdict(store, root, files.last(), probes.last()) matches Ok(Some(_)) {
            rest.push(files.last())
        } else {
            rest
        }
    }
}

/// The patterns of `doc`: those of one artifact type, or all of them.
pub open spec fn chosen_patterns(
    doc: JsonValue,
    artifact_type: Option<Seq<char>>,
) -> Seq<Seq<char>> {
    match artifact_type {
        Some(t) => spec_artifact_type_patterns(doc, t),
        None => spec_artifact_patterns(doc),
    }
}

/// What `get_changed_artifacts` comes to.
pub open spec fn spec_get_changed_artifacts(
    env: Observations,
    root: Seq<char>,
    spec_path: Seq<char>,
    artifact_type: Option<Seq<char>>,
) -> Outcome<Result<ChangedArtifactsView, McpErrorView>> {
    match spec_load_document(env, root, spec_path) {
        Outcome::Need(q) => Outcome::Need(q),
        Outcome::Done(Err(e)) => Outcome::Done(Err(e)),
        Outcome::Done(Ok(doc)) => {
            let patterns = chosen_patterns(doc, artifact_type);
            match spec_expand(env, root, patterns) {
                None => Outcome::Need(
                    RequestView::ExpandGlobs { patterns: joined(root, patterns) },
                ),
                Some(files) => match env.spec_store(root) {
                    None => Outcome::Need(RequestView::OpenStore { project_root: root }),
                    Some(Err(f)) => Outcome::Done(
                        Ok(
                            ChangedArtifactsView {
                                changed_artifacts: files,
                                warnings: seq![warning(spec_failure_message(f))],
                            },
                        ),
                    ),
                    Some(Ok(store)) => match env.spec_probes(joined(root, files)) {
                        None => Outcome::Need(
                            RequestView::ProbeFiles { paths: joined(root, files) },
                        ),
                        Some(probes) => Outcome::Done(
                            Ok(
                                ChangedArtifactsView {
                                    changed_artifacts: dirty_files(store@, root, files, probes),
                                    warnings: hash_warnings(root, files, probes),
                                },
                            ),
                        ),
                    },
                },
            }
        },
    }
}

fn collect_dirty(
    store: &HashStore,
    project_root: &str,
    files: &Vec<String>,
    abs: &Vec<String>,
    probes: &Vec<FileProbe>,
) -> (changed: Vec<String>)
    requires
        texts(abs@) == joined(project_root@, texts(files@)),
        abs@.len() == files@.len(),
        probes@.len() == files@.len(),
    ensures
        texts(changed@) == dirty_files(store@, project_root@, texts(files@), probes@),
{
    let mut changed: Vec<String> = Vec::new();
    let mut i: usize = 0;
    assert(texts(files@).take(0) =~= Seq::<Seq<char>>::empty());
    assert(texts(changed@) =~= Seq::<Seq<char>>::empty());
    while i < files.len()
        invariant
            i <= files.len(),
            abs@.len() == files@.len(),
            probes@.len() == files@.len(),
            texts(abs@) == joined(project_root@, texts(files@)),
            texts(changed@) == dirty_files(
                store@,
                project_root@,
                texts(files@).take(i as int),
                probes@.take(i as int),
            ),
        decreases files.len() - i,
    {
        proof {
            let next = texts(files@).take(i + 1);
            assert(next.drop_last() =~= texts(files@).take(i as int));
            assert(next.last() == files@[i as int]@);
            let next_probes = probes@.take(i + 1);
            assert(next_probes.drop_last() =~= probes@.take(i as int));
            assert(next_probes.last() == probes@[i as int]);
            assert(texts(abs@)[i as int] == abs@[i as int]@);
            assert(joined(project_root@, texts(files@))[i as int] == spec_join(
                project_root@,
                files@[i as int]@,
            ));
        }
        match check_changed(store, files[i].as_str(), abs[i].as_str(), &probes[i]) {
            Ok(Some(_)) => {
                let ghost before = changed@;
                changed.push(files[i].clone());
                assert(texts(changed@) =~= texts(before).push(files@[i as int]@));
            },
            Ok(None) => {},
            Err(_) => {},
        }
        i += 1;
    }
    assert(texts(files@).take(files.len() as int) =~= texts(files@));
    assert(probes@.take(files.len() as int) =~= probes@);
    changed
}

/// Lists the files governed by the spec at `spec_path` that changed since
/// they were last reconciled: the spec's globs are expanded (those of one
/// artifact type when `artifact_type` is given) and each file is checked
/// against the hash store. No revision is compared. Where the store cannot
/// be opened nothing is known to be unchanged: every governed file is
/// listed, with a warning that says why the store was not used. A file that
/// exists but cannot be hashed is left out of the list, with a warning of
/// its own.
pub fn get_changed_artifacts(
    spec_path: &str,
    artifact_type: Option<&str>,
    project_root: &str,
    env: &Observations,
) -> (r: Step<Result<ChangedArtifacts, McpError>>)
    ensures
        step_view(r) == spec_get_changed_artifacts(
            *env,
            project_root@,
            spec_path@,
            match artifact_type {
                Some(t) => Some(t@),
                None => None,
            },
        ),
{
    let doc = match load_document(spec_path, project_root, env) {
        Step::Need(q) => {
            return Step::Need(q);
        },
        Step::Done(Err(e)) => {
            return Step::Done(Err(e));
        },
        Step::Done(Ok(doc)) => doc,
    };
    let patterns = match artifact_type {
        Some(t) => artifact_type_patterns(&doc, t),
        None => artifact_patterns(&doc),
    };
    let files = match expand_patterns(&patterns, project_root, env) {
        Ok(files) => files,
        Err(q) => {
            return Step::Need(q);
        },
    };
    let store = match env.store_of(project_root) {
        Err(q) => {
            return Step::Need(q);
        },
        Ok(Err(f)) => {
            let mut warnings: Vec<String> = Vec::new();
            let why = failure_message(f);
            warnings.push(concat("Warning: ", why.as_str()));
            assert(texts(warnings@) =~= seq![warning(spec_failure_message(*f))]);
            return Step::Done(Ok(ChangedArtifacts { changed_artifacts: files, warnings }));
        },
        Ok(Ok(store)) => store,
    };
    let abs = join_all(project_root, &files);
    let none: Vec<FileProbe> = Vec::new();
    let probes: &Vec<FileProbe> = if abs.len() == 0 {
        assert(none@ =~= Seq::<FileProbe>::empty());
        &none
    } else {
        match env.probes_for(&abs) {
            Ok(v) => v,
            Err(q) => {
                return Step::Need(q);
            },
        }
    };
    let changed = collect_dirty(store, project_root, &files, &abs, probes);
    let warnings = warnings_for(project_root, &files, &abs, probes);
    Step::Done(Ok(ChangedArtifacts { changed_artifacts: changed, warnings }))
}

/// A reference to the system spec: its path and, unless the caller has the
/// text already, its full text.
pub struct SystemSpecRef {
    pub path: String,
    pub content: Option<String>,
}

/// A `SystemSpecRef` over plain values.
pub struct SystemSpecView {
    pub path: Seq<char>,
    pub content: Option<Seq<char>>,
}

impl View for SystemSpecRef {
    type V = SystemSpecView;

    open spec fn view(&self) -> SystemSpecView {
        SystemSpecView {
            path: self.path@,
            content: match self.content {
                Some(c) => Some(c@),
                None => None,
            },
        }
    }
}

/// The name that the system spec is looked for under when no spec file
/// declares subsystems.
pub open spec fn fallback_name() -> Seq<char> {
    "system.spec.yaml"@
}

/// The paths of the entries that are files with a spec file's name, in the
/// order of the listing.
pub open spec fn candidate_paths(entries: Seq<DirEntry>) -> Seq<Seq<char>>
    decreases entries.len(),
{
    if entries.len() == 0 {
        Seq::empty()
    } else {
        let rest = candidate_paths(entries.drop_last());
        if entries.last().is_file && has_suffix(entries.last().path@, spec_suffix()) {
            rest.push(entries.last().path@)
        } else {
            rest
        }
    }
}

/// The candidates that a listing gives; a directory that cannot be listed
/// gives none.
pub open spec fn listing_candidates(listing: Option<Vec<DirEntry>>) -> Seq<Seq<char>> {
    match listing {
        Some(entries) => candidate_paths(entries@),
        None => Seq::empty(),
    }
}

/// True when the file was read, parses, and declares `subsystems`.
pub open spec fn declares_subsystems(read: Result<String, String>) -> bool {
    read matches Ok(content) && yaml_document(content@) matches Some(doc) && doc.spec_get(
        "subsystems"@,
    ) is Some
}

/// The repo-relative path of the first candidate that declares subsystems
/// and lies below `root`.
pub open spec fn declared_system_spec(
    root: Seq<char>,
    candidates: Seq<Seq<char>>,
    reads: Seq<Result<String, String>>,
) -> Option<Seq<char>>
    decreases candidates.len(),
{
    if candidates.len() == 0 {
        None
    } else {
        match declared_system_spec(root, candidates.drop_last(), reads.drop_last()) {
            Some(rel) => Some(rel),
            None => if declares_subsystems(reads.last()) {
                spec_strip_root(candidates.last(), root)
            } else {
                None
            },
        }
    }
}

/// Where the system spec of the project lies, relative to `root`: the first
/// spec file directly in the specs directory that declares subsystems or,
/// failing that, the file with the fallback name if it exists. `None` when
/// there is no specs directory or no such file.
pub open spec fn spec_locate_system_spec(env: Observations, root: Seq<char>) -> Outcome<
    Option<Seq<char>>,
> {
    let dir = spec_join(root, specs_dir());
    match env.spec_exists(dir) {
        None => Outcome::Need(RequestView::PathExists { path: dir }),
        Some(false) => Outcome::Done(None),
        Some(true) => match env.spec_listing(dir) {
            None => Outcome::Need(RequestView::ListDir { path: dir }),
            Some(listing) => {
                let candidates = listing_candidates(listing);
                match env.spec_texts(candidates) {
                    None => Outcome::Need(RequestView::ReadTexts { paths: candidates }),
                    Some(reads) => match declared_system_spec(root, candidates, reads) {
                        Some(rel) => Outcome::Done(Some(rel)),
                        None => {
                            let fallback = spec_join(dir, fallback_name());
                            match env.spec_exists(fallback) {
                                None => Outcome::Need(RequestView::PathExists { path: fallback }),
                                Some(false) => Outcome::Done(None),
                                Some(true) => Outcome::Done(spec_strip_root(fallback, root)),
                            }
                        },
                    },
                }
            },
        },
    }
}

/// What starts the message of a system spec that cannot be read.
pub open spec fn system_read_failure(rel: Seq<char>, e: Seq<char>) -> Seq<char> {
    "read error for system spec "@ + rel + ": "@ + e
}

/// The reference to the system spec. When its path is among `shown`, whose
/// texts the caller has already, the reference carries the path alone;
/// otherwise it carries the file's full text.
pub open spec fn spec_find_system_spec(
    env: Observations,
    root: Seq<char>,
    shown: Seq<Seq<char>>,
) -> Outcome<Result<Option<SystemSpecView>, McpErrorView>> {
    match spec_locate_system_spec(env, root) {
        Outcome::Need(q) => Outcome::Need(q),
        Outcome::Done(None) => Outcome::Done(Ok(None)),
        Outcome::Done(Some(rel)) => if shown.contains(rel) {
            Outcome::Done(Ok(Some(SystemSpecView { path: rel, content: None })))
        } else {
            let abs = spec_join(root, rel);
            match env.spec_text(abs) {
                None => Outcome::Need(RequestView::ReadTexts { paths: seq![abs] }),
                Some(Err(e)) => Outcome::Done(Err(internal(system_read_failure(rel, e@)))),
                Some(Ok(content)) => Outcome::Done(
                    Ok(Some(SystemSpecView { path: rel, content: Some(content@) })),
                ),
            }
        },
    }
}

fn candidates_of(entries: &Vec<DirEntry>) -> (r: Vec<String>)
    ensures
        texts(r@) == candidate_paths(entries@),
{
    let mut out: Vec<String> = Vec::new();
    let mut i: usize = 0;
    assert(entries@.take(0) =~= Seq::<DirEntry>::empty());
    assert(texts(out@) =~= Seq::<Seq<char>>::empty());
    while i < entries.len()
        invariant
            i <= entries.len(),
            texts(out@) == candidate_paths(entries@.take(i as int)),
        decreases entries.len() - i,
    {
        proof {
            let next = entries@.take(i + 1);
            assert(next.drop_last() =~= entries@.take(i as int));
            assert(next.last() == entries@[i as int]);
        }
        if entries[i].is_file && ends_with(entries[i].path.as_str(), ".spec.yaml") {
            let ghost before = out@;
            out.push(entries[i].path.clone());
            assert(texts(out@) =~= texts(before).push(entries@[i as int].path@));
        }
        i += 1;
    }
    assert(entries@.take(entries.len() as int) =~= entries@);
    out
}

fn subsystems_declared(read: &Result<String, String>) -> (b: bool)
    ensures
        b == declares_subsystems(*read),
{
    match read {
        Ok(content) => match parse_yaml(content.as_str()) {
            Ok(doc) => doc.get("subsystems").is_some(),
            Err(_) => false,
        },
        Err(_) => false,
    }
}

fn first_declared(root: &str, candidates: &Vec<String>, reads: &Vec<Result<String, String>>) -> (r:
    Option<String>)
    requires
        reads@.len() == candidates@.len(),
    ensures
        match r {
            Some(rel) => declared_system_spec(root@, texts(candidates@), reads@) == Some(rel@),
            None => declared_system_spec(root@, texts(candidates@), reads@) is None,
        },
{
    let mut found: Option<String> = None;
    let mut i: usize = 0;
    assert(texts(candidates@).take(0) =~= Seq::<Seq<char>>::empty());
    while i < candidates.len()
        invariant
            i <= candidates.len(),
            reads@.len() == candidates@.len(),
            match found {
                Some(rel) => declared_system_spec(
                    root@,
                    texts(candidates@).take(i as int),
                    reads@.take(i as int),
                ) == Some(rel@),
                None => declared_system_spec(
                    root@,
                    texts(candidates@).take(i as int),
                    reads@.take(i as int),
                ) is None,
            },
        decreases candidates.len() - i,
    {
        proof {
            let next = texts(candidates@).take(i + 1);
            assert(next.drop_last() =~= texts(candidates@).take(i as int));
            assert(next.last() == candidates@[i as int]@);
            let next_reads = reads@.take(i + 1);
            assert(next_reads.drop_last() =~= reads@.take(i as int));
            assert(next_reads.last() == reads@[i as int]);
        }
        if found.is_none() && subsystems_declared(&reads[i]) {
            found = strip_root(candidates[i].as_str(), root);
        }
        i += 1;
    }
    assert(texts(candidates@).take(candidates.len() as int) =~= texts(candidates@));
    assert(reads@.take(candidates.len() as int) =~= reads@);
    found
}

/// Locates the system spec of the project at `project_root`.
pub fn locate_system_spec(project_root: &str, env: &Observations) -> (r: Step<Option<String>>)
    ensures
        match r {
            Step::Need(q) => spec_locate_system_spec(*env, project_root@) == Outcome::<
                Option<Seq<char>>,
            >::Need(q@),
            Step::Done(Some(rel)) => spec_locate_system_spec(*env, project_root@) == Outcome::Done(
                Some(rel@),
            ),
            Step::Done(None) => spec_locate_system_spec(*env, project_root@) == Outcome::Done(
                None::<Seq<char>>,
            ),
        },
{
    let dir = join_path(project_root, ".notarai");
    match env.path_exists(dir.as_str()) {
        Err(q) => {
            return Step::Need(q);
        },
        Ok(false) => {
            return Step::Done(None);
        },
        Ok(true) => {},
    }
    let listing = match env.listing_of(dir.as_str()) {
        Err(q) => {
            return Step::Need(q);
        },
        Ok(listing) => listing,
    };
    let candidates: Vec<String> = match listing {
        Some(entries) => candidates_of(entries),
        None => Vec::new(),
    };
    assert(texts(candidates@) =~= listing_candidates(*listing));
    let none: Vec<Result<String, String>> = Vec::new();
    let reads: &Vec<Result<String, String>> = if candidates.len() == 0 {
        assert(none@ =~= Seq::<Result<String, String>>::empty());
        &none
    } else {
        match env.texts_for(&candidates) {
            Ok(v) => v,
            Err(q) => {
                return Step::Need(q);
            },
        }
    };
    match first_declared(project_root, &candidates, reads) {
        Some(rel) => {
            return Step::Done(Some(rel));
        },
        None => {},
    }
    let fallback = join_path(dir.as_str(), "system.spec.yaml");
    match env.path_exists(fallback.as_str()) {
        Err(q) => Step::Need(q),
        Ok(false) => Step::Done(None),
        Ok(true) => Step::Done(strip_root(fallback.as_str(), project_root)),
    }
}

/// Finds the system spec of the project at `project_root`: the spec that
/// declares `subsystems`. `spec_changes_paths` are the spec files whose text
/// the caller holds already; when the system spec is one of them only its
/// path is returned, otherwise its text is read and returned with it.
pub fn find_system_spec(
    project_root: &str,
    spec_changes_paths: &Vec<String>,
    env: &Observations,
) -> (r: Step<Result<Option<SystemSpecRef>, McpError>>)
    ensures
        match r {
            Step::Need(q) => spec_find_system_spec(
                *env,
                project_root@,
                texts(spec_changes_paths@),
            ) == Outcome::<Result<Option<SystemSpecView>, McpErrorView>>::Need(q@),
            Step::Done(Ok(Some(s))) => spec_find_system_spec(
                *env,
                project_root@,
                texts(spec_changes_paths@),
            ) == Outcome::Done(Ok::<Option<SystemSpecView>, McpErrorView>(Some(s@))),
            Step::Done(Ok(None)) => spec_find_system_spec(
                *env,
                project_root@,
                texts(spec_changes_paths@),
            ) == Outcome::Done(Ok::<Option<SystemSpecView>, McpErrorView>(None)),
            Step::Done(Err(e)) => spec_find_system_spec(
                *env,
                project_root@,
                texts(spec_changes_paths@),
            ) == Outcome::Done(Err::<Option<SystemSpecView>, McpErrorView>(e@)),
        },
{
    let rel = match locate_system_spec(project_root, env) {
        Step::Need(q) => {
            return Step::Need(q);
        },
        Step::Done(None) => {
            return Step::Done(Ok(None));
        },
        Step::Done(Some(rel)) => rel,
    };
    if list_contains(spec_changes_paths, rel.as_str()) {
        return Step::Done(Ok(Some(SystemSpecRef { path: rel, content: None })));
    }
    let abs = join_path(project_root, rel.as_str());
    match env.text_at(abs.as_str()) {
        Err(q) => Step::Need(q),
        Ok(Err(e)) => {
            let head = concat3("read error for system spec ", rel.as_str(), ": ");
            Step::Done(Err(internal_error(concat(head.as_str(), e.as_str()))))
        },
        Ok(Ok(content)) => Step::Done(
            Ok(Some(SystemSpecRef { path: rel, content: Some(content.clone()) })),
        ),
    }
}

/// A spec file that changed, with its full current text.
pub struct SpecChange {
    pub path: String,
    pub content: String,
}

/// The paths and texts of a list of spec changes.
pub open spec fn changes_view(changes: Seq<SpecChange>) -> Seq<(Seq<char>, Seq<char>)> {
    Seq::new(changes.len(), |i: int| (changes[i].path@, changes[i].content@))
}

/// The result of `get_spec_diff`.
pub struct SpecDiff {
    /// The version-control diff of the artifact files in `files`.
    pub diff: String,
    /// The artifact files that were diffed.
    pub files: Vec<String>,
    /// The artifact files left out because they did not change.
    pub skipped: Vec<String>,
    /// The exclusion patterns that were asked for.
    pub excluded: Vec<String>,
    /// The spec files that changed, each with its full text.
    pub spec_changes: Vec<SpecChange>,
    /// The system spec, when a spec file changed and there is one.
    pub system_spec: Option<SystemSpecRef>,
    /// What went wrong without failing the operation: a store that could
    /// not be opened, files that exist but could not be hashed. They are
    /// meant for a diagnostic channel, not for the result that the caller is
    /// given.
    pub warnings: Vec<String>,
}

/// A `SpecDiff` over plain values.
pub struct SpecDiffView {
    pub diff: Seq<char>,
    pub files: Seq<Seq<char>>,
    pub skipped: Seq<Seq<char>>,
    pub excluded: Seq<Seq<char>>,
    pub spec_changes: Seq<(Seq<char>, Seq<char>)>,
    pub system_spec: Option<SystemSpecView>,
    pub warnings: Seq<Seq<char>>,
}

impl View for SpecDiff {
    type V = SpecDiffView;

    open spec fn view(&self) -> SpecDiffView {
        SpecDiffView {
            diff: self.diff@,
            files: texts(self.files@),
            skipped: texts(self.skipped@),
            excluded: texts(self.excluded@),
            spec_changes: changes_view(self.spec_changes@),
            system_spec: match self.system_spec {
                Some(s) => Some(s@),
                None => None,
            },
            warnings: texts(self.warnings@),
        }
    }
}

/// The files of `files` on one side of the partition and with one value of
/// their flag in `keep`, in order. `spec_side` chooses the spec files or the
/// artifact files; `kept` chooses the flagged or the unflagged.
pub open spec fn pick(files: Seq<Seq<char>>, keep: Seq<bool>, spec_side: bool, kept: bool) -> Seq<
    Seq<char>,
>
    decreases files.len(),
{
    if files.len() == 0 {
        Seq::empty()
    } else {
        let rest = pick(files.drop_last(), keep.drop_last(), spec_side, kept);
        if spec_is_spec_file(files.last()) == spec_side && keep.last() == kept {
            rest.push(files.last())
        } else {
            rest
        }
    }
}

/// A flag for each of `n` files, all set.
pub open spec fn keep_all(n: nat) -> Seq<bool> {
    Seq::new(n, |i: int| true)
}

/// A flag for each file: set unless the change detector found the file
/// unchanged.
pub open spec fn keep_flags(
    store: Map<Seq<char>, Stored>,
    root: Seq<char>,
    files: Seq<Seq<char>>,
    probes: Seq<FileProbe>,
) -> Seq<bool> {
    Seq::new(
        files.len(),
        |i: int| !(file_verdict(store, root, files[i], probes[i]) matches Ok(None)),
    )
}

/// The governed files after screening against the hash store.
pub struct Screened {
    /// The spec files to show in full.
    pub shown: Seq<Seq<char>>,
    /// The artifact files to diff.
    pub to_diff: Seq<Seq<char>>,
    /// The artifact files that did not change.
    pub skipped: Seq<Seq<char>>,
}

/// The three lists that the flags `keep` split `files` into. Unchanged spec
/// files are in none of them.
pub open spec fn screened_by(files: Seq<Seq<char>>, keep: Seq<bool>) -> Screened {
    Screened {
        shown: pick(files, keep, true, true),
        to_diff: pick(files, keep, false, true),
        skipped: pick(files, keep, false, false),
    }
}

/// The flags that screening gives `files`. With `bypass` set, or when the
/// store cannot be opened, every file is kept.
pub open spec fn spec_screening(
    env: Observations,
    root: Seq<char>,
    files: Seq<Seq<char>>,
    bypass: bool,
) -> Outcome<Seq<bool>> {
    if bypass {
        Outcome::Done(keep_all(files.len()))
    } else {
        match env.spec_store(root) {
            None => Outcome::Need(RequestView::OpenStore { project_root: root }),
            Some(Err(_)) => Outcome::Done(keep_all(files.len())),
            Some(Ok(store)) => match env.spec_probes(joined(root, files)) {
                None => Outcome::Need(RequestView::ProbeFiles { paths: joined(root, files) }),
                Some(probes) => Outcome::Done(keep_flags(store@, root, files, probes)),
            },
        }
    }
}

/// The warnings that screening `files` gives: why the store was not used,
/// when it cannot be opened, and otherwise one for each file that exists but
/// cannot be hashed. With `bypass` set there is nothing to warn of.
pub open spec fn screening_warnings(
    env: Observations,
    root: Seq<char>,
    files: Seq<Seq<char>>,
    bypass: bool,
) -> Seq<Seq<char>> {
    if bypass {
        Seq::empty()
    } else {
        match env.spec_store(root) {
            None => Seq::empty(),
            Some(Err(f)) => seq![warning(spec_failure_message(f))],
            Some(Ok(_)) => match env.spec_probes(joined(root, files)) {
                None => Seq::empty(),
                Some(probes) => hash_warnings(root, files, probes),
            },
        }
    }
}

/// What starts the message of a changed spec file that cannot be read.
pub open spec fn spec_read_failure(rel: Seq<char>, e: Seq<char>) -> Seq<char> {
    "read error for "@ + rel + ": "@ + e
}

/// The message for the first of `paths` whose read failed, if any did.
pub open spec fn first_read_failure(
    paths: Seq<Seq<char>>,
    reads: Seq<Result<String, String>>,
) -> Option<Seq<char>>
    decreases paths.len(),
{
    if paths.len() == 0 {
        None
    } else {
        match first_read_failure(paths.drop_last(), reads.drop_last()) {
            Some(m) => Some(m),
            None => match reads.last() {
                Err(e) => Some(spec_read_failure(paths.last(), e@)),
                Ok(_) => None,
            },
        }
    }
}

/// Each path with the text read from it.
pub open spec fn read_contents(paths: Seq<Seq<char>>, reads: Seq<Result<String, String>>) -> Seq<
    (Seq<char>, Seq<char>),
> {
    Seq::new(
        paths.len(),
        |i: int|
            (
                paths[i],
                match reads[i] {
                    Ok(c) => c@,
                    Err(_) => Seq::<char>::empty(),
                },
            ),
    )
}

/// The changed spec files with their full texts.
pub open spec fn spec_spec_changes(
    env: Observations,
    root: Seq<char>,
    shown: Seq<Seq<char>>,
) -> Outcome<Result<Seq<(Seq<char>, Seq<char>)>, McpErrorView>> {
    match env.spec_texts(joined(root, shown)) {
        None => Outcome::Need(RequestView::ReadTexts { paths: joined(root, shown) }),
        Some(reads) => match first_read_failure(shown, reads) {
            Some(m) => Outcome::Done(Err(internal(m))),
            None => Outcome::Done(Ok(read_contents(shown, reads))),
        },
    }
}

/// The pathspec that excludes what `pattern` matches from a diff.
pub open spec fn exclusion(pattern: Seq<char>) -> Seq<char> {
    ":(exclude)"@ + pattern
}

/// The arguments of the diff of `files` against `base`, leaving out what
/// `excludes` match: the revision, then the files, then one exclusion
/// pathspec per pattern.
pub open spec fn diff_args(base: Seq<char>, files: Seq<Seq<char>>, excludes: Seq<Seq<char>>) -> Seq<
    Seq<char>,
> {
    seq!["diff"@, base, "--"@] + files + Seq::new(excludes.len(), |i: int| exclusion(excludes[i]))
}

/// The diff of `to_diff` against `base`. No file, no diff: the tool is not
/// run and the text is empty. A tool that cannot be run, or that exits with
/// failure, fails the operation; in the second case the message is what the
/// tool wrote to its error stream.
pub open spec fn spec_diff_text(
    env: Observations,
    root: Seq<char>,
    base: Seq<char>,
    to_diff: Seq<Seq<char>>,
    excludes: Seq<Seq<char>>,
) -> Outcome<Result<Seq<char>, McpErrorView>> {
    if to_diff.len() == 0 {
        Outcome::Done(Ok(Seq::<char>::empty()))
    } else {
        let args = diff_args(base, to_diff, excludes);
        match env.spec_git(root, args) {
            None => Outcome::Need(RequestView::RunGit { project_root: root, args }),
            Some(Err(e)) => Outcome::Done(Err(internal("git error: "@ + e@))),
            Some(Ok(out)) => if out.success {
                Outcome::Done(Ok(out.stdout@))
            } else {
                Outcome::Done(Err(internal(out.stderr@)))
            },
        }
    }
}

/// The system spec to return with `changes`: none when no spec file
/// changed.
pub open spec fn spec_system_context(
    env: Observations,
    root: Seq<char>,
    shown: Seq<Seq<char>>,
    changes: Seq<(Seq<char>, Seq<char>)>,
) -> Outcome<Result<Option<SystemSpecView>, McpErrorView>> {
    if changes.len() == 0 {
        Outcome::Done(Ok(None))
    } else {
        spec_find_system_spec(env, root, shown)
    }
}

/// The result for a spec that governs no file.
pub open spec fn empty_diff(excludes: Seq<Seq<char>>) -> SpecDiffView {
    SpecDiffView {
        diff: Seq::empty(),
        files: Seq::empty(),
        skipped: Seq::empty(),
        excluded: excludes,
        spec_changes: Seq::empty(),
        system_spec: None,
        warnings: Seq::empty(),
    }
}

/// What `get_spec_diff` comes to once the governed files are known and there
/// is at least one.
pub open spec fn spec_diff_of_files(
    env: Observations,
    root: Seq<char>,
    base: Seq<char>,
    excludes: Seq<Seq<char>>,
    bypass: bool,
    files: Seq<Seq<char>>,
) -> Outcome<Result<SpecDiffView, McpErrorView>> {
    match spec_screening(env, root, files, bypass) {
        Outcome::Need(q) => Outcome::Need(q),
        Outcome::Done(keep) => {
            let parts = screened_by(files, keep);
            match spec_spec_changes(env, root, parts.shown) {
                Outcome::Need(q) => Outcome::Need(q),
                Outcome::Done(Err(e)) => Outcome::Done(Err(e)),
                Outcome::Done(Ok(changes)) => match spec_system_context(
                    env,
                    root,
                    parts.shown,
                    changes,
                ) {
                    Outcome::Need(q) => Outcome::Need(q),
                    Outcome::Done(Err(e)) => Outcome::Done(Err(e)),
                    Outcome::Done(Ok(system)) => match spec_diff_text(
                        env,
                        root,
                        base,
                        parts.to_diff,
                        excludes,
                    ) {
                        Outcome::Need(q) => Outcome::Need(q),
                        Outcome::Done(Err(e)) => Outcome::Done(Err(e)),
                        Outcome::Done(Ok(diff)) => Outcome::Done(
                            Ok(
                                SpecDiffView {
                                    diff,
                                    files: parts.to_diff,
                                    skipped: parts.skipped,
                                    excluded: excludes,
                                    spec_changes: changes,
                                    system_spec: system,
                                    warnings: screening_warnings(env, root, files, bypass),
                                },
                            ),
                        ),
                    },
                },
            }
        },
    }
}

/// What `get_spec_diff` comes to.
pub open spec fn spec_get_spec_diff(
    env: Observations,
    root: Seq<char>,
    spec_path: Seq<char>,
    base: Seq<char>,
    excludes: Seq<Seq<char>>,
    bypass: bool,
) -> Outcome<Result<SpecDiffView, McpErrorView>> {
    match spec_load_document(env, root, spec_path) {
        Outcome::Need(q) => Outcome::Need(q),
        Outcome::Done(Err(e)) => Outcome::Done(Err(e)),
        Outcome::Done(Ok(doc)) => {
            let patterns = spec_artifact_patterns(doc);
            match spec_expand(env, root, patterns) {
                None => Outcome::Need(
                    RequestView::ExpandGlobs { patterns: joined(root, patterns) },
                ),
                Some(files) => if files.len() == 0 {
                    Outcome::Done(Ok(empty_diff(excludes)))
                } else {
                    spec_diff_of_files(env, root, base, excludes, bypass, files)
                },
            }
        },
    }
}

fn flags_all(n: usize) -> (keep: Vec<bool>)
    ensures
        keep@ == keep_all(n as nat),
{
    let mut keep: Vec<bool> = Vec::new();
    let mut i: usize = 0;
    while i < n
        invariant
            i <= n,
            keep@.len() == i,
            forall|j: int| 0 <= j < i ==> keep@[j],
        decreases n - i,
    {
        keep.push(true);
        i += 1;
    }
    assert(keep@ =~= keep_all(n as nat));
    keep
}

fn flags_from_store(
    store: &HashStore,
    project_root: &str,
    files: &Vec<String>,
    abs: &Vec<String>,
    probes: &Vec<FileProbe>,
) -> (keep: Vec<bool>)
    requires
        texts(abs@) == joined(project_root@, texts(files@)),
        abs@.len() == files@.len(),
        probes@.len() == files@.len(),
    ensures
        keep@ == keep_flags(store@, project_root@, texts(files@), probes@),
{
    let mut keep: Vec<bool> = Vec::new();
    let mut i: usize = 0;
    while i < files.len()
        invariant
            i <= files.len(),
            abs@.len() == files@.len(),
            probes@.len() == files@.len(),
            texts(abs@) == joined(project_root@, texts(files@)),
            keep@.len() == i,
            forall|j: int|
                0 <= j < i ==> keep@[j] == !(file_verdict(
                    store@,
                    project_root@,
                    files@[j]@,
                    probes@[j],
                ) matches Ok(None)),
        decreases files.len() - i,
    {
        proof {
            assert(texts(abs@)[i as int] == abs@[i as int]@);
            assert(joined(project_root@, texts(files@))[i as int] == spec_join(
                project_root@,
                files@[i as int]@,
            ));
        }
        let unchanged = match check_changed(
            store,
            files[i].as_str(),
            abs[i].as_str(),
            &probes[i],
        ) {
            Ok(None) => true,
            _ => false,
        };
        keep.push(!unchanged);
        i += 1;
    }
    assert(keep@ =~= keep_flags(store@, project_root@, texts(files@), probes@));
    keep
}

/// Screens `files` against the hash store: a flag per file, set when the
/// file is to be kept. With `bypass_cache` set the store is not consulted;
/// a store that cannot be opened screens nothing out.
pub fn screening(
    files: &Vec<String>,
    bypass_cache: bool,
    project_root: &str,
    env: &Observations,
) -> (r: Step<Vec<bool>>)
    ensures
        match r {
            Step::Need(q) => spec_screening(*env, project_root@, texts(files@), bypass_cache)
                == Outcome::<Seq<bool>>::Need(q@),
            Step::Done(keep) => spec_screening(*env, project_root@, texts(files@), bypass_cache)
                == Outcome::Done(keep@) && keep@.len() == files@.len(),
        },
{
    if bypass_cache {
        return Step::Done(flags_all(files.len()));
    }
    let store = match env.store_of(project_root) {
        Err(q) => {
            return Step::Need(q);
        },
        Ok(Err(_)) => {
            return Step::Done(flags_all(files.len()));
        },
        Ok(Ok(store)) => store,
    };
    let abs = join_all(project_root, files);
    let none: Vec<FileProbe> = Vec::new();
    let probes: &Vec<FileProbe> = if abs.len() == 0 {
        assert(none@ =~= Seq::<FileProbe>::empty());
        &none
    } else {
        match env.probes_for(&abs) {
            Ok(v) => v,
            Err(q) => {
                return Step::Need(q);
            },
        }
    };
    Step::Done(flags_from_store(store, project_root, files, &abs, probes))
}

/// The warnings that screening `files` gives, once screening is done.
pub fn warnings_of_screening(
    files: &Vec<String>,
    bypass_cache: bool,
    project_root: &str,
    env: &Observations,
) -> (warnings: Vec<String>)
    ensures
        texts(warnings@) == screening_warnings(
            *env,
            project_root@,
            texts(files@),
            bypass_cache,
        ),
{
    let mut warnings: Vec<String> = Vec::new();
    assert(texts(warnings@) =~= Seq::<Seq<char>>::empty());
    if bypass_cache {
        return warnings;
    }
    match env.store_of(project_root) {
        Err(_) => warnings,
        Ok(Err(f)) => {
            let why = failure_message(f);
            warnings.push(concat("Warning: ", why.as_str()));
            assert(texts(warnings@) =~= seq![warning(spec_failure_message(*f))]);
            warnings
        },
        Ok(Ok(_)) => {
            let abs = join_all(project_root, files);
            if abs.len() == 0 {
                let none: Vec<FileProbe> = Vec::new();
                assert(none@ =~= Seq::<FileProbe>::empty());
                warnings_for(project_root, files, &abs, &none)
            } else {
                match env.probes_for(&abs) {
                    Ok(probes) => warnings_for(project_root, files, &abs, probes),
                    Err(_) => warnings,
                }
            }
        },
    }
}

/// The files of `files` on one side of the partition and with one value of
/// their flag.
pub(crate) fn pick_files(
    files: &Vec<String>,
    keep: &Vec<bool>,
    spec_side: bool,
    kept: bool,
) -> (r: Vec<String>)
    requires
        keep@.len() == files@.len(),
    ensures
        texts(r@) == pick(texts(files@), keep@, spec_side, kept),
{
    let mut out: Vec<String> = Vec::new();
    let mut i: usize = 0;
    assert(texts(files@).take(0) =~= Seq::<Seq<char>>::empty());
    assert(texts(out@) =~= Seq::<Seq<char>>::empty());
    while i < files.len()
        invariant
            i <= files.len(),
            keep@.len() == files@.len(),
            texts(out@) == pick(
                texts(files@).take(i as int),
                keep@.take(i as int),
                spec_side,
                kept,
            ),
        decreases files.len() - i,
    {
        proof {
            let next = texts(files@).take(i + 1);
            assert(next.drop_last() =~= texts(files@).take(i as int));
            assert(next.last() == files@[i as int]@);
            let next_keep = keep@.take(i + 1);
            assert(next_keep.drop_last() =~= keep@.take(i as int));
            assert(next_keep.last() == keep@[i as int]);
        }
        if is_spec_file(files[i].as_str()) == spec_side && keep[i] == kept {
            let ghost before = out@;
            out.push(files[i].clone());
            assert(texts(out@) =~= texts(before).push(files@[i as int]@));
        }
        i += 1;
    }
    assert(texts(files@).take(files.len() as int) =~= texts(files@));
    assert(keep@.take(files.len() as int) =~= keep@);
    out
}

/// With every file kept, the files to diff are exactly the artifact files,
/// the files to show exactly the spec files, and nothing is skipped.
pub proof fn keeping_all_keeps_the_partition(files: Seq<Seq<char>>)
    ensures
        screened_by(files, keep_all(files.len())).shown == spec_files_of(files),
        screened_by(files, keep_all(files.len())).to_diff == artifact_files_of(files),
        screened_by(files, keep_all(files.len())).skipped == Seq::<Seq<char>>::empty(),
    decreases files.len(),
{
    reveal(Seq::filter);
    if files.len() > 0 {
        let init = files.drop_last();
        keeping_all_keeps_the_partition(init);
        assert(keep_all(files.len()).drop_last() =~= keep_all(init.len()));
    }
}

/// Splits a governed file set into its spec files and its artifact files,
/// each in the order of the set. A file is a spec file when it lies under the
/// reserved specs directory and its name ends with the reserved suffix; every
/// other file is an artifact file.
pub fn partition_governed(files: &Vec<String>) -> (r: (Vec<String>, Vec<String>))
    ensures
        texts(r.0@) == spec_files_of(texts(files@)),
        texts(r.1@) == artifact_files_of(texts(files@)),
{
    let all = flags_all(files.len());
    proof {
        keeping_all_keeps_the_partition(texts(files@));
    }
    let specs = pick_files(files, &all, true, true);
    let artifacts = pick_files(files, &all, false, true);
    (specs, artifacts)
}

fn changes_from(shown: &Vec<String>, reads: &Vec<Result<String, String>>) -> (r: Result<
    Vec<SpecChange>,
    String,
>)
    requires
        reads@.len() == shown@.len(),
    ensures
        match r {
            Ok(changes) => first_read_failure(texts(shown@), reads@) is None && changes_view(
                changes@,
            ) == read_contents(texts(shown@), reads@),
            Err(m) => first_read_failure(texts(shown@), reads@) == Some(m@),
        },
{
    let mut changes: Vec<SpecChange> = Vec::new();
    let mut failure: Option<String> = None;
    let mut i: usize = 0;
    assert(texts(shown@).take(0) =~= Seq::<Seq<char>>::empty());
    while i < shown.len()
        invariant
            i <= shown.len(),
            reads@.len() == shown@.len(),
            changes@.len() == i,
            forall|j: int|
                0 <= j < i ==> changes@[j].path@ == shown@[j]@ && changes@[j].content@
                    == read_contents(texts(shown@), reads@)[j].1,
            match failure {
                Some(m) => first_read_failure(texts(shown@).take(i as int), reads@.take(i as int))
                    == Some(m@),
                None => first_read_failure(texts(shown@).take(i as int), reads@.take(i as int))
                    is None,
            },
        decreases shown.len() - i,
    {
        proof {
            let next = texts(shown@).take(i + 1);
            assert(next.drop_last() =~= texts(shown@).take(i as int));
            assert(next.last() == shown@[i as int]@);
            let next_reads = reads@.take(i + 1);
            assert(next_reads.drop_last() =~= reads@.take(i as int));
            assert(next_reads.last() == reads@[i as int]);
        }
        match &reads[i] {
            Ok(content) => {
                changes.push(SpecChange { path: shown[i].clone(), content: content.clone() });
            },
            Err(e) => {
                if failure.is_none() {
                    let head = concat3("read error for ", shown[i].as_str(), ": ");
                    failure = Some(concat(head.as_str(), e.as_str()));
                }
                let empty = String::new();
                assert(empty@ =~= Seq::<char>::empty());
                changes.push(SpecChange { path: shown[i].clone(), content: empty });
            },
        }
        i += 1;
    }
    assert(texts(shown@).take(shown.len() as int) =~= texts(shown@));
    assert(reads@.take(shown.len() as int) =~= reads@);
    match failure {
        Some(m) => Err(m),
        None => {
            assert(changes_view(changes@) =~= read_contents(texts(shown@), reads@));
            Ok(changes)
        },
    }
}

/// Reads the full text of each changed spec file. One file that cannot be
/// read fails the whole operation.
pub fn read_spec_changes(shown: &Vec<String>, project_root: &str, env: &Observations) -> (r: Step<
    Result<Vec<SpecChange>, McpError>,
>)
    ensures
        match r {
            Step::Need(q) => spec_spec_changes(*env, project_root@, texts(shown@)) == Outcome::<
                Result<Seq<(Seq<char>, Seq<char>)>, McpErrorView>,
            >::Need(q@),
            Step::Done(Ok(changes)) => spec_spec_changes(*env, project_root@, texts(shown@))
                == Outcome::Done(
                Ok::<Seq<(Seq<char>, Seq<char>)>, McpErrorView>(changes_view(changes@)),
            ),
            Step::Done(Err(e)) => spec_spec_changes(*env, project_root@, texts(shown@))
                == Outcome::Done(Err::<Seq<(Seq<char>, Seq<char>)>, McpErrorView>(e@)),
        },
{
    let abs = join_all(project_root, shown);
    let none: Vec<Result<String, String>> = Vec::new();
    let reads: &Vec<Result<String, String>> = if abs.len() == 0 {
        assert(none@ =~= Seq::<Result<String, String>>::empty());
        &none
    } else {
        match env.texts_for(&abs) {
            Ok(v) => v,
            Err(q) => {
                return Step::Need(q);
            },
        }
    };
    match changes_from(shown, reads) {
        Ok(changes) => Step::Done(Ok(changes)),
        Err(m) => Step::Done(Err(internal_error(m))),
    }
}

/// The arguments for the version-control tool to diff `files` against
/// `base_branch`, with each pattern of `exclude_patterns` turned into an
/// exclusion pathspec.
pub fn diff_arguments(base_branch: &str, files: &Vec<String>, exclude_patterns: &Vec<String>) -> (r:
    Vec<String>)
    ensures
        texts(r@) == diff_args(base_branch@, texts(files@), texts(exclude_patterns@)),
{
    let mut args: Vec<String> = Vec::new();
    args.push(owned("diff"));
    args.push(owned(base_branch));
    args.push(owned("--"));
    let mut i: usize = 0;
    while i < files.len()
        invariant
            i <= files.len(),
            args@.len() == 3 + i,
            args@[0]@ == "diff"@,
            args@[1]@ == base_branch@,
            args@[2]@ == "--"@,
            forall|j: int| 0 <= j < i ==> args@[3 + j]@ == files@[j]@,
        decreases files.len() - i,
    {
        args.push(files[i].clone());
        i += 1;
    }
    let mut k: usize = 0;
    while k < exclude_patterns.len()
        invariant
            k <= exclude_patterns.len(),
            args@.len() == 3 + files@.len() + k,
            args@[0]@ == "diff"@,
            args@[1]@ == base_branch@,
            args@[2]@ == "--"@,
            forall|j: int| 0 <= j < files@.len() ==> args@[3 + j]@ == files@[j]@,
            forall|j: int|
                0 <= j < k ==> args@[3 + files@.len() + j]@ == exclusion(exclude_patterns@[j]@),
        decreases exclude_patterns.len() - k,
    {
        args.push(concat(":(exclude)", exclude_patterns[k].as_str()));
        k += 1;
    }
    assert(texts(args@) =~= diff_args(base_branch@, texts(files@), texts(exclude_patterns@)));
    args
}

/// Asks for the diff of `to_diff` against `base_branch`.
pub fn diff_text(
    base_branch: &str,
    to_diff: &Vec<String>,
    exclude_patterns: &Vec<String>,
    project_root: &str,
    env: &Observations,
) -> (r: Step<Result<String, McpError>>)
    ensures
        match r {
            Step::Need(q) => spec_diff_text(
                *env,
                project_root@,
                base_branch@,
                texts(to_diff@),
                texts(exclude_patterns@),
            ) == Outcome::<Result<Seq<char>, McpErrorView>>::Need(q@),
            Step::Done(Ok(diff)) => spec_diff_text(
                *env,
                project_root@,
                base_branch@,
                texts(to_diff@),
                texts(exclude_patterns@),
            ) == Outcome::Done(Ok::<Seq<char>, McpErrorView>(diff@)),
            Step::Done(Err(e)) => spec_diff_text(
                *env,
                project_root@,
                base_branch@,
                texts(to_diff@),
                texts(exclude_patterns@),
            ) == Outcome::Done(Err::<Seq<char>, McpErrorView>(e@)),
        },
{
    if to_diff.len() == 0 {
        let empty = String::new();
        assert(empty@ =~= Seq::<char>::empty());
        return Step::Done(Ok(empty));
    }
    let args = diff_arguments(base_branch, to_diff, exclude_patterns);
    match env.git_output(project_root, args) {
        Err(q) => Step::Need(q),
        Ok(Err(e)) => Step::Done(Err(internal_error(concat("git error: ", e.as_str())))),
        Ok(Ok(out)) => {
            if out.success {
                Step::Done(Ok(out.stdout.clone()))
            } else {
                Step::Done(Err(internal_error(out.stderr.clone())))
            }
        },
    }
}

/// Returns the changes to what the spec at `spec_path` governs.
///
/// The spec's artifact globs are expanded and the governed files are split
/// into spec files and artifact files. Unless `bypass_cache` is set, files
/// whose content is what the hash store recorded are left out of both; the
/// unchanged artifact files are listed under `skipped`. Changed spec files
/// are returned with their full text, together with the system spec; the
/// remaining artifact files are diffed against `base_branch`, without what
/// `exclude_patterns` match. A store that cannot be opened screens nothing
/// out, and a file that exists but cannot be hashed is kept: each with a
/// warning. A diff tool that cannot be run, or that exits with failure,
/// fails the operation. A spec that governs no file gives an empty result.
pub fn get_spec_diff(
    spec_path: &str,
    base_branch: &str,
    exclude_patterns: &Vec<String>,
    bypass_cache: bool,
    project_root: &str,
    env: &Observations,
) -> (r: Step<Result<SpecDiff, McpError>>)
    ensures
        step_view(r) == spec_get_spec_diff(
            *env,
            project_root@,
            spec_path@,
            base_branch@,
            texts(exclude_patterns@),
            bypass_cache,
        ),
{
    let doc = match load_document(spec_path, project_root, env) {
        Step::Need(q) => {
            return Step::Need(q);
        },
        Step::Done(Err(e)) => {
            return Step::Done(Err(e));
        },
        Step::Done(Ok(doc)) => doc,
    };
    let patterns = artifact_patterns(&doc);
    let files = match expand_patterns(&patterns, project_root, env) {
        Ok(files) => files,
        Err(q) => {
            return Step::Need(q);
        },
    };
    if files.len() == 0 {
        let diff = String::new();
        let none: Vec<String> = Vec::new();
        let skipped: Vec<String> = Vec::new();
        let changes: Vec<SpecChange> = Vec::new();
        let result = SpecDiff {
            diff,
            files: none,
            skipped,
            excluded: clone_strings(exclude_patterns),
            spec_changes: changes,
            system_spec: None,
            warnings: Vec::new(),
        };
        assert(result@.diff =~= Seq::<char>::empty());
        assert(result@.files =~= Seq::<Seq<char>>::empty());
        assert(result@.skipped =~= Seq::<Seq<char>>::empty());
        assert(result@.spec_changes =~= Seq::<(Seq<char>, Seq<char>)>::empty());
        assert(result@.warnings =~= Seq::<Seq<char>>::empty());
        assert(result@ == empty_diff(texts(exclude_patterns@)));
        return Step::Done(Ok(result));
    }
    let keep = match screening(&files, bypass_cache, project_root, env) {
        Step::Need(q) => {
            return Step::Need(q);
        },
        Step::Done(keep) => keep,
    };
    let warnings = warnings_of_screening(&files, bypass_cache, project_root, env);
    let shown = pick_files(&files, &keep, true, true);
    let to_diff = pick_files(&files, &keep, false, true);
    let skipped = pick_files(&files, &keep, false, false);
    let changes = match read_spec_changes(&shown, project_root, env) {
        Step::Need(q) => {
            return Step::Need(q);
        },
        Step::Done(Err(e)) => {
            return Step::Done(Err(e));
        },
        Step::Done(Ok(changes)) => changes,
    };
    let system = if changes.len() == 0 {
        assert(changes_view(changes@).len() == 0);
        None
    } else {
        assert(changes_view(changes@).len() > 0);
        match find_system_spec(project_root, &shown, env) {
            Step::Need(q) => {
                return Step::Need(q);
            },
            Step::Done(Err(e)) => {
                return Step::Done(Err(e));
            },
            Step::Done(Ok(system)) => system,
        }
    };
    let diff = match diff_text(base_branch, &to_diff, exclude_patterns, project_root, env) {
        Step::Need(q) => {
            return Step::Need(q);
        },
        Step::Done(Err(e)) => {
            return Step::Done(Err(e));
        },
        Step::Done(Ok(diff)) => diff,
    };
    Step::Done(
        Ok(
            SpecDiff {
                diff,
                files: to_diff,
                skipped,
                excluded: clone_strings(exclude_patterns),
                spec_changes: changes,
                system_spec: system,
                warnings,
            },
        ),
    )
}

/// A spec that governs a changed file.
pub struct AffectedSpec {
    /// Where the spec lies, relative to the project root.
    pub spec_path: String,
    /// The parsed spec.
    pub document: JsonValue,
}

impl AffectedSpec {
    /// The spec's `behaviors`, if it has any.
    pub fn behaviors(&self) -> (r: Option<&JsonValue>)
        ensures
            match r {
                Some(v) => self.document.spec_get("behaviors"@) == Some(*v),
                None => self.document.spec_get("behaviors"@) is None,
            },
    {
        self.document.get("behaviors")
    }

    /// The spec's `constraints`, if it has any.
    pub fn constraints(&self) -> (r: Option<&JsonValue>)
        ensures
            match r {
                Some(v) => self.document.spec_get("constraints"@) == Some(*v),
                None => self.document.spec_get("constraints"@) is None,
            },
    {
        self.document.get("constraints")
    }

    /// The spec's `invariants`, if it has any.
    pub fn invariants(&self) -> (r: Option<&JsonValue>)
        ensures
            match r {
                Some(v) => self.document.spec_get("invariants"@) == Some(*v),
                None => self.document.spec_get("invariants"@) is None,
            },
    {
        self.document.get("invariants")
    }
}

/// The paths and documents of a list of affected specs.
pub open spec fn affected_view(specs: Seq<AffectedSpec>) -> Seq<(Seq<char>, JsonValue)> {
    Seq::new(specs.len(), |i: int| (specs[i].spec_path@, specs[i].document))
}

/// The result of `list_affected_specs`.
pub struct AffectedSpecs {
    /// Every path that changed since the base revision.
    pub changed_files: Vec<String>,
    /// The specs with a glob that matches one of them.
    pub affected_specs: Vec<AffectedSpec>,
}

/// An `AffectedSpecs` over plain values.
pub struct AffectedSpecsView {
    pub changed_files: Seq<Seq<char>>,
    pub affected_specs: Seq<(Seq<char>, JsonValue)>,
}

impl View for AffectedSpecs {
    type V = AffectedSpecsView;

    open spec fn view(&self) -> AffectedSpecsView {
        AffectedSpecsView {
            changed_files: texts(self.changed_files@),
            affected_specs: affected_view(self.affected_specs@),
        }
    }
}

/// The arguments that make the version-control tool list the paths changed
/// since `base`.
pub open spec fn names_args(base: Seq<char>) -> Seq<Seq<char>> {
    seq!["diff"@, base, "--name-only"@]
}

/// The paths changed since `base`: the non-empty lines that the tool prints.
/// A tool that cannot be run, or that exits with failure, fails the
/// operation; in the second case the message is what the tool wrote to its
/// error stream.
pub open spec fn spec_changed_files(env: Observations, root: Seq<char>, base: Seq<char>) -> Outcome<
    Result<Seq<Seq<char>>, McpErrorView>,
> {
    match env.spec_git(root, names_args(base)) {
        None => Outcome::Need(RequestView::RunGit { project_root: root, args: names_args(base) }),
        Some(Err(e)) => Outcome::Done(Err(internal("git error: "@ + e@))),
        Some(Ok(out)) => if out.success {
            Outcome::Done(Ok(non_empty(spec_lines(out.stdout@))))
        } else {
            Outcome::Done(Err(internal(out.stderr@)))
        },
    }
}

/// Every spec file in the project's specs tree, at any depth. A project
/// without a specs directory has none; a walk that fails fails the
/// operation.
pub open spec fn spec_collect_specs(env: Observations, root: Seq<char>) -> Outcome<
    Result<Seq<Seq<char>>, McpErrorView>,
> {
    let dir = spec_join(root, specs_dir());
    match env.spec_exists(dir) {
        None => Outcome::Need(RequestView::PathExists { path: dir }),
        Some(false) => Outcome::Done(Ok(Seq::empty())),
        Some(true) => match env.spec_walk(dir) {
            None => Outcome::Need(RequestView::WalkFiles { path: dir }),
            Some(Err(e)) => Outcome::Done(Err(internal(e@))),
            Some(Ok(files)) => Outcome::Done(Ok(spec_file_paths(texts(files@)))),
        },
    }
}

/// `path` relative to `root`, or `path` itself when it does not lie below
/// `root`.
pub open spec fn rel_or_full(root: Seq<char>, path: Seq<char>) -> Seq<char> {
    match spec_strip_root(path, root) {
        Some(rel) => rel,
        None => path,
    }
}

/// Why the spec at `path` cannot be assessed, if it cannot: its read failed,
/// or its text does not parse.
pub open spec fn spec_trouble(
    root: Seq<char>,
    path: Seq<char>,
    read: Result<String, String>,
) -> Option<Seq<char>> {
    match read {
        Err(e) => Some(spec_read_failure(rel_or_full(root, path), e@)),
        Ok(content) => yaml_error(content@),
    }
}

/// The trouble with the first of `specs` that cannot be assessed.
pub open spec fn first_trouble(
    root: Seq<char>,
    specs: Seq<Seq<char>>,
    reads: Seq<Result<String, String>>,
) -> Option<Seq<char>>
    decreases specs.len(),
{
    if specs.len() == 0 {
        None
    } else {
        match first_trouble(root, specs.drop_last(), reads.drop_last()) {
            Some(m) => Some(m),
            None => spec_trouble(root, specs.last(), reads.last()),
        }
    }
}

/// True when the spec read by `read` has a glob that matches one of
/// `changed`.
pub open spec fn read_is_affected(read: Result<String, String>, changed: Seq<Seq<char>>) -> bool {
    read matches Ok(content) && yaml_document(content@) matches Some(doc) && spec_is_affected(
        doc,
        changed,
    )
}

/// The parsed document of a read that succeeded and parses.
pub open spec fn read_document(read: Result<String, String>) -> JsonValue {
    yaml_document(read->Ok_0@).unwrap()
}

/// The specs of `specs` that are affected by `changed`, each with its parsed
/// document, in order.
pub open spec fn affected_among(
    root: Seq<char>,
    specs: Seq<Seq<char>>,
    reads: Seq<Result<String, String>>,
    changed: Seq<Seq<char>>,
) -> Seq<(Seq<char>, JsonValue)>
    decreases specs.len(),
{
    if specs.len() == 0 {
        Seq::empty()
    } else {
        let rest = affected_among(root, specs.drop_last(), reads.drop_last(), changed);
        if read_is_affected(reads.last(), changed) {
            rest.push((rel_or_full(root, specs.last()), read_document(reads.last())))
        } else {
            rest
        }
    }
}

/// What `list_affected_specs` comes to.
pub open spec fn spec_list_affected_specs(
    env: Observations,
    root: Seq<char>,
    base: Seq<char>,
) -> Outcome<Result<AffectedSpecsView, McpErrorView>> {
    match spec_changed_files(env, root, base) {
        Outcome::Need(q) => Outcome::Need(q),
        Outcome::Done(Err(e)) => Outcome::Done(Err(e)),
        Outcome::Done(Ok(changed)) => match spec_collect_specs(env, root) {
            Outcome::Need(q) => Outcome::Need(q),
            Outcome::Done(Err(e)) => Outcome::Done(Err(e)),
            Outcome::Done(Ok(specs)) => match env.spec_texts(specs) {
                None => Outcome::Need(RequestView::ReadTexts { paths: specs }),
                Some(reads) => match first_trouble(root, specs, reads) {
                    Some(m) => Outcome::Done(Err(internal(m))),
                    None => Outcome::Done(
                        Ok(
                            AffectedSpecsView {
                                changed_files: changed,
                                affected_specs: affected_among(root, specs, reads, changed),
                            },
                        ),
                    ),
                },
            },
        },
    }
}

/// Lists the paths changed since `base_branch`.
pub fn changed_files(base_branch: &str, project_root: &str, env: &Observations) -> (r: Step<
    Result<Vec<String>, McpError>,
>)
    ensures
        match r {
            Step::Need(q) => spec_changed_files(*env, project_root@, base_branch@) == Outcome::<
                Result<Seq<Seq<char>>, McpErrorView>,
            >::Need(q@),
            Step::Done(Ok(files)) => spec_changed_files(*env, project_root@, base_branch@)
                == Outcome::Done(Ok::<Seq<Seq<char>>, McpErrorView>(texts(files@))),
            Step::Done(Err(e)) => spec_changed_files(*env, project_root@, base_branch@)
                == Outcome::Done(Err::<Seq<Seq<char>>, McpErrorView>(e@)),
        },
{
    let mut args: Vec<String> = Vec::new();
    args.push(owned("diff"));
    args.push(owned(base_branch));
    args.push(owned("--name-only"));
    assert(texts(args@) =~= names_args(base_branch@));
    match env.git_output(project_root, args) {
        Err(q) => Step::Need(q),
        Ok(Err(e)) => Step::Done(Err(internal_error(concat("git error: ", e.as_str())))),
        Ok(Ok(out)) => {
            if out.success {
                Step::Done(Ok(non_empty_lines(out.stdout.as_str())))
            } else {
                Step::Done(Err(internal_error(out.stderr.clone())))
            }
        },
    }
}

/// Collects every spec file in the specs tree of the project.
pub fn collect_specs(project_root: &str, env: &Observations) -> (r: Step<
    Result<Vec<String>, McpError>,
>)
    ensures
        match r {
            Step::Need(q) => spec_collect_specs(*env, project_root@) == Outcome::<
                Result<Seq<Seq<char>>, McpErrorView>,
            >::Need(q@),
            Step::Done(Ok(specs)) => spec_collect_specs(*env, project_root@) == Outcome::Done(
                Ok::<Seq<Seq<char>>, McpErrorView>(texts(specs@)),
            ),
            Step::Done(Err(e)) => spec_collect_specs(*env, project_root@) == Outcome::Done(
                Err::<Seq<Seq<char>>, McpErrorView>(e@),
            ),
        },
{
    let dir = join_path(project_root, ".notarai");
    match env.path_exists(dir.as_str()) {
        Err(q) => {
            return Step::Need(q);
        },
        Ok(false) => {
            let none: Vec<String> = Vec::new();
            assert(texts(none@) =~= Seq::<Seq<char>>::empty());
            return Step::Done(Ok(none));
        },
        Ok(true) => {},
    }
    match env.walk_of(dir.as_str()) {
        Err(q) => Step::Need(q),
        Ok(Err(e)) => Step::Done(Err(internal_error(e.clone()))),
        Ok(Ok(files)) => Step::Done(Ok(spec_files_in(files))),
    }
}

fn relative_or_full(root: &str, path: &str) -> (r: String)
    ensures
        r@ == rel_or_full(root@, path@),
{
    match strip_root(path, root) {
        Some(rel) => rel,
        None => owned(path),
    }
}

fn assess_specs(
    project_root: &str,
    specs: &Vec<String>,
    reads: &Vec<Result<String, String>>,
    changed: &Vec<String>,
) -> (r: Result<Vec<AffectedSpec>, String>)
    requires
        reads@.len() == specs@.len(),
    ensures
        match r {
            Ok(found) => first_trouble(project_root@, texts(specs@), reads@) is None
                && affected_view(found@) == affected_among(
                project_root@,
                texts(specs@),
                reads@,
                texts(changed@),
            ),
            Err(m) => first_trouble(project_root@, texts(specs@), reads@) == Some(m@),
        },
{
    let mut found: Vec<AffectedSpec> = Vec::new();
    let mut trouble: Option<String> = None;
    let mut i: usize = 0;
    assert(texts(specs@).take(0) =~= Seq::<Seq<char>>::empty());
    assert(affected_view(found@) =~= Seq::<(Seq<char>, JsonValue)>::empty());
    while i < specs.len()
        invariant
            i <= specs.len(),
            reads@.len() == specs@.len(),
            affected_view(found@) == affected_among(
                project_root@,
                texts(specs@).take(i as int),
                reads@.take(i as int),
                texts(changed@),
            ),
            match trouble {
                Some(m) => first_trouble(
                    project_root@,
                    texts(specs@).take(i as int),
                    reads@.take(i as int),
                ) == Some(m@),
                None => first_trouble(
                    project_root@,
                    texts(specs@).take(i as int),
                    reads@.take(i as int),
                ) is None,
            },
        decreases specs.len() - i,
    {
        proof {
            let next = texts(specs@).take(i + 1);
            assert(next.drop_last() =~= texts(specs@).take(i as int));
            assert(next.last() == specs@[i as int]@);
            let next_reads = reads@.take(i + 1);
            assert(next_reads.drop_last() =~= reads@.take(i as int));
            assert(next_reads.last() == reads@[i as int]);
        }
        match &reads[i] {
            Err(e) => {
                if trouble.is_none() {
                    let rel = relative_or_full(project_root, specs[i].as_str());
                    let head = concat3("read error for ", rel.as_str(), ": ");
                    trouble = Some(concat(head.as_str(), e.as_str()));
                }
            },
            Ok(content) => match parse_yaml(content.as_str()) {
                Err(e) => {
                    if trouble.is_none() {
                        trouble = Some(e);
                    }
                },
                Ok(doc) => {
                    if is_spec_affected(&doc, changed) {
                        let rel = relative_or_full(project_root, specs[i].as_str());
                        let ghost before = found@;
                        let ghost rv = rel@;
                        found.push(AffectedSpec { spec_path: rel, document: doc });
                        assert(affected_view(found@) =~= affected_view(before).push((rv, doc)));
                    }
                },
            },
        }
        i += 1;
    }
    assert(texts(specs@).take(specs.len() as int) =~= texts(specs@));
    assert(reads@.take(specs.len() as int) =~= reads@);
    match trouble {
        Some(m) => Err(m),
        None => Ok(found),
    }
}

/// Lists the specs whose governed files overlap with what changed since
/// `base_branch`: the version-control tool names the changed paths, and
/// every spec file of the project is kept that has a glob matching one of
/// them. A spec that cannot be read or parsed fails the operation.
pub fn list_affected_specs(base_branch: &str, project_root: &str, env: &Observations) -> (r: Step<
    Result<AffectedSpecs, McpError>,
>)
    ensures
        step_view(r) == spec_list_affected_specs(*env, project_root@, base_branch@),
{
    let changed = match changed_files(base_branch, project_root, env) {
        Step::Need(q) => {
            return Step::Need(q);
        },
        Step::Done(Err(e)) => {
            return Step::Done(Err(e));
        },
        Step::Done(Ok(changed)) => changed,
    };
    let specs = match collect_specs(project_root, env) {
        Step::Need(q) => {
            return Step::Need(q);
        },
        Step::Done(Err(e)) => {
            return Step::Done(Err(e));
        },
        Step::Done(Ok(specs)) => specs,
    };
    let none: Vec<Result<String, String>> = Vec::new();
    let reads: &Vec<Result<String, String>> = if specs.len() == 0 {
        assert(none@ =~= Seq::<Result<String, String>>::empty());
        &none
    } else {
        match env.texts_for(&specs) {
            Ok(v) => v,
            Err(q) => {
                return Step::Need(q);
            },
        }
    };
    match assess_specs(project_root, &specs, reads, &changed) {
        Ok(found) => Step::Done(
            Ok(AffectedSpecs { changed_files: changed, affected_specs: found }),
        ),
        Err(m) => Step::Done(Err(internal_error(m))),
    }
}

/// The result of `clear_cache`.
pub struct Cleared {
    /// Whether a store was there and was deleted.
    pub cleared: bool,
}

impl View for Cleared {
    type V = bool;

    open spec fn view(&self) -> bool {
        self.cleared
    }
}

/// What `clear_cache` comes to.
pub open spec fn spec_clear_cache(env: Observations, root: Seq<char>) -> Outcome<
    Result<bool, McpErrorView>,
> {
    let path = spec_db_path(root);
    match env.spec_exists(path) {
        None => Outcome::Need(RequestView::PathExists { path }),
        Some(false) => Outcome::Done(Ok(false)),
        Some(true) => match env.spec_removed(path) {
            None => Outcome::Need(RequestView::RemoveFile { path }),
            Some(Err(e)) => Outcome::Done(Err(internal("could not delete cache: "@ + e@))),
            Some(Ok(_)) => Outcome::Done(Ok(true)),
        },
    }
}

/// Deletes the whole hash store of the project, if there is one, and tells
/// whether it did. Clearing a project that has no store changes nothing.
pub fn clear_cache(project_root: &str, env: &Observations) -> (r: Step<Result<Cleared, McpError>>)
    ensures
        step_view(r) == spec_clear_cache(*env, project_root@),
{
    let path = db_path(project_root);
    match env.path_exists(path.as_str()) {
        Err(q) => {
            return Step::Need(q);
        },
        Ok(false) => {
            return Step::Done(Ok(Cleared { cleared: false }));
        },
        Ok(true) => {},
    }
    match env.removed(path.as_str()) {
        Err(q) => Step::Need(q),
        Ok(Err(e)) => Step::Done(
            Err(internal_error(concat("could not delete cache: ", e.as_str()))),
        ),
        Ok(Ok(_)) => Step::Done(Ok(Cleared { cleared: true })),
    }
}

} // verus!
