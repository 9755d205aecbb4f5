//! What holds of the operations whatever their inputs: statements that tie
//! several functions together, each proved from the functions' contracts.

use vstd::prelude::*;
use crate::cache::{
    changed_paths, spec_check_changed, spec_hash_file, spec_upsert_all, unchanged_paths,
    FileCheck, FileProbe, Stored,
};
use crate::hashing::spec_content_hash;
use crate::env::{Observations, Outcome};
use crate::mcp_tools::{
    file_verdict, keep_all, keep_flags, keeping_all_keeps_the_partition, reconcile_pairs,
    spec_expand, spec_get_spec_diff, spec_load_document,
};
use crate::paths::{spec_is_spec_file, spec_join};
use crate::resolver::{artifact_files_of, spec_artifact_patterns, spec_files_of};

verus! {

/// True when a path that occurs twice in `files` has one probe: a path names
/// one file.
pub open spec fn one_probe_per_path(files: Seq<Seq<char>>, probes: Seq<FileProbe>) -> bool {
    forall|a: int, b: int|
        0 <= a < files.len() && 0 <= b < files.len() && files[a] == files[b] ==> probes[a]
            == probes[b]
}

/// True when the file with this probe exists and can be read.
pub open spec fn readable(probe: FileProbe) -> bool {
    probe.exists && probe.read is Ok
}

/// Every pair to record comes from a readable file of the list: the file at
/// the position returned.
proof fn lemma_pair_source(
    root: Seq<char>,
    files: Seq<Seq<char>>,
    probes: Seq<FileProbe>,
    k: int,
) -> (j: int)
    requires
        files.len() == probes.len(),
        0 <= k < reconcile_pairs(root, files, probes).len(),
    ensures
        0 <= j < files.len(),
        readable(probes[j]),
        reconcile_pairs(root, files, probes)[k] == (
            files[j],
            spec_content_hash(probes[j].read->Ok_0@),
        ),
    decreases files.len(),
{
    let rest = reconcile_pairs(root, files.drop_last(), probes.drop_last());
    if k < rest.len() {
        let j = lemma_pair_source(root, files.drop_last(), probes.drop_last(), k);
        assert(files.drop_last()[j] == files[j] && probes.drop_last()[j] == probes[j]);
        j
    } else {
        files.len() - 1
    }
}

/// Every readable file of the list has its pair among the pairs to record:
/// at the position returned.
proof fn lemma_pair_of(
    root: Seq<char>,
    files: Seq<Seq<char>>,
    probes: Seq<FileProbe>,
    j: int,
) -> (k: int)
    requires
        files.len() == probes.len(),
        0 <= j < files.len(),
        readable(probes[j]),
    ensures
        0 <= k < reconcile_pairs(root, files, probes).len(),
        reconcile_pairs(root, files, probes)[k] == (
            files[j],
            spec_content_hash(probes[j].read->Ok_0@),
        ),
    decreases files.len(),
{
    let rest = reconcile_pairs(root, files.drop_last(), probes.drop_last());
    if j < files.len() - 1 {
        assert(files.drop_last()[j] == files[j] && probes.drop_last()[j] == probes[j]);
        let k = lemma_pair_of(root, files.drop_last(), probes.drop_last(), j);
        assert(reconcile_pairs(root, files, probes)[k] == rest[k]);
        k
    } else {
        rest.len() as int
    }
}

/// After a batch of pairs in which a path always comes with the same hash,
/// the store holds for each path of the batch the hash it came with.
proof fn lemma_upsert_all_holds(
    m: Map<Seq<char>, Stored>,
    pairs: Seq<(Seq<char>, Seq<char>)>,
    now: i64,
    k: int,
)
    requires
        0 <= k < pairs.len(),
        forall|a: int, b: int|
            0 <= a < pairs.len() && 0 <= b < pairs.len() && pairs[a].0 == pairs[b].0 ==> pairs[a].1
                == pairs[b].1,
    ensures
        spec_upsert_all(m, pairs, now).contains_key(pairs[k].0),
        spec_upsert_all(m, pairs, now)[pairs[k].0].content_hash == pairs[k].1,
    decreases pairs.len(),
{
    let init = pairs.drop_last();
    let last = pairs.len() - 1;
    if k < last {
        assert forall|a: int, b: int|
            0 <= a < init.len() && 0 <= b < init.len() && init[a].0 == init[b].0 implies init[a].1
                == init[b].1 by {
            assert(init[a] == pairs[a] && init[b] == pairs[b]);
        }
        assert(init[k] == pairs[k]);
        lemma_upsert_all_holds(m, init, now, k);
    }
}

/// Reconciling is idempotent: once the files of a list have been reconciled,
/// the change detector finds each of them that could be hashed unchanged, and
/// it still does after the same files with the same content have been
/// reconciled a second time. The timestamps of the two rounds do not matter.
pub proof fn reconciled_files_are_unchanged(
    store: Map<Seq<char>, Stored>,
    root: Seq<char>,
    files: Seq<Seq<char>>,
    probes: Seq<FileProbe>,
    first_time: i64,
    second_time: i64,
    i: int,
)
    requires
        files.len() == probes.len(),
        one_probe_per_path(files, probes),
        0 <= i < files.len(),
        readable(probes[i]),
    ensures
        ({
            let pairs = reconcile_pairs(root, files, probes);
            let once = spec_upsert_all(store, pairs, first_time);
            let twice = spec_upsert_all(once, pairs, second_time);
            &&& file_verdict(once, root, files[i], probes[i]) == Ok::<
                Option<Seq<char>>,
                Seq<char>,
            >(None)
            &&& file_verdict(twice, root, files[i], probes[i]) == Ok::<
                Option<Seq<char>>,
                Seq<char>,
            >(None)
        }),
{
    let pairs = reconcile_pairs(root, files, probes);
    let once = spec_upsert_all(store, pairs, first_time);
    let twice = spec_upsert_all(once, pairs, second_time);
    let k = lemma_pair_of(root, files, probes, i);
    assert forall|a: int, b: int|
        0 <= a < pairs.len() && 0 <= b < pairs.len() && pairs[a].0 == pairs[b].0 implies pairs[a].1
            == pairs[b].1 by {
        let ja = lemma_pair_source(root, files, probes, a);
        let jb = lemma_pair_source(root, files, probes, b);
        assert(files[ja] == files[jb]);
        assert(probes[ja] == probes[jb]);
    }
    lemma_upsert_all_holds(store, pairs, first_time, k);
    lemma_upsert_all_holds(once, pairs, second_time, k);
    let h = spec_content_hash(probes[i].read->Ok_0@);
    assert(once.contains_key(files[i]) && once[files[i]].content_hash == h);
    assert(twice.contains_key(files[i]) && twice[files[i]].content_hash == h);
    assert(spec_hash_file(spec_join(root, files[i]), probes[i].read) == Ok::<
        Seq<char>,
        Seq<char>,
    >(h));
}

/// Absence is change: a path that is not on disk is reported as changed,
/// with the empty hash, whatever the store holds for it.
pub proof fn absent_file_is_changed(
    store: Map<Seq<char>, Stored>,
    rel_path: Seq<char>,
    abs_path: Seq<char>,
    probe: FileProbe,
)
    requires
        !probe.exists,
    ensures
        spec_check_changed(store, rel_path, abs_path, probe) == Ok::<Option<Seq<char>>, Seq<char>>(
            Some(Seq::<char>::empty()),
        ),
{
}

/// In a batch that can be checked, every absent file is among the changed
/// ones, whatever the store holds.
pub proof fn absent_files_are_listed_as_changed(
    store: Map<Seq<char>, Stored>,
    files: Seq<FileCheck>,
    i: int,
)
    requires
        0 <= i < files.len(),
        !files[i].probe.exists,
    ensures
        changed_paths(store, files).contains(files[i].rel_path@),
    decreases files.len(),
{
    let init = files.drop_last();
    let last = files.len() - 1;
    if i < last {
        assert(init[i] == files[i]);
        absent_files_are_listed_as_changed(store, init, i);
        let k = choose|k: int|
            0 <= k < changed_paths(store, init).len() && changed_paths(store, init)[k]
                == files[i].rel_path@;
        assert(changed_paths(store, files)[k] == files[i].rel_path@);
    } else {
        let rest = changed_paths(store, init);
        assert(changed_paths(store, files) == rest.push(files[i].rel_path@));
        assert(changed_paths(store, files)[rest.len() as int] == files[i].rel_path@);
    }
}

/// Every path among the unchanged ones of a batch is the path of a file of
/// the batch that exists: the file at the position returned.
proof fn lemma_unchanged_source(
    store: Map<Seq<char>, Stored>,
    files: Seq<FileCheck>,
    k: int,
) -> (j: int)
    requires
        0 <= k < unchanged_paths(store, files).len(),
    ensures
        0 <= j < files.len(),
        files[j].probe.exists,
        files[j].rel_path@ == unchanged_paths(store, files)[k],
    decreases files.len(),
{
    let init = files.drop_last();
    if k < unchanged_paths(store, init).len() {
        let j = lemma_unchanged_source(store, init, k);
        assert(init[j] == files[j]);
        j
    } else {
        files.len() - 1
    }
}

/// An absent file is never among the unchanged ones of a batch, whatever
/// the store holds: provided that the batch does not also list its path
/// with a file that exists, since a path names one file.
pub proof fn absent_files_are_not_listed_as_unchanged(
    store: Map<Seq<char>, Stored>,
    files: Seq<FileCheck>,
    i: int,
)
    requires
        0 <= i < files.len(),
        forall|j: int|
            0 <= j < files.len() && files[j].rel_path@ == files[i].rel_path@
                ==> !files[j].probe.exists,
    ensures
        !unchanged_paths(store, files).contains(files[i].rel_path@),
{
    let unchanged = unchanged_paths(store, files);
    if unchanged.contains(files[i].rel_path@) {
        let k = choose|k: int| 0 <= k < unchanged.len() && unchanged[k] == files[i].rel_path@;
        let j = lemma_unchanged_source(store, files, k);
        assert(false);
    }
}

/// The partition of a governed file set is total and disjoint: every file is
/// a spec file or an artifact file and never both, by the rule of the
/// reserved directory and suffix, and the two sides together have as many
/// files as the set.
pub proof fn partition_is_total_and_disjoint(files: Seq<Seq<char>>)
    ensures
        spec_files_of(files).len() + artifact_files_of(files).len() == files.len(),
        forall|i: int|
            0 <= i < files.len() ==> (spec_is_spec_file(#[trigger] files[i]) <==> spec_files_of(
                files,
            ).contains(files[i])),
        forall|i: int|
            0 <= i < files.len() ==> (!spec_is_spec_file(#[trigger] files[i])
                <==> artifact_files_of(files).contains(files[i])),
        forall|f: Seq<char>|
            !(spec_files_of(files).contains(f) && artifact_files_of(files).contains(f)),
    decreases files.len(),
{
    reveal(Seq::filter);
    broadcast use vstd::seq_lib::group_filter_ensures;

    let is_spec = |f: Seq<char>| spec_is_spec_file(f);
    let is_artifact = |f: Seq<char>| !spec_is_spec_file(f);
    assert forall|f: Seq<char>| spec_files_of(files).contains(f) implies spec_is_spec_file(f) by {
        let k = choose|k: int| 0 <= k < spec_files_of(files).len() && spec_files_of(files)[k] == f;
        assert(is_spec(files.filter(is_spec)[k]));
    }
    assert forall|f: Seq<char>| artifact_files_of(files).contains(f) implies !spec_is_spec_file(
        f,
    ) by {
        let k = choose|k: int|
            0 <= k < artifact_files_of(files).len() && artifact_files_of(files)[k] == f;
        assert(is_artifact(files.filter(is_artifact)[k]));
    }
    if files.len() > 0 {
        partition_is_total_and_disjoint(files.drop_last());
    }
}

/// The governed file set of the spec at `spec_path`, once the spec was read
/// and its globs were expanded.
pub open spec fn governed_set(env: Observations, root: Seq<char>, spec_path: Seq<char>) -> Option<
    Seq<Seq<char>>,
> {
    match spec_load_document(env, root, spec_path) {
        Outcome::Done(Ok(doc)) => spec_expand(env, root, spec_artifact_patterns(doc)),
        _ => None,
    }
}

/// True when the hash store of the project was opened and holds nothing.
pub open spec fn store_is_cold(env: Observations, root: Seq<char>) -> bool {
    env.spec_store(root) matches Some(Ok(store)) && store@ == Map::<Seq<char>, Stored>::empty()
}

/// Against an empty store every file is kept.
pub proof fn empty_store_keeps_all(root: Seq<char>, files: Seq<Seq<char>>, probes: Seq<FileProbe>)
    ensures
        keep_flags(Map::<Seq<char>, Stored>::empty(), root, files, probes) == keep_all(
            files.len(),
        ),
{
    assert(keep_flags(Map::<Seq<char>, Stored>::empty(), root, files, probes) =~= keep_all(
        files.len(),
    ));
}

/// A cold cache includes everything: when the store is empty, a finished
/// `get_spec_diff` has diffed every governed artifact file and skipped none.
pub proof fn cold_cache_includes_everything(
    env: Observations,
    root: Seq<char>,
    spec_path: Seq<char>,
    base: Seq<char>,
    excludes: Seq<Seq<char>>,
)
    requires
        store_is_cold(env, root),
        spec_get_spec_diff(env, root, spec_path, base, excludes, false) matches Outcome::Done(
            Ok(_),
        ),
    ensures
        governed_set(env, root, spec_path) is Some,
        ({
            let d = spec_get_spec_diff(env, root, spec_path, base, excludes, false)->Done_0->Ok_0;
            let governed = governed_set(env, root, spec_path).unwrap();
            d.files == artifact_files_of(governed) && d.skipped == Seq::<Seq<char>>::empty()
        }),
{
    let governed = governed_set(env, root, spec_path).unwrap();
    keeping_all_keeps_the_partition(governed);
    if governed.len() > 0 {
        let probes = env.spec_probes(crate::mcp_tools::joined(root, governed)).unwrap();
        empty_store_keeps_all(root, governed, probes);
    } else {
        reveal(Seq::filter);
    }
}

/// Bypass overrides the cache: with the cache bypassed, a finished
/// `get_spec_diff` has diffed every governed artifact file and skipped none,
/// whatever the store holds, and also when every governed file was
/// reconciled just before.
pub proof fn bypass_includes_everything(
    env: Observations,
    root: Seq<char>,
    spec_path: Seq<char>,
    base: Seq<char>,
    excludes: Seq<Seq<char>>,
)
    requires
        spec_get_spec_diff(env, root, spec_path, base, excludes, true) matches Outcome::Done(Ok(_)),
    ensures
        governed_set(env, root, spec_path) is Some,
        ({
            let d = spec_get_spec_diff(env, root, spec_path, base, excludes, true)->Done_0->Ok_0;
            let governed = governed_set(env, root, spec_path).unwrap();
            d.files == artifact_files_of(governed) && d.skipped == Seq::<Seq<char>>::empty()
        }),
{
    let governed = governed_set(env, root, spec_path).unwrap();
    keeping_all_keeps_the_partition(governed);
    if governed.len() == 0 {
        reveal(Seq::filter);
    }
}

} // verus!
