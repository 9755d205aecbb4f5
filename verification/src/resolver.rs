//! The artifact resolver: from a spec document's artifact declarations to
//! glob patterns, and from expanded patterns to repo-relative file lists.

use vstd::prelude::*;
use crate::json::{JsonValue, Member};
use crate::paths::{spec_is_spec_file, spec_strip_root, spec_suffix, strip_root};
use crate::text::{ends_with, has_suffix, owned, texts};

verus! {

/// True when `pattern` is a well-formed glob pattern, as the glob engine
/// decides it where paths are separated by `/`.
pub uninterp spec fn glob_pattern_valid(pattern: Seq<char>) -> bool;

/// True when the well-formed glob pattern `pattern` matches `path`, as the
/// glob engine decides it where paths are separated by `/`.
pub uninterp spec fn glob_pattern_matches(pattern: Seq<char>, path: Seq<char>) -> bool;

/// Compiles `pattern` with `glob::Pattern::new` and, where that succeeds,
/// matches `path` against it with `glob::Pattern::matches`, under the
/// crate's default options. Returns `None` for a pattern that does not
/// compile. Whether a pattern compiles depends on its text alone, and
/// whether it matches on the two texts alone.
#[verifier::external_body]
fn glob_match(pattern: &str, path: &str) -> (r: Option<bool>)
    ensures
        r is Some == glob_pattern_valid(pattern@),
        r is Some ==> r == Some(glob_pattern_matches(pattern@, path@)),
{
    glob::Pattern::new(pattern).ok().map(|p| p.matches(path))
}

/// The glob pattern that one artifact entry declares: the string under its
/// `path` field.
pub open spec fn item_pattern(item: JsonValue) -> Option<Seq<char>> {
    item.spec_get_str("path"@)
}

/// The patterns declared by a list of artifact entries, in order. Entries
/// without a `path` string declare nothing.
pub open spec fn items_patterns(items: Seq<JsonValue>) -> Seq<Seq<char>>
    decreases items.len(),
{
    if items.len() == 0 {
        Seq::empty()
    } else {
        match item_pattern(items.last()) {
            Some(p) => items_patterns(items.drop_last()).push(p),
            None => items_patterns(items.drop_last()),
        }
    }
}

/// The patterns declared under one artifact type. Anything but a list
/// declares nothing.
pub open spec fn group_patterns(group: JsonValue) -> Seq<Seq<char>> {
    match group.spec_as_array() {
        Some(items) => items_patterns(items),
        None => Seq::empty(),
    }
}

/// The patterns of all artifact types, type after type.
pub open spec fn members_patterns(members: Seq<Member>) -> Seq<Seq<char>>
    decreases members.len(),
{
    if members.len() == 0 {
        Seq::empty()
    } else {
        members_patterns(members.drop_last()) + group_patterns(members.last().value)
    }
}

/// Every glob pattern that `doc` declares under `artifacts`.
pub open spec fn spec_artifact_patterns(doc: JsonValue) -> Seq<Seq<char>> {
    match doc.spec_get("artifacts"@) {
        Some(artifacts) => match artifacts.spec_as_object() {
            Some(members) => members_patterns(members),
            None => Seq::empty(),
        },
        None => Seq::empty(),
    }
}

/// The glob patterns that `doc` declares under the artifact type
/// `artifact_type`; none when the type is absent.
pub open spec fn spec_artifact_type_patterns(doc: JsonValue, artifact_type: Seq<char>) -> Seq<
    Seq<char>,
> {
    match doc.spec_get("artifacts"@) {
        Some(artifacts) => match artifacts.spec_get(artifact_type) {
            Some(group) => group_patterns(group),
            None => Seq::empty(),
        },
        None => Seq::empty(),
    }
}

/// True when `pattern` is well formed and matches one of `changed`.
pub open spec fn pattern_hits(pattern: Seq<char>, changed: Seq<Seq<char>>) -> bool {
    glob_pattern_valid(pattern) && exists|i: int|
        0 <= i < changed.len() && glob_pattern_matches(pattern, #[trigger] changed[i])
}

/// True when one of `patterns` hits one of `changed`.
pub open spec fn any_pattern_hits(patterns: Seq<Seq<char>>, changed: Seq<Seq<char>>) -> bool {
    exists|k: int| 0 <= k < patterns.len() && pattern_hits(#[trigger] patterns[k], changed)
}

/// True when a glob pattern of `doc` matches a path of `changed`: matching by
/// pattern, not by membership.
pub open spec fn spec_is_affected(doc: JsonValue, changed: Seq<Seq<char>>) -> bool {
    any_pattern_hits(spec_artifact_patterns(doc), changed)
}

/// The paths of `paths` that lie below `root`, made relative to it, in
/// order. Paths outside `root` are dropped.
pub open spec fn relative_paths(root: Seq<char>, paths: Seq<String>) -> Seq<Seq<char>>
    decreases paths.len(),
{
    if paths.len() == 0 {
        Seq::empty()
    } else {
        match spec_strip_root(paths.last()@, root) {
            Some(rel) => relative_paths(root, paths.drop_last()).push(rel),
            None => relative_paths(root, paths.drop_last()),
        }
    }
}

/// The governed file set: what each pattern expanded to, made relative to
/// `root`, pattern after pattern. A file that two patterns match occurs twice.
pub open spec fn spec_governed_files(root: Seq<char>, expansions: Seq<Vec<String>>) -> Seq<
    Seq<char>,
>
    decreases expansions.len(),
{
    if expansions.len() == 0 {
        Seq::empty()
    } else {
        spec_governed_files(root, expansions.drop_last()) + relative_paths(
            root,
            expansions.last()@,
        )
    }
}

/// The spec files among `files`, in order.
pub open spec fn spec_files_of(files: Seq<Seq<char>>) -> Seq<Seq<char>> {
    files.filter(|f: Seq<char>| spec_is_spec_file(f))
}

/// The files of `files` that are not spec files, in order.
pub open spec fn artifact_files_of(files: Seq<Seq<char>>) -> Seq<Seq<char>> {
    files.filter(|f: Seq<char>| !spec_is_spec_file(f))
}

fn push_items_patterns(items: &Vec<JsonValue>, out: &mut Vec<String>)
    ensures
        texts(final(out)@) == texts(old(out)@) + items_patterns(items@),
{
    let mut i: usize = 0;
    assert(items@.take(0) =~= Seq::<JsonValue>::empty());
    assert(texts(out@) =~= texts(old(out)@) + items_patterns(items@.take(0)));
    while i < items.len()
        invariant
            i <= items.len(),
            texts(out@) == texts(old(out)@) + items_patterns(items@.take(i as int)),
        decreases items.len() - i,
    {
        proof {
            let next = items@.take(i + 1);
            assert(next.drop_last() =~= items@.take(i as int));
            assert(next.last() == items@[i as int]);
        }
        let ghost before = out@;
        match items[i].get_str("path") {
            Some(p) => {
                out.push(owned(p));
                assert(texts(out@) =~= texts(before).push(p@));
                assert(texts(out@) =~= texts(old(out)@) + items_patterns(
                    items@.take(i + 1),
                ));
            },
            None => {},
        }
        i += 1;
    }
    assert(items@.take(items.len() as int) =~= items@);
}

fn push_group_patterns(group: &JsonValue, out: &mut Vec<String>)
    ensures
        texts(final(out)@) == texts(old(out)@) + group_patterns(*group),
{
    match group.as_array() {
        Some(items) => push_items_patterns(items, out),
        None => {
            assert(texts(out@) =~= texts(old(out)@) + group_patterns(*group));
        },
    }
}

/// Every glob pattern that `doc` declares under `artifacts`, in the order of
/// the artifact types and, within a type, of its entries.
pub fn artifact_patterns(doc: &JsonValue) -> (r: Vec<String>)
    ensures
        texts(r@) == spec_artifact_patterns(*doc),
{
    let mut out: Vec<String> = Vec::new();
    assert(texts(out@) =~= Seq::<Seq<char>>::empty());
    let members = match doc.get("artifacts") {
        Some(artifacts) => match artifacts.as_object() {
            Some(members) => members,
            None => {
                return out;
            },
        },
        None => {
            return out;
        },
    };
    let mut i: usize = 0;
    assert(members@.take(0) =~= Seq::<Member>::empty());
    while i < members.len()
        invariant
            i <= members.len(),
            texts(out@) == members_patterns(members@.take(i as int)),
        decreases members.len() - i,
    {
        proof {
            let next = members@.take(i + 1);
            assert(next.drop_last() =~= members@.take(i as int));
            assert(next.last() == members@[i as int]);
        }
        push_group_patterns(&members[i].value, &mut out);
        i += 1;
    }
    assert(members@.take(members.len() as int) =~= members@);
    out
}

/// The glob patterns that `doc` declares under one artifact type.
pub fn artifact_type_patterns(doc: &JsonValue, artifact_type: &str) -> (r: Vec<String>)
    ensures
        texts(r@) == spec_artifact_type_patterns(*doc, artifact_type@),
{
    let mut out: Vec<String> = Vec::new();
    assert(texts(out@) =~= Seq::<Seq<char>>::empty());
    match doc.get("artifacts") {
        Some(artifacts) => match artifacts.get(artifact_type) {
            Some(group) => {
                push_group_patterns(group, &mut out);
                assert(texts(out@) =~= group_patterns(*group));
            },
            None => {},
        },
        None => {},
    }
    out
}

fn hits(pattern: &str, changed: &Vec<String>) -> (b: bool)
    ensures
        b == pattern_hits(pattern@, texts(changed@)),
{
    let mut i: usize = 0;
    while i < changed.len()
        invariant
            i <= changed.len(),
            i > 0 ==> glob_pattern_valid(pattern@),
            forall|j: int| 0 <= j < i ==> !glob_pattern_matches(pattern@, changed@[j]@),
        decreases changed.len() - i,
    {
        match glob_match(pattern, changed[i].as_str()) {
            None => {
                return false;
            },
            Some(true) => {
                assert(texts(changed@)[i as int] == changed@[i as int]@);
                return true;
            },
            Some(false) => {},
        }
        i += 1;
    }
    assert forall|j: int| 0 <= j < texts(changed@).len() implies !glob_pattern_matches(
        pattern@,
        #[trigger] texts(changed@)[j],
    ) by {
        assert(texts(changed@)[j] == changed@[j]@);
    }
    false
}

/// True when one of `patterns` is well formed and matches one of `changed`.
pub fn any_hits(patterns: &Vec<String>, changed: &Vec<String>) -> (b: bool)
    ensures
        b == any_pattern_hits(texts(patterns@), texts(changed@)),
{
    let mut k: usize = 0;
    while k < patterns.len()
        invariant
            k <= patterns.len(),
            forall|j: int| 0 <= j < k ==> !pattern_hits(patterns@[j]@, texts(changed@)),
        decreases patterns.len() - k,
    {
        if hits(patterns[k].as_str(), changed) {
            assert(texts(patterns@)[k as int] == patterns@[k as int]@);
            return true;
        }
        k += 1;
    }
    assert forall|j: int| 0 <= j < texts(patterns@).len() implies !pattern_hits(
        #[trigger] texts(patterns@)[j],
        texts(changed@),
    ) by {
        assert(texts(patterns@)[j] == patterns@[j]@);
    }
    false
}

/// True when a glob pattern declared by `spec` matches a path of `changed`.
/// Ill-formed patterns match nothing.
pub fn is_spec_affected(spec: &JsonValue, changed: &Vec<String>) -> (b: bool)
    ensures
        b == spec_is_affected(*spec, texts(changed@)),
{
    let patterns = artifact_patterns(spec);
    any_hits(&patterns, changed)
}

fn push_relative(root: &str, paths: &Vec<String>, out: &mut Vec<String>)
    ensures
        texts(final(out)@) == texts(old(out)@) + relative_paths(root@, paths@),
{
    let mut i: usize = 0;
    assert(paths@.take(0) =~= Seq::<String>::empty());
    assert(texts(out@) =~= texts(old(out)@) + relative_paths(root@, paths@.take(0)));
    while i < paths.len()
        invariant
            i <= paths.len(),
            texts(out@) == texts(old(out)@) + relative_paths(root@, paths@.take(i as int)),
        decreases paths.len() - i,
    {
        proof {
            let next = paths@.take(i + 1);
            assert(next.drop_last() =~= paths@.take(i as int));
            assert(next.last() == paths@[i as int]);
        }
        let ghost before = out@;
        match strip_root(paths[i].as_str(), root) {
            Some(rel) => {
                let ghost r = rel@;
                out.push(rel);
                assert(texts(out@) =~= texts(before).push(r));
                assert(texts(out@) =~= texts(old(out)@) + relative_paths(
                    root@,
                    paths@.take(i + 1),
                ));
            },
            None => {},
        }
        i += 1;
    }
    assert(paths@.take(paths.len() as int) =~= paths@);
}

/// The governed file set of a spec: the expansion of each of its patterns,
/// made relative to `project_root`, one pattern after the other. Nothing is
/// removed when two patterns overlap.
pub fn governed_files(project_root: &str, expansions: &Vec<Vec<String>>) -> (r: Vec<String>)
    ensures
        texts(r@) == spec_governed_files(project_root@, expansions@),
{
    let mut out: Vec<String> = Vec::new();
    assert(texts(out@) =~= Seq::<Seq<char>>::empty());
    let mut i: usize = 0;
    assert(expansions@.take(0) =~= Seq::<Vec<String>>::empty());
    while i < expansions.len()
        invariant
            i <= expansions.len(),
            texts(out@) == spec_governed_files(project_root@, expansions@.take(i as int)),
        decreases expansions.len() - i,
    {
        proof {
            let next = expansions@.take(i + 1);
            assert(next.drop_last() =~= expansions@.take(i as int));
            assert(next.last() == expansions@[i as int]);
        }
        push_relative(project_root, &expansions[i], &mut out);
        i += 1;
    }
    assert(expansions@.take(expansions.len() as int) =~= expansions@);
    out
}

/// The paths of `paths` with a spec file's name, in order.
pub open spec fn spec_file_paths(paths: Seq<Seq<char>>) -> Seq<Seq<char>>
    decreases paths.len(),
{
    if paths.len() == 0 {
        Seq::empty()
    } else if has_suffix(paths.last(), spec_suffix()) {
        spec_file_paths(paths.drop_last()).push(paths.last())
    } else {
        spec_file_paths(paths.drop_last())
    }
}

/// The files of `all` with a spec file's name, in the order they were found.
pub fn spec_files_in(all: &Vec<String>) -> (r: Vec<String>)
    ensures
        texts(r@) == spec_file_paths(texts(all@)),
{
    let mut out: Vec<String> = Vec::new();
    let mut i: usize = 0;
    assert(texts(all@).take(0) =~= Seq::<Seq<char>>::empty());
    assert(texts(out@) =~= Seq::<Seq<char>>::empty());
    while i < all.len()
        invariant
            i <= all.len(),
            texts(out@) == spec_file_paths(texts(all@).take(i as int)),
        decreases all.len() - i,
    {
        proof {
            let next = texts(all@).take(i + 1);
            assert(next.drop_last() =~= texts(all@).take(i as int));
            assert(next.last() == all@[i as int]@);
        }
        if ends_with(all[i].as_str(), ".spec.yaml") {
            let ghost before = out@;
            out.push(all[i].clone());
            assert(texts(out@) =~= texts(before).push(all@[i as int]@));
        }
        i += 1;
    }
    assert(texts(all@).take(all.len() as int) =~= texts(all@));
    out
}

} // verus!
