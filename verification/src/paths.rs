//! Paths as text with forward separators.
//!
//! The library never touches the file system itself; it only builds and takes
//! apart the path strings that it hands to, and gets back from, its caller.

use vstd::prelude::*;
use crate::text::{
    chars_of, concat, concat3, ends_with, has_prefix, has_suffix, owned, slice_text, starts_with,
    str_eq,
};

verus! {

/// The reserved directory that holds a project's spec files.
pub open spec fn specs_dir() -> Seq<char> {
    ".notarai"@
}

/// The prefix of every path under the reserved specs directory.
pub open spec fn specs_dir_prefix() -> Seq<char> {
    ".notarai/"@
}

/// The suffix of every spec file's name.
pub open spec fn spec_suffix() -> Seq<char> {
    ".spec.yaml"@
}

/// True when `path` is absolute.
pub open spec fn is_absolute(path: Seq<char>) -> bool {
    path.len() > 0 && path[0] == '/'
}

/// `rel` resolved against `base`: an absolute `rel` stands for itself,
/// otherwise it is appended to `base`, with one separator between the two
/// unless `base` is empty or already ends with one.
pub open spec fn spec_join(base: Seq<char>, rel: Seq<char>) -> Seq<char> {
    if is_absolute(rel) {
        rel
    } else if base.len() == 0 || base.last() == '/' {
        base + rel
    } else {
        base + seq!['/'] + rel
    }
}

/// `root` with exactly one separator at its end (unless it has one already).
pub open spec fn dir_stem(root: Seq<char>) -> Seq<char> {
    if root.len() > 0 && root.last() == '/' {
        root
    } else {
        root + seq!['/']
    }
}

/// `path` relative to `root`, when `path` lies at or below `root`.
///
/// An empty `root` is a prefix of every relative path. Otherwise `path` must
/// be `root` itself (with or without its final separator) or begin with
/// `root` followed by a separator.
pub open spec fn spec_strip_root(path: Seq<char>, root: Seq<char>) -> Option<Seq<char>> {
    if root.len() == 0 {
        if is_absolute(path) {
            None
        } else {
            Some(path)
        }
    } else if path == root || dir_stem(path) == dir_stem(root) {
        Some(Seq::<char>::empty())
    } else if has_prefix(path, dir_stem(root)) {
        Some(path.skip(dir_stem(root).len() as int))
    } else {
        None
    }
}

/// True when `path` names a spec file: it lies under the reserved specs
/// directory and its name ends with the reserved suffix.
pub open spec fn spec_is_spec_file(path: Seq<char>) -> bool {
    has_prefix(path, specs_dir_prefix()) && has_suffix(path, spec_suffix())
}

/// Where the hash store of the project at `project_root` is kept.
pub open spec fn spec_db_path(project_root: Seq<char>) -> Seq<char> {
    spec_join(spec_join(spec_join(project_root, specs_dir()), ".cache"@), "notarai.db"@)
}

/// Resolves `rel` against `base`.
pub fn join_path(base: &str, rel: &str) -> (r: String)
    ensures
        r@ == spec_join(base@, rel@),
{
    let b = chars_of(base);
    let p = chars_of(rel);
    if p.len() > 0 && p[0] == '/' {
        owned(rel)
    } else if b.len() == 0 || b[b.len() - 1] == '/' {
        concat(base, rel)
    } else {
        proof {
            reveal_strlit("/");
            assert("/"@ =~= seq!['/']);
        }
        concat3(base, "/", rel)
    }
}

/// `root` with one separator at its end.
fn stem_of(root: &str) -> (r: String)
    ensures
        r@ == dir_stem(root@),
{
    let b = chars_of(root);
    if b.len() > 0 && b[b.len() - 1] == '/' {
        owned(root)
    } else {
        proof {
            reveal_strlit("/");
            assert("/"@ =~= seq!['/']);
        }
        concat(root, "/")
    }
}

/// `path` relative to `root`, or `None` when `path` does not lie at or below
/// `root`.
pub fn strip_root(path: &str, root: &str) -> (r: Option<String>)
    ensures
        match r {
            Some(rel) => spec_strip_root(path@, root@) == Some(rel@),
            None => spec_strip_root(path@, root@) is None,
        },
{
    let p = chars_of(path);
    let b = chars_of(root);
    if b.len() == 0 {
        if p.len() > 0 && p[0] == '/' {
            return None;
        }
        return Some(owned(path));
    }
    let root_stem = stem_of(root);
    let path_stem = stem_of(path);
    if str_eq(path, root) || str_eq(path_stem.as_str(), root_stem.as_str()) {
        let e = String::new();
        assert(e@ =~= Seq::<char>::empty());
        return Some(e);
    }
    if starts_with(path, root_stem.as_str()) {
        let n = chars_of(root_stem.as_str()).len();
        let rel = slice_text(path, n, p.len());
        assert(rel@ =~= path@.skip(n as int));
        return Some(rel);
    }
    None
}

/// True when `path` names a spec file.
pub fn is_spec_file(path: &str) -> (b: bool)
    ensures
        b == spec_is_spec_file(path@),
{
    starts_with(path, ".notarai/") && ends_with(path, ".spec.yaml")
}

/// The path of the hash store of the project at `project_root`:
/// `.notarai/.cache/notarai.db` below the root.
pub fn db_path(project_root: &str) -> (r: String)
    ensures
        r@ == spec_db_path(project_root@),
{
    let a = join_path(project_root, ".notarai");
    let b = join_path(a.as_str(), ".cache");
    join_path(b.as_str(), "notarai.db")
}

} // verus!
