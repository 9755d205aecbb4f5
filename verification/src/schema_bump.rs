//! Moving a project to the bundled schema version: which version the
//! project is at, where its root is, and how a spec's text changes.

use vstd::prelude::*;
use crate::cli::{
    cli_view, complain, ended, ensure_dir, err, finish, lines_view, out, say, spec_ensure_dir,
    CliOutput, CliView, Line, Printed,
};
use crate::env::{Observations, Outcome, RequestView, Step};
use crate::schema::{bundled_version, spec_schema, SCHEMA_STR};
use crate::resolver::{spec_file_paths, spec_files_in};
use crate::validator::{validate_spec, verdict_on, ValidationResult};
use crate::json::{json_document, parse_json_text, JsonValue};
use crate::paths::{join_path, spec_join, specs_dir};
use crate::schema::{declared_version, version_of};
use crate::text::{
    chars_of, concat, concat3, contains, contains_text, decimal, decimal_text, option_text,
    owned, replace_all, replaced, slice_text, str_eq, texts,
};

verus! {

/// The position of the last separator of `s`, or -1 when it has none.
pub open spec fn last_slash(s: Seq<char>) -> int
    decreases s.len(),
{
    if s.len() == 0 {
        -1
    } else if s.last() == '/' {
        s.len() - 1
    } else {
        last_slash(s.drop_last())
    }
}

/// `last_slash` is below the length, holds a separator when it is not -1,
/// and no separator follows it.
pub proof fn lemma_last_slash(s: Seq<char>)
    ensures
        -1 <= last_slash(s) < s.len(),
        last_slash(s) >= 0 ==> s[last_slash(s)] == '/',
        forall|k: int| last_slash(s) < k < s.len() ==> s[k] != '/',
    decreases s.len(),
{
    if s.len() > 0 && s.last() != '/' {
        lemma_last_slash(s.drop_last());
        assert forall|k: int| last_slash(s) < k < s.len() implies s[k] != '/' by {
            if k < s.len() - 1 {
                assert(s.drop_last()[k] == s[k]);
            }
        }
        if last_slash(s) >= 0 {
            assert(s.drop_last()[last_slash(s)] == s[last_slash(s)]);
        }
    }
}

fn find_last_slash(chars: &Vec<char>, end: usize) -> (r: Option<usize>)
    requires
        end <= chars@.len(),
    ensures
        match r {
            Some(i) => last_slash(chars@.take(end as int)) == i && i < end,
            None => last_slash(chars@.take(end as int)) == -1,
        },
{
    let mut n: usize = end;
    while n > 0
        invariant
            n <= end <= chars@.len(),
            last_slash(chars@.take(end as int)) == last_slash(chars@.take(n as int)),
        decreases n,
    {
        proof {
            let cur = chars@.take(n as int);
            assert(cur.last() == chars@[n - 1]);
            assert(cur.drop_last() =~= chars@.take(n - 1));
        }
        if chars[n - 1] == '/' {
            return Some(n - 1);
        }
        n -= 1;
    }
    None
}

/// The segment before the last of a path or an address: what stands between
/// its last two separators, or before its only one.
pub open spec fn version_segment(id: Seq<char>) -> Option<Seq<char>> {
    let j = last_slash(id);
    if j < 0 {
        None
    } else {
        Some(id.subrange(last_slash(id.take(j)) + 1, j))
    }
}

/// The schema version that the schema `doc` is at: the version it declares
/// as current or, when it declares none, the version segment of its `$id`.
pub open spec fn spec_version_in(doc: JsonValue) -> Option<Seq<char>> {
    match declared_version(doc) {
        Some(v) => Some(v),
        None => match doc.spec_get_str("$id"@) {
            Some(id) => version_segment(id),
            None => None,
        },
    }
}

/// The schema version that the schema copy whose text is `content` is at.
/// None when the text is not JSON or does not tell.
pub open spec fn spec_project_schema_version(content: Seq<char>) -> Option<Seq<char>> {
    match json_document(content) {
        Err(_) => None,
        Ok(doc) => spec_version_in(doc),
    }
}

/// Reads the schema version off the text of a project's schema copy.
pub fn project_schema_version(content: &str) -> (r: Option<String>)
    ensures
        match r {
            Some(v) => spec_project_schema_version(content@) == Some(v@),
            None => spec_project_schema_version(content@) is None,
        },
{
    match parse_json_text(content) {
        Ok(doc) => version_in(&doc),
        Err(_) => None,
    }
}

/// Reads the schema version off a schema.
pub fn version_in(doc: &JsonValue) -> (r: Option<String>)
    ensures
        match r {
            Some(v) => spec_version_in(*doc) == Some(v@),
            None => spec_version_in(*doc) is None,
        },
{
    match version_of(doc) {
        Some(v) => {
            return Some(v);
        },
        None => {},
    }
    let id = match doc.get_str("$id") {
        Some(id) => id,
        None => {
            return None;
        },
    };
    let chars = chars_of(id);
    assert(chars@.take(chars@.len() as int) =~= id@);
    let j = match find_last_slash(&chars, chars.len()) {
        Some(j) => j,
        None => {
            return None;
        },
    };
    let from: usize = match find_last_slash(&chars, j) {
        Some(i) => i + 1,
        None => 0,
    };
    Some(slice_text(id, from, j))
}

/// How a spec states that it is at version `version`, with single quotes.
pub open spec fn single_quoted(version: Seq<char>) -> Seq<char> {
    "schema_version: '"@ + version + "'"@
}

/// How a spec states that it is at version `version`, with double quotes.
pub open spec fn double_quoted(version: Seq<char>) -> Seq<char> {
    "schema_version: \""@ + version + "\""@
}

/// The text of a spec moved from version `old` to version `new`, or `None`
/// when the spec does not state that it is at `old`, in either quoting.
pub open spec fn spec_update_spec_text(
    content: Seq<char>,
    old: Seq<char>,
    new: Seq<char>,
) -> Option<Seq<char>> {
    if !contains_text(content, single_quoted(old)) && !contains_text(content, double_quoted(old)) {
        None
    } else {
        Some(
            replaced(
                replaced(content, single_quoted(old), single_quoted(new)),
                double_quoted(old),
                double_quoted(new),
            ),
        )
    }
}

/// Moves the text of a spec from `old_version` to `new_version`: every
/// statement of the old version, single or double quoted, becomes one of the
/// new version, and nothing else changes. Returns `None` for a spec that
/// needs no change.
pub fn update_spec_text(content: &str, old_version: &str, new_version: &str) -> (r: Option<String>)
    ensures
        match r {
            Some(t) => spec_update_spec_text(content@, old_version@, new_version@) == Some(t@),
            None => spec_update_spec_text(content@, old_version@, new_version@) is None,
        },
{
    let single_old = concat3("schema_version: '", old_version, "'");
    let single_new = concat3("schema_version: '", new_version, "'");
    let double_old = concat3("schema_version: \"", old_version, "\"");
    let double_new = concat3("schema_version: \"", new_version, "\"");
    if !contains(content, single_old.as_str()) && !contains(content, double_old.as_str()) {
        return None;
    }
    let first = replace_all(content, single_old.as_str(), single_new.as_str());
    Some(replace_all(first.as_str(), double_old.as_str(), double_new.as_str()))
}

/// `path` without the separators at its end; a path of separators only is
/// the root.
pub open spec fn stem(path: Seq<char>) -> Seq<char>
    decreases path.len(),
{
    if path.len() > 1 && path.last() == '/' {
        stem(path.drop_last())
    } else {
        path
    }
}

/// The directory that holds `path`: `None` for the root and for the empty
/// path, the empty path for a single relative name.
pub open spec fn spec_parent(path: Seq<char>) -> Option<Seq<char>> {
    let p = stem(path);
    if p.len() == 0 || p == seq!['/'] {
        None
    } else if last_slash(p) < 0 {
        Some(Seq::empty())
    } else if last_slash(p) == 0 {
        Some(seq!['/'])
    } else {
        Some(stem(p.take(last_slash(p))))
    }
}

/// A stem is not longer than its path.
pub proof fn lemma_stem(path: Seq<char>)
    ensures
        stem(path).len() <= path.len(),
        path.len() > 0 ==> stem(path).len() > 0,
    decreases path.len(),
{
    if path.len() > 1 && path.last() == '/' {
        lemma_stem(path.drop_last());
    }
}

/// A parent is shorter than its child.
pub proof fn lemma_parent_is_shorter(path: Seq<char>)
    ensures
        spec_parent(path) matches Some(p) ==> p.len() < path.len(),
{
    let p = stem(path);
    lemma_stem(path);
    lemma_last_slash(p);
    if p.len() > 0 && p != seq!['/'] {
        if last_slash(p) == 0 {
            if p.len() == 1 {
                assert(p =~= seq!['/']);
            }
        } else if last_slash(p) > 0 {
            lemma_stem(p.take(last_slash(p)));
        }
    }
}

fn stem_len(chars: &Vec<char>, end: usize) -> (n: usize)
    requires
        end <= chars@.len(),
    ensures
        n <= end,
        stem(chars@.take(end as int)) == chars@.take(n as int),
{
    let mut n: usize = end;
    while n > 1 && chars[n - 1] == '/'
        invariant
            n <= end <= chars@.len(),
            stem(chars@.take(end as int)) == stem(chars@.take(n as int)),
        decreases n,
    {
        proof {
            let cur = chars@.take(n as int);
            assert(cur.last() == chars@[n - 1]);
            assert(cur.drop_last() =~= chars@.take(n - 1));
        }
        n -= 1;
    }
    proof {
        let cur = chars@.take(n as int);
        if n > 1 {
            assert(cur.last() == chars@[n - 1]);
        }
    }
    n
}

/// The directory that holds `path`.
pub fn parent(path: &str) -> (r: Option<String>)
    ensures
        match r {
            Some(p) => spec_parent(path@) == Some(p@),
            None => spec_parent(path@) is None,
        },
{
    let chars = chars_of(path);
    assert(chars@.take(chars@.len() as int) =~= path@);
    let n = stem_len(&chars, chars.len());
    let ghost p = chars@.take(n as int);
    if n == 0 || (n == 1 && chars[0] == '/') {
        proof {
            if n == 1 {
                assert(p =~= seq!['/']);
            }
        }
        return None;
    }
    proof {
        if p == seq!['/'] {
            assert(p.len() == 1);
            assert(p[0] == '/');
        }
    }
    match find_last_slash(&chars, n) {
        None => {
            let e = String::new();
            assert(e@ =~= Seq::<char>::empty());
            Some(e)
        },
        Some(j) => {
            if j == 0 {
                proof {
                    reveal_strlit("/");
                    assert("/"@ =~= seq!['/']);
                }
                Some(owned("/"))
            } else {
                proof {
                    assert(p.take(j as int) =~= chars@.take(j as int));
                }
                let m = stem_len(&chars, j);
                let r = slice_text(path, 0, m);
                assert(r@ =~= chars@.take(m as int));
                Some(r)
            }
        },
    }
}

/// The root of the project that `current` lies in, looking upwards from
/// there: the nearest directory that holds a specs directory, or `cwd` when
/// no directory up to the root holds one.
pub open spec fn spec_find_root(env: Observations, cwd: Seq<char>, current: Seq<char>) -> Outcome<
    Seq<char>,
>
    decreases current.len(),
{
    let dir = spec_join(current, specs_dir());
    match env.spec_is_dir(dir) {
        None => Outcome::Need(RequestView::IsDir { path: dir }),
        Some(true) => Outcome::Done(current),
        Some(false) => match spec_parent(current) {
            Some(p) => if p.len() < current.len() {
                spec_find_root(env, cwd, p)
            } else {
                Outcome::Done(cwd)
            },
            None => Outcome::Done(cwd),
        },
    }
}

fn find_root_from(cwd: &str, current: String, env: &Observations) -> (r: Step<String>)
    ensures
        match r {
            Step::Need(q) => spec_find_root(*env, cwd@, current@) == Outcome::<Seq<char>>::Need(q@),
            Step::Done(root) => spec_find_root(*env, cwd@, current@) == Outcome::Done(root@),
        },
    decreases current@.len(),
{
    let dir = join_path(current.as_str(), ".notarai");
    match env.is_dir(dir.as_str()) {
        Err(q) => Step::Need(q),
        Ok(true) => Step::Done(current),
        Ok(false) => match parent(current.as_str()) {
            Some(p) => {
                proof {
                    lemma_parent_is_shorter(current@);
                }
                find_root_from(cwd, p, env)
            },
            None => Step::Done(owned(cwd)),
        },
    }
}

/// Locates the root of the project that `cwd` lies in: the nearest
/// directory, from `cwd` upwards, that holds a specs directory; `cwd` itself
/// when there is none.
pub fn find_project_root(cwd: &str, env: &Observations) -> (r: Step<String>)
    ensures
        match r {
            Step::Need(q) => spec_find_root(*env, cwd@, cwd@) == Outcome::<Seq<char>>::Need(q@),
            Step::Done(root) => spec_find_root(*env, cwd@, cwd@) == Outcome::Done(root@),
        },
{
    find_root_from(cwd, owned(cwd), env)
}

/// What is said when a spec is not valid after the move.
pub open spec fn bump_failed() -> Seq<char> {
    "Validation failed after schema bump -- please review the errors above"@
}

/// Where a project keeps its copy of the schema, below its root.
pub open spec fn schema_copy() -> Seq<char> {
    ".notarai/notarai.spec.json"@
}

/// The root of the project to bump: the root that was given, or the root of
/// the project that `cwd` lies in.
pub open spec fn spec_bump_root(
    env: Observations,
    project_root: Option<Seq<char>>,
    cwd: Seq<char>,
) -> Outcome<Seq<char>> {
    match project_root {
        Some(root) => Outcome::Done(root),
        None => spec_find_root(env, cwd, cwd),
    }
}

/// The schema version that the project at `root` is at, as its copy of the
/// schema tells; none when there is no copy that can be read and understood.
pub open spec fn spec_old_version(
    env: Observations,
    root: Seq<char>,
) -> Outcome<Option<Seq<char>>> {
    let path = spec_join(root, schema_copy());
    match env.spec_text(path) {
        None => Outcome::Need(RequestView::ReadTexts { paths: seq![path] }),
        Some(Err(_)) => Outcome::Done(None),
        Some(Ok(content)) => Outcome::Done(spec_project_schema_version(content@)),
    }
}

/// Tells which schema version the project at `root` is at.
pub fn old_version(root: &str, env: &Observations) -> (r: Step<Option<String>>)
    ensures
        match r {
            Step::Need(q) => spec_old_version(*env, root@) == Outcome::<Option<Seq<char>>>::Need(
                q@,
            ),
            Step::Done(Some(v)) => spec_old_version(*env, root@) == Outcome::Done(Some(v@)),
            Step::Done(None) => spec_old_version(*env, root@) == Outcome::Done(
                None::<Seq<char>>,
            ),
        },
{
    let path = join_path(root, ".notarai/notarai.spec.json");
    match env.text_at(path.as_str()) {
        Err(q) => Step::Need(q),
        Ok(Err(_)) => Step::Done(None),
        Ok(Ok(content)) => Step::Done(project_schema_version(content.as_str())),
    }
}

/// What is said before a project is moved from the version `old` to the
/// version `new`.
pub open spec fn announcement(old: Option<Seq<char>>, new: Seq<char>) -> Seq<char> {
    match old {
        Some(v) => if v == new {
            "Already at current schema version ("@ + new + ")"@
        } else {
            "Updating schema from "@ + v + " to "@ + new
        },
        None => "No local schema found, installing version "@ + new,
    }
}

/// The version that specs are moved from when the project does not tell
/// which version it is at.
pub open spec fn unknown_version() -> Seq<char> {
    "0.0"@
}

/// The version that the project's specs are moved from.
pub open spec fn from_version(old: Option<Seq<char>>) -> Seq<char> {
    match old {
        Some(v) => v,
        None => unknown_version(),
    }
}

/// How moving `files`, whose texts are `reads`, from `old` to `new` ends:
/// with the number of files rewritten, or with the failure of the first file
/// that cannot be read or written. The files are taken in order, and a
/// failure leaves the files before it rewritten.
pub open spec fn spec_update_spec_files(
    env: Observations,
    files: Seq<Seq<char>>,
    reads: Seq<Result<String, String>>,
    old: Seq<char>,
    new: Seq<char>,
) -> Outcome<Result<nat, Seq<char>>>
    decreases files.len(),
{
    if files.len() == 0 {
        Outcome::Done(Ok(0))
    } else {
        match spec_update_spec_files(env, files.drop_last(), reads.drop_last(), old, new) {
            Outcome::Need(q) => Outcome::Need(q),
            Outcome::Done(Err(e)) => Outcome::Done(Err(e)),
            Outcome::Done(Ok(n)) => match reads.last() {
                Err(e) => Outcome::Done(
                    Err("could not read "@ + files.last() + ": "@ + e@),
                ),
                Ok(content) => match spec_update_spec_text(content@, old, new) {
                    None => Outcome::Done(Ok(n)),
                    Some(text) => match env.spec_written(files.last(), text) {
                        None => Outcome::Need(
                            RequestView::WriteText { path: files.last(), content: text },
                        ),
                        Some(Err(e)) => Outcome::Done(
                            Err("could not write "@ + files.last() + ": "@ + e@),
                        ),
                        Some(Ok(_)) => Outcome::Done(Ok(n + 1)),
                    },
                },
            },
        }
    }
}

/// Moves each of `files` that states the version `old_version` to
/// `new_version`, and returns how many files were rewritten.
pub fn update_spec_files(
    files: &Vec<String>,
    reads: &Vec<Result<String, String>>,
    old_version: &str,
    new_version: &str,
    env: &Observations,
) -> (r: Step<Result<usize, String>>)
    requires
        reads@.len() == files@.len(),
    ensures
        match r {
            Step::Need(q) => spec_update_spec_files(
                *env,
                texts(files@),
                reads@,
                old_version@,
                new_version@,
            ) == Outcome::<Result<nat, Seq<char>>>::Need(q@),
            Step::Done(Ok(n)) => spec_update_spec_files(
                *env,
                texts(files@),
                reads@,
                old_version@,
                new_version@,
            ) == Outcome::Done(Ok::<nat, Seq<char>>(n as nat)),
            Step::Done(Err(e)) => spec_update_spec_files(
                *env,
                texts(files@),
                reads@,
                old_version@,
                new_version@,
            ) == Outcome::Done(Err::<nat, Seq<char>>(e@)),
        },
{
    let mut updated: usize = 0;
    let mut i: usize = 0;
    assert(texts(files@).take(0) =~= Seq::<Seq<char>>::empty());
    while i < files.len()
        invariant
            i <= files.len(),
            updated <= i,
            reads@.len() == files@.len(),
            spec_update_spec_files(
                *env,
                texts(files@).take(i as int),
                reads@.take(i as int),
                old_version@,
                new_version@,
            ) == Outcome::Done(Ok::<nat, Seq<char>>(updated as nat)),
        decreases files.len() - i,
    {
        proof {
            let next = texts(files@).take(i + 1);
            assert(next.drop_last() =~= texts(files@).take(i as int));
            assert(next.last() == files@[i as int]@);
            let next_reads = reads@.take(i + 1);
            assert(next_reads.drop_last() =~= reads@.take(i as int));
            assert(next_reads.last() == reads@[i as int]);
        }
        match &reads[i] {
            Err(e) => {
                let head = concat3("could not read ", files[i].as_str(), ": ");
                let message = concat(head.as_str(), e.as_str());
                proof {
                    lemma_update_stops(
                        *env,
                        texts(files@),
                        reads@,
                        old_version@,
                        new_version@,
                        i as int + 1,
                    );
                }
                return Step::Done(Err(message));
            },
            Ok(content) => {
                match update_spec_text(content.as_str(), old_version, new_version) {
                    None => {},
                    Some(text) => {
                        match env.written(files[i].as_str(), text.as_str()) {
                            Err(q) => {
                                proof {
                                    lemma_update_stops(
                                        *env,
                                        texts(files@),
                                        reads@,
                                        old_version@,
                                        new_version@,
                                        i as int + 1,
                                    );
                                }
                                return Step::Need(q);
                            },
                            Ok(Err(e)) => {
                                let head = concat3("could not write ", files[i].as_str(), ": ");
                                let message = concat(head.as_str(), e.as_str());
                                proof {
                                    lemma_update_stops(
                                        *env,
                                        texts(files@),
                                        reads@,
                                        old_version@,
                                        new_version@,
                                        i as int + 1,
                                    );
                                }
                                return Step::Done(Err(message));
                            },
                            Ok(Ok(_)) => {
                                updated += 1;
                            },
                        }
                    },
                }
            },
        }
        i += 1;
    }
    assert(texts(files@).take(files.len() as int) =~= texts(files@));
    assert(reads@.take(files.len() as int) =~= reads@);
    Step::Done(Ok(updated))
}

/// Once the first `n` files have come to a request or a failure, so have
/// all of them: to the same.
proof fn lemma_update_stops(
    env: Observations,
    files: Seq<Seq<char>>,
    reads: Seq<Result<String, String>>,
    old: Seq<char>,
    new: Seq<char>,
    n: int,
)
    requires
        0 <= n <= files.len(),
        reads.len() == files.len(),
        !(spec_update_spec_files(env, files.take(n), reads.take(n), old, new) matches Outcome::Done(
            Ok(_),
        )),
    ensures
        spec_update_spec_files(env, files, reads, old, new) == spec_update_spec_files(
            env,
            files.take(n),
            reads.take(n),
            old,
            new,
        ),
    decreases files.len() - n,
{
    if n < files.len() {
        assert(files.take(n + 1).drop_last() =~= files.take(n));
        assert(reads.take(n + 1).drop_last() =~= reads.take(n));
        lemma_update_stops(env, files, reads, old, new, n + 1);
    } else {
        assert(files.take(n) =~= files);
        assert(reads.take(n) =~= reads);
    }
}

/// The text of a spec after the move from `old` to `new`: rewritten if it
/// stated the old version, else as it was read.
pub open spec fn content_after(read: Result<String, String>, old: Seq<char>, new: Seq<char>) -> Seq<
    char,
> {
    match read {
        Ok(content) => match spec_update_spec_text(content@, old, new) {
            Some(text) => text,
            None => content@,
        },
        Err(_) => Seq::empty(),
    }
}

/// The texts of the specs after the move.
pub open spec fn contents_after(
    reads: Seq<Result<String, String>>,
    old: Seq<char>,
    new: Seq<char>,
) -> Seq<Seq<char>> {
    Seq::new(reads.len(), |i: int| content_after(reads[i], old, new))
}

/// What is printed about the specs that are not valid after the move: for
/// each, that it fails and why.
pub open spec fn failure_lines(files: Seq<Seq<char>>, verdicts: Seq<ValidationResult>) -> Printed
    decreases files.len(),
{
    if files.len() == 0 {
        Seq::empty()
    } else {
        let rest = failure_lines(files.drop_last(), verdicts.drop_last());
        if verdicts.last().valid {
            rest
        } else {
            rest + seq![err("FAIL "@ + files.last())] + crate::hook_validate::indented_complaints(
                texts(verdicts.last().errors@),
            )
        }
    }
}

/// True when one of `verdicts` is not valid.
pub open spec fn any_invalid(verdicts: Seq<ValidationResult>) -> bool
    decreases verdicts.len(),
{
    if verdicts.len() == 0 {
        false
    } else {
        any_invalid(verdicts.drop_last()) || !verdicts.last().valid
    }
}

/// Reports the specs that are not valid, given the verdict on each.
pub fn report_failures(files: &Vec<String>, verdicts: &Vec<ValidationResult>) -> (r: (
    Vec<Line>,
    bool,
))
    requires
        verdicts@.len() == files@.len(),
    ensures
        lines_view(r.0@) == failure_lines(texts(files@), verdicts@),
        r.1 == any_invalid(verdicts@),
{
    let mut printed: Vec<Line> = Vec::new();
    let mut failed = false;
    let mut i: usize = 0;
    assert(texts(files@).take(0) =~= Seq::<Seq<char>>::empty());
    assert(verdicts@.take(0) =~= Seq::<ValidationResult>::empty());
    assert(lines_view(printed@) =~= Seq::<(bool, Seq<char>)>::empty());
    while i < files.len()
        invariant
            i <= files.len(),
            verdicts@.len() == files@.len(),
            lines_view(printed@) == failure_lines(
                texts(files@).take(i as int),
                verdicts@.take(i as int),
            ),
            failed == any_invalid(verdicts@.take(i as int)),
        decreases files.len() - i,
    {
        proof {
            let next = texts(files@).take(i + 1);
            assert(next.drop_last() =~= texts(files@).take(i as int));
            assert(next.last() == files@[i as int]@);
            let next_verdicts = verdicts@.take(i + 1);
            assert(next_verdicts.drop_last() =~= verdicts@.take(i as int));
            assert(next_verdicts.last() == verdicts@[i as int]);
        }
        if !verdicts[i].valid {
            failed = true;
            let ghost before = lines_view(printed@);
            let flagged = crate::hook_validate::HookResult {
                exit_code: 1,
                errors: clone_errors(&verdicts[i].errors),
                file_path: None,
            };
            complain(&mut printed, concat("FAIL ", files[i].as_str()));
            let ghost mid = lines_view(printed@);
            let mut more = crate::hook_validate::hook_report(&flagged);
            let ghost added = lines_view(more@);
            assert(added =~= crate::hook_validate::indented_complaints(
                texts(verdicts@[i as int].errors@),
            ));
            printed.append(&mut more);
            assert(lines_view(printed@) =~= mid + added);
            assert(mid =~= before + seq![err("FAIL "@ + files@[i as int]@)]);
        }
        i += 1;
    }
    assert(texts(files@).take(files.len() as int) =~= texts(files@));
    assert(verdicts@.take(files.len() as int) =~= verdicts@);
    (printed, failed)
}

fn clone_errors(errors: &Vec<String>) -> (r: Vec<String>)
    ensures
        texts(r@) == texts(errors@),
{
    crate::text::clone_strings(errors)
}

/// What a bump has to work on once it has found the project's specs.
pub struct BumpWork {
    /// The spec files of the project.
    pub files: Seq<Seq<char>>,
    /// What reading each of them gave.
    pub reads: Seq<Result<String, String>>,
    /// The version that the specs are moved from.
    pub from: Seq<char>,
    /// The version that the specs are moved to.
    pub to: Seq<char>,
    /// What was printed so far.
    pub said: Printed,
}

/// The part of a bump that installs the bundled schema in the project at
/// `root` and finds the project's specs. `said` is what was printed before.
pub open spec fn spec_install(
    env: Observations,
    root: Seq<char>,
    old: Option<Seq<char>>,
    new: Seq<char>,
    said: Printed,
) -> Outcome<Result<BumpWork, CliView>> {
    let dir = spec_join(root, specs_dir());
    let dest = spec_join(dir, "notarai.spec.json"@);
    match spec_ensure_dir(env, dir) {
        Outcome::Need(q) => Outcome::Need(q),
        Outcome::Done(Some(e)) => Outcome::Done(
            Err(ended(1, said + seq![err("Error: could not create .notarai/ directory: "@ + e)])),
        ),
        Outcome::Done(None) => match env.spec_written(dest, SCHEMA_STR@) {
            None => Outcome::Need(RequestView::WriteText { path: dest, content: SCHEMA_STR@ }),
            Some(Err(e)) => Outcome::Done(
                Err(
                    ended(
                        1,
                        said + seq![
                            err("Error: could not write .notarai/notarai.spec.json: "@ + e@),
                        ],
                    ),
                ),
            ),
            Some(Ok(_)) => match env.spec_files_below(dir) {
                None => Outcome::Need(RequestView::FilesBelow { path: dir }),
                Some(all) => {
                    let files = spec_file_paths(texts(all@));
                    if files.len() == 0 {
                        Outcome::Done(
                            Err(ended(0, said + seq![out("No spec files found in .notarai/"@)])),
                        )
                    } else {
                        match env.spec_texts(files) {
                            None => Outcome::Need(RequestView::ReadTexts { paths: files }),
                            Some(reads) => Outcome::Done(
                                Ok(
                                    BumpWork {
                                        files,
                                        reads,
                                        from: from_version(old),
                                        to: new,
                                        said,
                                    },
                                ),
                            ),
                        }
                    }
                },
            },
        },
    }
}

/// The part of a bump that comes before any spec is touched: it ends the
/// bump, or leaves the specs to work on.
pub open spec fn spec_plan(
    env: Observations,
    project_root: Option<Seq<char>>,
    cwd: Seq<char>,
) -> Outcome<Result<BumpWork, CliView>> {
    match spec_bump_root(env, project_root, cwd) {
        Outcome::Need(q) => Outcome::Need(q),
        Outcome::Done(root) => match declared_version(spec_schema()) {
            None => Outcome::Done(
                Err(ended(1, seq![err("Error: could not determine bundled schema version"@)])),
            ),
            Some(new) => match spec_old_version(env, root) {
                Outcome::Need(q) => Outcome::Need(q),
                Outcome::Done(old) => if old == Some(new) {
                    Outcome::Done(Err(ended(0, seq![out(announcement(old, new))])))
                } else {
                    spec_install(env, root, old, new, seq![out(announcement(old, new))])
                },
            },
        },
    }
}

/// How a bump ends once the specs were found and read, given the verdicts on
/// the specs' texts after the move.
pub open spec fn spec_bump_specs(
    env: Observations,
    work: BumpWork,
    verdicts: Seq<ValidationResult>,
) -> Outcome<CliView> {
    match spec_update_spec_files(env, work.files, work.reads, work.from, work.to) {
        Outcome::Need(q) => Outcome::Need(q),
        Outcome::Done(Err(e)) => Outcome::Done(ended(1, work.said + seq![err("Error: "@ + e)])),
        Outcome::Done(Ok(n)) => if any_invalid(verdicts) {
            Outcome::Done(
                ended(
                    1,
                    work.said + failure_lines(work.files, verdicts) + seq![err(bump_failed())],
                ),
            )
        } else {
            Outcome::Done(
                ended(
                    0,
                    work.said + seq![
                        out(
                            "Updated "@ + decimal(n) + " spec file(s) from "@ + work.from + " to "@
                                + work.to,
                        ),
                    ],
                ),
            )
        },
    }
}

/// What a bump comes to, given the verdicts on the specs' texts after the
/// move.
pub open spec fn spec_run(
    env: Observations,
    project_root: Option<Seq<char>>,
    cwd: Seq<char>,
    verdicts: Seq<ValidationResult>,
) -> Outcome<CliView> {
    match spec_plan(env, project_root, cwd) {
        Outcome::Need(q) => Outcome::Need(q),
        Outcome::Done(Err(view)) => Outcome::Done(view),
        Outcome::Done(Ok(work)) => spec_bump_specs(env, work, verdicts),
    }
}

/// True when `verdicts` holds, for each text of `contents`, a verdict that
/// validating the text can come to.
pub open spec fn verdicts_fit(contents: Seq<Seq<char>>, verdicts: Seq<ValidationResult>) -> bool {
    &&& verdicts.len() == contents.len()
    &&& forall|i: int|
        0 <= i < contents.len() ==> verdict_on(#[trigger] contents[i], verdicts[i])
}

/// True when the bump has moved the specs of `work` and has them to
/// validate.
pub open spec fn moved(env: Observations, work: BumpWork) -> bool {
    spec_update_spec_files(env, work.files, work.reads, work.from, work.to) matches Outcome::Done(
        Ok(_),
    )
}

/// True when `outcome` is what a bump comes to for the verdicts `verdicts`,
/// and the verdicts are such as validating the moved specs can come to.
pub open spec fn comes_to(
    env: Observations,
    project_root: Option<Seq<char>>,
    cwd: Seq<char>,
    outcome: Outcome<CliView>,
    verdicts: Seq<ValidationResult>,
) -> bool {
    &&& spec_plan(env, project_root, cwd) matches Outcome::Done(Ok(work)) ==> (moved(env, work)
        ==> verdicts_fit(contents_after(work.reads, work.from, work.to), verdicts))
    &&& outcome == spec_run(env, project_root, cwd, verdicts)
}

fn announce(old: &Option<String>, new: &str) -> (r: String)
    ensures
        r@ == announcement(option_text(*old), new@),
{
    match old {
        Some(v) => {
            if str_eq(v.as_str(), new) {
                concat3("Already at current schema version (", new, ")")
            } else {
                let head = concat3("Updating schema from ", v.as_str(), " to ");
                concat(head.as_str(), new)
            }
        },
        None => concat("No local schema found, installing version ", new),
    }
}

fn judge_after(reads: &Vec<Result<String, String>>, old: &str, new: &str) -> (verdicts: Vec<
    ValidationResult,
>)
    ensures
        verdicts_fit(contents_after(reads@, old@, new@), verdicts@),
{
    let mut verdicts: Vec<ValidationResult> = Vec::new();
    let mut i: usize = 0;
    while i < reads.len()
        invariant
            i <= reads.len(),
            verdicts@.len() == i,
            forall|j: int|
                0 <= j < i ==> verdict_on(
                    #[trigger] contents_after(reads@, old@, new@)[j],
                    verdicts@[j],
                ),
        decreases reads.len() - i,
    {
        let verdict = match &reads[i] {
            Ok(content) => match update_spec_text(content.as_str(), old, new) {
                Some(text) => validate_spec(text.as_str()),
                None => validate_spec(content.as_str()),
            },
            Err(_) => {
                let empty = String::new();
                assert(empty@ =~= Seq::<char>::empty());
                validate_spec(empty.as_str())
            },
        };
        verdicts.push(verdict);
        i += 1;
    }
    verdicts
}

/// Moves the project to the bundled schema version: the project's copy of
/// the schema is replaced by the bundled schema, every spec that states the
/// project's old version is rewritten to state the new one, and all specs
/// are validated as they then stand. A project that is at the bundled
/// version already is left alone. The project is the one at `project_root`
/// or, when none is given, the one that `cwd` lies in.
pub fn run(project_root: Option<&str>, cwd: &str, env: &Observations) -> (r: Step<CliOutput>)
    ensures
        exists|verdicts: Seq<ValidationResult>| #[trigger]
            comes_to(
                *env,
                crate::validate_cmd::path_text(project_root),
                cwd@,
                cli_view(r),
                verdicts,
            ),
{
    let ghost none = Seq::<ValidationResult>::empty();
    let ghost given = crate::validate_cmd::path_text(project_root);
    let mut printed: Vec<Line> = Vec::new();
    assert(lines_view(printed@) =~= Seq::<(bool, Seq<char>)>::empty());
    let root: String = match project_root {
        Some(p) => owned(p),
        None => match find_project_root(cwd, env) {
            Step::Need(q) => {
                let r = Step::<CliOutput>::Need(q);
                assert(comes_to(*env, given, cwd@, cli_view(r), none));
                return r;
            },
            Step::Done(root) => root,
        },
    };
    let new = match bundled_version() {
        Some(v) => v,
        None => {
            complain(&mut printed, owned("Error: could not determine bundled schema version"));
            assert(lines_view(printed@) =~= seq![
                err("Error: could not determine bundled schema version"@),
            ]);
            let r = finish(1, printed);
            assert(comes_to(*env, given, cwd@, cli_view(r), none));
            return r;
        },
    };
    let old = match old_version(root.as_str(), env) {
        Step::Need(q) => {
            let r = Step::<CliOutput>::Need(q);
            assert(comes_to(*env, given, cwd@, cli_view(r), none));
            return r;
        },
        Step::Done(old) => old,
    };
    let ghost old_view = option_text(old);
    say(&mut printed, announce(&old, new.as_str()));
    let ghost said = lines_view(printed@);
    assert(said =~= seq![out(announcement(old_view, new@))]);
    let current = match &old {
        Some(v) => str_eq(v.as_str(), new.as_str()),
        None => false,
    };
    if current {
        let r = finish(0, printed);
        assert(comes_to(*env, given, cwd@, cli_view(r), none));
        return r;
    }
    let dir = join_path(root.as_str(), ".notarai");
    match ensure_dir(dir.as_str(), env) {
        Step::Need(q) => {
            let r = Step::<CliOutput>::Need(q);
            assert(comes_to(*env, given, cwd@, cli_view(r), none));
            return r;
        },
        Step::Done(Some(e)) => {
            complain(
                &mut printed,
                concat("Error: could not create .notarai/ directory: ", e.as_str()),
            );
            assert(lines_view(printed@) =~= said + seq![
                err("Error: could not create .notarai/ directory: "@ + e@),
            ]);
            let r = finish(1, printed);
            assert(comes_to(*env, given, cwd@, cli_view(r), none));
            return r;
        },
        Step::Done(None) => {},
    }
    let dest = join_path(dir.as_str(), "notarai.spec.json");
    match env.written(dest.as_str(), SCHEMA_STR) {
        Err(q) => {
            let r = Step::<CliOutput>::Need(q);
            assert(comes_to(*env, given, cwd@, cli_view(r), none));
            return r;
        },
        Ok(Err(e)) => {
            complain(
                &mut printed,
                concat("Error: could not write .notarai/notarai.spec.json: ", e.as_str()),
            );
            assert(lines_view(printed@) =~= said + seq![
                err("Error: could not write .notarai/notarai.spec.json: "@ + e@),
            ]);
            let r = finish(1, printed);
            assert(comes_to(*env, given, cwd@, cli_view(r), none));
            return r;
        },
        Ok(Ok(_)) => {},
    }
    let all = match env.files_below(dir.as_str()) {
        Err(q) => {
            let r = Step::<CliOutput>::Need(q);
            assert(comes_to(*env, given, cwd@, cli_view(r), none));
            return r;
        },
        Ok(all) => all,
    };
    let files = spec_files_in(all);
    if files.len() == 0 {
        say(&mut printed, owned("No spec files found in .notarai/"));
        assert(lines_view(printed@) =~= said + seq![out("No spec files found in .notarai/"@)]);
        let r = finish(0, printed);
        assert(comes_to(*env, given, cwd@, cli_view(r), none));
        return r;
    }
    let reads = match env.texts_for(&files) {
        Ok(reads) => reads,
        Err(q) => {
            let r = Step::<CliOutput>::Need(q);
            assert(comes_to(*env, given, cwd@, cli_view(r), none));
            return r;
        },
    };
    let from: String = match &old {
        Some(v) => v.clone(),
        None => owned("0.0"),
    };
    let updated = match update_spec_files(&files, reads, from.as_str(), new.as_str(), env) {
        Step::Need(q) => {
            let r = Step::<CliOutput>::Need(q);
            assert(comes_to(*env, given, cwd@, cli_view(r), none));
            return r;
        },
        Step::Done(Err(e)) => {
            complain(&mut printed, concat("Error: ", e.as_str()));
            assert(lines_view(printed@) =~= said + seq![err("Error: "@ + e@)]);
            let r = finish(1, printed);
            assert(comes_to(*env, given, cwd@, cli_view(r), none));
            return r;
        },
        Step::Done(Ok(n)) => n,
    };
    let verdicts = judge_after(reads, from.as_str(), new.as_str());
    let (mut failures, failed) = report_failures(&files, &verdicts);
    if failed {
        let ghost flagged = lines_view(failures@);
        printed.append(&mut failures);
        assert(lines_view(printed@) =~= said + flagged);
        complain(
            &mut printed,
            owned("Validation failed after schema bump -- please review the errors above"),
        );
        assert(lines_view(printed@) =~= said + flagged + seq![err(bump_failed())]);
        let r = finish(1, printed);
        assert(comes_to(*env, given, cwd@, cli_view(r), verdicts@));
        return r;
    }
    let count = decimal_text(updated as u64);
    let head = concat3("Updated ", count.as_str(), " spec file(s) from ");
    let tail = concat3(from.as_str(), " to ", new.as_str());
    let summary = concat(head.as_str(), tail.as_str());
    assert(summary@ =~= "Updated "@ + decimal(updated as nat) + " spec file(s) from "@ + from@
        + " to "@ + new@);
    say(&mut printed, summary);
    assert(lines_view(printed@) =~= said + seq![
        out(
            "Updated "@ + decimal(updated as nat) + " spec file(s) from "@ + from@ + " to "@
                + new@,
        ),
    ]);
    let r = finish(0, printed);
    assert(comes_to(*env, given, cwd@, cli_view(r), verdicts@));
    r
}

} // verus!
