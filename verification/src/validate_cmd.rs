//! The `validate` subcommand: which files it looks at and what it prints.

use vstd::prelude::*;
use crate::cli::{
    cli_view, complain, ended, err, finish, lines_view, one_err, outs, no_line, say_all,
    CliOutput, CliView, Line, Printed,
};
use crate::env::{Observations, Outcome, RequestView, Step};
use crate::json::{json_document, parse_json_text};
use crate::resolver::{spec_file_paths, spec_files_in};
use crate::schema::{schema_id, spec_schema};
use crate::text::{concat, concat3, owned, sort_texts, sorted, str_eq, texts};
use crate::validator::{rejected, validate_spec, verdict_on, ValidationResult};

verus! {

/// How an identifier is printed: itself, or `unknown` when there is none.
pub open spec fn shown_id(id: Option<Seq<char>>) -> Seq<char> {
    match id {
        Some(id) => id,
        None => "unknown"@,
    }
}

/// The warning about the schema copy at `path`, which is not the bundled
/// schema.
pub open spec fn stale_warning(
    path: Seq<char>,
    local_id: Option<Seq<char>>,
    bundled_id: Option<Seq<char>>,
) -> Seq<char> {
    "Warning: "@ + path + " is out of date (local: "@ + shown_id(local_id) + ", bundled: "@
        + shown_id(bundled_id) + "). Run `notarai init` to update."@
}

/// The warning to print about a schema copy at `path` with the identifier
/// `local_id`, when the bundled schema has the identifier `bundled_id`: none
/// when the two are the same.
pub open spec fn spec_id_warning(
    path: Seq<char>,
    local_id: Option<Seq<char>>,
    bundled_id: Option<Seq<char>>,
) -> Option<Seq<char>> {
    if local_id == bundled_id {
        None
    } else {
        Some(stale_warning(path, local_id, bundled_id))
    }
}

/// The warning to print about the project's schema copy at `path`, whose
/// text is `local`: none when the text is not JSON, and none when its `$id`
/// is that of the bundled schema.
pub open spec fn spec_freshness_warning(path: Seq<char>, local: Seq<char>) -> Option<Seq<char>> {
    match json_document(local) {
        Err(_) => None,
        Ok(doc) => spec_id_warning(
            path,
            doc.spec_get_str("$id"@),
            spec_schema().spec_get_str("$id"@),
        ),
    }
}

/// Compares the identifier of a schema copy with that of the bundled schema
/// and returns the warning to print when they differ. An identifier that is
/// missing is shown as `unknown`.
pub fn id_warning(path: &str, local_id: Option<&str>, bundled_id: Option<&str>) -> (r: Option<
    String,
>)
    ensures
        match r {
            Some(w) => spec_id_warning(
                path@,
                match local_id {
                    Some(l) => Some(l@),
                    None => None,
                },
                match bundled_id {
                    Some(b) => Some(b@),
                    None => None,
                },
            ) == Some(w@),
            None => spec_id_warning(
                path@,
                match local_id {
                    Some(l) => Some(l@),
                    None => None,
                },
                match bundled_id {
                    Some(b) => Some(b@),
                    None => None,
                },
            ) is None,
        },
{
    let same = match (bundled_id, local_id) {
        (Some(b), Some(l)) => str_eq(b, l),
        (None, None) => true,
        _ => false,
    };
    if same {
        return None;
    }
    let local_shown = match local_id {
        Some(l) => l,
        None => "unknown",
    };
    let bundled_shown = match bundled_id {
        Some(b) => b,
        None => "unknown",
    };
    let start = concat3("Warning: ", path, " is out of date (local: ");
    let head = concat3(start.as_str(), local_shown, ", bundled: ");
    Some(concat3(head.as_str(), bundled_shown, "). Run `notarai init` to update."))
}

/// Compares the project's copy of the schema, which lies at `path` and whose
/// text is `local`, with the bundled schema, and returns the warning to print
/// when they differ.
pub fn freshness_warning(path: &str, local: &str) -> (r: Option<String>)
    ensures
        match r {
            Some(w) => spec_freshness_warning(path@, local@) == Some(w@),
            None => spec_freshness_warning(path@, local@) is None,
        },
{
    let doc = match parse_json_text(local) {
        Ok(doc) => doc,
        Err(_) => {
            return None;
        },
    };
    let bundled_id = schema_id();
    let bundled: Option<&str> = match &bundled_id {
        Some(b) => Some(b.as_str()),
        None => None,
    };
    id_warning(path, doc.get_str("$id"), bundled)
}

/// The spec files among `paths`, the files found below a directory: those
/// whose name ends with the spec suffix, sorted.
pub fn find_spec_files(paths: &Vec<String>) -> (r: Vec<String>)
    ensures
        texts(r@) == sort_texts(spec_file_paths(texts(paths@))),
{
    sorted(&spec_files_in(paths))
}

/// What `validate` reports on one file.
pub struct FileReport {
    /// The lines to print.
    pub lines: Vec<String>,
    /// Whether the file failed.
    pub failed: bool,
}

/// The lines that list `errors`, each indented by two spaces.
pub open spec fn indented(errors: Seq<Seq<char>>) -> Seq<Seq<char>> {
    Seq::new(errors.len(), |i: int| "  "@ + errors[i])
}

/// The lines that report the verdict on `file`: `PASS` and the file's name,
/// or `FAIL` and the file's name followed by the errors.
pub open spec fn verdict_lines(file: Seq<char>, valid: bool, errors: Seq<Seq<char>>) -> Seq<
    Seq<char>,
> {
    if valid {
        seq!["PASS "@ + file]
    } else {
        seq!["FAIL "@ + file] + indented(errors)
    }
}

/// The lines that report a file that could not be read.
pub open spec fn unreadable_lines(file: Seq<char>, e: Seq<char>) -> Seq<Seq<char>> {
    seq!["FAIL "@ + file, "  Could not read file: "@ + e]
}

/// The report on `file` given the verdict on its content.
pub fn verdict_report(file: &str, verdict: &ValidationResult) -> (r: FileReport)
    ensures
        r.failed == !verdict.valid,
        texts(r.lines@) == verdict_lines(file@, verdict.valid, texts(verdict.errors@)),
        r.lines@.len() >= 1,
        verdict.valid ==> r.lines@.len() == 1,
        r.lines@[0]@ == (if verdict.valid {
            "PASS "@
        } else {
            "FAIL "@
        }) + file@,
{
    let mut out: Vec<String> = Vec::new();
    if verdict.valid {
        out.push(concat("PASS ", file));
        assert(texts(out@) =~= verdict_lines(file@, true, texts(verdict.errors@)));
        return FileReport { lines: out, failed: false };
    }
    out.push(concat("FAIL ", file));
    let mut i: usize = 0;
    while i < verdict.errors.len()
        invariant
            i <= verdict.errors.len(),
            out@.len() == 1 + i,
            out@[0]@ == "FAIL "@ + file@,
            forall|j: int| 0 <= j < i ==> out@[1 + j]@ == "  "@ + verdict.errors@[j]@,
        decreases verdict.errors.len() - i,
    {
        out.push(concat("  ", verdict.errors[i].as_str()));
        i += 1;
    }
    assert(texts(out@) =~= verdict_lines(file@, false, texts(verdict.errors@)));
    FileReport { lines: out, failed: true }
}

/// The exit code of `validate`: 1 when a file failed, else 0.
pub fn exit_code(any_failed: bool) -> (code: i32)
    ensures
        code == spec_exit_code(any_failed),
{
    if any_failed {
        1
    } else {
        0
    }
}

/// What checking the project's copy of the schema, which lies at
/// `copy_path`, prints: a warning when the copy can be read and is not the
/// bundled schema, else nothing.
pub open spec fn spec_check_freshness(env: Observations, copy_path: Seq<char>) -> Outcome<Printed> {
    match env.spec_exists(copy_path) {
        None => Outcome::Need(RequestView::PathExists { path: copy_path }),
        Some(false) => Outcome::Done(Seq::empty()),
        Some(true) => match env.spec_text(copy_path) {
            None => Outcome::Need(RequestView::ReadTexts { paths: seq![copy_path] }),
            Some(Err(_)) => Outcome::Done(Seq::empty()),
            Some(Ok(local)) => Outcome::Done(
                match spec_freshness_warning(copy_path, local@) {
                    Some(w) => seq![err(w)],
                    None => Seq::empty(),
                },
            ),
        },
    }
}

/// Warns when the project's copy of the schema is not the bundled schema.
pub fn check_schema_freshness(copy_path: &str, env: &Observations) -> (r: Step<Vec<Line>>)
    ensures
        crate::cli::printed_view(r) == spec_check_freshness(*env, copy_path@),
{
    match env.path_exists(copy_path) {
        Err(q) => {
            return Step::Need(q);
        },
        Ok(false) => {
            return Step::Done(no_line());
        },
        Ok(true) => {},
    }
    match env.text_at(copy_path) {
        Err(q) => Step::Need(q),
        Ok(Err(_)) => Step::Done(no_line()),
        Ok(Ok(local)) => match freshness_warning(copy_path, local.as_str()) {
            Some(w) => Step::Done(one_err(w)),
            None => Step::Done(no_line()),
        },
    }
}

/// The directory that is validated when none is named.
pub open spec fn default_target() -> Seq<char> {
    ".notarai"@
}

/// The files to validate for `target`: the sorted spec files below it when
/// it is a directory, itself when it is a file; a target that is neither is
/// an error.
pub open spec fn spec_targets(env: Observations, target: Seq<char>) -> Outcome<
    Result<Seq<Seq<char>>, Printed>,
> {
    match env.spec_is_dir(target) {
        None => Outcome::Need(RequestView::IsDir { path: target }),
        Some(true) => match env.spec_files_below(target) {
            None => Outcome::Need(RequestView::FilesBelow { path: target }),
            Some(all) => Outcome::Done(Ok(sort_texts(spec_file_paths(texts(all@))))),
        },
        Some(false) => match env.spec_is_file(target) {
            None => Outcome::Need(RequestView::IsFile { path: target }),
            Some(true) => Outcome::Done(Ok(seq![target])),
            Some(false) => Outcome::Done(Err(seq![err("Error: path not found: "@ + target)])),
        },
    }
}

/// Finds the files to validate for `target`.
pub fn targets(target: &str, env: &Observations) -> (r: Step<Result<Vec<String>, Vec<Line>>>)
    ensures
        match r {
            Step::Need(q) => spec_targets(*env, target@) == Outcome::<
                Result<Seq<Seq<char>>, Printed>,
            >::Need(q@),
            Step::Done(Ok(files)) => spec_targets(*env, target@) == Outcome::Done(
                Ok::<Seq<Seq<char>>, Printed>(texts(files@)),
            ),
            Step::Done(Err(lines)) => spec_targets(*env, target@) == Outcome::Done(
                Err::<Seq<Seq<char>>, Printed>(lines_view(lines@)),
            ),
        },
{
    match env.is_dir(target) {
        Err(q) => {
            return Step::Need(q);
        },
        Ok(true) => {
            return match env.files_below(target) {
                Err(q) => Step::Need(q),
                Ok(all) => Step::Done(Ok(find_spec_files(all))),
            };
        },
        Ok(false) => {},
    }
    match env.is_file(target) {
        Err(q) => Step::Need(q),
        Ok(true) => {
            let mut files: Vec<String> = Vec::new();
            files.push(owned(target));
            assert(texts(files@) =~= seq![target@]);
            Step::Done(Ok(files))
        },
        Ok(false) => Step::Done(Err(one_err(concat("Error: path not found: ", target)))),
    }
}

/// What is printed about `file`, given what reading it gave and the verdict
/// on its content.
pub open spec fn report_lines(
    file: Seq<char>,
    read: Result<String, String>,
    verdict: ValidationResult,
) -> Seq<Seq<char>> {
    match read {
        Err(e) => unreadable_lines(file, e@),
        Ok(_) => verdict_lines(file, verdict.valid, texts(verdict.errors@)),
    }
}

/// True when `file` fails: it cannot be read, or its content is not valid.
pub open spec fn fails(read: Result<String, String>, verdict: ValidationResult) -> bool {
    read is Err || !verdict.valid
}

/// What is printed about `files`, file after file.
pub open spec fn all_report_lines(
    files: Seq<Seq<char>>,
    reads: Seq<Result<String, String>>,
    verdicts: Seq<ValidationResult>,
) -> Seq<Seq<char>>
    decreases files.len(),
{
    if files.len() == 0 {
        Seq::empty()
    } else {
        all_report_lines(files.drop_last(), reads.drop_last(), verdicts.drop_last())
            + report_lines(files.last(), reads.last(), verdicts.last())
    }
}

/// True when one of `files` fails.
pub open spec fn any_fails(
    reads: Seq<Result<String, String>>,
    verdicts: Seq<ValidationResult>,
) -> bool
    decreases reads.len(),
{
    if reads.len() == 0 {
        false
    } else {
        any_fails(reads.drop_last(), verdicts.drop_last()) || fails(reads.last(), verdicts.last())
    }
}

/// The exit code of `validate`: 1 when a file failed, else 0.
pub open spec fn spec_exit_code(any_failed: bool) -> i32 {
    if any_failed {
        1
    } else {
        0
    }
}

/// Reports on `files`, given what reading each gave and the verdict on each
/// one's content: every file is reported as passing or failing, and the
/// command fails when one file does.
pub fn reports(
    files: &Vec<String>,
    reads: &Vec<Result<String, String>>,
    verdicts: &Vec<ValidationResult>,
) -> (r: (Vec<String>, bool))
    requires
        reads@.len() == files@.len(),
        verdicts@.len() == files@.len(),
    ensures
        texts(r.0@) == all_report_lines(texts(files@), reads@, verdicts@),
        r.1 == any_fails(reads@, verdicts@),
{
    let mut lines: Vec<String> = Vec::new();
    let mut failed = false;
    let mut i: usize = 0;
    assert(texts(files@).take(0) =~= Seq::<Seq<char>>::empty());
    assert(reads@.take(0) =~= Seq::<Result<String, String>>::empty());
    assert(texts(lines@) =~= Seq::<Seq<char>>::empty());
    while i < files.len()
        invariant
            i <= files.len(),
            reads@.len() == files@.len(),
            verdicts@.len() == files@.len(),
            texts(lines@) == all_report_lines(
                texts(files@).take(i as int),
                reads@.take(i as int),
                verdicts@.take(i as int),
            ),
            failed == any_fails(reads@.take(i as int), verdicts@.take(i as int)),
        decreases files.len() - i,
    {
        proof {
            let next = texts(files@).take(i + 1);
            assert(next.drop_last() =~= texts(files@).take(i as int));
            assert(next.last() == files@[i as int]@);
            let next_reads = reads@.take(i + 1);
            assert(next_reads.drop_last() =~= reads@.take(i as int));
            assert(next_reads.last() == reads@[i as int]);
            let next_verdicts = verdicts@.take(i + 1);
            assert(next_verdicts.drop_last() =~= verdicts@.take(i as int));
            assert(next_verdicts.last() == verdicts@[i as int]);
        }
        let report = match &reads[i] {
            Err(e) => {
                let mut out: Vec<String> = Vec::new();
                out.push(concat("FAIL ", files[i].as_str()));
                out.push(concat("  Could not read file: ", e.as_str()));
                assert(texts(out@) =~= unreadable_lines(files@[i as int]@, e@));
                FileReport { lines: out, failed: true }
            },
            Ok(_) => verdict_report(files[i].as_str(), &verdicts[i]),
        };
        let ghost before = lines@;
        let ghost added = texts(report.lines@);
        let mut more = report.lines;
        lines.append(&mut more);
        assert(texts(lines@) =~= texts(before) + added);
        if report.failed {
            failed = true;
        }
        i += 1;
    }
    assert(texts(files@).take(files.len() as int) =~= texts(files@));
    assert(reads@.take(files.len() as int) =~= reads@);
    assert(verdicts@.take(files.len() as int) =~= verdicts@);
    (lines, failed)
}

/// What `validate` comes to, given the verdicts on the files that it reads.
pub open spec fn spec_run(
    env: Observations,
    path: Option<Seq<char>>,
    copy_path: Seq<char>,
    verdicts: Seq<ValidationResult>,
) -> Outcome<CliView> {
    let target = match path {
        Some(p) => p,
        None => default_target(),
    };
    match spec_check_freshness(env, copy_path) {
        Outcome::Need(q) => Outcome::Need(q),
        Outcome::Done(warned) => match spec_targets(env, target) {
            Outcome::Need(q) => Outcome::Need(q),
            Outcome::Done(Err(lines)) => Outcome::Done(ended(1, warned + lines)),
            Outcome::Done(Ok(files)) => if files.len() == 0 {
                Outcome::Done(
                    ended(
                        0,
                        warned + seq![err("Warning: no .spec.yaml files found in "@ + target)],
                    ),
                )
            } else {
                match env.spec_texts(files) {
                    None => Outcome::Need(RequestView::ReadTexts { paths: files }),
                    Some(reads) => Outcome::Done(
                        ended(
                            spec_exit_code(any_fails(reads, verdicts)),
                            warned + outs(all_report_lines(files, reads, verdicts)),
                        ),
                    ),
                }
            },
        },
    }
}

/// True when `verdicts` holds, for each file that `validate` reads, a
/// verdict that validating the file's content can come to.
pub open spec fn verdicts_fit(
    reads: Seq<Result<String, String>>,
    verdicts: Seq<ValidationResult>,
) -> bool {
    &&& verdicts.len() == reads.len()
    &&& forall|i: int|
        0 <= i < reads.len() ==> ((#[trigger] reads[i]) matches Ok(content) ==> verdict_on(
            content@,
            verdicts[i],
        ))
}

/// The reads that `validate` validates, once it has them.
pub open spec fn spec_reads(
    env: Observations,
    path: Option<Seq<char>>,
    copy_path: Seq<char>,
) -> Option<Seq<Result<String, String>>> {
    let target = match path {
        Some(p) => p,
        None => default_target(),
    };
    match spec_check_freshness(env, copy_path) {
        Outcome::Done(_) => match spec_targets(env, target) {
            Outcome::Done(Ok(files)) => if files.len() == 0 {
                None
            } else {
                env.spec_texts(files)
            },
            _ => None,
        },
        _ => None,
    }
}

/// True when `outcome` is what `validate` comes to for the verdicts
/// `verdicts`, and the verdicts are such as validating can come to.
pub open spec fn comes_to(
    env: Observations,
    path: Option<Seq<char>>,
    copy_path: Seq<char>,
    outcome: Outcome<CliView>,
    verdicts: Seq<ValidationResult>,
) -> bool {
    &&& spec_reads(env, path, copy_path) matches Some(reads) ==> verdicts_fit(reads, verdicts)
    &&& outcome == spec_run(env, path, copy_path, verdicts)
}

/// The text of a path that may be missing.
pub open spec fn path_text(path: Option<&str>) -> Option<Seq<char>> {
    match path {
        Some(p) => Some(p@),
        None => None,
    }
}

fn judge(reads: &Vec<Result<String, String>>) -> (verdicts: Vec<ValidationResult>)
    ensures
        verdicts_fit(reads@, verdicts@),
{
    let mut verdicts: Vec<ValidationResult> = Vec::new();
    let mut i: usize = 0;
    while i < reads.len()
        invariant
            i <= reads.len(),
            verdicts@.len() == i,
            forall|j: int|
                0 <= j < i ==> ((#[trigger] reads@[j]) matches Ok(content) ==> verdict_on(
                    content@,
                    verdicts@[j],
                )),
        decreases reads.len() - i,
    {
        let verdict = match &reads[i] {
            Ok(content) => validate_spec(content.as_str()),
            Err(e) => rejected(e.clone()),
        };
        verdicts.push(verdict);
        i += 1;
    }
    verdicts
}

/// Validates the spec files at `path`, or those of the specs directory when
/// no path is given: a directory stands for the spec files below it, in
/// order; a file for itself. Each file is reported as `PASS` or as `FAIL`
/// with the reasons, and the command fails when one file does, or when the
/// path does not exist. A directory without spec files is warned about and
/// fails nothing. Before anything else the project's copy of the schema, at
/// `copy_path`, is checked against the bundled schema.
pub fn run(path: Option<&str>, copy_path: &str, env: &Observations) -> (r: Step<CliOutput>)
    ensures
        exists|verdicts: Seq<ValidationResult>| #[trigger]
            comes_to(*env, path_text(path), copy_path@, cli_view(r), verdicts),
{
    let ghost none = Seq::<ValidationResult>::empty();
    let target = match path {
        Some(p) => p,
        None => ".notarai",
    };
    let mut printed = match check_schema_freshness(copy_path, env) {
        Step::Need(q) => {
            let r = Step::<CliOutput>::Need(q);
            assert(comes_to(*env, path_text(path), copy_path@, cli_view(r), none));
            return r;
        },
        Step::Done(warned) => warned,
    };
    let ghost warned = lines_view(printed@);
    let files = match targets(target, env) {
        Step::Need(q) => {
            let r = Step::<CliOutput>::Need(q);
            assert(comes_to(*env, path_text(path), copy_path@, cli_view(r), none));
            return r;
        },
        Step::Done(Err(lines)) => {
            let ghost more = lines_view(lines@);
            let mut lines = lines;
            printed.append(&mut lines);
            assert(lines_view(printed@) =~= warned + more);
            let r = finish(1, printed);
            assert(comes_to(*env, path_text(path), copy_path@, cli_view(r), none));
            return r;
        },
        Step::Done(Ok(files)) => files,
    };
    if files.len() == 0 {
        complain(&mut printed, concat("Warning: no .spec.yaml files found in ", target));
        assert(lines_view(printed@) =~= warned + seq![
            err("Warning: no .spec.yaml files found in "@ + target@),
        ]);
        let r = finish(0, printed);
        assert(comes_to(*env, path_text(path), copy_path@, cli_view(r), none));
        return r;
    }
    let reads = match env.texts_for(&files) {
        Ok(reads) => reads,
        Err(q) => {
            let r = Step::<CliOutput>::Need(q);
            assert(comes_to(*env, path_text(path), copy_path@, cli_view(r), none));
            return r;
        },
    };
    let verdicts = judge(reads);
    let (lines, failed) = reports(&files, reads, &verdicts);
    say_all(&mut printed, &lines);
    let code = exit_code(failed);
    let r = finish(code, printed);
    assert(comes_to(*env, path_text(path), copy_path@, cli_view(r), verdicts@));
    r
}

} // verus!
