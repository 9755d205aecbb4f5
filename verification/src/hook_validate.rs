//! The hook that validates a spec file right after the assistant wrote it.

use vstd::prelude::*;
use crate::cli::{
    cli_view, complain, ended, err, finish, lines_view, no_line, CliOutput, CliView, Line, Printed,
};
use crate::env::{Observations, Outcome, RequestView, Step};
use crate::json::{json_document, parse_json_text, JsonValue};
use crate::paths::{is_spec_file as names_spec_file, spec_is_spec_file, spec_strip_root, strip_root};
use crate::text::{concat, option_text, owned, texts};
use crate::validator::{validate_spec, verdict_on, ValidationResult};

verus! {

/// What the hook reports.
pub struct HookResult {
    /// 0 to let the write pass, 1 to flag it.
    pub exit_code: i32,
    /// Why the file is not a valid spec; empty when it passes.
    pub errors: Vec<String>,
    /// The spec file that was looked at, if the hook got that far.
    pub file_path: Option<String>,
}

/// A `HookResult` over plain values.
pub struct HookView {
    pub exit_code: i32,
    pub errors: Seq<Seq<char>>,
    pub file_path: Option<Seq<char>>,
}

impl View for HookResult {
    type V = HookView;

    open spec fn view(&self) -> HookView {
        HookView {
            exit_code: self.exit_code,
            errors: texts(self.errors@),
            file_path: option_text(self.file_path),
        }
    }
}

/// The report that lets the write of `file_path` pass.
pub open spec fn passing(file_path: Option<Seq<char>>) -> HookView {
    HookView { exit_code: 0, errors: Seq::empty(), file_path }
}

/// The report on the spec file at `file_path`, given the verdict on its
/// content.
pub open spec fn spec_hook_verdict(file_path: Seq<char>, verdict: ValidationResult) -> HookView {
    if verdict.valid {
        passing(Some(file_path))
    } else {
        HookView { exit_code: 1, errors: texts(verdict.errors@), file_path: Some(file_path) }
    }
}

/// True when `held` is the path `path`.
pub open spec fn names(held: Option<String>, path: Seq<char>) -> bool {
    held matches Some(p) && p@ == path
}

/// `file_path` relative to `base`, if it lies below it.
pub fn pathdiff(file_path: &str, base: &str) -> (r: Result<String, ()>)
    ensures
        match r {
            Ok(rel) => spec_strip_root(file_path@, base@) == Some(rel@),
            Err(_) => spec_strip_root(file_path@, base@) is None,
        },
{
    match strip_root(file_path, base) {
        Some(rel) => Ok(rel),
        None => Err(()),
    }
}

/// True when `file_path` lies below `cwd` and, seen from there, names a spec
/// file.
pub open spec fn spec_hook_is_spec_file(file_path: Seq<char>, cwd: Seq<char>) -> bool {
    match spec_strip_root(file_path, cwd) {
        Some(rel) => spec_is_spec_file(rel),
        None => false,
    }
}

/// Tells whether `file_path` names a spec file of the project at `cwd`.
pub fn is_spec_file(file_path: &str, cwd: &str) -> (b: bool)
    ensures
        b == spec_hook_is_spec_file(file_path@, cwd@),
{
    match pathdiff(file_path, cwd) {
        Ok(rel) => names_spec_file(rel.as_str()),
        Err(_) => false,
    }
}

/// The path that a hook payload names: the string at `tool_input.file_path`.
pub open spec fn payload_path(payload: JsonValue) -> Option<Seq<char>> {
    match payload.spec_get("tool_input"@) {
        Some(tool_input) => tool_input.spec_get_str("file_path"@),
        None => None,
    }
}

/// The spec file that `payload` asks the hook to validate: none when the
/// payload names no file, or a file that is not a spec file of the project
/// at `cwd`.
pub open spec fn payload_target(payload: JsonValue, cwd: Seq<char>) -> Option<Seq<char>> {
    match payload_path(payload) {
        Some(file_path) => if spec_hook_is_spec_file(file_path, cwd) {
            Some(file_path)
        } else {
            None
        },
        None => None,
    }
}

/// The spec file that the hook has to validate for `input`: none when the
/// input is not JSON, and else what its payload asks for.
pub open spec fn hook_target(input: Seq<char>, cwd: Seq<char>) -> Option<Seq<char>> {
    match json_document(input) {
        Ok(payload) => payload_target(payload, cwd),
        Err(_) => None,
    }
}

/// The spec file that `payload` asks the hook to validate.
pub fn target_in(payload: &JsonValue, cwd: &str) -> (r: Option<String>)
    ensures
        match r {
            Some(p) => payload_target(*payload, cwd@) == Some(p@),
            None => payload_target(*payload, cwd@) is None,
        },
{
    let file_path = match payload.get("tool_input") {
        Some(tool_input) => match tool_input.get_str("file_path") {
            Some(p) => p,
            None => {
                return None;
            },
        },
        None => {
            return None;
        },
    };
    if is_spec_file(file_path, cwd) {
        Some(owned(file_path))
    } else {
        None
    }
}

/// The file that `input` asks the hook to validate.
pub fn target_of(input: &str, cwd: &str) -> (r: Option<String>)
    ensures
        match r {
            Some(p) => hook_target(input@, cwd@) == Some(p@),
            None => hook_target(input@, cwd@) is None,
        },
{
    match parse_json_text(input) {
        Ok(payload) => target_in(&payload, cwd),
        Err(_) => None,
    }
}

/// The report that lets a write pass.
pub fn pass(file_path: Option<String>) -> (r: HookResult)
    ensures
        r@ == passing(option_text(file_path)),
{
    let r = HookResult { exit_code: 0, errors: Vec::new(), file_path };
    assert(texts(r.errors@) =~= Seq::<Seq<char>>::empty());
    r
}

/// The hook's report on the spec file at `file_path`, given the verdict on
/// its content: a valid spec passes, an invalid one is flagged with the
/// verdict's errors.
pub fn hook_verdict(file_path: String, verdict: ValidationResult) -> (r: HookResult)
    ensures
        r@ == spec_hook_verdict(file_path@, verdict),
{
    if verdict.valid {
        pass(Some(file_path))
    } else {
        HookResult { exit_code: 1, errors: verdict.errors, file_path: Some(file_path) }
    }
}

/// What one hook call comes to, given the verdict on the content of the file
/// that it validates.
pub open spec fn spec_process_hook_input(
    env: Observations,
    input: Seq<char>,
    cwd: Seq<char>,
    verdict: ValidationResult,
) -> Outcome<HookView> {
    match hook_target(input, cwd) {
        None => Outcome::Done(passing(None)),
        Some(file_path) => match env.spec_text(file_path) {
            None => Outcome::Need(RequestView::ReadTexts { paths: seq![file_path] }),
            Some(Err(_)) => Outcome::Done(passing(Some(file_path))),
            Some(Ok(_)) => Outcome::Done(spec_hook_verdict(file_path, verdict)),
        },
    }
}

/// The content that a hook call validates, once it has it.
pub open spec fn hook_content(env: Observations, input: Seq<char>, cwd: Seq<char>) -> Option<
    Seq<char>,
> {
    match hook_target(input, cwd) {
        Some(file_path) => match env.spec_text(file_path) {
            Some(Ok(content)) => Some(content@),
            _ => None,
        },
        None => None,
    }
}

/// A step of the hook, seen as plain values.
pub open spec fn hook_view(r: Step<HookResult>) -> Outcome<HookView> {
    match r {
        Step::Need(q) => Outcome::Need(q@),
        Step::Done(h) => Outcome::Done(h@),
    }
}

/// True when `outcome` is what a hook call comes to for the verdict
/// `verdict`, and the verdict is such as validating the file can come to.
pub open spec fn comes_to(
    env: Observations,
    input: Seq<char>,
    cwd: Seq<char>,
    outcome: Outcome<HookView>,
    verdict: ValidationResult,
) -> bool {
    &&& hook_content(env, input, cwd) matches Some(content) ==> verdict_on(content, verdict)
    &&& outcome == spec_process_hook_input(env, input, cwd, verdict)
}

/// Handles one hook call. `input` is the JSON payload that describes what the
/// assistant wrote; `cwd` is the project's root.
///
/// The hook never stands in the way of a write it does not understand: input
/// that is not JSON or names no file, a file that is not a spec file of the
/// project, and a spec file that cannot be read all pass with exit code 0.
/// A spec file that can be read is validated, and flagged with exit code 1
/// and the validation errors when it is not valid.
pub fn process_hook_input(input: &str, cwd: &str, env: &Observations) -> (r: Step<HookResult>)
    ensures
        exists|verdict: ValidationResult| #[trigger]
            comes_to(*env, input@, cwd@, hook_view(r), verdict),
{
    let ghost any: ValidationResult = vstd::pervasive::arbitrary();
    let file_path = match target_of(input, cwd) {
        Some(p) => p,
        None => {
            let r = Step::Done(pass(None));
            assert(comes_to(*env, input@, cwd@, hook_view(r), any));
            return r;
        },
    };
    let content = match env.text_at(file_path.as_str()) {
        Err(q) => {
            let r = Step::<HookResult>::Need(q);
            assert(comes_to(*env, input@, cwd@, hook_view(r), any));
            return r;
        },
        Ok(Err(_)) => {
            let r = Step::Done(pass(Some(file_path)));
            assert(comes_to(*env, input@, cwd@, hook_view(r), any));
            return r;
        },
        Ok(Ok(content)) => content,
    };
    let verdict = validate_spec(content.as_str());
    let r = Step::Done(hook_verdict(file_path, verdict));
    assert(comes_to(*env, input@, cwd@, hook_view(r), verdict));
    r
}

/// The complaints about `errors`, each indented by two spaces.
pub open spec fn indented_complaints(errors: Seq<Seq<char>>) -> Printed {
    Seq::new(errors.len(), |i: int| err("  "@ + errors[i]))
}

/// What the hook prints for `result`: nothing when the write passes; else, on
/// standard error, the file that failed, if it is known, and the errors.
pub open spec fn spec_hook_report(result: HookView) -> Printed {
    if result.exit_code == 0 {
        Seq::empty()
    } else {
        (match result.file_path {
            Some(path) => seq![err("Spec validation failed: "@ + path)],
            None => Seq::empty(),
        }) + indented_complaints(result.errors)
    }
}

/// The lines that the hook prints for `result`.
pub fn hook_report(result: &HookResult) -> (r: Vec<Line>)
    ensures
        lines_view(r@) == spec_hook_report(result@),
{
    let mut printed: Vec<Line> = Vec::new();
    assert(lines_view(printed@) =~= Seq::<(bool, Seq<char>)>::empty());
    if result.exit_code == 0 {
        return printed;
    }
    match &result.file_path {
        Some(path) => {
            complain(&mut printed, concat("Spec validation failed: ", path.as_str()));
        },
        None => {},
    }
    let ghost head = lines_view(printed@);
    assert(head + indented_complaints(texts(result.errors@).take(0)) =~= head);
    let mut i: usize = 0;
    while i < result.errors.len()
        invariant
            i <= result.errors.len(),
            lines_view(printed@) == head + indented_complaints(
                texts(result.errors@).take(i as int),
            ),
        decreases result.errors.len() - i,
    {
        let ghost before = lines_view(printed@);
        complain(&mut printed, concat("  ", result.errors[i].as_str()));
        assert(indented_complaints(texts(result.errors@).take(i + 1)) =~= indented_complaints(
            texts(result.errors@).take(i as int),
        ).push(err("  "@ + result.errors@[i as int]@)));
        assert(lines_view(printed@) =~= head + indented_complaints(
            texts(result.errors@).take(i + 1),
        ));
        i += 1;
    }
    assert(texts(result.errors@).take(result.errors.len() as int) =~= texts(result.errors@));
    printed
}

/// What running the hook comes to, given the verdict on the content of the
/// file that it validates: the hook's exit code and, on standard error, its
/// findings. Input that cannot be read lets the write pass.
pub open spec fn spec_run(env: Observations, cwd: Seq<char>, verdict: ValidationResult) -> Outcome<
    CliView,
> {
    match env.spec_input() {
        None => Outcome::Need(RequestView::ReadInput),
        Some(Err(_)) => Outcome::Done(ended(0, Seq::empty())),
        Some(Ok(input)) => match spec_process_hook_input(env, input@, cwd, verdict) {
            Outcome::Need(q) => Outcome::Need(q),
            Outcome::Done(h) => Outcome::Done(ended(h.exit_code, spec_hook_report(h))),
        },
    }
}

/// True when `outcome` is what running the hook comes to for the verdict
/// `verdict`, and the verdict is such as validating the file can come to.
pub open spec fn run_comes_to(
    env: Observations,
    cwd: Seq<char>,
    outcome: Outcome<CliView>,
    verdict: ValidationResult,
) -> bool {
    &&& env.spec_input() matches Some(Ok(input)) ==> (hook_content(env, input@, cwd) matches Some(
        content,
    ) ==> verdict_on(content, verdict))
    &&& outcome == spec_run(env, cwd, verdict)
}

/// Runs the hook in the project at `cwd`: the payload is read from standard
/// input and handled, and the findings are printed.
pub fn run(cwd: &str, env: &Observations) -> (r: Step<CliOutput>)
    ensures
        exists|verdict: ValidationResult| #[trigger] run_comes_to(*env, cwd@, cli_view(r), verdict),
{
    let ghost any: ValidationResult = vstd::pervasive::arbitrary();
    let input = match env.input() {
        Err(q) => {
            let r = Step::<CliOutput>::Need(q);
            assert(run_comes_to(*env, cwd@, cli_view(r), any));
            return r;
        },
        Ok(Err(_)) => {
            let r = finish(0, no_line());
            assert(run_comes_to(*env, cwd@, cli_view(r), any));
            return r;
        },
        Ok(Ok(input)) => input,
    };
    let handled = process_hook_input(input.as_str(), cwd, env);
    let ghost verdict = choose|verdict: ValidationResult| #[trigger]
        comes_to(*env, input@, cwd@, hook_view(handled), verdict);
    match handled {
        Step::Need(q) => {
            let r = Step::<CliOutput>::Need(q);
            assert(run_comes_to(*env, cwd@, cli_view(r), verdict));
            r
        },
        Step::Done(h) => {
            let r = finish(h.exit_code, hook_report(&h));
            assert(run_comes_to(*env, cwd@, cli_view(r), verdict));
            r
        },
    }
}

} // verus!
