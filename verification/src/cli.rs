//! What a command of the command line comes to: the lines it prints and the
//! code it exits with.

use vstd::prelude::*;
use crate::env::{Observations, Outcome, RequestView, Step};
use crate::text::{concat, owned, texts};

verus! {

/// One printed line.
pub struct Line {
    /// Whether the line goes to standard error rather than standard output.
    pub to_stderr: bool,
    /// The line, without its line feed.
    pub text: String,
}

/// What a command printed, in order, and its exit code.
pub struct CliOutput {
    pub exit_code: i32,
    pub lines: Vec<Line>,
}

/// A `CliOutput` over plain values: each line with whether it goes to
/// standard error.
pub struct CliView {
    pub exit_code: i32,
    pub lines: Seq<(bool, Seq<char>)>,
}

/// The lines of `lines` as plain values.
pub open spec fn lines_view(lines: Seq<Line>) -> Seq<(bool, Seq<char>)> {
    Seq::new(lines.len(), |i: int| (lines[i].to_stderr, lines[i].text@))
}

impl View for CliOutput {
    type V = CliView;

    open spec fn view(&self) -> CliView {
        CliView { exit_code: self.exit_code, lines: lines_view(self.lines@) }
    }
}

/// What was printed: each line with whether it went to standard error.
pub type Printed = Seq<(bool, Seq<char>)>;

/// What two steps print when the second follows the first: the lines of
/// both, once neither has anything left to ask.
pub open spec fn then(first: Outcome<Printed>, second: Outcome<Printed>) -> Outcome<Printed> {
    match first {
        Outcome::Need(q) => Outcome::Need(q),
        Outcome::Done(a) => match second {
            Outcome::Need(q) => Outcome::Need(q),
            Outcome::Done(b) => Outcome::Done(a + b),
        },
    }
}

/// A step of a command that prints lines, seen as plain values.
pub open spec fn printed_view(r: Step<Vec<Line>>) -> Outcome<Printed> {
    match r {
        Step::Need(q) => Outcome::Need(q@),
        Step::Done(lines) => Outcome::Done(lines_view(lines@)),
    }
}

/// A line on standard output.
pub open spec fn out(text: Seq<char>) -> (bool, Seq<char>) {
    (false, text)
}

/// A line on standard error.
pub open spec fn err(text: Seq<char>) -> (bool, Seq<char>) {
    (true, text)
}

/// Lines on standard output.
pub open spec fn outs(lines: Seq<Seq<char>>) -> Seq<(bool, Seq<char>)> {
    Seq::new(lines.len(), |i: int| (false, lines[i]))
}

/// Lines on standard error.
pub open spec fn errs(lines: Seq<Seq<char>>) -> Seq<(bool, Seq<char>)> {
    Seq::new(lines.len(), |i: int| (true, lines[i]))
}

/// A command that printed `lines` and exits with `exit_code`.
pub open spec fn ended(exit_code: i32, lines: Seq<(bool, Seq<char>)>) -> CliView {
    CliView { exit_code, lines }
}

/// A step of a command, seen as plain values.
pub open spec fn cli_view(r: Step<CliOutput>) -> Outcome<CliView> {
    match r {
        Step::Need(q) => Outcome::Need(q@),
        Step::Done(o) => Outcome::Done(o@),
    }
}

/// Prints `text` on standard output.
pub fn say(lines: &mut Vec<Line>, text: String)
    ensures
        lines_view(final(lines)@) == lines_view(old(lines)@).push(out(text@)),
{
    lines.push(Line { to_stderr: false, text });
    assert(lines_view(lines@) =~= lines_view(old(lines)@).push(out(text@)));
}

/// Prints `text` on standard error.
pub fn complain(lines: &mut Vec<Line>, text: String)
    ensures
        lines_view(final(lines)@) == lines_view(old(lines)@).push(err(text@)),
{
    lines.push(Line { to_stderr: true, text });
    assert(lines_view(lines@) =~= lines_view(old(lines)@).push(err(text@)));
}

/// Prints each of `more` on standard output.
pub fn say_all(lines: &mut Vec<Line>, more: &Vec<String>)
    ensures
        lines_view(final(lines)@) == lines_view(old(lines)@) + outs(texts(more@)),
{
    let mut i: usize = 0;
    assert(lines_view(lines@) =~= lines_view(old(lines)@) + outs(texts(more@).take(0)));
    while i < more.len()
        invariant
            i <= more.len(),
            lines_view(lines@) == lines_view(old(lines)@) + outs(texts(more@).take(i as int)),
        decreases more.len() - i,
    {
        let ghost before = lines@;
        lines.push(Line { to_stderr: false, text: more[i].clone() });
        assert(lines_view(lines@) =~= lines_view(before).push(out(more@[i as int]@)));
        assert(outs(texts(more@).take(i + 1)) =~= outs(texts(more@).take(i as int)).push(
            out(more@[i as int]@),
        ));
        i += 1;
    }
    assert(texts(more@).take(more.len() as int) =~= texts(more@));
}

/// Prints each of `more` on standard error.
pub fn complain_all(lines: &mut Vec<Line>, more: &Vec<String>)
    ensures
        lines_view(final(lines)@) == lines_view(old(lines)@) + errs(texts(more@)),
{
    let mut i: usize = 0;
    assert(lines_view(lines@) =~= lines_view(old(lines)@) + errs(texts(more@).take(0)));
    while i < more.len()
        invariant
            i <= more.len(),
            lines_view(lines@) == lines_view(old(lines)@) + errs(texts(more@).take(i as int)),
        decreases more.len() - i,
    {
        let ghost before = lines@;
        lines.push(Line { to_stderr: true, text: more[i].clone() });
        assert(lines_view(lines@) =~= lines_view(before).push(err(more@[i as int]@)));
        assert(errs(texts(more@).take(i + 1)) =~= errs(texts(more@).take(i as int)).push(
            err(more@[i as int]@),
        ));
        i += 1;
    }
    assert(texts(more@).take(more.len() as int) =~= texts(more@));
}

/// One line on standard output.
pub fn one_out(text: String) -> (r: Vec<Line>)
    ensures
        lines_view(r@) == seq![out(text@)],
{
    let mut r: Vec<Line> = Vec::new();
    r.push(Line { to_stderr: false, text });
    assert(lines_view(r@) =~= seq![out(text@)]);
    r
}

/// One line on standard error.
pub fn one_err(text: String) -> (r: Vec<Line>)
    ensures
        lines_view(r@) == seq![err(text@)],
{
    let mut r: Vec<Line> = Vec::new();
    r.push(Line { to_stderr: true, text });
    assert(lines_view(r@) =~= seq![err(text@)]);
    r
}

/// No line.
pub fn no_line() -> (r: Vec<Line>)
    ensures
        lines_view(r@) == Seq::<(bool, Seq<char>)>::empty(),
{
    let r: Vec<Line> = Vec::new();
    assert(lines_view(r@) =~= Seq::<(bool, Seq<char>)>::empty());
    r
}

/// True when one of `lines` went to standard error.
pub open spec fn any_complaint(lines: Printed) -> bool {
    exists|i: int| 0 <= i < lines.len() && (#[trigger] lines[i]).0
}

/// Tells whether something was printed on standard error.
pub fn complained(lines: &Vec<Line>) -> (b: bool)
    ensures
        b == any_complaint(lines_view(lines@)),
{
    let mut i: usize = 0;
    while i < lines.len()
        invariant
            i <= lines.len(),
            forall|j: int| 0 <= j < i ==> !(#[trigger] lines_view(lines@)[j]).0,
        decreases lines.len() - i,
    {
        if lines[i].to_stderr {
            assert(lines_view(lines@)[i as int].0);
            return true;
        }
        i += 1;
    }
    false
}

/// Ends a command.
pub fn finish(exit_code: i32, lines: Vec<Line>) -> (r: Step<CliOutput>)
    ensures
        cli_view(r) == Outcome::Done(ended(exit_code, lines_view(lines@))),
{
    Step::Done(CliOutput { exit_code, lines })
}

/// What writing `content` to the file at `path` prints: `done` when the
/// file was written, else `warning` followed by the reason.
pub open spec fn spec_write_step(
    env: Observations,
    path: Seq<char>,
    content: Seq<char>,
    warning: Seq<char>,
    done: Seq<char>,
) -> Outcome<Printed> {
    match env.spec_written(path, content) {
        None => Outcome::Need(RequestView::WriteText { path, content }),
        Some(Err(e)) => Outcome::Done(seq![err(warning + e@)]),
        Some(Ok(_)) => Outcome::Done(seq![out(done)]),
    }
}

/// Writes `content` to the file at `path` and reports how that went. A file
/// that cannot be written is warned about and stops nothing.
pub fn write_step(path: &str, content: &str, warning: &str, done: &str, env: &Observations) -> (r:
    Step<Vec<Line>>)
    ensures
        printed_view(r) == spec_write_step(*env, path@, content@, warning@, done@),
{
    match env.written(path, content) {
        Err(q) => Step::Need(q),
        Ok(Err(e)) => Step::Done(one_err(concat(warning, e.as_str()))),
        Ok(Ok(_)) => Step::Done(one_out(owned(done))),
    }
}

/// What making sure that the directory at `path` exists comes to: `None`
/// when it exists or was made, else the reason why it could not be made.
pub open spec fn spec_ensure_dir(env: Observations, path: Seq<char>) -> Outcome<Option<Seq<char>>> {
    match env.spec_exists(path) {
        None => Outcome::Need(RequestView::PathExists { path }),
        Some(true) => Outcome::Done(None),
        Some(false) => match env.spec_created(path) {
            None => Outcome::Need(RequestView::CreateDirs { path }),
            Some(Ok(_)) => Outcome::Done(None),
            Some(Err(e)) => Outcome::Done(Some(e@)),
        },
    }
}

/// Makes sure that the directory at `path` exists. Returns why it could not
/// be made, if it could not.
pub fn ensure_dir(path: &str, env: &Observations) -> (r: Step<Option<String>>)
    ensures
        match r {
            Step::Need(q) => spec_ensure_dir(*env, path@) == Outcome::<Option<Seq<char>>>::Need(
                q@,
            ),
            Step::Done(Some(e)) => spec_ensure_dir(*env, path@) == Outcome::Done(Some(e@)),
            Step::Done(None) => spec_ensure_dir(*env, path@) == Outcome::Done(
                None::<Seq<char>>,
            ),
        },
{
    match env.path_exists(path) {
        Err(q) => {
            return Step::Need(q);
        },
        Ok(true) => {
            return Step::Done(None);
        },
        Ok(false) => {},
    }
    match env.created(path) {
        Err(q) => Step::Need(q),
        Ok(Ok(_)) => Step::Done(None),
        Ok(Err(e)) => Step::Done(Some(e.clone())),
    }
}

} // verus!
