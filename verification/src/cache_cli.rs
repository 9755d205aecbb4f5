//! The `cache` subcommands of the command line: what they are and what
//! they print.

use vstd::prelude::*;
use vstd::string::StringExecFns;
use crate::cache::{
    check_changed, failure_message, newest_in, spec_check_changed, spec_failure_message,
    FileProbe, HashStore, Stored,
};
use crate::cli::{
    cli_view, complain, complain_all, ended, err, errs, finish, lines_view, out, outs, say,
    say_all, CliOutput, CliView, Line,
};
use crate::env::{Observations, Outcome, Request, RequestView, Step};
use crate::mcp_tools::{join_all, joined, mark_reconciled, spec_mark_reconciled};
use crate::paths::{db_path, join_path, spec_db_path, spec_join};
use crate::text::{
    blank, concat, concat3, decimal, decimal_text, is_blank, lines, owned, signed_decimal,
    signed_decimal_text, spec_lines, texts,
};

verus! {

/// What the `cache` subcommand is asked to do.
pub enum CacheAction {
    /// Hash files and update the cache.
    Update {
        /// The files to hash and cache; read from standard input when empty.
        paths: Vec<String>,
    },
    /// Print the paths that changed since the cache was last updated.
    Changed {
        /// The files to check; read from standard input when empty.
        paths: Vec<String>,
    },
    /// Delete the cache database.
    Clear,
    /// Show the state of the cache.
    Status,
}

/// The lines of `lines` that hold more than white space, in order.
pub open spec fn filled(lines: Seq<Seq<char>>) -> Seq<Seq<char>>
    decreases lines.len(),
{
    if lines.len() == 0 {
        Seq::empty()
    } else if is_blank(lines.last()) {
        filled(lines.drop_last())
    } else {
        filled(lines.drop_last()).push(lines.last())
    }
}

/// The paths that a subcommand works on: its arguments or, when it has
/// none, the lines of its standard input that are not blank.
pub open spec fn spec_collect_paths(args: Seq<Seq<char>>, input: Seq<Seq<char>>) -> Seq<Seq<char>> {
    if args.len() == 0 {
        filled(input)
    } else {
        args
    }
}

/// Chooses the paths that a subcommand works on. `input` holds the lines of
/// standard input; it is looked at only when there are no arguments.
pub fn collect_paths(args: Vec<String>, input: &Vec<String>) -> (r: Vec<String>)
    ensures
        texts(r@) == spec_collect_paths(texts(args@), texts(input@)),
{
    if args.len() > 0 {
        return args;
    }
    let mut out: Vec<String> = Vec::new();
    let mut i: usize = 0;
    assert(texts(input@).take(0) =~= Seq::<Seq<char>>::empty());
    assert(texts(out@) =~= Seq::<Seq<char>>::empty());
    while i < input.len()
        invariant
            i <= input.len(),
            texts(out@) == filled(texts(input@).take(i as int)),
        decreases input.len() - i,
    {
        proof {
            let next = texts(input@).take(i + 1);
            assert(next.drop_last() =~= texts(input@).take(i as int));
            assert(next.last() == input@[i as int]@);
        }
        if !blank(input[i].as_str()) {
            let ghost before = out@;
            out.push(input[i].clone());
            assert(texts(out@) =~= texts(before).push(input@[i as int]@));
        }
        i += 1;
    }
    assert(texts(input@).take(input.len() as int) =~= texts(input@));
    out
}

/// Where the path `p`, as given on the command line, lies: itself when it is
/// absolute, else below `cwd`. Links are not followed here.
pub fn resolve_path(p: &str, cwd: &str) -> (r: String)
    ensures
        r@ == spec_join(cwd@, p@),
{
    join_path(cwd, p)
}

/// What `cache status` prints for the store at `db_path`: that it is not
/// initialized, or how many entries it holds and, if it holds any, the
/// newest timestamp among them.
pub open spec fn spec_status_lines(db_path: Seq<char>, status: Option<(usize, Option<i64>)>) -> Seq<
    Seq<char>,
> {
    match status {
        None => seq!["Cache DB: "@ + db_path + " (not initialized)"@, "Entries: 0"@],
        Some((count, None)) => seq![
            "Cache DB: "@ + db_path,
            "Entries: "@ + decimal(count as nat),
        ],
        Some((count, Some(newest))) => seq![
            "Cache DB: "@ + db_path,
            "Entries: "@ + decimal(count as nat),
            "Newest: "@ + signed_decimal(newest as int),
        ],
    }
}

/// The lines that `cache status` prints. `status` is `None` when there is no
/// store yet.
pub fn status_lines(db_path: &str, status: Option<(usize, Option<i64>)>) -> (r: Vec<String>)
    ensures
        texts(r@) == spec_status_lines(db_path@, status),
{
    let mut out: Vec<String> = Vec::new();
    match status {
        None => {
            let mut first = concat("Cache DB: ", db_path);
            first.append(" (not initialized)");
            out.push(first);
            out.push(concat("Entries: ", "0"));
            proof {
                reveal_strlit("Entries: 0");
                reveal_strlit("Entries: ");
                reveal_strlit("0");
                assert("Entries: "@ + "0"@ =~= "Entries: 0"@);
            }
        },
        Some((count, newest)) => {
            out.push(concat("Cache DB: ", db_path));
            out.push(concat("Entries: ", decimal_text(count as u64).as_str()));
            match newest {
                Some(t) => {
                    out.push(concat("Newest: ", signed_decimal_text(t).as_str()));
                },
                None => {},
            }
        },
    }
    assert(texts(out@) =~= spec_status_lines(db_path@, status));
    out
}

/// What `cache status` comes to.
pub open spec fn spec_run_status(env: Observations, root: Seq<char>) -> Outcome<CliView> {
    let db = spec_db_path(root);
    match env.spec_exists(db) {
        None => Outcome::Need(RequestView::PathExists { path: db }),
        Some(false) => Outcome::Done(ended(0, outs(spec_status_lines(db, None)))),
        Some(true) => match env.spec_store(root) {
            None => Outcome::Need(RequestView::OpenStore { project_root: root }),
            Some(Err(f)) => Outcome::Done(
                ended(1, seq![err("Error: "@ + spec_failure_message(f))]),
            ),
            Some(Ok(store)) => Outcome::Done(
                ended(
                    0,
                    outs(
                        spec_status_lines(
                            db,
                            Some((store@.dom().len() as usize, newest_in(store@))),
                        ),
                    ),
                ),
            ),
        },
    }
}

/// Shows the state of the cache of the project at `root`: where it lies, how
/// many entries it holds and the newest timestamp among them. A project
/// without a cache is reported as such, and no cache is made for it.
pub fn run_status(root: &str, env: &Observations) -> (r: Step<CliOutput>)
    ensures
        cli_view(r) == spec_run_status(*env, root@),
{
    let db = db_path(root);
    let mut printed: Vec<Line> = Vec::new();
    assert(lines_view(printed@) =~= Seq::<(bool, Seq<char>)>::empty());
    match env.path_exists(db.as_str()) {
        Err(q) => {
            return Step::Need(q);
        },
        Ok(false) => {
            let report = status_lines(db.as_str(), None);
            say_all(&mut printed, &report);
            assert(lines_view(printed@) =~= outs(texts(report@)));
            return finish(0, printed);
        },
        Ok(true) => {},
    }
    match env.store_of(root) {
        Err(q) => Step::Need(q),
        Ok(Err(f)) => {
            complain(&mut printed, concat("Error: ", failure_message(f).as_str()));
            assert(lines_view(printed@) =~= seq![err("Error: "@ + spec_failure_message(*f))]);
            finish(1, printed)
        },
        Ok(Ok(store)) => {
            let report = status_lines(db.as_str(), Some(store.status()));
            say_all(&mut printed, &report);
            assert(lines_view(printed@) =~= outs(texts(report@)));
            finish(0, printed)
        },
    }
}

/// What `cache clear` comes to.
pub open spec fn spec_run_clear(env: Observations, root: Seq<char>) -> Outcome<CliView> {
    let db = spec_db_path(root);
    match env.spec_exists(db) {
        None => Outcome::Need(RequestView::PathExists { path: db }),
        Some(false) => Outcome::Done(ended(0, seq![out("Cache not initialized"@)])),
        Some(true) => match env.spec_removed(db) {
            None => Outcome::Need(RequestView::RemoveFile { path: db }),
            Some(Err(e)) => Outcome::Done(
                ended(1, seq![err("Error: could not delete cache DB: "@ + e@)]),
            ),
            Some(Ok(_)) => Outcome::Done(ended(0, seq![out("Cache cleared"@)])),
        },
    }
}

/// Deletes the cache of the project at `root`, if it has one.
pub fn run_clear(root: &str, env: &Observations) -> (r: Step<CliOutput>)
    ensures
        cli_view(r) == spec_run_clear(*env, root@),
{
    let db = db_path(root);
    let mut printed: Vec<Line> = Vec::new();
    assert(lines_view(printed@) =~= Seq::<(bool, Seq<char>)>::empty());
    match env.path_exists(db.as_str()) {
        Err(q) => {
            return Step::Need(q);
        },
        Ok(false) => {
            say(&mut printed, owned("Cache not initialized"));
            assert(lines_view(printed@) =~= seq![out("Cache not initialized"@)]);
            return finish(0, printed);
        },
        Ok(true) => {},
    }
    match env.removed(db.as_str()) {
        Err(q) => Step::Need(q),
        Ok(Err(e)) => {
            complain(&mut printed, concat("Error: could not delete cache DB: ", e.as_str()));
            assert(lines_view(printed@) =~= seq![
                err("Error: could not delete cache DB: "@ + e@),
            ]);
            finish(1, printed)
        },
        Ok(Ok(_)) => {
            say(&mut printed, owned("Cache cleared"));
            assert(lines_view(printed@) =~= seq![out("Cache cleared"@)]);
            finish(0, printed)
        },
    }
}

/// The paths that a subcommand with the arguments `args` works on, once
/// standard input was read where it is needed. Input that cannot be read
/// holds no path.
pub open spec fn spec_work_paths(
    env: Observations,
    args: Seq<Seq<char>>,
) -> Option<Seq<Seq<char>>> {
    if args.len() > 0 {
        Some(args)
    } else {
        match env.spec_input() {
            None => None,
            Some(Ok(text)) => Some(spec_collect_paths(args, spec_lines(text@))),
            Some(Err(_)) => Some(Seq::empty()),
        }
    }
}

/// Chooses the paths to work on, reading standard input when there are no
/// arguments.
pub fn work_paths(args: &Vec<String>, env: &Observations) -> (r: Result<Vec<String>, Request>)
    ensures
        match r {
            Ok(paths) => spec_work_paths(*env, texts(args@)) == Some(texts(paths@)),
            Err(q) => spec_work_paths(*env, texts(args@)) is None && q@ == RequestView::ReadInput,
        },
{
    if args.len() > 0 {
        let mut copy: Vec<String> = Vec::new();
        let mut i: usize = 0;
        while i < args.len()
            invariant
                i <= args.len(),
                copy@.len() == i,
                forall|j: int| 0 <= j < i ==> copy@[j]@ == args@[j]@,
            decreases args.len() - i,
        {
            copy.push(args[i].clone());
            i += 1;
        }
        assert(texts(copy@) =~= texts(args@));
        return Ok(copy);
    }
    match env.input() {
        Err(q) => Err(q),
        Ok(Err(_)) => {
            let none: Vec<String> = Vec::new();
            assert(texts(none@) =~= Seq::<Seq<char>>::empty());
            Ok(none)
        },
        Ok(Ok(text)) => {
            let all = lines(text.as_str());
            let none: Vec<String> = Vec::new();
            assert(texts(none@) =~= texts(args@));
            Ok(collect_paths(none, &all))
        },
    }
}

/// The key of each path: the path resolved where it could be, else the path
/// itself.
pub open spec fn keys_of(abs: Seq<Seq<char>>, resolved: Seq<Option<String>>) -> Seq<Seq<char>> {
    Seq::new(
        abs.len(),
        |i: int|
            match resolved[i] {
                Some(c) => c@,
                None => abs[i],
            },
    )
}

/// The keys under which the command line caches `paths`: each path made
/// absolute against `root` and resolved, once that was observed.
pub open spec fn spec_keys(env: Observations, root: Seq<char>, paths: Seq<Seq<char>>) -> Option<
    Seq<Seq<char>>,
> {
    match env.spec_resolved(joined(root, paths)) {
        Some(resolved) => Some(keys_of(joined(root, paths), resolved)),
        None => None,
    }
}

/// Computes the keys of `paths`.
pub fn keys_for(paths: &Vec<String>, root: &str, env: &Observations) -> (r: Result<
    Vec<String>,
    Request,
>)
    ensures
        match r {
            Ok(keys) => spec_keys(*env, root@, texts(paths@)) == Some(texts(keys@)) && keys@.len()
                == paths@.len(),
            Err(q) => spec_keys(*env, root@, texts(paths@)) is None && q@ == (
            RequestView::Canonicalize { paths: joined(root@, texts(paths@)) }),
        },
{
    let abs = join_all(root, paths);
    let none: Vec<Option<String>> = Vec::new();
    let resolved: &Vec<Option<String>> = if abs.len() == 0 {
        assert(none@ =~= Seq::<Option<String>>::empty());
        &none
    } else {
        match env.resolved_for(&abs) {
            Ok(v) => v,
            Err(q) => {
                return Err(q);
            },
        }
    };
    let mut keys: Vec<String> = Vec::new();
    let mut i: usize = 0;
    while i < abs.len()
        invariant
            i <= abs.len(),
            resolved@.len() == abs@.len(),
            keys@.len() == i,
            forall|j: int|
                0 <= j < i ==> keys@[j]@ == keys_of(texts(abs@), resolved@)[j],
        decreases abs.len() - i,
    {
        let key = match &resolved[i] {
            Some(c) => c.clone(),
            None => abs[i].clone(),
        };
        keys.push(key);
        i += 1;
    }
    assert(texts(keys@) =~= keys_of(texts(abs@), resolved@));
    Ok(keys)
}

/// What `cache update` comes to.
pub open spec fn spec_run_update(
    env: Observations,
    root: Seq<char>,
    args: Seq<Seq<char>>,
) -> Outcome<CliView> {
    match spec_work_paths(env, args) {
        None => Outcome::Need(RequestView::ReadInput),
        Some(paths) => match env.spec_store(root) {
            None => Outcome::Need(RequestView::OpenStore { project_root: root }),
            Some(Err(f)) => Outcome::Done(
                ended(1, seq![err("Error: "@ + spec_failure_message(f))]),
            ),
            Some(Ok(_)) => match spec_keys(env, root, paths) {
                None => Outcome::Need(RequestView::Canonicalize { paths: joined(root, paths) }),
                Some(keys) => match spec_mark_reconciled(env, root, keys) {
                    Outcome::Need(q) => Outcome::Need(q),
                    Outcome::Done(Ok(done)) => Outcome::Done(
                        ended(
                            0,
                            errs(done.warnings) + seq![
                                out("Updated "@ + decimal(done.updated) + " file(s)"@),
                            ],
                        ),
                    ),
                    Outcome::Done(Err(e)) => Outcome::Done(
                        ended(1, seq![err("Error: "@ + e.message)]),
                    ),
                },
            },
        },
    }
}

/// Hashes the files named by `args`, or by standard input when there are no
/// arguments, and records the hashes in the cache of the project at `root`.
/// On the command line a file's key is its resolved absolute path. Prints a
/// warning on standard error for each file that exists but could not be
/// hashed, then how many files were recorded.
pub fn run_update(root: &str, args: &Vec<String>, env: &Observations) -> (r: Step<CliOutput>)
    ensures
        cli_view(r) == spec_run_update(*env, root@, texts(args@)),
{
    let mut printed: Vec<Line> = Vec::new();
    assert(lines_view(printed@) =~= Seq::<(bool, Seq<char>)>::empty());
    let paths = match work_paths(args, env) {
        Ok(paths) => paths,
        Err(q) => {
            return Step::Need(q);
        },
    };
    match env.store_of(root) {
        Err(q) => {
            return Step::Need(q);
        },
        Ok(Err(f)) => {
            complain(&mut printed, concat("Error: ", failure_message(f).as_str()));
            assert(lines_view(printed@) =~= seq![err("Error: "@ + spec_failure_message(*f))]);
            return finish(1, printed);
        },
        Ok(Ok(_)) => {},
    }
    let keys = match keys_for(&paths, root, env) {
        Ok(keys) => keys,
        Err(q) => {
            return Step::Need(q);
        },
    };
    match mark_reconciled(&keys, root, env) {
        Step::Need(q) => Step::Need(q),
        Step::Done(Ok(done)) => {
            let count = decimal_text(done.updated as u64);
            complain_all(&mut printed, &done.warnings);
            say(&mut printed, concat3("Updated ", count.as_str(), " file(s)"));
            assert(lines_view(printed@) =~= errs(texts(done.warnings@)) + seq![
                out("Updated "@ + decimal(done.updated as nat) + " file(s)"@),
            ]);
            finish(0, printed)
        },
        Step::Done(Err(e)) => {
            complain(&mut printed, concat("Error: ", e.message.as_str()));
            assert(lines_view(printed@) =~= seq![err("Error: "@ + e.message@)]);
            finish(1, printed)
        },
    }
}

/// What `cache changed` prints for `paths`, whose keys are `keys`: each path
/// that changed, on standard output, and each path that could not be checked,
/// with the reason, on standard error.
pub open spec fn changed_lines(
    store: Map<Seq<char>, Stored>,
    paths: Seq<Seq<char>>,
    keys: Seq<Seq<char>>,
    probes: Seq<FileProbe>,
) -> Seq<(bool, Seq<char>)>
    decreases paths.len(),
{
    if paths.len() == 0 {
        Seq::empty()
    } else {
        let rest = changed_lines(store, paths.drop_last(), keys.drop_last(), probes.drop_last());
        match spec_check_changed(store, keys.last(), keys.last(), probes.last()) {
            Ok(Some(_)) => rest.push(out(paths.last())),
            Ok(None) => rest,
            Err(e) => rest.push(err("Error checking "@ + paths.last() + ": "@ + e)),
        }
    }
}

/// What `cache changed` comes to.
pub open spec fn spec_run_changed(
    env: Observations,
    root: Seq<char>,
    args: Seq<Seq<char>>,
) -> Outcome<CliView> {
    match spec_work_paths(env, args) {
        None => Outcome::Need(RequestView::ReadInput),
        Some(paths) => match env.spec_store(root) {
            None => Outcome::Need(RequestView::OpenStore { project_root: root }),
            Some(Err(f)) => Outcome::Done(
                ended(1, seq![err("Error: "@ + spec_failure_message(f))]),
            ),
            Some(Ok(store)) => match spec_keys(env, root, paths) {
                None => Outcome::Need(RequestView::Canonicalize { paths: joined(root, paths) }),
                Some(keys) => match env.spec_probes(keys) {
                    None => Outcome::Need(RequestView::ProbeFiles { paths: keys }),
                    Some(probes) => Outcome::Done(
                        ended(0, changed_lines(store@, paths, keys, probes)),
                    ),
                },
            },
        },
    }
}

fn print_changed(
    printed: &mut Vec<Line>,
    store: &HashStore,
    paths: &Vec<String>,
    keys: &Vec<String>,
    probes: &Vec<FileProbe>,
)
    requires
        old(printed)@.len() == 0,
        keys@.len() == paths@.len(),
        probes@.len() == paths@.len(),
    ensures
        lines_view(final(printed)@) == changed_lines(
            store@,
            texts(paths@),
            texts(keys@),
            probes@,
        ),
{
    let mut i: usize = 0;
    assert(texts(paths@).take(0) =~= Seq::<Seq<char>>::empty());
    assert(lines_view(printed@) =~= Seq::<(bool, Seq<char>)>::empty());
    while i < paths.len()
        invariant
            i <= paths.len(),
            keys@.len() == paths@.len(),
            probes@.len() == paths@.len(),
            lines_view(printed@) == changed_lines(
                store@,
                texts(paths@).take(i as int),
                texts(keys@).take(i as int),
                probes@.take(i as int),
            ),
        decreases paths.len() - i,
    {
        proof {
            let next = texts(paths@).take(i + 1);
            assert(next.drop_last() =~= texts(paths@).take(i as int));
            assert(next.last() == paths@[i as int]@);
            let next_keys = texts(keys@).take(i + 1);
            assert(next_keys.drop_last() =~= texts(keys@).take(i as int));
            assert(next_keys.last() == keys@[i as int]@);
            let next_probes = probes@.take(i + 1);
            assert(next_probes.drop_last() =~= probes@.take(i as int));
            assert(next_probes.last() == probes@[i as int]);
        }
        match check_changed(store, keys[i].as_str(), keys[i].as_str(), &probes[i]) {
            Ok(Some(_)) => {
                say(printed, paths[i].clone());
            },
            Ok(None) => {},
            Err(e) => {
                let head = concat3("Error checking ", paths[i].as_str(), ": ");
                complain(printed, concat(head.as_str(), e.as_str()));
            },
        }
        i += 1;
    }
    assert(texts(paths@).take(paths.len() as int) =~= texts(paths@));
    assert(texts(keys@).take(paths.len() as int) =~= texts(keys@));
    assert(probes@.take(paths.len() as int) =~= probes@);
}

/// Prints the paths named by `args`, or by standard input when there are no
/// arguments, whose content is not what the cache of the project at `root`
/// recorded for them. A path that cannot be checked is reported and does not
/// stop the others.
pub fn run_changed(root: &str, args: &Vec<String>, env: &Observations) -> (r: Step<CliOutput>)
    ensures
        cli_view(r) == spec_run_changed(*env, root@, texts(args@)),
{
    let mut printed: Vec<Line> = Vec::new();
    assert(lines_view(printed@) =~= Seq::<(bool, Seq<char>)>::empty());
    let paths = match work_paths(args, env) {
        Ok(paths) => paths,
        Err(q) => {
            return Step::Need(q);
        },
    };
    let store = match env.store_of(root) {
        Err(q) => {
            return Step::Need(q);
        },
        Ok(Err(f)) => {
            complain(&mut printed, concat("Error: ", failure_message(f).as_str()));
            assert(lines_view(printed@) =~= seq![err("Error: "@ + spec_failure_message(*f))]);
            return finish(1, printed);
        },
        Ok(Ok(store)) => store,
    };
    let keys = match keys_for(&paths, root, env) {
        Ok(keys) => keys,
        Err(q) => {
            return Step::Need(q);
        },
    };
    let none: Vec<FileProbe> = Vec::new();
    let probes: &Vec<FileProbe> = if keys.len() == 0 {
        assert(none@ =~= Seq::<FileProbe>::empty());
        &none
    } else {
        match env.probes_for(&keys) {
            Ok(v) => v,
            Err(q) => {
                return Step::Need(q);
            },
        }
    };
    print_changed(&mut printed, store, &paths, &keys, probes);
    finish(0, printed)
}

/// What the `cache` subcommand comes to.
pub open spec fn spec_run(env: Observations, root: Seq<char>, action: CacheAction) -> Outcome<
    CliView,
> {
    match action {
        CacheAction::Status => spec_run_status(env, root),
        CacheAction::Clear => spec_run_clear(env, root),
        CacheAction::Update { paths } => spec_run_update(env, root, texts(paths@)),
        CacheAction::Changed { paths } => spec_run_changed(env, root, texts(paths@)),
    }
}

/// Runs the `cache` subcommand `action` on the project at `root`.
pub fn run(action: &CacheAction, root: &str, env: &Observations) -> (r: Step<CliOutput>)
    ensures
        cli_view(r) == spec_run(*env, root@, *action),
{
    match action {
        CacheAction::Status => run_status(root, env),
        CacheAction::Clear => run_clear(root, env),
        CacheAction::Update { paths } => run_update(root, paths, env),
        CacheAction::Changed { paths } => run_changed(root, paths, env),
    }
}

} // verus!
