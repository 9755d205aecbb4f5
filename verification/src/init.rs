//! What setting a project up writes: the assistant's context file, the
//! ignore file and the hook configuration. The functions here compute the
//! new content of a file from its old content; writing is left to the
//! caller.

use vstd::prelude::*;
use vstd::string::StringExecFns;
use crate::cli::{
    any_complaint, cli_view, complain, complained, ended, ensure_dir, err, finish, lines_view,
    no_line, one_err, one_out, out, printed_view, spec_ensure_dir, spec_write_step, then,
    write_step, CliOutput, CliView, Line, Printed,
};
use crate::env::{Observations, Outcome, RequestView, Step};
use crate::paths::{join_path, spec_join};
use crate::schema::SCHEMA_STR;
use crate::json::{
    json_document, json_pretty, lookup, parse_json_text, pretty_text, set_member, take_member,
    JsonValue, Member,
};
use crate::text::{
    chars_of, concat, concat3, first_where, has_line, has_prefix, join_lines,
    lemma_first_where, lines, owned, replace_all, replaced, spec_lines, starts_with, str_eq,
    texts, trim_end, trimmed_end, unlines,
};

verus! {

/// The command that the validation hook runs.
pub const HOOK_COMMAND: &'static str = "notarai hook validate";

/// The section written to, or replaced in, the assistant's context file.
pub const NOTARAI_SECTION: &'static str =
    "## NotarAI\n@.notarai/README.md\n@.notarai/notarai.spec.json\n";

/// The entry of the ignore file that keeps the hash store out of version
/// control.
pub const CACHE_IGNORE_ENTRY: &'static str = ".notarai/.cache/";

/// The line that opens the section.
pub open spec fn section_heading() -> Seq<char> {
    "## NotarAI"@
}

/// What opens every heading of the section's level.
pub open spec fn heading_mark() -> Seq<char> {
    "## "@
}

/// Where the section starts in `lines`: its heading's position, or the
/// number of lines when there is no section.
pub open spec fn section_start(lines: Seq<Seq<char>>) -> int {
    first_where(lines, |l: Seq<char>| l == section_heading(), 0)
}

/// Where the section that starts at `start` ends: at the next heading of its
/// level, or after the last line.
pub open spec fn section_end(lines: Seq<Seq<char>>, start: int) -> int {
    first_where(lines, |l: Seq<char>| has_prefix(l, heading_mark()), start + 1)
}

/// `s`, with a line feed added unless it ends with one.
pub open spec fn terminated(s: Seq<char>) -> Seq<char> {
    if s.len() > 0 && s.last() == '\n' {
        s
    } else {
        s + seq!['\n']
    }
}

/// `content` with its section replaced by `new_section`: the lines before
/// the section, the new section, the lines from the next heading on. Without
/// a section, `content` itself.
pub open spec fn spec_replace_section(content: Seq<char>, new_section: Seq<char>) -> Seq<char> {
    let all = spec_lines(content);
    let start = section_start(all);
    if start >= all.len() {
        content
    } else {
        unlines(all.take(start)) + terminated(new_section) + unlines(
            all.skip(section_end(all, start)),
        )
    }
}

/// The section of `content`: its lines joined, without white space at the
/// end, then one line feed. Empty without a section.
pub open spec fn spec_extract_section(content: Seq<char>) -> Seq<char> {
    let all = spec_lines(content);
    let start = section_start(all);
    if start >= all.len() {
        Seq::empty()
    } else {
        trim_end(join_lines(all.subrange(start, section_end(all, start)))) + seq!['\n']
    }
}

fn find_section_start(all: &Vec<String>) -> (start: usize)
    ensures
        start == section_start(texts(all@)),
        start <= all@.len(),
{
    let mut i: usize = 0;
    while i < all.len()
        invariant
            i <= all.len(),
            forall|j: int| 0 <= j < i ==> texts(all@)[j] != section_heading(),
        decreases all.len() - i,
    {
        if str_eq(all[i].as_str(), "## NotarAI") {
            proof {
                lemma_first_where(
                    texts(all@),
                    |l: Seq<char>| l == section_heading(),
                    0,
                    i as int,
                );
            }
            return i;
        }
        i += 1;
    }
    proof {
        lemma_first_where(texts(all@), |l: Seq<char>| l == section_heading(), 0, i as int);
    }
    i
}

fn find_section_end(all: &Vec<String>, start: usize) -> (end: usize)
    requires
        start < all@.len(),
    ensures
        end == section_end(texts(all@), start as int),
        start < end <= all@.len(),
{
    assert(start < all.len());
    let mut i: usize = start + 1;
    while i < all.len()
        invariant
            start < i <= all.len(),
            forall|j: int| start < j < i ==> !has_prefix(texts(all@)[j], heading_mark()),
        decreases all.len() - i,
    {
        if starts_with(all[i].as_str(), "## ") {
            proof {
                lemma_first_where(
                    texts(all@),
                    |l: Seq<char>| has_prefix(l, heading_mark()),
                    start + 1,
                    i as int,
                );
            }
            return i;
        }
        i += 1;
    }
    proof {
        lemma_first_where(
            texts(all@),
            |l: Seq<char>| has_prefix(l, heading_mark()),
            start + 1,
            i as int,
        );
    }
    i
}

/// Appends the lines `from..to` of `all` to `out`, each with a line feed.
fn push_lines(out: &mut String, all: &Vec<String>, from: usize, to: usize)
    requires
        from <= to <= all@.len(),
    ensures
        final(out)@ == old(out)@ + unlines(texts(all@).subrange(from as int, to as int)),
{
    let mut i: usize = from;
    assert(texts(all@).subrange(from as int, from as int) =~= Seq::<Seq<char>>::empty());
    assert(out@ =~= old(out)@ + Seq::<char>::empty());
    while i < to
        invariant
            from <= i <= to,
            to <= all@.len(),
            out@ == old(out)@ + unlines(texts(all@).subrange(from as int, i as int)),
        decreases to - i,
    {
        proof {
            let next = texts(all@).subrange(from as int, i + 1);
            assert(next.drop_last() =~= texts(all@).subrange(from as int, i as int));
            assert(next.last() == all@[i as int]@);
            reveal_strlit("\n");
            assert("\n"@ =~= seq!['\n']);
        }
        let ghost before = out@;
        out.append(all[i].as_str());
        out.append("\n");
        assert(out@ =~= old(out)@ + (unlines(texts(all@).subrange(from as int, i as int))
            + all@[i as int]@ + seq!['\n']));
        i += 1;
    }
}

/// Appends `s` to `out`, and a line feed unless `s` ends with one.
fn push_terminated(out: &mut String, s: &str)
    ensures
        final(out)@ == old(out)@ + terminated(s@),
{
    let chars = chars_of(s);
    out.append(s);
    if !(chars.len() > 0 && chars[chars.len() - 1] == '\n') {
        proof {
            reveal_strlit("\n");
            assert("\n"@ =~= seq!['\n']);
        }
        out.append("\n");
        assert(out@ =~= old(out)@ + (s@ + seq!['\n']));
    }
}

/// Replaces the `## NotarAI` section of `content` with `new_section`.
///
/// The section runs from the line `## NotarAI` up to, and not including, the
/// next line that starts with `## `, or to the end. What stands before and
/// after it is kept, line by line, each line ending with a line feed. Without
/// such a section `content` is returned as it is.
pub fn replace_notarai_section(content: &str, new_section: &str) -> (r: String)
    ensures
        r@ == spec_replace_section(content@, new_section@),
{
    let all = lines(content);
    let start = find_section_start(&all);
    if start >= all.len() {
        return owned(content);
    }
    let end = find_section_end(&all, start);
    let mut result = String::new();
    push_lines(&mut result, &all, 0, start);
    push_terminated(&mut result, new_section);
    push_lines(&mut result, &all, end, all.len());
    proof {
        assert(texts(all@).subrange(0, start as int) =~= texts(all@).take(start as int));
        assert(texts(all@).subrange(end as int, all@.len() as int) =~= texts(all@).skip(
            end as int,
        ));
        assert(result@ =~= unlines(texts(all@).take(start as int)) + terminated(new_section@)
            + unlines(texts(all@).skip(end as int)));
    }
    result
}

/// Joins the lines `from..to` of `all` with line feeds.
fn joined_lines(all: &Vec<String>, from: usize, to: usize) -> (r: String)
    requires
        from <= to <= all@.len(),
    ensures
        r@ == join_lines(texts(all@).subrange(from as int, to as int)),
{
    let mut out = String::new();
    let mut i: usize = from;
    assert(texts(all@).subrange(from as int, from as int) =~= Seq::<Seq<char>>::empty());
    while i < to
        invariant
            from <= i <= to,
            to <= all@.len(),
            out@ == join_lines(texts(all@).subrange(from as int, i as int)),
        decreases to - i,
    {
        proof {
            let next = texts(all@).subrange(from as int, i + 1);
            assert(next.drop_last() =~= texts(all@).subrange(from as int, i as int));
            assert(next.last() == all@[i as int]@);
            if i == from {
                assert(next.len() == 1);
                assert(next[0] == all@[i as int]@);
            }
            reveal_strlit("\n");
            assert("\n"@ =~= seq!['\n']);
        }
        if i > from {
            out.append("\n");
        }
        out.append(all[i].as_str());
        proof {
            if i == from {
                assert(out@ =~= all@[i as int]@);
            }
        }
        i += 1;
    }
    out
}

/// Returns the `## NotarAI` section of `content`, from its heading up to the
/// next `## ` heading or the end, without blank space at its end and closed
/// by one line feed. Returns the empty string when there is no section.
pub fn extract_notarai_section(content: &str) -> (r: String)
    ensures
        r@ == spec_extract_section(content@),
{
    let all = lines(content);
    let start = find_section_start(&all);
    if start >= all.len() {
        let empty = String::new();
        assert(empty@ =~= Seq::<char>::empty());
        return empty;
    }
    let end = find_section_end(&all, start);
    let body = joined_lines(&all, start, end);
    let trimmed = trimmed_end(body.as_str());
    proof {
        reveal_strlit("\n");
        assert("\n"@ =~= seq!['\n']);
    }
    concat(trimmed.as_str(), "\n")
}

/// The new content of the assistant's context file, given its old content
/// (`None` when there is no file yet): a file without the section gets it
/// appended after a blank line, a file with the section gets it replaced.
pub open spec fn spec_claude_context(existing: Option<Seq<char>>) -> Seq<char> {
    match existing {
        None => NOTARAI_SECTION@,
        Some(old) => if spec_lines(old).contains(section_heading()) {
            spec_replace_section(old, NOTARAI_SECTION@)
        } else {
            (if old.len() > 0 {
                terminated(old)
            } else {
                old
            }) + seq!['\n'] + NOTARAI_SECTION@
        },
    }
}

/// Computes the new content of the assistant's context file.
pub fn claude_context(existing: Option<&str>) -> (r: String)
    ensures
        r@ == spec_claude_context(
            match existing {
                Some(s) => Some(s@),
                None => None,
            },
        ),
{
    let old = match existing {
        None => {
            return owned(NOTARAI_SECTION);
        },
        Some(old) => old,
    };
    let all = lines(old);
    if has_line(&all, "## NotarAI") {
        return replace_notarai_section(old, NOTARAI_SECTION);
    }
    let mut content = String::new();
    assert(content@ =~= Seq::<char>::empty());
    if chars_of(old).len() > 0 {
        push_terminated(&mut content, old);
        assert(content@ =~= terminated(old@));
    } else {
        assert(content@ =~= old@);
    }
    proof {
        reveal_strlit("\n");
        assert("\n"@ =~= seq!['\n']);
    }
    content.append("\n");
    content.append(NOTARAI_SECTION);
    content
}

/// The new content of the ignore file, or `None` when the file names the
/// hash store's directory already and needs no change.
pub open spec fn spec_gitignore(existing: Seq<char>) -> Option<Seq<char>> {
    if spec_lines(existing).contains(CACHE_IGNORE_ENTRY@) {
        None
    } else {
        Some(
            (if existing.len() > 0 {
                terminated(existing)
            } else {
                existing
            }) + CACHE_IGNORE_ENTRY@ + seq!['\n'],
        )
    }
}

/// Computes the new content of the ignore file from its old content (empty
/// when there is no file yet).
pub fn gitignore_with_cache(existing: &str) -> (r: Option<String>)
    ensures
        match r {
            Some(s) => spec_gitignore(existing@) == Some(s@),
            None => spec_gitignore(existing@) is None,
        },
{
    let all = lines(existing);
    if has_line(&all, CACHE_IGNORE_ENTRY) {
        return None;
    }
    let mut content = String::new();
    assert(content@ =~= Seq::<char>::empty());
    if chars_of(existing).len() > 0 {
        push_terminated(&mut content, existing);
        assert(content@ =~= terminated(existing@));
    } else {
        assert(content@ =~= existing@);
    }
    proof {
        reveal_strlit("\n");
        assert("\n"@ =~= seq!['\n']);
    }
    content.append(CACHE_IGNORE_ENTRY);
    content.append("\n");
    Some(content)
}

/// True when `hook` runs the validation command.
pub open spec fn runs_validation(hook: JsonValue) -> bool {
    hook.spec_get_str("command"@) == Some(HOOK_COMMAND@)
}

/// True when one of `hooks` runs the validation command.
pub open spec fn any_runs_validation(hooks: Seq<JsonValue>) -> bool {
    exists|i: int| 0 <= i < hooks.len() && runs_validation(#[trigger] hooks[i])
}

/// True when `matcher` has a hook that runs the validation command.
pub open spec fn matcher_has_hook(matcher: JsonValue) -> bool {
    match matcher.spec_get("hooks"@) {
        Some(hooks) => match hooks.spec_as_array() {
            Some(items) => any_runs_validation(items),
            None => false,
        },
        None => false,
    }
}

fn matcher_hooked(matcher: &JsonValue) -> (b: bool)
    ensures
        b == matcher_has_hook(*matcher),
{
    let items = match matcher.get("hooks") {
        Some(hooks) => match hooks.as_array() {
            Some(items) => items,
            None => {
                return false;
            },
        },
        None => {
            return false;
        },
    };
    let mut i: usize = 0;
    while i < items.len()
        invariant
            i <= items.len(),
            matcher_has_hook(*matcher) == any_runs_validation(items@),
            forall|j: int| 0 <= j < i ==> !runs_validation(items@[j]),
        decreases items.len() - i,
    {
        let runs = match items[i].get_str("command") {
            Some(c) => str_eq(c, HOOK_COMMAND),
            None => false,
        };
        if runs {
            return true;
        }
        i += 1;
    }
    false
}

/// Tells whether one of `matchers`, the entries of a hook list, already runs
/// the validation command.
pub fn has_notarai_hook(matchers: &Vec<JsonValue>) -> (b: bool)
    ensures
        b == exists|i: int| 0 <= i < matchers@.len() && matcher_has_hook(matchers@[i]),
{
    let mut i: usize = 0;
    while i < matchers.len()
        invariant
            i <= matchers.len(),
            forall|j: int| 0 <= j < i ==> !matcher_has_hook(matchers@[j]),
        decreases matchers.len() - i,
    {
        if matcher_hooked(&matchers[i]) {
            return true;
        }
        i += 1;
    }
    false
}

/// The members of a configuration document: those of an object, none for
/// the null document. Anything else is no configuration.
pub open spec fn top_members(doc: JsonValue) -> Option<Seq<Member>> {
    match doc {
        JsonValue::Object(members) => Some(members@),
        JsonValue::Null => Some(Seq::empty()),
        _ => None,
    }
}

/// The members of a section of a configuration: those of an object, none
/// for a section that is absent or null. Anything else is no section.
pub open spec fn section_members(section: Option<JsonValue>) -> Option<Seq<Member>> {
    match section {
        None => Some(Seq::empty()),
        Some(doc) => top_members(doc),
    }
}

/// The entries of a hook list: those of a list, none for a list that is
/// absent. Anything else is no list.
pub open spec fn list_entries(list: Option<JsonValue>) -> Option<Seq<JsonValue>> {
    match list {
        None => Some(Seq::empty()),
        Some(JsonValue::Array(items)) => Some(items@),
        Some(_) => None,
    }
}

/// The `hooks` section of the settings `settings`.
pub open spec fn hooks_section(settings: JsonValue) -> Option<Seq<Member>> {
    match top_members(settings) {
        Some(top) => section_members(lookup(top, "hooks"@)),
        None => None,
    }
}

/// The hooks that the settings `settings` run after a tool was used, or
/// `None` when the settings are not shaped so as to hold any.
pub open spec fn post_tool_use(settings: JsonValue) -> Option<Seq<JsonValue>> {
    match hooks_section(settings) {
        Some(hooks) => list_entries(lookup(hooks, "PostToolUse"@)),
        None => None,
    }
}

/// True when one of `matchers` runs the validation command.
pub open spec fn any_matcher_hooked(matchers: Seq<JsonValue>) -> bool {
    exists|i: int| 0 <= i < matchers.len() && matcher_has_hook(matchers[i])
}

/// True when `entry` is the hook entry that setting up adds: it matches
/// writes and edits and runs the validation command, as a command.
pub open spec fn is_hook_entry(entry: JsonValue) -> bool {
    &&& entry.spec_get_str("matcher"@) == Some("Write|Edit"@)
    &&& entry.spec_get("hooks"@) matches Some(JsonValue::Array(hooks))
    &&& hooks@.len() == 1
    &&& hooks@[0].spec_get_str("type"@) == Some("command"@)
    &&& hooks@[0].spec_get_str("command"@) == Some(HOOK_COMMAND@)
}

/// True when `updated` runs the hooks of `settings` after a tool was used,
/// in their order, and the validation hook after them; `settings` did not
/// run it.
pub open spec fn hook_added(settings: JsonValue, updated: JsonValue) -> bool {
    match (post_tool_use(settings), post_tool_use(updated)) {
        (Some(list), Some(longer)) => !any_matcher_hooked(list) && longer.len() == list.len() + 1
            && longer.take(list.len() as int) == list && is_hook_entry(longer.last()),
        _ => false,
    }
}

/// What setting up does to a configuration file.
pub enum Setup {
    /// The file holds the entry already and stays as it is.
    AlreadyConfigured,
    /// The file is to be written with this content.
    Updated(JsonValue),
    /// The file is not shaped so that the entry could be added.
    Malformed,
}

fn member(key: &str, value: JsonValue) -> (m: Member)
    ensures
        m.key@ == key@,
        m.value == value,
{
    Member { key: owned(key), value }
}

fn text_value(s: &str) -> (v: JsonValue)
    ensures
        v.spec_as_str() == Some(s@),
{
    JsonValue::Text(owned(s))
}

/// The hook entry that setting up adds to the settings.
pub fn hook_entry() -> (entry: JsonValue)
    ensures
        is_hook_entry(entry),
{
    let mut hook: Vec<Member> = Vec::new();
    set_member(&mut hook, "type", text_value("command"));
    set_member(&mut hook, "command", text_value(HOOK_COMMAND));
    proof {
        reveal_strlit("type");
        reveal_strlit("command");
        assert("type"@ != "command"@) by {
            assert("type"@.len() == 4);
            assert("command"@.len() == 7);
        }
    }
    let mut hooks: Vec<JsonValue> = Vec::new();
    hooks.push(JsonValue::Object(hook));
    let mut entry: Vec<Member> = Vec::new();
    set_member(&mut entry, "matcher", text_value("Write|Edit"));
    set_member(&mut entry, "hooks", JsonValue::Array(hooks));
    proof {
        reveal_strlit("matcher");
        reveal_strlit("hooks");
        assert("matcher"@ != "hooks"@) by {
            assert("matcher"@.len() == 7);
            assert("hooks"@.len() == 5);
        }
    }
    JsonValue::Object(entry)
}

fn members_of(doc: JsonValue) -> (r: Option<Vec<Member>>)
    ensures
        match r {
            Some(m) => top_members(doc) == Some(m@),
            None => top_members(doc) is None,
        },
{
    match doc {
        JsonValue::Object(members) => Some(members),
        JsonValue::Null => Some(Vec::new()),
        _ => None,
    }
}

fn section_of(section: Option<JsonValue>) -> (r: Option<Vec<Member>>)
    ensures
        match r {
            Some(m) => section_members(section) == Some(m@),
            None => section_members(section) is None,
        },
{
    match section {
        None => Some(Vec::new()),
        Some(doc) => members_of(doc),
    }
}

/// True when `r` is what adding the validation hook to `settings` comes to:
/// nothing when the settings run the hook already; else the settings with
/// the hook at the end of the list `hooks.PostToolUse` and everything else
/// as it was. Settings in which `hooks` is no object or `PostToolUse` no
/// list are malformed.
pub open spec fn hook_setup(settings: JsonValue, r: Setup) -> bool {
    match r {
        Setup::Malformed => post_tool_use(settings) is None,
        Setup::AlreadyConfigured => post_tool_use(settings) is Some && any_matcher_hooked(
            post_tool_use(settings).unwrap(),
        ),
        Setup::Updated(updated) => {
            &&& hook_added(settings, updated)
            &&& forall|k: Seq<char>|
                k != "hooks"@ ==> lookup(top_members(updated).unwrap(), k) == lookup(
                    top_members(settings).unwrap(),
                    k,
                )
            &&& forall|k: Seq<char>|
                k != "PostToolUse"@ ==> lookup(hooks_section(updated).unwrap(), k) == lookup(
                    hooks_section(settings).unwrap(),
                    k,
                )
        },
    }
}

/// True when `doc` is an object without members.
pub open spec fn is_empty_object(doc: JsonValue) -> bool {
    doc matches JsonValue::Object(members) && members@.len() == 0
}

/// True when `r` is what adding the validation hook to the settings
/// `existing` comes to, or to settings without members when there are none
/// yet.
pub open spec fn hook_setup_from(existing: Option<JsonValue>, start: JsonValue, r: Setup) -> bool {
    &&& match existing {
        Some(doc) => start == doc,
        None => is_empty_object(start),
    }
    &&& hook_setup(start, r)
}

/// Adds the validation hook to the settings `settings`, unless they hold it
/// already.
///
/// The hook is added at the end of the list `hooks.PostToolUse`, which is
/// made if it is missing; everything else in the settings stays as it is.
pub fn settings_with_hook(settings: JsonValue) -> (r: Setup)
    ensures
        hook_setup(settings, r),
{
    let mut top = match members_of(settings) {
        Some(top) => top,
        None => {
            return Setup::Malformed;
        },
    };
    let mut hooks = match section_of(take_member(&mut top, "hooks")) {
        Some(hooks) => hooks,
        None => {
            return Setup::Malformed;
        },
    };
    let mut list: Vec<JsonValue> = match take_member(&mut hooks, "PostToolUse") {
        None => Vec::new(),
        Some(JsonValue::Array(items)) => items,
        Some(_) => {
            return Setup::Malformed;
        },
    };
    if has_notarai_hook(&list) {
        return Setup::AlreadyConfigured;
    }
    let ghost before = list@;
    list.push(hook_entry());
    assert(list@.take(before.len() as int) =~= before);
    set_member(&mut hooks, "PostToolUse", JsonValue::Array(list));
    set_member(&mut top, "hooks", JsonValue::Object(hooks));
    Setup::Updated(JsonValue::Object(top))
}

/// The servers that the tool configuration `config` names, or `None` when it
/// is not shaped so as to name any.
pub open spec fn servers_section(config: JsonValue) -> Option<Seq<Member>> {
    match top_members(config) {
        Some(top) => section_members(lookup(top, "mcpServers"@)),
        None => None,
    }
}

/// True when the tool configuration `config` names the program as a server,
/// with the entry that setting up adds.
pub open spec fn names_program(config: JsonValue) -> bool {
    match servers_section(config) {
        Some(servers) => match lookup(servers, "notarai"@) {
            Some(entry) => is_server_entry(entry),
            None => false,
        },
        None => false,
    }
}

/// True when the tool configuration `config` names no server of the
/// program's name.
pub open spec fn lacks_program(config: JsonValue) -> bool {
    match servers_section(config) {
        Some(servers) => lookup(servers, "notarai"@) is None,
        None => false,
    }
}

/// True when `entry` is the server entry that setting up adds: the program,
/// started over standard input and output with the one argument `mcp`.
pub open spec fn is_server_entry(entry: JsonValue) -> bool {
    &&& entry.spec_get_str("type"@) == Some("stdio"@)
    &&& entry.spec_get_str("command"@) == Some("notarai"@)
    &&& entry.spec_get("args"@) matches Some(JsonValue::Array(args))
    &&& args@.len() == 1
    &&& args@[0].spec_as_str() == Some("mcp"@)
}

/// The server entry that setting up adds to the tool configuration.
pub fn server_entry() -> (entry: JsonValue)
    ensures
        is_server_entry(entry),
{
    let mut args: Vec<JsonValue> = Vec::new();
    args.push(text_value("mcp"));
    let mut entry: Vec<Member> = Vec::new();
    set_member(&mut entry, "type", text_value("stdio"));
    set_member(&mut entry, "command", text_value("notarai"));
    set_member(&mut entry, "args", JsonValue::Array(args));
    proof {
        reveal_strlit("type");
        reveal_strlit("command");
        reveal_strlit("args");
        assert("type"@ != "command"@ && "type"@ != "args"@ && "command"@ != "args"@) by {
            assert("type"@.len() == 4);
            assert("command"@.len() == 7);
            assert("args"@.len() == 4);
            assert("type"@[0] == 't');
            assert("args"@[0] == 'a');
        }
    }
    JsonValue::Object(entry)
}

/// True when `r` is what adding the program to `config` comes to: nothing
/// when a server of its name is there already; else the configuration with
/// the program's entry among its servers and everything else as it was. A
/// configuration in which `mcpServers` is no object is malformed.
pub open spec fn server_setup(config: JsonValue, r: Setup) -> bool {
    match r {
        Setup::Malformed => servers_section(config) is None,
        Setup::AlreadyConfigured => servers_section(config) is Some && !lacks_program(config),
        Setup::Updated(updated) => {
            &&& lacks_program(config)
            &&& names_program(updated)
            &&& forall|k: Seq<char>|
                k != "mcpServers"@ ==> lookup(top_members(updated).unwrap(), k) == lookup(
                    top_members(config).unwrap(),
                    k,
                )
            &&& forall|k: Seq<char>|
                k != "notarai"@ ==> lookup(servers_section(updated).unwrap(), k) == lookup(
                    servers_section(config).unwrap(),
                    k,
                )
        },
    }
}

/// Adds the program to the servers of the tool configuration `config`,
/// unless a server of its name is there already. Everything else in the
/// configuration stays as it is.
pub fn config_with_server(config: JsonValue) -> (r: Setup)
    ensures
        server_setup(config, r),
{
    let mut top = match members_of(config) {
        Some(top) => top,
        None => {
            return Setup::Malformed;
        },
    };
    let mut servers = match section_of(take_member(&mut top, "mcpServers")) {
        Some(servers) => servers,
        None => {
            return Setup::Malformed;
        },
    };
    if crate::json::find_member(&servers, "notarai").is_some() {
        return Setup::AlreadyConfigured;
    }
    set_member(&mut servers, "notarai", server_entry());
    set_member(&mut top, "mcpServers", JsonValue::Object(servers));
    Setup::Updated(JsonValue::Object(top))
}

/// True when `r` is what adding the program to the tool configuration with
/// the text `existing` comes to. A text that is not JSON counts as no
/// configuration, as does a missing one: the result is then a configuration
/// that names the program.
pub open spec fn server_setup_from(existing: Option<Seq<char>>, r: Setup) -> bool {
    match existing {
        Some(text) => match json_document(text) {
            Ok(doc) => server_setup(doc, r),
            Err(_) => r is Updated && names_program(r->Updated_0),
        },
        None => r is Updated && names_program(r->Updated_0),
    }
}

/// Computes what to do to the tool configuration file, given its text
/// (`None` when there is no file). A file whose text is not JSON is started
/// afresh, as is a missing one: the result is then a configuration that
/// names the program and nothing else.
pub fn mcp_config_update(existing: Option<&str>) -> (r: Setup)
    ensures
        server_setup_from(crate::validate_cmd::path_text(existing), r),
{
    let parsed: Option<JsonValue> = match existing {
        None => None,
        Some(text) => match parse_json_text(text) {
            Ok(doc) => Some(doc),
            Err(_) => None,
        },
    };
    match parsed {
        Some(doc) => config_with_server(doc),
        None => {
            let empty: Vec<Member> = Vec::new();
            proof {
                assert(lookup(empty@, "mcpServers"@) is None);
                assert(lookup(Seq::<Member>::empty(), "notarai"@) is None);
            }
            config_with_server(JsonValue::Object(empty))
        },
    }
}

/// The text that a configuration file is written with: the document as
/// indented JSON, then a line feed.
pub fn config_text(doc: &JsonValue) -> (r: String)
    ensures
        r@ == json_pretty(*doc) + seq!['\n'],
{
    let mut text = pretty_text(doc);
    proof {
        reveal_strlit("\n");
        assert("\n"@ =~= seq!['\n']);
    }
    text.append("\n");
    text
}

/// What marks the place of the version in the template of the read-me.
pub open spec fn version_mark() -> Seq<char> {
    "{{VERSION}}"@
}

/// The read-me that setting up writes: `template` with the program's
/// version in the place of every version mark.
pub fn readme_text(template: &str, version: &str) -> (r: String)
    ensures
        r@ == replaced(template@, version_mark(), version@),
{
    replace_all(template, "{{VERSION}}", version)
}

/// What copying the bundled schema into the specs directory prints.
pub open spec fn spec_setup_schema(env: Observations, notarai_dir: Seq<char>) -> Outcome<Printed> {
    spec_write_step(
        env,
        spec_join(notarai_dir, "notarai.spec.json"@),
        SCHEMA_STR@,
        "Warning: could not write notarai.spec.json: "@,
        "Copied schema to .notarai/notarai.spec.json"@,
    )
}

/// Copies the bundled schema into the specs directory at `notarai_dir`, in
/// place of any copy that is there.
pub fn setup_schema(notarai_dir: &str, env: &Observations) -> (r: Step<Vec<Line>>)
    ensures
        printed_view(r) == spec_setup_schema(*env, notarai_dir@),
{
    let path = join_path(notarai_dir, "notarai.spec.json");
    write_step(
        path.as_str(),
        SCHEMA_STR,
        "Warning: could not write notarai.spec.json: ",
        "Copied schema to .notarai/notarai.spec.json",
        env,
    )
}

/// What writing the read-me of the specs directory prints.
pub open spec fn spec_setup_readme(
    env: Observations,
    notarai_dir: Seq<char>,
    template: Seq<char>,
    version: Seq<char>,
) -> Outcome<Printed> {
    spec_write_step(
        env,
        spec_join(notarai_dir, "README.md"@),
        replaced(template, version_mark(), version),
        "Warning: could not write .notarai/README.md: "@,
        "Wrote .notarai/README.md"@,
    )
}

/// Writes the read-me of the specs directory at `notarai_dir`: `template`
/// with the program's version filled in.
pub fn setup_notarai_readme(
    notarai_dir: &str,
    template: &str,
    version: &str,
    env: &Observations,
) -> (r: Step<Vec<Line>>)
    ensures
        printed_view(r) == spec_setup_readme(*env, notarai_dir@, template@, version@),
{
    let path = join_path(notarai_dir, "README.md");
    let content = readme_text(template, version);
    write_step(
        path.as_str(),
        content.as_str(),
        "Warning: could not write .notarai/README.md: ",
        "Wrote .notarai/README.md",
        env,
    )
}

/// What installing the command `name` prints. `assistant` is the name of the
/// assistant's directory, which lies at `assistant_dir`.
pub open spec fn spec_setup_command(
    env: Observations,
    name: Seq<char>,
    content: Seq<char>,
    assistant_dir: Seq<char>,
    assistant: Seq<char>,
) -> Outcome<Printed> {
    let commands = spec_join(assistant_dir, "commands"@);
    match env.spec_created(commands) {
        None => Outcome::Need(RequestView::CreateDirs { path: commands }),
        Some(Err(e)) => Outcome::Done(
            seq![err("Warning: could not create "@ + assistant + "/commands/ directory: "@ + e@)],
        ),
        Some(Ok(_)) => spec_write_step(
            env,
            spec_join(commands, name + ".md"@),
            content,
            "Warning: could not write "@ + name + ".md: "@,
            "Updated "@ + assistant + "/commands/"@ + name + ".md"@,
        ),
    }
}

/// Installs the command `name` with the text `content` among the assistant's
/// commands, in place of any command of that name.
pub fn setup_command(
    name: &str,
    content: &str,
    assistant_dir: &str,
    assistant: &str,
    env: &Observations,
) -> (r: Step<Vec<Line>>)
    ensures
        printed_view(r) == spec_setup_command(
            *env,
            name@,
            content@,
            assistant_dir@,
            assistant@,
        ),
{
    let commands = join_path(assistant_dir, "commands");
    match env.created(commands.as_str()) {
        Err(q) => {
            return Step::Need(q);
        },
        Ok(Err(e)) => {
            let head = concat3("Warning: could not create ", assistant, "/commands/ directory: ");
            return Step::Done(one_err(concat(head.as_str(), e.as_str())));
        },
        Ok(Ok(_)) => {},
    }
    let file = concat(name, ".md");
    let path = join_path(commands.as_str(), file.as_str());
    let warning = concat3("Warning: could not write ", name, ".md: ");
    let head = concat3("Updated ", assistant, "/commands/");
    let done = concat3(head.as_str(), name, ".md");
    write_step(path.as_str(), content, warning.as_str(), done.as_str(), env)
}

/// What bringing the assistant's context file up to date prints. The file is
/// named `file` and lies in the project at `root`.
pub open spec fn spec_setup_context(env: Observations, root: Seq<char>, file: Seq<char>) -> Outcome<
    Printed,
> {
    let path = spec_join(root, file);
    match env.spec_exists(path) {
        None => Outcome::Need(RequestView::PathExists { path }),
        Some(false) => spec_write_step(
            env,
            path,
            spec_claude_context(None),
            "Warning: could not create "@ + file + ": "@,
            "Added NotarAI context to "@ + file,
        ),
        Some(true) => match env.spec_text(path) {
            None => Outcome::Need(RequestView::ReadTexts { paths: seq![path] }),
            Some(Err(_)) => Outcome::Done(Seq::empty()),
            Some(Ok(existing)) => spec_write_step(
                env,
                path,
                spec_claude_context(Some(existing@)),
                "Warning: could not update "@ + file + ": "@,
                if spec_lines(existing@).contains(section_heading()) {
                    "Updated NotarAI section in "@ + file
                } else {
                    "Added NotarAI context to "@ + file
                },
            ),
        },
    }
}

/// Brings the assistant's context file in the project at `project_dir` up to
/// date: the file is made if it is missing, gets the section appended if it
/// lacks it, and gets the section replaced otherwise. A file that cannot be
/// read is left alone, without a word.
pub fn setup_claude_context(project_dir: &str, file: &str, env: &Observations) -> (r: Step<
    Vec<Line>,
>)
    ensures
        printed_view(r) == spec_setup_context(*env, project_dir@, file@),
{
    let path = join_path(project_dir, file);
    let exists = match env.path_exists(path.as_str()) {
        Err(q) => {
            return Step::Need(q);
        },
        Ok(b) => b,
    };
    if !exists {
        let warning = concat3("Warning: could not create ", file, ": ");
        let done = concat("Added NotarAI context to ", file);
        let content = claude_context(None);
        return write_step(path.as_str(), content.as_str(), warning.as_str(), done.as_str(), env);
    }
    let existing = match env.text_at(path.as_str()) {
        Err(q) => {
            return Step::Need(q);
        },
        Ok(Err(_)) => {
            return Step::Done(no_line());
        },
        Ok(Ok(existing)) => existing,
    };
    let has_section = has_line(&lines(existing.as_str()), "## NotarAI");
    let warning = concat3("Warning: could not update ", file, ": ");
    let done = if has_section {
        concat("Updated NotarAI section in ", file)
    } else {
        concat("Added NotarAI context to ", file)
    };
    let content = claude_context(Some(existing.as_str()));
    write_step(path.as_str(), content.as_str(), warning.as_str(), done.as_str(), env)
}

/// What keeping the hash store out of version control prints.
pub open spec fn spec_setup_gitignore(env: Observations, root: Seq<char>) -> Outcome<Printed> {
    let path = spec_join(root, ".gitignore"@);
    match env.spec_exists(path) {
        None => Outcome::Need(RequestView::PathExists { path }),
        Some(false) => spec_ignore_step(env, path, Seq::empty()),
        Some(true) => match env.spec_text(path) {
            None => Outcome::Need(RequestView::ReadTexts { paths: seq![path] }),
            Some(Err(e)) => Outcome::Done(
                seq![err("Warning: could not read .gitignore: "@ + e@)],
            ),
            Some(Ok(existing)) => spec_ignore_step(env, path, existing@),
        },
    }
}

/// What adding the hash store's directory to the ignore file at `path`,
/// whose text is `existing`, prints.
pub open spec fn spec_ignore_step(
    env: Observations,
    path: Seq<char>,
    existing: Seq<char>,
) -> Outcome<Printed> {
    match spec_gitignore(existing) {
        None => Outcome::Done(seq![out(".notarai/.cache/ already in .gitignore"@)]),
        Some(content) => spec_write_step(
            env,
            path,
            content,
            "Warning: could not update .gitignore: "@,
            "Added .notarai/.cache/ to .gitignore"@,
        ),
    }
}

fn ignore_step(path: &str, existing: &str, env: &Observations) -> (r: Step<Vec<Line>>)
    ensures
        printed_view(r) == spec_ignore_step(*env, path@, existing@),
{
    match gitignore_with_cache(existing) {
        None => Step::Done(one_out(owned(".notarai/.cache/ already in .gitignore"))),
        Some(content) => write_step(
            path,
            content.as_str(),
            "Warning: could not update .gitignore: ",
            "Added .notarai/.cache/ to .gitignore",
            env,
        ),
    }
}

/// Makes sure that the ignore file of the project at `project_dir` names the
/// hash store's directory: the file is made if it is missing, and left as it
/// is if it names the directory already.
pub fn setup_gitignore(project_dir: &str, env: &Observations) -> (r: Step<Vec<Line>>)
    ensures
        printed_view(r) == spec_setup_gitignore(*env, project_dir@),
{
    let path = join_path(project_dir, ".gitignore");
    let exists = match env.path_exists(path.as_str()) {
        Err(q) => {
            return Step::Need(q);
        },
        Ok(b) => b,
    };
    if !exists {
        let empty = String::new();
        assert(empty@ =~= Seq::<char>::empty());
        return ignore_step(path.as_str(), empty.as_str(), env);
    }
    match env.text_at(path.as_str()) {
        Err(q) => Step::Need(q),
        Ok(Err(e)) => Step::Done(
            one_err(concat("Warning: could not read .gitignore: ", e.as_str())),
        ),
        Ok(Ok(existing)) => ignore_step(path.as_str(), existing.as_str(), env),
    }
}

/// What carrying out `setup` on the configuration file at `path` prints. An
/// update is written as indented JSON; `messages` holds what to print.
pub open spec fn spec_apply_setup(
    env: Observations,
    path: Seq<char>,
    setup: Setup,
    messages: MessagesView,
) -> Outcome<Printed> {
    match setup {
        Setup::AlreadyConfigured => Outcome::Done(seq![out(messages.already)]),
        Setup::Malformed => Outcome::Done(seq![err(messages.malformed)]),
        Setup::Updated(doc) => spec_write_step(
            env,
            path,
            json_pretty(doc) + seq!['\n'],
            messages.warning,
            messages.done,
        ),
    }
}

/// `SetupMessages` as plain text.
pub struct MessagesView {
    pub already: Seq<char>,
    pub malformed: Seq<char>,
    pub warning: Seq<char>,
    pub done: Seq<char>,
}

impl View for SetupMessages {
    type V = MessagesView;

    open spec fn view(&self) -> MessagesView {
        MessagesView {
            already: self.already@,
            malformed: self.malformed@,
            warning: self.warning@,
            done: self.done@,
        }
    }
}

/// What to print about a configuration file.
pub struct SetupMessages {
    /// When the file holds the entry already.
    pub already: String,
    /// When the file is not shaped so that the entry could be added.
    pub malformed: String,
    /// When the file cannot be written; the reason follows.
    pub warning: String,
    /// When the file was written.
    pub done: String,
}

/// Carries out `setup` on the configuration file at `path`: an update is
/// written, anything else is only reported.
pub fn apply_setup(path: &str, setup: &Setup, messages: &SetupMessages, env: &Observations) -> (r:
    Step<Vec<Line>>)
    ensures
        printed_view(r) == spec_apply_setup(*env, path@, *setup, messages@),
{
    match setup {
        Setup::AlreadyConfigured => Step::Done(one_out(messages.already.clone())),
        Setup::Malformed => Step::Done(one_err(messages.malformed.clone())),
        Setup::Updated(doc) => {
            let content = config_text(doc);
            write_step(
                path,
                content.as_str(),
                messages.warning.as_str(),
                messages.done.as_str(),
                env,
            )
        },
    }
}

/// What setting a project up takes from its caller: the names that the
/// coding assistant goes by, and the texts that are installed as they are.
pub struct InitAssets {
    /// The name of the assistant's directory, below the project's root.
    pub assistant: String,
    /// The name of the assistant's context file, in the project's root.
    pub context_file: String,
    /// The text of the command that reconciles specs and code.
    pub reconcile: String,
    /// The text of the command that writes a project's first specs.
    pub bootstrap: String,
    /// The template of the read-me of the specs directory.
    pub readme_template: String,
    /// The program's version.
    pub version: String,
}

/// `InitAssets` as plain text.
pub struct AssetsView {
    pub assistant: Seq<char>,
    pub context_file: Seq<char>,
    pub reconcile: Seq<char>,
    pub bootstrap: Seq<char>,
    pub readme_template: Seq<char>,
    pub version: Seq<char>,
}

impl View for InitAssets {
    type V = AssetsView;

    open spec fn view(&self) -> AssetsView {
        AssetsView {
            assistant: self.assistant@,
            context_file: self.context_file@,
            reconcile: self.reconcile@,
            bootstrap: self.bootstrap@,
            readme_template: self.readme_template@,
            version: self.version@,
        }
    }
}

/// The settings to start from: those of the settings file in the assistant's
/// directory, none when there is no such file. A file that cannot be read or
/// is not JSON ends the setting up.
pub open spec fn spec_start_settings(
    env: Observations,
    assistant_dir: Seq<char>,
    assistant: Seq<char>,
) -> Outcome<Result<Option<JsonValue>, Printed>> {
    let path = spec_join(assistant_dir, "settings.json"@);
    match env.spec_exists(path) {
        None => Outcome::Need(RequestView::PathExists { path }),
        Some(false) => Outcome::Done(Ok(None)),
        Some(true) => match env.spec_text(path) {
            None => Outcome::Need(RequestView::ReadTexts { paths: seq![path] }),
            Some(Err(_)) => Outcome::Done(
                Err(seq![err("Error: could not read "@ + assistant + "/settings.json"@)]),
            ),
            Some(Ok(content)) => match json_document(content@) {
                Err(_) => Outcome::Done(
                    Err(
                        seq![
                            err(
                                "Error: could not parse existing "@ + assistant
                                    + "/settings.json"@,
                            ),
                        ],
                    ),
                ),
                Ok(doc) => Outcome::Done(Ok(Some(doc))),
            },
        },
    }
}

/// Reads the settings to start from.
pub fn start_settings(assistant_dir: &str, assistant: &str, env: &Observations) -> (r: Step<
    Result<Option<JsonValue>, Vec<Line>>,
>)
    ensures
        match r {
            Step::Need(q) => spec_start_settings(*env, assistant_dir@, assistant@) == Outcome::<
                Result<Option<JsonValue>, Printed>,
            >::Need(q@),
            Step::Done(Ok(existing)) => spec_start_settings(*env, assistant_dir@, assistant@)
                == Outcome::Done(Ok::<Option<JsonValue>, Printed>(existing)),
            Step::Done(Err(lines)) => spec_start_settings(*env, assistant_dir@, assistant@)
                == Outcome::Done(Err::<Option<JsonValue>, Printed>(lines_view(lines@))),
        },
{
    let path = join_path(assistant_dir, "settings.json");
    match env.path_exists(path.as_str()) {
        Err(q) => {
            return Step::Need(q);
        },
        Ok(false) => {
            return Step::Done(Ok(None));
        },
        Ok(true) => {},
    }
    match env.text_at(path.as_str()) {
        Err(q) => Step::Need(q),
        Ok(Err(_)) => Step::Done(
            Err(one_err(concat3("Error: could not read ", assistant, "/settings.json"))),
        ),
        Ok(Ok(content)) => match parse_json_text(content.as_str()) {
            Err(_) => Step::Done(
                Err(
                    one_err(
                        concat3("Error: could not parse existing ", assistant, "/settings.json"),
                    ),
                ),
            ),
            Ok(doc) => Step::Done(Ok(Some(doc))),
        },
    }
}

/// What setting up comes to before the hook is added: it ends, or leaves
/// the settings to start from.
pub open spec fn spec_before_hook(
    env: Observations,
    root: Seq<char>,
    assets: AssetsView,
) -> Outcome<Result<Option<JsonValue>, CliView>> {
    let assistant_dir = spec_join(root, assets.assistant);
    match spec_ensure_dir(env, assistant_dir) {
        Outcome::Need(q) => Outcome::Need(q),
        Outcome::Done(Some(e)) => Outcome::Done(
            Err(
                ended(
                    1,
                    seq![
                        err("Error: could not create "@ + assets.assistant + "/ directory: "@ + e),
                    ],
                ),
            ),
        ),
        Outcome::Done(None) => match spec_start_settings(env, assistant_dir, assets.assistant) {
            Outcome::Need(q) => Outcome::Need(q),
            Outcome::Done(Err(lines)) => Outcome::Done(Err(ended(1, lines))),
            Outcome::Done(Ok(existing)) => Outcome::Done(Ok(existing)),
        },
    }
}

/// What is printed about the settings file.
pub open spec fn hook_messages(assistant: Seq<char>) -> MessagesView {
    MessagesView {
        already: "NotarAI hook already configured in "@ + assistant + "/settings.json"@,
        malformed: "Error: "@ + assistant + "/settings.json holds no settings"@,
        warning: "Error: could not write "@ + assistant + "/settings.json: "@,
        done: "Added NotarAI validation hook to "@ + assistant + "/settings.json"@,
    }
}

/// What is printed about the tool configuration file, which is updated when
/// `updating` and made otherwise.
pub open spec fn mcp_messages(updating: bool) -> MessagesView {
    MessagesView {
        already: "NotarAI MCP server already configured in .mcp.json"@,
        malformed: "Warning: .mcp.json holds no configuration"@,
        warning: if updating {
            "Warning: could not update .mcp.json: "@
        } else {
            "Warning: could not write .mcp.json: "@
        },
        done: if updating {
            "Added notarai MCP server to .mcp.json"@
        } else {
            "Added NotarAI MCP server to .mcp.json"@
        },
    }
}

/// What installing everything but the hook and the tool configuration
/// prints: the schema, the read-me, the two commands, the context file and
/// the ignore file, in this order. None of these steps stops the others.
pub open spec fn spec_scaffold(env: Observations, root: Seq<char>, assets: AssetsView) -> Outcome<
    Printed,
> {
    let assistant_dir = spec_join(root, assets.assistant);
    let notarai_dir = spec_join(root, ".notarai"@);
    then(
        then(
            then(
                then(
                    then(
                        spec_setup_schema(env, notarai_dir),
                        spec_setup_readme(
                            env,
                            notarai_dir,
                            assets.readme_template,
                            assets.version,
                        ),
                    ),
                    spec_setup_command(
                        env,
                        "notarai-reconcile"@,
                        assets.reconcile,
                        assistant_dir,
                        assets.assistant,
                    ),
                ),
                spec_setup_command(
                    env,
                    "notarai-bootstrap"@,
                    assets.bootstrap,
                    assistant_dir,
                    assets.assistant,
                ),
            ),
            spec_setup_context(env, root, assets.context_file),
        ),
        spec_setup_gitignore(env, root),
    )
}

/// Installs everything but the hook and the tool configuration.
pub fn scaffold(root: &str, assets: &InitAssets, env: &Observations) -> (r: Step<Vec<Line>>)
    ensures
        printed_view(r) == spec_scaffold(*env, root@, assets@),
{
    let assistant_dir = join_path(root, assets.assistant.as_str());
    let notarai_dir = join_path(root, ".notarai");
    let mut printed = match setup_schema(notarai_dir.as_str(), env) {
        Step::Need(q) => {
            return Step::Need(q);
        },
        Step::Done(lines) => lines,
    };
    let ghost l1 = lines_view(printed@);
    let mut more = match setup_notarai_readme(
        notarai_dir.as_str(),
        assets.readme_template.as_str(),
        assets.version.as_str(),
        env,
    ) {
        Step::Need(q) => {
            return Step::Need(q);
        },
        Step::Done(lines) => lines,
    };
    let ghost l2 = lines_view(more@);
    printed.append(&mut more);
    assert(lines_view(printed@) =~= l1 + l2);
    let mut more = match setup_command(
        "notarai-reconcile",
        assets.reconcile.as_str(),
        assistant_dir.as_str(),
        assets.assistant.as_str(),
        env,
    ) {
        Step::Need(q) => {
            return Step::Need(q);
        },
        Step::Done(lines) => lines,
    };
    let ghost l3 = lines_view(more@);
    printed.append(&mut more);
    assert(lines_view(printed@) =~= l1 + l2 + l3);
    let mut more = match setup_command(
        "notarai-bootstrap",
        assets.bootstrap.as_str(),
        assistant_dir.as_str(),
        assets.assistant.as_str(),
        env,
    ) {
        Step::Need(q) => {
            return Step::Need(q);
        },
        Step::Done(lines) => lines,
    };
    let ghost l4 = lines_view(more@);
    printed.append(&mut more);
    assert(lines_view(printed@) =~= l1 + l2 + l3 + l4);
    let mut more = match setup_claude_context(root, assets.context_file.as_str(), env) {
        Step::Need(q) => {
            return Step::Need(q);
        },
        Step::Done(lines) => lines,
    };
    let ghost l5 = lines_view(more@);
    printed.append(&mut more);
    assert(lines_view(printed@) =~= l1 + l2 + l3 + l4 + l5);
    let mut more = match setup_gitignore(root, env) {
        Step::Need(q) => {
            return Step::Need(q);
        },
        Step::Done(lines) => lines,
    };
    let ghost l6 = lines_view(more@);
    printed.append(&mut more);
    assert(lines_view(printed@) =~= l1 + l2 + l3 + l4 + l5 + l6);
    Step::Done(printed)
}

/// What adding the validation hook to the settings prints, given what adding
/// it comes to.
pub open spec fn spec_hook_step(
    env: Observations,
    root: Seq<char>,
    assets: AssetsView,
    hook: Setup,
) -> Outcome<Printed> {
    spec_apply_setup(
        env,
        spec_join(spec_join(root, assets.assistant), "settings.json"@),
        hook,
        hook_messages(assets.assistant),
    )
}

/// What setting up comes to before the tool configuration is touched: it
/// ends, or leaves what was printed so far.
pub open spec fn spec_before_mcp(
    env: Observations,
    root: Seq<char>,
    assets: AssetsView,
    hook: Setup,
) -> Outcome<Result<Printed, CliView>> {
    match spec_before_hook(env, root, assets) {
        Outcome::Need(q) => Outcome::Need(q),
        Outcome::Done(Err(view)) => Outcome::Done(Err(view)),
        Outcome::Done(Ok(_)) => match spec_hook_step(env, root, assets, hook) {
            Outcome::Need(q) => Outcome::Need(q),
            Outcome::Done(first) => if any_complaint(first) {
                Outcome::Done(Err(ended(1, first)))
            } else {
                match spec_ensure_dir(env, spec_join(root, ".notarai"@)) {
                    Outcome::Need(q) => Outcome::Need(q),
                    Outcome::Done(Some(e)) => Outcome::Done(
                        Err(
                            ended(
                                1,
                                first + seq![
                                    err("Error: could not create .notarai/ directory: "@ + e),
                                ],
                            ),
                        ),
                    ),
                    Outcome::Done(None) => match spec_scaffold(env, root, assets) {
                        Outcome::Need(q) => Outcome::Need(q),
                        Outcome::Done(second) => Outcome::Done(Ok(first + second)),
                    },
                }
            },
        },
    }
}

/// The text of the tool configuration file of the project at `root`: none
/// when there is no file. A file that cannot be read is warned about and left
/// alone.
pub open spec fn spec_mcp_existing(env: Observations, root: Seq<char>) -> Outcome<
    Result<Option<Seq<char>>, Printed>,
> {
    let path = spec_join(root, ".mcp.json"@);
    match env.spec_exists(path) {
        None => Outcome::Need(RequestView::PathExists { path }),
        Some(false) => Outcome::Done(Ok(None)),
        Some(true) => match env.spec_text(path) {
            None => Outcome::Need(RequestView::ReadTexts { paths: seq![path] }),
            Some(Err(e)) => Outcome::Done(
                Err(seq![err("Warning: could not read .mcp.json: "@ + e@)]),
            ),
            Some(Ok(text)) => Outcome::Done(Ok(Some(text@))),
        },
    }
}

/// What adding the program to the tool configuration prints, given what
/// adding it comes to.
pub open spec fn spec_mcp_step(
    env: Observations,
    root: Seq<char>,
    server: Setup,
) -> Outcome<Printed> {
    match spec_mcp_existing(env, root) {
        Outcome::Need(q) => Outcome::Need(q),
        Outcome::Done(Err(lines)) => Outcome::Done(lines),
        Outcome::Done(Ok(existing)) => spec_apply_setup(
            env,
            spec_join(root, ".mcp.json"@),
            server,
            mcp_messages(existing is Some),
        ),
    }
}

/// What setting up comes to, given what adding the hook and adding the
/// program come to.
pub open spec fn spec_run(
    env: Observations,
    root: Seq<char>,
    assets: AssetsView,
    hook: Setup,
    server: Setup,
) -> Outcome<CliView> {
    match spec_before_mcp(env, root, assets, hook) {
        Outcome::Need(q) => Outcome::Need(q),
        Outcome::Done(Err(view)) => Outcome::Done(view),
        Outcome::Done(Ok(printed)) => match spec_mcp_step(env, root, server) {
            Outcome::Need(q) => Outcome::Need(q),
            Outcome::Done(last) => Outcome::Done(ended(0, printed + last)),
        },
    }
}

/// True when `outcome` is what setting up comes to for `hook` and `server`,
/// where `hook` is what adding the validation hook to the project's settings
/// comes to, and `server` what adding the program to the project's tool
/// configuration comes to. `start` stands for the settings that the hook is
/// added to.
pub open spec fn comes_to(
    env: Observations,
    root: Seq<char>,
    assets: AssetsView,
    outcome: Outcome<CliView>,
    start: JsonValue,
    hook: Setup,
    server: Setup,
) -> bool {
    &&& spec_before_hook(env, root, assets) matches Outcome::Done(Ok(existing))
        ==> hook_setup_from(existing, start, hook)
    &&& spec_before_mcp(env, root, assets, hook) matches Outcome::Done(Ok(_)) ==> (
    spec_mcp_existing(env, root) matches Outcome::Done(Ok(existing)) ==> server_setup_from(
        existing,
        server,
    ))
    &&& outcome == spec_run(env, root, assets, hook, server)
}

fn hook_messages_for(assistant: &str) -> (r: SetupMessages)
    ensures
        r@ == hook_messages(assistant@),
{
    SetupMessages {
        already: concat3("NotarAI hook already configured in ", assistant, "/settings.json"),
        malformed: concat3("Error: ", assistant, "/settings.json holds no settings"),
        warning: concat3("Error: could not write ", assistant, "/settings.json: "),
        done: concat3("Added NotarAI validation hook to ", assistant, "/settings.json"),
    }
}

fn mcp_messages_for(updating: bool) -> (r: SetupMessages)
    ensures
        r@ == mcp_messages(updating),
{
    SetupMessages {
        already: owned("NotarAI MCP server already configured in .mcp.json"),
        malformed: owned("Warning: .mcp.json holds no configuration"),
        warning: if updating {
            owned("Warning: could not update .mcp.json: ")
        } else {
            owned("Warning: could not write .mcp.json: ")
        },
        done: if updating {
            owned("Added notarai MCP server to .mcp.json")
        } else {
            owned("Added NotarAI MCP server to .mcp.json")
        },
    }
}

/// Sets the project at `root` up to work with the program: the validation
/// hook is added to the assistant's settings, the bundled schema, a read-me
/// and the two commands are installed, the assistant's context file and the
/// ignore file are brought up to date, and the program is added to the tool
/// configuration.
///
/// Setting up ends with exit code 1 when the assistant's directory or the
/// specs directory cannot be made, or when the settings cannot be read,
/// understood or written. Everything after that is warned about when it
/// fails and stops nothing.
pub fn run(root: &str, assets: &InitAssets, env: &Observations) -> (r: Step<CliOutput>)
    ensures
        exists|start: JsonValue, hook: Setup, server: Setup| #[trigger]
            comes_to(*env, root@, assets@, cli_view(r), start, hook, server),
{
    let ghost any_doc: JsonValue = vstd::pervasive::arbitrary();
    let ghost any: Setup = vstd::pervasive::arbitrary();
    let assistant_dir = join_path(root, assets.assistant.as_str());
    let notarai_dir = join_path(root, ".notarai");
    match ensure_dir(assistant_dir.as_str(), env) {
        Step::Need(q) => {
            let r = Step::<CliOutput>::Need(q);
            assert(comes_to(*env, root@, assets@, cli_view(r), any_doc, any, any));
            return r;
        },
        Step::Done(Some(e)) => {
            let head = concat3(
                "Error: could not create ",
                assets.assistant.as_str(),
                "/ directory: ",
            );
            let r = finish(1, one_err(concat(head.as_str(), e.as_str())));
            assert(comes_to(*env, root@, assets@, cli_view(r), any_doc, any, any));
            return r;
        },
        Step::Done(None) => {},
    }
    let existing = match start_settings(assistant_dir.as_str(), assets.assistant.as_str(), env) {
        Step::Need(q) => {
            let r = Step::<CliOutput>::Need(q);
            assert(comes_to(*env, root@, assets@, cli_view(r), any_doc, any, any));
            return r;
        },
        Step::Done(Err(lines)) => {
            let r = finish(1, lines);
            assert(comes_to(*env, root@, assets@, cli_view(r), any_doc, any, any));
            return r;
        },
        Step::Done(Ok(existing)) => existing,
    };
    let settings: JsonValue = match existing {
        Some(doc) => doc,
        None => JsonValue::Object(Vec::new()),
    };
    let ghost start = settings;
    let hook = settings_with_hook(settings);
    let settings_path = join_path(assistant_dir.as_str(), "settings.json");
    let messages = hook_messages_for(assets.assistant.as_str());
    let mut printed = match apply_setup(settings_path.as_str(), &hook, &messages, env) {
        Step::Need(q) => {
            let r = Step::<CliOutput>::Need(q);
            assert(comes_to(*env, root@, assets@, cli_view(r), start, hook, any));
            return r;
        },
        Step::Done(lines) => lines,
    };
    let ghost first = lines_view(printed@);
    if complained(&printed) {
        let r = finish(1, printed);
        assert(comes_to(*env, root@, assets@, cli_view(r), start, hook, any));
        return r;
    }
    match ensure_dir(notarai_dir.as_str(), env) {
        Step::Need(q) => {
            let r = Step::<CliOutput>::Need(q);
            assert(comes_to(*env, root@, assets@, cli_view(r), start, hook, any));
            return r;
        },
        Step::Done(Some(e)) => {
            complain(
                &mut printed,
                concat("Error: could not create .notarai/ directory: ", e.as_str()),
            );
            assert(lines_view(printed@) =~= first + seq![
                err("Error: could not create .notarai/ directory: "@ + e@),
            ]);
            let r = finish(1, printed);
            assert(comes_to(*env, root@, assets@, cli_view(r), start, hook, any));
            return r;
        },
        Step::Done(None) => {},
    }
    let mut second = match scaffold(root, assets, env) {
        Step::Need(q) => {
            let r = Step::<CliOutput>::Need(q);
            assert(comes_to(*env, root@, assets@, cli_view(r), start, hook, any));
            return r;
        },
        Step::Done(lines) => lines,
    };
    let ghost second_view = lines_view(second@);
    printed.append(&mut second);
    assert(lines_view(printed@) =~= first + second_view);
    let mcp_path = join_path(root, ".mcp.json");
    let exists = match env.path_exists(mcp_path.as_str()) {
        Err(q) => {
            let r = Step::<CliOutput>::Need(q);
            assert(comes_to(*env, root@, assets@, cli_view(r), start, hook, any));
            return r;
        },
        Ok(b) => b,
    };
    let text: Option<&String> = if exists {
        match env.text_at(mcp_path.as_str()) {
            Err(q) => {
                let r = Step::<CliOutput>::Need(q);
                assert(comes_to(*env, root@, assets@, cli_view(r), start, hook, any));
                return r;
            },
            Ok(Err(e)) => {
                complain(&mut printed, concat("Warning: could not read .mcp.json: ", e.as_str()));
                assert(lines_view(printed@) =~= first + second_view + seq![
                    err("Warning: could not read .mcp.json: "@ + e@),
                ]);
                let r = finish(0, printed);
                assert(comes_to(*env, root@, assets@, cli_view(r), start, hook, any));
                return r;
            },
            Ok(Ok(text)) => Some(text),
        }
    } else {
        None
    };
    let server = match text {
        Some(t) => mcp_config_update(Some(t.as_str())),
        None => mcp_config_update(None),
    };
    let messages = mcp_messages_for(exists);
    let mut last = match apply_setup(mcp_path.as_str(), &server, &messages, env) {
        Step::Need(q) => {
            let r = Step::<CliOutput>::Need(q);
            assert(comes_to(*env, root@, assets@, cli_view(r), start, hook, server));
            return r;
        },
        Step::Done(lines) => lines,
    };
    let ghost last_view = lines_view(last@);
    printed.append(&mut last);
    assert(lines_view(printed@) =~= first + second_view + last_view);
    let r = finish(0, printed);
    assert(comes_to(*env, root@, assets@, cli_view(r), start, hook, server));
    r
}

} // verus!
