//! The request side of the tool protocol: which method a request names,
//! which tool a call names, and what arguments it carries.

use vstd::prelude::*;
use crate::env::{Observations, Outcome, Step};
use crate::json::JsonValue;
use crate::mcp_tools::{
    clear_cache, get_changed_artifacts, get_spec_diff, list_affected_specs, mark_reconciled,
    spec_clear_cache, spec_get_changed_artifacts, spec_get_spec_diff, spec_list_affected_specs,
    spec_mark_reconciled, step_view, AffectedSpecs, AffectedSpecsView, ChangedArtifacts,
    ChangedArtifactsView, Cleared, McpError, McpErrorView, Reconciled, ReconciledView, SpecDiff,
    SpecDiffView,
};
use crate::text::{concat, has_prefix, owned, starts_with, str_eq, texts};

verus! {

/// The code for a request that is not JSON.
pub const PARSE_ERROR: i32 = -32700;

/// The code for a method or a tool that does not exist.
pub const METHOD_NOT_FOUND: i32 = -32601;

/// The code for a call whose arguments are missing or ill-formed.
pub const INVALID_PARAMS: i32 = -32602;

/// The base revision that is taken when a call names none.
pub open spec fn default_base() -> Seq<char> {
    "main"@
}

/// What a request's method asks for.
#[derive(Clone, Copy, PartialEq, Eq, Structural, Debug)]
pub enum Route {
    Initialize,
    ToolsList,
    ToolsCall,
    /// A notification: it is not answered.
    Notification,
    /// No such method.
    Unknown,
}

/// Where `method` leads.
pub open spec fn spec_route(method: Seq<char>) -> Route {
    if has_prefix(method, "notifications/"@) {
        Route::Notification
    } else if method == "initialize"@ {
        Route::Initialize
    } else if method == "tools/list"@ {
        Route::ToolsList
    } else if method == "tools/call"@ {
        Route::ToolsCall
    } else {
        Route::Unknown
    }
}

/// Tells what the method of a request asks for.
pub fn route(method: &str) -> (r: Route)
    ensures
        r == spec_route(method@),
{
    if starts_with(method, "notifications/") {
        Route::Notification
    } else if str_eq(method, "initialize") {
        Route::Initialize
    } else if str_eq(method, "tools/list") {
        Route::ToolsList
    } else if str_eq(method, "tools/call") {
        Route::ToolsCall
    } else {
        Route::Unknown
    }
}

/// The error that answers a request for a method that does not exist.
pub fn method_not_found(method: &str) -> (e: McpError)
    ensures
        e.code == METHOD_NOT_FOUND,
        e.message@ == "Method not found: "@ + method@,
{
    McpError { code: METHOD_NOT_FOUND, message: concat("Method not found: ", method) }
}

/// The error that answers a line that could not be parsed, given the
/// parser's message.
pub fn parse_error(detail: &str) -> (e: McpError)
    ensures
        e.code == PARSE_ERROR,
        e.message@ == "Parse error: "@ + detail@,
{
    McpError { code: PARSE_ERROR, message: concat("Parse error: ", detail) }
}

/// A call of one of the tools, with its arguments.
pub enum ToolCall {
    ListAffectedSpecs { base_branch: String },
    GetSpecDiff {
        spec_path: String,
        base_branch: String,
        exclude_patterns: Vec<String>,
        bypass_cache: bool,
    },
    GetChangedArtifacts { spec_path: String, artifact_type: Option<String> },
    MarkReconciled { files: Vec<String> },
    ClearCache,
}

/// A `ToolCall` over plain values.
pub enum ToolCallView {
    ListAffectedSpecs { base_branch: Seq<char> },
    GetSpecDiff {
        spec_path: Seq<char>,
        base_branch: Seq<char>,
        exclude_patterns: Seq<Seq<char>>,
        bypass_cache: bool,
    },
    GetChangedArtifacts { spec_path: Seq<char>, artifact_type: Option<Seq<char>> },
    MarkReconciled { files: Seq<Seq<char>> },
    ClearCache,
}

impl View for ToolCall {
    type V = ToolCallView;

    open spec fn view(&self) -> ToolCallView {
        match self {
            ToolCall::ListAffectedSpecs { base_branch } => ToolCallView::ListAffectedSpecs {
                base_branch: base_branch@,
            },
            ToolCall::GetSpecDiff { spec_path, base_branch, exclude_patterns, bypass_cache } => {
                ToolCallView::GetSpecDiff {
                    spec_path: spec_path@,
                    base_branch: base_branch@,
                    exclude_patterns: texts(exclude_patterns@),
                    bypass_cache: *bypass_cache,
                }
            },
            ToolCall::GetChangedArtifacts { spec_path, artifact_type } => {
                ToolCallView::GetChangedArtifacts {
                    spec_path: spec_path@,
                    artifact_type: match artifact_type {
                        Some(t) => Some(t@),
                        None => None,
                    },
                }
            },
            ToolCall::MarkReconciled { files } => ToolCallView::MarkReconciled {
                files: texts(files@),
            },
            ToolCall::ClearCache => ToolCallView::ClearCache,
        }
    }
}

/// The strings among `items`, in order; anything else is passed over.
pub open spec fn string_items(items: Seq<JsonValue>) -> Seq<Seq<char>>
    decreases items.len(),
{
    if items.len() == 0 {
        Seq::empty()
    } else {
        match items.last().spec_as_str() {
            Some(s) => string_items(items.drop_last()).push(s),
            None => string_items(items.drop_last()),
        }
    }
}

/// The argument named `key` of a call, if the call has arguments and that
/// one among them.
pub open spec fn argument(params: JsonValue, key: Seq<char>) -> Option<JsonValue> {
    match params.spec_get("arguments"@) {
        Some(args) => args.spec_get(key),
        None => None,
    }
}

/// The string argument named `key`.
pub open spec fn string_argument(params: JsonValue, key: Seq<char>) -> Option<Seq<char>> {
    match argument(params, key) {
        Some(v) => v.spec_as_str(),
        None => None,
    }
}

/// The base revision that a call names, or the default.
pub open spec fn base_argument(params: JsonValue) -> Seq<char> {
    match string_argument(params, "base_branch"@) {
        Some(b) => b,
        None => default_base(),
    }
}

/// The list of strings under the argument named `key`, if the argument is a
/// list.
pub open spec fn list_argument(params: JsonValue, key: Seq<char>) -> Option<Seq<Seq<char>>> {
    match argument(params, key) {
        Some(v) => match v.spec_as_array() {
            Some(items) => Some(string_items(items)),
            None => None,
        },
        None => None,
    }
}

/// The truth value under the argument named `key`, or `false`.
pub open spec fn flag_argument(params: JsonValue, key: Seq<char>) -> bool {
    match argument(params, key) {
        Some(v) => v.spec_as_bool() == Some(true),
        None => false,
    }
}

/// An error for ill-formed arguments.
pub open spec fn invalid(message: Seq<char>) -> McpErrorView {
    McpErrorView { code: INVALID_PARAMS, message }
}

/// The call that the parameters of a `tools/call` request stand for, or the
/// error to answer with: parameters, a tool name and each tool's required
/// arguments must be there, and the tool must exist.
pub open spec fn spec_parse_tool_call(params: Option<JsonValue>) -> Result<
    ToolCallView,
    McpErrorView,
> {
    match params {
        None => Err(invalid("Missing params"@)),
        Some(params) => match params.spec_get_str("name"@) {
            None => Err(invalid("Missing tool name"@)),
            Some(name) => if name == "list_affected_specs"@ {
                Ok(ToolCallView::ListAffectedSpecs { base_branch: base_argument(params) })
            } else if name == "get_spec_diff"@ {
                match string_argument(params, "spec_path"@) {
                    None => Err(invalid("Missing spec_path"@)),
                    Some(spec_path) => Ok(
                        ToolCallView::GetSpecDiff {
                            spec_path,
                            base_branch: base_argument(params),
                            exclude_patterns: match list_argument(params, "exclude_patterns"@) {
                                Some(l) => l,
                                None => Seq::empty(),
                            },
                            bypass_cache: flag_argument(params, "bypass_cache"@),
                        },
                    ),
                }
            } else if name == "get_changed_artifacts"@ {
                match string_argument(params, "spec_path"@) {
                    None => Err(invalid("Missing spec_path"@)),
                    Some(spec_path) => Ok(
                        ToolCallView::GetChangedArtifacts {
                            spec_path,
                            artifact_type: string_argument(params, "artifact_type"@),
                        },
                    ),
                }
            } else if name == "mark_reconciled"@ {
                match list_argument(params, "files"@) {
                    None => Err(invalid("Missing files"@)),
                    Some(files) => Ok(ToolCallView::MarkReconciled { files }),
                }
            } else if name == "clear_cache"@ {
                Ok(ToolCallView::ClearCache)
            } else {
                Err(McpErrorView { code: METHOD_NOT_FOUND, message: "Unknown tool: "@ + name })
            },
        },
    }
}

fn strings_of(items: &Vec<JsonValue>) -> (r: Vec<String>)
    ensures
        texts(r@) == string_items(items@),
{
    let mut out: Vec<String> = Vec::new();
    let mut i: usize = 0;
    assert(items@.take(0) =~= Seq::<JsonValue>::empty());
    assert(texts(out@) =~= Seq::<Seq<char>>::empty());
    while i < items.len()
        invariant
            i <= items.len(),
            texts(out@) == string_items(items@.take(i as int)),
        decreases items.len() - i,
    {
        proof {
            let next = items@.take(i + 1);
            assert(next.drop_last() =~= items@.take(i as int));
            assert(next.last() == items@[i as int]);
        }
        match items[i].as_str() {
            Some(s) => {
                let ghost before = out@;
                out.push(owned(s));
                assert(texts(out@) =~= texts(before).push(s@));
            },
            None => {},
        }
        i += 1;
    }
    assert(items@.take(items.len() as int) =~= items@);
    out
}

fn get_argument<'a>(params: &'a JsonValue, key: &str) -> (r: Option<&'a JsonValue>)
    ensures
        match r {
            Some(v) => argument(*params, key@) == Some(*v),
            None => argument(*params, key@) is None,
        },
{
    match params.get("arguments") {
        Some(args) => args.get(key),
        None => None,
    }
}

fn get_string_argument(params: &JsonValue, key: &str) -> (r: Option<String>)
    ensures
        match r {
            Some(s) => string_argument(*params, key@) == Some(s@),
            None => string_argument(*params, key@) is None,
        },
{
    match get_argument(params, key) {
        Some(v) => match v.as_str() {
            Some(s) => Some(owned(s)),
            None => None,
        },
        None => None,
    }
}

fn get_base_argument(params: &JsonValue) -> (r: String)
    ensures
        r@ == base_argument(*params),
{
    match get_string_argument(params, "base_branch") {
        Some(b) => b,
        None => owned("main"),
    }
}

fn get_list_argument(params: &JsonValue, key: &str) -> (r: Option<Vec<String>>)
    ensures
        match r {
            Some(l) => list_argument(*params, key@) == Some(texts(l@)),
            None => list_argument(*params, key@) is None,
        },
{
    match get_argument(params, key) {
        Some(v) => match v.as_array() {
            Some(items) => Some(strings_of(items)),
            None => None,
        },
        None => None,
    }
}

fn get_flag_argument(params: &JsonValue, key: &str) -> (r: bool)
    ensures
        r == flag_argument(*params, key@),
{
    match get_argument(params, key) {
        Some(v) => match v.as_bool() {
            Some(b) => b,
            None => false,
        },
        None => false,
    }
}

fn invalid_params(message: &str) -> (e: McpError)
    ensures
        e@ == invalid(message@),
{
    McpError { code: INVALID_PARAMS, message: owned(message) }
}

/// Reads the parameters of a `tools/call` request: the tool's name and the
/// arguments that the tool takes. A base revision that is not given is
/// `main`; exclusion patterns that are not given are none; the cache is
/// bypassed only when that is asked for.
pub fn parse_tool_call(params: Option<&JsonValue>) -> (r: Result<ToolCall, McpError>)
    ensures
        match r {
            Ok(call) => spec_parse_tool_call(
                match params {
                    Some(p) => Some(*p),
                    None => None,
                },
            ) == Ok::<ToolCallView, McpErrorView>(call@),
            Err(e) => spec_parse_tool_call(
                match params {
                    Some(p) => Some(*p),
                    None => None,
                },
            ) == Err::<ToolCallView, McpErrorView>(e@),
        },
{
    let params = match params {
        Some(p) => p,
        None => {
            return Err(invalid_params("Missing params"));
        },
    };
    let name = match params.get_str("name") {
        Some(n) => n,
        None => {
            return Err(invalid_params("Missing tool name"));
        },
    };
    if str_eq(name, "list_affected_specs") {
        Ok(ToolCall::ListAffectedSpecs { base_branch: get_base_argument(params) })
    } else if str_eq(name, "get_spec_diff") {
        let spec_path = match get_string_argument(params, "spec_path") {
            Some(s) => s,
            None => {
                return Err(invalid_params("Missing spec_path"));
            },
        };
        let exclude_patterns = match get_list_argument(params, "exclude_patterns") {
            Some(l) => l,
            None => {
                let none: Vec<String> = Vec::new();
                assert(texts(none@) =~= Seq::<Seq<char>>::empty());
                none
            },
        };
        Ok(
            ToolCall::GetSpecDiff {
                spec_path,
                base_branch: get_base_argument(params),
                exclude_patterns,
                bypass_cache: get_flag_argument(params, "bypass_cache"),
            },
        )
    } else if str_eq(name, "get_changed_artifacts") {
        let spec_path = match get_string_argument(params, "spec_path") {
            Some(s) => s,
            None => {
                return Err(invalid_params("Missing spec_path"));
            },
        };
        Ok(
            ToolCall::GetChangedArtifacts {
                spec_path,
                artifact_type: get_string_argument(params, "artifact_type"),
            },
        )
    } else if str_eq(name, "mark_reconciled") {
        match get_list_argument(params, "files") {
            Some(files) => Ok(ToolCall::MarkReconciled { files }),
            None => Err(invalid_params("Missing files")),
        }
    } else if str_eq(name, "clear_cache") {
        Ok(ToolCall::ClearCache)
    } else {
        Err(McpError { code: METHOD_NOT_FOUND, message: concat("Unknown tool: ", name) })
    }
}

/// What a tool returned.
pub enum ToolOutput {
    Affected(AffectedSpecs),
    Diff(SpecDiff),
    Changed(ChangedArtifacts),
    Reconciled(Reconciled),
    Cleared(Cleared),
}

/// A `ToolOutput` over plain values.
pub enum ToolOutputView {
    Affected(AffectedSpecsView),
    Diff(SpecDiffView),
    Changed(ChangedArtifactsView),
    Reconciled(ReconciledView),
    Cleared(bool),
}

impl View for ToolOutput {
    type V = ToolOutputView;

    open spec fn view(&self) -> ToolOutputView {
        match self {
            ToolOutput::Affected(v) => ToolOutputView::Affected(v@),
            ToolOutput::Diff(v) => ToolOutputView::Diff(v@),
            ToolOutput::Changed(v) => ToolOutputView::Changed(v@),
            ToolOutput::Reconciled(v) => ToolOutputView::Reconciled(v@),
            ToolOutput::Cleared(v) => ToolOutputView::Cleared(v@),
        }
    }
}

/// An outcome with its result wrapped by `wrap`; requests and errors stay as
/// they are.
pub open spec fn wrapped<T>(
    o: Outcome<Result<T, McpErrorView>>,
    wrap: spec_fn(T) -> ToolOutputView,
) -> Outcome<Result<ToolOutputView, McpErrorView>> {
    match o {
        Outcome::Need(q) => Outcome::Need(q),
        Outcome::Done(Ok(v)) => Outcome::Done(Ok(wrap(v))),
        Outcome::Done(Err(e)) => Outcome::Done(Err(e)),
    }
}

/// What running `call` in the project at `root` comes to: the outcome of the
/// operation that the call names, on the call's arguments.
pub open spec fn spec_run_tool(call: ToolCallView, root: Seq<char>, env: Observations) -> Outcome<
    Result<ToolOutputView, McpErrorView>,
> {
    match call {
        ToolCallView::ListAffectedSpecs { base_branch } => wrapped(
            spec_list_affected_specs(env, root, base_branch),
            |v: AffectedSpecsView| ToolOutputView::Affected(v),
        ),
        ToolCallView::GetSpecDiff { spec_path, base_branch, exclude_patterns, bypass_cache } => {
            wrapped(
                spec_get_spec_diff(
                    env,
                    root,
                    spec_path,
                    base_branch,
                    exclude_patterns,
                    bypass_cache,
                ),
                |v: SpecDiffView| ToolOutputView::Diff(v),
            )
        },
        ToolCallView::GetChangedArtifacts { spec_path, artifact_type } => wrapped(
            spec_get_changed_artifacts(env, root, spec_path, artifact_type),
            |v: ChangedArtifactsView| ToolOutputView::Changed(v),
        ),
        ToolCallView::MarkReconciled { files } => wrapped(
            spec_mark_reconciled(env, root, files),
            |v: ReconciledView| ToolOutputView::Reconciled(v),
        ),
        ToolCallView::ClearCache => wrapped(
            spec_clear_cache(env, root),
            |v: bool| ToolOutputView::Cleared(v),
        ),
    }
}

/// Runs the tool that `call` names on the project at `project_root`.
pub fn run_tool(call: &ToolCall, project_root: &str, env: &Observations) -> (r: Step<
    Result<ToolOutput, McpError>,
>)
    ensures
        step_view(r) == spec_run_tool(call@, project_root@, *env),
{
    match call {
        ToolCall::ListAffectedSpecs { base_branch } => {
            match list_affected_specs(base_branch.as_str(), project_root, env) {
                Step::Need(q) => Step::Need(q),
                Step::Done(Ok(v)) => Step::Done(Ok(ToolOutput::Affected(v))),
                Step::Done(Err(e)) => Step::Done(Err(e)),
            }
        },
        ToolCall::GetSpecDiff { spec_path, base_branch, exclude_patterns, bypass_cache } => {
            match get_spec_diff(
                spec_path.as_str(),
                base_branch.as_str(),
                exclude_patterns,
                *bypass_cache,
                project_root,
                env,
            ) {
                Step::Need(q) => Step::Need(q),
                Step::Done(Ok(v)) => Step::Done(Ok(ToolOutput::Diff(v))),
                Step::Done(Err(e)) => Step::Done(Err(e)),
            }
        },
        ToolCall::GetChangedArtifacts { spec_path, artifact_type } => {
            let kind: Option<&str> = match artifact_type {
                Some(t) => Some(t.as_str()),
                None => None,
            };
            match get_changed_artifacts(spec_path.as_str(), kind, project_root, env) {
                Step::Need(q) => Step::Need(q),
                Step::Done(Ok(v)) => Step::Done(Ok(ToolOutput::Changed(v))),
                Step::Done(Err(e)) => Step::Done(Err(e)),
            }
        },
        ToolCall::MarkReconciled { files } => {
            match mark_reconciled(files, project_root, env) {
                Step::Need(q) => Step::Need(q),
                Step::Done(Ok(v)) => Step::Done(Ok(ToolOutput::Reconciled(v))),
                Step::Done(Err(e)) => Step::Done(Err(e)),
            }
        },
        ToolCall::ClearCache => {
            match clear_cache(project_root, env) {
                Step::Need(q) => Step::Need(q),
                Step::Done(Ok(v)) => Step::Done(Ok(ToolOutput::Cleared(v))),
                Step::Done(Err(e)) => Step::Done(Err(e)),
            }
        },
    }
}

/// What a request is answered with.
pub enum Reply {
    /// Nothing: the request was a notification.
    Nothing,
    /// The server's description of itself and of its tools.
    Initialize,
    /// The list of the tools.
    ToolsList,
    /// What the tool that was called returned.
    Tool(ToolOutput),
    /// An error.
    Failed(McpError),
}

/// A `Reply` over plain values.
pub enum ReplyView {
    Nothing,
    Initialize,
    ToolsList,
    Tool(ToolOutputView),
    Failed(McpErrorView),
}

impl View for Reply {
    type V = ReplyView;

    open spec fn view(&self) -> ReplyView {
        match self {
            Reply::Nothing => ReplyView::Nothing,
            Reply::Initialize => ReplyView::Initialize,
            Reply::ToolsList => ReplyView::ToolsList,
            Reply::Tool(o) => ReplyView::Tool(o@),
            Reply::Failed(e) => ReplyView::Failed(e@),
        }
    }
}

/// A step of answering a request, seen as plain values.
pub open spec fn reply_view(r: Step<Reply>) -> Outcome<ReplyView> {
    match r {
        Step::Need(q) => Outcome::Need(q@),
        Step::Done(reply) => Outcome::Done(reply@),
    }
}

/// What the request for `method` with the parameters `params` is answered
/// with, in the project at `root`. A notification is not answered; a method
/// that does not exist, a call without parameters or tool name, a tool that
/// does not exist and a tool that fails are answered with an error.
pub open spec fn spec_dispatch(
    env: Observations,
    root: Seq<char>,
    method: Seq<char>,
    params: Option<JsonValue>,
) -> Outcome<ReplyView> {
    match spec_route(method) {
        Route::Notification => Outcome::Done(ReplyView::Nothing),
        Route::Initialize => Outcome::Done(ReplyView::Initialize),
        Route::ToolsList => Outcome::Done(ReplyView::ToolsList),
        Route::Unknown => Outcome::Done(
            ReplyView::Failed(
                McpErrorView { code: METHOD_NOT_FOUND, message: "Method not found: "@ + method },
            ),
        ),
        Route::ToolsCall => match spec_parse_tool_call(params) {
            Err(e) => Outcome::Done(ReplyView::Failed(e)),
            Ok(call) => match spec_run_tool(call, root, env) {
                Outcome::Need(q) => Outcome::Need(q),
                Outcome::Done(Ok(output)) => Outcome::Done(ReplyView::Tool(output)),
                Outcome::Done(Err(e)) => Outcome::Done(ReplyView::Failed(e)),
            },
        },
    }
}

/// Answers the request for `method` with the parameters `params`.
pub fn dispatch(
    method: &str,
    params: Option<&JsonValue>,
    project_root: &str,
    env: &Observations,
) -> (r: Step<Reply>)
    ensures
        reply_view(r) == spec_dispatch(
            *env,
            project_root@,
            method@,
            match params {
                Some(p) => Some(*p),
                None => None,
            },
        ),
{
    match route(method) {
        Route::Notification => Step::Done(Reply::Nothing),
        Route::Initialize => Step::Done(Reply::Initialize),
        Route::ToolsList => Step::Done(Reply::ToolsList),
        Route::Unknown => Step::Done(Reply::Failed(method_not_found(method))),
        Route::ToolsCall => match parse_tool_call(params) {
            Err(e) => Step::Done(Reply::Failed(e)),
            Ok(call) => match run_tool(&call, project_root, env) {
                Step::Need(q) => Step::Need(q),
                Step::Done(Ok(output)) => Step::Done(Reply::Tool(output)),
                Step::Done(Err(e)) => Step::Done(Reply::Failed(e)),
            },
        },
    }
}

} // verus!
