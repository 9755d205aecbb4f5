//! What the library asks of the outside world, and what it was told.
//!
//! The library reads no file, runs no program and opens no database. An
//! operation that needs something from outside returns a `Request`; its
//! caller carries the request out, records the `Response` in an
//! `Observations` log and calls the operation again. An operation is thus a
//! function of its arguments and of what has been observed so far.

use vstd::prelude::*;
use crate::cache::{pairs_view, FileProbe, HashPair, HashStore, StoreFailure};
use crate::text::{clone_strings, owned, str_eq, strings_eq, texts};

verus! {

/// Something for the caller to do or to find out.
pub enum Request {
    /// Read each file as text.
    ReadTexts { paths: Vec<String> },
    /// Tell whether the path exists.
    PathExists { path: String },
    /// Tell whether the path is a directory.
    IsDir { path: String },
    /// Tell whether the path is a regular file.
    IsFile { path: String },
    /// List every file below a directory that can be reached, passing over
    /// what cannot be read.
    FilesBelow { path: String },
    /// For each path, tell whether it exists and read its bytes.
    ProbeFiles { paths: Vec<String> },
    /// Expand each glob pattern against the file system.
    ExpandGlobs { patterns: Vec<String> },
    /// List the entries of a directory, without descending.
    ListDir { path: String },
    /// List every file below a directory.
    WalkFiles { path: String },
    /// Open the hash store of a project, creating it if need be, and load it.
    OpenStore { project_root: String },
    /// Write the pairs to the hash store of a project, stamped with the
    /// current time, all or none.
    Persist { project_root: String, pairs: Vec<HashPair> },
    /// Run the version-control tool in the project root.
    RunGit { project_root: String, args: Vec<String> },
    /// Delete a file.
    RemoveFile { path: String },
    /// Read standard input to its end, as text.
    ReadInput,
    /// For each path, follow its links and make it absolute, where that can
    /// be done.
    Canonicalize { paths: Vec<String> },
    /// Create a directory and the directories above it that are missing.
    CreateDirs { path: String },
    /// Write a file, in place of what is there.
    WriteText { path: String, content: String },
}

/// A `Request` as plain text and lists.
pub enum RequestView {
    ReadTexts { paths: Seq<Seq<char>> },
    PathExists { path: Seq<char> },
    IsDir { path: Seq<char> },
    IsFile { path: Seq<char> },
    FilesBelow { path: Seq<char> },
    ProbeFiles { paths: Seq<Seq<char>> },
    ExpandGlobs { patterns: Seq<Seq<char>> },
    ListDir { path: Seq<char> },
    WalkFiles { path: Seq<char> },
    OpenStore { project_root: Seq<char> },
    Persist { project_root: Seq<char>, pairs: Seq<(Seq<char>, Seq<char>)> },
    RunGit { project_root: Seq<char>, args: Seq<Seq<char>> },
    RemoveFile { path: Seq<char> },
    ReadInput,
    Canonicalize { paths: Seq<Seq<char>> },
    CreateDirs { path: Seq<char> },
    WriteText { path: Seq<char>, content: Seq<char> },
}

impl View for Request {
    type V = RequestView;

    open spec fn view(&self) -> RequestView {
        match self {
            Request::ReadTexts { paths } => RequestView::ReadTexts { paths: texts(paths@) },
            Request::PathExists { path } => RequestView::PathExists { path: path@ },
            Request::IsDir { path } => RequestView::IsDir { path: path@ },
            Request::IsFile { path } => RequestView::IsFile { path: path@ },
            Request::FilesBelow { path } => RequestView::FilesBelow { path: path@ },
            Request::ProbeFiles { paths } => RequestView::ProbeFiles { paths: texts(paths@) },
            Request::ExpandGlobs { patterns } => RequestView::ExpandGlobs {
                patterns: texts(patterns@),
            },
            Request::ListDir { path } => RequestView::ListDir { path: path@ },
            Request::WalkFiles { path } => RequestView::WalkFiles { path: path@ },
            Request::OpenStore { project_root } => RequestView::OpenStore {
                project_root: project_root@,
            },
            Request::Persist { project_root, pairs } => RequestView::Persist {
                project_root: project_root@,
                pairs: pairs_view(pairs@),
            },
            Request::RunGit { project_root, args } => RequestView::RunGit {
                project_root: project_root@,
                args: texts(args@),
            },
            Request::RemoveFile { path } => RequestView::RemoveFile { path: path@ },
            Request::ReadInput => RequestView::ReadInput,
            Request::Canonicalize { paths } => RequestView::Canonicalize { paths: texts(paths@) },
            Request::CreateDirs { path } => RequestView::CreateDirs { path: path@ },
            Request::WriteText { path, content } => RequestView::WriteText {
                path: path@,
                content: content@,
            },
        }
    }
}

/// One entry of a directory listing.
pub struct DirEntry {
    /// The entry's full path.
    pub path: String,
    /// Whether the entry is a regular file.
    pub is_file: bool,
}

/// What a finished program left behind.
pub struct CommandOutput {
    /// Whether it exited with success.
    pub success: bool,
    pub stdout: String,
    pub stderr: String,
}

/// What the caller found. Every failure is carried as its message.
pub enum Response {
    /// One result per file read.
    Texts(Vec<Result<String, String>>),
    Flag(bool),
    /// One probe per path.
    Probes(Vec<FileProbe>),
    /// The matches of each pattern, as the glob engine lists them.
    Expansions(Vec<Vec<String>>),
    /// The entries that could be read, or `None` where the directory could not.
    Listing(Option<Vec<DirEntry>>),
    /// The files found, in walk order, or the walk's first failure.
    Walk(Result<Vec<String>, String>),
    Store(Result<HashStore, StoreFailure>),
    Persisted(Result<(), StoreFailure>),
    /// How deleting, creating or writing ended.
    Effect(Result<(), String>),
    Command(Result<CommandOutput, String>),
    /// What was read from standard input.
    Input(Result<String, String>),
    /// One resolved path per path asked about; `None` where the path could
    /// not be resolved.
    Resolved(Vec<Option<String>>),
    /// The files found.
    Files(Vec<String>),
}

/// True when `response` is the kind of answer that `request` asks for, with
/// one item per item asked about.
pub open spec fn spec_fits(request: Request, response: Response) -> bool {
    match request {
        Request::ReadTexts { paths } => response matches Response::Texts(v) && v@.len()
            == paths@.len(),
        Request::PathExists { .. } => response is Flag,
        Request::IsDir { .. } => response is Flag,
        Request::IsFile { .. } => response is Flag,
        Request::FilesBelow { .. } => response is Files,
        Request::ProbeFiles { paths } => response matches Response::Probes(v) && v@.len()
            == paths@.len(),
        Request::ExpandGlobs { patterns } => response matches Response::Expansions(v) && v@.len()
            == patterns@.len(),
        Request::ListDir { .. } => response is Listing,
        Request::WalkFiles { .. } => response is Walk,
        Request::OpenStore { .. } => response is Store,
        Request::Persist { .. } => response is Persisted,
        Request::RunGit { .. } => response is Command,
        Request::RemoveFile { .. } => response is Effect,
        Request::ReadInput => response is Input,
        Request::Canonicalize { paths } => response matches Response::Resolved(v) && v@.len()
            == paths@.len(),
        Request::CreateDirs { .. } => response is Effect,
        Request::WriteText { .. } => response is Effect,
    }
}

/// Tells whether `response` is an answer to `request`.
pub fn fits(request: &Request, response: &Response) -> (b: bool)
    ensures
        b == spec_fits(*request, *response),
{
    match request {
        Request::ReadTexts { paths } => match response {
            Response::Texts(v) => v.len() == paths.len(),
            _ => false,
        },
        Request::PathExists { .. } => match response {
            Response::Flag(_) => true,
            _ => false,
        },
        Request::IsDir { .. } => match response {
            Response::Flag(_) => true,
            _ => false,
        },
        Request::IsFile { .. } => match response {
            Response::Flag(_) => true,
            _ => false,
        },
        Request::FilesBelow { .. } => match response {
            Response::Files(_) => true,
            _ => false,
        },
        Request::ProbeFiles { paths } => match response {
            Response::Probes(v) => v.len() == paths.len(),
            _ => false,
        },
        Request::ExpandGlobs { patterns } => match response {
            Response::Expansions(v) => v.len() == patterns.len(),
            _ => false,
        },
        Request::ListDir { .. } => match response {
            Response::Listing(_) => true,
            _ => false,
        },
        Request::WalkFiles { .. } => match response {
            Response::Walk(_) => true,
            _ => false,
        },
        Request::OpenStore { .. } => match response {
            Response::Store(_) => true,
            _ => false,
        },
        Request::Persist { .. } => match response {
            Response::Persisted(_) => true,
            _ => false,
        },
        Request::RunGit { .. } => match response {
            Response::Command(_) => true,
            _ => false,
        },
        Request::RemoveFile { .. } => match response {
            Response::Effect(_) => true,
            _ => false,
        },
        Request::ReadInput => match response {
            Response::Input(_) => true,
            _ => false,
        },
        Request::Canonicalize { paths } => match response {
            Response::Resolved(v) => v.len() == paths.len(),
            _ => false,
        },
        Request::CreateDirs { .. } => match response {
            Response::Effect(_) => true,
            _ => false,
        },
        Request::WriteText { .. } => match response {
            Response::Effect(_) => true,
            _ => false,
        },
    }
}

fn pairs_eq(a: &Vec<HashPair>, b: &Vec<HashPair>) -> (r: bool)
    ensures
        r == (pairs_view(a@) == pairs_view(b@)),
{
    if a.len() != b.len() {
        assert(pairs_view(a@).len() != pairs_view(b@).len());
        return false;
    }
    let mut i: usize = 0;
    while i < a.len()
        invariant
            i <= a.len(),
            a.len() == b.len(),
            forall|j: int| 0 <= j < i ==> pairs_view(a@)[j] == pairs_view(b@)[j],
        decreases a.len() - i,
    {
        if !str_eq(a[i].path.as_str(), b[i].path.as_str()) || !str_eq(
            a[i].content_hash.as_str(),
            b[i].content_hash.as_str(),
        ) {
            assert(pairs_view(a@)[i as int] != pairs_view(b@)[i as int]);
            return false;
        }
        i += 1;
    }
    assert(pairs_view(a@) =~= pairs_view(b@));
    true
}

/// Tells whether two requests ask for the same thing.
pub fn same_request(a: &Request, b: &Request) -> (r: bool)
    ensures
        r == (a@ == b@),
{
    match a {
        Request::ReadTexts { paths } => match b {
            Request::ReadTexts { paths: other } => strings_eq(paths, other),
            _ => false,
        },
        Request::PathExists { path } => match b {
            Request::PathExists { path: other } => str_eq(path.as_str(), other.as_str()),
            _ => false,
        },
        Request::IsDir { path } => match b {
            Request::IsDir { path: other } => str_eq(path.as_str(), other.as_str()),
            _ => false,
        },
        Request::IsFile { path } => match b {
            Request::IsFile { path: other } => str_eq(path.as_str(), other.as_str()),
            _ => false,
        },
        Request::FilesBelow { path } => match b {
            Request::FilesBelow { path: other } => str_eq(path.as_str(), other.as_str()),
            _ => false,
        },
        Request::ProbeFiles { paths } => match b {
            Request::ProbeFiles { paths: other } => strings_eq(paths, other),
            _ => false,
        },
        Request::ExpandGlobs { patterns } => match b {
            Request::ExpandGlobs { patterns: other } => strings_eq(patterns, other),
            _ => false,
        },
        Request::ListDir { path } => match b {
            Request::ListDir { path: other } => str_eq(path.as_str(), other.as_str()),
            _ => false,
        },
        Request::WalkFiles { path } => match b {
            Request::WalkFiles { path: other } => str_eq(path.as_str(), other.as_str()),
            _ => false,
        },
        Request::OpenStore { project_root } => match b {
            Request::OpenStore { project_root: other } => str_eq(
                project_root.as_str(),
                other.as_str(),
            ),
            _ => false,
        },
        Request::Persist { project_root, pairs } => match b {
            Request::Persist { project_root: other_root, pairs: other } => str_eq(
                project_root.as_str(),
                other_root.as_str(),
            ) && pairs_eq(pairs, other),
            _ => false,
        },
        Request::RunGit { project_root, args } => match b {
            Request::RunGit { project_root: other_root, args: other } => str_eq(
                project_root.as_str(),
                other_root.as_str(),
            ) && strings_eq(args, other),
            _ => false,
        },
        Request::RemoveFile { path } => match b {
            Request::RemoveFile { path: other } => str_eq(path.as_str(), other.as_str()),
            _ => false,
        },
        Request::ReadInput => match b {
            Request::ReadInput => true,
            _ => false,
        },
        Request::Canonicalize { paths } => match b {
            Request::Canonicalize { paths: other } => strings_eq(paths, other),
            _ => false,
        },
        Request::CreateDirs { path } => match b {
            Request::CreateDirs { path: other } => str_eq(path.as_str(), other.as_str()),
            _ => false,
        },
        Request::WriteText { path, content } => match b {
            Request::WriteText { path: other, content: other_content } => str_eq(
                path.as_str(),
                other.as_str(),
            ) && str_eq(content.as_str(), other_content.as_str()),
            _ => false,
        },
    }
}

/// A request together with its answer.
pub struct Exchange {
    pub request: Request,
    pub response: Response,
}

/// The position of the first exchange of `log` that answers `request`.
pub open spec fn exchange_index(log: Seq<Exchange>, request: RequestView) -> Option<int>
    decreases log.len(),
{
    if log.len() == 0 {
        None
    } else if log[0].request@ == request {
        Some(0)
    } else {
        match exchange_index(log.skip(1), request) {
            Some(i) => Some(i + 1),
            None => None,
        }
    }
}

/// What `exchange_index` returns is the first position that answers
/// `request`.
pub proof fn lemma_exchange_index(log: Seq<Exchange>, request: RequestView)
    ensures
        match exchange_index(log, request) {
            Some(i) => 0 <= i < log.len() && log[i].request@ == request && forall|j: int|
                0 <= j < i ==> log[j].request@ != request,
            None => forall|j: int| 0 <= j < log.len() ==> log[j].request@ != request,
        },
    decreases log.len(),
{
    if log.len() > 0 && log[0].request@ != request {
        lemma_exchange_index(log.skip(1), request);
        match exchange_index(log.skip(1), request) {
            Some(i) => {
                assert(log.skip(1)[i] == log[i + 1]);
                assert forall|j: int| 0 <= j < i + 1 implies log[j].request@ != request by {
                    if j > 0 {
                        assert(log.skip(1)[j - 1] == log[j]);
                    }
                }
            },
            None => {
                assert forall|j: int| 0 <= j < log.len() implies log[j].request@ != request by {
                    if j > 0 {
                        assert(log.skip(1)[j - 1] == log[j]);
                    }
                }
            },
        }
    }
}

/// The answer that `log` holds for `request`: of two, the earlier.
pub open spec fn first_answer(log: Seq<Exchange>, request: RequestView) -> Option<Response> {
    match exchange_index(log, request) {
        Some(i) => Some(log[i].response),
        None => None,
    }
}

/// What a log answers once an exchange was added at its end: what it
/// answered before, and the new answer to a request that had none.
pub open spec fn answer_after(
    before: Option<Response>,
    added: Exchange,
    request: RequestView,
) -> Option<Response> {
    match before {
        Some(response) => Some(response),
        None => if added.request@ == request {
            Some(added.response)
        } else {
            None
        },
    }
}

/// Adding an exchange at the end of a log answers its request, unless the
/// log answered it already, and changes no other answer.
pub proof fn lemma_answer_after_push(log: Seq<Exchange>, added: Exchange, request: RequestView)
    ensures
        first_answer(log.push(added), request) == answer_after(
            first_answer(log, request),
            added,
            request,
        ),
{
    let after = log.push(added);
    lemma_exchange_index(log, request);
    lemma_exchange_index(after, request);
    assert forall|j: int| 0 <= j < log.len() implies #[trigger] after[j] == log[j] by {}
    assert(after[log.len() as int] == added);
    match exchange_index(log, request) {
        Some(b) => {
            assert(after[b] == log[b]);
            match exchange_index(after, request) {
                Some(a) => {
                    if a < log.len() {
                        assert(after[a] == log[a]);
                    }
                },
                None => {},
            }
        },
        None => {
            match exchange_index(after, request) {
                Some(a) => {
                    if a < log.len() {
                        assert(after[a] == log[a]);
                    }
                },
                None => {},
            }
        },
    }
}

/// Everything observed so far: the requests that were carried out, each with
/// its answer.
pub struct Observations {
    log: Vec<Exchange>,
}

/// The outcome of one call of an operation: a request to carry out before
/// calling again, or the operation's result.
pub enum Step<T> {
    Need(Request),
    Done(T),
}

/// What one call of an operation comes to, over plain values: a request to
/// carry out first, or the result.
pub enum Outcome<T> {
    Need(RequestView),
    Done(T),
}

impl Observations {
    #[verifier::type_invariant]
    closed spec fn all_fit(&self) -> bool {
        forall|i: int|
            0 <= i < self.log@.len() ==> spec_fits(
                (#[trigger] self.log@[i]).request,
                self.log@[i].response,
            )
    }

    /// The exchanges recorded, oldest first.
    pub closed spec fn log(&self) -> Seq<Exchange> {
        self.log@
    }

    /// The recorded answer to `request`, if there is one.
    pub open spec fn answer(&self, request: RequestView) -> Option<Response> {
        first_answer(self.log(), request)
    }

    /// What reading the files at `paths` gave, if that was observed. Reading no
    /// file gives nothing and needs no observation.
    pub open spec fn spec_texts(
        &self,
        paths: Seq<Seq<char>>,
    ) -> Option<Seq<Result<String, String>>> {
        if paths.len() == 0 {
            Some(Seq::empty())
        } else {
            match self.answer(RequestView::ReadTexts { paths }) {
                Some(Response::Texts(v)) => Some(v@),
                _ => None,
            }
        }
    }

    /// What reading the one file at `path` gave, if that was observed.
    pub open spec fn spec_text(&self, path: Seq<char>) -> Option<Result<String, String>> {
        match self.spec_texts(seq![path]) {
            Some(v) => if v.len() == 1 {
                Some(v[0])
            } else {
                None
            },
            None => None,
        }
    }

    /// Whether `path` exists, if that was observed.
    pub open spec fn spec_exists(&self, path: Seq<char>) -> Option<bool> {
        match self.answer(RequestView::PathExists { path }) {
            Some(Response::Flag(b)) => Some(b),
            _ => None,
        }
    }

    /// Whether `path` is a directory, if that was observed.
    pub open spec fn spec_is_dir(&self, path: Seq<char>) -> Option<bool> {
        match self.answer(RequestView::IsDir { path }) {
            Some(Response::Flag(b)) => Some(b),
            _ => None,
        }
    }

    /// Whether `path` is a regular file, if that was observed.
    pub open spec fn spec_is_file(&self, path: Seq<char>) -> Option<bool> {
        match self.answer(RequestView::IsFile { path }) {
            Some(Response::Flag(b)) => Some(b),
            _ => None,
        }
    }

    /// The files that can be reached below `path`, if that was observed.
    pub open spec fn spec_files_below(&self, path: Seq<char>) -> Option<Vec<String>> {
        match self.answer(RequestView::FilesBelow { path }) {
            Some(Response::Files(f)) => Some(f),
            _ => None,
        }
    }

    /// What probing the files at `paths` gave, if that was observed. Probing
    /// no file needs no observation.
    pub open spec fn spec_probes(&self, paths: Seq<Seq<char>>) -> Option<Seq<FileProbe>> {
        if paths.len() == 0 {
            Some(Seq::empty())
        } else {
            match self.answer(RequestView::ProbeFiles { paths }) {
                Some(Response::Probes(v)) => Some(v@),
                _ => None,
            }
        }
    }

    /// What `patterns` expanded to, if that was observed. Expanding no
    /// pattern needs no observation.
    pub open spec fn spec_expansions(&self, patterns: Seq<Seq<char>>) -> Option<Seq<Vec<String>>> {
        if patterns.len() == 0 {
            Some(Seq::empty())
        } else {
            match self.answer(RequestView::ExpandGlobs { patterns }) {
                Some(Response::Expansions(v)) => Some(v@),
                _ => None,
            }
        }
    }

    /// The listing of the directory at `path`, if that was observed.
    pub open spec fn spec_listing(&self, path: Seq<char>) -> Option<Option<Vec<DirEntry>>> {
        match self.answer(RequestView::ListDir { path }) {
            Some(Response::Listing(l)) => Some(l),
            _ => None,
        }
    }

    /// The files found below `path`, if that was observed.
    pub open spec fn spec_walk(&self, path: Seq<char>) -> Option<Result<Vec<String>, String>> {
        match self.answer(RequestView::WalkFiles { path }) {
            Some(Response::Walk(w)) => Some(w),
            _ => None,
        }
    }

    /// The hash store of the project at `project_root`, if it was opened.
    pub open spec fn spec_store(&self, project_root: Seq<char>) -> Option<
        Result<HashStore, StoreFailure>,
    > {
        match self.answer(RequestView::OpenStore { project_root }) {
            Some(Response::Store(s)) => Some(s),
            _ => None,
        }
    }

    /// How writing `pairs` to the store ended, if that was observed.
    pub open spec fn spec_persisted(
        &self,
        project_root: Seq<char>,
        pairs: Seq<(Seq<char>, Seq<char>)>,
    ) -> Option<Result<(), StoreFailure>> {
        match self.answer(RequestView::Persist { project_root, pairs }) {
            Some(Response::Persisted(o)) => Some(o),
            _ => None,
        }
    }

    /// How running the version-control tool with `args` ended, if that was
    /// observed.
    pub open spec fn spec_git(&self, project_root: Seq<char>, args: Seq<Seq<char>>) -> Option<
        Result<CommandOutput, String>,
    > {
        match self.answer(RequestView::RunGit { project_root, args }) {
            Some(Response::Command(c)) => Some(c),
            _ => None,
        }
    }

    /// How deleting the file at `path` ended, if that was observed.
    pub open spec fn spec_removed(&self, path: Seq<char>) -> Option<Result<(), String>> {
        match self.answer(RequestView::RemoveFile { path }) {
            Some(Response::Effect(o)) => Some(o),
            _ => None,
        }
    }

    /// What standard input held, if it was read.
    pub open spec fn spec_input(&self) -> Option<Result<String, String>> {
        match self.answer(RequestView::ReadInput) {
            Some(Response::Input(i)) => Some(i),
            _ => None,
        }
    }

    /// What `paths` resolved to, if that was observed. Resolving no path
    /// needs no observation.
    pub open spec fn spec_resolved(&self, paths: Seq<Seq<char>>) -> Option<Seq<Option<String>>> {
        if paths.len() == 0 {
            Some(Seq::empty())
        } else {
            match self.answer(RequestView::Canonicalize { paths }) {
                Some(Response::Resolved(v)) => Some(v@),
                _ => None,
            }
        }
    }

    /// How creating the directory at `path` ended, if that was observed.
    pub open spec fn spec_created(&self, path: Seq<char>) -> Option<Result<(), String>> {
        match self.answer(RequestView::CreateDirs { path }) {
            Some(Response::Effect(o)) => Some(o),
            _ => None,
        }
    }

    /// How writing `content` to the file at `path` ended, if that was
    /// observed.
    pub open spec fn spec_written(&self, path: Seq<char>, content: Seq<char>) -> Option<
        Result<(), String>,
    > {
        match self.answer(RequestView::WriteText { path, content }) {
            Some(Response::Effect(o)) => Some(o),
            _ => None,
        }
    }

    /// Nothing observed yet.
    pub fn new() -> (r: Observations)
        ensures
            r.log() == Seq::<Exchange>::empty(),
    {
        let r = Observations { log: Vec::new() };
        assert(r.log() =~= Seq::<Exchange>::empty());
        r
    }

    /// Records `response` as the answer to `request`. A response of the wrong
    /// kind is refused and leaves the log as it was. Returns whether the
    /// response was taken.
    ///
    /// A response that is taken answers `request` from now on, unless an
    /// earlier response does; the answers to all other requests stay as they
    /// were.
    pub fn record(&mut self, request: Request, response: Response) -> (taken: bool)
        ensures
            taken == spec_fits(request, response),
            taken ==> final(self).log() == old(self).log().push(Exchange { request, response }),
            !taken ==> final(self).log() == old(self).log(),
            taken ==> forall|q: RequestView| #[trigger]
                final(self).answer(q) == answer_after(
                    old(self).answer(q),
                    Exchange { request, response },
                    q,
                ),
    {
        if !fits(&request, &response) {
            return false;
        }
        proof {
            use_type_invariant(&*self);
            assert forall|q: RequestView|
                first_answer(self.log@.push(Exchange { request, response }), q) == answer_after(
                    first_answer(self.log@, q),
                    Exchange { request, response },
                    q,
                ) by {
                lemma_answer_after_push(self.log@, Exchange { request, response }, q);
            }
        }
        let mut log: Vec<Exchange> = Vec::new();
        core::mem::swap(&mut self.log, &mut log);
        log.push(Exchange { request, response });
        core::mem::swap(&mut self.log, &mut log);
        true
    }

    /// Looks up the recorded answer to `request`. What comes back fits the
    /// request.
    pub fn lookup(&self, request: &Request) -> (r: Option<&Response>)
        ensures
            match r {
                Some(response) => self.answer(request@) == Some(*response) && spec_fits(
                    *request,
                    *response,
                ),
                None => self.answer(request@) is None,
            },
    {
        proof {
            use_type_invariant(self);
        }
        let mut i: usize = 0;
        while i < self.log.len()
            invariant
                i <= self.log.len(),
                forall|j: int| 0 <= j < i ==> self.log@[j].request@ != request@,
                forall|k: int|
                    0 <= k < self.log@.len() ==> spec_fits(
                        (#[trigger] self.log@[k]).request,
                        self.log@[k].response,
                    ),
            decreases self.log.len() - i,
        {
            if same_request(&self.log[i].request, request) {
                proof {
                    lemma_exchange_index(self.log@, request@);
                    lemma_fits_by_view(
                        self.log@[i as int].request,
                        *request,
                        self.log@[i as int].response,
                    );
                }
                return Some(&self.log[i].response);
            }
            i += 1;
        }
        proof {
            lemma_exchange_index(self.log@, request@);
        }
        None
    }
}

impl Observations {
    /// What reading the files at `paths`, of which there is at least one,
    /// gave; or the request to make.
    pub(crate) fn texts_for(
        &self,
        paths: &Vec<String>,
    ) -> (r: Result<&Vec<Result<String, String>>, Request>)
        requires
            paths@.len() > 0,
        ensures
            match r {
                Ok(v) => self.spec_texts(texts(paths@)) == Some(v@) && v@.len() == paths@.len(),
                Err(q) => self.spec_texts(texts(paths@)) is None && q@ == (RequestView::ReadTexts {
                    paths: texts(paths@),
                }),
            },
    {
        let q = Request::ReadTexts { paths: clone_strings(paths) };
        match self.lookup(&q) {
            Some(response) => match response {
                Response::Texts(v) => Ok(v),
                _ => vstd::pervasive::unreached(),
            },
            None => Err(q),
        }
    }

    /// What reading the file at `path` gave; or the request to make.
    pub fn text_at(&self, path: &str) -> (r: Result<&Result<String, String>, Request>)
        ensures
            match r {
                Ok(t) => self.spec_text(path@) == Some(*t),
                Err(q) => self.spec_text(path@) is None && q@ == (RequestView::ReadTexts {
                    paths: seq![path@],
                }),
            },
    {
        let mut paths: Vec<String> = Vec::new();
        paths.push(owned(path));
        assert(texts(paths@) =~= seq![path@]);
        match self.texts_for(&paths) {
            Ok(v) => Ok(&v[0]),
            Err(q) => Err(q),
        }
    }

    /// Whether `path` exists; or the request to make.
    pub fn path_exists(&self, path: &str) -> (r: Result<bool, Request>)
        ensures
            match r {
                Ok(b) => self.spec_exists(path@) == Some(b),
                Err(q) => self.spec_exists(path@) is None && q@ == (RequestView::PathExists {
                    path: path@,
                }),
            },
    {
        let q = Request::PathExists { path: owned(path) };
        match self.lookup(&q) {
            Some(response) => match response {
                Response::Flag(b) => Ok(*b),
                _ => vstd::pervasive::unreached(),
            },
            None => Err(q),
        }
    }

    /// Whether `path` is a directory; or the request to make.
    pub fn is_dir(&self, path: &str) -> (r: Result<bool, Request>)
        ensures
            match r {
                Ok(b) => self.spec_is_dir(path@) == Some(b),
                Err(q) => self.spec_is_dir(path@) is None && q@ == (RequestView::IsDir {
                    path: path@,
                }),
            },
    {
        let q = Request::IsDir { path: owned(path) };
        match self.lookup(&q) {
            Some(response) => match response {
                Response::Flag(b) => Ok(*b),
                _ => vstd::pervasive::unreached(),
            },
            None => Err(q),
        }
    }

    /// Whether `path` is a regular file; or the request to make.
    pub fn is_file(&self, path: &str) -> (r: Result<bool, Request>)
        ensures
            match r {
                Ok(b) => self.spec_is_file(path@) == Some(b),
                Err(q) => self.spec_is_file(path@) is None && q@ == (RequestView::IsFile {
                    path: path@,
                }),
            },
    {
        let q = Request::IsFile { path: owned(path) };
        match self.lookup(&q) {
            Some(response) => match response {
                Response::Flag(b) => Ok(*b),
                _ => vstd::pervasive::unreached(),
            },
            None => Err(q),
        }
    }

    /// The files that can be reached below `path`; or the request to make.
    pub fn files_below(&self, path: &str) -> (r: Result<&Vec<String>, Request>)
        ensures
            match r {
                Ok(f) => self.spec_files_below(path@) == Some(*f),
                Err(q) => self.spec_files_below(path@) is None && q@ == (RequestView::FilesBelow {
                    path: path@,
                }),
            },
    {
        let q = Request::FilesBelow { path: owned(path) };
        match self.lookup(&q) {
            Some(response) => match response {
                Response::Files(f) => Ok(f),
                _ => vstd::pervasive::unreached(),
            },
            None => Err(q),
        }
    }

    /// What probing the files at `paths`, of which there is at least one,
    /// gave; or the request to make.
    pub(crate) fn probes_for(&self, paths: &Vec<String>) -> (r: Result<&Vec<FileProbe>, Request>)
        requires
            paths@.len() > 0,
        ensures
            match r {
                Ok(v) => self.spec_probes(texts(paths@)) == Some(v@) && v@.len() == paths@.len(),
                Err(q) => self.spec_probes(texts(paths@)) is None && q@ == (
                RequestView::ProbeFiles { paths: texts(paths@) }),
            },
    {
        let q = Request::ProbeFiles { paths: clone_strings(paths) };
        match self.lookup(&q) {
            Some(response) => match response {
                Response::Probes(v) => Ok(v),
                _ => vstd::pervasive::unreached(),
            },
            None => Err(q),
        }
    }

    /// What `patterns`, of which there is at least one, expanded to; or the
    /// request to make.
    pub(crate) fn expansions_for(
        &self,
        patterns: &Vec<String>,
    ) -> (r: Result<&Vec<Vec<String>>, Request>)
        requires
            patterns@.len() > 0,
        ensures
            match r {
                Ok(v) => self.spec_expansions(texts(patterns@)) == Some(v@) && v@.len()
                    == patterns@.len(),
                Err(q) => self.spec_expansions(texts(patterns@)) is None && q@ == (
                RequestView::ExpandGlobs { patterns: texts(patterns@) }),
            },
    {
        let q = Request::ExpandGlobs { patterns: clone_strings(patterns) };
        match self.lookup(&q) {
            Some(response) => match response {
                Response::Expansions(v) => Ok(v),
                _ => vstd::pervasive::unreached(),
            },
            None => Err(q),
        }
    }

    /// The listing of the directory at `path`; or the request to make.
    pub fn listing_of(&self, path: &str) -> (r: Result<&Option<Vec<DirEntry>>, Request>)
        ensures
            match r {
                Ok(l) => self.spec_listing(path@) == Some(*l),
                Err(q) => self.spec_listing(path@) is None && q@ == (RequestView::ListDir {
                    path: path@,
                }),
            },
    {
        let q = Request::ListDir { path: owned(path) };
        match self.lookup(&q) {
            Some(response) => match response {
                Response::Listing(l) => Ok(l),
                _ => vstd::pervasive::unreached(),
            },
            None => Err(q),
        }
    }

    /// The files found below `path`; or the request to make.
    pub fn walk_of(&self, path: &str) -> (r: Result<&Result<Vec<String>, String>, Request>)
        ensures
            match r {
                Ok(w) => self.spec_walk(path@) == Some(*w),
                Err(q) => self.spec_walk(path@) is None && q@ == (RequestView::WalkFiles {
                    path: path@,
                }),
            },
    {
        let q = Request::WalkFiles { path: owned(path) };
        match self.lookup(&q) {
            Some(response) => match response {
                Response::Walk(w) => Ok(w),
                _ => vstd::pervasive::unreached(),
            },
            None => Err(q),
        }
    }

    /// The hash store of the project at `project_root`; or the request to
    /// make.
    pub fn store_of(&self, project_root: &str) -> (r: Result<
        &Result<HashStore, StoreFailure>,
        Request,
    >)
        ensures
            match r {
                Ok(s) => self.spec_store(project_root@) == Some(*s),
                Err(q) => self.spec_store(project_root@) is None && q@ == (RequestView::OpenStore {
                    project_root: project_root@,
                }),
            },
    {
        let q = Request::OpenStore { project_root: owned(project_root) };
        match self.lookup(&q) {
            Some(response) => match response {
                Response::Store(s) => Ok(s),
                _ => vstd::pervasive::unreached(),
            },
            None => Err(q),
        }
    }

    /// How writing `pairs` to the store ended; or the request to make.
    pub fn persisted(&self, project_root: &str, pairs: Vec<HashPair>) -> (r: Result<
        &Result<(), StoreFailure>,
        Request,
    >)
        ensures
            match r {
                Ok(o) => self.spec_persisted(project_root@, pairs_view(pairs@)) == Some(*o),
                Err(q) => self.spec_persisted(project_root@, pairs_view(pairs@)) is None && q@ == (
                RequestView::Persist { project_root: project_root@, pairs: pairs_view(pairs@) }),
            },
    {
        let q = Request::Persist { project_root: owned(project_root), pairs };
        match self.lookup(&q) {
            Some(response) => match response {
                Response::Persisted(o) => Ok(o),
                _ => vstd::pervasive::unreached(),
            },
            None => Err(q),
        }
    }

    /// How running the version-control tool with `args` ended; or the request
    /// to make.
    pub fn git_output(&self, project_root: &str, args: Vec<String>) -> (r: Result<
        &Result<CommandOutput, String>,
        Request,
    >)
        ensures
            match r {
                Ok(c) => self.spec_git(project_root@, texts(args@)) == Some(*c),
                Err(q) => self.spec_git(project_root@, texts(args@)) is None && q@ == (
                RequestView::RunGit { project_root: project_root@, args: texts(args@) }),
            },
    {
        let q = Request::RunGit { project_root: owned(project_root), args };
        match self.lookup(&q) {
            Some(response) => match response {
                Response::Command(c) => Ok(c),
                _ => vstd::pervasive::unreached(),
            },
            None => Err(q),
        }
    }

    /// How deleting the file at `path` ended; or the request to make.
    pub fn removed(&self, path: &str) -> (r: Result<&Result<(), String>, Request>)
        ensures
            match r {
                Ok(o) => self.spec_removed(path@) == Some(*o),
                Err(q) => self.spec_removed(path@) is None && q@ == (RequestView::RemoveFile {
                    path: path@,
                }),
            },
    {
        let q = Request::RemoveFile { path: owned(path) };
        match self.lookup(&q) {
            Some(response) => match response {
                Response::Effect(o) => Ok(o),
                _ => vstd::pervasive::unreached(),
            },
            None => Err(q),
        }
    }

    /// What standard input held; or the request to make.
    pub fn input(&self) -> (r: Result<&Result<String, String>, Request>)
        ensures
            match r {
                Ok(i) => self.spec_input() == Some(*i),
                Err(q) => self.spec_input() is None && q@ == RequestView::ReadInput,
            },
    {
        let q = Request::ReadInput;
        match self.lookup(&q) {
            Some(response) => match response {
                Response::Input(i) => Ok(i),
                _ => vstd::pervasive::unreached(),
            },
            None => Err(q),
        }
    }

    /// What `paths`, of which there is at least one, resolved to; or the
    /// request to make.
    pub(crate) fn resolved_for(
        &self,
        paths: &Vec<String>,
    ) -> (r: Result<&Vec<Option<String>>, Request>)
        requires
            paths@.len() > 0,
        ensures
            match r {
                Ok(v) => self.spec_resolved(texts(paths@)) == Some(v@) && v@.len()
                    == paths@.len(),
                Err(q) => self.spec_resolved(texts(paths@)) is None && q@ == (
                RequestView::Canonicalize { paths: texts(paths@) }),
            },
    {
        let q = Request::Canonicalize { paths: clone_strings(paths) };
        match self.lookup(&q) {
            Some(response) => match response {
                Response::Resolved(v) => Ok(v),
                _ => vstd::pervasive::unreached(),
            },
            None => Err(q),
        }
    }

    /// How creating the directory at `path` ended; or the request to make.
    pub fn created(&self, path: &str) -> (r: Result<&Result<(), String>, Request>)
        ensures
            match r {
                Ok(o) => self.spec_created(path@) == Some(*o),
                Err(q) => self.spec_created(path@) is None && q@ == (RequestView::CreateDirs {
                    path: path@,
                }),
            },
    {
        let q = Request::CreateDirs { path: owned(path) };
        match self.lookup(&q) {
            Some(response) => match response {
                Response::Effect(o) => Ok(o),
                _ => vstd::pervasive::unreached(),
            },
            None => Err(q),
        }
    }

    /// How writing `content` to the file at `path` ended; or the request to
    /// make.
    pub fn written(&self, path: &str, content: &str) -> (r: Result<&Result<(), String>, Request>)
        ensures
            match r {
                Ok(o) => self.spec_written(path@, content@) == Some(*o),
                Err(q) => self.spec_written(path@, content@) is None && q@ == (
                RequestView::WriteText { path: path@, content: content@ }),
            },
    {
        let q = Request::WriteText { path: owned(path), content: owned(content) };
        match self.lookup(&q) {
            Some(response) => match response {
                Response::Effect(o) => Ok(o),
                _ => vstd::pervasive::unreached(),
            },
            None => Err(q),
        }
    }
}

/// Whether a response fits depends on what the request asks, not on how it
/// is held.
pub proof fn lemma_fits_by_view(a: Request, b: Request, response: Response)
    requires
        a@ == b@,
    ensures
        spec_fits(a, response) == spec_fits(b, response),
{
    match a {
        Request::ReadTexts { paths } => {
            let other = b->ReadTexts_paths;
            assert(texts(paths@).len() == texts(other@).len());
        },
        Request::ProbeFiles { paths } => {
            let other = b->ProbeFiles_paths;
            assert(texts(paths@).len() == texts(other@).len());
        },
        Request::ExpandGlobs { patterns } => {
            let other = b->ExpandGlobs_patterns;
            assert(texts(patterns@).len() == texts(other@).len());
        },
        Request::Canonicalize { paths } => {
            let other = b->Canonicalize_paths;
            assert(texts(paths@).len() == texts(other@).len());
        },
        _ => {},
    }
}

} // verus!
