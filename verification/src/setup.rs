//! Locating the `monty` worker binary.
//!
//! Python runs in `monty` worker subprocesses rather than in this process, so the
//! runtime needs a path to that binary before it can start. Resolution is
//! explicit and ordered, and a failure says exactly how to fix it: a missing
//! worker is the one setup problem every user will hit at least once.
//!
//! There is deliberately **no fallback to in-process execution**. Falling back
//! would silently give up the crash isolation that running in a worker exists to
//! provide, and the caller would have no way to tell which mode they got.
//!
//! Resolution is a state machine, [`Resolution`]: it says what the host is to be asked next,
//! is told the answer, and ends with a usable path or an explanation.
pub mod laws;

use std::path::PathBuf;
use vstd::prelude::*;
use vstd::string::*;

verus! {

/// The environment variable consulted when no path is configured.
pub const BINARY_ENV_VAR: &'static str = "ADK_MONTY_BINARY";

/// The worker binary's name on `PATH`.
pub const BINARY_NAME: &'static str = "monty";

/// The Monty version this crate speaks.
///
/// The pool and the worker exchange a versioned wire protocol, so the binary
/// should come from the same release as the linked `monty-pool`.
pub const MONTY_VERSION: &'static str = "0.0.19";

/// The install command that actually works.
///
/// `--locked` is not optional. Without it, cargo resolves `monty-runtime`'s
/// dependencies afresh and the build fails inside a dependency with a trait-bound error that
/// has nothing obviously to do with what the user typed. Binary crates publish their
/// `Cargo.lock`, and `--locked` uses Monty's own known-good resolution.
pub const INSTALL_COMMAND: &'static str = "cargo install monty-runtime --version 0.0.19 --locked";

/// `std::path::PathBuf`: a path of the host, in whatever encoding the host uses.
#[verifier::external_type_specification]
#[verifier::external_body]
pub struct ExPathBuf(std::path::PathBuf);

/// The bytes that a path holds: those of `OsStr::as_encoded_bytes`, a superset of UTF-8.
pub uninterp spec fn path_bytes(path: PathBuf) -> Seq<u8>;

/// `<PathBuf as Clone>::clone`: the copy is the same path.
pub assume_specification[ <PathBuf as Clone>::clone ](path: &PathBuf) -> (copy: PathBuf)
    ensures
        copy == *path,
;

/// `OsStr::is_empty`, on the path's text: whether the path holds no bytes.
#[verifier::external_body]
fn path_is_empty(path: &PathBuf) -> (empty: bool)
    ensures
        empty == (path_bytes(*path).len() == 0),
{
    path.as_os_str().is_empty()
}

/// `Path::display`, written to a string: a path that is Unicode is shown as it is. How the
/// other parts of a path are shown depends on the platform, and nothing is claimed of it.
#[verifier::external_body]
fn path_text(path: &PathBuf) -> (shown: String)
    ensures
        is_shown(*path, shown@),
{
    path.display().to_string()
}

/// The path is one of Windows' verbatim paths, which joining may rewrite.
pub open spec fn is_verbatim(path: PathBuf) -> bool {
    seq![0x5cu8, 0x5cu8, 0x3fu8, 0x5cu8].is_prefix_of(path_bytes(path))
}

/// The name is that of an entry of a directory, on every platform: it is not empty, it holds no
/// separator and no drive, and it is not one of the two that stand for a directory itself.
pub open spec fn is_plain_name(name: Seq<char>) -> bool {
    &&& name.len() > 0
    &&& !name.contains('/') && !name.contains('\\') && !name.contains(':')
    &&& name != seq!['.'] && name != seq!['.', '.']
}

/// The byte separates the entries of a path, on some platform: a slash or a backslash.
pub open spec fn is_separator(byte: u8) -> bool {
    byte == 0x2f || byte == 0x5c
}

/// What stands before a name that is joined to a directory: the directory's path and one
/// separator. Behind an empty path there is none, behind one that ends in a separator or, for a
/// drive, in a colon there need be none, and no separator is repeated. Of a verbatim path, which
/// joining may rewrite, only that a separator stands before the name.
pub open spec fn leads_into(dir: Seq<u8>, front: Seq<u8>, verbatim: bool) -> bool {
    if verbatim {
        front.len() > 0 && is_separator(front.last())
    } else if dir.len() == 0 {
        front == dir
    } else {
        ||| front == dir && (is_separator(dir.last()) || dir.last() == 0x3a)
        ||| exists|separator: u8| #[trigger]
            is_separator(separator) && separator != dir.last() && front == dir.push(separator)
    }
}

/// The candidate is the path of the name in the directory: the directory's path, at most one
/// separator, and the name.
pub open spec fn is_in_directory(dir: PathBuf, name: Seq<char>, candidate: PathBuf) -> bool {
    exists|front: Seq<u8>| #[trigger]
        leads_into(path_bytes(dir), front, is_verbatim(dir)) && path_bytes(candidate) == front
            + vstd::utf8::encode_utf8(name)
}

/// `Path::join`: the directory's path, extended by the name, with one separator between them
/// where one is needed. Which separator that is, and whether one is needed behind a backslash
/// or a colon, depends on the platform, and nothing is claimed of it. A verbatim directory is
/// normalized on Windows; of that, only that the name stands behind a separator is claimed.
#[verifier::external_body]
fn in_directory(dir: &PathBuf, name: &str) -> (candidate: PathBuf)
    requires
        is_plain_name(name@),
    ensures
        is_in_directory(*dir, name@, candidate),
{
    dir.join(name)
}

/// The text shows the path: for a path that is Unicode, it is that path.
pub open spec fn is_shown(path: PathBuf, shown: Seq<char>) -> bool {
    vstd::utf8::valid_utf8(path_bytes(path)) ==> shown == vstd::utf8::decode_utf8(
        path_bytes(path),
    )
}

/// The worker binary could not be located.
#[derive(Debug)]
pub enum SetupError {
    /// Nothing configured, and no `monty` on `PATH`.
    NotFound,
    /// A path was given (explicitly or via the environment) but is unusable.
    Unusable {
        /// The path that was tried.
        path: PathBuf,
        /// Why it could not be used.
        reason: String,
    },
}

/// What a [`SetupError`] says.
pub enum SetupErrorView {
    /// Nothing configured, and no `monty` on `PATH`.
    NotFound,
    /// A path was given but is unusable.
    Unusable { path: PathBuf, reason: Seq<char> },
}

impl View for SetupError {
    type V = SetupErrorView;

    open spec fn view(&self) -> SetupErrorView {
        match self {
            SetupError::NotFound => SetupErrorView::NotFound,
            SetupError::Unusable { path, reason } => SetupErrorView::Unusable {
                path: *path,
                reason: reason@,
            },
        }
    }
}

/// The advice given when no worker binary was found.
pub open spec fn not_found_text() -> Seq<char> {
    "the monty worker binary was not found.\n\nPython for the CodeAct runtime runs in a `monty` worker subprocess, so the binary has to be available. Any one of these fixes it:\n\n1. Install it (note `--locked`, which is required):\n       "@
        + INSTALL_COMMAND@ + "\n2. Point at an existing binary:\n       export "@ + BINARY_ENV_VAR@
        + "=/path/to/monty\n3. Configure it in code:\n       MontyRuntime::builder().worker_binary(\"/path/to/monty\")\n\nOmitting `--locked` in step 1 fails inside a dependency (`CompactString: GetSize`) for reasons unrelated to your project."@
}

/// The advice given when the worker binary at the shown path is unusable.
pub open spec fn unusable_text(shown: Seq<char>, reason: Seq<char>) -> Seq<char> {
    "the monty worker binary at "@ + shown + " is not usable: "@ + reason
        + ".\nInstall a working one with:\n       "@ + INSTALL_COMMAND@
}

/// The advice given when the worker binary at the shown path is unusable.
pub fn unusable_message(shown: &str, reason: &str) -> (message: String)
    ensures
        message@ == unusable_text(shown@, reason@),
{
    let mut message: String = "the monty worker binary at ".to_string();
    message.append(shown);
    message.append(" is not usable: ");
    message.append(reason);
    message.append(".\nInstall a working one with:\n       ");
    message.append(INSTALL_COMMAND);
    message
}

/// The text is the message of the error.
pub open spec fn is_message_of(error: SetupErrorView, message: Seq<char>) -> bool {
    match error {
        SetupErrorView::NotFound => message == not_found_text(),
        SetupErrorView::Unusable { path, reason } => is_unusable_message(path, reason, message),
    }
}

/// The text is the advice given when the worker binary at the path is unusable.
pub open spec fn is_unusable_message(path: PathBuf, reason: Seq<char>, message: Seq<char>) -> bool {
    exists|shown: Seq<char>| #[trigger]
        is_shown(path, shown) && message == unusable_text(shown, reason)
}

impl SetupError {
    /// The error's message: what is wrong, and everything that fixes it.
    pub fn to_string(&self) -> (message: String)
        ensures
            is_message_of(self@, message@),
    {
        match self {
            SetupError::NotFound => {
                let mut message: String = "the monty worker binary was not found.\n\nPython for the CodeAct runtime runs in a `monty` worker subprocess, so the binary has to be available. Any one of these fixes it:\n\n1. Install it (note `--locked`, which is required):\n       ".to_string();
                message.append(INSTALL_COMMAND);
                message.append("\n2. Point at an existing binary:\n       export ");
                message.append(BINARY_ENV_VAR);
                message.append("=/path/to/monty\n3. Configure it in code:\n       MontyRuntime::builder().worker_binary(\"/path/to/monty\")\n\nOmitting `--locked` in step 1 fails inside a dependency (`CompactString: GetSize`) for reasons unrelated to your project.");
                message
            },
            SetupError::Unusable { path, reason } => {
                let shown: String = path_text(path);
                let message: String = unusable_message(shown.as_str(), reason.as_str());
                assert(is_shown(*path, shown@));
                assert(is_unusable_message(*path, reason@, message@));
                message
            },
        }
    }
}

/// How the worker binary should be found.
///
/// The default consults [`BINARY_ENV_VAR`] and then `PATH`; an explicit path
/// skips both.
#[derive(Debug, PartialEq, Eq)]
pub enum WorkerBinary {
    /// Consult `ADK_MONTY_BINARY`, then `PATH`.
    Discover,
    /// Use exactly this path.
    Path(PathBuf),
}

impl Default for WorkerBinary {
    fn default() -> (binary: Self)
        ensures
            binary == WorkerBinary::Discover,
    {
        WorkerBinary::Discover
    }
}

impl Clone for WorkerBinary {
    fn clone(&self) -> (copy: Self)
        ensures
            copy == *self,
    {
        match self {
            WorkerBinary::Discover => WorkerBinary::Discover,
            WorkerBinary::Path(path) => WorkerBinary::Path(path.clone()),
        }
    }
}

/// What the host found at a path.
#[derive(Debug, PartialEq, Eq)]
pub enum FileStatus {
    /// A file.
    File,
    /// Something that is not a file.
    NotAFile,
    /// Nothing that could be looked at, for this reason.
    Unreadable(String),
}

/// What the host says.
#[derive(Debug)]
pub enum HostAnswer {
    /// What there is at the path that was asked about.
    Inspected(FileStatus),
    /// The value of the environment variable, if it is set.
    EnvVar(Option<PathBuf>),
    /// The directories on `PATH`, if it is set.
    SearchPath(Option<Vec<PathBuf>>),
}

/// What the host is to be asked.
#[derive(Debug)]
pub enum HostRequest<'a> {
    /// What there is at this path.
    Inspect { path: &'a PathBuf },
    /// The value of this environment variable.
    ReadEnvVar { name: &'static str },
    /// The directories on `PATH`.
    ReadSearchPath,
    /// Nothing: resolution is over, with this result.
    Done { result: &'a Result<PathBuf, SetupError> },
}

/// How far resolution has come.
#[derive(Debug)]
pub enum Resolution {
    /// A configured path is being inspected.
    Checking { path: PathBuf },
    /// The environment variable is being read.
    ReadingEnvVar,
    /// `PATH` is being read.
    ReadingSearchPath,
    /// The directories on `PATH` are being looked in, one by one.
    Searching {
        /// The directories.
        dirs: Vec<PathBuf>,
        /// The place of the directory that is being looked in.
        next: usize,
        /// The path of the binary in that directory, which is being inspected.
        candidate: PathBuf,
    },
    /// Resolution is over.
    Resolved { result: Result<PathBuf, SetupError> },
}

/// What a [`Resolution`] knows.
pub enum ResolutionView {
    /// A configured path is being inspected.
    Checking { path: PathBuf },
    /// The environment variable is being read.
    ReadingEnvVar,
    /// `PATH` is being read.
    ReadingSearchPath,
    /// These directories are left to be looked in, the first of them now, at this path.
    Searching { dirs: Seq<PathBuf>, candidate: PathBuf },
    /// Resolution is over.
    Resolved { result: Result<PathBuf, SetupErrorView> },
}

/// A result, with its error as what it says.
pub open spec fn result_view(result: Result<PathBuf, SetupError>) -> Result<
    PathBuf,
    SetupErrorView,
> {
    match result {
        Ok(path) => Ok(path),
        Err(error) => Err(error@),
    }
}

impl View for Resolution {
    type V = ResolutionView;

    open spec fn view(&self) -> ResolutionView {
        match self {
            Resolution::Checking { path } => ResolutionView::Checking { path: *path },
            Resolution::ReadingEnvVar => ResolutionView::ReadingEnvVar,
            Resolution::ReadingSearchPath => ResolutionView::ReadingSearchPath,
            Resolution::Searching { dirs, next, candidate } => ResolutionView::Searching {
                dirs: dirs@.skip(*next as int),
                candidate: *candidate,
            },
            Resolution::Resolved { result } => ResolutionView::Resolved {
                result: result_view(*result),
            },
        }
    }
}

/// A configured path is usable when it is a file; otherwise the reason is kept.
pub open spec fn checked(path: PathBuf, status: FileStatus) -> Result<PathBuf, SetupErrorView> {
    match status {
        FileStatus::File => Ok(path),
        FileStatus::NotAFile => Err(SetupErrorView::Unusable { path, reason: "not a file"@ }),
        FileStatus::Unreadable(reason) => Err(SetupErrorView::Unusable { path, reason: reason@ }),
    }
}

/// Resolution is over, with nothing found.
pub open spec fn nothing_found() -> ResolutionView {
    ResolutionView::Resolved { result: Err(SetupErrorView::NotFound) }
}

/// Resolution has come to the search through these directories, at the binary's path in the
/// first one; without any there is nothing to find.
pub open spec fn is_search_through(resolution: ResolutionView, dirs: Seq<PathBuf>) -> bool {
    if dirs.len() == 0 {
        resolution == nothing_found()
    } else {
        &&& resolution is Searching
        &&& resolution->dirs == dirs
        &&& is_in_directory(dirs[0], BINARY_NAME@, resolution->candidate)
    }
}

/// Where resolution begins.
pub open spec fn begun(binary: WorkerBinary) -> ResolutionView {
    match binary {
        WorkerBinary::Path(path) => ResolutionView::Checking { path },
        WorkerBinary::Discover => ResolutionView::ReadingEnvVar,
    }
}

/// An answer takes resolution from one point to the next; an answer to something else changes
/// nothing.
pub open spec fn is_answered(
    resolution: ResolutionView,
    answer: HostAnswer,
    next: ResolutionView,
) -> bool {
    match (resolution, answer) {
        (ResolutionView::Checking { path }, HostAnswer::Inspected(status)) => next == (
        ResolutionView::Resolved { result: checked(path, status) }),
        (ResolutionView::ReadingEnvVar, HostAnswer::EnvVar(value)) => next == match value {
            Some(path) if path_bytes(path).len() > 0 => ResolutionView::Checking { path },
            _ => ResolutionView::ReadingSearchPath,
        },
        (ResolutionView::ReadingSearchPath, HostAnswer::SearchPath(dirs)) => match dirs {
            Some(dirs) => is_search_through(next, dirs@),
            None => next == nothing_found(),
        },
        (ResolutionView::Searching { dirs, candidate }, HostAnswer::Inspected(status)) => {
            if status is File {
                next == (ResolutionView::Resolved { result: Ok(candidate) })
            } else {
                is_search_through(next, dirs.drop_first())
            }
        },
        _ => next == resolution,
    }
}

/// Validates a configured path, preserving *why* it is unusable.
pub fn check(path: &PathBuf, status: FileStatus) -> (result: Result<PathBuf, SetupError>)
    ensures
        result_view(result) == checked(*path, status),
{
    match status {
        FileStatus::File => Ok(path.clone()),
        FileStatus::NotAFile => Err(
            SetupError::Unusable { path: path.clone(), reason: "not a file".to_string() },
        ),
        FileStatus::Unreadable(reason) => Err(SetupError::Unusable { path: path.clone(), reason }),
    }
}

/// Looks for [`BINARY_NAME`] in the directories on `PATH`, from the one at `next` on.
pub fn find_on_path(dirs: Vec<PathBuf>, next: usize) -> (resolution: Resolution)
    requires
        next <= dirs@.len(),
    ensures
        resolution.wf(),
        is_search_through(resolution@, dirs@.skip(next as int)),
{
    if next < dirs.len() {
        proof {
            reveal_strlit("monty");
        }
        let candidate: PathBuf = in_directory(&dirs[next], BINARY_NAME);
        Resolution::Searching { dirs, next, candidate }
    } else {
        Resolution::Resolved { result: Err(SetupError::NotFound) }
    }
}

impl WorkerBinary {
    /// Begins to resolve to a usable path, or to an explanation of what to do about it.
    ///
    /// # Errors
    ///
    /// Resolution ends with [`SetupError::NotFound`] when discovery finds nothing, or with
    /// [`SetupError::Unusable`] when a configured path is missing or is not a
    /// file: a configured-but-wrong path is reported as such rather than
    /// silently falling through to discovery, because a caller who set a path
    /// meant it.
    pub fn resolve(&self) -> (resolution: Resolution)
        ensures
            resolution.wf(),
            resolution@ == begun(*self),
    {
        match self {
            WorkerBinary::Path(path) => Resolution::Checking { path: path.clone() },
            WorkerBinary::Discover => Resolution::ReadingEnvVar,
        }
    }
}

/// Begins to find out whether a usable worker binary is available, and where.
///
/// Intended for a startup check or a `doctor`-style command, so an application
/// can fail fast with an actionable message instead of surfacing the problem
/// midway through an agent turn.
pub fn probe(binary: &WorkerBinary) -> (resolution: Resolution)
    ensures
        resolution.wf(),
        resolution@ == begun(*binary),
{
    binary.resolve()
}

impl Resolution {
    /// A search has a directory to look in.
    pub open spec fn wf(self) -> bool {
        self matches Resolution::Searching { dirs, next, .. } ==> next < dirs@.len()
    }

    /// What the host is to be asked next.
    pub fn request(&self) -> (request: HostRequest<'_>)
        ensures
            match self@ {
                ResolutionView::Checking { path } => request == (HostRequest::Inspect {
                    path: &path,
                }),
                ResolutionView::ReadingEnvVar => request == (HostRequest::ReadEnvVar {
                    name: BINARY_ENV_VAR,
                }),
                ResolutionView::ReadingSearchPath => request == HostRequest::ReadSearchPath,
                ResolutionView::Searching { candidate, .. } => request == (HostRequest::Inspect {
                    path: &candidate,
                }),
                ResolutionView::Resolved { result } => request is Done && result_view(
                    *request->result,
                ) == result,
            },
    {
        match self {
            Resolution::Checking { path } => HostRequest::Inspect { path },
            Resolution::ReadingEnvVar => HostRequest::ReadEnvVar { name: BINARY_ENV_VAR },
            Resolution::ReadingSearchPath => HostRequest::ReadSearchPath,
            Resolution::Searching { candidate, .. } => HostRequest::Inspect { path: candidate },
            Resolution::Resolved { result } => HostRequest::Done { result },
        }
    }

    /// Takes the host's answer and moves on; an answer to something else changes nothing.
    pub fn advance(self, answer: HostAnswer) -> (resolution: Self)
        requires
            self.wf(),
        ensures
            resolution.wf(),
            is_answered(self@, answer, resolution@),
    {
        match self {
            Resolution::Checking { path } => match answer {
                HostAnswer::Inspected(status) => Resolution::Resolved {
                    result: check(&path, status),
                },
                _ => Resolution::Checking { path },
            },
            Resolution::ReadingEnvVar => match answer {
                HostAnswer::EnvVar(Some(path)) => {
                    if path_is_empty(&path) {
                        Resolution::ReadingSearchPath
                    } else {
                        Resolution::Checking { path }
                    }
                },
                HostAnswer::EnvVar(None) => Resolution::ReadingSearchPath,
                _ => Resolution::ReadingEnvVar,
            },
            Resolution::ReadingSearchPath => match answer {
                HostAnswer::SearchPath(Some(dirs)) => {
                    assert(dirs@.skip(0) =~= dirs@);
                    find_on_path(dirs, 0)
                },
                HostAnswer::SearchPath(None) => Resolution::Resolved {
                    result: Err(SetupError::NotFound),
                },
                _ => Resolution::ReadingSearchPath,
            },
            Resolution::Searching { dirs, next, candidate } => match answer {
                HostAnswer::Inspected(FileStatus::File) => Resolution::Resolved {
                    result: Ok(candidate),
                },
                HostAnswer::Inspected(_) => {
                    assert(next < dirs.len());
                    assert(dirs@.skip(next as int).drop_first() =~= dirs@.skip(next + 1));
                    find_on_path(dirs, next + 1)
                },
                _ => Resolution::Searching { dirs, next, candidate },
            },
            Resolution::Resolved { result } => Resolution::Resolved { result },
        }
    }
}

} // verus!
