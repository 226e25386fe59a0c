//! What holds of every resolution of the worker binary.
use crate::setup;
use crate::setup::{
    FileStatus, HostAnswer, Resolution, ResolutionView, SetupError, SetupErrorView, WorkerBinary,
    BINARY_ENV_VAR, BINARY_NAME, INSTALL_COMMAND, MONTY_VERSION,
};
use std::path::PathBuf;
use vstd::prelude::*;

verus! {

/// A host, as far as resolution asks about it.
pub struct Host {
    /// The value of the environment variable, if it is set.
    pub env_var: Option<PathBuf>,
    /// The directories on `PATH`, if it is set.
    pub search_path: Option<Seq<PathBuf>>,
    /// What there is at a path.
    pub status: spec_fn(PathBuf) -> FileStatus,
    /// The path of the binary's name in a directory.
    pub binary_in: spec_fn(PathBuf) -> PathBuf,
}

/// The directories on the host's `PATH`.
pub open spec fn search_dirs(host: Host) -> Seq<PathBuf> {
    match host.search_path {
        Some(dirs) => dirs,
        None => seq![],
    }
}

/// The path that the environment names; an empty value names none.
pub open spec fn path_from_env(host: Host) -> Option<PathBuf> {
    match host.env_var {
        Some(path) if setup::path_bytes(path).len() > 0 => Some(path),
        _ => None,
    }
}

/// On this host the binary in a directory on `PATH` is at the directory's path joined with the
/// binary's name.
pub open spec fn names_the_binary(host: Host) -> bool {
    forall|i: int|
        0 <= i < search_dirs(host).len() ==> setup::is_in_directory(
            #[trigger] search_dirs(host)[i],
            BINARY_NAME@,
            (host.binary_in)(search_dirs(host)[i]),
        )
}

/// The directory has the binary, as a file.
pub open spec fn has_binary(host: Host, dir: PathBuf) -> bool {
    (host.status)((host.binary_in)(dir)) is File
}

/// The binary in the first of the directories that has one.
pub open spec fn first_found(host: Host, dirs: Seq<PathBuf>) -> Option<PathBuf>
    decreases dirs.len(),
{
    if dirs.len() == 0 {
        None
    } else if has_binary(host, dirs[0]) {
        Some((host.binary_in)(dirs[0]))
    } else {
        first_found(host, dirs.drop_first())
    }
}

/// What resolution should come to on a host: the configured path, else the one from the
/// environment, else the first on `PATH`.
pub open spec fn located(binary: WorkerBinary, host: Host) -> Result<PathBuf, SetupErrorView> {
    match binary {
        WorkerBinary::Path(path) => setup::checked(path, (host.status)(path)),
        WorkerBinary::Discover => match path_from_env(host) {
            Some(path) => setup::checked(path, (host.status)(path)),
            None => match first_found(host, search_dirs(host)) {
                Some(path) => Ok(path),
                None => Err(SetupErrorView::NotFound),
            },
        },
    }
}

/// The answer is the one that this host gives at this point.
pub open spec fn is_true_of(host: Host, resolution: ResolutionView, answer: HostAnswer) -> bool {
    match resolution {
        ResolutionView::Checking { path } => answer == HostAnswer::Inspected((host.status)(path)),
        ResolutionView::ReadingEnvVar => answer == HostAnswer::EnvVar(host.env_var),
        ResolutionView::ReadingSearchPath => match answer {
            HostAnswer::SearchPath(Some(dirs)) => host.search_path == Some(dirs@),
            HostAnswer::SearchPath(None) => host.search_path is None,
            _ => false,
        },
        ResolutionView::Searching { candidate, .. } => answer == HostAnswer::Inspected(
            (host.status)(candidate),
        ),
        ResolutionView::Resolved { .. } => false,
    }
}

/// A search is at the path that this host gives the binary in the directory it looks in.
pub open spec fn is_joined_by(host: Host, resolution: ResolutionView) -> bool {
    resolution matches ResolutionView::Searching { dirs, candidate } ==> candidate == (
    host.binary_in)(dirs[0])
}

/// Resolution on a host: the points it comes to, one after the other, and the answers that
/// take it from each to the next.
pub struct Course {
    /// The points, from the first on.
    pub points: Seq<ResolutionView>,
    /// The answer at each point but the last.
    pub answers: Seq<HostAnswer>,
}

/// The course is one that resolution takes on this host.
pub open spec fn is_course(host: Host, binary: WorkerBinary, course: Course) -> bool {
    &&& course.points.len() == course.answers.len() + 1
    &&& course.points[0] == setup::begun(binary)
    &&& forall|i: int| 0 <= i < course.points.len() ==> is_joined_by(host, #[trigger] course.points[i])
    &&& forall|i: int|
        0 <= i < course.answers.len() ==> {
            &&& is_true_of(host, course.points[i], #[trigger] course.answers[i])
            &&& setup::is_answered(course.points[i], course.answers[i], course.points[i + 1])
        }
}

/// What resolution will come to on a host, from a given point on.
pub open spec fn outcome(resolution: ResolutionView, host: Host) -> Result<
    PathBuf,
    SetupErrorView,
> {
    match resolution {
        ResolutionView::Checking { path } => located(WorkerBinary::Path(path), host),
        ResolutionView::ReadingEnvVar => located(WorkerBinary::Discover, host),
        ResolutionView::ReadingSearchPath => located(
            WorkerBinary::Discover,
            Host { env_var: None, ..host },
        ),
        ResolutionView::Searching { dirs, .. } => match first_found(host, dirs) {
            Some(path) => Ok(path),
            None => Err(SetupErrorView::NotFound),
        },
        ResolutionView::Resolved { result } => result,
    }
}

/// How many answers resolution still takes at most.
pub open spec fn steps_left(resolution: ResolutionView, host: Host) -> nat {
    match resolution {
        ResolutionView::Checking { .. } => 1,
        ResolutionView::ReadingEnvVar => search_dirs(host).len() + 3,
        ResolutionView::ReadingSearchPath => search_dirs(host).len() + 2,
        ResolutionView::Searching { dirs, .. } => dirs.len() + 1,
        ResolutionView::Resolved { .. } => 0,
    }
}

/// The search for a binary does not depend on the environment variable.
proof fn lemma_search_ignores_env(host: Host, env_var: Option<PathBuf>, dirs: Seq<PathBuf>)
    ensures
        first_found(Host { env_var, ..host }, dirs) == first_found(host, dirs),
    decreases dirs.len(),
{
    if dirs.len() > 0 {
        lemma_search_ignores_env(host, env_var, dirs.drop_first());
    }
}

/// A true answer keeps what resolution will come to, and brings its end closer.
proof fn lemma_true_answer(
    host: Host,
    resolution: ResolutionView,
    answer: HostAnswer,
    next: ResolutionView,
)
    requires
        is_true_of(host, resolution, answer),
        is_joined_by(host, resolution),
        resolution is Searching ==> resolution->dirs.len() > 0,
        setup::is_answered(resolution, answer, next),
    ensures
        outcome(next, host) == outcome(resolution, host),
        steps_left(next, host) < steps_left(resolution, host),
        next is Searching ==> next->dirs.len() > 0,
{
    reveal_with_fuel(first_found, 2);
    match resolution {
        ResolutionView::ReadingEnvVar => {
            lemma_search_ignores_env(host, None, search_dirs(host));
        },
        ResolutionView::ReadingSearchPath => {
            lemma_search_ignores_env(host, None, search_dirs(host));
            match answer {
                HostAnswer::SearchPath(Some(dirs)) => {
                    assert(search_dirs(host) == dirs@);
                },
                _ => {
                    assert(search_dirs(host) =~= seq![]);
                },
            }
        },
        _ => {},
    }
}

/// Every point of a course leads to what resolution should come to, and is nearer its end.
proof fn lemma_course(host: Host, binary: WorkerBinary, course: Course, place: int)
    requires
        is_course(host, binary, course),
        0 <= place < course.points.len(),
    ensures
        outcome(course.points[place], host) == located(binary, host),
        place + steps_left(course.points[place], host) <= search_dirs(host).len() + 3,
        course.points[place] is Searching ==> course.points[place]->dirs.len() > 0,
    decreases place,
{
    if place > 0 {
        lemma_course(host, binary, course, place - 1);
        let answer = course.answers[place - 1];
        assert(is_joined_by(host, course.points[place - 1]));
        lemma_true_answer(host, course.points[place - 1], answer, course.points[place]);
    }
}

/// Resolution is explicit and ordered: asked truthfully, it ends with the configured path, else
/// the one from the environment, else the first file `monty` in a directory on `PATH`, each only
/// if usable.
pub proof fn law_resolution_is_ordered(
    host: Host,
    binary: WorkerBinary,
    course: Course,
    result: Result<PathBuf, SetupErrorView>,
)
    requires
        names_the_binary(host),
        is_course(host, binary, course),
        course.points.last() == (ResolutionView::Resolved { result }),
    ensures
        result == located(binary, host),
{
    lemma_course(host, binary, course, course.points.len() - 1);
}

/// Resolution comes to its end: it takes no more answers than there are directories on `PATH`,
/// and three besides.
pub proof fn law_resolution_ends(host: Host, binary: WorkerBinary, course: Course)
    requires
        is_course(host, binary, course),
    ensures
        course.answers.len() <= search_dirs(host).len() + 3,
{
    lemma_course(host, binary, course, course.points.len() - 1);
}

/// The path is that of the binary in a directory on the host's `PATH`, and a file.
pub open spec fn is_on_search_path(host: Host, path: PathBuf) -> bool {
    exists|i: int|
        0 <= i < search_dirs(host).len() && setup::is_in_directory(
            #[trigger] search_dirs(host)[i],
            BINARY_NAME@,
            path,
        ) && (host.status)(path) is File
}

/// Without a path from the environment, discovery is at a directory on `PATH`, or has found
/// the binary in one.
proof fn lemma_search_stays_on_the_search_path(host: Host, course: Course, place: int)
    requires
        is_course(host, WorkerBinary::Discover, course),
        path_from_env(host) is None,
        0 <= place < course.points.len(),
    ensures
        match course.points[place] {
            ResolutionView::Checking { .. } => false,
            ResolutionView::Searching { dirs, candidate } => {
                let all = search_dirs(host);
                &&& 0 < dirs.len() <= all.len()
                &&& dirs == all.skip(all.len() - dirs.len())
                &&& setup::is_in_directory(dirs[0], BINARY_NAME@, candidate)
            },
            ResolutionView::Resolved { result: Ok(path) } => is_on_search_path(host, path),
            _ => true,
        },
    decreases place,
{
    if place > 0 {
        let before = course.points[place - 1];
        let next = course.points[place];
        let answer = course.answers[place - 1];
        let all = search_dirs(host);
        lemma_search_stays_on_the_search_path(host, course, place - 1);
        assert(is_true_of(host, before, answer));
        assert(setup::is_answered(before, answer, next));
        match before {
            ResolutionView::ReadingSearchPath => {
                assert(all.skip(0) =~= all);
                if let HostAnswer::SearchPath(Some(dirs)) = answer {
                    assert(all == dirs@);
                }
            },
            ResolutionView::Searching { dirs, candidate } => {
                let at = all.len() - dirs.len();
                assert(dirs[0] == all[at]);
                assert(dirs.drop_first() =~= all.skip(at + 1));
            },
            _ => {},
        }
    }
}

/// A binary found on `PATH` is the file of that name in one of its directories.
pub proof fn law_a_found_binary_stands_on_the_search_path(
    host: Host,
    course: Course,
    path: PathBuf,
)
    requires
        is_course(host, WorkerBinary::Discover, course),
        path_from_env(host) is None,
        course.points.last() == (ResolutionView::Resolved { result: Ok(path) }),
    ensures
        is_on_search_path(host, path),
{
    lemma_search_stays_on_the_search_path(host, course, course.points.len() - 1);
}

/// No character but a separator is written with a separator's byte.
proof fn lemma_encoded_separator(c: char)
    requires
        c != '/',
        c != '\\',
    ensures
        forall|i: int|
            0 <= i < vstd::utf8::encode_scalar(c as u32).len() ==> !setup::is_separator(
                #[trigger] vstd::utf8::encode_scalar(c as u32)[i],
            ),
{
    let scalar = c as u32;
    assert(scalar <= 0x7f ==> (scalar & 0x7f) as u8 == scalar) by (bit_vector);
    assert(forall|bits: u8| #[trigger] (0x80 | bits) >= 0x80) by (bit_vector);
    assert(forall|bits: u8| #[trigger] (0xc0 | bits) >= 0x80) by (bit_vector);
    assert(forall|bits: u8| #[trigger] (0xe0 | bits) >= 0x80) by (bit_vector);
    assert(forall|bits: u8| #[trigger] (0xf0 | bits) >= 0x80) by (bit_vector);
}

/// The bytes of a name without separators hold none.
proof fn lemma_plain_name_has_no_separator(name: Seq<char>)
    requires
        !name.contains('/'),
        !name.contains('\\'),
    ensures
        forall|i: int|
            0 <= i < vstd::utf8::encode_utf8(name).len() ==> !setup::is_separator(
                #[trigger] vstd::utf8::encode_utf8(name)[i],
            ),
    decreases name.len(),
{
    if name.len() > 0 {
        let rest = name.drop_first();
        assert(name.contains(name[0]));
        assert forall|c: char| rest.contains(c) implies name.contains(c) by {
            let i = rest.index_of(c);
            assert(name[i + 1] == c);
        }
        let head = vstd::utf8::encode_scalar(name[0] as u32);
        let whole = vstd::utf8::encode_utf8(name);
        lemma_encoded_separator(name[0]);
        lemma_plain_name_has_no_separator(rest);
        assert forall|i: int| 0 <= i < whole.len() implies !setup::is_separator(
            #[trigger] whole[i],
        ) by {
            if i < head.len() {
                assert(whole[i] == head[i]);
            } else {
                assert(whole[i] == vstd::utf8::encode_utf8(rest)[i - head.len()]);
            }
        }
    }
}

/// Of two names at one path in a directory, a plain one is no longer than the other.
proof fn lemma_no_longer_name(
    dir: PathBuf,
    name: Seq<char>,
    front: Seq<u8>,
    other: Seq<char>,
    other_front: Seq<u8>,
)
    requires
        setup::is_plain_name(name),
        setup::leads_into(setup::path_bytes(dir), front, setup::is_verbatim(dir)),
        setup::leads_into(setup::path_bytes(dir), other_front, setup::is_verbatim(dir)),
        front + vstd::utf8::encode_utf8(name) == other_front + vstd::utf8::encode_utf8(other),
    ensures
        front.len() >= other_front.len(),
{
    if front.len() < other_front.len() {
        let bytes = vstd::utf8::encode_utf8(name);
        let whole = front + bytes;
        lemma_plain_name_has_no_separator(name);
        let at = other_front.len() - 1;
        assert(whole.len() == other_front.len() + vstd::utf8::encode_utf8(other).len());
        assert(whole[at] == other_front.last());
        assert(whole[at] == bytes[at - front.len()]);
    }
}

/// A path in a directory is that of one name: what is looked for under a name is found under
/// no other.
pub proof fn law_a_path_in_a_directory_has_one_name(
    dir: PathBuf,
    name: Seq<char>,
    other: Seq<char>,
    path: PathBuf,
)
    requires
        setup::is_plain_name(name),
        setup::is_plain_name(other),
        setup::is_in_directory(dir, name, path),
        setup::is_in_directory(dir, other, path),
    ensures
        name == other,
{
    let bytes = vstd::utf8::encode_utf8(name);
    let other_bytes = vstd::utf8::encode_utf8(other);
    let front = choose|front: Seq<u8>| #[trigger]
        setup::leads_into(setup::path_bytes(dir), front, setup::is_verbatim(dir))
            && setup::path_bytes(path) == front + bytes;
    let other_front = choose|front: Seq<u8>| #[trigger]
        setup::leads_into(setup::path_bytes(dir), front, setup::is_verbatim(dir))
            && setup::path_bytes(path) == front + other_bytes;
    lemma_no_longer_name(dir, name, front, other, other_front);
    lemma_no_longer_name(dir, other, other_front, name, front);
    let whole = setup::path_bytes(path);
    assert(bytes =~= whole.skip(front.len() as int));
    assert(other_bytes =~= whole.skip(front.len() as int));
    vstd::utf8::encode_utf8_decode_utf8(name);
    vstd::utf8::encode_utf8_decode_utf8(other);
}

/// A configured path skips discovery: it is inspected, and whatever there is at it, resolution
/// ends with that path or with an explanation that names it.
pub proof fn law_a_configured_path_never_falls_through(
    path: PathBuf,
    status: FileStatus,
    next: ResolutionView,
)
    requires
        setup::is_answered(
            setup::begun(WorkerBinary::Path(path)),
            HostAnswer::Inspected(status),
            next,
        ),
    ensures
        setup::begun(WorkerBinary::Path(path)) == (ResolutionView::Checking { path }),
        next == (ResolutionView::Resolved { result: setup::checked(path, status) }),
        match setup::checked(path, status) {
            Ok(used) => used == path && status is File,
            Err(SetupErrorView::Unusable { path: tried, .. }) => tried == path && !(status is File),
            Err(SetupErrorView::NotFound) => false,
        },
{
}

/// A path from the environment never falls through to `PATH` either, unless it is empty, which
/// counts as not being set.
pub proof fn law_a_path_from_the_environment_is_meant(path: PathBuf, next: ResolutionView)
    requires
        setup::is_answered(
            ResolutionView::ReadingEnvVar,
            HostAnswer::EnvVar(Some(path)),
            next,
        ),
    ensures
        setup::path_bytes(path).len() > 0 ==> next == setup::begun(WorkerBinary::Path(path)),
        setup::path_bytes(path).len() == 0 ==> setup::is_answered(
            ResolutionView::ReadingEnvVar,
            HostAnswer::EnvVar(None),
            next,
        ),
{
}

/// The search through directories finds the binary of the first one which has it.
proof fn lemma_first_found(host: Host, dirs: Seq<PathBuf>, place: int)
    requires
        0 <= place < dirs.len(),
        has_binary(host, dirs[place]),
        forall|i: int| 0 <= i < place ==> !has_binary(host, #[trigger] dirs[i]),
    ensures
        first_found(host, dirs) == Some((host.binary_in)(dirs[place])),
    decreases dirs.len(),
{
    if place > 0 {
        assert(!has_binary(host, dirs[0]));
        assert forall|i: int| 0 <= i < place - 1 implies !has_binary(
            host,
            #[trigger] dirs.drop_first()[i],
        ) by {
            assert(dirs.drop_first()[i] == dirs[i + 1]);
        }
        lemma_first_found(host, dirs.drop_first(), place - 1);
    }
}

/// Without a path from the environment, discovery ends with the file `monty` in the first
/// directory on `PATH` that has one: the directory's path joined with that name.
pub proof fn law_the_first_directory_wins(
    host: Host,
    course: Course,
    result: Result<PathBuf, SetupErrorView>,
    place: int,
)
    requires
        names_the_binary(host),
        is_course(host, WorkerBinary::Discover, course),
        course.points.last() == (ResolutionView::Resolved { result }),
        path_from_env(host) is None,
        0 <= place < search_dirs(host).len(),
        has_binary(host, search_dirs(host)[place]),
        forall|i: int| 0 <= i < place ==> !has_binary(host, #[trigger] search_dirs(host)[i]),
    ensures
        result == Ok::<_, SetupErrorView>((host.binary_in)(search_dirs(host)[place])),
        setup::is_in_directory(search_dirs(host)[place], BINARY_NAME@, result->Ok_0),
        (host.status)(result->Ok_0) is File,
{
    law_resolution_is_ordered(host, WorkerBinary::Discover, course, result);
    lemma_first_found(host, search_dirs(host), place);
}

/// Resolution ends with nothing found exactly when no path is configured, the environment names
/// none, and no directory on `PATH` has a file `monty`.
pub proof fn law_not_found_means_nothing_was_there(
    host: Host,
    binary: WorkerBinary,
    course: Course,
    result: Result<PathBuf, SetupErrorView>,
)
    requires
        names_the_binary(host),
        is_course(host, binary, course),
        course.points.last() == (ResolutionView::Resolved { result }),
    ensures
        result == Err::<PathBuf, _>(SetupErrorView::NotFound) <==> {
            &&& binary is Discover
            &&& path_from_env(host) is None
            &&& forall|i: int|
                0 <= i < search_dirs(host).len() ==> !has_binary(
                    host,
                    #[trigger] search_dirs(host)[i],
                )
        },
{
    law_resolution_is_ordered(host, binary, course, result);
    lemma_nothing_found(host, search_dirs(host));
}

/// A search finds nothing exactly when no directory has the binary.
proof fn lemma_nothing_found(host: Host, dirs: Seq<PathBuf>)
    ensures
        first_found(host, dirs) is None <==> forall|i: int|
            0 <= i < dirs.len() ==> !has_binary(host, #[trigger] dirs[i]),
    decreases dirs.len(),
{
    if dirs.len() > 0 {
        let rest = dirs.drop_first();
        lemma_nothing_found(host, rest);
        if first_found(host, dirs) is None {
            assert forall|i: int| 0 <= i < dirs.len() implies !has_binary(
                host,
                #[trigger] dirs[i],
            ) by {
                if i > 0 {
                    assert(rest[i - 1] == dirs[i]);
                }
            }
        } else if has_binary(host, dirs[0]) {
        } else {
            let i = choose|i: int| 0 <= i < rest.len() && has_binary(host, #[trigger] rest[i]);
            assert(dirs[i + 1] == rest[i]);
        }
    }
}

/// One text stands inside another.
pub open spec fn contains_text(whole: Seq<char>, part: Seq<char>) -> bool {
    exists|at: int|
        #![trigger whole.subrange(at, at + part.len())]
        0 <= at && at + part.len() <= whole.len() && whole.subrange(at, at + part.len()) == part
}

proof fn lemma_contains(before: Seq<char>, part: Seq<char>, after: Seq<char>)
    ensures
        contains_text(before + part + after, part),
{
    let whole = before + part + after;
    let at = before.len() as int;
    assert(whole.subrange(at, at + part.len()) =~= part);
}

/// A part of the last of three pieces is a part of the whole.
proof fn lemma_contains_further(before: Seq<char>, after: Seq<char>, part: Seq<char>)
    requires
        contains_text(after, part),
    ensures
        contains_text(before + after, part),
{
    let whole = before + after;
    let at = choose|at: int|
        #![trigger after.subrange(at, at + part.len())]
        0 <= at && at + part.len() <= after.len() && after.subrange(at, at + part.len()) == part;
    let place = before.len() + at;
    assert(whole.subrange(place, place + part.len()) =~= after.subrange(at, at + part.len()));
}

/// Every message carries what its reader needs: the one for a missing binary names the install
/// command that works, the environment variable, the setting in code, and the failure to expect
/// without `--locked`; the one for an unusable binary shows its path, the reason, and the
/// install command.
pub proof fn law_every_message_carries_the_fix(error: SetupErrorView, message: Seq<char>)
    requires
        setup::is_message_of(error, message),
    ensures
        contains_text(message, INSTALL_COMMAND@),
        error is NotFound ==> {
            &&& contains_text(message, BINARY_ENV_VAR@)
            &&& contains_text(message, "worker_binary"@)
            &&& contains_text(message, "CompactString: GetSize"@)
        },
        error matches SetupErrorView::Unusable { path, reason } ==> {
            &&& contains_text(message, reason)
            &&& exists|shown: Seq<char>| #[trigger]
                setup::is_shown(path, shown) && contains_text(message, shown)
        },
{
    match error {
        SetupErrorView::NotFound => {
            let whole = setup::not_found_text();
            let intro = "the monty worker binary was not found.\n\nPython for the CodeAct runtime runs in a `monty` worker subprocess, so the binary has to be available. Any one of these fixes it:\n\n1. Install it (note `--locked`, which is required):\n       "@;
            let export = "\n2. Point at an existing binary:\n       export "@;
            let rest = "=/path/to/monty\n3. Configure it in code:\n       MontyRuntime::builder().worker_binary(\"/path/to/monty\")\n\nOmitting `--locked` in step 1 fails inside a dependency (`CompactString: GetSize`) for reasons unrelated to your project."@;
            assert(whole =~= intro + INSTALL_COMMAND@ + (export + BINARY_ENV_VAR@ + rest));
            lemma_contains(intro, INSTALL_COMMAND@, export + BINARY_ENV_VAR@ + rest);
            assert(whole =~= (intro + INSTALL_COMMAND@ + export) + BINARY_ENV_VAR@ + rest);
            lemma_contains(intro + INSTALL_COMMAND@ + export, BINARY_ENV_VAR@, rest);
            lemma_rest_of_not_found_text();
            let front = intro + INSTALL_COMMAND@ + export + BINARY_ENV_VAR@;
            assert(whole =~= front + rest);
            lemma_contains_further(front, rest, "worker_binary"@);
            lemma_contains_further(front, rest, "CompactString: GetSize"@);
        },
        SetupErrorView::Unusable { path, reason } => {
            let shown = choose|shown: Seq<char>| #[trigger]
                setup::is_shown(path, shown) && message == setup::unusable_text(shown, reason);
            let at = "the monty worker binary at "@;
            let not_usable = " is not usable: "@;
            let install = ".\nInstall a working one with:\n       "@;
            let before = at + shown + not_usable + reason + install;
            assert(message =~= before + INSTALL_COMMAND@ + seq![]);
            lemma_contains(before, INSTALL_COMMAND@, seq![]);
            assert(message =~= (at + shown + not_usable) + reason + (install + INSTALL_COMMAND@));
            lemma_contains(at + shown + not_usable, reason, install + INSTALL_COMMAND@);
            assert(message =~= at + shown + (not_usable + reason + install + INSTALL_COMMAND@));
            lemma_contains(at, shown, not_usable + reason + install + INSTALL_COMMAND@);
        },
    }
}

/// Where the last two fixes stand in the advice.
proof fn lemma_rest_of_not_found_text()
    ensures
        ({
            let rest = "=/path/to/monty\n3. Configure it in code:\n       MontyRuntime::builder().worker_binary(\"/path/to/monty\")\n\nOmitting `--locked` in step 1 fails inside a dependency (`CompactString: GetSize`) for reasons unrelated to your project."@;
            &&& contains_text(rest, "worker_binary"@)
            &&& contains_text(rest, "CompactString: GetSize"@)
        }),
{
    let rest = "=/path/to/monty\n3. Configure it in code:\n       MontyRuntime::builder().worker_binary(\"/path/to/monty\")\n\nOmitting `--locked` in step 1 fails inside a dependency (`CompactString: GetSize`) for reasons unrelated to your project."@;
    reveal_strlit("=/path/to/monty\n3. Configure it in code:\n       MontyRuntime::builder().worker_binary(\"/path/to/monty\")\n\nOmitting `--locked` in step 1 fails inside a dependency (`CompactString: GetSize`) for reasons unrelated to your project.");
    reveal_strlit("worker_binary");
    reveal_strlit("CompactString: GetSize");
    let setting = "worker_binary"@;
    let failure = "CompactString: GetSize"@;
    assert(rest.subrange(72, 72int + setting.len()) =~= setting);
    assert(rest.subrange(163, 163int + failure.len()) =~= failure);
}

/// The install command is for the version that is spoken, and it is `--locked`.
pub proof fn law_the_install_command_is_pinned_and_locked()
    ensures
        INSTALL_COMMAND@ == "cargo install monty-runtime --version "@ + MONTY_VERSION@
            + " --locked"@,
{
    reveal_strlit("cargo install monty-runtime --version 0.0.19 --locked");
    reveal_strlit("cargo install monty-runtime --version ");
    reveal_strlit("0.0.19");
    reveal_strlit(" --locked");
}

/// The variable, the binary and the version are called by their names.
pub proof fn law_names_of_the_worker()
    ensures
        BINARY_ENV_VAR@ == "ADK_MONTY_BINARY"@,
        BINARY_NAME@ == "monty"@,
        MONTY_VERSION@ == "0.0.19"@,
{
}

/// In whole bytes: what is looked for in a directory is a file `monty` right in it. The
/// directory's path comes first, then at most one slash or backslash, then the name; a verbatim
/// directory may be rewritten, but the name is still an entry of its own.
pub proof fn law_the_candidate_is_monty_right_in_the_directory(dir: PathBuf, candidate: PathBuf)
    requires
        setup::is_in_directory(dir, BINARY_NAME@, candidate),
    ensures
        ({
            let (front, whole) = (setup::path_bytes(dir), setup::path_bytes(candidate));
            &&& whole.len() >= 5
            &&& whole.skip(whole.len() - 5) == seq![0x6du8, 0x6fu8, 0x6eu8, 0x74u8, 0x79u8]
            &&& if seq![0x5cu8, 0x5cu8, 0x3fu8, 0x5cu8].is_prefix_of(front) {
                whole.len() >= 6 && (whole[whole.len() - 6] == 0x2f || whole[whole.len() - 6]
                    == 0x5c)
            } else {
                &&& front.is_prefix_of(whole)
                &&& front.len() == 0 ==> whole.len() == 5
                &&& whole.len() == front.len() + 5 || (whole.len() == front.len() + 6 && (
                whole[whole.len() - 6] == 0x2f || whole[whole.len() - 6] == 0x5c))
            }
        }),
{
    reveal_strlit("monty");
    let name = BINARY_NAME@;
    let bytes = vstd::utf8::encode_utf8(name);
    assert(vstd::utf8::is_ascii_chars(name));
    vstd::utf8::is_ascii_chars_encode_utf8(name);
    assert(name[0] as u8 == bytes[0] && name[1] as u8 == bytes[1] && name[2] as u8 == bytes[2]
        && name[3] as u8 == bytes[3] && name[4] as u8 == bytes[4]);
    assert(bytes =~= seq![0x6du8, 0x6fu8, 0x6eu8, 0x74u8, 0x79u8]);
    let front = choose|front: Seq<u8>| #[trigger]
        setup::leads_into(setup::path_bytes(dir), front, setup::is_verbatim(dir))
            && setup::path_bytes(candidate) == front + bytes;
    let whole = setup::path_bytes(candidate);
    assert(whole.skip(whole.len() - 5) =~= bytes);
    if front.len() > 0 {
        assert(whole[whole.len() - 6] == front.last());
    }
}

/// Every point of a resolution has a reason: unless an answer leaves it where it is, it comes to
/// a path from the environment only through a variable that is not empty, to the search path only
/// without one, to the search of a directory on `PATH` only once those before it had no file
/// `monty`, and to its end only with a file that was inspected, with the reason why a configured
/// path is none, or once no directory is left.
pub proof fn law_every_point_has_a_reason(
    resolution: ResolutionView,
    answer: HostAnswer,
    next: ResolutionView,
)
    requires
        setup::is_answered(resolution, answer, next),
        resolution is Searching ==> resolution->dirs.len() > 0,
    ensures
        next == resolution || match next {
            ResolutionView::ReadingEnvVar => false,
            ResolutionView::Checking { path } => {
                &&& resolution is ReadingEnvVar
                &&& answer == HostAnswer::EnvVar(Some(path))
                &&& setup::path_bytes(path).len() > 0
            },
            ResolutionView::ReadingSearchPath => {
                &&& resolution is ReadingEnvVar
                &&& answer is EnvVar
                &&& answer->EnvVar_0 is None || setup::path_bytes(answer->EnvVar_0->0).len() == 0
            },
            ResolutionView::Searching { dirs, candidate } => {
                &&& dirs.len() > 0
                &&& setup::is_in_directory(dirs[0], "monty"@, candidate)
                &&& {
                    ||| resolution is ReadingSearchPath && answer is SearchPath
                        && answer->SearchPath_0 is Some && answer->SearchPath_0->0@ == dirs
                    ||| resolution is Searching && answer is Inspected
                        && !(answer->Inspected_0 is File) && resolution->dirs.skip(1) == dirs
                }
            },
            ResolutionView::Resolved { result: Ok(path) } => {
                &&& answer == HostAnswer::Inspected(FileStatus::File)
                &&& {
                    ||| resolution == (ResolutionView::Checking { path })
                    ||| resolution is Searching && resolution->candidate == path
                }
            },
            ResolutionView::Resolved { result: Err(SetupErrorView::Unusable { path, reason }) } => {
                &&& resolution == (ResolutionView::Checking { path })
                &&& answer is Inspected
                &&& match answer->Inspected_0 {
                    FileStatus::File => false,
                    FileStatus::NotAFile => reason == "not a file"@,
                    FileStatus::Unreadable(why) => reason == why@,
                }
            },
            ResolutionView::Resolved { result: Err(SetupErrorView::NotFound) } => {
                ||| resolution is ReadingSearchPath && answer is SearchPath && (
                answer->SearchPath_0 is None || answer->SearchPath_0->0@.len() == 0)
                ||| resolution is Searching && resolution->dirs.len() == 1 && answer is Inspected
                    && !(answer->Inspected_0 is File)
            },
        },
{
    if resolution is Searching {
        assert(resolution->dirs.skip(1) =~= resolution->dirs.drop_first());
    }
}

/// The answer to what a resolution asks is never ignored: it moves on. It begins with the
/// configured path, or with the environment where none is configured.
pub proof fn law_an_answer_moves_the_resolution_on(
    resolution: ResolutionView,
    answer: HostAnswer,
    next: ResolutionView,
    path: PathBuf,
)
    requires
        setup::is_answered(resolution, answer, next),
        resolution is Searching ==> resolution->dirs.len() > 0,
    ensures
        resolution is Checking && answer is Inspected ==> next != resolution,
        resolution is ReadingEnvVar && answer is EnvVar ==> next != resolution,
        resolution is ReadingSearchPath && answer is SearchPath ==> next != resolution,
        resolution is Searching && answer is Inspected ==> next != resolution,
        setup::begun(WorkerBinary::Path(path)) == (ResolutionView::Checking { path }),
        setup::begun(WorkerBinary::Discover) is ReadingEnvVar,
{
    if resolution is Searching {
        assert(resolution->dirs.drop_first().len() < resolution->dirs.len());
    }
}

/// A configured path is usable exactly when it is a file; otherwise it is named, with why it is
/// not usable.
pub proof fn law_a_path_is_usable_when_it_is_a_file(path: PathBuf, status: FileStatus)
    ensures
        setup::checked(path, status) == match status {
            FileStatus::File => Ok::<_, SetupErrorView>(path),
            FileStatus::NotAFile => Err(
                SetupErrorView::Unusable { path, reason: "not a file"@ },
            ),
            FileStatus::Unreadable(why) => Err(SetupErrorView::Unusable { path, reason: why@ }),
        },
{
}

/// What a resolution and its result are said to be is what they are.
pub proof fn law_nothing_of_a_result_is_hidden(
    path: PathBuf,
    reason: String,
    dirs: Vec<PathBuf>,
    next: usize,
    result: Result<PathBuf, SetupError>,
)
    ensures
        setup::result_view(Ok(path)) == Ok::<_, SetupErrorView>(path),
        setup::result_view(Err(SetupError::NotFound)) == Err::<PathBuf, _>(
            SetupErrorView::NotFound,
        ),
        setup::result_view(Err(SetupError::Unusable { path, reason })) == Err::<PathBuf, _>(
            SetupErrorView::Unusable { path, reason: reason@ },
        ),
        SetupError::NotFound@ is NotFound,
        (SetupError::Unusable { path, reason })@ == (SetupErrorView::Unusable {
            path,
            reason: reason@,
        }),
        (Resolution::Checking { path })@ == (ResolutionView::Checking { path }),
        Resolution::ReadingEnvVar@ is ReadingEnvVar,
        Resolution::ReadingSearchPath@ is ReadingSearchPath,
        (Resolution::Searching { dirs, next, candidate: path })@ == (ResolutionView::Searching {
            dirs: dirs@.skip(next as int),
            candidate: path,
        }),
        (Resolution::Resolved { result })@ == (ResolutionView::Resolved {
            result: setup::result_view(result),
        }),
{
}

/// Every message is the advice word for word: the one for a missing binary has the three fixes
/// and the warning, the one for an unusable binary its path, shown as it is where it is Unicode,
/// the reason, and the install command.
pub proof fn law_messages_word_for_word(error: SetupErrorView, message: Seq<char>)
    requires
        setup::is_message_of(error, message),
    ensures
        error is NotFound ==> message
            == "the monty worker binary was not found.\n\nPython for the CodeAct runtime runs in a `monty` worker subprocess, so the binary has to be available. Any one of these fixes it:\n\n1. Install it (note `--locked`, which is required):\n       "@
            + "cargo install monty-runtime --version 0.0.19 --locked"@
            + "\n2. Point at an existing binary:\n       export "@ + "ADK_MONTY_BINARY"@
            + "=/path/to/monty\n3. Configure it in code:\n       MontyRuntime::builder().worker_binary(\"/path/to/monty\")\n\nOmitting `--locked` in step 1 fails inside a dependency (`CompactString: GetSize`) for reasons unrelated to your project."@,
        error matches SetupErrorView::Unusable { path, reason } ==> {
            let bytes = setup::path_bytes(path);
            let shown = vstd::utf8::decode_utf8(bytes);
            let rest = " is not usable: "@ + reason + ".\nInstall a working one with:\n       "@
                + "cargo install monty-runtime --version 0.0.19 --locked"@;
            &&& vstd::utf8::valid_utf8(bytes) ==> message == "the monty worker binary at "@ + shown
                + rest
            &&& "the monty worker binary at "@.is_prefix_of(message)
            &&& rest.is_suffix_of(message)
            &&& message.len() >= "the monty worker binary at "@.len() + rest.len()
        },
{
    match error {
        SetupErrorView::NotFound => {},
        SetupErrorView::Unusable { path, reason } => {
            let shown = choose|shown: Seq<char>| #[trigger]
                setup::is_shown(path, shown) && message == setup::unusable_text(shown, reason);
            let at = "the monty worker binary at "@;
            let rest = " is not usable: "@ + reason + ".\nInstall a working one with:\n       "@
                + "cargo install monty-runtime --version 0.0.19 --locked"@;
            assert(message =~= at + shown + rest);
            assert(message.take(at.len() as int) =~= at);
            assert(message.skip(message.len() - rest.len()) =~= rest);
        },
    }
}

/// The advice for an unusable binary is made of the path and the reason as they are given.
pub proof fn law_the_advice_shows_path_and_reason(shown: Seq<char>, reason: Seq<char>)
    ensures
        setup::unusable_text(shown, reason) == "the monty worker binary at "@ + shown
            + " is not usable: "@ + reason + ".\nInstall a working one with:\n       "@
            + "cargo install monty-runtime --version 0.0.19 --locked"@,
{
}

} // verus!
