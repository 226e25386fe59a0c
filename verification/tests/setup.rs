use adk_runtime::setup::{
    check, find_on_path, probe, unusable_message, FileStatus, HostAnswer, HostRequest, Resolution,
    SetupError, WorkerBinary, BINARY_ENV_VAR, BINARY_NAME, INSTALL_COMMAND, MONTY_VERSION,
};
use std::path::PathBuf;

/// A host with these files, this environment variable and these directories on `PATH`.
struct FakeHost {
    env_var: Option<PathBuf>,
    search_path: Option<Vec<PathBuf>>,
    files: Vec<PathBuf>,
    dirs: Vec<PathBuf>,
}

impl FakeHost {
    fn status(&self, path: &PathBuf) -> FileStatus {
        if self.files.contains(path) {
            FileStatus::File
        } else if self.dirs.contains(path) {
            FileStatus::NotAFile
        } else {
            FileStatus::Unreadable("No such file or directory (os error 2)".to_string())
        }
    }

    /// Runs a resolution to its end; returns its result and how often the host was asked.
    fn resolve(&self, mut resolution: Resolution) -> (Result<PathBuf, SetupError>, usize) {
        let mut asked = 0;
        loop {
            let answer = match resolution.request() {
                HostRequest::Inspect { path } => HostAnswer::Inspected(self.status(path)),
                HostRequest::ReadEnvVar { name } => {
                    assert_eq!(name, "ADK_MONTY_BINARY");
                    HostAnswer::EnvVar(self.env_var.clone())
                }
                HostRequest::ReadSearchPath => HostAnswer::SearchPath(self.search_path.clone()),
                HostRequest::Done { .. } => break,
            };
            asked += 1;
            resolution = resolution.advance(answer);
        }
        match resolution {
            Resolution::Resolved { result } => (result, asked),
            other => panic!("a finished resolution has a result, got {other:?}"),
        }
    }
}

fn bare_host() -> FakeHost {
    FakeHost { env_var: None, search_path: None, files: vec![], dirs: vec![PathBuf::from("/tmp")] }
}

#[test]
fn an_explicit_path_is_used_as_given() {
    let file = PathBuf::from("/opt/tests/setup-binary");
    let host = FakeHost { files: vec![file.clone()], ..bare_host() };
    let (resolved, asked) = host.resolve(WorkerBinary::Path(file.clone()).resolve());
    assert_eq!(resolved.expect("a real file resolves"), file);
    assert_eq!(asked, 1);
}

#[test]
fn a_configured_path_that_is_wrong_is_reported_not_ignored() {
    // Falling through to discovery here would hide the caller's mistake and
    // could silently run a different binary than the one they named.
    let host = FakeHost {
        env_var: Some(PathBuf::from("/good/monty")),
        search_path: Some(vec![PathBuf::from("/good")]),
        files: vec![PathBuf::from("/good/monty")],
        ..bare_host()
    };
    let (result, asked) =
        host.resolve(WorkerBinary::Path(PathBuf::from("/nonexistent/monty")).resolve());
    let err = result.expect_err("a missing configured path must fail");
    match err {
        SetupError::Unusable { path, reason } => {
            assert_eq!(path, PathBuf::from("/nonexistent/monty"));
            assert_eq!(reason, "No such file or directory (os error 2)");
        }
        other => panic!("expected Unusable, got {other:?}"),
    }
    assert_eq!(asked, 1);
    // A directory is not a worker either.
    let dir = PathBuf::from("/tmp");
    assert!(matches!(
        host.resolve(WorkerBinary::Path(dir).resolve()).0,
        Err(SetupError::Unusable { reason, .. }) if reason == "not a file"
    ));
}

#[test]
fn the_not_found_message_carries_every_fix_including_locked() {
    // This string is the one most users will ever read from this crate, and
    // `--locked` is what keeps them out of an upstream compile failure.
    let message = SetupError::NotFound.to_string();
    assert!(message.contains("--locked"), "{message}");
    assert!(message.contains("cargo install monty-runtime"), "{message}");
    assert!(message.contains(BINARY_ENV_VAR), "{message}");
    assert!(message.contains("worker_binary"), "{message}");
    assert!(message.contains("CompactString: GetSize"), "{message}");
}

#[test]
fn a_real_worker_binary_resolves_when_one_is_installed() {
    // Checked against an actual `cargo install monty-runtime --locked`
    // artifact when present; skipped (not failed) otherwise, so a
    // contributor without the worker still gets an honest green run.
    let installed = PathBuf::from("target/monty-tools/bin/monty");
    if !installed.is_file() {
        println!(
            "skipped: no worker binary at {} - install it with `{INSTALL_COMMAND}`",
            installed.display()
        );
        return;
    }
    let host = FakeHost { files: vec![installed.clone()], ..bare_host() };
    let (resolved, _) = host.resolve(WorkerBinary::Path(installed).resolve());
    assert!(resolved.expect("an installed worker resolves").is_file());
}

#[test]
fn discovery_is_the_default() {
    assert_eq!(WorkerBinary::default(), WorkerBinary::Discover);
}

#[test]
fn the_messages_read_exactly_like_this() {
    assert_eq!(
        SetupError::NotFound.to_string(),
        "the monty worker binary was not found.\n\
         \n\
         Python for the CodeAct runtime runs in a `monty` worker subprocess, so the \
         binary has to be available. Any one of these fixes it:\n\
         \n\
         1. Install it (note `--locked`, which is required):\n\
         \x20      cargo install monty-runtime --version 0.0.19 --locked\n\
         2. Point at an existing binary:\n\
         \x20      export ADK_MONTY_BINARY=/path/to/monty\n\
         3. Configure it in code:\n\
         \x20      MontyRuntime::builder().worker_binary(\"/path/to/monty\")\n\
         \n\
         Omitting `--locked` in step 1 fails inside a dependency \
         (`CompactString: GetSize`) for reasons unrelated to your project."
    );
    let unusable = SetupError::Unusable {
        path: PathBuf::from("/opt/möhre/monty"),
        reason: "not a file".to_string(),
    };
    assert_eq!(
        unusable.to_string(),
        "the monty worker binary at /opt/möhre/monty is not usable: not a file.\n\
         Install a working one with:\n\
         \x20      cargo install monty-runtime --version 0.0.19 --locked"
    );
    assert_eq!(unusable.to_string(), unusable_message("/opt/möhre/monty", "not a file"));
}

#[test]
fn the_install_command_is_pinned_and_locked() {
    let expected = format!("cargo install monty-runtime --version {MONTY_VERSION} --locked");
    assert_eq!(INSTALL_COMMAND, expected);
    assert_eq!(BINARY_NAME, "monty");
}

#[test]
fn the_environment_comes_before_the_search_path() {
    let host = FakeHost {
        env_var: Some(PathBuf::from("/env/monty")),
        search_path: Some(vec![PathBuf::from("/bin")]),
        files: vec![PathBuf::from("/env/monty"), PathBuf::from("/bin/monty")],
        ..bare_host()
    };
    let (resolved, asked) = host.resolve(probe(&WorkerBinary::default()));
    assert_eq!(resolved.unwrap(), PathBuf::from("/env/monty"));
    assert_eq!(asked, 2);
}

#[test]
fn a_wrong_path_in_the_environment_is_reported() {
    let host = FakeHost {
        env_var: Some(PathBuf::from("/tmp")),
        search_path: Some(vec![PathBuf::from("/bin")]),
        files: vec![PathBuf::from("/bin/monty")],
        ..bare_host()
    };
    let (resolved, _) = host.resolve(WorkerBinary::Discover.resolve());
    assert!(matches!(
        resolved,
        Err(SetupError::Unusable { path, reason })
            if path == PathBuf::from("/tmp") && reason == "not a file"
    ));
}

#[test]
fn an_empty_variable_counts_as_unset() {
    let host = FakeHost {
        env_var: Some(PathBuf::new()),
        search_path: Some(vec![PathBuf::from("/usr/bin"), PathBuf::from("/bin")]),
        files: vec![PathBuf::from("/bin/monty")],
        ..bare_host()
    };
    let (resolved, asked) = host.resolve(WorkerBinary::Discover.resolve());
    assert_eq!(resolved.unwrap(), PathBuf::from("/bin/monty"));
    assert_eq!(asked, 4);
}

#[test]
fn the_first_directory_wins() {
    let host = FakeHost {
        search_path: Some(vec![
            PathBuf::from("/none"),
            PathBuf::from("/first"),
            PathBuf::from("/second"),
        ]),
        files: vec![PathBuf::from("/second/monty"), PathBuf::from("/first/monty")],
        ..bare_host()
    };
    let (resolved, asked) = host.resolve(WorkerBinary::Discover.resolve());
    assert_eq!(resolved.unwrap(), PathBuf::from("/first/monty"));
    assert_eq!(asked, 4, "the directory after the first hit is not looked in");
}

#[test]
fn a_directory_is_searched_at_the_path_of_the_binary() {
    let dirs = vec![PathBuf::from("/usr/bin"), PathBuf::from("tools/")];
    let resolution = find_on_path(dirs, 0);
    assert!(matches!(
        resolution.request(),
        HostRequest::Inspect { path } if *path == PathBuf::from("/usr/bin/monty")
    ));
    let resolution = resolution.advance(HostAnswer::Inspected(FileStatus::NotAFile));
    assert!(matches!(
        resolution.request(),
        HostRequest::Inspect { path } if *path == PathBuf::from("tools/monty")
    ));
    let resolution = resolution.advance(HostAnswer::Inspected(FileStatus::File));
    assert!(matches!(
        resolution,
        Resolution::Resolved { result: Ok(path) } if path == PathBuf::from("tools/monty")
    ));
}

#[test]
fn the_binary_is_one_separator_away() {
    let separator = std::path::MAIN_SEPARATOR;
    for (dir, expected) in [
        ("/usr/bin".to_string(), format!("/usr/bin{separator}monty")),
        (format!("tools{separator}"), format!("tools{separator}monty")),
        (format!("{separator}"), format!("{separator}monty")),
        (String::new(), "monty".to_string()),
        (".".to_string(), format!(".{separator}monty")),
    ] {
        let resolution = find_on_path(vec![PathBuf::from(dir)], 0);
        match resolution.request() {
            HostRequest::Inspect { path } => {
                assert_eq!(path.to_str(), Some(expected.as_str()));
            }
            other => panic!("expected a path to inspect, got {other:?}"),
        }
    }
}

#[test]
fn other_names_and_deeper_files_are_not_found() {
    let host = FakeHost {
        search_path: Some(vec![PathBuf::from("/bin"), PathBuf::from("/opt")]),
        files: vec![
            PathBuf::from("/bin/xmonty"),
            PathBuf::from("/bin/monty2"),
            PathBuf::from("/opt/tools/monty"),
        ],
        dirs: vec![PathBuf::from("/opt/monty")],
        ..bare_host()
    };
    let (resolved, asked) = host.resolve(WorkerBinary::Discover.resolve());
    assert!(matches!(resolved, Err(SetupError::NotFound)));
    assert_eq!(asked, 4);
}

#[test]
fn nothing_anywhere_is_not_found() {
    let (resolved, asked) = bare_host().resolve(WorkerBinary::Discover.resolve());
    assert!(matches!(resolved, Err(SetupError::NotFound)));
    assert_eq!(asked, 2);
    let host = FakeHost { search_path: Some(vec![]), ..bare_host() };
    assert!(matches!(host.resolve(WorkerBinary::Discover.resolve()).0, Err(SetupError::NotFound)));
    let host = FakeHost { search_path: Some(vec![PathBuf::from("/bin")]), ..bare_host() };
    let (resolved, asked) = host.resolve(WorkerBinary::Discover.resolve());
    assert!(matches!(resolved, Err(SetupError::NotFound)));
    assert_eq!(asked, 3);
    assert!(matches!(
        find_on_path(vec![], 0),
        Resolution::Resolved { result: Err(SetupError::NotFound) }
    ));
}

#[test]
fn an_answer_to_something_else_changes_nothing() {
    let resolution = WorkerBinary::Discover.resolve();
    let resolution = resolution.advance(HostAnswer::Inspected(FileStatus::File));
    assert!(matches!(resolution, Resolution::ReadingEnvVar));
    let resolution = WorkerBinary::Path(PathBuf::from("/a")).resolve();
    let resolution = resolution.advance(HostAnswer::EnvVar(None));
    assert!(matches!(resolution, Resolution::Checking { path } if path == PathBuf::from("/a")));
}

#[test]
fn a_checked_path_keeps_its_reason() {
    let path = PathBuf::from("/a");
    assert_eq!(check(&path, FileStatus::File).unwrap(), path);
    assert!(matches!(
        check(&path, FileStatus::Unreadable("permission denied".to_string())),
        Err(SetupError::Unusable { path, reason })
            if path == PathBuf::from("/a") && reason == "permission denied"
    ));
}

#[test]
fn a_choice_can_be_copied() {
    let chosen = WorkerBinary::Path(PathBuf::from("/a/b"));
    assert_eq!(chosen.clone(), chosen);
    assert_ne!(chosen, WorkerBinary::Discover.clone());
}
