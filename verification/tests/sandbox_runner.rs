use adk_runtime::sandbox_runner::{
    Answer, Phase, Request, Runner, SandboxConfig, SandboxRun, SandboxRunError,
    SandboxRunResult, SandboxRunner, SessionHandle, SnapshotId,
};
use std::time::Duration;

type Run = SandboxRun<&'static str, &'static str, &'static str, &'static str, &'static str>;
type Step = Answer<&'static str, &'static str>;

fn config(snapshot_on_stop: bool) -> SandboxConfig<&'static str, &'static str> {
    SandboxConfig {
        manifest: "manifest",
        capabilities: "shell+filesystem",
        command_timeout: Duration::from_secs(5),
        session_timeout: Duration::from_secs(30),
        snapshot_on_stop,
    }
}

fn begin(snapshot_on_stop: bool) -> Run {
    let runner = SandboxRunner::new(Runner {
        app_name: "sandbox-runner-test".to_string(),
        runtime_toolsets: vec!["own tools"],
        executor: "executor",
    });
    assert_eq!(runner.inner().executor, "executor");
    assert_eq!(runner.inner().app_name, "sandbox-runner-test");
    runner.run(config(snapshot_on_stop), "user-1", "session-1", "do the thing")
}

fn handle() -> SessionHandle {
    SessionHandle("fake-handle".to_string())
}

fn snapshot() -> SnapshotId {
    SnapshotId("fake-snapshot".to_string())
}

fn asked(run: &Run) -> String {
    match run.request() {
        Request::Provision { manifest } => format!("provision {manifest}"),
        Request::Start { handle } => format!("start {}", handle.0),
        Request::BindTools { capabilities, command_timeout } => {
            format!("bind {capabilities} {command_timeout:?}")
        }
        Request::GetSession { app_name, user_id, session_id } => {
            format!("get {app_name} {user_id} {session_id}")
        }
        Request::CreateSession { app_name, user_id, session_id } => {
            format!("create {app_name} {user_id} {session_id}")
        }
        Request::CheckUserId { user_id } => format!("check {user_id}"),
        Request::CheckSessionId { session_id } => format!("check {session_id}"),
        Request::StartAgent { user_id, session_id, user_content, runtime_toolsets } => {
            format!("agent {user_id} {session_id} {user_content} {runtime_toolsets:?}")
        }
        Request::NextEvent => "next".to_string(),
        Request::Stop { handle } => format!("stop {}", handle.0),
        Request::Snapshot { handle } => format!("snapshot {}", handle.0),
        Request::Done { result } => format!("done {result:?}"),
    }
}

/// Feeds the answers to a run; returns what was asked, and the result.
fn drive(
    mut run: Run,
    answers: Vec<Step>,
) -> (Vec<String>, Result<SandboxRunResult, SandboxRunError<&'static str>>) {
    let mut requests = Vec::new();
    for answer in answers {
        requests.push(asked(&run));
        run = run.advance(answer);
    }
    match run.phase {
        Phase::Finished { result } => (requests, result),
        other => panic!("the run is not over: {other:?}"),
    }
}

fn up_to_agent() -> Vec<Step> {
    vec![
        Answer::Provisioned(Ok(handle())),
        Answer::Started(Ok(())),
        Answer::ToolsBound("sandbox tools"),
        Answer::SessionLookedUp { found: true },
        Answer::UserIdChecked(Ok(())),
        Answer::SessionIdChecked(Ok(())),
    ]
}

fn with(mut answers: Vec<Step>, more: Vec<Step>) -> Vec<Step> {
    answers.extend(more);
    answers
}

fn stops(requests: &[String]) -> usize {
    requests.iter().filter(|request| request.starts_with("stop")).count()
}

#[test]
fn run_invokes_the_inner_agent() {
    let (requests, result) = drive(
        begin(false),
        vec![
            Answer::Provisioned(Ok(handle())),
            Answer::Started(Ok(())),
            Answer::ToolsBound("sandbox tools"),
            Answer::SessionLookedUp { found: false },
            Answer::SessionCreated(Ok(())),
            Answer::UserIdChecked(Ok(())),
            Answer::SessionIdChecked(Ok(())),
            Answer::AgentStarted(Ok(())),
            Answer::AgentEvent(None),
            Answer::Stopped(Ok(())),
        ],
    );
    assert_eq!(result.expect("the sandbox run succeeds"), SandboxRunResult { snapshot_id: None });
    assert_eq!(
        requests,
        vec![
            "provision manifest",
            "start fake-handle",
            "bind shell+filesystem 5s",
            "get sandbox-runner-test user-1 session-1",
            "create sandbox-runner-test user-1 session-1",
            "check user-1",
            "check session-1",
            "agent user-1 session-1 do the thing [\"own tools\", \"sandbox tools\"]",
            "next",
            "stop fake-handle",
        ]
    );
    let runs = requests.iter().filter(|request| request.starts_with("agent")).count();
    assert_eq!(runs, 1, "the agent must actually be invoked");
    assert_eq!(stops(&requests), 1, "the session must be stopped exactly once");
}

#[test]
fn a_failed_provision_ends_the_run_with_nothing_to_stop() {
    let (requests, result) = drive(begin(true), vec![Answer::Provisioned(Err("no room"))]);
    assert_eq!(result, Err(SandboxRunError::Failed("no room")));
    assert_eq!(requests, vec!["provision manifest"]);
}

#[test]
fn a_failed_start_is_cleaned_up_and_reported() {
    let (requests, result) = drive(
        begin(true),
        vec![
            Answer::Provisioned(Ok(handle())),
            Answer::Started(Err("no boot")),
            Answer::Stopped(Err("still no boot")),
        ],
    );
    assert_eq!(result, Err(SandboxRunError::Failed("no boot")));
    assert_eq!(requests, vec!["provision manifest", "start fake-handle", "stop fake-handle"]);
}

#[test]
fn an_existing_session_is_not_created_again() {
    let answers = with(
        up_to_agent(),
        vec![
            Answer::AgentStarted(Ok(())),
            Answer::AgentEvent(Some(Ok(()))),
            Answer::AgentEvent(Some(Ok(()))),
            Answer::AgentEvent(None),
            Answer::Stopped(Ok(())),
        ],
    );
    let (requests, result) = drive(begin(false), answers);
    assert!(result.is_ok());
    assert!(!requests.iter().any(|request| request.starts_with("create")));
    assert_eq!(requests.iter().filter(|request| *request == "next").count(), 3);
}

#[test]
fn every_failure_of_the_agent_loop_is_reported_after_the_stop() {
    let create = vec![
        Answer::Provisioned(Ok(handle())),
        Answer::Started(Ok(())),
        Answer::ToolsBound("sandbox tools"),
        Answer::SessionLookedUp { found: false },
        Answer::SessionCreated(Err("broken")),
    ];
    let mut user = up_to_agent();
    user.truncate(4);
    user.push(Answer::UserIdChecked(Err("broken")));
    let mut session = up_to_agent();
    session.truncate(5);
    session.push(Answer::SessionIdChecked(Err("broken")));
    let agent = with(up_to_agent(), vec![Answer::AgentStarted(Err("broken"))]);
    let event = with(
        up_to_agent(),
        vec![
            Answer::AgentStarted(Ok(())),
            Answer::AgentEvent(Some(Ok(()))),
            Answer::AgentEvent(Some(Err("broken"))),
        ],
    );
    for answers in [create, user, session, agent, event] {
        let (requests, result) = drive(begin(true), with(answers, vec![Answer::Stopped(Ok(()))]));
        assert_eq!(result, Err(SandboxRunError::Failed("broken")));
        assert_eq!(stops(&requests), 1);
        assert_eq!(requests.last().unwrap(), "stop fake-handle");
    }
}

#[test]
fn a_timeout_is_reported_after_the_stop() {
    for kept in 3..=6 {
        let mut answers = up_to_agent();
        answers.truncate(kept);
        let answers = with(answers, vec![Answer::TimedOut, Answer::Stopped(Ok(()))]);
        let (requests, result) = drive(begin(true), answers);
        assert_eq!(
            result,
            Err(SandboxRunError::SessionTimeout { timeout: Duration::from_secs(30) })
        );
        assert_eq!(stops(&requests), 1);
    }
    let draining = vec![
        Answer::AgentStarted(Ok(())),
        Answer::AgentEvent(Some(Ok(()))),
        Answer::TimedOut,
        Answer::Stopped(Err("gone")),
    ];
    let (_, result) = drive(begin(true), with(up_to_agent(), draining));
    assert_eq!(result, Err(SandboxRunError::SessionTimeout { timeout: Duration::from_secs(30) }));
}

#[test]
fn a_snapshot_is_taken_when_asked_for() {
    let done = vec![Answer::AgentStarted(Ok(())), Answer::AgentEvent(None)];
    let taken = with(
        with(up_to_agent(), done),
        vec![Answer::Stopped(Err("ignored")), Answer::Snapshotted(Ok(snapshot()))],
    );
    let (requests, result) = drive(begin(true), taken);
    assert_eq!(result, Ok(SandboxRunResult { snapshot_id: Some(snapshot()) }));
    assert_eq!(requests.last().unwrap(), "snapshot fake-handle");
}

#[test]
fn a_failed_snapshot_costs_only_the_snapshot() {
    let rest = vec![
        Answer::AgentStarted(Ok(())),
        Answer::AgentEvent(None),
        Answer::Stopped(Ok(())),
        Answer::Snapshotted(Err("disk full")),
    ];
    let (_, result) = drive(begin(true), with(up_to_agent(), rest));
    assert_eq!(result, Ok(SandboxRunResult { snapshot_id: None }));
}

#[test]
fn an_answer_that_is_not_awaited_changes_nothing() {
    let run = begin(false).advance(Answer::Stopped(Ok(()))).advance(Answer::TimedOut);
    assert_eq!(run.phase, Phase::Provisioning);
    let run = run.advance(Answer::Provisioned(Ok(handle()))).advance(Answer::ToolsBound("early"));
    assert_eq!(run.phase, Phase::Starting { handle: handle() });
    assert_eq!(run.runtime_toolsets, vec!["own tools"]);
    let run = run.advance(Answer::Started(Err("no"))).advance(Answer::Stopped(Ok(())));
    let over = Phase::Finished { result: Err(SandboxRunError::Failed("no")) };
    assert_eq!(run.phase, over);
    assert_eq!(run.advance(Answer::Provisioned(Ok(handle()))).phase, over);
}
