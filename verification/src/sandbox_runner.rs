//! Sandbox runner lifecycle management.
//!
//! [`SandboxRunner`] wraps a runner and manages the full sandbox lifecycle:
//! provision, start, bind tools, run, stop, snapshot. The lifecycle is a state machine,
//! [`SandboxRun`]: it says what is to be done next, is told how that went, and guarantees
//! cleanup (stop) even on failure.
pub mod laws;

use std::time::Duration;
use vstd::prelude::*;
use vstd::string::*;

verus! {

/// A provisioned sandbox session, as its client names it.
#[derive(Debug, PartialEq, Eq)]
pub struct SessionHandle(pub String);

/// A workspace snapshot, as its client names it.
#[derive(Debug, PartialEq, Eq)]
pub struct SnapshotId(pub String);

/// What a sandbox is made from, and how long it may live.
#[derive(Debug)]
pub struct SandboxConfig<M, C> {
    /// What the workspace is provisioned from.
    pub manifest: M,
    /// The capabilities that decide which tools are bound.
    pub capabilities: C,
    /// How long one command of a bound tool may take.
    pub command_timeout: Duration,
    /// How long the agent loop may take.
    pub session_timeout: Duration,
    /// Whether the workspace is snapshotted once the agent is done.
    pub snapshot_on_stop: bool,
}

/// Why a sandbox-managed run failed.
#[derive(Debug, PartialEq, Eq)]
pub enum SandboxRunError<E> {
    /// A step failed with this error.
    Failed(E),
    /// The agent loop did not end within the session timeout.
    SessionTimeout {
        /// The timeout that elapsed.
        timeout: Duration,
    },
}

/// Result of a sandbox-managed agent run.
#[derive(Debug, PartialEq, Eq)]
pub struct SandboxRunResult {
    /// The snapshot ID if snapshot-on-stop was enabled.
    pub snapshot_id: Option<SnapshotId>,
}

/// How far a run has come.
#[derive(Debug, PartialEq, Eq)]
pub enum Phase<E> {
    /// The workspace is being provisioned.
    Provisioning,
    /// The session is being started.
    Starting { handle: SessionHandle },
    /// The session's tools are being bound.
    BindingTools { handle: SessionHandle },
    /// The agent loop has begun: the conversation session is being looked up.
    LookingUpSession { handle: SessionHandle },
    /// There is no conversation session yet: it is being created.
    CreatingSession { handle: SessionHandle },
    /// The user ID is being checked.
    CheckingUserId { handle: SessionHandle },
    /// The session ID is being checked.
    CheckingSessionId { handle: SessionHandle },
    /// The agent is being invoked.
    StartingAgent { handle: SessionHandle },
    /// The agent runs: its events are drained one by one.
    Draining { handle: SessionHandle },
    /// The session is being stopped, whatever became of the run.
    Stopping { handle: SessionHandle, outcome: Result<(), SandboxRunError<E>> },
    /// The workspace is being snapshotted.
    Snapshotting { handle: SessionHandle },
    /// The run is over.
    Finished { result: Result<SandboxRunResult, SandboxRunError<E>> },
}

/// How a requested step went.
#[derive(Debug)]
pub enum Answer<T, E> {
    /// The workspace was provisioned, or not.
    Provisioned(Result<SessionHandle, E>),
    /// The session was started, or not.
    Started(Result<(), E>),
    /// The tools bound to the live session.
    ToolsBound(T),
    /// Whether the conversation session could be got.
    SessionLookedUp { found: bool },
    /// The conversation session was created, or not.
    SessionCreated(Result<(), E>),
    /// The user ID is well formed, or not.
    UserIdChecked(Result<(), E>),
    /// The session ID is well formed, or not.
    SessionIdChecked(Result<(), E>),
    /// The agent was invoked, or not.
    AgentStarted(Result<(), E>),
    /// The next event of the agent, or the end of its stream.
    AgentEvent(Option<Result<(), E>>),
    /// The session timeout elapsed before the step was done.
    TimedOut,
    /// The session was stopped, or not.
    Stopped(Result<(), E>),
    /// The workspace was snapshotted, or not.
    Snapshotted(Result<SnapshotId, E>),
}

/// What is to be done next.
#[derive(Debug)]
pub enum Request<'a, M, C, U, T, E> {
    /// Provision a workspace from the manifest.
    Provision { manifest: &'a M },
    /// Start the provisioned session.
    Start { handle: &'a SessionHandle },
    /// Bind the tools that the capabilities enable.
    BindTools { capabilities: &'a C, command_timeout: Duration },
    /// Get the conversation session, under the session timeout.
    GetSession { app_name: &'a String, user_id: &'a String, session_id: &'a String },
    /// Create the conversation session with an empty state, under the session timeout.
    CreateSession { app_name: &'a String, user_id: &'a String, session_id: &'a String },
    /// Check that the user ID is well formed.
    CheckUserId { user_id: &'a String },
    /// Check that the session ID is well formed.
    CheckSessionId { session_id: &'a String },
    /// Invoke the agent with these toolsets, under the session timeout.
    StartAgent {
        user_id: &'a String,
        session_id: &'a String,
        user_content: &'a U,
        runtime_toolsets: &'a Vec<T>,
    },
    /// Wait for the agent's next event, under the session timeout.
    NextEvent,
    /// Stop the session.
    Stop { handle: &'a SessionHandle },
    /// Snapshot the workspace.
    Snapshot { handle: &'a SessionHandle },
    /// Nothing: the run is over, with this result.
    Done { result: &'a Result<SandboxRunResult, SandboxRunError<E>> },
}

/// The phase is part of the agent loop, which the session timeout bounds.
pub open spec fn in_agent_loop<E>(phase: Phase<E>) -> bool {
    ||| phase is LookingUpSession
    ||| phase is CreatingSession
    ||| phase is CheckingUserId
    ||| phase is CheckingSessionId
    ||| phase is StartingAgent
    ||| phase is Draining
}

/// The session that a phase works on.
pub open spec fn handle_of<E>(phase: Phase<E>) -> Option<SessionHandle> {
    match phase {
        Phase::Provisioning => None,
        Phase::Starting { handle } => Some(handle),
        Phase::BindingTools { handle } => Some(handle),
        Phase::LookingUpSession { handle } => Some(handle),
        Phase::CreatingSession { handle } => Some(handle),
        Phase::CheckingUserId { handle } => Some(handle),
        Phase::CheckingSessionId { handle } => Some(handle),
        Phase::StartingAgent { handle } => Some(handle),
        Phase::Draining { handle } => Some(handle),
        Phase::Stopping { handle, .. } => Some(handle),
        Phase::Snapshotting { handle } => Some(handle),
        Phase::Finished { .. } => None,
    }
}

/// The answer is one that the phase waits for.
pub open spec fn is_awaited<T, E>(phase: Phase<E>, answer: Answer<T, E>) -> bool {
    match answer {
        Answer::Provisioned(_) => phase is Provisioning,
        Answer::Started(_) => phase is Starting,
        Answer::ToolsBound(_) => phase is BindingTools,
        Answer::SessionLookedUp { .. } => phase is LookingUpSession,
        Answer::SessionCreated(_) => phase is CreatingSession,
        Answer::UserIdChecked(_) => phase is CheckingUserId,
        Answer::SessionIdChecked(_) => phase is CheckingSessionId,
        Answer::AgentStarted(_) => phase is StartingAgent,
        Answer::AgentEvent(_) => phase is Draining,
        Answer::TimedOut => in_agent_loop(phase),
        Answer::Stopped(_) => phase is Stopping,
        Answer::Snapshotted(_) => phase is Snapshotting,
    }
}

/// The error of a step that failed.
pub open spec fn failure_of<T, E>(answer: Answer<T, E>) -> Option<E> {
    match answer {
        Answer::Provisioned(Err(error)) => Some(error),
        Answer::Started(Err(error)) => Some(error),
        Answer::SessionCreated(Err(error)) => Some(error),
        Answer::UserIdChecked(Err(error)) => Some(error),
        Answer::SessionIdChecked(Err(error)) => Some(error),
        Answer::AgentStarted(Err(error)) => Some(error),
        Answer::AgentEvent(Some(Err(error))) => Some(error),
        Answer::Stopped(Err(error)) => Some(error),
        Answer::Snapshotted(Err(error)) => Some(error),
        _ => None,
    }
}

/// The session is stopped because the run failed.
pub open spec fn stopping_after<E>(phase: Phase<E>, error: SandboxRunError<E>) -> Phase<E> {
    Phase::Stopping { handle: handle_of(phase)->0, outcome: Err(error) }
}

/// The run is over without a snapshot.
pub open spec fn finished_without_snapshot<E>() -> Phase<E> {
    Phase::Finished { result: Ok(SandboxRunResult { snapshot_id: None }) }
}

/// The phase after the stop: a failed run is over, another one may be snapshotted.
pub open spec fn after_stop<E>(
    snapshot_on_stop: bool,
    handle: SessionHandle,
    outcome: Result<(), SandboxRunError<E>>,
) -> Phase<E> {
    match outcome {
        Err(error) => Phase::Finished { result: Err(error) },
        Ok(_) => if snapshot_on_stop {
            Phase::Snapshotting { handle }
        } else {
            finished_without_snapshot()
        },
    }
}

/// The phase after a step that failed: a failure before there is a session ends the run, one
/// of a snapshot leaves the run without it, one of the stop is passed over, and any other is
/// reported once the session is stopped.
pub open spec fn after_failure<E>(snapshot_on_stop: bool, phase: Phase<E>, error: E) -> Phase<E> {
    match phase {
        Phase::Provisioning => Phase::Finished { result: Err(SandboxRunError::Failed(error)) },
        Phase::Stopping { handle, outcome } => after_stop(snapshot_on_stop, handle, outcome),
        Phase::Snapshotting { .. } => finished_without_snapshot(),
        _ => stopping_after(phase, SandboxRunError::Failed(error)),
    }
}

/// The phase after a step that succeeded.
pub open spec fn after_success<T, E>(
    snapshot_on_stop: bool,
    phase: Phase<E>,
    answer: Answer<T, E>,
) -> Phase<E> {
    match phase {
        Phase::Provisioning => Phase::Starting { handle: answer->Provisioned_0->Ok_0 },
        Phase::Starting { handle } => Phase::BindingTools { handle },
        Phase::BindingTools { handle } => Phase::LookingUpSession { handle },
        Phase::LookingUpSession { handle } => if answer->found {
            Phase::CheckingUserId { handle }
        } else {
            Phase::CreatingSession { handle }
        },
        Phase::CreatingSession { handle } => Phase::CheckingUserId { handle },
        Phase::CheckingUserId { handle } => Phase::CheckingSessionId { handle },
        Phase::CheckingSessionId { handle } => Phase::StartingAgent { handle },
        Phase::StartingAgent { handle } => Phase::Draining { handle },
        Phase::Draining { handle } => if answer->AgentEvent_0 is Some {
            Phase::Draining { handle }
        } else {
            Phase::Stopping { handle, outcome: Ok(()) }
        },
        Phase::Stopping { handle, outcome } => after_stop(snapshot_on_stop, handle, outcome),
        Phase::Snapshotting { .. } => Phase::Finished {
            result: Ok(SandboxRunResult { snapshot_id: Some(answer->Snapshotted_0->Ok_0) }),
        },
        Phase::Finished { .. } => phase,
    }
}

/// The phase after an answer; one that is not awaited changes nothing.
pub open spec fn next_phase<T, E>(
    session_timeout: Duration,
    snapshot_on_stop: bool,
    phase: Phase<E>,
    answer: Answer<T, E>,
) -> Phase<E> {
    if !is_awaited(phase, answer) {
        phase
    } else if answer is TimedOut {
        stopping_after(phase, SandboxRunError::SessionTimeout { timeout: session_timeout })
    } else {
        match failure_of(answer) {
            Some(error) => after_failure(snapshot_on_stop, phase, error),
            None => after_success(snapshot_on_stop, phase, answer),
        }
    }
}

/// The toolsets after an answer: those bound to the live session join the others, once.
pub open spec fn next_toolsets<T, E>(
    toolsets: Seq<T>,
    phase: Phase<E>,
    answer: Answer<T, E>,
) -> Seq<T> {
    match (phase, answer) {
        (Phase::BindingTools { .. }, Answer::ToolsBound(toolset)) => toolsets.push(toolset),
        _ => toolsets,
    }
}

/// One run of an agent in a sandbox, under way.
#[derive(Debug)]
pub struct SandboxRun<M, C, U, T, E> {
    /// What the sandbox is made from.
    pub config: SandboxConfig<M, C>,
    /// The application that the conversation belongs to.
    pub app_name: String,
    /// The user that the conversation belongs to.
    pub user_id: String,
    /// The conversation.
    pub session_id: String,
    /// What the user says to the agent.
    pub user_content: U,
    /// The toolsets that the agent is invoked with.
    pub runtime_toolsets: Vec<T>,
    /// How far the run has come.
    pub phase: Phase<E>,
}

impl<M, C, U, T, E> SandboxRun<M, C, U, T, E> {
    /// The phase after an answer.
    pub open spec fn phase_after(self, answer: Answer<T, E>) -> Phase<E> {
        next_phase(
            self.config.session_timeout,
            self.config.snapshot_on_stop,
            self.phase,
            answer,
        )
    }

    /// What is to be done in this phase.
    pub open spec fn requested(&self) -> Request<'_, M, C, U, T, E> {
        match &self.phase {
            Phase::Provisioning => Request::Provision { manifest: &self.config.manifest },
            Phase::Starting { handle } => Request::Start { handle },
            Phase::BindingTools { .. } => Request::BindTools {
                capabilities: &self.config.capabilities,
                command_timeout: self.config.command_timeout,
            },
            Phase::LookingUpSession { .. } => Request::GetSession {
                app_name: &self.app_name,
                user_id: &self.user_id,
                session_id: &self.session_id,
            },
            Phase::CreatingSession { .. } => Request::CreateSession {
                app_name: &self.app_name,
                user_id: &self.user_id,
                session_id: &self.session_id,
            },
            Phase::CheckingUserId { .. } => Request::CheckUserId { user_id: &self.user_id },
            Phase::CheckingSessionId { .. } => Request::CheckSessionId {
                session_id: &self.session_id,
            },
            Phase::StartingAgent { .. } => Request::StartAgent {
                user_id: &self.user_id,
                session_id: &self.session_id,
                user_content: &self.user_content,
                runtime_toolsets: &self.runtime_toolsets,
            },
            Phase::Draining { .. } => Request::NextEvent,
            Phase::Stopping { handle, .. } => Request::Stop { handle },
            Phase::Snapshotting { handle } => Request::Snapshot { handle },
            Phase::Finished { result } => Request::Done { result },
        }
    }

    /// What is to be done next.
    pub fn request(&self) -> (request: Request<'_, M, C, U, T, E>)
        ensures
            request == self.requested(),
    {
        match &self.phase {
            Phase::Provisioning => Request::Provision { manifest: &self.config.manifest },
            Phase::Starting { handle } => Request::Start { handle },
            Phase::BindingTools { .. } => Request::BindTools {
                capabilities: &self.config.capabilities,
                command_timeout: self.config.command_timeout,
            },
            Phase::LookingUpSession { .. } => Request::GetSession {
                app_name: &self.app_name,
                user_id: &self.user_id,
                session_id: &self.session_id,
            },
            Phase::CreatingSession { .. } => Request::CreateSession {
                app_name: &self.app_name,
                user_id: &self.user_id,
                session_id: &self.session_id,
            },
            Phase::CheckingUserId { .. } => Request::CheckUserId { user_id: &self.user_id },
            Phase::CheckingSessionId { .. } => Request::CheckSessionId {
                session_id: &self.session_id,
            },
            Phase::StartingAgent { .. } => Request::StartAgent {
                user_id: &self.user_id,
                session_id: &self.session_id,
                user_content: &self.user_content,
                runtime_toolsets: &self.runtime_toolsets,
            },
            Phase::Draining { .. } => Request::NextEvent,
            Phase::Stopping { handle, .. } => Request::Stop { handle },
            Phase::Snapshotting { handle } => Request::Snapshot { handle },
            Phase::Finished { result } => Request::Done { result },
        }
    }

    /// The session is to be stopped because a step failed.
    fn stop_failed(handle: SessionHandle, error: E) -> (phase: Phase<E>)
        ensures
            phase == (Phase::Stopping { handle, outcome: Err(SandboxRunError::Failed(error)) }),
    {
        Phase::Stopping { handle, outcome: Err(SandboxRunError::Failed(error)) }
    }

    /// The session is to be stopped because the agent loop took too long.
    fn stop_timed_out(handle: SessionHandle, timeout: Duration) -> (phase: Phase<E>)
        ensures
            phase == (Phase::Stopping {
                handle,
                outcome: Err(SandboxRunError::<E>::SessionTimeout { timeout }),
            }),
    {
        Phase::Stopping { handle, outcome: Err(SandboxRunError::SessionTimeout { timeout }) }
    }

    /// Takes the answer to the request and moves on; an answer to something else changes
    /// nothing.
    pub fn advance(self, answer: Answer<T, E>) -> (run: Self)
        ensures
            run.phase == self.phase_after(answer),
            run.runtime_toolsets@ == next_toolsets(self.runtime_toolsets@, self.phase, answer),
            run.config == self.config,
            run.app_name == self.app_name,
            run.user_id == self.user_id,
            run.session_id == self.session_id,
            run.user_content == self.user_content,
    {
        let SandboxRun {
            config,
            app_name,
            user_id,
            session_id,
            user_content,
            mut runtime_toolsets,
            phase,
        } = self;
        let timeout: Duration = config.session_timeout;
        let phase: Phase<E> = match phase {
            Phase::Provisioning => match answer {
                Answer::Provisioned(Ok(handle)) => Phase::Starting { handle },
                Answer::Provisioned(Err(error)) => Phase::Finished {
                    result: Err(SandboxRunError::Failed(error)),
                },
                _ => Phase::Provisioning,
            },
            Phase::Starting { handle } => match answer {
                Answer::Started(Ok(_)) => Phase::BindingTools { handle },
                Answer::Started(Err(error)) => Self::stop_failed(handle, error),
                _ => Phase::Starting { handle },
            },
            Phase::BindingTools { handle } => match answer {
                Answer::ToolsBound(toolset) => {
                    runtime_toolsets.push(toolset);
                    Phase::LookingUpSession { handle }
                },
                _ => Phase::BindingTools { handle },
            },
            Phase::LookingUpSession { handle } => match answer {
                Answer::SessionLookedUp { found: true } => Phase::CheckingUserId { handle },
                Answer::SessionLookedUp { found: false } => Phase::CreatingSession { handle },
                Answer::TimedOut => Self::stop_timed_out(handle, timeout),
                _ => Phase::LookingUpSession { handle },
            },
            Phase::CreatingSession { handle } => match answer {
                Answer::SessionCreated(Ok(_)) => Phase::CheckingUserId { handle },
                Answer::SessionCreated(Err(error)) => Self::stop_failed(handle, error),
                Answer::TimedOut => Self::stop_timed_out(handle, timeout),
                _ => Phase::CreatingSession { handle },
            },
            Phase::CheckingUserId { handle } => match answer {
                Answer::UserIdChecked(Ok(_)) => Phase::CheckingSessionId { handle },
                Answer::UserIdChecked(Err(error)) => Self::stop_failed(handle, error),
                Answer::TimedOut => Self::stop_timed_out(handle, timeout),
                _ => Phase::CheckingUserId { handle },
            },
            Phase::CheckingSessionId { handle } => match answer {
                Answer::SessionIdChecked(Ok(_)) => Phase::StartingAgent { handle },
                Answer::SessionIdChecked(Err(error)) => Self::stop_failed(handle, error),
                Answer::TimedOut => Self::stop_timed_out(handle, timeout),
                _ => Phase::CheckingSessionId { handle },
            },
            Phase::StartingAgent { handle } => match answer {
                Answer::AgentStarted(Ok(_)) => Phase::Draining { handle },
                Answer::AgentStarted(Err(error)) => Self::stop_failed(handle, error),
                Answer::TimedOut => Self::stop_timed_out(handle, timeout),
                _ => Phase::StartingAgent { handle },
            },
            Phase::Draining { handle } => match answer {
                Answer::AgentEvent(Some(Err(error))) => Self::stop_failed(handle, error),
                Answer::AgentEvent(None) => Phase::Stopping { handle, outcome: Ok(()) },
                Answer::TimedOut => Self::stop_timed_out(handle, timeout),
                _ => Phase::Draining { handle },
            },
            Phase::Stopping { handle, outcome } => match answer {
                Answer::Stopped(_) => match outcome {
                    Err(error) => Phase::Finished { result: Err(error) },
                    Ok(_) => if config.snapshot_on_stop {
                        Phase::Snapshotting { handle }
                    } else {
                        Phase::Finished { result: Ok(SandboxRunResult { snapshot_id: None }) }
                    },
                },
                _ => Phase::Stopping { handle, outcome },
            },
            Phase::Snapshotting { handle } => match answer {
                Answer::Snapshotted(Ok(id)) => Phase::Finished {
                    result: Ok(SandboxRunResult { snapshot_id: Some(id) }),
                },
                Answer::Snapshotted(Err(_)) => Phase::Finished {
                    result: Ok(SandboxRunResult { snapshot_id: None }),
                },
                _ => Phase::Snapshotting { handle },
            },
            Phase::Finished { result } => Phase::Finished { result },
        };
        SandboxRun { config, app_name, user_id, session_id, user_content, runtime_toolsets, phase }
    }
}

/// A runner, as far as a sandboxed run reads it.
#[derive(Debug)]
pub struct Runner<X, T> {
    /// The application that the runner serves.
    pub app_name: String,
    /// The toolsets that its run config offers to every invocation.
    pub runtime_toolsets: Vec<T>,
    /// What executes agents and keeps conversations.
    pub executor: X,
}

/// Runner wrapper that manages the sandbox lifecycle around agent execution.
///
/// Provisions the workspace, binds tools, delegates to the inner runner,
/// and cleans up (stop + optional snapshot) on completion or failure.
#[derive(Debug)]
pub struct SandboxRunner<X, T> {
    /// The runner that executes the agent.
    pub inner: Runner<X, T>,
}

impl<X, T> SandboxRunner<X, T> {
    /// Creates a new `SandboxRunner` wrapping the given [`Runner`].
    pub fn new(inner: Runner<X, T>) -> (runner: Self)
        ensures
            runner.inner == inner,
    {
        SandboxRunner { inner }
    }

    /// Returns a reference to the inner [`Runner`].
    pub fn inner(&self) -> (inner: &Runner<X, T>)
        ensures
            *inner == self.inner,
    {
        &self.inner
    }

    /// Begins a run of the agent with full sandbox lifecycle management.
    ///
    /// The run provisions a workspace from the config's manifest, starts the sandbox session,
    /// binds tools based on enabled capabilities, runs the agent loop via the inner runner
    /// under its application name with the bound tools beside copies of its own toolsets, stops
    /// the session (always, even on failure), and optionally snapshots the workspace.
    pub fn run<M, C, U, E>(
        &self,
        config: SandboxConfig<M, C>,
        user_id: &str,
        session_id: &str,
        user_content: U,
    ) -> (run: SandboxRun<M, C, U, T, E>) where T: Clone
        ensures
            run.phase == Phase::<E>::Provisioning,
            run.config == config,
            run.app_name == self.inner.app_name,
            run.runtime_toolsets@.len() == self.inner.runtime_toolsets@.len(),
            forall|i: int|
                0 <= i < self.inner.runtime_toolsets@.len() ==> cloned(
                    #[trigger] self.inner.runtime_toolsets@[i],
                    run.runtime_toolsets@[i],
                ),
            run.user_id@ == user_id@,
            run.session_id@ == session_id@,
            run.user_content == user_content,
    {
        SandboxRun {
            config,
            app_name: self.inner.app_name.clone(),
            user_id: user_id.to_string(),
            session_id: session_id.to_string(),
            user_content,
            runtime_toolsets: self.inner.runtime_toolsets.clone(),
            phase: Phase::Provisioning,
        }
    }
}

} // verus!
