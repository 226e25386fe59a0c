//! What holds of every sandbox-managed run, however its steps go.
use crate::sandbox_runner;
use crate::sandbox_runner::{
    Answer, Phase, Request, SandboxRun, SandboxRunError, SandboxRunResult, SessionHandle,
};
use std::time::Duration;
use vstd::prelude::*;

verus! {

/// What a run goes by.
pub struct Terms {
    /// How long the agent loop may take.
    pub session_timeout: Duration,
    /// Whether the workspace is snapshotted once the agent is done.
    pub snapshot_on_stop: bool,
}

/// The phase that a run has reached once its requests have had these answers.
pub open spec fn phase_reached<T, E>(terms: Terms, answers: Seq<Answer<T, E>>) -> Phase<E>
    decreases answers.len(),
{
    if answers.len() == 0 {
        Phase::Provisioning
    } else {
        sandbox_runner::next_phase(
            terms.session_timeout,
            terms.snapshot_on_stop,
            phase_reached(terms, answers.drop_last()),
            answers.last(),
        )
    }
}

/// The phase in which the answer at this place was given: its request was what this phase asks.
pub open spec fn phase_at<T, E>(terms: Terms, answers: Seq<Answer<T, E>>, place: int) -> Phase<E> {
    phase_reached(terms, answers.take(place))
}

/// Each answer is to the request that the run made at that point.
pub open spec fn well_answered<T, E>(terms: Terms, answers: Seq<Answer<T, E>>) -> bool {
    forall|i: int|
        0 <= i < answers.len() ==> sandbox_runner::is_awaited(
            #[trigger] phase_at(terms, answers, i),
            answers[i],
        )
}

/// The toolsets of a run once its requests have had these answers.
pub open spec fn toolsets_reached<T, E>(
    terms: Terms,
    toolsets: Seq<T>,
    answers: Seq<Answer<T, E>>,
) -> Seq<T>
    decreases answers.len(),
{
    if answers.len() == 0 {
        toolsets
    } else {
        sandbox_runner::next_toolsets(
            toolsets_reached(terms, toolsets, answers.drop_last()),
            phase_reached(terms, answers.drop_last()),
            answers.last(),
        )
    }
}

/// The session was asked to be stopped with the request at this place.
pub open spec fn stops_at<T, E>(terms: Terms, answers: Seq<Answer<T, E>>, place: int) -> bool {
    0 <= place < answers.len() && phase_at(terms, answers, place) is Stopping
}

/// How far along the lifecycle a phase is.
pub open spec fn stage<E>(phase: Phase<E>) -> int {
    match phase {
        Phase::Provisioning => 0,
        Phase::Starting { .. } => 1,
        Phase::BindingTools { .. } => 2,
        Phase::LookingUpSession { .. } => 3,
        Phase::CreatingSession { .. } => 4,
        Phase::CheckingUserId { .. } => 5,
        Phase::CheckingSessionId { .. } => 6,
        Phase::StartingAgent { .. } => 7,
        Phase::Draining { .. } => 8,
        Phase::Stopping { .. } => 9,
        Phase::Snapshotting { .. } => 10,
        Phase::Finished { .. } => 11,
    }
}

/// How many of the answers are events of a running agent.
pub open spec fn events_drained<T, E>(answers: Seq<Answer<T, E>>) -> int
    decreases answers.len(),
{
    if answers.len() == 0 {
        0
    } else {
        events_drained(answers.drop_last()) + if answers.last() matches Answer::AgentEvent(
            Some(Ok(_)),
        ) {
            1int
        } else {
            0
        }
    }
}

/// The first answers of a well answered run are well answered.
proof fn lemma_shorter_run<T, E>(terms: Terms, answers: Seq<Answer<T, E>>)
    requires
        answers.len() > 0,
        well_answered(terms, answers),
    ensures
        well_answered(terms, answers.drop_last()),
        sandbox_runner::is_awaited(phase_reached(terms, answers.drop_last()), answers.last()),
        forall|i: int|
            0 <= i <= answers.drop_last().len() ==> #[trigger] phase_at(
                terms,
                answers.drop_last(),
                i,
            ) == phase_at(terms, answers, i),
{
    let shorter = answers.drop_last();
    assert forall|i: int| 0 <= i <= shorter.len() implies #[trigger] phase_at(terms, shorter, i)
        == phase_at(terms, answers, i) by {
        assert(shorter.take(i) =~= answers.take(i));
    }
    assert(answers.take(answers.len() - 1) =~= shorter);
    assert(phase_at(terms, answers, answers.len() - 1) == phase_reached(terms, shorter));
    assert forall|i: int| 0 <= i < shorter.len() implies sandbox_runner::is_awaited(
        #[trigger] phase_at(terms, shorter, i),
        shorter[i],
    ) by {
        assert(phase_at(terms, shorter, i) == phase_at(terms, answers, i));
        assert(shorter[i] == answers[i]);
    }
}

/// A run works on the session it provisioned and on no other, and it gets past the stop of
/// that session only through it.
proof fn lemma_session_of_run<T, E>(terms: Terms, answers: Seq<Answer<T, E>>)
    requires
        well_answered(terms, answers),
    ensures
        answers.len() == 0 <==> phase_reached(terms, answers) is Provisioning,
        answers.len() > 0 ==> answers[0] is Provisioned,
        answers.len() > 0 ==> match answers[0]->Provisioned_0 {
            Ok(handle) => {
                &&& phase_reached(terms, answers) is Finished || sandbox_runner::handle_of(
                    phase_reached(terms, answers),
                ) == Some(handle)
                &&& stage(phase_reached(terms, answers)) > 9 ==> exists|i: int|
                    #[trigger] stops_at(terms, answers, i)
            },
            Err(error) => {
                &&& answers.len() == 1
                &&& phase_reached(terms, answers) == (Phase::Finished::<E> {
                    result: Err(SandboxRunError::Failed(error)),
                })
            },
        },
    decreases answers.len(),
{
    if answers.len() > 0 {
        let shorter = answers.drop_last();
        let before = phase_reached(terms, shorter);
        lemma_shorter_run(terms, answers);
        lemma_session_of_run(terms, shorter);
        assert(answers.take(answers.len() - 1) =~= shorter);
        if before is Stopping {
            assert(stops_at(terms, answers, answers.len() - 1));
        }
        if exists|i: int| #[trigger] stops_at(terms, shorter, i) {
            let i = choose|i: int| #[trigger] stops_at(terms, shorter, i);
            assert(phase_at(terms, shorter, i) == phase_at(terms, answers, i));
            assert(stops_at(terms, answers, i));
        }
    }
}

/// A run never goes back: it is further along with every answer, or drains on.
proof fn lemma_stages_only_grow<T, E>(terms: Terms, answers: Seq<Answer<T, E>>, place: int)
    requires
        well_answered(terms, answers),
        0 <= place < answers.len(),
    ensures
        ({
            let before = phase_at(terms, answers, place);
            &&& stage(before) <= stage(phase_reached(terms, answers))
            &&& stage(before) == stage(phase_reached(terms, answers)) ==> before is Draining
        }),
    decreases answers.len(),
{
    let shorter = answers.drop_last();
    lemma_shorter_run(terms, answers);
    assert(answers.take(answers.len() - 1) =~= shorter);
    assert(phase_at(terms, shorter, place) == phase_at(terms, answers, place));
    if place < shorter.len() {
        lemma_stages_only_grow(terms, shorter, place);
    }
}

/// The first answers of a well answered run are well answered, however many.
proof fn lemma_run_so_far<T, E>(terms: Terms, answers: Seq<Answer<T, E>>, place: int)
    requires
        well_answered(terms, answers),
        0 <= place <= answers.len(),
    ensures
        well_answered(terms, answers.take(place)),
        forall|i: int|
            0 <= i <= place ==> #[trigger] phase_at(terms, answers.take(place), i) == phase_at(
                terms,
                answers,
                i,
            ),
{
    let so_far = answers.take(place);
    assert forall|i: int| 0 <= i <= place implies #[trigger] phase_at(terms, so_far, i)
        == phase_at(terms, answers, i) by {
        assert(so_far.take(i) =~= answers.take(i));
    }
    assert forall|i: int| 0 <= i < so_far.len() implies sandbox_runner::is_awaited(
        #[trigger] phase_at(terms, so_far, i),
        so_far[i],
    ) by {
        assert(phase_at(terms, so_far, i) == phase_at(terms, answers, i));
        assert(so_far[i] == answers[i]);
    }
}

/// The session is always stopped, exactly once, whether the run succeeds or fails, and it is
/// the session that was provisioned; where provisioning failed there is nothing to stop.
pub proof fn law_a_provisioned_session_is_stopped_exactly_once<T, E>(
    terms: Terms,
    answers: Seq<Answer<T, E>>,
)
    requires
        well_answered(terms, answers),
        phase_reached(terms, answers) is Finished,
    ensures
        answers[0] is Provisioned,
        match answers[0]->Provisioned_0 {
            Ok(handle) => exists|i: int| #[trigger]
                stops_at(terms, answers, i) && sandbox_runner::handle_of(
                    phase_at(terms, answers, i),
                ) == Some(handle),
            Err(_) => forall|i: int| !#[trigger] stops_at(terms, answers, i),
        },
        forall|i: int, j: int| #[trigger]
            stops_at(terms, answers, i) && #[trigger] stops_at(terms, answers, j) ==> i == j,
{
    lemma_session_of_run(terms, answers);
    match answers[0]->Provisioned_0 {
        Ok(handle) => {
            let i = choose|i: int| #[trigger] stops_at(terms, answers, i);
            lemma_run_so_far(terms, answers, i);
            lemma_session_of_run(terms, answers.take(i));
            if i > 0 {
                assert(answers.take(i)[0] == answers[0]);
            }
        },
        Err(_) => {
            assert(answers.take(0) =~= Seq::empty());
        },
    }
    assert forall|i: int, j: int| #[trigger]
        stops_at(terms, answers, i) && #[trigger] stops_at(terms, answers, j) implies i == j by {
        if i < j {
            lemma_run_so_far(terms, answers, j);
            assert(phase_at(terms, answers.take(j), i) == phase_at(terms, answers, i));
            lemma_stages_only_grow(terms, answers.take(j), i);
        }
        if j < i {
            lemma_run_so_far(terms, answers, i);
            assert(phase_at(terms, answers.take(i), j) == phase_at(terms, answers, j));
            lemma_stages_only_grow(terms, answers.take(i), j);
        }
    }
}

/// Once the session is stopped nothing but the snapshot is asked for, so no step of the agent
/// ever meets a session that is gone.
pub proof fn law_nothing_but_the_snapshot_follows_the_stop<T, E>(
    terms: Terms,
    answers: Seq<Answer<T, E>>,
    stop: int,
    place: int,
)
    requires
        well_answered(terms, answers),
        stops_at(terms, answers, stop),
        stop < place < answers.len(),
    ensures
        phase_at(terms, answers, place) is Snapshotting,
{
    lemma_run_so_far(terms, answers, place);
    assert(phase_at(terms, answers.take(place), stop) == phase_at(terms, answers, stop));
    lemma_stages_only_grow(terms, answers.take(place), stop);
    assert(sandbox_runner::is_awaited(phase_at(terms, answers, place), answers[place]));
}

/// The agent loop is entered only once provisioning and starting have succeeded and the tools
/// are bound.
pub proof fn law_a_failed_start_never_enters_the_agent_loop<T, E>(
    terms: Terms,
    answers: Seq<Answer<T, E>>,
    place: int,
)
    requires
        well_answered(terms, answers),
        0 <= place <= answers.len(),
        sandbox_runner::in_agent_loop(phase_at(terms, answers, place)),
    ensures
        place >= 3,
        answers[0] matches Answer::Provisioned(Ok(_)),
        answers[1] matches Answer::Started(Ok(_)),
        answers[2] is ToolsBound,
{
    lemma_first_steps(terms, answers, place);
}

/// The first three answers decide whether the agent loop is entered.
proof fn lemma_first_steps<T, E>(terms: Terms, answers: Seq<Answer<T, E>>, place: int)
    requires
        well_answered(terms, answers),
        0 <= place <= answers.len(),
        3 <= stage(phase_at(terms, answers, place)) <= 8,
    ensures
        place >= 3,
        answers[0] matches Answer::Provisioned(Ok(_)),
        answers[1] matches Answer::Started(Ok(_)),
        answers[2] is ToolsBound,
    decreases place,
{
    if place == 0 {
        assert(answers.take(0) =~= Seq::empty());
    } else {
        let before = phase_at(terms, answers, place - 1);
        assert(answers.take(place).drop_last() =~= answers.take(place - 1));
        assert(answers.take(place).last() == answers[place - 1]);
        assert(sandbox_runner::is_awaited(before, answers[place - 1]));
        if 3 <= stage(before) {
            lemma_first_steps(terms, answers, place - 1);
        } else {
            assert(before is BindingTools);
            assert(place >= 2) by {
                if place == 1 {
                    assert(answers.take(0) =~= Seq::empty());
                }
            }
            let start = phase_at(terms, answers, place - 2);
            assert(answers.take(place - 1).drop_last() =~= answers.take(place - 2));
            assert(sandbox_runner::is_awaited(start, answers[place - 2]));
            assert(start is Starting);
            assert(place >= 3) by {
                if place == 2 {
                    assert(answers.take(0) =~= Seq::empty());
                }
            }
            let provision = phase_at(terms, answers, place - 3);
            assert(answers.take(place - 2).drop_last() =~= answers.take(place - 3));
            assert(sandbox_runner::is_awaited(provision, answers[place - 3]));
            assert(provision is Provisioning);
            lemma_run_so_far(terms, answers, place - 3);
            lemma_session_of_run(terms, answers.take(place - 3));
        }
    }
}

/// One answer further.
proof fn lemma_one_answer<T, E>(terms: Terms, answers: Seq<Answer<T, E>>, place: int)
    requires
        well_answered(terms, answers),
        0 <= place < answers.len(),
    ensures
        sandbox_runner::is_awaited(phase_at(terms, answers, place), answers[place]),
        phase_at(terms, answers, place + 1) == sandbox_runner::next_phase(
            terms.session_timeout,
            terms.snapshot_on_stop,
            phase_at(terms, answers, place),
            answers[place],
        ),
        phase_at(terms, answers, answers.len() as int) == phase_reached(terms, answers),
{
    assert(answers.take(place + 1).drop_last() =~= answers.take(place));
    assert(answers.take(place + 1).last() == answers[place]);
    assert(answers.take(answers.len() as int) =~= answers);
}

/// From the stop on, a run ends in one of three ways.
proof fn lemma_end_of_run<T, E>(terms: Terms, answers: Seq<Answer<T, E>>, stop: int)
    requires
        well_answered(terms, answers),
        phase_reached(terms, answers) is Finished,
        stops_at(terms, answers, stop),
    ensures
        match phase_at(terms, answers, stop)->outcome {
            Err(error) => {
                &&& answers.len() == stop + 1
                &&& phase_reached(terms, answers) == (Phase::Finished::<E> { result: Err(error) })
            },
            Ok(_) => if terms.snapshot_on_stop {
                &&& answers.len() == stop + 2
                &&& answers[stop + 1] is Snapshotted
                &&& phase_reached(terms, answers) == (Phase::Finished::<E> {
                    result: Ok(
                        SandboxRunResult {
                            snapshot_id: match answers[stop + 1]->Snapshotted_0 {
                                Ok(id) => Some(id),
                                Err(_) => None,
                            },
                        },
                    ),
                })
            } else {
                &&& answers.len() == stop + 1
                &&& phase_reached(terms, answers)
                    == sandbox_runner::finished_without_snapshot::<E>()
            },
        },
{
    lemma_one_answer(terms, answers, stop);
    if stop + 1 < answers.len() {
        lemma_one_answer(terms, answers, stop + 1);
    }
    if stop + 2 < answers.len() {
        lemma_one_answer(terms, answers, stop + 2);
    }
}

/// A run fails exactly when it was stopped for a failure, with that failure; otherwise it
/// succeeds, with the snapshot that was asked for and taken. A snapshot is asked for exactly
/// when the run did not fail and the config says so, and one that fails costs the run nothing
/// but the snapshot.
pub proof fn law_result_of_a_run<T, E>(terms: Terms, answers: Seq<Answer<T, E>>, stop: int)
    requires
        well_answered(terms, answers),
        phase_reached(terms, answers) is Finished,
        stops_at(terms, answers, stop),
    ensures
        match phase_at(terms, answers, stop)->outcome {
            Err(error) => phase_reached(terms, answers)->result == Err::<SandboxRunResult, _>(
                error,
            ),
            Ok(_) => phase_reached(terms, answers)->result == Ok::<_, SandboxRunError<E>>(
                SandboxRunResult {
                    snapshot_id: if terms.snapshot_on_stop {
                        match answers.last() {
                            Answer::Snapshotted(Ok(id)) => Some(id),
                            _ => None,
                        }
                    } else {
                        None
                    },
                },
            ),
        },
        (exists|i: int|
            0 <= i < answers.len() && #[trigger] phase_at(terms, answers, i) is Snapshotting) <==> (
        terms.snapshot_on_stop && phase_at(terms, answers, stop)->outcome is Ok),
{
    lemma_end_of_run(terms, answers, stop);
    lemma_one_answer(terms, answers, stop);
    let asked = terms.snapshot_on_stop && phase_at(terms, answers, stop)->outcome is Ok;
    if asked {
        assert(phase_at(terms, answers, stop + 1) is Snapshotting);
    } else {
        assert forall|i: int| 0 <= i < answers.len() implies !(#[trigger] phase_at(
            terms,
            answers,
            i,
        ) is Snapshotting) by {
            if i < stop && phase_at(terms, answers, i) is Snapshotting {
                lemma_run_so_far(terms, answers, stop);
                assert(phase_at(terms, answers.take(stop), i) == phase_at(terms, answers, i));
                lemma_stages_only_grow(terms, answers.take(stop), i);
            }
        }
    }
}

/// A failed step of the start or of the agent loop is what the run reports, after the session
/// has been stopped.
pub proof fn law_a_failure_is_reported_after_cleanup<T, E>(
    terms: Terms,
    answers: Seq<Answer<T, E>>,
    place: int,
    error: E,
)
    requires
        well_answered(terms, answers),
        phase_reached(terms, answers) is Finished,
        0 <= place < answers.len(),
        phase_at(terms, answers, place) is Starting || sandbox_runner::in_agent_loop(
            phase_at(terms, answers, place),
        ),
        sandbox_runner::failure_of(answers[place]) == Some(error),
    ensures
        stops_at(terms, answers, place + 1),
        phase_reached(terms, answers)->result == Err::<SandboxRunResult, _>(
            SandboxRunError::Failed(error),
        ),
{
    lemma_one_answer(terms, answers, place);
    if place + 1 == answers.len() {
        assert(phase_at(terms, answers, place + 1) is Stopping);
    }
    lemma_end_of_run(terms, answers, place + 1);
}

/// An agent loop that outlasts the session timeout is reported as timed out, after the session
/// has been stopped.
pub proof fn law_a_timeout_is_reported_after_cleanup<T, E>(
    terms: Terms,
    answers: Seq<Answer<T, E>>,
    place: int,
)
    requires
        well_answered(terms, answers),
        phase_reached(terms, answers) is Finished,
        0 <= place < answers.len(),
        answers[place] is TimedOut,
    ensures
        stops_at(terms, answers, place + 1),
        phase_reached(terms, answers)->result == Err::<SandboxRunResult, _>(
            SandboxRunError::<E>::SessionTimeout { timeout: terms.session_timeout },
        ),
{
    lemma_one_answer(terms, answers, place);
    if place + 1 == answers.len() {
        assert(phase_at(terms, answers, place + 1) is Stopping);
    }
    lemma_end_of_run(terms, answers, place + 1);
}

/// A stop that fails changes nothing: the run goes on as if it had succeeded.
pub proof fn law_a_failed_stop_is_passed_over<T, E>(
    terms: Terms,
    handle: SessionHandle,
    outcome: Result<(), SandboxRunError<E>>,
    error: E,
)
    ensures
        sandbox_runner::next_phase(
            terms.session_timeout,
            terms.snapshot_on_stop,
            Phase::Stopping { handle, outcome },
            Answer::<T, E>::Stopped(Err(error)),
        ) == sandbox_runner::next_phase(
            terms.session_timeout,
            terms.snapshot_on_stop,
            Phase::Stopping { handle, outcome },
            Answer::<T, E>::Stopped(Ok(())),
        ),
{
}

/// A session is stopped without a failure only when the agent has run to completion.
proof fn lemma_clean_stop<T, E>(terms: Terms, answers: Seq<Answer<T, E>>, stop: int)
    requires
        well_answered(terms, answers),
        stops_at(terms, answers, stop),
        phase_at(terms, answers, stop)->outcome is Ok,
    ensures
        stop > 0,
        phase_at(terms, answers, stop - 1) is Draining,
        answers[stop - 1] == Answer::<T, E>::AgentEvent(None),
{
    if stop == 0 {
        assert(answers.take(0) =~= Seq::empty());
    } else {
        lemma_one_answer(terms, answers, stop - 1);
    }
}

/// A run that reports success has run its agent: the agent was invoked, and its events were
/// drained to the end before the session was stopped.
pub proof fn law_success_means_the_agent_ran_to_completion<T, E>(
    terms: Terms,
    answers: Seq<Answer<T, E>>,
)
    requires
        well_answered(terms, answers),
        phase_reached(terms, answers) matches Phase::Finished { result: Ok(_) },
    ensures
        exists|start: int, end: int|
            0 <= start < end < answers.len() && #[trigger] phase_at(
                terms,
                answers,
                start,
            ) is StartingAgent && answers[start] is AgentStarted && answers[start]->AgentStarted_0 is Ok
                && #[trigger] phase_at(terms, answers, end) is Draining && answers[end] == Answer::<
                T,
                E,
            >::AgentEvent(None),
{
    law_a_provisioned_session_is_stopped_exactly_once(terms, answers);
    lemma_session_of_run(terms, answers);
    let stop = choose|i: int| #[trigger] stops_at(terms, answers, i);
    lemma_end_of_run(terms, answers, stop);
    lemma_clean_stop(terms, answers, stop);
    lemma_draining_was_started(terms, answers, stop - 1);
}

/// An agent that is drained was invoked before.
proof fn lemma_draining_was_started<T, E>(terms: Terms, answers: Seq<Answer<T, E>>, place: int)
    requires
        well_answered(terms, answers),
        0 <= place < answers.len(),
        phase_at(terms, answers, place) is Draining,
    ensures
        exists|start: int|
            0 <= start < place && #[trigger] phase_at(terms, answers, start) is StartingAgent
                && answers[start] is AgentStarted && answers[start]->AgentStarted_0 is Ok,
    decreases place,
{
    if place == 0 {
        assert(answers.take(0) =~= Seq::empty());
    } else {
        lemma_one_answer(terms, answers, place - 1);
        if phase_at(terms, answers, place - 1) is Draining {
            lemma_draining_was_started(terms, answers, place - 1);
        } else {
            assert(phase_at(terms, answers, place - 1) is StartingAgent);
        }
    }
}

/// The toolsets grow once, by the tools bound to the live session.
proof fn lemma_toolsets_of_run<T, E>(terms: Terms, toolsets: Seq<T>, answers: Seq<Answer<T, E>>)
    requires
        well_answered(terms, answers),
    ensures
        stage(phase_reached(terms, answers)) <= 2 ==> toolsets_reached(terms, toolsets, answers)
            == toolsets,
        3 <= stage(phase_reached(terms, answers)) <= 8 ==> answers.len() >= 3
            && answers[2] is ToolsBound && toolsets_reached(terms, toolsets, answers)
            == toolsets.push(answers[2]->ToolsBound_0),
    decreases answers.len(),
{
    if answers.len() > 0 {
        let shorter = answers.drop_last();
        lemma_shorter_run(terms, answers);
        lemma_toolsets_of_run(terms, toolsets, shorter);
        if 3 <= stage(phase_reached(terms, answers)) <= 8 {
            assert(answers.take(answers.len() as int) =~= answers);
            lemma_first_steps(terms, answers, answers.len() as int);
            if phase_reached(terms, shorter) is BindingTools {
                lemma_stage_counts(terms, answers);
                lemma_stage_counts(terms, shorter);
            }
        }
    }
}

/// Up to the agent loop every answer is one stage.
proof fn lemma_stage_counts<T, E>(terms: Terms, answers: Seq<Answer<T, E>>)
    requires
        well_answered(terms, answers),
    ensures
        stage(phase_reached(terms, answers)) <= 3 ==> answers.len() == stage(
            phase_reached(terms, answers),
        ),
    decreases answers.len(),
{
    if answers.len() > 0 {
        lemma_shorter_run(terms, answers);
        lemma_stage_counts(terms, answers.drop_last());
    }
}

/// The agent sees the tools bound to the live session, beside the runner's own toolsets.
pub proof fn law_the_agent_sees_the_bound_tools<T, E>(
    terms: Terms,
    toolsets: Seq<T>,
    answers: Seq<Answer<T, E>>,
)
    requires
        well_answered(terms, answers),
        phase_reached(terms, answers) is StartingAgent,
    ensures
        answers.len() >= 3,
        answers[2] is ToolsBound,
        toolsets_reached(terms, toolsets, answers) == toolsets.push(answers[2]->ToolsBound_0),
{
    lemma_toolsets_of_run(terms, toolsets, answers);
}

/// A run whose agent ends comes to its end: apart from the events that the agent yields, it
/// takes no more answers than its lifecycle has stages, and a finished run takes none.
pub proof fn law_a_run_ends<T, E>(terms: Terms, answers: Seq<Answer<T, E>>, more: Answer<T, E>)
    requires
        well_answered(terms, answers),
    ensures
        answers.len() <= stage(phase_reached(terms, answers)) + events_drained(answers),
        answers.len() <= 11 + events_drained(answers),
        phase_reached(terms, answers) is Finished ==> !sandbox_runner::is_awaited(
            phase_reached(terms, answers),
            more,
        ),
    decreases answers.len(),
{
    if answers.len() > 0 {
        lemma_shorter_run(terms, answers);
        law_a_run_ends(terms, answers.drop_last(), more);
    }
}

/// Every request is made in its own phase, and carries exactly what the run holds: the
/// workspace comes from the config's manifest, the tools from its capabilities and command
/// timeout, the conversation is the one of the run's application, user and session, the agent is
/// invoked in that conversation with the run's content and toolsets, and the session that is
/// started, stopped and snapshotted is the one of the phase.
pub proof fn law_a_request_carries_what_the_run_holds<M, C, U, T, E>(
    run: &SandboxRun<M, C, U, T, E>,
)
    ensures
        match run.requested() {
            Request::Provision { manifest } => {
                run.phase is Provisioning && *manifest == run.config.manifest
            },
            Request::Start { handle } => run.phase == (Phase::Starting::<E> { handle: *handle }),
            Request::BindTools { capabilities, command_timeout } => {
                &&& run.phase is BindingTools
                &&& *capabilities == run.config.capabilities
                &&& command_timeout == run.config.command_timeout
            },
            Request::GetSession { app_name, user_id, session_id } => {
                &&& run.phase is LookingUpSession
                &&& *app_name == run.app_name
                &&& *user_id == run.user_id
                &&& *session_id == run.session_id
            },
            Request::CreateSession { app_name, user_id, session_id } => {
                &&& run.phase is CreatingSession
                &&& *app_name == run.app_name
                &&& *user_id == run.user_id
                &&& *session_id == run.session_id
            },
            Request::CheckUserId { user_id } => {
                run.phase is CheckingUserId && *user_id == run.user_id
            },
            Request::CheckSessionId { session_id } => {
                run.phase is CheckingSessionId && *session_id == run.session_id
            },
            Request::StartAgent { user_id, session_id, user_content, runtime_toolsets } => {
                &&& run.phase is StartingAgent
                &&& *user_id == run.user_id
                &&& *session_id == run.session_id
                &&& *user_content == run.user_content
                &&& *runtime_toolsets == run.runtime_toolsets
            },
            Request::NextEvent => run.phase is Draining,
            Request::Stop { handle } => {
                run.phase is Stopping && run.phase->Stopping_handle == *handle
            },
            Request::Snapshot { handle } => run.phase == (Phase::Snapshotting::<E> {
                handle: *handle,
            }),
            Request::Done { result } => run.phase == (Phase::Finished::<E> { result: *result }),
        },
{
}

/// The agent is invoked in the conversation that was looked up, created and checked: from one
/// request of a run to another the application, the user and the session are the same.
pub proof fn law_the_agent_runs_in_the_conversation_that_was_checked<M, C, U, T, E>(
    earlier: &SandboxRun<M, C, U, T, E>,
    run: &SandboxRun<M, C, U, T, E>,
)
    requires
        earlier.app_name == run.app_name,
        earlier.user_id == run.user_id,
        earlier.session_id == run.session_id,
        run.phase is StartingAgent,
    ensures
        run.requested() is StartAgent,
        earlier.requested() matches Request::GetSession { user_id, session_id, .. } ==> *user_id
            == *run.requested()->StartAgent_user_id && *session_id
            == *run.requested()->StartAgent_session_id,
        earlier.requested() matches Request::CreateSession { user_id, session_id, .. } ==> *user_id
            == *run.requested()->StartAgent_user_id && *session_id
            == *run.requested()->StartAgent_session_id,
        earlier.requested() matches Request::CheckUserId { user_id } ==> *user_id
            == *run.requested()->StartAgent_user_id,
        earlier.requested() matches Request::CheckSessionId { session_id } ==> *session_id
            == *run.requested()->StartAgent_session_id,
{
}

/// A phase has a reason: unless an answer leaves the run where it is, each phase is reached from
/// the one before it, through the answer that calls for it, on the same session. Above all, a
/// session is stopped for a failure only when a step failed with it, for a timeout only when the
/// session timeout elapsed, and for neither only when the agent has ended; and a run ends well
/// only through that.
pub proof fn law_every_phase_has_a_reason<M, C, U, T, E>(
    run: SandboxRun<M, C, U, T, E>,
    answer: Answer<T, E>,
)
    ensures
        run.phase_after(answer) == run.phase || match run.phase_after(answer) {
            Phase::Provisioning => false,
            Phase::Starting { handle } => {
                run.phase is Provisioning && answer == Answer::<T, E>::Provisioned(Ok(handle))
            },
            Phase::BindingTools { handle } => {
                run.phase == (Phase::Starting::<E> { handle }) && answer is Started
                    && answer->Started_0 is Ok
            },
            Phase::LookingUpSession { handle } => {
                run.phase == (Phase::BindingTools::<E> { handle }) && answer is ToolsBound
            },
            Phase::CreatingSession { handle } => {
                run.phase == (Phase::LookingUpSession::<E> { handle }) && answer == (Answer::<
                    T,
                    E,
                >::SessionLookedUp { found: false })
            },
            Phase::CheckingUserId { handle } => {
                ||| run.phase == (Phase::LookingUpSession::<E> { handle }) && answer == (Answer::<
                    T,
                    E,
                >::SessionLookedUp { found: true })
                ||| run.phase == (Phase::CreatingSession::<E> { handle })
                    && answer is SessionCreated && answer->SessionCreated_0 is Ok
            },
            Phase::CheckingSessionId { handle } => {
                run.phase == (Phase::CheckingUserId::<E> { handle }) && answer is UserIdChecked
                    && answer->UserIdChecked_0 is Ok
            },
            Phase::StartingAgent { handle } => {
                run.phase == (Phase::CheckingSessionId::<E> { handle })
                    && answer is SessionIdChecked && answer->SessionIdChecked_0 is Ok
            },
            Phase::Draining { handle } => {
                run.phase == (Phase::StartingAgent::<E> { handle }) && answer is AgentStarted
                    && answer->AgentStarted_0 is Ok
            },
            Phase::Stopping { handle, outcome: Err(SandboxRunError::Failed(error)) } => {
                ||| run.phase == (Phase::Starting::<E> { handle }) && answer == Answer::<
                    T,
                    E,
                >::Started(Err(error))
                ||| run.phase == (Phase::CreatingSession::<E> { handle }) && answer == Answer::<
                    T,
                    E,
                >::SessionCreated(Err(error))
                ||| run.phase == (Phase::CheckingUserId::<E> { handle }) && answer == Answer::<
                    T,
                    E,
                >::UserIdChecked(Err(error))
                ||| run.phase == (Phase::CheckingSessionId::<E> { handle }) && answer == Answer::<
                    T,
                    E,
                >::SessionIdChecked(Err(error))
                ||| run.phase == (Phase::StartingAgent::<E> { handle }) && answer == Answer::<
                    T,
                    E,
                >::AgentStarted(Err(error))
                ||| run.phase == (Phase::Draining::<E> { handle }) && answer == Answer::<
                    T,
                    E,
                >::AgentEvent(Some(Err(error)))
            },
            Phase::Stopping { handle, outcome: Err(SandboxRunError::SessionTimeout { timeout }) } => {
                &&& answer is TimedOut
                &&& timeout == run.config.session_timeout
                &&& {
                    ||| run.phase == (Phase::LookingUpSession::<E> { handle })
                    ||| run.phase == (Phase::CreatingSession::<E> { handle })
                    ||| run.phase == (Phase::CheckingUserId::<E> { handle })
                    ||| run.phase == (Phase::CheckingSessionId::<E> { handle })
                    ||| run.phase == (Phase::StartingAgent::<E> { handle })
                    ||| run.phase == (Phase::Draining::<E> { handle })
                }
            },
            Phase::Stopping { handle, outcome: Ok(_) } => {
                run.phase == (Phase::Draining::<E> { handle }) && answer == Answer::<
                    T,
                    E,
                >::AgentEvent(None)
            },
            Phase::Snapshotting { handle } => {
                &&& run.phase is Stopping
                &&& run.phase->Stopping_handle == handle
                &&& run.phase->outcome is Ok
                &&& answer is Stopped
                &&& run.config.snapshot_on_stop
            },
            Phase::Finished { result: Err(error) } => {
                ||| answer is Stopped && run.phase is Stopping && run.phase->outcome == Err::<(), _>(
                    error,
                )
                ||| run.phase is Provisioning && error is Failed && answer == Answer::<
                    T,
                    E,
                >::Provisioned(Err(error->Failed_0))
            },
            Phase::Finished { result: Ok(SandboxRunResult { snapshot_id: Some(id) }) } => {
                run.phase is Snapshotting && answer == Answer::<T, E>::Snapshotted(Ok(id))
            },
            Phase::Finished { result: Ok(SandboxRunResult { snapshot_id: None }) } => {
                ||| run.phase is Snapshotting && answer is Snapshotted
                    && answer->Snapshotted_0 is Err
                ||| run.phase is Stopping && run.phase->outcome is Ok && answer is Stopped
                    && !run.config.snapshot_on_stop
            },
        },
{
}

/// The answer to what a run asks for is never ignored: the run moves on, but for an event of the
/// agent, after which it waits for the next one. The session timeout ends every step of the
/// agent loop.
pub proof fn law_an_answer_moves_the_run_on<M, C, U, T, E>(
    run: SandboxRun<M, C, U, T, E>,
    answer: Answer<T, E>,
)
    ensures
        run.phase is Provisioning && answer is Provisioned ==> run.phase_after(answer) != run.phase,
        run.phase is Starting && answer is Started ==> run.phase_after(answer) != run.phase,
        run.phase is BindingTools && answer is ToolsBound ==> run.phase_after(answer) != run.phase,
        run.phase is LookingUpSession && (answer is SessionLookedUp || answer is TimedOut)
            ==> run.phase_after(answer) != run.phase,
        run.phase is CreatingSession && (answer is SessionCreated || answer is TimedOut)
            ==> run.phase_after(answer) != run.phase,
        run.phase is CheckingUserId && (answer is UserIdChecked || answer is TimedOut)
            ==> run.phase_after(answer) != run.phase,
        run.phase is CheckingSessionId && (answer is SessionIdChecked || answer is TimedOut)
            ==> run.phase_after(answer) != run.phase,
        run.phase is StartingAgent && (answer is AgentStarted || answer is TimedOut)
            ==> run.phase_after(answer) != run.phase,
        run.phase is Draining && (answer is AgentEvent || answer is TimedOut) ==> (run.phase_after(
            answer,
        ) == run.phase <==> (answer matches Answer::AgentEvent(Some(Ok(_))))),
        run.phase is Stopping && answer is Stopped ==> run.phase_after(answer) != run.phase,
        run.phase is Snapshotting && answer is Snapshotted ==> run.phase_after(answer) != run.phase,
{
}

/// A run's toolsets change only when its tools are bound: those join behind the others, and
/// nothing else is added, dropped or reordered.
pub proof fn law_only_the_bound_tools_join_the_toolsets<T, E>(
    toolsets: Seq<T>,
    phase: Phase<E>,
    answer: Answer<T, E>,
    bound: T,
)
    ensures
        phase is BindingTools && answer == Answer::<T, E>::ToolsBound(bound)
            ==> sandbox_runner::next_toolsets(toolsets, phase, answer) == toolsets + seq![bound],
        !(phase is BindingTools && answer is ToolsBound) ==> sandbox_runner::next_toolsets(
            toolsets,
            phase,
            answer,
        ) == toolsets,
{
    assert(toolsets.push(bound) =~= toolsets + seq![bound]);
}

/// The answer says that a step which the run depends on failed with this error.
pub open spec fn fails_with<T, E>(answer: Answer<T, E>, error: E) -> bool {
    ||| answer == Answer::<T, E>::Provisioned(Err(error))
    ||| answer == Answer::<T, E>::Started(Err(error))
    ||| answer == Answer::<T, E>::SessionCreated(Err(error))
    ||| answer == Answer::<T, E>::UserIdChecked(Err(error))
    ||| answer == Answer::<T, E>::SessionIdChecked(Err(error))
    ||| answer == Answer::<T, E>::AgentStarted(Err(error))
    ||| answer == Answer::<T, E>::AgentEvent(Some(Err(error)))
}

/// A run reports no failure that did not happen: whatever it was answered, it fails with an error
/// only if some step did, and with a timeout only if the session timeout elapsed.
pub proof fn law_a_failing_result_has_a_cause<T, E>(terms: Terms, answers: Seq<Answer<T, E>>)
    ensures
        match phase_reached(terms, answers) {
            Phase::Stopping { outcome: Err(SandboxRunError::Failed(error)), .. } => exists|i: int|
                0 <= i < answers.len() && fails_with(#[trigger] answers[i], error),
            Phase::Finished { result: Err(SandboxRunError::Failed(error)) } => exists|i: int|
                0 <= i < answers.len() && fails_with(#[trigger] answers[i], error),
            Phase::Stopping { outcome: Err(SandboxRunError::SessionTimeout { timeout }), .. } => {
                &&& timeout == terms.session_timeout
                &&& exists|i: int| 0 <= i < answers.len() && #[trigger] answers[i] is TimedOut
            },
            Phase::Finished { result: Err(SandboxRunError::SessionTimeout { timeout }) } => {
                &&& timeout == terms.session_timeout
                &&& exists|i: int| 0 <= i < answers.len() && #[trigger] answers[i] is TimedOut
            },
            _ => true,
        },
    decreases answers.len(),
{
    if answers.len() > 0 {
        let shorter = answers.drop_last();
        law_a_failing_result_has_a_cause(terms, shorter);
        assert(answers[answers.len() - 1] == answers.last());
        assert(forall|i: int| 0 <= i < shorter.len() ==> shorter[i] == #[trigger] answers[i]);
        let reached = phase_reached(terms, answers);
        let before = phase_reached(terms, shorter);
        match reached {
            Phase::Stopping { outcome: Err(SandboxRunError::Failed(error)), .. } => {
                if reached == before {
                    let i = choose|i: int|
                        0 <= i < shorter.len() && fails_with(#[trigger] shorter[i], error);
                    assert(fails_with(answers[i], error));
                } else {
                    assert(fails_with(answers.last(), error));
                }
            },
            Phase::Finished { result: Err(SandboxRunError::Failed(error)) } => {
                if before is Provisioning {
                    assert(fails_with(answers.last(), error));
                } else {
                    let i = choose|i: int|
                        0 <= i < shorter.len() && fails_with(#[trigger] shorter[i], error);
                    assert(fails_with(answers[i], error));
                }
            },
            Phase::Stopping { outcome: Err(SandboxRunError::SessionTimeout { timeout }), .. } => {
                if reached == before {
                    let i = choose|i: int| 0 <= i < shorter.len() && #[trigger] shorter[i] is TimedOut;
                    assert(answers[i] is TimedOut);
                }
            },
            Phase::Finished { result: Err(SandboxRunError::SessionTimeout { timeout }) } => {
                let i = choose|i: int| 0 <= i < shorter.len() && #[trigger] shorter[i] is TimedOut;
                assert(answers[i] is TimedOut);
            },
            _ => {},
        }
    }
}

/// A run in which nothing fails succeeds: where no step failed and the session timeout did not
/// elapse, the result of a finished run is a success, with the snapshot where the config asks for
/// one and it could be taken.
pub proof fn law_a_run_in_which_nothing_fails_succeeds<T, E>(
    terms: Terms,
    answers: Seq<Answer<T, E>>,
)
    requires
        phase_reached(terms, answers) is Finished,
        forall|i: int, error: E|
            0 <= i < answers.len() ==> !#[trigger] fails_with(answers[i], error),
        forall|i: int| 0 <= i < answers.len() ==> !(#[trigger] answers[i] is TimedOut),
    ensures
        phase_reached(terms, answers)->result is Ok,
        !terms.snapshot_on_stop ==> phase_reached(terms, answers)->result->Ok_0.snapshot_id is None,
        terms.snapshot_on_stop && phase_reached(terms, answers)->result->Ok_0.snapshot_id is None
            ==> exists|i: int|
            0 <= i < answers.len() && #[trigger] answers[i] is Snapshotted
                && answers[i]->Snapshotted_0 is Err,
        phase_reached(terms, answers)->result->Ok_0.snapshot_id matches Some(id) ==> exists|i: int|
            0 <= i < answers.len() && #[trigger] answers[i] == Answer::<T, E>::Snapshotted(Ok(id)),
    decreases answers.len(),
{
    law_a_failing_result_has_a_cause(terms, answers);
    lemma_snapshot_of_run(terms, answers);
}

/// Where the snapshot of a finished run comes from, or why it has none.
proof fn lemma_snapshot_of_run<T, E>(terms: Terms, answers: Seq<Answer<T, E>>)
    ensures
        phase_reached(terms, answers) is Snapshotting ==> terms.snapshot_on_stop,
        phase_reached(terms, answers) matches Phase::Finished { result: Ok(result) } ==> {
            &&& !terms.snapshot_on_stop ==> result.snapshot_id is None
            &&& terms.snapshot_on_stop && result.snapshot_id is None ==> exists|i: int|
                0 <= i < answers.len() && #[trigger] answers[i] is Snapshotted
                    && answers[i]->Snapshotted_0 is Err
            &&& result.snapshot_id matches Some(id) ==> exists|i: int|
                0 <= i < answers.len() && #[trigger] answers[i] == Answer::<T, E>::Snapshotted(
                    Ok(id),
                )
        },
    decreases answers.len(),
{
    if answers.len() > 0 {
        let shorter = answers.drop_last();
        lemma_snapshot_of_run(terms, shorter);
        assert(answers[answers.len() - 1] == answers.last());
        assert(forall|i: int| 0 <= i < shorter.len() ==> #[trigger] shorter[i] == answers[i]);
    }
}

} // verus!
