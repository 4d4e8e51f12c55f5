//! The future of a job whose closure may borrow from its producer.
//!
//! The job is scheduled when the future is first polled, and not before: a future that is dropped
//! unpolled never reaches a worker. One that is dropped after that must wait for its worker.

use std::mem;
use vstd::prelude::*;

verus! {

/// Where a future stands. `A` is what schedules the job, `T` what waits for it.
pub enum State<A, T> {
    /// Not polled yet, so not scheduled either.
    Pending { runnable: A, task: T },
    /// Scheduled; only the waiting side is left here.
    Scheduled(T),
    /// Resolved or dropped.
    Done,
}

/// The future of a job.
pub struct SpawnFuture<A, T> {
    pub state: State<A, T>,
}

/// What a poll gives.
pub enum SpawnPoll<R, P> {
    /// The job has not finished.
    Pending,
    /// The job finished with a value.
    Ready(R),
    /// The job panicked, and the panic goes on in whoever polled.
    Resume(P),
}

/// What is to be done for a future that is dropped.
pub enum DropAction<A, T> {
    /// Release both sides: no worker has seen the job.
    Discard { runnable: A, task: T },
    /// Cancel the job and wait until no worker runs it any more.
    Cancel(T),
    /// Nothing.
    Nothing,
}

impl<A, T> State<A, T> {
    /// The waiting side, if it is still there.
    pub open spec fn task(self) -> Option<T> {
        match self {
            State::Pending { task, .. } => Some(task),
            State::Scheduled(task) => Some(task),
            State::Done => None,
        }
    }

    /// What a poll hands to a worker.
    pub open spec fn to_schedule(self) -> Option<A> {
        match self {
            State::Pending { runnable, .. } => Some(runnable),
            _ => None,
        }
    }

    /// The state after a poll in which the waiting side became `task` and gave `outcome`.
    pub open spec fn polled<R, P>(self, task: T, outcome: Option<Result<R, P>>) -> State<A, T> {
        if outcome is Some {
            State::Done
        } else {
            State::Scheduled(task)
        }
    }
}

/// What a poll gives for an outcome of the waiting side.
pub open spec fn poll_result<R, P>(outcome: Option<Result<R, P>>) -> SpawnPoll<R, P> {
    match outcome {
        None => SpawnPoll::Pending,
        Some(Ok(value)) => SpawnPoll::Ready(value),
        Some(Err(payload)) => SpawnPoll::Resume(payload),
    }
}

/// What a drop asks for in a state.
pub open spec fn drop_action<A, T>(state: State<A, T>) -> DropAction<A, T> {
    match state {
        State::Pending { runnable, task } => DropAction::Discard { runnable, task },
        State::Scheduled(task) => DropAction::Cancel(task),
        State::Done => DropAction::Nothing,
    }
}

impl<A, T> SpawnFuture<A, T> {
    /// The future of a job that is not scheduled yet.
    pub fn new(runnable: A, task: T) -> (future: SpawnFuture<A, T>)
        ensures
            future.state == (State::Pending { runnable, task }),
    {
        SpawnFuture { state: State::Pending { runnable, task } }
    }

    /// Polls: the first poll schedules the job, and every poll asks the waiting side for an
    /// outcome. The waiting side stays in the future while it is asked, so that a future whose
    /// poll is cut short still waits for its worker when it is dropped. A future that has resolved
    /// must not be polled again.
    pub fn poll<R, P, S: FnOnce(A), Q: FnOnce(&mut T) -> Option<Result<R, P>>>(
        &mut self,
        schedule: S,
        poll_task: Q,
    ) -> (polled: SpawnPoll<R, P>)
        requires
            old(self).state !is Done,
            old(self).state.to_schedule() matches Some(runnable) ==> call_requires(
                schedule,
                (runnable,),
            ),
            forall|task: &mut T|
                *task == old(self).state.task()->0 ==> #[trigger] call_requires(
                    poll_task,
                    (task,),
                ),
        ensures
            old(self).state.to_schedule() matches Some(runnable) ==> call_ensures(
                schedule,
                (runnable,),
                (),
            ),
            exists|task: &mut T, outcome: Option<Result<R, P>>| #[trigger]
                call_ensures(poll_task, (task,), outcome) && *task == old(self).state.task()->0
                    && final(self).state == old(self).state.polled(*final(task), outcome)
                    && polled == poll_result(outcome),
    {
        let mut state = State::Done;
        mem::swap(&mut self.state, &mut state);
        match state {
            State::Pending { runnable, task } => {
                schedule(runnable);
                self.state = State::Scheduled(task);
            },
            later => {
                self.state = later;
            },
        }
        let outcome = match &mut self.state {
            State::Scheduled(task) => poll_task(task),
            _ => None,
        };
        match outcome {
            None => SpawnPoll::Pending,
            Some(Ok(value)) => {
                self.state = State::Done;
                SpawnPoll::Ready(value)
            },
            Some(Err(payload)) => {
                self.state = State::Done;
                SpawnPoll::Resume(payload)
            },
        }
    }

    /// Ends the future, and says what is to be done for its job.
    pub fn on_drop(&mut self) -> (action: DropAction<A, T>)
        ensures
            final(self).state is Done,
            action == drop_action(old(self).state),
    {
        let mut state = State::Done;
        mem::swap(&mut self.state, &mut state);
        match state {
            State::Pending { runnable, task } => DropAction::Discard { runnable, task },
            State::Scheduled(task) => DropAction::Cancel(task),
            State::Done => DropAction::Nothing,
        }
    }
}

/// What the polls of a future schedule, in order, where `polls` is what each of them got from the
/// waiting side.
pub open spec fn scheduled<A, T, R, P>(
    state: State<A, T>,
    polls: Seq<(T, Option<Result<R, P>>)>,
) -> Seq<A>
    decreases polls.len(),
{
    if polls.len() == 0 || state is Done {
        Seq::empty()
    } else {
        let later = scheduled(state.polled(polls[0].0, polls[0].1), polls.skip(1));
        match state.to_schedule() {
            Some(runnable) => seq![runnable] + later,
            None => later,
        }
    }
}

/// However often its future is polled, a job is scheduled exactly once, and a job whose future is
/// never polled is never scheduled.
pub proof fn scheduled_only_by_the_first_poll<A, T, R, P>(
    runnable: A,
    task: T,
    polls: Seq<(T, Option<Result<R, P>>)>,
)
    ensures
        scheduled(State::Pending { runnable, task }, polls) == if polls.len() == 0 {
            Seq::empty()
        } else {
            seq![runnable]
        },
{
    if polls.len() > 0 {
        let state = State::<A, T>::Pending { runnable, task };
        lemma_not_scheduled_again(state.polled(polls[0].0, polls[0].1), polls.skip(1));
    }
}

proof fn lemma_not_scheduled_again<A, T, R, P>(
    state: State<A, T>,
    polls: Seq<(T, Option<Result<R, P>>)>,
)
    requires
        state.to_schedule() is None,
    ensures
        scheduled(state, polls) == Seq::<A>::empty(),
    decreases polls.len(),
{
    if polls.len() > 0 && state !is Done {
        lemma_not_scheduled_again(state.polled(polls[0].0, polls[0].1), polls.skip(1));
    }
}

/// What a dropped future asks for: a job that no poll has scheduled is released without waiting,
/// one that a poll has scheduled and that has not resolved is waited for, and one that has
/// resolved needs nothing.
pub proof fn drop_waits_only_for_scheduled_jobs<A, T, R, P>(
    runnable: A,
    task: T,
    outcome: Option<Result<R, P>>,
)
    ensures
        drop_action(State::Pending { runnable, task }) == (DropAction::Discard { runnable, task }),
        ({
            let polled = State::Pending { runnable, task }.polled(task, outcome);
            drop_action(polled) == if outcome is Some {
                DropAction::<A, T>::Nothing
            } else {
                DropAction::Cancel(task)
            }
        }),
{
}

} // verus!
