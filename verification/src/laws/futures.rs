//! What becomes of an outcome on its way through a slot, and of a job whose future is polled.

use crate::local::{DropAction, SpawnFuture, SpawnPoll, State};
use crate::pool::Threadpool;
use crate::spawn::{SlotPoll, SpawnCompletion, SpawnHandle};
use vstd::prelude::*;

verus! {

/// A new slot is empty, and its awaiter waits.
pub proof fn new_slot_is_empty<R, P, W>(slot: SpawnCompletion<R, P, W>, handle: SpawnHandle)
    requires
        call_ensures(SpawnCompletion::<R, P, W>::new, (), slot),
        call_ensures(SpawnHandle::new, (), handle),
    ensures
        slot.stage is Empty,
        slot.result is None,
        slot.waker is None,
        handle.attached,
{
}

/// Whatever the outcome, a value or a panic, the worker puts it in the slot and gets the waker that
/// was there before. None stays behind.
pub proof fn worker_wakes_whatever_the_outcome<R, P, W>(
    slot: &mut SpawnCompletion<R, P, W>,
    outcome: Result<R, P>,
    waker: Option<W>,
)
    requires
        call_ensures(SpawnCompletion::<R, P, W>::complete, (slot, outcome), waker),
    ensures
        waker == old(slot).waker,
        final(slot).waker is None,
        final(slot).result == Some(outcome),
        final(slot).stage is Ready,
{
}

/// What the parts of that do: each does one thing and leaves the rest alone.
pub proof fn slot_parts_do_one_thing<R, P, W>(
    storing: &mut SpawnCompletion<R, P, W>,
    outcome: Result<R, P>,
    waking: &mut SpawnCompletion<R, P, W>,
    woken: Option<W>,
    registering: &mut SpawnCompletion<R, P, W>,
    waker: W,
)
    requires
        call_ensures(SpawnCompletion::<R, P, W>::store, (storing, outcome), ()),
        call_ensures(SpawnCompletion::<R, P, W>::wake, (waking,), woken),
        call_ensures(SpawnCompletion::<R, P, W>::register, (registering, waker), ()),
    ensures
        final(storing).result == Some(outcome),
        final(storing).stage is Ready,
        final(storing).waker == old(storing).waker,
        woken == old(waking).waker,
        final(waking).waker is None,
        final(waking).result == old(waking).result,
        final(waking).stage == old(waking).stage,
        final(registering).waker == Some(waker),
        final(registering).result == old(registering).result,
        final(registering).stage == old(registering).stage,
{
}

/// A slot that ends gives the outcome that nobody took.
pub proof fn ended_slot_gives_the_outcome<R, P, W>(
    slot: SpawnCompletion<R, P, W>,
    left: Option<Result<R, P>>,
)
    requires
        call_ensures(SpawnCompletion::<R, P, W>::on_drop, (slot,), left),
    ensures
        left == slot.result,
{
}

/// A look at a slot takes the outcome if it is there: a value as it is, a panic to go on. It leaves
/// the waker. Where there is no outcome it changes nothing.
pub proof fn look_takes_the_outcome<R, P, W>(
    handle: &mut SpawnHandle,
    slot: &mut SpawnCompletion<R, P, W>,
    polled: SlotPoll<R, P>,
)
    requires
        call_ensures(SpawnHandle::check::<R, P, W>, (handle, slot), polled),
    ensures
        old(slot).stage is Ready ==> (old(slot).result matches Some(Ok(value)) ==> polled
            == SlotPoll::<R, P>::Ready(value)),
        old(slot).stage is Ready ==> (old(slot).result matches Some(Err(payload)) ==> polled
            == SlotPoll::<R, P>::Resume(payload)),
        old(slot).stage is Ready ==> !final(handle).attached && final(slot).stage is Taken
            && final(slot).result is None && final(slot).waker == old(slot).waker,
        old(slot).stage !is Ready ==> polled is Pending && final(handle).attached && *final(slot)
            == *old(slot),
{
}

/// A poll gives what a look gives, and leaves its waker where that is nothing.
pub proof fn poll_takes_the_outcome<R, P, W>(
    handle: &mut SpawnHandle,
    slot: &mut SpawnCompletion<R, P, W>,
    waker: W,
    polled: SlotPoll<R, P>,
)
    requires
        call_ensures(SpawnHandle::poll::<R, P, W>, (handle, slot, waker), polled),
    ensures
        old(slot).stage is Ready ==> (old(slot).result matches Some(Ok(value)) ==> polled
            == SlotPoll::<R, P>::Ready(value)),
        old(slot).stage is Ready ==> (old(slot).result matches Some(Err(payload)) ==> polled
            == SlotPoll::<R, P>::Resume(payload)),
        old(slot).stage is Ready ==> !final(handle).attached && final(slot).stage is Taken
            && final(slot).result is None && final(slot).waker == old(slot).waker,
        old(slot).stage !is Ready ==> polled is Pending && final(handle).attached
            && final(slot).waker == Some(waker) && final(slot).stage == old(slot).stage
                && final(slot).result == old(
            slot,
        ).result,
{
}

/// What the worker put in is what the awaiter gets, and one that polled before is woken for it.
pub proof fn slot_hands_the_outcome_over<R, P, W>(
    early: &mut SpawnHandle,
    empty: &mut SpawnCompletion<R, P, W>,
    waker: W,
    before: SlotPoll<R, P>,
    filling: &mut SpawnCompletion<R, P, W>,
    outcome: Result<R, P>,
    woken: Option<W>,
    late: &mut SpawnHandle,
    full: &mut SpawnCompletion<R, P, W>,
    again: W,
    after: SlotPoll<R, P>,
)
    requires
        empty.stage is Empty,
        call_ensures(SpawnHandle::poll::<R, P, W>, (early, empty, waker), before),
        *filling == *final(empty),
        call_ensures(SpawnCompletion::<R, P, W>::complete, (filling, outcome), woken),
        *full == *final(filling),
        call_ensures(SpawnHandle::poll::<R, P, W>, (late, full, again), after),
    ensures
        before is Pending,
        woken == Some(waker),
        outcome matches Ok(value) ==> after == SlotPoll::<R, P>::Ready(value),
        outcome matches Err(payload) ==> after == SlotPoll::<R, P>::Resume(payload),
        final(full).result is None,
{
}

/// The future of a job holds what schedules it and what waits for it, and has scheduled nothing.
pub proof fn new_future_has_scheduled_nothing<A, T>(
    pool: Threadpool,
    runnable: A,
    task: T,
    fresh: SpawnFuture<A, T>,
    spawned: SpawnFuture<A, T>,
)
    requires
        call_ensures(SpawnFuture::<A, T>::new, (runnable, task), fresh),
        call_ensures(Threadpool::spawn_local::<A, T>, (&pool, runnable, task), spawned),
    ensures
        fresh.state == (State::Pending { runnable, task }),
        spawned.state == (State::Pending { runnable, task }),
{
}

/// The first poll hands the job to the scheduler. Every poll asks the waiting side: without an
/// outcome the future goes on to wait with it; with one, it gives that, a value or a panic, and is
/// done.
pub proof fn poll_gives_what_the_waiting_side_gave<
    A,
    T,
    R,
    P,
    S: FnOnce(A),
    Q: FnOnce(&mut T) -> Option<Result<R, P>>,
>(future: &mut SpawnFuture<A, T>, schedule: S, poll_task: Q, polled: SpawnPoll<R, P>)
    requires
        call_ensures(
            SpawnFuture::<A, T>::poll::<R, P, S, Q>,
            (future, schedule, poll_task),
            polled,
        ),
        future.state !is Done,
    ensures
        old(future).state matches State::Pending { runnable, .. } ==> call_ensures(
            schedule,
            (runnable,),
            (),
        ),
        exists|task: &mut T, outcome: Option<Result<R, P>>|
            {
                &&& #[trigger] call_ensures(poll_task, (task,), outcome)
                &&& match old(future).state {
                    State::Pending { runnable, task: waiting } => *task == waiting,
                    State::Scheduled(waiting) => *task == waiting,
                    State::Done => true,
                }
                &&& match outcome {
                    None => polled is Pending && final(future).state == State::<A, T>::Scheduled(
                        *final(task),
                    ),
                    Some(Ok(value)) => polled == SpawnPoll::<R, P>::Ready(value)
                        && final(future).state is Done,
                    Some(Err(payload)) => polled == SpawnPoll::<R, P>::Resume(payload)
                        && final(future).state is Done,
                }
            },
{
}

/// A future that ends before it was polled gives both sides back. One that ends while its job is
/// scheduled asks to wait for it. One that has resolved asks for nothing.
pub proof fn dropped_future_waits_for_a_scheduled_job<A, T>(
    future: &mut SpawnFuture<A, T>,
    action: DropAction<A, T>,
)
    requires
        call_ensures(SpawnFuture::<A, T>::on_drop, (future,), action),
    ensures
        final(future).state is Done,
        old(future).state matches State::Pending { runnable, task } ==> action
            == (DropAction::Discard { runnable, task }),
        old(future).state matches State::Scheduled(task) ==> action == DropAction::<A, T>::Cancel(
            task,
        ),
        old(future).state is Done ==> action is Nothing,
{
}

} // verus!
