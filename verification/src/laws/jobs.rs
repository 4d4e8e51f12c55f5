//! What becomes of a job, its outcome and its waker.

use crate::job::{Finished, Job, JobHandle, JobPoll, JobTable, Released};
use crate::task::{OwnedTask, TaskVTable};
use vstd::prelude::*;

verus! {

/// Whatever a job comes to, a value or a panic, the waker to be woken after its run is the one that
/// was in it before, and none stays behind.
pub proof fn waker_is_woken_whatever_the_outcome<F: FnOnce() -> Result<R, P>, R, P, W>(
    owned: OwnedTask<Job<F, R, P, W>, JobTable>,
    left: Finished<F, R, P, W>,
)
    requires
        call_ensures(OwnedTask::<Job<F, R, P, W>, JobTable>::run, (owned,), left),
    ensures
        left.waker == owned.task.waker,
        left.job.waker is None,
{
}

/// The same where the job is run in place.
pub proof fn waker_is_woken_in_place<F: FnOnce() -> Result<R, P>, R, P, W>(
    job: &mut Job<F, R, P, W>,
    left: (Option<W>, Released<F, R, P>),
)
    requires
        call_ensures(Job::<F, R, P, W>::call_worker, (job,), left),
    ensures
        left.0 == old(job).waker,
        final(job).waker is None,
{
}

/// A job that is dropped before it ran wakes the waker that was in it, too.
pub proof fn waker_is_woken_by_a_drop<F, R, P, W>(
    owned: OwnedTask<Job<F, R, P, W>, JobTable>,
    left: Finished<F, R, P, W>,
    job: &mut Job<F, R, P, W>,
    kept: (Option<W>, Released<F, R, P>),
)
    requires
        call_ensures(OwnedTask::<Job<F, R, P, W>, JobTable>::discard, (owned,), left),
        call_ensures(Job::<F, R, P, W>::drop_worker, (job,), kept),
    ensures
        left.waker == owned.task.waker,
        left.job.waker is None,
        kept.0 == old(job).waker,
        final(job).waker is None,
{
}

/// What a run leaves for `outcome`: for an awaiter that still refers to the job, the outcome in its
/// slot; with the last reference, the outcome at once. The closure is gone.
pub open spec fn left_for<F, R, P, W>(
    refs: usize,
    after: Job<F, R, P, W>,
    released: Released<F, R, P>,
    outcome: Result<R, P>,
) -> bool {
    &&& after.closure is None
    &&& after.stage is Ready
    &&& after.refs == refs - 1
    &&& refs == 2 ==> after.result == Some(outcome) && released is Live
    &&& refs == 1 ==> after.result is None && released is Freed && released->result == Some(outcome)
        && released->closure is None
}

/// A run leaves what the job's own closure gave.
pub proof fn run_leaves_the_outcome<F: FnOnce() -> Result<R, P>, R, P, W>(
    owned: OwnedTask<Job<F, R, P, W>, JobTable>,
    left: Finished<F, R, P, W>,
    job: &mut Job<F, R, P, W>,
    kept: (Option<W>, Released<F, R, P>),
)
    requires
        call_ensures(OwnedTask::<Job<F, R, P, W>, JobTable>::run, (owned,), left),
        1 <= owned.task.refs <= 2,
        call_ensures(Job::<F, R, P, W>::call_worker, (job,), kept),
        1 <= job.refs <= 2,
    ensures
        exists|outcome: Result<R, P>| #[trigger]
            call_ensures(owned.task.closure->0, (), outcome) && left_for(
                owned.task.refs,
                left.job,
                left.released,
                outcome,
            ),
        exists|outcome: Result<R, P>| #[trigger]
            call_ensures(old(job).closure->0, (), outcome) && left_for(
                old(job).refs,
                *final(job),
                kept.1,
                outcome,
            ),
{
}

/// A drop leaves no outcome and no closure, and tells the awaiter, if there is one.
pub proof fn drop_leaves_nothing<F, R, P, W>(
    owned: OwnedTask<Job<F, R, P, W>, JobTable>,
    left: Finished<F, R, P, W>,
    job: &mut Job<F, R, P, W>,
    kept: (Option<W>, Released<F, R, P>),
)
    requires
        call_ensures(OwnedTask::<Job<F, R, P, W>, JobTable>::discard, (owned,), left),
        1 <= owned.task.refs <= 2,
        owned.task.result is None,
        call_ensures(Job::<F, R, P, W>::drop_worker, (job,), kept),
        1 <= job.refs <= 2,
        job.result is None,
    ensures
        left.job.stage is Aborted,
        left.job.closure is None,
        left.job.result is None,
        left.job.refs == owned.task.refs - 1,
        owned.task.refs == 2 ==> left.released is Live,
        owned.task.refs == 1 ==> left.released == (Released::<F, R, P>::Freed {
            closure: None,
            result: None,
        }),
        final(job).stage is Aborted,
        final(job).closure is None,
        final(job).result is None,
        final(job).refs == old(job).refs - 1,
        old(job).refs == 2 ==> kept.1 is Live,
        old(job).refs == 1 ==> kept.1 == (Released::<F, R, P>::Freed {
            closure: None,
            result: None,
        }),
{
}

/// A new job holds its closure, is referred to by both sides, and holds nothing else.
pub proof fn new_job_holds_its_closure<F: FnOnce() -> Result<R, P>, R, P, W>(
    closure: F,
    sides: (OwnedTask<Job<F, R, P, W>, JobTable>, JobHandle),
)
    requires
        call_ensures(Job::<F, R, P, W>::allocate, (closure,), sides),
    ensures
        sides.0.task.closure == Some(closure),
        sides.0.task.refs == 2,
        sides.0.task.stage is Empty,
        sides.0.task.result is None,
        sides.0.task.waker is None,
        sides.1.attached,
{
}

/// What a worker's parts do: the closure comes out as it went in, the outcome is put in its slot,
/// and the waker comes out as it was left. Each leaves the rest alone.
pub proof fn worker_parts_do_one_thing<F, R, P, W>(
    starting: &mut Job<F, R, P, W>,
    closure: F,
    storing: &mut Job<F, R, P, W>,
    outcome: Result<R, P>,
    waking: &mut Job<F, R, P, W>,
    waker: Option<W>,
)
    requires
        call_ensures(Job::<F, R, P, W>::start, (starting,), closure),
        call_ensures(Job::<F, R, P, W>::store, (storing, outcome), ()),
        call_ensures(Job::<F, R, P, W>::wake, (waking,), waker),
    ensures
        old(starting).closure == Some(closure),
        final(starting).closure is None,
        final(starting).stage == old(starting).stage,
        final(starting).refs == old(starting).refs,
        final(starting).waker == old(starting).waker,
        final(starting).result == old(starting).result,
        final(storing).result == Some(outcome),
        final(storing).stage is Ready,
        final(storing).refs == old(storing).refs,
        final(storing).waker == old(storing).waker,
        final(storing).closure == old(storing).closure,
        waker == old(waking).waker,
        final(waking).waker is None,
        final(waking).stage == old(waking).stage,
        final(waking).refs == old(waking).refs,
        final(waking).closure == old(waking).closure,
        final(waking).result == old(waking).result,
{
}

/// A waker that is left is the one that is woken, and takes the place of an earlier one.
pub proof fn last_waker_left_is_woken<F, R, P, W>(
    registering: &mut Job<F, R, P, W>,
    waker: W,
    waking: &mut Job<F, R, P, W>,
    woken: Option<W>,
)
    requires
        call_ensures(Job::<F, R, P, W>::register, (registering, waker), ()),
        call_ensures(Job::<F, R, P, W>::wake, (waking,), woken),
        *waking == *final(registering),
    ensures
        woken == Some(waker),
        final(registering).stage == old(registering).stage,
        final(registering).refs == old(registering).refs,
        final(registering).closure == old(registering).closure,
        final(registering).result == old(registering).result,
{
}

/// Whoever gives up the last reference gets what is in the job, and nobody else does.
pub proof fn last_reference_gets_what_is_left<F, R, P, W>(
    job: &mut Job<F, R, P, W>,
    released: Released<F, R, P>,
)
    requires
        call_ensures(Job::<F, R, P, W>::release_ref, (job,), released),
        job.refs > 0,
    ensures
        final(job).refs == old(job).refs - 1,
        final(job).stage == old(job).stage,
        final(job).waker == old(job).waker,
        old(job).refs == 1 ==> released == (Released::Freed {
            closure: old(job).closure,
            result: old(job).result,
        }) && final(job).closure is None && final(job).result is None,
        old(job).refs > 1 ==> released is Live && final(job).closure == old(job).closure
            && final(job).result == old(job).result,
{
}

/// A look at a job takes the outcome if it is there: a value as it is, a panic to go on. A job that
/// was dropped is told as such. In both cases the awaiter's reference goes. A job that is not done
/// is left alone.
pub proof fn look_gives_what_is_there<F, R, P, W>(
    handle: &mut JobHandle,
    job: &mut Job<F, R, P, W>,
    polled: JobPoll<R, P>,
)
    requires
        call_ensures(JobHandle::check::<F, R, P, W>, (handle, job), polled),
        job.refs > 0,
    ensures
        old(job).stage is Ready ==> (old(job).result matches Some(Ok(value)) ==> polled
            == JobPoll::<R, P>::Ready(value)),
        old(job).stage is Ready ==> (old(job).result matches Some(Err(payload)) ==> polled
            == JobPoll::<R, P>::Resume(payload)),
        old(job).stage is Ready ==> final(job).stage is Taken && final(job).result is None,
        old(job).stage is Aborted ==> final(job).stage is Aborted && polled == JobPoll::<
            R,
            P,
        >::Aborted("affinitypool job aborted before execution"),
        old(job).stage is Ready || old(job).stage is Aborted ==> !final(handle).attached
            && final(job).refs == old(job).refs - 1 && final(job).waker == old(job).waker,
        old(job).stage is Empty || old(job).stage is Taken ==> polled is Pending
            && final(handle).attached && *final(job) == *old(job),
{
}

/// A poll gives what a look gives. Where that is nothing, it leaves its waker, and changes nothing
/// else.
pub proof fn poll_gives_what_is_there<F, R, P, W>(
    handle: &mut JobHandle,
    job: &mut Job<F, R, P, W>,
    waker: W,
    polled: JobPoll<R, P>,
)
    requires
        call_ensures(JobHandle::poll::<F, R, P, W>, (handle, job, waker), polled),
        job.refs > 0,
    ensures
        old(job).stage is Ready ==> (old(job).result matches Some(Ok(value)) ==> polled
            == JobPoll::<R, P>::Ready(value)),
        old(job).stage is Ready ==> (old(job).result matches Some(Err(payload)) ==> polled
            == JobPoll::<R, P>::Resume(payload)),
        old(job).stage is Ready ==> final(job).stage is Taken && final(job).result is None,
        old(job).stage is Aborted ==> final(job).stage is Aborted && polled == JobPoll::<
            R,
            P,
        >::Aborted("affinitypool job aborted before execution"),
        old(job).stage is Ready || old(job).stage is Aborted ==> !final(handle).attached
            && final(job).refs == old(job).refs - 1 && final(job).waker == old(job).waker,
        old(job).stage is Empty || old(job).stage is Taken ==> polled is Pending
            && final(handle).attached && final(job).waker == Some(waker)
                && final(job).stage == old(job).stage
            && final(job).refs == old(job).refs && final(job).closure == old(job).closure
                && final(job).result == old(job).result,
{
}

/// An awaiter that polls after the run gets what the job's own closure gave: the value, or the
/// panic.
pub proof fn awaiter_gets_what_the_closure_gave<F: FnOnce() -> Result<R, P>, R, P, W>(
    owned: OwnedTask<Job<F, R, P, W>, JobTable>,
    left: Finished<F, R, P, W>,
    handle: &mut JobHandle,
    job: &mut Job<F, R, P, W>,
    waker: W,
    polled: JobPoll<R, P>,
)
    requires
        call_ensures(OwnedTask::<Job<F, R, P, W>, JobTable>::run, (owned,), left),
        owned.task.refs == 2,
        *job == left.job,
        call_ensures(JobHandle::poll::<F, R, P, W>, (handle, job, waker), polled),
    ensures
        exists|outcome: Result<R, P>| #[trigger]
            call_ensures(owned.task.closure->0, (), outcome) && match outcome {
                Ok(value) => polled == JobPoll::<R, P>::Ready(value),
                Err(payload) => polled == JobPoll::<R, P>::Resume(payload),
            },
{
}

/// An awaiter that polls before the run is woken by it: the waker that it left is the one to be
/// woken.
pub proof fn early_awaiter_is_woken<F: FnOnce() -> Result<R, P>, R, P, W>(
    handle: &mut JobHandle,
    job: &mut Job<F, R, P, W>,
    waker: W,
    polled: JobPoll<R, P>,
    owned: OwnedTask<Job<F, R, P, W>, JobTable>,
    left: Finished<F, R, P, W>,
)
    requires
        job.stage is Empty,
        call_ensures(JobHandle::poll::<F, R, P, W>, (handle, job, waker), polled),
        owned.task == *final(job),
        call_ensures(OwnedTask::<Job<F, R, P, W>, JobTable>::run, (owned,), left),
    ensures
        polled is Pending,
        left.waker == Some(waker),
{
}

/// An awaiter that ends gives up its reference, if it still holds one, and gets what is left with
/// the last.
pub proof fn ended_awaiter_holds_nothing<F, R, P, W>(
    handle: &mut JobHandle,
    job: &mut Job<F, R, P, W>,
    released: Released<F, R, P>,
)
    requires
        call_ensures(JobHandle::on_drop::<F, R, P, W>, (handle, job), released),
        handle.attached ==> job.refs > 0,
    ensures
        !final(handle).attached,
        !old(handle).attached ==> *final(job) == *old(job) && released is Live,
        old(handle).attached ==> final(job).refs == old(job).refs - 1 && final(job).stage == old(
            job,
        ).stage && final(job).waker == old(job).waker,
        old(handle).attached && old(job).refs == 1 ==> released == (Released::Freed {
            closure: old(job).closure,
            result: old(job).result,
        }) && final(job).closure is None && final(job).result is None,
        old(handle).attached && old(job).refs > 1 ==> released is Live && final(job).closure == old(
            job,
        ).closure && final(job).result == old(job).result,
{
}

/// A task is run by what its table calls, or given up by what its table drops with, on that task.
pub proof fn task_goes_to_its_table<T, C: FnOnce(T) -> O, D: FnOnce(T) -> O, O>(
    task: T,
    table: TaskVTable<C, D>,
    owned: OwnedTask<T, TaskVTable<C, D>>,
    run: O,
    dropped: O,
)
    requires
        call_ensures(OwnedTask::<T, TaskVTable<C, D>>::from_raw, (task, table), owned),
        call_ensures(OwnedTask::<T, TaskVTable<C, D>>::run::<O>, (owned,), run),
        call_ensures(OwnedTask::<T, TaskVTable<C, D>>::discard::<O>, (owned,), dropped),
    ensures
        call_ensures(table.call, (task,), run),
        call_ensures(table.drop, (task,), dropped),
{
}

} // verus!
