//! A job that its worker and its awaiter share.
//!
//! A job holds the closure to run, the slot for its outcome, the awaiter's waker and a count of
//! references: one for the worker, one for the awaiter. Whoever gives up the last reference gets
//! what is left in the job, so that nothing in it is lost and nothing is released twice.
//!
//! ```text
//! Empty --(worker runs it)--> Ready --(awaiter takes the outcome)--> Taken
//!   \--(worker drops it)--> Aborted
//! ```

use crate::task::OwnedTask;
use vstd::prelude::*;

verus! {

/// How far a job has come.
#[derive(Clone, Copy, PartialEq, Eq, Structural, Debug)]
pub enum Stage {
    /// The worker has not finished it.
    Empty,
    /// The worker has run it, and the outcome is in its slot.
    Ready,
    /// The awaiter has taken the outcome.
    Taken,
    /// The worker has dropped it without running it.
    Aborted,
}

/// A job with the closure `F`, an outcome that is a value `R` or a panic `P`, and the waker `W`.
pub struct Job<F, R, P, W> {
    pub stage: Stage,
    pub refs: usize,
    pub waker: Option<W>,
    pub closure: Option<F>,
    pub result: Option<Result<R, P>>,
}

/// What comes of giving up a reference.
pub enum Released<F, R, P> {
    /// The other side still holds one.
    Live,
    /// It was the last: the job is gone, and this is what was left in it.
    Freed { closure: Option<F>, result: Option<Result<R, P>> },
}

/// What the worker's side leaves behind.
pub struct Finished<F, R, P, W> {
    /// The job.
    pub job: Job<F, R, P, W>,
    /// The waker to be woken, if the awaiter has registered one.
    pub waker: Option<W>,
    /// What came of the worker's reference.
    pub released: Released<F, R, P>,
}

/// What can be done with a job by its worker: it runs the job, or drops it.
#[derive(Clone, Copy, PartialEq, Eq, Structural, Debug)]
pub struct JobTable;

/// The awaiter's side of a job.
pub struct JobHandle {
    /// The awaiter still holds its reference.
    pub attached: bool,
}

/// What a poll gives.
pub enum JobPoll<R, P> {
    /// The job has not finished.
    Pending,
    /// The job finished with a value.
    Ready(R),
    /// The job panicked, and the panic goes on in the awaiter.
    Resume(P),
    /// The job was dropped before it ran, and the awaiter panics with this message.
    Aborted(&'static str),
}

/// The message with which an awaiter panics when its job was dropped before it ran.
pub const ABORTED_MESSAGE: &'static str = "affinitypool job aborted before execution";

/// What a poll gives for an outcome.
pub open spec fn ready_poll<R, P>(outcome: Result<R, P>) -> JobPoll<R, P> {
    match outcome {
        Ok(value) => JobPoll::Ready(value),
        Err(payload) => JobPoll::Resume(payload),
    }
}

impl<F, R, P, W> Job<F, R, P, W> {
    /// The outcome is in its slot exactly while the job is ready, the closure is gone once the
    /// worker is done with it, and a job that nobody refers to is hollow.
    pub open spec fn wf(self) -> bool {
        &&& self.refs <= 2
        &&& self.result is Some ==> self.stage is Ready
        &&& self.stage is Ready && self.refs > 0 ==> self.result is Some
        &&& self.stage !is Empty ==> self.closure is None
        &&& self.refs == 0 ==> self.closure is None && self.result is None
    }

    /// The worker has not begun with the job.
    pub open spec fn can_start(self) -> bool {
        self.wf() && self.stage is Empty && self.closure is Some
    }

    /// A new job for a closure.
    pub open spec fn fresh(closure: F) -> Job<F, R, P, W> {
        Job { stage: Stage::Empty, refs: 2, waker: None, closure: Some(closure), result: None }
    }

    /// The job after the worker has taken the closure out.
    pub open spec fn started(self) -> Job<F, R, P, W> {
        Job { closure: None, ..self }
    }

    /// The job after the worker has stored the outcome.
    pub open spec fn completed(self, outcome: Result<R, P>) -> Job<F, R, P, W> {
        Job { stage: Stage::Ready, result: Some(outcome), ..self }
    }

    /// The job after the worker has dropped the closure.
    pub open spec fn aborted(self) -> Job<F, R, P, W> {
        Job { stage: Stage::Aborted, closure: None, ..self }
    }

    /// The job after its awaiter has been woken.
    pub open spec fn woken(self) -> Job<F, R, P, W> {
        Job { waker: None, ..self }
    }

    /// The job after its awaiter has registered a waker.
    pub open spec fn registered(self, waker: W) -> Job<F, R, P, W> {
        Job { waker: Some(waker), ..self }
    }

    /// The job after a reference has been given up.
    pub open spec fn released(self) -> Job<F, R, P, W> {
        if self.refs == 1 {
            Job { refs: 0, closure: None, result: None, ..self }
        } else {
            Job { refs: (self.refs - 1) as usize, ..self }
        }
    }

    /// What the one who gives up a reference gets.
    pub open spec fn release_result(self) -> Released<F, R, P> {
        if self.refs == 1 {
            Released::Freed { closure: self.closure, result: self.result }
        } else {
            Released::Live
        }
    }

    /// The job after its awaiter has taken the outcome and given up its reference.
    pub open spec fn taken(self) -> Job<F, R, P, W> {
        Job { stage: Stage::Taken, result: None, ..self }.released()
    }

    /// Makes a job, with the worker's side and the awaiter's side of it.
    pub fn allocate(closure: F) -> (sides: (OwnedTask<Job<F, R, P, W>, JobTable>, JobHandle)) where
        F: FnOnce() -> Result<R, P>,

        ensures
            sides.0.task == Job::<F, R, P, W>::fresh(closure),
            sides.0.task.wf(),
            sides.1.attached,
    {
        let job = Job {
            stage: Stage::Empty,
            refs: 2,
            waker: None,
            closure: Some(closure),
            result: None,
        };
        (OwnedTask::from_raw(job, JobTable), JobHandle::new())
    }

    /// Worker's side: takes the closure out.
    pub fn start(&mut self) -> (closure: F)
        requires
            old(self).wf(),
            old(self).closure is Some,
        ensures
            final(self).wf(),
            *final(self) == old(self).started(),
            Some(closure) == old(self).closure,
    {
        self.closure.take().unwrap()
    }

    /// Worker's side: stores the outcome.
    pub fn store(&mut self, outcome: Result<R, P>)
        requires
            old(self).wf(),
            old(self).stage is Empty,
            old(self).closure is None,
            old(self).refs > 0,
        ensures
            final(self).wf(),
            *final(self) == old(self).completed(outcome),
    {
        self.result = Some(outcome);
        self.stage = Stage::Ready;
    }

    /// Worker's side: takes the waker that is to be woken.
    pub fn wake(&mut self) -> (waker: Option<W>)
        requires
            old(self).wf(),
        ensures
            final(self).wf(),
            *final(self) == old(self).woken(),
            waker == old(self).waker,
    {
        self.waker.take()
    }

    /// Awaiter's side: leaves the waker that is to be woken. It takes the place of an earlier one.
    pub fn register(&mut self, waker: W)
        requires
            old(self).wf(),
        ensures
            final(self).wf(),
            *final(self) == old(self).registered(waker),
    {
        self.waker = Some(waker);
    }

    /// Worker's side: runs the closure, stores what it gave, wakes the awaiter, and gives up the
    /// worker's reference.
    pub fn call_worker(&mut self) -> (left: (Option<W>, Released<F, R, P>))
        where F: FnOnce() -> Result<R, P>
        requires
            old(self).can_start(),
            call_requires(old(self).closure->0, ()),
        ensures
            final(self).wf(),
            exists|outcome: Result<R, P>| #[trigger]
                call_ensures(old(self).closure->0, (), outcome) && ({
                    let done = old(self).started().completed(outcome).woken();
                    *final(self) == done.released() && left.1 == done.release_result()
                }),
            left.0 == old(self).waker,
    {
        let closure = self.start();
        let outcome = closure();
        self.store(outcome);
        let waker = self.wake();
        let released = self.release_ref();
        (waker, released)
    }

    /// Worker's side: drops the closure, wakes the awaiter so that it does not wait forever, and
    /// gives up the worker's reference.
    pub fn drop_worker(&mut self) -> (left: (Option<W>, Released<F, R, P>))
        requires
            old(self).can_start(),
        ensures
            final(self).wf(),
            *final(self) == old(self).aborted().woken().released(),
            left.0 == old(self).waker,
            left.1 == old(self).aborted().woken().release_result(),
    {
        let _closure = self.closure.take();
        self.stage = Stage::Aborted;
        let waker = self.wake();
        let released = self.release_ref();
        (waker, released)
    }

    /// Gives up a reference. With the last one goes what is still in the job: an outcome that
    /// nobody took, or a closure that nobody ran.
    pub fn release_ref(&mut self) -> (released: Released<F, R, P>)
        requires
            old(self).wf(),
            old(self).refs > 0,
        ensures
            final(self).wf(),
            *final(self) == old(self).released(),
            released == old(self).release_result(),
    {
        self.refs = self.refs - 1;
        if self.refs == 0 {
            Released::Freed { closure: self.closure.take(), result: self.result.take() }
        } else {
            Released::Live
        }
    }
}

/// What the worker's side leaves behind when the closure gave `outcome`.
pub open spec fn finished<F, R, P, W>(
    job: Job<F, R, P, W>,
    outcome: Result<R, P>,
) -> Finished<F, R, P, W> {
    let done = job.started().completed(outcome).woken();
    Finished { job: done.released(), waker: job.waker, released: done.release_result() }
}

/// What the worker's side leaves behind when it drops the closure.
pub open spec fn given_up<F, R, P, W>(job: Job<F, R, P, W>) -> Finished<F, R, P, W> {
    let done = job.aborted().woken();
    Finished { job: done.released(), waker: job.waker, released: done.release_result() }
}

impl<F, R, P, W> OwnedTask<Job<F, R, P, W>, JobTable> {
    /// Runs the job as its worker.
    pub fn run(self) -> (left: Finished<F, R, P, W>) where F: FnOnce() -> Result<R, P>
        requires
            self.task.can_start(),
            call_requires(self.task.closure->0, ()),
        ensures
            left.job.wf(),
            exists|outcome: Result<R, P>| #[trigger]
                call_ensures(self.task.closure->0, (), outcome) && left == finished(
                    self.task,
                    outcome,
                ),
    {
        let mut job = self.task;
        let (waker, released) = job.call_worker();
        Finished { job, waker, released }
    }

    /// Drops the job as its worker.
    pub fn discard(self) -> (left: Finished<F, R, P, W>)
        requires
            self.task.can_start(),
        ensures
            left.job.wf(),
            left == given_up(self.task),
    {
        let mut job = self.task;
        let (waker, released) = job.drop_worker();
        Finished { job, waker, released }
    }
}

impl JobHandle {
    /// The awaiter's side of a new job.
    fn new() -> (handle: JobHandle)
        ensures
            handle.attached,
    {
        JobHandle { attached: true }
    }

    /// Takes the outcome and gives up the awaiter's reference.
    fn take_ready<F, R, P, W>(&mut self, job: &mut Job<F, R, P, W>) -> (outcome: Result<R, P>)
        requires
            old(self).attached,
            old(job).wf(),
            old(job).stage is Ready,
            old(job).refs > 0,
        ensures
            !final(self).attached,
            final(job).wf(),
            *final(job) == old(job).taken(),
            Some(outcome) == old(job).result,
    {
        self.attached = false;
        let outcome = job.result.take().unwrap();
        job.stage = Stage::Taken;
        let _released = job.release_ref();
        outcome
    }

    /// Looks at the job: if the worker is done with it, takes what came of it and gives up the
    /// awaiter's reference; if not, changes nothing.
    pub fn check<F, R, P, W>(&mut self, job: &mut Job<F, R, P, W>) -> (polled: JobPoll<R, P>)
        requires
            old(self).attached,
            old(job).wf(),
            old(job).refs > 0,
        ensures
            final(job).wf(),
            match old(job).stage {
                Stage::Ready => *final(job) == old(job).taken() && !final(self).attached && polled
                    == ready_poll(old(job).result->0),
                Stage::Aborted => *final(job) == old(job).released() && !final(self).attached
                    && polled
                    == JobPoll::<R, P>::Aborted(ABORTED_MESSAGE),
                _ => *final(job) == *old(job) && final(self).attached && polled is Pending,
            },
    {
        match job.stage {
            Stage::Ready => match self.take_ready(job) {
                Ok(value) => JobPoll::Ready(value),
                Err(payload) => JobPoll::Resume(payload),
            },
            Stage::Aborted => {
                self.attached = false;
                let _released = job.release_ref();
                JobPoll::Aborted(ABORTED_MESSAGE)
            },
            _ => JobPoll::Pending,
        }
    }

    /// Polls. If the worker is not done with the job, the waker is left there, and the job is
    /// looked at once more, so that a worker that came between is not missed.
    pub fn poll<F, R, P, W>(&mut self, job: &mut Job<F, R, P, W>, waker: W) -> (polled: JobPoll<
        R,
        P,
    >)
        requires
            old(self).attached,
            old(job).wf(),
            old(job).refs > 0,
        ensures
            final(job).wf(),
            match old(job).stage {
                Stage::Ready => *final(job) == old(job).taken() && !final(self).attached && polled
                    == ready_poll(old(job).result->0),
                Stage::Aborted => *final(job) == old(job).released() && !final(self).attached
                    && polled
                    == JobPoll::<R, P>::Aborted(ABORTED_MESSAGE),
                _ => *final(job) == old(job).registered(waker) && final(self).attached
                    && polled is Pending,
            },
    {
        match self.check(job) {
            JobPoll::Pending => {},
            polled => return polled,
        }
        job.register(waker);
        self.check(job)
    }

    /// Ends the awaiter's side: gives up its reference, if it still holds one.
    pub fn on_drop<F, R, P, W>(&mut self, job: &mut Job<F, R, P, W>) -> (released: Released<
        F,
        R,
        P,
    >)
        requires
            old(job).wf(),
            old(self).attached ==> old(job).refs > 0,
        ensures
            !final(self).attached,
            final(job).wf(),
            old(self).attached ==> *final(job) == old(job).released() && released == old(
                job,
            ).release_result(),
            !old(self).attached ==> *final(job) == *old(job) && released is Live,
    {
        if self.attached {
            self.attached = false;
            job.release_ref()
        } else {
            Released::Live
        }
    }
}

/// A step in the life of a job, by either side.
pub enum JobStep<R, P, W> {
    /// The worker takes the closure out.
    Start,
    /// The worker stores the outcome.
    Store(Result<R, P>),
    /// The worker drops the closure.
    Abort,
    /// The worker wakes the awaiter.
    Wake,
    /// The awaiter leaves its waker.
    Register(W),
    /// The awaiter takes the outcome and gives up its reference.
    Take,
    /// Either side gives up its reference.
    Release,
}

/// The step is possible.
pub open spec fn enabled<F, R, P, W>(job: Job<F, R, P, W>, step: JobStep<R, P, W>) -> bool {
    match step {
        JobStep::Start => job.stage is Empty && job.closure is Some,
        JobStep::Store(_) => job.stage is Empty && job.closure is None && job.refs > 0,
        JobStep::Abort => job.stage is Empty && job.closure is Some,
        JobStep::Wake | JobStep::Register(_) => true,
        JobStep::Take => job.stage is Ready && job.refs > 0,
        JobStep::Release => job.refs > 0,
    }
}

/// The job after the step.
pub open spec fn after<F, R, P, W>(
    job: Job<F, R, P, W>,
    step: JobStep<R, P, W>,
) -> Job<F, R, P, W> {
    match step {
        JobStep::Start => job.started(),
        JobStep::Store(outcome) => job.completed(outcome),
        JobStep::Abort => job.aborted(),
        JobStep::Wake => job.woken(),
        JobStep::Register(waker) => job.registered(waker),
        JobStep::Take => job.taken(),
        JobStep::Release => job.released(),
    }
}

/// The outcome that the step hands out, if any.
pub open spec fn handed<F, R, P, W>(
    job: Job<F, R, P, W>,
    step: JobStep<R, P, W>,
) -> Option<Result<R, P>> {
    match step {
        JobStep::Take => job.result,
        JobStep::Release => match job.release_result() {
            Released::Freed { result, .. } => result,
            Released::Live => None,
        },
        _ => None,
    }
}

/// What happened to the outcomes of a job in a run of steps.
pub struct Account<R, P> {
    /// The outcomes that the worker stored.
    pub stored: Seq<Result<R, P>>,
    /// The outcomes that were handed out, to the awaiter or with the last reference.
    pub handed: Seq<Result<R, P>>,
}

/// The job after a run of steps.
pub open spec fn job_after<F, R, P, W>(
    job: Job<F, R, P, W>,
    steps: Seq<JobStep<R, P, W>>,
) -> Job<F, R, P, W>
    decreases steps.len(),
{
    if steps.len() == 0 {
        job
    } else {
        after(job_after(job, steps.drop_last()), steps.last())
    }
}

/// Every step of the run is possible when it comes.
pub open spec fn is_run<F, R, P, W>(
    job: Job<F, R, P, W>,
    steps: Seq<JobStep<R, P, W>>,
) -> bool
    decreases steps.len(),
{
    steps.len() > 0 ==> is_run(job, steps.drop_last()) && enabled(
        job_after(job, steps.drop_last()),
        steps.last(),
    )
}

/// The account of a run of steps.
pub open spec fn account<F, R, P, W>(
    job: Job<F, R, P, W>,
    steps: Seq<JobStep<R, P, W>>,
) -> Account<R, P>
    decreases steps.len(),
{
    if steps.len() == 0 {
        Account { stored: Seq::empty(), handed: Seq::empty() }
    } else {
        let before = account(job, steps.drop_last());
        Account {
            stored: match steps.last() {
                JobStep::Store(outcome) => before.stored.push(outcome),
                _ => before.stored,
            },
            handed: match handed(job_after(job, steps.drop_last()), steps.last()) {
                Some(outcome) => before.handed.push(outcome),
                None => before.handed,
            },
        }
    }
}

/// Whatever the two sides of a job do, in whatever order, at most one outcome is stored. Unless it
/// is still in its slot it has been handed out, and only once: to the awaiter, or with the last
/// reference. Once nobody refers to the job, nothing is left in it.
pub proof fn outcome_is_handed_out_once<F, R, P, W>(closure: F, steps: Seq<JobStep<R, P, W>>)
    requires
        is_run(Job::<F, R, P, W>::fresh(closure), steps),
    ensures
        ({
            let start = Job::<F, R, P, W>::fresh(closure);
            let end = job_after(start, steps);
            let total = account(start, steps);
            &&& end.wf()
            &&& total.stored.len() <= 1
            &&& total.stored == match end.result {
                Some(outcome) => total.handed.push(outcome),
                None => total.handed,
            }
            &&& end.refs == 0 ==> end.result is None && end.closure is None && total.handed
                == total.stored
        }),
{
    lemma_account(closure, steps);
}

proof fn lemma_account<F, R, P, W>(closure: F, steps: Seq<JobStep<R, P, W>>)
    requires
        is_run(Job::<F, R, P, W>::fresh(closure), steps),
    ensures
        ({
            let start = Job::<F, R, P, W>::fresh(closure);
            let end = job_after(start, steps);
            let total = account(start, steps);
            &&& end.wf()
            &&& total.stored.len() <= 1
            &&& end.stage is Empty ==> total.stored.len() == 0
            &&& end.result matches Some(outcome) ==> total.handed.len() == 0 && total.stored
                == seq![outcome]
            &&& end.result is None ==> total.handed == total.stored
        }),
    decreases steps.len(),
{
    if steps.len() > 0 {
        lemma_account(closure, steps.drop_last());
        let start = Job::<F, R, P, W>::fresh(closure);
        let total = account(start, steps);
        let before = account(start, steps.drop_last());
        match job_after(start, steps).result {
            Some(outcome) => assert(total.stored =~= seq![outcome]),
            None => assert(total.handed =~= total.stored),
        }
    }
}

/// An awaiter that still waits when its job has been run finds the outcome of that job's own
/// closure, and takes it.
pub proof fn awaiter_gets_the_outcome_of_its_job<F, R, P, W>(
    job: Job<F, R, P, W>,
    outcome: Result<R, P>,
)
    requires
        job.can_start(),
        job.refs == 2,
    ensures
        ({
            let done = finished(job, outcome).job;
            &&& done.stage is Ready
            &&& done.result == Some(outcome)
            &&& done.refs == 1
            &&& done.taken().result is None
            &&& done.taken().refs == 0
        }),
{
}

/// A waker that the awaiter has left stays until the worker wakes the awaiter or the awaiter
/// leaves another. A worker stores the outcome, or drops the closure, before it wakes the awaiter:
/// so an awaiter that finds the job unfinished after it has left its waker will be woken.
pub proof fn waker_stays_until_woken<F, R, P, W>(
    job: Job<F, R, P, W>,
    waker: W,
    steps: Seq<JobStep<R, P, W>>,
)
    requires
        forall|i: int|
            0 <= i < steps.len() ==> (#[trigger] steps[i]) !is Wake && steps[i] !is Register,
    ensures
        job_after(job.registered(waker), steps).waker == Some(waker),
    decreases steps.len(),
{
    if steps.len() > 0 {
        assert forall|i: int| 0 <= i < steps.len() - 1 implies (#[trigger] steps.drop_last()[i])
            !is Wake && steps.drop_last()[i] !is Register by {
            assert(steps.drop_last()[i] == steps[i]);
        }
        waker_stays_until_woken(job, waker, steps.drop_last());
        assert(steps.last() == steps[steps.len() - 1]);
    }
}

} // verus!
