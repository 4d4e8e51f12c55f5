//! The slot through which a worker hands an outcome to an awaiter.
//!
//! ```text
//! Empty --(worker stores the outcome)--> Ready --(awaiter takes it)--> Taken
//! ```

use vstd::prelude::*;

verus! {

/// How far a slot has come.
#[derive(Clone, Copy, PartialEq, Eq, Structural, Debug)]
pub enum SlotStage {
    /// The worker has not stored the outcome.
    Empty,
    /// The outcome is there.
    Ready,
    /// The awaiter has taken the outcome.
    Taken,
}

/// A slot for an outcome that is a value `R` or a panic `P`, with the awaiter's waker `W`.
pub struct SpawnCompletion<R, P, W> {
    pub stage: SlotStage,
    pub result: Option<Result<R, P>>,
    pub waker: Option<W>,
}

/// The awaiter's side of a slot.
pub struct SpawnHandle {
    /// The awaiter has not taken the outcome.
    pub attached: bool,
}

/// What a poll gives.
pub enum SlotPoll<R, P> {
    /// The outcome is not there.
    Pending,
    /// The outcome is a value.
    Ready(R),
    /// The outcome is a panic, which goes on in the awaiter.
    Resume(P),
}

/// What a poll gives for an outcome.
pub open spec fn slot_poll<R, P>(outcome: Result<R, P>) -> SlotPoll<R, P> {
    match outcome {
        Ok(value) => SlotPoll::Ready(value),
        Err(payload) => SlotPoll::Resume(payload),
    }
}

impl<R, P, W> SpawnCompletion<R, P, W> {
    /// The outcome is in the slot exactly while the slot is ready.
    pub open spec fn wf(self) -> bool {
        self.result is Some <==> self.stage is Ready
    }

    /// An empty slot.
    pub open spec fn fresh() -> SpawnCompletion<R, P, W> {
        SpawnCompletion { stage: SlotStage::Empty, result: None, waker: None }
    }

    /// The slot after the worker has stored the outcome.
    pub open spec fn stored(self, outcome: Result<R, P>) -> SpawnCompletion<R, P, W> {
        SpawnCompletion { stage: SlotStage::Ready, result: Some(outcome), ..self }
    }

    /// The slot after its awaiter has been woken.
    pub open spec fn woken(self) -> SpawnCompletion<R, P, W> {
        SpawnCompletion { waker: None, ..self }
    }

    /// The slot after its awaiter has left a waker.
    pub open spec fn registered(self, waker: W) -> SpawnCompletion<R, P, W> {
        SpawnCompletion { waker: Some(waker), ..self }
    }

    /// The slot after its awaiter has taken the outcome.
    pub open spec fn taken(self) -> SpawnCompletion<R, P, W> {
        SpawnCompletion { stage: SlotStage::Taken, result: None, ..self }
    }

    /// An empty slot.
    pub fn new() -> (slot: SpawnCompletion<R, P, W>)
        ensures
            slot.wf(),
            slot == SpawnCompletion::<R, P, W>::fresh(),
    {
        SpawnCompletion { stage: SlotStage::Empty, result: None, waker: None }
    }

    /// Worker's side: stores the outcome.
    pub fn store(&mut self, value: Result<R, P>)
        requires
            old(self).wf(),
            old(self).stage !is Ready,
        ensures
            final(self).wf(),
            *final(self) == old(self).stored(value),
    {
        self.result = Some(value);
        self.stage = SlotStage::Ready;
    }

    /// Worker's side: takes the waker that is to be woken.
    pub fn wake(&mut self) -> (waker: Option<W>)
        requires
            old(self).wf(),
        ensures
            final(self).wf(),
            *final(self) == old(self).woken(),
            waker == old(self).waker,
    {
        self.waker.take()
    }

    /// Worker's side: stores the outcome and takes the waker that is to be woken. A worker does
    /// this once. It stores the outcome even if the awaiter is gone: the slot keeps it until it is
    /// dropped.
    pub fn complete(&mut self, value: Result<R, P>) -> (waker: Option<W>)
        requires
            old(self).wf(),
            old(self).stage !is Ready,
        ensures
            final(self).wf(),
            *final(self) == old(self).stored(value).woken(),
            waker == old(self).waker,
    {
        self.store(value);
        self.wake()
    }

    /// Awaiter's side: leaves the waker that is to be woken.
    pub fn register(&mut self, waker: W)
        requires
            old(self).wf(),
        ensures
            final(self).wf(),
            *final(self) == old(self).registered(waker),
    {
        self.waker = Some(waker);
    }

    /// Ends the slot: gives the outcome that was stored and not taken, if there is one.
    pub fn on_drop(self) -> (left: Option<Result<R, P>>)
        requires
            self.wf(),
        ensures
            left == self.result,
            left is Some <==> self.stage is Ready,
    {
        let mut slot = self;
        match slot.stage {
            SlotStage::Ready => slot.result.take(),
            _ => None,
        }
    }
}

impl SpawnHandle {
    /// The awaiter's side of a slot.
    pub fn new() -> (handle: SpawnHandle)
        ensures
            handle.attached,
    {
        SpawnHandle { attached: true }
    }

    /// Takes the outcome.
    fn take_ready<R, P, W>(&mut self, slot: &mut SpawnCompletion<R, P, W>) -> (polled: SlotPoll<
        R,
        P,
    >)
        requires
            old(self).attached,
            old(slot).wf(),
            old(slot).stage is Ready,
        ensures
            !final(self).attached,
            final(slot).wf(),
            *final(slot) == old(slot).taken(),
            polled == slot_poll(old(slot).result->0),
    {
        let outcome = slot.result.take().unwrap();
        slot.stage = SlotStage::Taken;
        self.attached = false;
        match outcome {
            Ok(value) => SlotPoll::Ready(value),
            Err(payload) => SlotPoll::Resume(payload),
        }
    }

    /// Looks at the slot: takes the outcome if it is there, and changes nothing if it is not.
    pub fn check<R, P, W>(&mut self, slot: &mut SpawnCompletion<R, P, W>) -> (polled: SlotPoll<
        R,
        P,
    >)
        requires
            old(self).attached,
            old(slot).wf(),
        ensures
            final(slot).wf(),
            if old(slot).stage is Ready {
                *final(slot) == old(slot).taken() && !final(self).attached && polled == slot_poll(
                    old(slot).result->0,
                )
            } else {
                *final(slot) == *old(slot) && final(self).attached && polled is Pending
            },
    {
        match slot.stage {
            SlotStage::Ready => self.take_ready(slot),
            _ => SlotPoll::Pending,
        }
    }

    /// Polls. If the outcome is not there, the waker is left in the slot, and the slot is looked
    /// at once more, so that a worker that came between is not missed.
    pub fn poll<R, P, W>(
        &mut self,
        slot: &mut SpawnCompletion<R, P, W>,
        waker: W,
    ) -> (polled: SlotPoll<R, P>)
        requires
            old(self).attached,
            old(slot).wf(),
        ensures
            final(slot).wf(),
            if old(slot).stage is Ready {
                *final(slot) == old(slot).taken() && !final(self).attached && polled == slot_poll(
                    old(slot).result->0,
                )
            } else {
                *final(slot) == old(slot).registered(waker) && final(self).attached
                    && polled is Pending
            },
    {
        match self.check(slot) {
            SlotPoll::Pending => {},
            polled => return polled,
        }
        slot.register(waker);
        self.check(slot)
    }
}

/// A poll that comes after the worker gives the worker's outcome, whether or not an earlier poll
/// left a waker, and nothing is left in the slot.
pub proof fn poll_gives_what_was_stored<R, P, W>(
    slot: SpawnCompletion<R, P, W>,
    value: Result<R, P>,
)
    requires
        slot.wf(),
        slot.stage is Empty,
    ensures
        ({
            let done = slot.stored(value).woken();
            &&& done.stage is Ready
            &&& done.result == Some(value)
            &&& done.taken().result is None
            &&& done.taken().wf()
        }),
{
}

/// An awaiter that finds no outcome after it has left its waker is woken: the worker, which stores
/// the outcome before it wakes the awaiter, finds the waker there.
pub proof fn waker_is_found<R, P, W>(
    slot: SpawnCompletion<R, P, W>,
    waker: W,
    value: Result<R, P>,
)
    requires
        slot.wf(),
        slot.stage is Empty,
    ensures
        slot.registered(waker).stage !is Ready,
        slot.registered(waker).stored(value).waker == Some(waker),
{
}

} // verus!
