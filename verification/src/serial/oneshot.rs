//! A single-slot completion: one value, handed over once.
//!
//! The receiving half holds the slot and the waker of the task that waits for
//! it. The sending half is the permission to fill the slot, spent by `send` or
//! by `cancel`. Whoever shares the two halves between threads puts the
//! receiving half behind a lock and wakes the waker that is handed back.

use core::marker::PhantomData;
use vstd::prelude::*;

verus! {

/// What a receiver gets when its sender went away without sending.
#[derive(Debug, Clone, Copy, PartialEq, Eq, Structural)]
pub struct Canceled;

/// The slot shared by the two halves.
#[derive(Debug)]
pub enum Slot<T> {
    /// Nothing was sent yet, or what was sent has been taken.
    Empty,
    Value(T),
    /// The sender went away without sending. This never changes again.
    Canceled,
}

/// The outcome of one poll.
#[derive(Debug, PartialEq, Eq)]
pub enum Polled<T> {
    Pending,
    Ready(Result<T, Canceled>),
}

/// The sending half: the permission to fill the slot once.
#[derive(Debug)]
pub struct CompletionTx<T> {
    handed_over: PhantomData<T>,
}

/// The receiving half: the slot, and the waker of the task that waits for it.
#[derive(Debug)]
pub struct CompletionRx<T, W> {
    pub slot: Slot<T>,
    pub waker: Option<W>,
}

/// An empty slot that nobody waits for, and the permission to fill it.
pub fn channel<T, W>() -> (r: (CompletionTx<T>, CompletionRx<T, W>))
    ensures
        r.1.slot is Empty,
        r.1.waker is None,
{
    (CompletionTx { handed_over: PhantomData }, CompletionRx { slot: Slot::Empty, waker: None })
}

/// Whether a poll by `waker` takes the receiving half from `before` to `after`
/// with this outcome: it takes the value out of the slot, or registers the
/// waker. A canceled slot stays canceled.
pub open spec fn polled<T, W>(
    before: CompletionRx<T, W>,
    waker: W,
    after: CompletionRx<T, W>,
    r: Polled<T>,
) -> bool {
    match before.slot {
        Slot::Empty => {
            &&& after.slot is Empty
            &&& r is Pending
            &&& after.waker == Some(waker)
        },
        Slot::Value(value) => {
            &&& after.slot is Empty
            &&& r == Polled::Ready(Ok::<T, Canceled>(value))
            &&& after.waker == before.waker
        },
        Slot::Canceled => {
            &&& after.slot is Canceled
            &&& r == Polled::<T>::Ready(Err(Canceled))
            &&& after.waker == before.waker
        },
    }
}

/// Whether sending `value` takes the receiving half from `before` to `after`
/// and hands back the waker that waits for it.
pub open spec fn sent<T, W>(
    before: CompletionRx<T, W>,
    value: T,
    after: CompletionRx<T, W>,
    woken: Option<W>,
) -> bool {
    after.slot == Slot::Value(value) && after.waker is None && woken == before.waker
}

/// Whether a sending half that goes away takes the receiving half from
/// `before` to `after`: a slot that is still empty becomes canceled, one that
/// was filled stays as it is.
pub open spec fn abandoned<T, W>(
    before: CompletionRx<T, W>,
    after: CompletionRx<T, W>,
    woken: Option<W>,
) -> bool {
    if before.slot is Empty {
        after.slot is Canceled && after.waker is None && woken == before.waker
    } else {
        after == before && woken is None
    }
}

/// A task that waits is woken by the value, gets it at its next poll, and gets
/// it once; a sending half that goes away after that takes nothing back.
pub proof fn a_value_is_handed_over_once<T, W>(
    rx: Seq<CompletionRx<T, W>>,
    value: T,
    task: W,
    results: Seq<Polled<T>>,
    woken: Option<W>,
)
    requires
        rx.len() == 5,
        results.len() == 3,
        rx[0].slot is Empty,
        polled(rx[0], task, rx[1], results[0]),
        sent(rx[1], value, rx[2], woken),
        polled(rx[2], task, rx[3], results[1]),
        polled(rx[3], task, rx[4], results[2]),
    ensures
        results[0] is Pending,
        woken == Some(task),
        results[1] == Polled::Ready(Ok::<T, Canceled>(value)),
        results[2] is Pending,
{
}

/// A task that waits for a sender that goes away is woken and told so, rather
/// than left waiting, and is told the same however often it polls; a value that
/// was sent before is not lost by it.
pub proof fn a_lost_sender_is_noticed<T, W>(
    before: CompletionRx<T, W>,
    woken: Option<W>,
    rx: Seq<CompletionRx<T, W>>,
    tasks: Seq<W>,
    results: Seq<Polled<T>>,
)
    requires
        rx.len() == results.len() + 1,
        tasks.len() == results.len(),
        abandoned(before, rx[0], woken),
        forall|i: int|
            0 <= i < results.len() ==> polled(rx[i], tasks[i], rx[i + 1], #[trigger] results[i]),
    ensures
        before.slot is Empty ==> woken == before.waker,
        before.slot !is Value ==> forall|i: int|
            0 <= i < results.len() ==> #[trigger] results[i] == Polled::<T>::Ready(Err(Canceled)),
        before.slot matches Slot::Value(value) ==> (results.len() > 0 ==> results[0]
            == Polled::Ready(Ok::<T, Canceled>(value))),
{
    if before.slot !is Value {
        assert forall|i: int| 0 <= i < results.len() implies #[trigger] results[i] == Polled::<
            T,
        >::Ready(Err(Canceled)) by {
            a_canceled_slot_stays(rx, tasks, results, i);
        }
    }
}

proof fn a_canceled_slot_stays<T, W>(
    rx: Seq<CompletionRx<T, W>>,
    tasks: Seq<W>,
    results: Seq<Polled<T>>,
    k: int,
)
    requires
        0 <= k < rx.len(),
        rx.len() == results.len() + 1,
        rx[0].slot is Canceled,
        forall|i: int|
            0 <= i < results.len() ==> polled(rx[i], tasks[i], rx[i + 1], #[trigger] results[i]),
    ensures
        rx[k].slot is Canceled,
    decreases k,
{
    if k > 0 {
        a_canceled_slot_stays(rx, tasks, results, k - 1);
        assert(polled(rx[k - 1], tasks[k - 1], rx[k], results[k - 1]));
    }
}

impl<T, W> CompletionRx<T, W> {
    /// The waker to wake, taken out: the next poll registers a fresh one.
    pub fn wake_if_registered(&mut self) -> (r: Option<W>)
        ensures
            r == old(self).waker,
            final(self).waker is None,
            final(self).slot == old(self).slot,
    {
        self.waker.take()
    }

    /// Take the value out of the slot, or register `waker` to be woken when it
    /// fills. A sender that went away is reported by every poll.
    pub fn poll(&mut self, waker: W) -> (r: Polled<T>)
        ensures
            polled(*old(self), waker, *final(self), r),
    {
        let mut slot = Slot::Empty;
        core::mem::swap(&mut self.slot, &mut slot);
        match slot {
            Slot::Empty => {
                self.waker = Some(waker);
                Polled::Pending
            },
            Slot::Value(value) => Polled::Ready(Ok(value)),
            Slot::Canceled => {
                self.slot = Slot::Canceled;
                Polled::Ready(Err(Canceled))
            },
        }
    }
}

impl<T> CompletionTx<T> {
    /// Fill the slot with `value`. The waker that comes back, if any, is to
    /// be woken.
    pub fn send<W>(self, rx: &mut CompletionRx<T, W>, value: T) -> (r: Option<W>)
        ensures
            sent(*old(rx), value, *final(rx), r),
    {
        rx.slot = Slot::Value(value);
        rx.wake_if_registered()
    }

    /// Go away without sending. A slot that is still empty becomes canceled,
    /// and the waker that comes back, if any, is to be woken. A slot that was
    /// filled stays as it is.
    pub fn cancel<W>(self, rx: &mut CompletionRx<T, W>) -> (r: Option<W>)
        ensures
            abandoned(*old(rx), *final(rx), r),
    {
        match rx.slot {
            Slot::Empty => {
                rx.slot = Slot::Canceled;
                rx.wake_if_registered()
            },
            _ => None,
        }
    }
}

} // verus!
