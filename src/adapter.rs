use vstd::prelude::*;

use crate::sender::{pair, Poll, Receiver, TrySender};
use crate::slot::{Enter, SlotStack};
use crate::stream::{try_steps, Script, Step, TryScript};

verus! {

/// What a pull returns once the producer has been resumed: the value found
/// in the slot takes priority; without one, the end of the sequence if the
/// producer completed, else nothing yet.
pub open spec fn pull_outcome<T>(dst: Option<T>, completed: bool) -> Poll<Option<T>> {
    match dst {
        Some(v) => Poll::Ready(Some(v)),
        None => if completed {
            Poll::Ready(None)
        } else {
            Poll::Pending
        },
    }
}

/// One pull of a sequence whose producer still has `rem` to run: the state
/// after it (terminated, what remains) and what it returns.
pub open spec fn pull_step<T>(done: bool, rem: Seq<Step<T>>) -> (bool, Seq<Step<T>>, Poll<Option<T>>) {
    if done {
        (true, rem, Poll::Ready(None))
    } else if rem.len() == 0 {
        (true, rem, Poll::Ready(None))
    } else {
        match rem[0] {
            Step::Send(v) => (false, rem.drop_first(), Poll::Ready(Some(v))),
            Step::Yield => (false, rem.drop_first(), Poll::Pending),
        }
    }
}

/// A pull-driven sequence over a push-style producer `U` of values `T`.
pub struct AsyncStream<T, U> {
    rx: Receiver<T>,
    done: bool,
    generator: U,
}

impl<T, U> AsyncStream<T, U> {
    /// Whether the sequence has ended.
    pub closed spec fn terminated(&self) -> bool {
        self.done
    }

    /// The producer the sequence drives.
    pub closed spec fn producer(&self) -> U {
        self.generator
    }

    /// The identity of the receiver that installs the sequence's slots.
    pub closed spec fn receiver_id(&self) -> nat {
        self.rx.id()
    }

    /// A sequence, not yet ended, that drives `generator` and installs
    /// slots through `rx`.
    pub fn new(rx: Receiver<T>, generator: U) -> (r: AsyncStream<T, U>)
        ensures
            !r.terminated(),
            r.producer() == generator,
            r.receiver_id() == rx.id(),
    {
        AsyncStream { rx, done: false, generator }
    }

    /// The producer the sequence drives.
    pub fn generator(&self) -> (r: &U)
        ensures
            *r == self.producer(),
    {
        &self.generator
    }

    /// The producer, to be resumed by a driver outside the library.
    pub fn generator_mut(&mut self) -> (r: &mut U)
        ensures
            *r == old(self).producer(),
            final(self).producer() == *final(r),
            final(self).terminated() == old(self).terminated(),
            final(self).receiver_id() == old(self).receiver_id(),
    {
        &mut self.generator
    }

    /// Installs a fresh empty slot through the sequence's receiver: the first
    /// half of a pull whose producer is resumed by a driver outside the
    /// library, which ends it with `SlotStack::leave` and `finish_pull`.
    pub fn enter(&mut self, slots: &mut SlotStack<T>) -> (g: Enter)
        requires
            old(slots)@.len() < usize::MAX,
        ensures
            g.depth() == old(slots)@.len(),
            final(slots)@ == old(slots)@.push(None),
            final(slots).owners() == old(slots).owners().push(old(self).receiver_id()),
            final(self).producer() == old(self).producer(),
            final(self).terminated() == old(self).terminated(),
            final(self).receiver_id() == old(self).receiver_id(),
    {
        self.rx.enter(slots)
    }

    /// Whether the sequence has ended; every later pull returns its end.
    pub fn is_terminated(&self) -> (r: bool)
        ensures
            r == self.terminated(),
    {
        self.done
    }

    /// Bounds on the number of values still to come: none known while the
    /// sequence runs, exactly zero once it has ended.
    pub fn size_hint(&self) -> (r: (usize, Option<usize>))
        ensures
            self.terminated() ==> r == (0usize, Some(0usize)),
            !self.terminated() ==> r == (0usize, None::<usize>),
    {
        if self.done {
            (0, Some(0))
        } else {
            (0, None)
        }
    }

    /// Ends a pull, given what the slot held and whether the producer
    /// completed: the sequence ends exactly when the producer completed.
    pub fn finish_pull(&mut self, dst: Option<T>, completed: bool) -> (r: Poll<Option<T>>)
        ensures
            final(self).terminated() == completed,
            final(self).producer() == old(self).producer(),
            final(self).receiver_id() == old(self).receiver_id(),
            r == pull_outcome(dst, completed),
    {
        self.done = completed;
        match dst {
            Some(v) => Poll::Ready(Some(v)),
            None => if self.done {
                Poll::Ready(None)
            } else {
                Poll::Pending
            },
        }
    }
}

impl<T> AsyncStream<T, Script<T>> {
    /// The steps the producer still has to run.
    pub open spec fn remaining(&self) -> Seq<Step<T>> {
        self.producer().remaining()
    }

    /// The producer is well formed and paired with the receiver.
    pub open spec fn wf(&self) -> bool {
        &&& self.producer().wf()
        &&& self.producer().sender_id() == self.receiver_id()
    }

    /// Pulls the next value. An ended sequence returns its end and leaves the
    /// producer alone. Otherwise a fresh slot is installed on `slots`, the
    /// producer resumed, and the slot removed again, so that `slots` ends as
    /// it began.
    pub fn poll_next(&mut self, slots: &mut SlotStack<T>) -> (r: Poll<Option<T>>)
        requires
            old(self).wf(),
            old(slots)@.len() < usize::MAX,
        ensures
            final(self).wf(),
            final(slots)@ == old(slots)@,
            (final(self).terminated(), final(self).remaining(), r) == pull_step(
                old(self).terminated(),
                old(self).remaining(),
            ),
            old(self).terminated() ==> *final(self) == *old(self),
    {
        if self.done {
            return Poll::Ready(None);
        }
        let guard = self.enter(slots);
        let completed = self.generator.resume(slots);
        let dst = slots.leave(guard);
        self.finish_pull(dst, completed)
    }
}

impl<T, E> AsyncStream<Result<T, E>, TryScript<T, E>> {
    /// The steps the producer still has to run, its final failure included.
    pub open spec fn remaining(&self) -> Seq<Step<Result<T, E>>> {
        self.producer().remaining()
    }

    /// The producer is well formed and paired with the receiver.
    pub open spec fn wf(&self) -> bool {
        &&& self.producer().wf()
        &&& self.producer().sender_id() == self.receiver_id()
    }

    /// Pulls the next value, as for a producer that cannot fail; a failure
    /// the producer ends with comes out as its last value.
    pub fn poll_next(&mut self, slots: &mut SlotStack<Result<T, E>>) -> (r: Poll<Option<Result<T, E>>>)
        requires
            old(self).wf(),
            old(slots)@.len() < usize::MAX,
        ensures
            final(self).wf(),
            final(slots)@ == old(slots)@,
            (final(self).terminated(), final(self).remaining(), r) == pull_step(
                old(self).terminated(),
                old(self).remaining(),
            ),
            old(self).terminated() ==> *final(self) == *old(self),
    {
        if self.done {
            return Poll::Ready(None);
        }
        let guard = self.enter(slots);
        let completed = self.generator.resume(slots);
        let dst = slots.leave(guard);
        self.finish_pull(dst, completed)
    }
}

/// A sequence of the values a producer sends while it takes `steps`.
pub fn make_stream<T>(steps: Vec<Step<T>>) -> (r: AsyncStream<T, Script<T>>)
    ensures
        r.wf(),
        !r.terminated(),
        r.remaining() == steps@,
{
    let (tx, rx) = pair::<T>();
    AsyncStream::new(rx, Script::new(tx, steps))
}

/// A sequence of the values a fallible producer sends while it takes
/// `steps`, as successes, followed by the failure it returns, if any.
pub fn make_try_stream<T, E>(steps: Vec<Step<T>>, outcome: Result<(), E>) -> (r: AsyncStream<
    Result<T, E>,
    TryScript<T, E>,
>)
    ensures
        r.wf(),
        !r.terminated(),
        r.remaining() == try_steps(steps@, outcome.err()),
{
    let (tx, rx) = pair::<Result<T, E>>();
    let tx = TrySender::new(tx);
    AsyncStream::new(rx, TryScript::new(tx, steps, outcome))
}

} // verus!
