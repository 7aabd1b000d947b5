use vstd::prelude::*;

use crate::sender::{Send, Sender, TrySender};
use crate::slot::SlotStack;

verus! {

/// One step of a producer between two resumptions: deliver a value, or
/// suspend for a reason of its own without delivering anything.
#[derive(Debug)]
pub enum Step<T> {
    Send(T),
    Yield,
}

/// `s` read from its last element to its first.
pub open spec fn backwards<A>(s: Seq<A>) -> Seq<A> {
    Seq::new(s.len(), |i: int| s[s.len() - 1 - i])
}

/// A producer written out as the steps it takes. Each resumption first lets
/// the send it is suspended at (if any) finish, then runs the next step.
pub struct Script<T> {
    tx: Sender<T>,
    /// The steps still to run, the next one last.
    rev: Vec<Step<T>>,
    /// The send the producer is suspended at, already delivered.
    sending: Option<Send<T>>,
}

/// Pops the steps of `steps` from its end into a vector that holds them last
/// to first.
fn stack_steps<T>(steps: Vec<Step<T>>) -> (rev: Vec<Step<T>>)
    ensures
        backwards(rev@) == steps@,
{
    let mut steps = steps;
    let ghost orig = steps@;
    let mut rev: Vec<Step<T>> = Vec::new();
    while steps.len() > 0
        invariant
            steps@ == orig.take(steps@.len() as int),
            steps@.len() <= orig.len(),
            rev@.len() + steps@.len() == orig.len(),
            forall|j: int| 0 <= j < rev@.len() ==> rev@[j] == orig[orig.len() - 1 - j],
        decreases steps@.len(),
    {
        let s = steps.pop().unwrap();
        rev.push(s);
        assert(steps@ =~= orig.take(steps@.len() as int));
    }
    assert(backwards(rev@) =~= orig);
    rev
}

impl<T> Script<T> {
    /// The identity of the sender the producer delivers through.
    pub closed spec fn sender_id(&self) -> nat {
        self.tx.id()
    }

    /// The steps still to run, the next one first.
    pub closed spec fn remaining(&self) -> Seq<Step<T>> {
        backwards(self.rev@)
    }

    pub closed spec fn wf(&self) -> bool {
        self.sending is None || self.sending->0@ is None
    }

    /// Number of steps the producer still has to run.
    pub fn steps_left(&self) -> (r: usize)
        ensures
            r == self.remaining().len(),
    {
        self.rev.len()
    }

    /// A producer that delivers through `tx` and takes `steps` in order.
    pub fn new(tx: Sender<T>, steps: Vec<Step<T>>) -> (r: Script<T>)
        ensures
            r.wf(),
            r.remaining() == steps@,
            r.sender_id() == tx.id(),
    {
        Script { tx, rev: stack_steps(steps), sending: None }
    }

    /// Resumes the producer until it suspends or completes; `true` when it
    /// completed. Suspending at a send leaves the value in the slot on top.
    pub fn resume(&mut self, slots: &mut SlotStack<T>) -> (completed: bool)
        requires
            old(self).wf(),
            old(slots)@.len() > 0,
            old(slots)@.last() is None,
            old(slots).owners().len() > 0,
            old(slots).owners().last() == old(self).sender_id(),
        ensures
            final(self).wf(),
            final(self).sender_id() == old(self).sender_id(),
            final(slots).owners() == old(slots).owners(),
            old(self).remaining().len() == 0 ==> completed && final(self).remaining()
                == old(self).remaining() && final(slots)@ == old(slots)@,
            old(self).remaining().len() > 0 ==> !completed && final(self).remaining()
                == old(self).remaining().drop_first(),
            old(self).remaining().len() > 0 ==> final(slots)@ == match old(self).remaining()[0] {
                Step::Send(v) => old(slots)@.update(old(slots)@.len() - 1, Some(v)),
                Step::Yield => old(slots)@,
            },
    {
        if let Some(mut s) = self.sending.take() {
            s.poll(slots);
        }
        let ghost rev0 = self.rev@;
        match self.rev.pop() {
            None => true,
            Some(Step::Send(v)) => {
                assert(backwards(self.rev@) =~= backwards(rev0).drop_first());
                let mut s = self.tx.send(v);
                s.poll(slots);
                self.sending = Some(s);
                false
            },
            Some(Step::Yield) => {
                assert(backwards(self.rev@) =~= backwards(rev0).drop_first());
                false
            },
        }
    }
}

/// A step of a fallible producer as its sequence sees it: values go out as
/// successes.
pub open spec fn lift<T, E>(s: Step<T>) -> Step<Result<T, E>> {
    match s {
        Step::Send(v) => Step::Send(Ok(v)),
        Step::Yield => Step::Yield,
    }
}

/// What a fallible producer that runs `steps` and then ends with `failure`
/// (`None` for success) delivers: its values as successes, then the failure,
/// if any, as one last send.
pub open spec fn try_steps<T, E>(steps: Seq<Step<T>>, failure: Option<E>) -> Seq<Step<Result<T, E>>> {
    steps.map_values(|s: Step<T>| lift::<T, E>(s)) + match failure {
        Some(e) => seq![Step::Send(Err(e))],
        None => Seq::empty(),
    }
}

/// A fallible producer written out as its steps and how it ends. When it ends
/// with a failure, that failure is sent as one more value before it completes.
pub struct TryScript<T, E> {
    tx: TrySender<T, E>,
    rev: Vec<Step<T>>,
    /// The failure the producer ends with, until it has been sent.
    failure: Option<E>,
    sending: Option<Send<Result<T, E>>>,
}

impl<T, E> TryScript<T, E> {
    /// The identity of the sender the producer delivers through.
    pub closed spec fn sender_id(&self) -> nat {
        self.tx.id()
    }

    /// The steps still to run, the next one first, the final failure included.
    pub closed spec fn remaining(&self) -> Seq<Step<Result<T, E>>> {
        try_steps(backwards(self.rev@), self.failure)
    }

    pub closed spec fn wf(&self) -> bool {
        self.sending is None || self.sending->0@ is None
    }

    /// A producer that delivers through `tx`, takes `steps` in order and then
    /// returns `outcome`.
    pub fn new(tx: TrySender<T, E>, steps: Vec<Step<T>>, outcome: Result<(), E>) -> (r: TryScript<T, E>)
        ensures
            r.wf(),
            r.remaining() == try_steps(steps@, outcome.err()),
            r.sender_id() == tx.id(),
    {
        let failure = match outcome {
            Ok(()) => None,
            Err(e) => Some(e),
        };
        TryScript { tx, rev: stack_steps(steps), failure, sending: None }
    }

    /// Resumes the producer until it suspends or completes; `true` when it
    /// completed. Suspending at a send leaves the value in the slot on top.
    pub fn resume(&mut self, slots: &mut SlotStack<Result<T, E>>) -> (completed: bool)
        requires
            old(self).wf(),
            old(slots)@.len() > 0,
            old(slots)@.last() is None,
            old(slots).owners().len() > 0,
            old(slots).owners().last() == old(self).sender_id(),
        ensures
            final(self).wf(),
            final(self).sender_id() == old(self).sender_id(),
            final(slots).owners() == old(slots).owners(),
            old(self).remaining().len() == 0 ==> completed && final(self).remaining()
                == old(self).remaining() && final(slots)@ == old(slots)@,
            old(self).remaining().len() > 0 ==> !completed && final(self).remaining()
                == old(self).remaining().drop_first(),
            old(self).remaining().len() > 0 ==> final(slots)@ == match old(self).remaining()[0] {
                Step::Send(v) => old(slots)@.update(old(slots)@.len() - 1, Some(v)),
                Step::Yield => old(slots)@,
            },
    {
        if let Some(mut s) = self.sending.take() {
            s.poll(slots);
        }
        let ghost rev0 = self.rev@;
        let ghost rem0 = self.remaining();
        match self.rev.pop() {
            None => {
                assert(backwards(rev0) =~= Seq::<Step<T>>::empty());
                match self.failure.take() {
                    None => {
                        assert(rem0 =~= Seq::<Step<Result<T, E>>>::empty());
                        true
                    },
                    Some(e) => {
                        assert(self.remaining() =~= rem0.drop_first());
                        let mut s = self.tx.send_failure(e);
                        s.poll(slots);
                        self.sending = Some(s);
                        false
                    },
                }
            },
            Some(Step::Send(v)) => {
                assert(backwards(self.rev@) =~= backwards(rev0).drop_first());
                assert(self.remaining() =~= rem0.drop_first());
                let mut s = self.tx.send(v);
                s.poll(slots);
                self.sending = Some(s);
                false
            },
            Some(Step::Yield) => {
                assert(backwards(self.rev@) =~= backwards(rev0).drop_first());
                assert(self.remaining() =~= rem0.drop_first());
                false
            },
        }
    }
}

} // verus!
