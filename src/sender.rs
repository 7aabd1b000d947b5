use vstd::prelude::*;

use crate::slot::{Enter, SlotStack};
use std::marker::PhantomData;

verus! {

/// Outcome of driving a suspendable operation one step: finished with a
/// value, or suspended.
#[derive(Debug, PartialEq, Eq)]
pub enum Poll<T> {
    Ready(T),
    Pending,
}

/// One send operation in flight. While armed it holds the value to deliver;
/// once the value sits in a slot it is spent.
pub struct Send<T> {
    value: Option<T>,
    /// The identity of the sender that made it.
    owner: Ghost<nat>,
}

impl<T> View for Send<T> {
    type V = Option<T>;

    /// The value still waiting to be delivered; `None` once spent.
    closed spec fn view(&self) -> Option<T> {
        self.value
    }
}

impl<T> Send<T> {
    /// The identity of the sender that made this operation.
    pub closed spec fn owner(&self) -> nat {
        self.owner@
    }

    /// Whether the value is still waiting to be delivered.
    pub fn is_armed(&self) -> (r: bool)
        ensures
            r == self@ is Some,
    {
        self.value.is_some()
    }

    /// Drives the operation one step against the slot on top of `slots`.
    /// Spent: it finishes. Armed with an empty slot: the value moves into the
    /// slot and the operation suspends, which tells the driver that a value is
    /// ready. Armed with an occupied slot: it suspends and stays armed.
    /// An armed operation needs an installed slot.
    pub fn poll(&mut self, slots: &mut SlotStack<T>) -> (r: Poll<()>)
        requires
            old(self)@ is Some ==> old(slots)@.len() > 0,
        ensures
            final(self).owner() == old(self).owner(),
            final(slots).owners() == old(slots).owners(),
            old(self)@ is None ==> r == Poll::<()>::Ready(()) && final(self)@ is None
                && final(slots)@ == old(slots)@,
            old(self)@ is Some && old(slots)@.last() is None ==> r == Poll::<()>::Pending
                && final(self)@ is None
                && final(slots)@ == old(slots)@.update(old(slots)@.len() - 1, old(self)@),
            old(self)@ is Some && old(slots)@.last() is Some ==> r == Poll::<()>::Pending
                && final(self)@ == old(self)@ && final(slots)@ == old(slots)@,
    {
        match self.value.take() {
            None => Poll::Ready(()),
            Some(v) => {
                match slots.put(v) {
                    None => {},
                    Some(back) => {
                        self.value = Some(back);
                    },
                }
                Poll::Pending
            },
        }
    }
}

/// The handle through which a producer delivers its values.
pub struct Sender<T> {
    p: PhantomData<T>,
    /// Shared with the receiver it was made with.
    id: Ghost<nat>,
}

impl<T> Sender<T> {
    /// The identity this sender shares with its receiver.
    pub closed spec fn id(&self) -> nat {
        self.id@
    }

    /// An operation that delivers `value` when driven.
    pub fn send(&mut self, value: T) -> (r: Send<T>)
        ensures
            r@ == Some(value),
            r.owner() == old(self).id(),
            final(self).id() == old(self).id(),
    {
        Send { value: Some(value), owner: self.id }
    }
}

/// The handle of a fallible producer: its values are delivered as successes.
pub struct TrySender<T, E> {
    sender: Sender<Result<T, E>>,
}

impl<T, E> TrySender<T, E> {
    /// The sender that the values go through.
    pub closed spec fn sender(&self) -> Sender<Result<T, E>> {
        self.sender
    }

    /// The identity this sender shares with its receiver.
    pub open spec fn id(&self) -> nat {
        self.sender().id()
    }

    /// The fallible handle over `sender`.
    pub fn new(sender: Sender<Result<T, E>>) -> (r: TrySender<T, E>)
        ensures
            r.sender() == sender,
    {
        TrySender { sender }
    }

    /// An operation that delivers `Ok(value)` when driven.
    pub fn send(&mut self, value: T) -> (r: Send<Result<T, E>>)
        ensures
            r@ == Some(Ok::<T, E>(value)),
            r.owner() == old(self).id(),
            final(self).sender() == old(self).sender(),
    {
        Send { value: Some(Ok(value)), owner: self.sender.id }
    }

    /// An operation that delivers `Err(err)` when driven: how a fallible
    /// producer's final failure goes out through the same sender.
    pub fn send_failure(&mut self, err: E) -> (r: Send<Result<T, E>>)
        ensures
            r@ == Some(Err::<T, E>(err)),
            r.owner() == old(self).id(),
            final(self).sender() == old(self).sender(),
    {
        self.sender.send(Err(err))
    }
}

/// The driver's side of a sender: it installs the slot that the sender fills.
pub struct Receiver<T> {
    p: PhantomData<T>,
    /// Shared with the sender it was made with.
    id: Ghost<nat>,
}

impl<T> Receiver<T> {
    /// The identity this receiver shares with its sender.
    pub closed spec fn id(&self) -> nat {
        self.id@
    }

    /// Installs a fresh empty slot as the destination of the next send,
    /// recorded as installed by this receiver.
    pub fn enter(&mut self, slots: &mut SlotStack<T>) -> (g: Enter)
        requires
            old(slots)@.len() < usize::MAX,
        ensures
            g.depth() == old(slots)@.len(),
            final(slots)@ == old(slots)@.push(None),
            final(slots).owners() == old(slots).owners().push(old(self).id()),
            final(self).id() == old(self).id(),
    {
        slots.install(self.id)
    }
}

/// A matched sender and receiver: both carry the same identity.
pub fn pair<T>() -> (r: (Sender<T>, Receiver<T>))
    ensures
        r.0.id() == r.1.id(),
{
    let id: Ghost<nat> = Ghost(arbitrary());
    let tx = Sender { p: PhantomData, id };
    let rx = Receiver { p: PhantomData, id };
    (tx, rx)
}

} // verus!
