use vstd::prelude::*;

verus! {

/// The stack of slots that receive produced values. The slot on top is the
/// one that a send operation fills; a pull installs a fresh slot on top and
/// removes it again when the producer has been resumed, so nested pulls are
/// served in last-in-first-out order.
pub struct SlotStack<T> {
    slots: Vec<Option<T>>,
    /// For each slot, the identity of the receiver that installed it.
    owners: Ghost<Seq<nat>>,
}

impl<T> View for SlotStack<T> {
    type V = Seq<Option<T>>;

    closed spec fn view(&self) -> Seq<Option<T>> {
        self.slots@
    }
}

/// The guard of one installed slot: it remembers how deep the stack was
/// before the slot went on top.
pub struct Enter {
    prev: usize,
}

impl Enter {
    pub closed spec fn depth(&self) -> nat {
        self.prev as nat
    }
}

impl<T> SlotStack<T> {
    /// The identities of the receivers that installed the slots, bottom first.
    pub closed spec fn owners(&self) -> Seq<nat> {
        self.owners@
    }

    /// An empty stack: no slot is installed.
    pub fn new() -> (r: SlotStack<T>)
        ensures
            r@ == Seq::<Option<T>>::empty(),
            r.owners() == Seq::<nat>::empty(),
    {
        SlotStack { slots: Vec::new(), owners: Ghost(Seq::empty()) }
    }

    /// Number of installed slots.
    pub fn depth(&self) -> (r: usize)
        ensures
            r == self@.len(),
    {
        self.slots.len()
    }

    /// Whether some slot is installed, so that a send has a destination.
    pub fn is_active(&self) -> (r: bool)
        ensures
            r == (self@.len() > 0),
    {
        self.slots.len() > 0
    }

    /// Installs a fresh empty slot on top, on behalf of the receiver
    /// identified by `owner`, and returns its guard.
    pub(crate) fn install(&mut self, owner: Ghost<nat>) -> (g: Enter)
        requires
            old(self)@.len() < usize::MAX,
        ensures
            g.depth() == old(self)@.len(),
            final(self)@ == old(self)@.push(None),
            final(self).owners() == old(self).owners().push(owner@),
    {
        let prev = self.slots.len();
        self.slots.push(None);
        self.owners = Ghost(self.owners@.push(owner@));
        Enter { prev }
    }

    /// Offers `value` to the slot on top. An empty slot takes it and `None`
    /// comes back; an occupied one is left as it is and the value comes back.
    pub fn put(&mut self, value: T) -> (r: Option<T>)
        requires
            old(self)@.len() > 0,
        ensures
            old(self)@.last() is None ==> r is None
                && final(self)@ == old(self)@.update(old(self)@.len() - 1, Some(value)),
            old(self)@.last() is Some ==> r == Some(value) && final(self)@ == old(self)@,
            final(self).owners() == old(self).owners(),
    {
        let n = self.slots.len();
        if self.slots[n - 1].is_none() {
            self.slots.set(n - 1, Some(value));
            None
        } else {
            Some(value)
        }
    }

    /// Removes the slot that `guard` installed, and every slot above it,
    /// restoring the stack as it stood before; returns what the slot holds.
    /// Where the slot is already gone, nothing changes.
    pub fn leave(&mut self, guard: Enter) -> (r: Option<T>)
        ensures
            old(self)@.len() > guard.depth() ==> r == old(self)@[guard.depth() as int]
                && final(self)@ == old(self)@.take(guard.depth() as int)
                && final(self).owners() == old(self).owners().take(guard.depth() as int),
            old(self)@.len() <= guard.depth() ==> r is None && final(self)@ == old(self)@
                && final(self).owners() == old(self).owners(),
    {
        let depth = guard.prev;
        if self.slots.len() <= depth {
            return None;
        }
        let ghost orig = self.slots@;
        let ghost orig_owners = self.owners@;
        while self.slots.len() > depth + 1
            invariant
                self.slots@.len() > depth,
                orig.len() > depth,
                self.slots@.len() <= orig.len(),
                self.owners@ == orig_owners,
                self.slots@ == orig.take(self.slots@.len() as int),
            decreases self.slots@.len(),
        {
            self.slots.pop();
            assert(self.slots@ =~= orig.take(self.slots@.len() as int));
        }
        let top = self.slots.pop();
        self.owners = Ghost(self.owners@.take(depth as int));
        assert(self.slots@ =~= old(self)@.take(depth as int));
        match top {
            Some(slot) => slot,
            None => None,
        }
    }
}

} // verus!
