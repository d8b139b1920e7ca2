use vstd::prelude::*;

verus! {

/// One call made on an operation of a select.
pub enum ChoiceCall {
    /// `subscribe`, which returned this subscription.
    Subscribe(u64),
    /// `unsubscribe` of this subscription.
    Unsubscribe(u64),
    /// `attempt`, which synchronized or not.
    Attempt(bool),
    /// `lock`.
    Lock,
    /// `unlock`.
    Unlock,
}

/// One operation registered with a select: a send or a receive on one
/// channel, as the caller implements it.
pub trait Choice {
    /// Subscribe the owning select to the operation's channel; returns the
    /// subscription's identifier.
    fn subscribe(&mut self) -> u64;
    /// Cancel the subscription `id` of the owning select to the
    /// operation's channel.
    fn unsubscribe(&mut self, id: u64);
    /// Attempt the operation without blocking; `true` if it synchronized.
    fn attempt(&mut self) -> bool;
    /// Lock the operation's channel.
    fn lock(&mut self);
    /// Unlock the operation's channel.
    fn unlock(&mut self);
}

/// An operation together with the record of the calls made on it. The
/// record changes only through the methods below, each of which makes its
/// call on the operation.
pub struct Recorded<C> {
    op: C,
    calls: Ghost<Seq<ChoiceCall>>,
}

impl<C: Choice> Recorded<C> {
    /// The operation.
    pub closed spec fn op(&self) -> C {
        self.op
    }

    /// The calls made on the operation since it was recorded, oldest first.
    pub closed spec fn calls(&self) -> Seq<ChoiceCall> {
        self.calls@
    }

    /// Start recording the calls made on `op`.
    pub fn new(op: C) -> (r: Recorded<C>)
        ensures
            r.op() == op,
            r.calls() == Seq::<ChoiceCall>::empty(),
    {
        Recorded { op, calls: Ghost(Seq::empty()) }
    }

    /// Call `subscribe` on the operation.
    pub fn subscribe(&mut self) -> (id: u64)
        ensures
            final(self).calls() == old(self).calls().push(ChoiceCall::Subscribe(id)),
    {
        let id = self.op.subscribe();
        proof {
            self.calls@ = self.calls@.push(ChoiceCall::Subscribe(id));
        }
        id
    }

    /// Call `unsubscribe(id)` on the operation.
    pub fn unsubscribe(&mut self, id: u64)
        ensures
            final(self).calls() == old(self).calls().push(ChoiceCall::Unsubscribe(id)),
    {
        self.op.unsubscribe(id);
        proof {
            self.calls@ = self.calls@.push(ChoiceCall::Unsubscribe(id));
        }
    }

    /// Call `attempt` on the operation.
    pub fn attempt(&mut self) -> (synced: bool)
        ensures
            final(self).calls() == old(self).calls().push(ChoiceCall::Attempt(synced)),
    {
        let synced = self.op.attempt();
        proof {
            self.calls@ = self.calls@.push(ChoiceCall::Attempt(synced));
        }
        synced
    }

    /// Call `lock` on the operation.
    pub fn lock(&mut self)
        ensures
            final(self).calls() == old(self).calls().push(ChoiceCall::Lock),
    {
        self.op.lock();
        proof {
            self.calls@ = self.calls@.push(ChoiceCall::Lock);
        }
    }

    /// Call `unlock` on the operation.
    pub fn unlock(&mut self)
        ensures
            final(self).calls() == old(self).calls().push(ChoiceCall::Unlock),
    {
        self.op.unlock();
        proof {
            self.calls@ = self.calls@.push(ChoiceCall::Unlock);
        }
    }
}

} // verus!
