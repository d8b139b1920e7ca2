use vstd::prelude::*;

verus! {

/// Reference counts of the two halves of a channel.
#[derive(Debug)]
pub struct Tracker {
    senders: usize,
    receivers: usize,
}

impl Tracker {
    /// The number of live senders.
    pub closed spec fn senders(&self) -> nat {
        self.senders as nat
    }

    /// The number of live receivers.
    pub closed spec fn receivers(&self) -> nat {
        self.receivers as nat
    }

    /// A tracker with no senders and no receivers.
    pub fn new() -> (t: Tracker)
        ensures
            t.senders() == 0,
            t.receivers() == 0,
    {
        Tracker { senders: 0, receivers: 0 }
    }

    /// Count one more sender (the count wraps around to zero past `usize::MAX`).
    pub fn add_sender(&mut self)
        ensures
            final(self).senders() == (if old(self).senders() < usize::MAX { old(self).senders() + 1 } else { 0 }),
            final(self).receivers() == old(self).receivers(),
    {
        self.senders = if self.senders < usize::MAX {
            self.senders + 1
        } else {
            0
        };
    }

    /// Count one more receiver (the count wraps around to zero past `usize::MAX`).
    pub fn add_receiver(&mut self)
        ensures
            final(self).receivers() == (if old(self).receivers() < usize::MAX { old(self).receivers() + 1 } else { 0 }),
            final(self).senders() == old(self).senders(),
    {
        self.receivers = if self.receivers < usize::MAX {
            self.receivers + 1
        } else {
            0
        };
    }

    /// Count one sender less. Returns whether it was the last one, in which
    /// case the caller closes the channel.
    pub fn remove_sender(&mut self) -> (at_zero: bool)
        requires
            old(self).senders() > 0,
        ensures
            final(self).senders() == old(self).senders() - 1,
            final(self).receivers() == old(self).receivers(),
            at_zero == (old(self).senders() == 1),
    {
        let prev: usize = self.senders;
        self.senders = prev - 1;
        prev == 1
    }

    /// Count one receiver less. Returns whether it was the last one.
    pub fn remove_receiver(&mut self) -> (at_zero: bool)
        requires
            old(self).receivers() > 0,
        ensures
            final(self).receivers() == old(self).receivers() - 1,
            final(self).senders() == old(self).senders(),
            at_zero == (old(self).receivers() == 1),
    {
        let prev: usize = self.receivers;
        self.receivers = prev - 1;
        prev == 1
    }

    /// Whether any sender is alive.
    pub fn any_senders(&self) -> (b: bool)
        ensures
            b == (self.senders() > 0),
    {
        self.senders > 0
    }

    /// Whether any receiver is alive.
    pub fn any_receivers(&self) -> (b: bool)
        ensures
            b == (self.receivers() > 0),
    {
        self.receivers > 0
    }
}

/// The sum of a sequence of sender additions (`true`) and removals
/// (`false`), counting one up or down each.
pub open spec fn net_adds(ops: Seq<bool>) -> int
    decreases ops.len(),
{
    if ops.len() == 0 {
        0
    } else {
        net_adds(ops.drop_last()) + if ops.last() {
            1
        } else {
            -1
        }
    }
}

/// `b` is `a` after `add_sender` (`add`) or after `remove_sender`, which
/// reported `at_zero`; an addition does not reach the wrap-around.
pub open spec fn sender_step(a: Tracker, b: Tracker, add: bool, at_zero: bool) -> bool {
    &&& b.receivers() == a.receivers()
    &&& if add {
        a.senders() < usize::MAX && b.senders() == a.senders() + 1
    } else {
        a.senders() > 0 && b.senders() == a.senders() - 1 && at_zero == (a.senders() == 1)
    }
}

/// Over any sequence of sender additions and removals from a fresh count,
/// the count is the number of additions less the number of removals, there
/// are senders exactly while it is positive, and a removal reports the last
/// sender exactly when it brings the count to zero; receivers are not
/// affected.
pub proof fn law_sender_count(ts: Seq<Tracker>, ops: Seq<bool>, zeros: Seq<bool>)
    requires
        ts.len() == ops.len() + 1,
        zeros.len() == ops.len(),
        ts[0].senders() == 0,
        forall|i: int| 0 <= i < ops.len() ==> sender_step(ts[i], #[trigger] ts[i + 1], ops[i], zeros[i]),
    ensures
        forall|i: int|
            0 <= i < ts.len() ==> {
                &&& #[trigger] ts[i].senders() == net_adds(ops.take(i))
                &&& ts[i].receivers() == ts[0].receivers()
                &&& (ts[i].senders() > 0) == (net_adds(ops.take(i)) > 0)
            },
        forall|i: int|
            0 <= i < ops.len() && !ops[i] ==> (#[trigger] zeros[i] <==> net_adds(ops.take(i + 1)) == 0),
    decreases ops.len(),
{
    if ops.len() > 0 {
        let n = ops.len() - 1;
        law_sender_count(ts.drop_last(), ops.drop_last(), zeros.drop_last());
        assert forall|i: int| 0 <= i <= n implies ops.take(i) == ops.drop_last().take(i) by {
            assert(ops.take(i) =~= ops.drop_last().take(i));
        }
        assert(ops.take(n + 1) =~= ops);
        assert(ops.take(n + 1).drop_last() =~= ops.drop_last().take(n));
        assert forall|i: int| 0 <= i < ts.len() implies {
            &&& #[trigger] ts[i].senders() == net_adds(ops.take(i))
            &&& ts[i].receivers() == ts[0].receivers()
            &&& (ts[i].senders() > 0) == (net_adds(ops.take(i)) > 0)
        } by {
            if i < ts.len() - 1 {
                assert(ts.drop_last()[i] == ts[i]);
            } else {
                assert(ts.drop_last()[n] == ts[n]);
                assert(sender_step(ts[n], ts[n + 1], ops[n], zeros[n]));
            }
        }
        assert forall|i: int| 0 <= i < ops.len() && !ops[i] implies (#[trigger] zeros[i] <==> net_adds(
            ops.take(i + 1),
        ) == 0) by {
            if i < n {
                assert(zeros.drop_last()[i] == zeros[i]);
                assert(ops.drop_last()[i] == ops[i]);
                assert(ops.take(i + 1) == ops.drop_last().take(i + 1));
            } else {
                assert(sender_step(ts[n], ts[n + 1], ops[n], zeros[n]));
                assert(ts.drop_last()[n] == ts[n]);
            }
        }
    }
}

} // verus!
