use vstd::prelude::*;

verus! {

/// The counter behind a wait group: how many participants are still
/// running, and whether one of them was dropped while panicking.
#[derive(Debug)]
pub struct WaitGroup {
    count: i32,
    poisoned: bool,
}

impl WaitGroup {
    /// The number of participants that have not finished.
    pub closed spec fn count(&self) -> int {
        self.count as int
    }

    /// Whether a participant was dropped while panicking.
    pub closed spec fn poisoned(&self) -> bool {
        self.poisoned
    }

    pub closed spec fn wf(&self) -> bool {
        self.count >= 0
    }

    /// What `try_wait` answers in this state: `None` while participants are
    /// running, then `Err(())` if one of them panicked, else `Ok(())`.
    pub open spec fn try_wait_result(&self) -> Option<Result<(), ()>> {
        if self.count() > 0 {
            None
        } else if self.poisoned() {
            Some(Err(()))
        } else {
            Some(Ok(()))
        }
    }

    /// A wait group with no participants.
    pub fn new() -> (wg: WaitGroup)
        ensures
            wg.wf(),
            wg.count() == 0,
            !wg.poisoned(),
    {
        WaitGroup { count: 0, poisoned: false }
    }

    /// Add `delta` to the number of participants. The count can never drop
    /// below zero.
    pub fn add(&mut self, delta: i32)
        requires
            old(self).wf(),
            0 <= old(self).count() + delta <= i32::MAX,
        ensures
            final(self).wf(),
            final(self).count() == old(self).count() + delta,
            final(self).poisoned() == old(self).poisoned(),
    {
        self.count = self.count + delta;
    }

    /// One participant finished: the same as `add(-1)`.
    pub fn done(&mut self)
        requires
            old(self).wf(),
            old(self).count() >= 1,
        ensures
            final(self).wf(),
            final(self).count() == old(self).count() - 1,
            final(self).poisoned() == old(self).poisoned(),
    {
        self.add(-1);
    }

    /// The answer of `try_wait` in this state: `None` while participants
    /// are running, then `Err(())` if one of them panicked, else `Ok(())`.
    pub fn try_wait(&self) -> (r: Option<Result<(), ()>>)
        requires
            self.wf(),
        ensures
            r == self.try_wait_result(),
    {
        if self.count > 0 {
            None
        } else if self.poisoned {
            Some(Err(()))
        } else {
            Some(Ok(()))
        }
    }

    /// Whether `wait` may return in this state. Waiting on a wait group
    /// whose participant panicked is a program error and is ruled out.
    pub fn wait(&self) -> (ready: bool)
        requires
            self.wf(),
            !(self.count() == 0 && self.poisoned()),
        ensures
            ready == (self.count() == 0),
    {
        match self.try_wait() {
            None => false,
            Some(_) => true,
        }
    }

    /// Whether a participant was dropped while panicking.
    pub fn is_poisoned(&self) -> (b: bool)
        ensures
            b == self.poisoned(),
    {
        self.poisoned
    }

    /// The number of participants that have not finished.
    pub fn get_count(&self) -> (n: i32)
        ensures
            n == self.count(),
    {
        self.count
    }

    /// A handle is dropped while its thread panics: if participants are
    /// still counted, one of them is taken off and the group is poisoned.
    /// Returns whether that happened, in which case waiters must be woken.
    pub fn drop_while_panicking(&mut self) -> (changed: bool)
        requires
            old(self).wf(),
        ensures
            final(self).wf(),
            changed == (old(self).count() > 0),
            changed ==> final(self).count() == old(self).count() - 1 && final(self).poisoned(),
            !changed ==> *final(self) == *old(self),
    {
        if self.count > 0 {
            self.count = self.count - 1;
            self.poisoned = true;
            true
        } else {
            false
        }
    }
}

/// One call on a wait group.
pub enum WaitGroupCall {
    Add(i32),
    Done,
    DropWhilePanicking,
}

/// `b` is `a` after `call`, as the call's contract states.
pub open spec fn wait_group_step(a: WaitGroup, b: WaitGroup, call: WaitGroupCall) -> bool {
    match call {
        WaitGroupCall::Add(delta) => 0 <= a.count() + delta <= i32::MAX && b.count() == a.count()
            + delta && b.poisoned() == a.poisoned(),
        WaitGroupCall::Done => a.count() >= 1 && b.count() == a.count() - 1 && b.poisoned()
            == a.poisoned(),
        WaitGroupCall::DropWhilePanicking => if a.count() > 0 {
            b.count() == a.count() - 1 && b.poisoned()
        } else {
            b == a
        },
    }
}

/// Poisoning is permanent: over any sequence of calls, once a wait group
/// is poisoned it stays poisoned, and from then on every `try_wait` that
/// returns (the count is zero) answers `Err(())`.
pub proof fn law_poison_is_permanent(ws: Seq<WaitGroup>, calls: Seq<WaitGroupCall>, k: int)
    requires
        ws.len() == calls.len() + 1,
        forall|i: int| 0 <= i < calls.len() ==> wait_group_step(ws[i], #[trigger] ws[i + 1], calls[i]),
        0 <= k < ws.len(),
        ws[k].poisoned(),
    ensures
        forall|j: int|
            k <= j < ws.len() ==> {
                &&& #[trigger] ws[j].poisoned()
                &&& ws[j].count() == 0 ==> ws[j].try_wait_result() == Some(Err::<(), ()>(()))
            },
{
    assert forall|j: int| k <= j < ws.len() implies #[trigger] ws[j].poisoned() by {
        lemma_poisoned_from(ws, calls, k, j);
    }
}

proof fn lemma_poisoned_from(ws: Seq<WaitGroup>, calls: Seq<WaitGroupCall>, k: int, j: int)
    requires
        ws.len() == calls.len() + 1,
        forall|i: int| 0 <= i < calls.len() ==> wait_group_step(ws[i], #[trigger] ws[i + 1], calls[i]),
        0 <= k <= j < ws.len(),
        ws[k].poisoned(),
    ensures
        ws[j].poisoned(),
    decreases j - k,
{
    if j > k {
        lemma_poisoned_from(ws, calls, k, j - 1);
        let i = j - 1;
        assert(0 <= i < calls.len());
        assert(wait_group_step(ws[i], ws[i + 1], calls[i]));
    }
}

} // verus!
