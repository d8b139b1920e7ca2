use vstd::prelude::*;

use std::collections::HashMap;
use vstd::std_specs::iter::IteratorSpec;

verus! {

broadcast use vstd::std_specs::hash::group_hash_axioms;

/// The subscriptions of selects to one channel. Each subscription gets an
/// identifier that is never handed out again.
#[derive(Debug)]
pub struct Notifier<S> {
    next_id: u64,
    subscriptions: HashMap<u64, S>,
}

impl<S> Notifier<S> {
    /// The identifier the next subscription gets.
    pub closed spec fn next_id(&self) -> nat {
        self.next_id as nat
    }

    /// The current subscriptions by identifier.
    pub closed spec fn subscriptions(&self) -> Map<u64, S> {
        self.subscriptions@
    }

    pub closed spec fn wf(&self) -> bool {
        &&& self.subscriptions@.dom().finite()
        &&& forall|k: u64| #[trigger] self.subscriptions@.contains_key(k) ==> k < self.next_id
    }

    /// A notifier without subscriptions.
    pub fn new() -> (n: Notifier<S>)
        ensures
            n.wf(),
            n.next_id() == 0,
            n.subscriptions() == Map::<u64, S>::empty(),
    {
        Notifier { next_id: 0, subscriptions: HashMap::new() }
    }

    /// The subscriptions to wake because the channel changed: the
    /// subscription of each identifier, once per identifier, in some order.
    pub fn notify(&self) -> (subs: Vec<&S>)
        ensures
            subs@.len() == self.subscriptions().dom().len(),
            exists|ids: Seq<u64>|
                {
                    &&& ids.no_duplicates()
                    &&& #[trigger] ids.to_set() == self.subscriptions().dom()
                    &&& subs@.unref() == ids.map_values(|k: u64| self.subscriptions()[k])
                },
    {
        let ghost all = vstd::std_specs::hash::spec_keys_iter(&self.subscriptions).remaining();
        let mut subs: Vec<&S> = Vec::new();
        for k in it: self.subscriptions.keys()
            invariant
                it.seq() == all,
                all.unref().to_set() == self.subscriptions@.dom(),
                subs@.len() == it.index(),
                forall|j: int|
                    0 <= j < it.index() ==> *#[trigger] subs@[j] == self.subscriptions@[*all[j]],
        {
            assert(all.unref().to_set().contains(*k)) by {
                assert(all.unref()[it.index() as int] == *k);
            }
            match self.subscriptions.get(k) {
                Some(sub) => {
                    subs.push(sub);
                },
                None => {
                    assert(false);
                },
            }
        }
        proof {
            let ids = all.unref();
            all.unref().lemma_no_dup_set_cardinality();
            assert(subs@.unref() =~= ids.map_values(|k: u64| self.subscriptions()[k]));
        }
        subs
    }

    /// Whether another identifier can be handed out.
    pub fn can_subscribe(&self) -> (b: bool)
        ensures
            b == (self.next_id() < u64::MAX),
    {
        self.next_id < u64::MAX
    }

    /// Register a subscription and return its identifier. Identifiers are
    /// 64-bit and never reused, so at most `u64::MAX` are handed out.
    pub fn subscribe(&mut self, sub: S) -> (id: u64)
        requires
            old(self).wf(),
            old(self).next_id() < u64::MAX,
        ensures
            final(self).wf(),
            id == old(self).next_id(),
            !old(self).subscriptions().contains_key(id),
            final(self).next_id() == old(self).next_id() + 1,
            final(self).subscriptions() == old(self).subscriptions().insert(id, sub),
    {
        let id: u64 = self.next_id;
        self.next_id = self.next_id + 1;
        self.subscriptions.insert(id, sub);
        id
    }

    /// A subscription gets an identifier that no current subscription has,
    /// so unsubscribing it right away leaves the subscriptions as they were.
    pub proof fn law_unsubscribe_undoes_subscribe(&self, sub: S)
        requires
            self.wf(),
            self.next_id() < u64::MAX,
        ensures
            !self.subscriptions().contains_key(self.next_id() as u64),
            self.subscriptions().insert(self.next_id() as u64, sub).remove(self.next_id() as u64)
                == self.subscriptions(),
    {
        let id: u64 = self.next_id() as u64;
        assert(self.subscriptions().insert(id, sub).remove(id) =~= self.subscriptions());
    }

    /// Remove the subscription `key`, if there is one.
    pub fn unsubscribe(&mut self, key: u64)
        requires
            old(self).wf(),
        ensures
            final(self).wf(),
            final(self).next_id() == old(self).next_id(),
            final(self).subscriptions() == old(self).subscriptions().remove(key),
            final(self).subscriptions().len() == if old(self).subscriptions().contains_key(key) {
                old(self).subscriptions().len() - 1
            } else {
                old(self).subscriptions().len() as int
            },
    {
        self.subscriptions.remove(&key);
    }

    /// The number of subscriptions.
    pub fn len(&self) -> (n: usize)
        ensures
            n == self.subscriptions().len(),
    {
        self.subscriptions.len()
    }
}

} // verus!
