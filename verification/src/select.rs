use vstd::prelude::*;

use crate::id::ChannelId;
use crate::record::{Choice, ChoiceCall, Recorded};
use crate::random::{shuffle, thread_rng};

verus! {

broadcast use vstd::seq_lib::group_to_multiset_ensures;

/// How many operations a round over `order` attempts when it finds
/// `found`: all of them when it finds none, else those up to the one found.
pub open spec fn round_len(order: Seq<ChannelId>, found: Option<ChannelId>) -> int {
    match found {
        Some(id) => order.index_of(id) + 1,
        None => order.len() as int,
    }
}

/// `after` is `before` after one round over `order` that found `found`:
/// the operations of the first `round_len` channels of `order` were each
/// attempted once, and only the one found synchronized; no other call was
/// made on any operation.
pub open spec fn is_round<C: Choice>(
    keys: Seq<ChannelId>,
    order: Seq<ChannelId>,
    before: Seq<Recorded<C>>,
    after: Seq<Recorded<C>>,
    found: Option<ChannelId>,
) -> bool {
    &&& after.len() == before.len()
    &&& match found {
        Some(id) => order.contains(id),
        None => true,
    }
    &&& forall|i: int|
        0 <= i < keys.len() ==> #[trigger] after[i].calls() == if order.take(
            round_len(order, found),
        ).contains(keys[i]) {
            before[i].calls().push(ChoiceCall::Attempt(found == Some(keys[i])))
        } else {
            before[i].calls()
        }
}

/// The calls a round over `order` that found `found` made on the
/// operation of `keys[i]`: one attempt, if it got that far.
pub open spec fn round_calls(
    keys: Seq<ChannelId>,
    order: Seq<ChannelId>,
    found: Option<ChannelId>,
    i: int,
) -> Seq<ChoiceCall> {
    if order.take(round_len(order, found)).contains(keys[i]) {
        seq![ChoiceCall::Attempt(found == Some(keys[i]))]
    } else {
        Seq::empty()
    }
}

/// `after` is `before` with `call` made once on every operation.
pub open spec fn each_called<C: Choice>(before: Seq<Recorded<C>>, after: Seq<Recorded<C>>, call: ChoiceCall) -> bool {
    &&& after.len() == before.len()
    &&& forall|i: int|
        0 <= i < before.len() ==> #[trigger] after[i].calls() == before[i].calls().push(call)
}

proof fn lemma_permutation_no_duplicates(a: Seq<ChannelId>, b: Seq<ChannelId>)
    requires
        a.no_duplicates(),
        a.to_multiset() == b.to_multiset(),
    ensures
        b.no_duplicates(),
{
    a.lemma_multiset_has_no_duplicates();
    b.lemma_multiset_has_no_duplicates_conv();
}

/// The operations of a select, at most one per channel half, the
/// subscriptions made for them, and the order in which they are tried. `C`
/// is the caller's representation of one operation.
pub struct Select<C> {
    keys: Vec<ChannelId>,
    choices: Vec<Recorded<C>>,
    subscriptions: Vec<Option<u64>>,
    ids: Option<Vec<ChannelId>>,
}

impl<C: Choice> Select<C> {
    /// The channel halves with a registered operation, in registration
    /// order.
    pub closed spec fn keys(&self) -> Seq<ChannelId> {
        self.keys@
    }

    /// The registered operations with the calls made on them, in
    /// registration order.
    pub closed spec fn choices(&self) -> Seq<Recorded<C>> {
        self.choices@
    }

    /// The subscription made for each operation, in registration order.
    pub closed spec fn subscriptions(&self) -> Seq<Option<u64>> {
        self.subscriptions@
    }

    /// Whether a first attempt has fixed the set of channels.
    pub closed spec fn started(&self) -> bool {
        self.ids is Some
    }

    /// The order in which the channels are tried.
    pub closed spec fn order(&self) -> Seq<ChannelId> {
        match self.ids {
            Some(ids) => ids@,
            None => Seq::empty(),
        }
    }

    pub closed spec fn wf(&self) -> bool {
        &&& self.keys().no_duplicates()
        &&& self.choices@.len() == self.keys@.len()
        &&& self.subscriptions@.len() == self.keys@.len()
        &&& self.started() ==> self.order().to_multiset() == self.keys().to_multiset()
    }

    /// A select without operations.
    pub fn new() -> (s: Select<C>)
        ensures
            s.wf(),
            s.keys() == Seq::<ChannelId>::empty(),
            s.choices().len() == 0,
            s.subscriptions().len() == 0,
            !s.started(),
    {
        Select { keys: Vec::new(), choices: Vec::new(), subscriptions: Vec::new(), ids: None }
    }

    /// Where the operation on `id` is registered, if anywhere.
    fn position(&self, id: ChannelId) -> (i: Option<usize>)
        ensures
            match i {
                Some(i) => i < self.keys().len() && self.keys()[i as int] == id,
                None => !self.keys().contains(id),
            },
    {
        let mut i: usize = 0;
        while i < self.keys.len()
            invariant
                i <= self.keys@.len(),
                forall|j: int| 0 <= j < i ==> self.keys()[j] != id,
            decreases self.keys@.len() - i,
        {
            if self.keys[i] == id {
                return Some(i);
            }
            i = i + 1;
        }
        None
    }

    /// Whether an operation on `id` is registered.
    pub fn is_registered(&self, id: ChannelId) -> (b: bool)
        ensures
            b == self.keys().contains(id),
    {
        self.position(id).is_some()
    }

    /// Whether a first attempt has fixed the set of channels; after it, no
    /// new channel can be added.
    pub fn is_started(&self) -> (b: bool)
        ensures
            b == self.started(),
    {
        self.ids.is_some()
    }

    /// Register `choice` as the operation on `id`. An operation already
    /// registered on `id` is replaced by `choice`, which keeps its
    /// subscription; a new channel is added behind the others, without a
    /// subscription, which is only allowed before the first attempt.
    pub fn register(&mut self, id: ChannelId, choice: C)
        requires
            old(self).wf(),
            !old(self).started() || old(self).keys().contains(id),
        ensures
            final(self).wf(),
            final(self).started() == old(self).started(),
            final(self).order() == old(self).order(),
            final(self).keys() == (if old(self).keys().contains(id) {
                old(self).keys()
            } else {
                old(self).keys().push(id)
            }),
            ({
                let slot = if old(self).keys().contains(id) {
                    old(self).keys().index_of(id)
                } else {
                    old(self).keys().len() as int
                };
                &&& final(self).choices().len() == final(self).keys().len()
                &&& final(self).choices()[slot].op() == choice
                &&& final(self).choices()[slot].calls() == Seq::<ChoiceCall>::empty()
                &&& forall|j: int|
                    0 <= j < old(self).keys().len() && j != slot ==> #[trigger] final(self).choices()[j]
                        == old(self).choices()[j]
            }),
            final(self).subscriptions() == (if old(self).keys().contains(id) {
                old(self).subscriptions()
            } else {
                old(self).subscriptions().push(None)
            }),
    {
        match self.position(id) {
            Some(i) => {
                proof {
                    let j = self.keys().index_of(id);
                    assert(self.keys().contains(id));
                    assert(self.keys()[j] == id);
                    assert(j == i);
                }
                self.choices.set(i, Recorded::new(choice));
            },
            None => {
                let ghost old_keys = self.keys();
                self.keys.push(id);
                self.choices.push(Recorded::new(choice));
                self.subscriptions.push(None);
                proof {
                    assert forall|a: int, b: int|
                        0 <= a < b < self.keys().len() implies self.keys()[a] != self.keys()[b] by {
                        if b == old_keys.len() {
                            assert(old_keys.contains(old_keys[a]));
                        }
                    }
                }
            },
        }
    }

    /// Whether the select has subscribed to its channels (vacuously so
    /// without operations).
    pub fn is_subscribed(&self) -> (b: bool)
        requires
            self.wf(),
        ensures
            b == (self.keys().len() == 0 || self.subscriptions()[0] is Some),
    {
        if self.choices.len() == 0 {
            true
        } else {
            self.subscriptions[0].is_some()
        }
    }

    /// Subscribe every operation's channel once, in registration order, and
    /// keep each subscription that comes back for its operation.
    pub fn subscribe_all(&mut self)
        requires
            old(self).wf(),
        ensures
            final(self).wf(),
            final(self).keys() == old(self).keys(),
            final(self).order() == old(self).order(),
            final(self).started() == old(self).started(),
            final(self).choices().len() == old(self).choices().len(),
            forall|i: int|
                0 <= i < final(self).keys().len() ==> {
                    &&& #[trigger] final(self).subscriptions()[i] is Some
                    &&& final(self).choices()[i].calls() == old(self).choices()[i].calls().push(
                        ChoiceCall::Subscribe(final(self).subscriptions()[i]->Some_0),
                    )
                },
    {
        let mut i: usize = 0;
        while i < self.choices.len()
            invariant
                self.wf(),
                i <= self.keys@.len(),
                self.keys() == old(self).keys(),
                self.order() == old(self).order(),
                self.started() == old(self).started(),
                self.choices().len() == old(self).choices().len(),
                forall|j: int|
                    0 <= j < i ==> {
                        &&& #[trigger] self.subscriptions()[j] is Some
                        &&& self.choices()[j].calls() == old(self).choices()[j].calls().push(
                            ChoiceCall::Subscribe(self.subscriptions()[j]->Some_0),
                        )
                    },
                forall|j: int| i <= j < self.keys().len() ==> #[trigger] self.choices()[j] == old(self).choices()[j],
            decreases self.choices@.len() - i,
        {
            let ghost before = self.subscriptions();
            let ghost before_choices = self.choices();
            let id = self.choices[i].subscribe();
            self.subscriptions.set(i, Some(id));
            assert forall|j: int| 0 <= j < i + 1 implies {
                &&& #[trigger] self.subscriptions()[j] is Some
                &&& self.choices()[j].calls() == old(self).choices()[j].calls().push(
                    ChoiceCall::Subscribe(self.subscriptions()[j]->Some_0),
                )
            } by {
                if j < i {
                    assert(before[j] is Some);
                    assert(self.choices()[j] == before_choices[j]);
                    assert(self.subscriptions()[j] == before[j]);
                }
            }
            i = i + 1;
        }
    }

    /// Cancel every subscription that was made, once each, in registration
    /// order.
    pub fn unsubscribe_all(&mut self)
        requires
            old(self).wf(),
        ensures
            final(self).wf(),
            final(self).keys() == old(self).keys(),
            final(self).order() == old(self).order(),
            final(self).started() == old(self).started(),
            final(self).subscriptions() == old(self).subscriptions(),
            final(self).choices().len() == old(self).choices().len(),
            forall|i: int|
                0 <= i < final(self).keys().len() ==> #[trigger] final(self).choices()[i].calls()
                    == match old(self).subscriptions()[i] {
                    Some(id) => old(self).choices()[i].calls().push(ChoiceCall::Unsubscribe(id)),
                    None => old(self).choices()[i].calls(),
                },
    {
        let mut i: usize = 0;
        while i < self.choices.len()
            invariant
                self.wf(),
                i <= self.keys@.len(),
                self.keys() == old(self).keys(),
                self.order() == old(self).order(),
                self.started() == old(self).started(),
                self.subscriptions() == old(self).subscriptions(),
                self.choices().len() == old(self).choices().len(),
                forall|j: int|
                    0 <= j < i ==> #[trigger] self.choices()[j].calls() == match old(
                        self,
                    ).subscriptions()[j] {
                        Some(id) => old(self).choices()[j].calls().push(ChoiceCall::Unsubscribe(id)),
                        None => old(self).choices()[j].calls(),
                    },
                forall|j: int| i <= j < self.keys().len() ==> #[trigger] self.choices()[j] == old(self).choices()[j],
            decreases self.choices@.len() - i,
        {
            let ghost before_choices = self.choices();
            match self.subscriptions[i] {
                Some(id) => {
                    self.choices[i].unsubscribe(id);
                },
                None => {},
            }
            assert forall|j: int| 0 <= j < i implies self.choices()[j] == before_choices[j] by {}
            i = i + 1;
        }
    }

    /// Lock every operation's channel once, in registration order.
    pub fn lock_all(&mut self)
        requires
            old(self).wf(),
        ensures
            final(self).wf(),
            final(self).keys() == old(self).keys(),
            final(self).order() == old(self).order(),
            final(self).started() == old(self).started(),
            final(self).subscriptions() == old(self).subscriptions(),
            each_called(old(self).choices(), final(self).choices(), ChoiceCall::Lock),
    {
        let mut i: usize = 0;
        while i < self.choices.len()
            invariant
                self.wf(),
                i <= self.keys@.len(),
                self.keys() == old(self).keys(),
                self.order() == old(self).order(),
                self.started() == old(self).started(),
                self.subscriptions() == old(self).subscriptions(),
                self.choices().len() == old(self).choices().len(),
                forall|j: int|
                    0 <= j < i ==> #[trigger] self.choices()[j].calls() == old(
                        self,
                    ).choices()[j].calls().push(ChoiceCall::Lock),
                forall|j: int| i <= j < self.keys().len() ==> #[trigger] self.choices()[j] == old(self).choices()[j],
            decreases self.choices@.len() - i,
        {
            let ghost before_choices = self.choices();
            self.choices[i].lock();
            assert forall|j: int| 0 <= j < i implies self.choices()[j] == before_choices[j] by {}
            i = i + 1;
        }
    }

    /// Unlock every operation's channel once, in registration order.
    pub fn unlock_all(&mut self)
        requires
            old(self).wf(),
        ensures
            final(self).wf(),
            final(self).keys() == old(self).keys(),
            final(self).order() == old(self).order(),
            final(self).started() == old(self).started(),
            final(self).subscriptions() == old(self).subscriptions(),
            each_called(old(self).choices(), final(self).choices(), ChoiceCall::Unlock),
    {
        let mut i: usize = 0;
        while i < self.choices.len()
            invariant
                self.wf(),
                i <= self.keys@.len(),
                self.keys() == old(self).keys(),
                self.order() == old(self).order(),
                self.started() == old(self).started(),
                self.subscriptions() == old(self).subscriptions(),
                self.choices().len() == old(self).choices().len(),
                forall|j: int|
                    0 <= j < i ==> #[trigger] self.choices()[j].calls() == old(
                        self,
                    ).choices()[j].calls().push(ChoiceCall::Unlock),
                forall|j: int| i <= j < self.keys().len() ==> #[trigger] self.choices()[j] == old(self).choices()[j],
            decreases self.choices@.len() - i,
        {
            let ghost before_choices = self.choices();
            self.choices[i].unlock();
            assert forall|j: int| 0 <= j < i implies self.choices()[j] == before_choices[j] by {}
            i = i + 1;
        }
    }

    /// Shuffle the order of the channels at random, then attempt their
    /// operations in that order until one synchronizes, and return its
    /// channel; `None` if none did.
    pub fn try_sync(&mut self) -> (r: Option<ChannelId>)
        requires
            old(self).wf(),
            old(self).started(),
        ensures
            final(self).wf(),
            final(self).started(),
            final(self).keys() == old(self).keys(),
            final(self).subscriptions() == old(self).subscriptions(),
            final(self).order().to_multiset() == old(self).order().to_multiset(),
            is_round(final(self).keys(), final(self).order(), old(self).choices(), final(self).choices(), r),
    {
        let mut ids = match self.ids.take() {
            Some(ids) => ids,
            None => Vec::new(),
        };
        let mut rng = thread_rng();
        shuffle(&mut ids, &mut rng);
        proof {
            lemma_permutation_no_duplicates(self.keys(), ids@);
        }
        let mut result: Option<ChannelId> = None;
        let mut k: usize = 0;
        while k < ids.len() && result.is_none()
            invariant
                self.keys().no_duplicates(),
                ids@.no_duplicates(),
                self.choices@.len() == self.keys@.len(),
                self.subscriptions@.len() == self.keys@.len(),
                self.keys() == old(self).keys(),
                self.subscriptions() == old(self).subscriptions(),
                ids@.to_multiset() == old(self).order().to_multiset(),
                old(self).order().to_multiset() == self.keys().to_multiset(),
                k <= ids@.len(),
                match result {
                    Some(id) => k > 0 && id == ids@[k - 1],
                    None => true,
                },
                forall|i: int|
                    0 <= i < self.keys().len() ==> #[trigger] self.choices()[i].calls() == if ids@.take(
                        k as int,
                    ).contains(self.keys()[i]) {
                        old(self).choices()[i].calls().push(
                            ChoiceCall::Attempt(result == Some(self.keys()[i])),
                        )
                    } else {
                        old(self).choices()[i].calls()
                    },
            decreases ids@.len() - k,
        {
            let key = ids[k];
            assert(ids@.to_multiset().count(key) > 0);
            assert(self.keys().to_multiset().count(key) > 0);
            let ghost before_choices = self.choices();
            let ghost old_take = ids@.take(k as int);
            assert(ids@.take(k + 1) =~= old_take.push(key));
            assert(!old_take.contains(key)) by {
                if old_take.contains(key) {
                    let j = choose|j: int| 0 <= j < old_take.len() && old_take[j] == key;
                    assert(ids@[j] == ids@[k as int]);
                }
            }
            match self.position(key) {
                Some(p) => {
                    let synced = self.choices[p].attempt();
                    if synced {
                        result = Some(key);
                    }
                    proof {
                        assert forall|i: int| 0 <= i < self.keys().len() implies #[trigger] self.choices()[i].calls()
                            == if ids@.take(k + 1).contains(self.keys()[i]) {
                            old(self).choices()[i].calls().push(
                                ChoiceCall::Attempt(result == Some(self.keys()[i])),
                            )
                        } else {
                            old(self).choices()[i].calls()
                        } by {
                            if i == p {
                                assert(ids@.take(k + 1).contains(key)) by {
                                    assert(ids@.take(k + 1)[k as int] == key);
                                }
                            } else {
                                assert(self.keys()[i] != key);
                                assert(self.choices()[i] == before_choices[i]);
                                if old_take.contains(self.keys()[i]) {
                                    assert(ids@.take(k + 1).contains(self.keys()[i])) by {
                                        let j = choose|j: int|
                                            0 <= j < old_take.len() && old_take[j] == self.keys()[i];
                                        assert(ids@.take(k + 1)[j] == self.keys()[i]);
                                    }
                                } else {
                                    assert(!ids@.take(k + 1).contains(self.keys()[i])) by {
                                        if ids@.take(k + 1).contains(self.keys()[i]) {
                                            let j = choose|j: int|
                                                0 <= j < k + 1 && #[trigger] ids@.take(k + 1)[j] == self.keys()[i];
                                            if j < k {
                                                assert(old_take[j] == self.keys()[i]);
                                            }
                                        }
                                    }
                                }
                            }
                        }
                    }
                },
                None => {
                    assert(false);
                },
            }
            k = k + 1;
        }
        proof {
            match result {
                Some(id) => {
                    let j = ids@.index_of(id);
                    assert(ids@.contains(id)) by {
                        assert(ids@[k - 1] == id);
                    }
                    assert(ids@[j] == id);
                    assert(j == k - 1);
                },
                None => {
                    assert(k == ids@.len());
                },
            }
            assert(round_len(ids@, result) == k);
        }
        let ghost taken = ids@.take(k as int);
        assert forall|i: int| 0 <= i < self.keys().len() implies #[trigger] self.choices()[i].calls()
            == if taken.contains(self.keys()[i]) {
            old(self).choices()[i].calls().push(ChoiceCall::Attempt(result == Some(self.keys()[i])))
        } else {
            old(self).choices()[i].calls()
        } by {}
        let ghost ch = self.choices();
        let ghost ks = self.keys();
        self.ids = Some(ids);
        assert(self.choices() == ch);
        assert(self.keys() == ks);
        proof {
            assert(self.order() == ids@);
            assert(self.order().take(round_len(self.order(), result)) == taken);
            match result {
                Some(id) => {
                    assert(self.order()[k - 1] == id);
                    assert(self.order().contains(id));
                },
                None => {},
            }
        }
        result
    }

    /// Fix the set of channels on the first call, then `try_sync`; the
    /// select never subscribes here.
    pub fn try_select(&mut self) -> (r: Option<ChannelId>)
        requires
            old(self).wf(),
        ensures
            final(self).wf(),
            final(self).started(),
            final(self).keys() == old(self).keys(),
            final(self).subscriptions() == old(self).subscriptions(),
            old(self).started() ==> final(self).order().to_multiset() == old(self).order().to_multiset(),
            final(self).order().to_multiset() == final(self).keys().to_multiset(),
            is_round(final(self).keys(), final(self).order(), old(self).choices(), final(self).choices(), r),
    {
        if self.ids.is_none() {
            let mut ids: Vec<ChannelId> = Vec::new();
            let mut i: usize = 0;
            while i < self.keys.len()
                invariant
                    i <= self.keys@.len(),
                    ids@ == self.keys().take(i as int),
                decreases self.keys@.len() - i,
            {
                ids.push(self.keys[i]);
                assert(self.keys().take(i + 1) =~= self.keys().take(i as int).push(self.keys()[i as int]));
                i = i + 1;
            }
            assert(ids@ =~= self.keys());
            self.ids = Some(ids);
        }
        self.try_sync()
    }

    /// The first round of a select: `try_select`, and if no operation
    /// synchronized and the select may block, subscribe to every channel
    /// (unless that was done before) and lock every channel, so that the
    /// caller can go on with `try_sync` and wait between rounds. A
    /// non-blocking select gives up after the first round, without
    /// subscribing.
    pub fn first_round(&mut self, nonblocking: bool) -> (r: Option<ChannelId>)
        requires
            old(self).wf(),
        ensures
            final(self).wf(),
            final(self).started(),
            final(self).keys() == old(self).keys(),
            final(self).order().to_multiset() == final(self).keys().to_multiset(),
            final(self).choices().len() == old(self).choices().len(),
            nonblocking || r is Some ==> {
                &&& final(self).subscriptions() == old(self).subscriptions()
                &&& is_round(
                    final(self).keys(),
                    final(self).order(),
                    old(self).choices(),
                    final(self).choices(),
                    r,
                )
            },
            !nonblocking && r is None ==> {
                let resubscribe = !(old(self).keys().len() == 0 || old(self).subscriptions()[0] is Some);
                &&& forall|i: int|
                    0 <= i < final(self).keys().len() ==> #[trigger] final(self).choices()[i].calls()
                        == old(self).choices()[i].calls() + round_calls(
                        final(self).keys(),
                        final(self).order(),
                        None,
                        i,
                    ) + (if resubscribe {
                        seq![ChoiceCall::Subscribe(final(self).subscriptions()[i]->Some_0)]
                    } else {
                        Seq::empty()
                    }) + seq![ChoiceCall::Lock]
                &&& resubscribe ==> forall|i: int|
                    0 <= i < final(self).keys().len() ==> #[trigger] final(self).subscriptions()[i] is Some
                &&& !resubscribe ==> final(self).subscriptions() == old(self).subscriptions()
            },
    {
        let found = self.try_select();
        if found.is_some() || nonblocking {
            return found;
        }
        let ghost mid = self.choices();
        let ghost keys = self.keys();
        let ghost order = self.order();
        let resubscribe = !self.is_subscribed();
        if resubscribe {
            self.subscribe_all();
        }
        let ghost subscribed = self.choices();
        self.lock_all();
        proof {
            assert forall|i: int| 0 <= i < keys.len() implies #[trigger] self.choices()[i].calls()
                == old(self).choices()[i].calls() + round_calls(keys, order, None, i) + (if resubscribe {
                seq![ChoiceCall::Subscribe(self.subscriptions()[i]->Some_0)]
            } else {
                Seq::empty()
            }) + seq![ChoiceCall::Lock] by {
                assert(mid[i].calls() =~= old(self).choices()[i].calls() + round_calls(keys, order, None, i));
                if resubscribe {
                    assert(subscribed[i].calls() =~= mid[i].calls() + seq![
                        ChoiceCall::Subscribe(self.subscriptions()[i]->Some_0),
                    ]);
                } else {
                    assert(subscribed[i] == mid[i]);
                    assert(mid[i].calls() + Seq::<ChoiceCall>::empty() =~= mid[i].calls());
                }
                assert(self.choices()[i].calls() =~= subscribed[i].calls() + seq![ChoiceCall::Lock]);
            }
        }
        None
    }
}

} // verus!
