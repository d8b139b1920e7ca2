use vstd::prelude::*;

verus! {

/// A fixed-capacity ring buffer of slots.
///
/// In buffered mode (`push`, `pop`, `len`) the occupied slots are the `len`
/// slots starting at `pos`, wrapping around the end of the vector. In
/// single-slot mode (`put`, `take`, `has_value`, only for a capacity of one)
/// slot `0` is used directly and `len` stays untouched.
#[derive(Debug)]
pub struct Ring<T> {
    queue: Vec<Option<T>>,
    pos: usize,
    len: usize,
}

/// The physical slot of the `j`-th element of a window that starts at `pos`
/// in a ring of `cap` slots.
pub open spec fn ring_slot(pos: int, j: int, cap: int) -> int {
    if pos + j < cap {
        pos + j
    } else {
        pos + j - cap
    }
}

proof fn lemma_mod_wrap(x: int, cap: int)
    requires
        0 < cap,
        0 <= x < 2 * cap,
    ensures
        x % cap == (if x < cap { x } else { x - cap }),
{
    if x < cap {
        vstd::arithmetic::div_mod::lemma_small_mod(x as nat, cap as nat);
    } else {
        vstd::arithmetic::div_mod::lemma_mod_sub_multiples_vanish(x, cap);
        vstd::arithmetic::div_mod::lemma_small_mod((x - cap) as nat, cap as nat);
    }
}

impl<T> Ring<T> {
    /// Number of slots.
    pub closed spec fn capacity(&self) -> nat {
        self.queue@.len()
    }

    /// The buffered elements, oldest first.
    pub closed spec fn view(&self) -> Seq<T> {
        Seq::new(
            self.len as nat,
            |j: int| self.queue@[ring_slot(self.pos as int, j, self.queue@.len() as int)]->Some_0,
        )
    }

    /// The content of slot `0` (single-slot mode).
    pub closed spec fn single(&self) -> Option<T> {
        self.queue@[0]
    }

    pub closed spec fn wf(&self) -> bool {
        &&& 0 < self.queue@.len() <= isize::MAX
        &&& self.pos < self.queue@.len()
        &&& self.len <= self.queue@.len()
        &&& forall|j: int|
            0 <= j < self.len ==> (#[trigger] self.queue@[ring_slot(
                self.pos as int,
                j,
                self.queue@.len() as int,
            )]) is Some
    }

    /// A well-formed ring holds at most as many values as it has slots.
    pub proof fn lemma_len_bound(&self)
        requires
            self.wf(),
        ensures
            self@.len() <= self.capacity(),
            0 < self.capacity() <= isize::MAX,
    {
    }

    /// A ring with `cap` empty slots.
    pub fn new(cap: usize) -> (r: Self)
        requires
            0 < cap <= isize::MAX,
        ensures
            r.wf(),
            r.capacity() == cap,
            r@ == Seq::<T>::empty(),
            r.single() is None,
    {
        let mut queue: Vec<Option<T>> = Vec::with_capacity(cap);
        let mut i: usize = 0;
        while i < cap
            invariant
                i <= cap,
                queue@.len() == i,
                forall|k: int| 0 <= k < i ==> queue@[k] is None,
            decreases cap - i,
        {
            queue.push(None);
            i = i + 1;
        }
        Ring { queue, pos: 0, len: 0 }
    }

    /// Number of buffered elements.
    pub fn len(&self) -> (n: usize)
        requires
            self.wf(),
        ensures
            n == self@.len(),
    {
        self.len
    }

    /// Number of slots.
    pub fn cap(&self) -> (n: usize)
        requires
            self.wf(),
        ensures
            n == self.capacity(),
    {
        self.queue.len()
    }

    /// Append `val` behind the newest buffered element.
    pub fn push(&mut self, val: T)
        requires
            old(self).wf(),
            old(self)@.len() < old(self).capacity(),
        ensures
            final(self).wf(),
            final(self).capacity() == old(self).capacity(),
            final(self)@ == old(self)@.push(val),
    {
        let cap: usize = self.queue.len();
        let ghost old_ring = *self;
        proof {
            lemma_mod_wrap(self.pos + self.len, cap as int);
        }
        let slot: usize = (self.pos + self.len) % cap;
        assert(slot == ring_slot(self.pos as int, self.len as int, cap as int));
        self.queue.set(slot, Some(val));
        self.len = self.len + 1;
        proof {
            assert forall|j: int| 0 <= j < self.len implies (#[trigger] self.queue@[ring_slot(
                self.pos as int,
                j,
                cap as int,
            )]) is Some by {
                if j < old_ring.len {
                    assert(ring_slot(self.pos as int, j, cap as int) != slot);
                    assert(old_ring.queue@[ring_slot(old_ring.pos as int, j, cap as int)] is Some);
                }
            }
            assert(self@ =~= old_ring@.push(val)) by {
                assert forall|j: int| 0 <= j < old_ring.len implies self@[j] == old_ring@[j] by {
                    assert(ring_slot(self.pos as int, j, cap as int) != slot);
                }
            }
        }
    }

    /// Remove and return the oldest buffered element.
    pub fn pop(&mut self) -> (val: T)
        requires
            old(self).wf(),
            old(self)@.len() > 0,
        ensures
            final(self).wf(),
            final(self).capacity() == old(self).capacity(),
            val == old(self)@[0],
            final(self)@ == old(self)@.drop_first(),
    {
        let cap: usize = self.queue.len();
        let ghost old_ring = *self;
        let pos: usize = self.pos;
        assert(self.queue@[ring_slot(pos as int, 0, cap as int)] is Some);
        let val = self.queue[pos].take().unwrap();
        proof {
            lemma_mod_wrap(pos + 1, cap as int);
        }
        self.pos = (pos + 1) % cap;
        self.len = self.len - 1;
        proof {
            assert forall|j: int| 0 <= j < self.len implies (#[trigger] self.queue@[ring_slot(
                self.pos as int,
                j,
                cap as int,
            )]) is Some by {
                assert(ring_slot(self.pos as int, j, cap as int) == ring_slot(
                    pos as int,
                    j + 1,
                    cap as int,
                ));
                assert(old_ring.queue@[ring_slot(pos as int, j + 1, cap as int)] is Some);
            }
            assert(self@ =~= old_ring@.drop_first()) by {
                assert forall|j: int| 0 <= j < self.len implies self@[j] == old_ring@[j + 1] by {
                    assert(ring_slot(self.pos as int, j, cap as int) == ring_slot(
                        pos as int,
                        j + 1,
                        cap as int,
                    ));
                }
            }
        }
        val
    }

    /// Store `val` in the single slot (capacity one), replacing what it
    /// held.
    pub fn put(&mut self, val: T)
        requires
            old(self).wf(),
            old(self).capacity() == 1,
        ensures
            final(self).wf(),
            final(self).capacity() == 1,
            final(self)@ == (if old(self)@.len() == 0 {
                Seq::<T>::empty()
            } else {
                seq![val]
            }),
            final(self).single() == Some(val),
    {
        self.queue.set(0, Some(val));
        proof {
            if self.len == 0 {
                assert(self@ =~= Seq::<T>::empty());
            } else {
                assert(ring_slot(self.pos as int, 0, 1) == 0);
                assert(self@ =~= seq![val]);
            }
        }
    }

    /// Take the value out of the single slot (capacity one).
    pub fn take(&mut self) -> (val: T)
        requires
            old(self).wf(),
            old(self).capacity() == 1,
            old(self)@.len() == 0,
            old(self).single() is Some,
        ensures
            final(self).wf(),
            final(self).capacity() == 1,
            final(self)@.len() == 0,
            final(self).single() is None,
            Some(val) == old(self).single(),
    {
        let val = self.queue[0].take().unwrap();
        assert(self@ =~= Seq::<T>::empty());
        val
    }

    /// Whether the single slot holds a value (capacity one).
    pub fn has_value(&self) -> (b: bool)
        requires
            self.wf(),
            self.capacity() == 1,
        ensures
            b == self.single() is Some,
    {
        self.queue[0].is_some()
    }
}

} // verus!
