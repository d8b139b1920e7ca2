use vstd::prelude::*;

use crate::channel::{RecvOpKind, RecvStep, SendOpKind, SendStep};
use crate::ring::Ring;

verus! {

/// The abstract state of a synchronous channel.
pub struct SyncView<T> {
    pub cap: nat,
    pub closed: bool,
    pub nwaiting: nat,
    pub contents: Seq<T>,
}

/// The state of a synchronous channel (buffered when `cap > 0`, a
/// rendezvous channel otherwise): a ring of `cap` slots, or a single slot
/// for a rendezvous channel.
#[derive(Debug)]
pub struct Data<T> {
    cap: usize,
    closed: bool,
    nwaiting: usize,
    queue: Ring<T>,
}

/// The next state and outcome of a receive step.
pub open spec fn sync_recv_next<T>(d: SyncView<T>, nonblocking: bool) -> (SyncView<T>, RecvStep<T>) {
    if d.contents.len() > 0 {
        (
            SyncView { contents: d.contents.drop_first(), ..d },
            RecvStep::Done(RecvOpKind::Received(d.contents[0])),
        )
    } else if d.closed {
        (d, RecvStep::Done(RecvOpKind::Closed))
    } else if nonblocking {
        (d, RecvStep::Done(RecvOpKind::WouldBlock))
    } else {
        (d, RecvStep::Wait { notify: d.cap == 0 })
    }
}

/// The next state and outcome of a send step. A send on a closed channel
/// is a program error; `sync_send_allowed` rules it out.
pub open spec fn sync_send_next<T>(d: SyncView<T>, nonblocking: bool, val: T) -> (
    SyncView<T>,
    SendStep<T>,
) {
    let pushed = SyncView { contents: d.contents.push(val), ..d };
    if d.cap > 0 {
        if d.contents.len() == d.cap {
            if nonblocking {
                (d, SendStep::Done(SendOpKind::WouldBlock(val)))
            } else {
                (d, SendStep::Wait(val))
            }
        } else {
            (pushed, SendStep::Done(SendOpKind::Sent))
        }
    } else {
        if d.contents.len() > 0 {
            if nonblocking {
                (d, SendStep::Done(SendOpKind::WouldBlock(val)))
            } else {
                (d, SendStep::Wait(val))
            }
        } else if nonblocking && d.nwaiting == 0 {
            (d, SendStep::Done(SendOpKind::WouldBlock(val)))
        } else {
            (pushed, SendStep::Offered)
        }
    }
}

/// The states in which a send step does not panic: a buffered channel must
/// be open, and a rendezvous channel must be open once its slot is free.
pub open spec fn sync_send_allowed<T>(d: SyncView<T>) -> bool {
    if d.cap > 0 {
        !d.closed
    } else {
        d.contents.len() > 0 || !d.closed
    }
}

impl<T> View for Data<T> {
    type V = SyncView<T>;

    closed spec fn view(&self) -> SyncView<T> {
        SyncView {
            cap: self.cap as nat,
            closed: self.closed,
            nwaiting: self.nwaiting as nat,
            contents: if self.cap == 0 {
                match self.queue.single() {
                    Some(v) => seq![v],
                    None => Seq::empty(),
                }
            } else {
                self.queue@
            },
        }
    }
}

impl<T> Data<T> {
    pub closed spec fn wf(&self) -> bool {
        &&& self.queue.wf()
        &&& if self.cap == 0 {
            self.queue.capacity() == 1 && self.queue@.len() == 0
        } else {
            self.queue.capacity() == self.cap
        }
    }

    proof fn lemma_wf(&self)
        requires
            self.wf(),
        ensures
            self@.contents.len() <= (if self.cap == 0 {
                1
            } else {
                self.cap as int
            }),
    {
        self.queue.lemma_len_bound();
    }

    /// A new, open, empty synchronous channel with a buffer of `size`
    /// values; `size == 0` gives a rendezvous channel.
    pub fn new(size: usize) -> (d: Self)
        requires
            size <= isize::MAX,
        ensures
            d.wf(),
            d@.cap == size,
            !d@.closed,
            d@.nwaiting == 0,
            d@.contents == Seq::<T>::empty(),
    {
        let queue = if size == 0 {
            Ring::new(1)
        } else {
            Ring::new(size)
        };
        Data { cap: size, closed: false, nwaiting: 0, queue }
    }

    /// Whether the channel is closed.
    pub fn is_closed(&self) -> (b: bool)
        ensures
            b == self@.closed,
    {
        self.closed
    }

    /// Whether a send step in this state panics.
    pub fn send_allowed(&self) -> (b: bool)
        requires
            self.wf(),
        ensures
            b == sync_send_allowed(self@),
    {
        if self.cap > 0 {
            !self.closed
        } else {
            self.queue.has_value() || !self.closed
        }
    }

    /// Close the channel.
    pub fn close(&mut self)
        requires
            old(self).wf(),
        ensures
            final(self).wf(),
            final(self)@ == (SyncView { closed: true, ..old(self)@ }),
    {
        self.closed = true;
    }

    /// One step of a send on a buffered channel: blocks while the buffer
    /// is full.
    pub fn buffered_send(&mut self, nonblocking: bool, val: T) -> (step: SendStep<T>)
        requires
            old(self).wf(),
            old(self)@.cap > 0,
            sync_send_allowed(old(self)@),
        ensures
            final(self).wf(),
            (final(self)@, step) == sync_send_next(old(self)@, nonblocking, val),
    {
        proof {
            self.lemma_wf();
        }
        if self.queue.len() == self.cap {
            if nonblocking {
                return SendStep::Done(SendOpKind::WouldBlock(val));
            }
            return SendStep::Wait(val);
        }
        self.queue.push(val);
        SendStep::Done(SendOpKind::Sent)
    }

    /// One step of a receive on a buffered channel.
    pub fn buffered_recv(&mut self, nonblocking: bool) -> (step: RecvStep<T>)
        requires
            old(self).wf(),
            old(self)@.cap > 0,
        ensures
            final(self).wf(),
            (final(self)@, step) == sync_recv_next(old(self)@, nonblocking),
    {
        if self.queue.len() == 0 {
            if self.closed {
                return RecvStep::Done(RecvOpKind::Closed);
            }
            if nonblocking {
                return RecvStep::Done(RecvOpKind::WouldBlock);
            }
            return RecvStep::Wait { notify: false };
        }
        let val = self.queue.pop();
        RecvStep::Done(RecvOpKind::Received(val))
    }

    /// The first step of a send on a rendezvous channel: once the slot is
    /// free the value is offered, except that a non-blocking send offers
    /// it only to a receiver that is already waiting.
    pub fn unbuffered_send(&mut self, nonblocking: bool, val: T) -> (step: SendStep<T>)
        requires
            old(self).wf(),
            old(self)@.cap == 0,
            sync_send_allowed(old(self)@),
        ensures
            final(self).wf(),
            (final(self)@, step) == sync_send_next(old(self)@, nonblocking, val),
    {
        if self.queue.has_value() {
            if nonblocking {
                return SendStep::Done(SendOpKind::WouldBlock(val));
            }
            return SendStep::Wait(val);
        }
        if nonblocking && self.nwaiting == 0 {
            return SendStep::Done(SendOpKind::WouldBlock(val));
        }
        self.queue.put(val);
        assert(self@.contents =~= old(self)@.contents.push(val));
        SendStep::Offered
    }

    /// Whether a value offered on a rendezvous channel still waits to be
    /// taken.
    pub fn offer_pending(&self) -> (b: bool)
        requires
            self.wf(),
            self@.cap == 0,
        ensures
            b == (self@.contents.len() > 0),
    {
        self.queue.has_value()
    }

    /// One step of a receive on a rendezvous channel.
    pub fn unbuffered_recv(&mut self, nonblocking: bool) -> (step: RecvStep<T>)
        requires
            old(self).wf(),
            old(self)@.cap == 0,
        ensures
            final(self).wf(),
            (final(self)@, step) == sync_recv_next(old(self)@, nonblocking),
    {
        if !self.queue.has_value() {
            if self.closed {
                return RecvStep::Done(RecvOpKind::Closed);
            }
            if nonblocking {
                return RecvStep::Done(RecvOpKind::WouldBlock);
            }
            return RecvStep::Wait { notify: true };
        }
        let val = self.queue.take();
        assert(self@.contents =~= Seq::<T>::empty());
        assert(old(self)@.contents == seq![val]);
        assert(old(self)@.contents.drop_first() =~= Seq::<T>::empty());
        RecvStep::Done(RecvOpKind::Received(val))
    }

    /// One step of a send, by the channel's kind.
    pub fn send(&mut self, nonblocking: bool, val: T) -> (step: SendStep<T>)
        requires
            old(self).wf(),
            sync_send_allowed(old(self)@),
        ensures
            final(self).wf(),
            (final(self)@, step) == sync_send_next(old(self)@, nonblocking, val),
    {
        if self.cap == 0 {
            self.unbuffered_send(nonblocking, val)
        } else {
            self.buffered_send(nonblocking, val)
        }
    }

    /// One step of a receive, by the channel's kind.
    pub fn recv(&mut self, nonblocking: bool) -> (step: RecvStep<T>)
        requires
            old(self).wf(),
        ensures
            final(self).wf(),
            (final(self)@, step) == sync_recv_next(old(self)@, nonblocking),
    {
        if self.cap == 0 {
            self.unbuffered_recv(nonblocking)
        } else {
            self.buffered_recv(nonblocking)
        }
    }

    /// A receive on a rendezvous channel starts waiting.
    pub fn begin_wait(&mut self)
        requires
            old(self).wf(),
            old(self)@.nwaiting < usize::MAX,
        ensures
            final(self).wf(),
            final(self)@ == (SyncView { nwaiting: old(self)@.nwaiting + 1, ..old(self)@ }),
    {
        self.nwaiting = self.nwaiting + 1;
    }

    /// A waiting receive wakes up.
    pub fn end_wait(&mut self)
        requires
            old(self).wf(),
            old(self)@.nwaiting > 0,
        ensures
            final(self).wf(),
            final(self)@ == (SyncView { nwaiting: (old(self)@.nwaiting - 1) as nat, ..old(self)@ }),
    {
        self.nwaiting = self.nwaiting - 1;
    }
}

} // verus!
