use vstd::prelude::*;

use crate::channel::{RecvOpKind, RecvStep};
use std::collections::VecDeque;

verus! {

/// The abstract state of an asynchronous channel.
pub struct AsyncView<T> {
    pub closed: bool,
    pub contents: Seq<T>,
}

/// The state of an asynchronous channel: an unbounded queue.
#[derive(Debug)]
pub struct AsyncQueue<T> {
    queue: VecDeque<T>,
    closed: bool,
}

impl<T> View for AsyncQueue<T> {
    type V = AsyncView<T>;

    closed spec fn view(&self) -> AsyncView<T> {
        AsyncView { closed: self.closed, contents: self.queue@ }
    }
}

/// The next state and outcome of a receive step.
pub open spec fn async_recv_next<T>(d: AsyncView<T>, nonblocking: bool) -> (AsyncView<T>, RecvStep<T>) {
    if d.contents.len() > 0 {
        (
            AsyncView { contents: d.contents.drop_first(), ..d },
            RecvStep::Done(RecvOpKind::Received(d.contents[0])),
        )
    } else if d.closed {
        (d, RecvStep::Done(RecvOpKind::Closed))
    } else if nonblocking {
        (d, RecvStep::Done(RecvOpKind::WouldBlock))
    } else {
        (d, RecvStep::Wait { notify: false })
    }
}

impl<T> AsyncQueue<T> {
    /// A new, open, empty queue.
    pub fn new() -> (q: Self)
        ensures
            !q@.closed,
            q@.contents == Seq::<T>::empty(),
    {
        AsyncQueue { queue: VecDeque::with_capacity(1024), closed: false }
    }

    /// Queue `val`; this never blocks, also on a closed channel.
    pub fn send(&mut self, val: T)
        ensures
            final(self)@ == (AsyncView { contents: old(self)@.contents.push(val), ..old(self)@ }),
    {
        self.queue.push_back(val);
    }

    /// One step of a receive.
    pub fn recv(&mut self, nonblocking: bool) -> (step: RecvStep<T>)
        ensures
            (final(self)@, step) == async_recv_next(old(self)@, nonblocking),
    {
        if self.queue.len() == 0 {
            if self.closed {
                return RecvStep::Done(RecvOpKind::Closed);
            }
            if nonblocking {
                return RecvStep::Done(RecvOpKind::WouldBlock);
            }
            return RecvStep::Wait { notify: false };
        }
        let val = self.queue.pop_front().unwrap();
        assert(self.queue@ =~= old(self)@.contents.drop_first());
        RecvStep::Done(RecvOpKind::Received(val))
    }

    /// Close the channel.
    pub fn close(&mut self)
        ensures
            final(self)@ == (AsyncView { closed: true, ..old(self)@ }),
    {
        self.closed = true;
    }
}

} // verus!
