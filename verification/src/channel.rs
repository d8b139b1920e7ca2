use vstd::prelude::*;

use crate::ring::Ring;
use std::collections::VecDeque;

verus! {

/// The synchronization semantics a channel was created with.
#[derive(Clone, Copy, Debug, PartialEq, Eq, Structural)]
pub enum ChannelType {
    /// Unbounded buffer: sends never block.
    Async,
    /// No buffer: a send completes only when a receive takes the value.
    Rendezvous,
    /// Bounded buffer: sends block while the buffer is full.
    Buffered,
}

/// The values held by a channel.
#[derive(Debug)]
pub enum UserData<T> {
    /// Rendezvous channels hold at most one value.
    One(Option<T>),
    /// Buffered channels hold a ring of `cap` slots.
    Ring(Ring<T>),
    /// Asynchronous channels hold an unbounded queue.
    Queue(VecDeque<T>),
}

impl<T> UserData<T> {
    /// The held values, oldest first.
    pub open spec fn view(&self) -> Seq<T> {
        match self {
            UserData::One(Some(v)) => seq![*v],
            UserData::One(None) => Seq::empty(),
            UserData::Ring(r) => r@,
            UserData::Queue(q) => q@,
        }
    }

    pub open spec fn wf(&self) -> bool {
        match self {
            UserData::Ring(r) => r.wf(),
            _ => true,
        }
    }

    /// How many more values `push` accepts (`None`: no limit).
    pub open spec fn room(&self) -> Option<nat> {
        match self {
            UserData::One(o) => Some((1 - self@.len()) as nat),
            UserData::Ring(r) => Some((r.capacity() - r@.len()) as nat),
            UserData::Queue(_) => None,
        }
    }

    /// Append `val` behind the newest held value; the single slot of a
    /// rendezvous channel is overwritten.
    pub fn push(&mut self, val: T)
        requires
            old(self).wf(),
            !(*old(self) is One) ==> old(self).room() != Some(0nat),
        ensures
            final(self).wf(),
            final(self)@ == (if *old(self) is One {
                seq![val]
            } else {
                old(self)@.push(val)
            }),
            match (*old(self), *final(self)) {
                (UserData::One(_), UserData::One(_)) => true,
                (UserData::Ring(a), UserData::Ring(b)) => a.capacity() == b.capacity(),
                (UserData::Queue(_), UserData::Queue(_)) => true,
                _ => false,
            },
    {
        match self {
            UserData::One(val_loc) => {
                *val_loc = Some(val);
            },
            UserData::Ring(r) => {
                proof {
                    r.lemma_len_bound();
                }
                r.push(val);
            },
            UserData::Queue(deque) => {
                deque.push_back(val);
            },
        }
    }

    /// Remove and return the oldest held value.
    pub fn pop(&mut self) -> (val: T)
        requires
            old(self).wf(),
            old(self)@.len() > 0,
        ensures
            final(self).wf(),
            val == old(self)@[0],
            final(self)@ == old(self)@.drop_first(),
            match (*old(self), *final(self)) {
                (UserData::One(_), UserData::One(_)) => true,
                (UserData::Ring(a), UserData::Ring(b)) => a.capacity() == b.capacity(),
                (UserData::Queue(_), UserData::Queue(_)) => true,
                _ => false,
            },
    {
        match self {
            UserData::One(val) => {
                let v = val.take().unwrap();
                assert(Seq::<T>::empty() =~= seq![v].drop_first());
                v
            },
            UserData::Ring(r) => r.pop(),
            UserData::Queue(deque) => {
                let v = deque.pop_front().unwrap();
                assert(deque@ =~= old(self)@.drop_first());
                v
            },
        }
    }

    /// Number of held values.
    pub fn len(&self) -> (n: usize)
        requires
            self.wf(),
        ensures
            n == self@.len(),
    {
        match self {
            UserData::One(val) => if val.is_some() {
                1
            } else {
                0
            },
            UserData::Ring(r) => r.len(),
            UserData::Queue(deque) => deque.len(),
        }
    }
}

/// The outcome of a send operation that did not block.
#[derive(Debug)]
pub enum SendOpKind<T> {
    /// The value was delivered to the channel.
    Sent,
    /// The channel is closed; the value is handed back.
    Closed(T),
    /// The operation would have to block; the value is handed back.
    WouldBlock(T),
}

/// The outcome of a receive operation that did not block.
#[derive(Debug)]
pub enum RecvOpKind<T> {
    /// A value was received.
    Received(T),
    /// The channel is closed and empty.
    Closed,
    /// The operation would have to block.
    WouldBlock,
}

impl<T> SendOpKind<T> {
    /// The result of a non-blocking send: `Err` hands the value back.
    /// A send on a closed channel is a program error and is ruled out.
    pub fn into_result(self) -> (r: Result<(), T>)
        requires
            !(self is Closed),
        ensures
            match self {
                SendOpKind::Sent => r is Ok,
                SendOpKind::WouldBlock(v) => r == Err::<(), T>(v),
                SendOpKind::Closed(_) => false,
            },
    {
        match self {
            SendOpKind::Sent => Ok(()),
            SendOpKind::WouldBlock(val) => Err(val),
            SendOpKind::Closed(val) => Err(val),
        }
    }

    /// Asserts that a blocking send completed.
    pub fn unwrap(self)
        requires
            self is Sent,
    {
    }
}

impl<T> RecvOpKind<T> {
    /// The result of a non-blocking receive: `Ok(None)` on a closed, empty
    /// channel and `Err(())` when the receive would block.
    pub fn into_result(self) -> (r: Result<Option<T>, ()>)
        ensures
            match self {
                RecvOpKind::Received(v) => r == Ok::<Option<T>, ()>(Some(v)),
                RecvOpKind::Closed => r == Ok::<Option<T>, ()>(None),
                RecvOpKind::WouldBlock => r == Err::<Option<T>, ()>(()),
            },
    {
        match self {
            RecvOpKind::Received(val) => Ok(Some(val)),
            RecvOpKind::WouldBlock => Err(()),
            RecvOpKind::Closed => Ok(None),
        }
    }

    /// The result of a blocking receive: `None` once the channel is closed
    /// and empty.
    pub fn unwrap(self) -> (r: Option<T>)
        requires
            !(self is WouldBlock),
        ensures
            match self {
                RecvOpKind::Received(v) => r == Some(v),
                _ => r is None,
            },
    {
        match self {
            RecvOpKind::Received(val) => Some(val),
            _ => None,
        }
    }
}

/// What a receive step tells its caller to do next.
#[derive(Debug)]
pub enum RecvStep<T> {
    /// The receive is over, with this outcome.
    Done(RecvOpKind<T>),
    /// The receive must wait for the channel to change and then step again;
    /// `notify` asks the caller to wake the channel's other waiters first.
    Wait { notify: bool },
}

/// What a send step tells its caller to do next.
#[derive(Debug)]
pub enum SendStep<T> {
    /// The send is over, with this outcome.
    Done(SendOpKind<T>),
    /// The send must wait for the channel to change and then step again
    /// with the value handed back.
    Wait(T),
    /// The value was placed in a rendezvous channel; the sender now waits
    /// until a receiver has taken it.
    Offered,
}

/// The abstract state of a channel.
pub struct DataView<T> {
    pub ty: ChannelType,
    pub cap: nat,
    pub closed: bool,
    pub waiting_send: nat,
    pub waiting_recv: nat,
    pub select_recv: nat,
    pub contents: Seq<T>,
}

/// The state of a channel that its lock guards: its buffer, whether it is
/// closed, and how many operations wait on it.
#[derive(Debug)]
pub struct Data<T> {
    ty: ChannelType,
    cap: usize,
    closed: bool,
    waiting_send: usize,
    waiting_recv: usize,
    select_recv: usize,
    user: UserData<T>,
}

/// The channel type that `Data::new` gives for these arguments.
pub open spec fn type_for(size: nat, is_async: bool) -> ChannelType {
    if is_async {
        ChannelType::Async
    } else if size == 0 {
        ChannelType::Rendezvous
    } else {
        ChannelType::Buffered
    }
}

/// The next state and outcome of a receive step.
pub open spec fn recv_next<T>(d: DataView<T>, nonblocking: bool) -> (DataView<T>, RecvStep<T>) {
    if d.contents.len() > 0 {
        (
            DataView { contents: d.contents.drop_first(), ..d },
            RecvStep::Done(RecvOpKind::Received(d.contents[0])),
        )
    } else if d.closed {
        (d, RecvStep::Done(RecvOpKind::Closed))
    } else if nonblocking {
        (d, RecvStep::Done(RecvOpKind::WouldBlock))
    } else {
        (d, RecvStep::Wait { notify: d.ty == ChannelType::Rendezvous })
    }
}

/// The next state and outcome of a send step.
pub open spec fn send_next<T>(d: DataView<T>, nonblocking: bool, val: T) -> (
    DataView<T>,
    SendStep<T>,
) {
    let pushed = DataView { contents: d.contents.push(val), ..d };
    match d.ty {
        ChannelType::Async => (pushed, SendStep::Done(SendOpKind::Sent)),
        ChannelType::Buffered => if d.contents.len() == d.cap {
            if d.closed {
                (d, SendStep::Done(SendOpKind::Closed(val)))
            } else if nonblocking {
                (d, SendStep::Done(SendOpKind::WouldBlock(val)))
            } else {
                (d, SendStep::Wait(val))
            }
        } else if d.closed {
            (d, SendStep::Done(SendOpKind::Closed(val)))
        } else {
            (pushed, SendStep::Done(SendOpKind::Sent))
        },
        ChannelType::Rendezvous => if d.waiting_send == 1 || d.contents.len() == 1 {
            if nonblocking {
                (d, SendStep::Done(SendOpKind::WouldBlock(val)))
            } else {
                (d, SendStep::Wait(val))
            }
        } else if d.closed {
            (d, SendStep::Done(SendOpKind::Closed(val)))
        } else if nonblocking && d.waiting_recv == 0 && d.select_recv == 0 {
            (d, SendStep::Done(SendOpKind::WouldBlock(val)))
        } else {
            (pushed, SendStep::Offered)
        },
    }
}

impl<T> View for Data<T> {
    type V = DataView<T>;

    closed spec fn view(&self) -> DataView<T> {
        DataView {
            ty: self.ty,
            cap: self.cap as nat,
            closed: self.closed,
            waiting_send: self.waiting_send as nat,
            waiting_recv: self.waiting_recv as nat,
            select_recv: self.select_recv as nat,
            contents: self.user@,
        }
    }
}

/// A channel state that `Data`'s operations can reach: the buffer matches
/// the channel type, and a buffered channel holds at most `cap` values.
pub open spec fn view_wf<T>(d: DataView<T>) -> bool {
    match d.ty {
        ChannelType::Async => true,
        ChannelType::Rendezvous => d.cap == 0 && d.contents.len() <= 1,
        ChannelType::Buffered => 0 < d.cap && d.contents.len() <= d.cap,
    }
}

impl<T> Data<T> {
    pub closed spec fn wf(&self) -> bool {
        &&& self.user.wf()
        &&& match self.ty {
            ChannelType::Async => self.user is Queue,
            ChannelType::Rendezvous => self.cap == 0 && self.user is One,
            ChannelType::Buffered => match self.user {
                UserData::Ring(r) => r.capacity() == self.cap && self.cap > 0,
                _ => false,
            },
        }
    }

    /// Every well-formed channel state is one its operations can reach.
    pub proof fn lemma_view_wf(&self)
        requires
            self.wf(),
        ensures
            view_wf(self@),
    {
        self.lemma_wf();
    }

    proof fn lemma_wf(&self)
        requires
            self.wf(),
        ensures
            view_wf(self@),
            self.user.room() == (match self.ty {
                ChannelType::Async => None,
                _ => Some((if self.ty == ChannelType::Rendezvous {
                    1
                } else {
                    self.cap as int
                } - self@.contents.len()) as nat),
            }),
    {
        match &self.user {
            UserData::Ring(r) => {
                r.lemma_len_bound();
            },
            UserData::One(o) => {},
            UserData::Queue(q) => {},
        }
    }

    /// A new, open, empty channel state: asynchronous when `is_async`, else
    /// a rendezvous channel for `size == 0` and a buffer of `size` values
    /// otherwise.
    pub fn new(size: usize, is_async: bool) -> (d: Self)
        requires
            !is_async ==> size <= isize::MAX,
        ensures
            d.wf(),
            d@.ty == type_for(size as nat, is_async),
            d@.cap == size,
            !d@.closed,
            d@.waiting_send == 0,
            d@.waiting_recv == 0,
            d@.select_recv == 0,
            d@.contents == Seq::<T>::empty(),
    {
        let (user, ty) = if is_async {
            (UserData::Queue(VecDeque::with_capacity(1024)), ChannelType::Async)
        } else if size == 0 {
            (UserData::One(None), ChannelType::Rendezvous)
        } else {
            (UserData::Ring(Ring::new(size)), ChannelType::Buffered)
        };
        Data {
            ty,
            cap: size,
            closed: false,
            waiting_send: 0,
            waiting_recv: 0,
            select_recv: 0,
            user,
        }
    }

    /// The channel type.
    pub fn ty(&self) -> (t: ChannelType)
        ensures
            t == self@.ty,
    {
        self.ty
    }

    /// Whether the channel is closed.
    pub fn is_closed(&self) -> (b: bool)
        ensures
            b == self@.closed,
    {
        self.closed
    }

    /// Number of receives waiting on the channel.
    pub fn waiting_recv(&self) -> (n: usize)
        ensures
            n == self@.waiting_recv,
    {
        self.waiting_recv
    }

    /// Number of selects that wait with a receive on the channel.
    pub fn select_recv(&self) -> (n: usize)
        ensures
            n == self@.select_recv,
    {
        self.select_recv
    }

    /// Number of sends waiting for their value to be taken.
    pub fn waiting_send(&self) -> (n: usize)
        ensures
            n == self@.waiting_send,
    {
        self.waiting_send
    }

    /// Number of values in the buffer.
    pub fn len(&self) -> (n: usize)
        requires
            self.wf(),
        ensures
            n == self@.contents.len(),
    {
        self.user.len()
    }

    /// Close the channel: no value can be sent on it from now on.
    pub fn close(&mut self)
        requires
            old(self).wf(),
        ensures
            final(self).wf(),
            final(self)@ == (DataView { closed: true, ..old(self)@ }),
    {
        self.closed = true;
    }

    /// One step of a receive. A value is taken whenever one is buffered,
    /// also on a closed channel; a closed, empty channel answers `Closed`;
    /// otherwise a non-blocking receive answers `WouldBlock` and a blocking
    /// one must wait.
    pub fn recv(&mut self, nonblocking: bool) -> (step: RecvStep<T>)
        requires
            old(self).wf(),
        ensures
            final(self).wf(),
            (final(self)@, step) == recv_next(old(self)@, nonblocking),
    {
        if self.user.len() == 0 {
            if self.closed {
                return RecvStep::Done(RecvOpKind::Closed);
            }
            if nonblocking {
                return RecvStep::Done(RecvOpKind::WouldBlock);
            }
            return RecvStep::Wait { notify: self.ty == ChannelType::Rendezvous };
        }
        let val = self.user.pop();
        assert(self@ == DataView { contents: old(self)@.contents.drop_first(), ..old(self)@ });
        RecvStep::Done(RecvOpKind::Received(val))
    }

    /// The send of an asynchronous channel, which never blocks: the value is
    /// queued, also on a closed channel.
    pub fn async_send(&mut self, val: T)
        requires
            old(self).wf(),
            old(self)@.ty == ChannelType::Async,
        ensures
            final(self).wf(),
            final(self)@ == (DataView { contents: old(self)@.contents.push(val), ..old(self)@ }),
    {
        self.user.push(val);
    }

    /// One step of a send on a buffered channel: blocks only while the
    /// buffer is full.
    pub fn buffered_send(&mut self, nonblocking: bool, val: T) -> (step: SendStep<T>)
        requires
            old(self).wf(),
            old(self)@.ty == ChannelType::Buffered,
        ensures
            final(self).wf(),
            (final(self)@, step) == send_next(old(self)@, nonblocking, val),
    {
        proof {
            self.lemma_wf();
        }
        if self.user.len() == self.cap {
            if self.closed {
                return SendStep::Done(SendOpKind::Closed(val));
            }
            if nonblocking {
                return SendStep::Done(SendOpKind::WouldBlock(val));
            }
            return SendStep::Wait(val);
        }
        if self.closed {
            return SendStep::Done(SendOpKind::Closed(val));
        }
        self.user.push(val);
        SendStep::Done(SendOpKind::Sent)
    }

    /// The first step of a send on a rendezvous channel: once no other send
    /// is in progress and the slot is free, the value is offered, except
    /// that a non-blocking send offers it only to a receiver that is already
    /// waiting: a blocked receive, or a select waiting with a receive.
    pub fn rendezvous_send(&mut self, nonblocking: bool, val: T) -> (step: SendStep<T>)
        requires
            old(self).wf(),
            old(self)@.ty == ChannelType::Rendezvous,
        ensures
            final(self).wf(),
            (final(self)@, step) == send_next(old(self)@, nonblocking, val),
    {
        proof {
            self.lemma_wf();
        }
        if self.waiting_send == 1 || self.user.len() == 1 {
            if nonblocking {
                return SendStep::Done(SendOpKind::WouldBlock(val));
            }
            return SendStep::Wait(val);
        }
        if self.closed {
            return SendStep::Done(SendOpKind::Closed(val));
        }
        if nonblocking && self.waiting_recv == 0 && self.select_recv == 0 {
            return SendStep::Done(SendOpKind::WouldBlock(val));
        }
        self.user.push(val);
        SendStep::Offered
    }

    /// One step of a send, by the channel's type.
    pub fn send(&mut self, nonblocking: bool, val: T) -> (step: SendStep<T>)
        requires
            old(self).wf(),
        ensures
            final(self).wf(),
            (final(self)@, step) == send_next(old(self)@, nonblocking, val),
    {
        match self.ty {
            ChannelType::Async => {
                self.async_send(val);
                SendStep::Done(SendOpKind::Sent)
            },
            ChannelType::Rendezvous => self.rendezvous_send(nonblocking, val),
            ChannelType::Buffered => self.buffered_send(nonblocking, val),
        }
    }

    /// Whether a value offered on a rendezvous channel still waits to be
    /// taken.
    pub fn offer_pending(&self) -> (b: bool)
        requires
            self.wf(),
        ensures
            b == (self@.contents.len() == 1),
    {
        self.user.len() == 1
    }

    /// A receive starts waiting.
    pub fn begin_wait_recv(&mut self)
        requires
            old(self).wf(),
            old(self)@.waiting_recv < usize::MAX,
        ensures
            final(self).wf(),
            final(self)@ == (DataView { waiting_recv: old(self)@.waiting_recv + 1, ..old(self)@ }),
    {
        self.waiting_recv = self.waiting_recv + 1;
    }

    /// A waiting receive wakes up.
    pub fn end_wait_recv(&mut self)
        requires
            old(self).wf(),
            old(self)@.waiting_recv > 0,
        ensures
            final(self).wf(),
            final(self)@ == (DataView {
                waiting_recv: (old(self)@.waiting_recv - 1) as nat,
                ..old(self)@
            }),
    {
        self.waiting_recv = self.waiting_recv - 1;
    }

    /// A send that offered its value starts waiting for it to be taken.
    pub fn begin_wait_send(&mut self)
        requires
            old(self).wf(),
            old(self)@.waiting_send < usize::MAX,
        ensures
            final(self).wf(),
            final(self)@ == (DataView { waiting_send: old(self)@.waiting_send + 1, ..old(self)@ }),
    {
        self.waiting_send = self.waiting_send + 1;
    }

    /// A waiting send wakes up.
    pub fn end_wait_send(&mut self)
        requires
            old(self).wf(),
            old(self)@.waiting_send > 0,
        ensures
            final(self).wf(),
            final(self)@ == (DataView {
                waiting_send: (old(self)@.waiting_send - 1) as nat,
                ..old(self)@
            }),
    {
        self.waiting_send = self.waiting_send - 1;
    }

    /// A select with a receive on the channel subscribed to it, and may
    /// wait for a value.
    pub fn begin_select_recv(&mut self)
        requires
            old(self).wf(),
            old(self)@.select_recv < usize::MAX,
        ensures
            final(self).wf(),
            final(self)@ == (DataView { select_recv: old(self)@.select_recv + 1, ..old(self)@ }),
    {
        self.select_recv = self.select_recv + 1;
    }

    /// A select with a receive on the channel unsubscribed from it.
    pub fn end_select_recv(&mut self)
        requires
            old(self).wf(),
            old(self)@.select_recv > 0,
        ensures
            final(self).wf(),
            final(self)@ == (DataView {
                select_recv: (old(self)@.select_recv - 1) as nat,
                ..old(self)@
            }),
    {
        self.select_recv = self.select_recv - 1;
    }
}

} // verus!
