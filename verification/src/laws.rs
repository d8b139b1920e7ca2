use vstd::prelude::*;

use crate::async_queue::{async_recv_next, AsyncView};
use crate::channel::{
    recv_next, send_next, view_wf, ChannelType, DataView, RecvOpKind, RecvStep, SendOpKind,
    SendStep,
};
use crate::sync::{sync_recv_next, sync_send_allowed, sync_send_next, SyncView};

verus! {

/// The state after sending each of `vals` in order, one step each.
pub open spec fn send_all<T>(d: DataView<T>, nonblocking: bool, vals: Seq<T>) -> DataView<T>
    decreases vals.len(),
{
    if vals.len() == 0 {
        d
    } else {
        send_all(send_next(d, nonblocking, vals[0]).0, nonblocking, vals.drop_first())
    }
}

/// Whether each send of `vals`, in order, completes in one step.
pub open spec fn sends_complete<T>(d: DataView<T>, nonblocking: bool, vals: Seq<T>) -> bool
    decreases vals.len(),
{
    if vals.len() == 0 {
        true
    } else {
        &&& send_next(d, nonblocking, vals[0]).1 == SendStep::<T>::Done(SendOpKind::Sent)
        &&& sends_complete(send_next(d, nonblocking, vals[0]).0, nonblocking, vals.drop_first())
    }
}

/// The state after `n` receive steps, and the values they received, in
/// order.
pub open spec fn recv_all<T>(d: DataView<T>, nonblocking: bool, n: nat) -> (DataView<T>, Seq<T>)
    decreases n,
{
    if n == 0 {
        (d, Seq::empty())
    } else {
        let (d1, step) = recv_next(d, nonblocking);
        let (d2, rest) = recv_all(d1, nonblocking, (n - 1) as nat);
        match step {
            RecvStep::Done(RecvOpKind::Received(v)) => (d2, seq![v] + rest),
            _ => (d2, rest),
        }
    }
}

proof fn lemma_send_all<T>(d: DataView<T>, nonblocking: bool, vals: Seq<T>)
    requires
        view_wf(d),
        !d.closed,
        d.ty != ChannelType::Rendezvous,
        d.ty == ChannelType::Buffered ==> d.contents.len() + vals.len() <= d.cap,
    ensures
        sends_complete(d, nonblocking, vals),
        send_all(d, nonblocking, vals) == (DataView { contents: d.contents + vals, ..d }),
    decreases vals.len(),
{
    if vals.len() > 0 {
        let d1 = send_next(d, nonblocking, vals[0]).0;
        assert(d1 == DataView { contents: d.contents.push(vals[0]), ..d });
        lemma_send_all(d1, nonblocking, vals.drop_first());
        assert(d.contents.push(vals[0]) + vals.drop_first() =~= d.contents + vals);
    } else {
        assert(d.contents + vals =~= d.contents);
    }
}

proof fn lemma_recv_all<T>(d: DataView<T>, nonblocking: bool)
    ensures
        recv_all(d, nonblocking, d.contents.len()).1 == d.contents,
        recv_all(d, nonblocking, d.contents.len()).0 == (DataView { contents: Seq::<T>::empty(), ..d }),
    decreases d.contents.len(),
{
    if d.contents.len() > 0 {
        let d1 = recv_next(d, nonblocking).0;
        lemma_recv_all(d1, nonblocking);
        assert(seq![d.contents[0]] + d.contents.drop_first() =~= d.contents);
    } else {
        assert(d.contents =~= Seq::<T>::empty());
    }
}

/// Values are received in the order in which they were sent: on an open
/// asynchronous channel, or a buffered one with room for them, each send of
/// `vals` completes at once, and then receiving everything gives the values
/// that were buffered before, followed by `vals`, and empties the channel.
pub proof fn law_fifo<T>(d: DataView<T>, nonblocking: bool, vals: Seq<T>)
    requires
        view_wf(d),
        !d.closed,
        d.ty != ChannelType::Rendezvous,
        d.ty == ChannelType::Buffered ==> d.contents.len() + vals.len() <= d.cap,
    ensures
        sends_complete(d, nonblocking, vals),
        ({
            let (after, got) = recv_all(
                send_all(d, nonblocking, vals),
                nonblocking,
                d.contents.len() + vals.len(),
            );
            &&& got == d.contents + vals
            &&& after.contents.len() == 0
        }),
{
    lemma_send_all(d, nonblocking, vals);
    let s = send_all(d, nonblocking, vals);
    lemma_recv_all(s, nonblocking);
}

/// A rendezvous send hands its value to the next receive: on an open,
/// idle rendezvous channel a blocking send offers the value, the sender's
/// value then waits to be taken, and the next receive takes exactly it and
/// frees the slot. A non-blocking send succeeds in offering only when a
/// receiver is waiting.
pub proof fn law_rendezvous_handoff<T>(d: DataView<T>, nonblocking: bool, val: T)
    requires
        view_wf(d),
        d.ty == ChannelType::Rendezvous,
        !d.closed,
        d.waiting_send == 0,
        d.contents.len() == 0,
    ensures
        (!nonblocking || d.waiting_recv > 0 || d.select_recv > 0) ==> {
            let (d1, step) = send_next(d, nonblocking, val);
            &&& step == SendStep::<T>::Offered
            &&& d1.contents.len() == 1
            &&& recv_next(d1, nonblocking).1 == RecvStep::Done(RecvOpKind::Received(val))
            &&& recv_next(d1, nonblocking).0.contents.len() == 0
        },
        (nonblocking && d.waiting_recv == 0 && d.select_recv == 0) ==> send_next(d, nonblocking, val) == (
            d,
            SendStep::Done(SendOpKind::WouldBlock(val)),
        ),
{
}

/// A channel, once closed, stays closed: no send or receive step reopens
/// it.
pub proof fn law_closed_is_final<T>(d: DataView<T>, nonblocking: bool, val: T)
    requires
        d.closed,
    ensures
        send_next(d, nonblocking, val).0.closed,
        recv_next(d, nonblocking).0.closed,
{
}

/// On a closed channel, receives first drain the buffer, oldest value
/// first, and once it is empty every receive, blocking or not, answers
/// `Closed` at once and changes nothing.
pub proof fn law_recv_after_close<T>(d: DataView<T>, nonblocking: bool)
    requires
        d.closed,
    ensures
        d.contents.len() > 0 ==> recv_next(d, nonblocking) == (
            DataView { contents: d.contents.drop_first(), ..d },
            RecvStep::Done(RecvOpKind::Received(d.contents[0])),
        ),
        d.contents.len() == 0 ==> recv_next(d, nonblocking) == (d, RecvStep::<T>::Done(RecvOpKind::Closed)),
        recv_all(d, nonblocking, d.contents.len()).1 == d.contents,
{
    lemma_recv_all(d, nonblocking);
}

/// No value is delivered to a closed buffered or rendezvous channel: a
/// send step on it either hands the value back or waits for the buffer.
pub proof fn law_no_send_after_close<T>(d: DataView<T>, nonblocking: bool, val: T)
    requires
        d.closed,
        d.ty != ChannelType::Async,
    ensures
        send_next(d, nonblocking, val).0 == d,
        match send_next(d, nonblocking, val).1 {
            SendStep::Done(SendOpKind::Closed(v)) => v == val,
            SendStep::Done(SendOpKind::WouldBlock(v)) => v == val,
            SendStep::Wait(v) => v == val,
            _ => false,
        },
{
}

/// The operations that never block: a send on a buffered channel whose
/// buffer is not full, a send on an asynchronous channel, a receive on a
/// channel holding a value, a receive on a closed channel, and a rendezvous
/// send or receive when the other side already waits.
pub proof fn law_non_blocking<T>(d: DataView<T>, val: T)
    requires
        view_wf(d),
    ensures
        d.ty == ChannelType::Buffered && !d.closed && d.contents.len() < d.cap ==> send_next(
            d,
            true,
            val,
        ).1 == SendStep::<T>::Done(SendOpKind::Sent),
        d.ty == ChannelType::Async ==> send_next(d, true, val).1 == SendStep::<T>::Done(
            SendOpKind::Sent,
        ),
        d.contents.len() > 0 ==> recv_next(d, true).1 == RecvStep::Done(
            RecvOpKind::Received(d.contents[0]),
        ),
        d.closed ==> !(recv_next(d, true).1 is Wait) && recv_next(d, true).1 != RecvStep::<
            T,
        >::Done(RecvOpKind::WouldBlock),
        d.ty == ChannelType::Rendezvous && !d.closed && d.waiting_send == 0 && d.contents.len() == 0
            && (d.waiting_recv > 0 || d.select_recv > 0) ==> send_next(d, true, val).1 == SendStep::<
            T,
        >::Offered,
{
}

/// A non-blocking receive reports `WouldBlock` exactly when a blocking one
/// would wait, and otherwise both do the same.
pub proof fn law_try_recv_matches_recv<T>(d: DataView<T>)
    ensures
        (recv_next(d, true).1 == RecvStep::<T>::Done(RecvOpKind::WouldBlock)) <==> (recv_next(
            d,
            false,
        ).1 is Wait),
        !(recv_next(d, false).1 is Wait) ==> recv_next(d, true) == recv_next(d, false),
{
}

/// Every step keeps a channel state reachable: a buffered channel never
/// holds more than its capacity, and a rendezvous channel never more than
/// one value.
pub proof fn law_capacity<T>(d: DataView<T>, nonblocking: bool, val: T)
    requires
        view_wf(d),
    ensures
        view_wf(send_next(d, nonblocking, val).0),
        view_wf(recv_next(d, nonblocking).0),
        d.ty == ChannelType::Buffered && d.contents.len() == d.cap ==> send_next(
            d,
            nonblocking,
            val,
        ).0 == d,
        d.ty == ChannelType::Buffered && d.contents.len() == d.cap && !d.closed && !nonblocking
            ==> send_next(d, nonblocking, val).1 == SendStep::Wait(val),
{
}

/// On buffered and asynchronous channels a non-blocking send reports
/// `WouldBlock` exactly when a blocking one would wait, and otherwise both
/// do the same.
pub proof fn law_try_send_matches_send<T>(d: DataView<T>, val: T)
    requires
        d.ty != ChannelType::Rendezvous,
    ensures
        (send_next(d, true, val).1 == SendStep::Done(SendOpKind::WouldBlock(val))) <==> (send_next(
            d,
            false,
            val,
        ).1 is Wait),
        !(send_next(d, false, val).1 is Wait) ==> send_next(d, true, val) == send_next(d, false, val),
{
}

/// The state after sending each of `vals` in order on a synchronous
/// channel, one step each.
pub open spec fn sync_send_all<T>(d: SyncView<T>, nonblocking: bool, vals: Seq<T>) -> SyncView<T>
    decreases vals.len(),
{
    if vals.len() == 0 {
        d
    } else {
        sync_send_all(sync_send_next(d, nonblocking, vals[0]).0, nonblocking, vals.drop_first())
    }
}

/// The state after `n` receive steps on a synchronous channel, and the
/// values they received, in order.
pub open spec fn sync_recv_all<T>(d: SyncView<T>, nonblocking: bool, n: nat) -> (SyncView<T>, Seq<T>)
    decreases n,
{
    if n == 0 {
        (d, Seq::empty())
    } else {
        let (d1, step) = sync_recv_next(d, nonblocking);
        let (d2, rest) = sync_recv_all(d1, nonblocking, (n - 1) as nat);
        match step {
            RecvStep::Done(RecvOpKind::Received(v)) => (d2, seq![v] + rest),
            _ => (d2, rest),
        }
    }
}

proof fn lemma_sync_send_all<T>(d: SyncView<T>, nonblocking: bool, vals: Seq<T>)
    requires
        d.cap > 0,
        !d.closed,
        d.contents.len() + vals.len() <= d.cap,
    ensures
        sync_send_all(d, nonblocking, vals) == (SyncView { contents: d.contents + vals, ..d }),
    decreases vals.len(),
{
    if vals.len() > 0 {
        let d1 = sync_send_next(d, nonblocking, vals[0]).0;
        lemma_sync_send_all(d1, nonblocking, vals.drop_first());
        assert(d.contents.push(vals[0]) + vals.drop_first() =~= d.contents + vals);
    } else {
        assert(d.contents + vals =~= d.contents);
    }
}

proof fn lemma_sync_recv_all<T>(d: SyncView<T>, nonblocking: bool)
    ensures
        sync_recv_all(d, nonblocking, d.contents.len()).1 == d.contents,
        sync_recv_all(d, nonblocking, d.contents.len()).0.contents.len() == 0,
    decreases d.contents.len(),
{
    if d.contents.len() > 0 {
        let d1 = sync_recv_next(d, nonblocking).0;
        lemma_sync_recv_all(d1, nonblocking);
        assert(seq![d.contents[0]] + d.contents.drop_first() =~= d.contents);
    }
}

/// Values sent on an open synchronous buffered channel with room for them
/// are received in the order in which they were sent, after the values
/// buffered before.
pub proof fn law_sync_fifo<T>(d: SyncView<T>, nonblocking: bool, vals: Seq<T>)
    requires
        d.cap > 0,
        !d.closed,
        d.contents.len() + vals.len() <= d.cap,
    ensures
        ({
            let (after, got) = sync_recv_all(
                sync_send_all(d, nonblocking, vals),
                nonblocking,
                d.contents.len() + vals.len(),
            );
            &&& got == d.contents + vals
            &&& after.contents.len() == 0
        }),
{
    lemma_sync_send_all(d, nonblocking, vals);
    lemma_sync_recv_all(sync_send_all(d, nonblocking, vals), nonblocking);
}

/// On a closed synchronous channel receives first drain what is buffered,
/// in order, and then answer `Closed` at once; no send is allowed on it
/// once its slot or buffer is free.
pub proof fn law_sync_after_close<T>(d: SyncView<T>, nonblocking: bool)
    requires
        d.closed,
    ensures
        sync_recv_all(d, nonblocking, d.contents.len()).1 == d.contents,
        d.contents.len() == 0 ==> sync_recv_next(d, nonblocking) == (
            d,
            RecvStep::<T>::Done(RecvOpKind::Closed),
        ),
        d.cap > 0 || d.contents.len() == 0 ==> !sync_send_allowed(d),
{
    lemma_sync_recv_all(d, nonblocking);
}

/// A rendezvous send on a synchronous channel hands its value to the next
/// receive; without a waiting receiver a non-blocking send gives up.
pub proof fn law_sync_rendezvous_handoff<T>(d: SyncView<T>, nonblocking: bool, val: T)
    requires
        d.cap == 0,
        !d.closed,
        d.contents.len() == 0,
    ensures
        (!nonblocking || d.nwaiting > 0) ==> {
            let (d1, step) = sync_send_next(d, nonblocking, val);
            &&& step == SendStep::<T>::Offered
            &&& sync_recv_next(d1, nonblocking).1 == RecvStep::Done(RecvOpKind::Received(val))
            &&& sync_recv_next(d1, nonblocking).0.contents.len() == 0
        },
        (nonblocking && d.nwaiting == 0) ==> sync_send_next(d, nonblocking, val).1
            == SendStep::Done(SendOpKind::WouldBlock(val)),
{
}

/// The state after `n` receive steps on an asynchronous queue, and the
/// values they received, in order.
pub open spec fn async_recv_all<T>(d: AsyncView<T>, nonblocking: bool, n: nat) -> (AsyncView<T>, Seq<T>)
    decreases n,
{
    if n == 0 {
        (d, Seq::empty())
    } else {
        let (d1, step) = async_recv_next(d, nonblocking);
        let (d2, rest) = async_recv_all(d1, nonblocking, (n - 1) as nat);
        match step {
            RecvStep::Done(RecvOpKind::Received(v)) => (d2, seq![v] + rest),
            _ => (d2, rest),
        }
    }
}

/// An asynchronous queue hands out what it holds oldest first, also after
/// it was closed, and then reports `Closed` when closed.
pub proof fn law_async_fifo<T>(d: AsyncView<T>, nonblocking: bool)
    ensures
        async_recv_all(d, nonblocking, d.contents.len()).1 == d.contents,
        async_recv_all(d, nonblocking, d.contents.len()).0.contents.len() == 0,
        d.closed ==> async_recv_next(async_recv_all(d, nonblocking, d.contents.len()).0, nonblocking).1
            == RecvStep::<T>::Done(RecvOpKind::Closed),
    decreases d.contents.len(),
{
    if d.contents.len() > 0 {
        let d1 = async_recv_next(d, nonblocking).0;
        law_async_fifo(d1, nonblocking);
        assert(seq![d.contents[0]] + d.contents.drop_first() =~= d.contents);
    }
}

/// One operation on a channel: a send of a value, or a receive, each
/// blocking or not.
pub enum ChanOp<T> {
    Send(T, bool),
    Recv(bool),
}

/// Whether a send step delivered its value to the channel.
pub open spec fn delivers<T>(step: SendStep<T>) -> bool {
    step == SendStep::<T>::Done(SendOpKind::Sent) || step is Offered
}

/// One step of each of `ops` in turn: the final state, the values that the
/// sends delivered, and the values that the receives got, in order.
pub open spec fn run<T>(d: DataView<T>, ops: Seq<ChanOp<T>>) -> (DataView<T>, Seq<T>, Seq<T>)
    decreases ops.len(),
{
    if ops.len() == 0 {
        (d, Seq::empty(), Seq::empty())
    } else {
        match ops[0] {
            ChanOp::Send(v, nonblocking) => {
                let (d1, step) = send_next(d, nonblocking, v);
                let (d2, delivered, received) = run(d1, ops.drop_first());
                (d2, if delivers(step) {
                    seq![v] + delivered
                } else {
                    delivered
                }, received)
            },
            ChanOp::Recv(nonblocking) => {
                let (d1, step) = recv_next(d, nonblocking);
                let (d2, delivered, received) = run(d1, ops.drop_first());
                (d2, delivered, match step {
                    RecvStep::Done(RecvOpKind::Received(v)) => seq![v] + received,
                    _ => received,
                })
            },
        }
    }
}

/// Values are received in the order in which they were delivered, for any
/// interleaving of sends and receives on any kind of channel: what the
/// receives got, followed by what is still buffered, is what was buffered
/// at the start followed by every value the sends delivered.
pub proof fn law_fifo_interleaved<T>(d: DataView<T>, ops: Seq<ChanOp<T>>)
    ensures
        ({
            let (after, delivered, received) = run(d, ops);
            received + after.contents == d.contents + delivered
        }),
    decreases ops.len(),
{
    if ops.len() == 0 {
        assert(Seq::<T>::empty() + d.contents =~= d.contents + Seq::<T>::empty());
    } else {
        match ops[0] {
            ChanOp::Send(v, nonblocking) => {
                let (d1, step) = send_next(d, nonblocking, v);
                law_fifo_interleaved(d1, ops.drop_first());
                let (d2, dl, rc) = run(d1, ops.drop_first());
                if delivers(step) {
                    assert(d1.contents == d.contents.push(v));
                    assert(d.contents.push(v) + dl =~= d.contents + (seq![v] + dl));
                } else {
                    assert(d1.contents == d.contents);
                }
            },
            ChanOp::Recv(nonblocking) => {
                let (d1, step) = recv_next(d, nonblocking);
                law_fifo_interleaved(d1, ops.drop_first());
                let (d2, dl, rc) = run(d1, ops.drop_first());
                match step {
                    RecvStep::Done(RecvOpKind::Received(v)) => {
                        assert(d.contents =~= seq![v] + d1.contents);
                        assert((seq![v] + rc) + d2.contents =~= seq![v] + (rc + d2.contents));
                        assert(seq![v] + (d1.contents + dl) =~= (seq![v] + d1.contents) + dl);
                    },
                    _ => {
                        assert(d1.contents == d.contents);
                    },
                }
            },
        }
    }
}

/// A rendezvous channel has at most one value in flight: while an offered
/// value waits to be taken, no send step delivers anything or changes the
/// channel, and the next receive takes exactly that value and frees the
/// slot, which is when the offering send may return.
pub proof fn law_rendezvous_one_in_flight<T>(d: DataView<T>, nonblocking: bool, val: T)
    requires
        view_wf(d),
        d.ty == ChannelType::Rendezvous,
        d.contents.len() == 1,
    ensures
        !delivers(send_next(d, nonblocking, val).1),
        send_next(d, nonblocking, val).0 == d,
        recv_next(d, nonblocking).1 == RecvStep::Done(RecvOpKind::Received(d.contents[0])),
        recv_next(d, nonblocking).0.contents.len() == 0,
{
}

/// Two selects on the two ends of a rendezvous channel meet: once a
/// select waiting with a receive is counted on the open, idle channel, the
/// attempt of a select's send offers its value, and the next attempt of a
/// receive takes exactly that value and frees the slot.
pub proof fn law_select_rendezvous<T>(d: DataView<T>, val: T)
    requires
        view_wf(d),
        d.ty == ChannelType::Rendezvous,
        !d.closed,
        d.waiting_send == 0,
        d.contents.len() == 0,
        d.select_recv > 0,
    ensures
        ({
            let (d1, step) = send_next(d, true, val);
            &&& step == SendStep::<T>::Offered
            &&& recv_next(d1, true) == (
                DataView { contents: Seq::<T>::empty(), ..d1 },
                RecvStep::Done(RecvOpKind::Received(val)),
            )
            &&& recv_next(d1, true).0 == (DataView { contents: Seq::<T>::empty(), ..d })
        }),
{
    let (d1, step) = send_next(d, true, val);
    assert(d1.contents.drop_first() =~= Seq::<T>::empty());
}

/// A send's offered value is the first value received after it: from a
/// state in which the value `v` waits in the slot, over any sequence of
/// sends and receives, the first value received is `v`, and once the slot
/// is free again (the moment the offering send may return) `v` has been
/// received.
pub proof fn law_offer_taken_before_return<T>(d: DataView<T>, ops: Seq<ChanOp<T>>, v: T)
    requires
        d.contents == seq![v],
    ensures
        ({
            let (after, delivered, received) = run(d, ops);
            &&& received.len() > 0 ==> received[0] == v
            &&& after.contents.len() == 0 ==> received.len() > 0 && received[0] == v
        }),
{
    law_fifo_interleaved(d, ops);
    let (after, delivered, received) = run(d, ops);
    assert((received + after.contents)[0] == (seq![v] + delivered)[0]);
    if after.contents.len() == 0 {
        assert(received + after.contents =~= received);
        assert(received.len() == 1 + delivered.len());
    }
}

} // verus!
