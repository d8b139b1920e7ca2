use vstd::prelude::*;

use crate::async_queue::{async_recv_next, AsyncView};
use crate::channel::{
    recv_next, send_next, type_for, view_wf, ChannelType, DataView, RecvOpKind, RecvStep,
    SendOpKind, SendStep,
};
use crate::id::ChannelId;
use crate::laws::delivers;
use crate::record::{Choice, ChoiceCall, Recorded};
use crate::select::{each_called, is_round, round_calls, round_len};
use crate::sync::{sync_recv_next, sync_send_allowed, sync_send_next, SyncView};
use crate::wait_group::WaitGroup;

verus! {

broadcast use vstd::seq_lib::group_to_multiset_ensures;

/// What a receive on a channel answers, over every channel state: it
/// receives exactly when a value is buffered, and then the oldest one;
/// it answers `Closed` only on a closed, empty channel; on an open, empty
/// channel a blocking receive waits (waking other waiters first only on a
/// rendezvous channel) and a non-blocking one answers `WouldBlock`, however
/// many receives, sends or selects wait. A receive that takes no value
/// changes nothing, and one that does only removes that value.
pub proof fn law_recv_answers<T>(d: DataView<T>, nonblocking: bool)
    ensures
        ({
            let (d1, step) = recv_next(d, nonblocking);
            &&& (step matches RecvStep::Done(RecvOpKind::Received(_))) <==> d.contents.len() > 0
            &&& d.contents.len() > 0 ==> step == RecvStep::Done(RecvOpKind::Received(d.contents[0]))
                && d1 == (DataView { contents: d.contents.drop_first(), ..d })
            &&& step == RecvStep::<T>::Done(RecvOpKind::Closed) <==> (d.closed && d.contents.len()
                == 0)
            &&& step == RecvStep::<T>::Done(RecvOpKind::WouldBlock) <==> (nonblocking && !d.closed
                && d.contents.len() == 0)
            &&& step is Wait <==> (!nonblocking && !d.closed && d.contents.len() == 0)
            &&& step is Wait ==> step->notify == (d.ty == ChannelType::Rendezvous)
            &&& d.contents.len() == 0 ==> d1 == d
        }),
{
}

/// What a send on a channel answers, over every reachable channel state and
/// value:
/// a blocking send never gives up with `WouldBlock` and a non-blocking one
/// never waits; whatever is handed back is the value sent; `Closed` comes
/// only from a closed buffered or rendezvous channel. The value is
/// delivered exactly when it is appended behind the buffered values, and a
/// send that does not deliver changes nothing. An asynchronous send always
/// delivers; a buffered one exactly when the channel is open and its
/// buffer not full; a rendezvous one offers exactly when the channel is
/// open, idle, and the send may block or someone waits to receive, and a
/// blocking one waits while another send is in progress or a value waits.
pub proof fn law_send_answers<T>(d: DataView<T>, nonblocking: bool, v: T)
    requires
        view_wf(d),
    ensures
        ({
            let (d1, step) = send_next(d, nonblocking, v);
            &&& !nonblocking ==> !(step matches SendStep::Done(SendOpKind::WouldBlock(_)))
            &&& nonblocking ==> !(step is Wait)
            &&& (step matches SendStep::Done(SendOpKind::Closed(_))) ==> d.closed && d.ty
                != ChannelType::Async
            &&& match step {
                SendStep::Done(SendOpKind::Closed(w)) => w == v,
                SendStep::Done(SendOpKind::WouldBlock(w)) => w == v,
                SendStep::Wait(w) => w == v,
                _ => true,
            }
            &&& delivers(step) ==> d1 == (DataView { contents: d.contents.push(v), ..d })
            &&& !delivers(step) ==> d1 == d
            &&& (step is Offered) ==> d.ty == ChannelType::Rendezvous
            &&& d.ty == ChannelType::Async ==> step == SendStep::<T>::Done(SendOpKind::Sent)
            &&& d.ty == ChannelType::Buffered ==> (delivers(step) <==> (!d.closed && d.contents.len()
                < d.cap))
            &&& d.ty == ChannelType::Rendezvous ==> (delivers(step) <==> (step is Offered))
            &&& d.ty == ChannelType::Rendezvous ==> (delivers(step) <==> (!d.closed && d.waiting_send
                != 1 && d.contents.len() == 0 && (!nonblocking || d.waiting_recv > 0 || d.select_recv
                > 0)))
            &&& d.ty == ChannelType::Rendezvous && !nonblocking && (d.waiting_send == 1
                || d.contents.len() == 1) ==> step == SendStep::Wait(v)
        }),
{
}

/// A blocking send on an open rendezvous channel either waits its turn or
/// offers its value: it never gives up and never reports the channel
/// closed.
pub proof fn law_blocking_rendezvous_send<T>(d: DataView<T>, v: T)
    requires
        d.ty == ChannelType::Rendezvous,
        !d.closed,
    ensures
        send_next(d, false, v).1 == SendStep::Wait(v) || send_next(d, false, v).1
            == SendStep::<T>::Offered,
{
}

/// The kind of channel `Data::new` makes: asynchronous exactly when asked
/// for; otherwise a rendezvous channel exactly for size zero, and a
/// buffered one for every positive size.
pub proof fn law_channel_kind(size: nat, is_async: bool)
    ensures
        (type_for(size, is_async) == ChannelType::Async) <==> is_async,
        !is_async ==> ((type_for(size, is_async) == ChannelType::Rendezvous) <==> size == 0),
        !is_async && size > 0 ==> type_for(size, is_async) == ChannelType::Buffered,
{
}

/// A buffered channel of capacity `n` that starts open and empty takes
/// exactly `n` non-blocking sends, and then reports that the next one
/// would block.
pub proof fn law_buffered_capacity<T>(d: DataView<T>, v: T)
    requires
        view_wf(d),
        d.ty == ChannelType::Buffered,
        !d.closed,
    ensures
        d.contents.len() < d.cap ==> send_next(d, true, v).1 == SendStep::<T>::Done(SendOpKind::Sent),
        d.contents.len() == d.cap ==> send_next(d, true, v) == (
            d,
            SendStep::Done(SendOpKind::WouldBlock(v)),
        ),
{
}

/// What a receive on a synchronous channel answers, over every state: it
/// receives exactly when a value is held, the oldest one; `Closed` only on
/// a closed, empty channel; on an open, empty channel a blocking receive
/// waits (waking senders first only on a rendezvous channel) and a
/// non-blocking one answers `WouldBlock`; a receive that takes nothing
/// changes nothing.
pub proof fn law_sync_recv_answers<T>(d: SyncView<T>, nonblocking: bool)
    ensures
        ({
            let (d1, step) = sync_recv_next(d, nonblocking);
            &&& (step matches RecvStep::Done(RecvOpKind::Received(_))) <==> d.contents.len() > 0
            &&& d.contents.len() > 0 ==> step == RecvStep::Done(RecvOpKind::Received(d.contents[0]))
                && d1 == (SyncView { contents: d.contents.drop_first(), ..d })
            &&& step == RecvStep::<T>::Done(RecvOpKind::Closed) <==> (d.closed && d.contents.len()
                == 0)
            &&& step == RecvStep::<T>::Done(RecvOpKind::WouldBlock) <==> (nonblocking && !d.closed
                && d.contents.len() == 0)
            &&& step is Wait <==> (!nonblocking && !d.closed && d.contents.len() == 0)
            &&& step is Wait ==> step->notify == (d.cap == 0)
            &&& d.contents.len() == 0 ==> d1 == d
        }),
{
}

/// What a send on a synchronous channel answers where it is allowed (and
/// the channel holds no more than its capacity): a
/// blocking send never gives up and a non-blocking one never waits; it
/// never reports the channel closed; what is handed back is the value
/// sent; it delivers exactly when the value is appended, and otherwise
/// changes nothing. A buffered send delivers exactly while the buffer is
/// not full; a rendezvous send offers exactly when the slot is free and it
/// may block or a receive waits.
pub proof fn law_sync_send_answers<T>(d: SyncView<T>, nonblocking: bool, v: T)
    requires
        sync_send_allowed(d),
        d.contents.len() <= (if d.cap == 0 {
            1
        } else {
            d.cap
        }),
    ensures
        ({
            let (d1, step) = sync_send_next(d, nonblocking, v);
            &&& !nonblocking ==> !(step matches SendStep::Done(SendOpKind::WouldBlock(_)))
            &&& nonblocking ==> !(step is Wait)
            &&& !(step matches SendStep::Done(SendOpKind::Closed(_)))
            &&& match step {
                SendStep::Done(SendOpKind::WouldBlock(w)) => w == v,
                SendStep::Wait(w) => w == v,
                _ => true,
            }
            &&& delivers(step) ==> d1 == (SyncView { contents: d.contents.push(v), ..d })
            &&& !delivers(step) ==> d1 == d
            &&& d.cap > 0 ==> (step == SendStep::<T>::Done(SendOpKind::Sent) <==> d.contents.len()
                < d.cap) && !(step is Offered)
            &&& d.cap == 0 ==> (step is Offered <==> (d.contents.len() == 0 && (!nonblocking
                || d.nwaiting > 0))) && step != SendStep::<T>::Done(SendOpKind::Sent)
        }),
{
}

/// What a receive on an asynchronous queue answers, over every state: it
/// receives exactly when a value is queued, the oldest one; `Closed` only
/// on a closed, empty queue; on an open, empty queue a blocking receive
/// waits and a non-blocking one answers `WouldBlock`; a receive that takes
/// nothing changes nothing.
pub proof fn law_async_recv_answers<T>(d: AsyncView<T>, nonblocking: bool)
    ensures
        ({
            let (d1, step) = async_recv_next(d, nonblocking);
            &&& d.contents.len() > 0 ==> step == RecvStep::Done(RecvOpKind::Received(d.contents[0]))
                && d1 == (AsyncView { contents: d.contents.drop_first(), ..d })
            &&& step == RecvStep::<T>::Done(RecvOpKind::Closed) <==> (d.closed && d.contents.len()
                == 0)
            &&& step == RecvStep::<T>::Done(RecvOpKind::WouldBlock) <==> (nonblocking && !d.closed
                && d.contents.len() == 0)
            &&& step is Wait <==> (!nonblocking && !d.closed && d.contents.len() == 0)
            &&& d.contents.len() == 0 ==> d1 == d
        }),
{
}

/// `try_wait` (and so `wait`) answers `None`, keeping its callers waiting,
/// exactly while participants are running; once none are, it reports
/// whether one of them panicked.
pub proof fn law_try_wait_answers(w: WaitGroup)
    ensures
        w.count() > 0 <==> w.try_wait_result() is None,
        w.count() == 0 ==> w.try_wait_result() == Some(
            if w.poisoned() {
                Err::<(), ()>(())
            } else {
                Ok::<(), ()>(())
            },
        ),
{
}

/// A round of a select synchronizes at most one operation: if it found
/// none, every operation was attempted once and failed; if it found one,
/// that operation is registered and was attempted once and succeeded, and
/// every other operation was attempted at most once, and failed.
pub proof fn law_round_outcome<C: Choice>(
    keys: Seq<ChannelId>,
    order: Seq<ChannelId>,
    before: Seq<Recorded<C>>,
    after: Seq<Recorded<C>>,
    found: Option<ChannelId>,
)
    requires
        keys.no_duplicates(),
        order.to_multiset() == keys.to_multiset(),
        before.len() == keys.len(),
        is_round(keys, order, before, after, found),
    ensures
        found is None ==> forall|i: int|
            0 <= i < keys.len() ==> #[trigger] after[i].calls() == before[i].calls().push(
                ChoiceCall::Attempt(false),
            ),
        found matches Some(id) ==> {
            &&& keys.contains(id)
            &&& forall|i: int|
                0 <= i < keys.len() ==> {
                    &&& keys[i] == id ==> #[trigger] after[i].calls() == before[i].calls().push(
                        ChoiceCall::Attempt(true),
                    )
                    &&& keys[i] != id ==> (after[i].calls() == before[i].calls()
                        || after[i].calls() == before[i].calls().push(ChoiceCall::Attempt(false)))
                }
        },
{
    match found {
        None => {
            assert(order.take(round_len(order, found)) =~= order);
            assert forall|i: int| 0 <= i < keys.len() implies #[trigger] after[i].calls()
                == before[i].calls().push(ChoiceCall::Attempt(false)) by {
                assert(keys.to_multiset().count(keys[i]) > 0);
                assert(order.contains(keys[i]));
            }
        },
        Some(id) => {
            assert(order.to_multiset().count(id) > 0);
            assert(keys.contains(id));
            let j = order.index_of(id);
            assert(order.take(j + 1)[j] == id);
            assert(order.take(round_len(order, found)).contains(id));
        },
    }
}

/// Sending on a synchronous channel is allowed on every open channel, and
/// on a closed one only while a rendezvous slot is still taken, where the
/// send can only wait or give up without delivering.
pub proof fn law_sync_send_allowed<T>(d: SyncView<T>, nonblocking: bool, v: T)
    ensures
        !d.closed ==> sync_send_allowed(d),
        sync_send_allowed(d) && d.closed ==> d.cap == 0 && d.contents.len() > 0 && !delivers(
            sync_send_next(d, nonblocking, v).1,
        ),
{
}

/// Locking (or unlocking, or any call made on every operation) adds that
/// one call to the record of each operation, and nothing else.
pub proof fn law_each_called<C: Choice>(
    before: Seq<Recorded<C>>,
    after: Seq<Recorded<C>>,
    call: ChoiceCall,
)
    requires
        each_called(before, after, call),
    ensures
        after.len() == before.len(),
        forall|i: int|
            0 <= i < before.len() ==> {
                &&& #[trigger] after[i].calls().len() == before[i].calls().len() + 1
                &&& after[i].calls().last() == call
                &&& after[i].calls().drop_last() == before[i].calls()
            },
{
    assert forall|i: int| 0 <= i < before.len() implies {
        &&& #[trigger] after[i].calls().len() == before[i].calls().len() + 1
        &&& after[i].calls().last() == call
        &&& after[i].calls().drop_last() == before[i].calls()
    } by {
        assert(before[i].calls().push(call).drop_last() =~= before[i].calls());
    }
}

/// A round that found nothing attempted every operation once, and each
/// attempt failed.
pub proof fn law_round_calls_none(keys: Seq<ChannelId>, order: Seq<ChannelId>, i: int)
    requires
        order.to_multiset() == keys.to_multiset(),
        0 <= i < keys.len(),
    ensures
        round_calls(keys, order, None, i) == seq![ChoiceCall::Attempt(false)],
{
    assert(order.take(round_len(order, None)) =~= order);
    assert(keys.to_multiset().count(keys[i]) > 0);
    assert(order.contains(keys[i]));
}

} // verus!
