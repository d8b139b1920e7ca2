use chan::async_queue::AsyncQueue;
use chan::channel::{RecvOpKind, RecvStep, SendOpKind, SendStep, UserData};
use chan::id::{ChannelId, ChannelKey};
use chan::notifier::Notifier;
use chan::ring::Ring;
use chan::sync::Data as SyncData;
use chan::tracker::Tracker;
use chan::wait_group::WaitGroup;

#[test]
fn ring_wraps_around_in_order() {
    let mut r: Ring<u32> = Ring::new(3);
    assert_eq!(r.cap(), 3);
    r.push(1);
    r.push(2);
    assert_eq!(r.pop(), 1);
    r.push(3);
    r.push(4);
    assert_eq!(r.len(), 3);
    assert_eq!(r.pop(), 2);
    assert_eq!(r.pop(), 3);
    r.push(5);
    assert_eq!(r.pop(), 4);
    assert_eq!(r.pop(), 5);
    assert_eq!(r.len(), 0);
}

#[test]
fn ring_single_slot() {
    let mut r: Ring<&str> = Ring::new(1);
    assert!(!r.has_value());
    r.put("x");
    assert!(r.has_value());
    assert_eq!(r.take(), "x");
    assert!(!r.has_value());
}

#[test]
fn user_data_variants() {
    let mut one: UserData<i32> = UserData::One(None);
    assert_eq!(one.len(), 0);
    one.push(7);
    assert_eq!(one.len(), 1);
    assert_eq!(one.pop(), 7);
    let mut ring: UserData<i32> = UserData::Ring(Ring::new(2));
    ring.push(1);
    ring.push(2);
    assert_eq!(ring.pop(), 1);
    assert_eq!(ring.len(), 1);
    let mut q: UserData<i32> = UserData::Queue(std::collections::VecDeque::new());
    q.push(1);
    q.push(2);
    assert_eq!(q.pop(), 1);
    assert_eq!(q.len(), 1);
}

#[test]
fn channel_ids() {
    assert_eq!(ChannelId::sender(3), ChannelId(ChannelKey::Sender(3)));
    assert_eq!(ChannelId::receiver(3), ChannelId(ChannelKey::Receiver(3)));
    assert_ne!(ChannelId::sender(3), ChannelId::receiver(3));
}

#[test]
fn tracker_counts_and_reports_last() {
    let mut t = Tracker::new();
    assert!(!t.any_senders());
    t.add_sender();
    t.add_sender();
    t.add_receiver();
    assert!(t.any_senders());
    assert!(t.any_receivers());
    assert!(!t.remove_sender());
    assert!(t.remove_sender());
    assert!(!t.any_senders());
    assert!(t.remove_receiver());
    assert!(!t.any_receivers());
}

#[test]
fn notifier_subscriptions() {
    let mut n: Notifier<&str> = Notifier::new();
    assert_eq!(n.len(), 0);
    let a = n.subscribe("a");
    let b = n.subscribe("b");
    assert_eq!(a, 0);
    assert_eq!(b, 1);
    assert_eq!(n.len(), 2);
    let mut woken: Vec<&str> = n.notify().into_iter().map(|s| *s).collect();
    woken.sort();
    assert_eq!(woken, vec!["a", "b"]);
    n.unsubscribe(a);
    assert_eq!(n.len(), 1);
    n.unsubscribe(a);
    assert_eq!(n.len(), 1);
    let c = n.subscribe("c");
    assert_eq!(c, 2);
    n.unsubscribe(b);
    n.unsubscribe(c);
    assert_eq!(n.len(), 0);
    assert!(n.notify().is_empty());
}

#[test]
fn wait_group_counts() {
    let mut wg = WaitGroup::new();
    assert_eq!(wg.try_wait(), Some(Ok(())));
    wg.add(1);
    wg.add(1);
    assert_eq!(wg.get_count(), 2);
    assert_eq!(wg.try_wait(), None);
    assert!(!wg.wait());
    wg.done();
    wg.done();
    assert!(wg.wait());
    assert_eq!(wg.try_wait(), Some(Ok(())));
}

#[test]
fn wait_group_poisoned_by_panicking_drop() {
    let mut wg = WaitGroup::new();
    wg.add(2);
    assert!(wg.drop_while_panicking());
    assert!(wg.is_poisoned());
    assert_eq!(wg.try_wait(), None);
    wg.done();
    assert_eq!(wg.try_wait(), Some(Err(())));
    assert!(!wg.drop_while_panicking());
    assert_eq!(wg.get_count(), 0);
}

#[test]
fn sync_buffered_state() {
    let mut d: SyncData<i32> = SyncData::new(2);
    assert!(matches!(d.send(true, 1), SendStep::Done(SendOpKind::Sent)));
    assert!(matches!(d.send(true, 2), SendStep::Done(SendOpKind::Sent)));
    assert!(matches!(d.send(true, 3), SendStep::Done(SendOpKind::WouldBlock(3))));
    assert!(matches!(d.send(false, 3), SendStep::Wait(3)));
    assert!(matches!(d.recv(true), RecvStep::Done(RecvOpKind::Received(1))));
    d.close();
    assert!(!d.send_allowed());
    assert!(matches!(d.recv(false), RecvStep::Done(RecvOpKind::Received(2))));
    assert!(matches!(d.recv(false), RecvStep::Done(RecvOpKind::Closed)));
}

#[test]
fn sync_unbuffered_state() {
    let mut d: SyncData<i32> = SyncData::new(0);
    assert!(matches!(d.send(true, 1), SendStep::Done(SendOpKind::WouldBlock(1))));
    assert!(matches!(d.recv(false), RecvStep::Wait { notify: true }));
    d.begin_wait();
    assert!(matches!(d.send(true, 1), SendStep::Offered));
    assert!(d.offer_pending());
    d.end_wait();
    assert!(matches!(d.recv(false), RecvStep::Done(RecvOpKind::Received(1))));
    assert!(!d.offer_pending());
    d.close();
    assert!(!d.send_allowed());
    assert!(matches!(d.recv(true), RecvStep::Done(RecvOpKind::Closed)));
}

#[test]
fn async_queue_state() {
    let mut q: AsyncQueue<i32> = AsyncQueue::new();
    assert!(matches!(q.recv(true), RecvStep::Done(RecvOpKind::WouldBlock)));
    assert!(matches!(q.recv(false), RecvStep::Wait { notify: false }));
    q.send(1);
    q.send(2);
    q.close();
    assert!(matches!(q.recv(true), RecvStep::Done(RecvOpKind::Received(1))));
    assert!(matches!(q.recv(false), RecvStep::Done(RecvOpKind::Received(2))));
    assert!(matches!(q.recv(false), RecvStep::Done(RecvOpKind::Closed)));
}

#[test]
fn sync_buffered_fifo_with_wraparound() {
    let mut d: SyncData<u8> = SyncData::new(2);
    let mut got = Vec::new();
    for i in 0..9u8 {
        assert!(matches!(d.send(true, i), SendStep::Done(SendOpKind::Sent)));
        if let RecvStep::Done(RecvOpKind::Received(v)) = d.recv(true) {
            got.push(v);
        }
    }
    assert_eq!(got, (0..9u8).collect::<Vec<u8>>());
}
