use chan::channel::{ChannelType, Data, RecvOpKind, RecvStep, SendOpKind, SendStep};

fn send_blocking(d: &mut Data<i32>, v: i32) -> SendStep<i32> {
    d.send(false, v)
}

fn recv_now(d: &mut Data<i32>) -> Option<i32> {
    match d.recv(false) {
        RecvStep::Done(kind) => kind.unwrap(),
        RecvStep::Wait { .. } => panic!("receive would block"),
    }
}

fn try_send(d: &mut Data<i32>, v: i32) -> Result<(), i32> {
    match d.send(true, v) {
        SendStep::Done(kind) => kind.into_result(),
        SendStep::Offered => Ok(()),
        SendStep::Wait(_) => panic!("a non-blocking send never waits"),
    }
}

fn try_recv(d: &mut Data<i32>) -> Result<Option<i32>, ()> {
    match d.recv(true) {
        RecvStep::Done(kind) => kind.into_result(),
        RecvStep::Wait { .. } => panic!("a non-blocking receive never waits"),
    }
}

#[test]
fn simple() {
    let mut ch: Data<i32> = Data::new(1, false);
    assert!(matches!(send_blocking(&mut ch, 5), SendStep::Done(SendOpKind::Sent)));
    assert_eq!(recv_now(&mut ch), Some(5));
}

#[test]
fn simple_async() {
    let mut ch: Data<i32> = Data::new(0, true);
    assert!(matches!(send_blocking(&mut ch, 5), SendStep::Done(SendOpKind::Sent)));
    assert_eq!(recv_now(&mut ch), Some(5));
}

#[test]
fn simple_try() {
    let mut ch: Data<i32> = Data::new(1, false);
    let _ = try_send(&mut ch, 5).is_err();
    let _ = try_recv(&mut ch).is_err();
}

#[test]
fn simple_try_rendezvous() {
    let mut ch: Data<i32> = Data::new(0, false);
    let _ = try_send(&mut ch, 5).is_err();
    let _ = try_recv(&mut ch).is_err();
}

#[test]
fn simple_try_async() {
    let mut ch: Data<i32> = Data::new(0, true);
    let _ = try_recv(&mut ch).is_err();
    let _ = try_send(&mut ch, 5).is_ok();
}

#[test]
fn channel_types_follow_the_arguments() {
    assert_eq!(Data::<i32>::new(0, true).ty(), ChannelType::Async);
    assert_eq!(Data::<i32>::new(7, true).ty(), ChannelType::Async);
    assert_eq!(Data::<i32>::new(0, false).ty(), ChannelType::Rendezvous);
    assert_eq!(Data::<i32>::new(3, false).ty(), ChannelType::Buffered);
}

#[test]
fn try_outcomes_on_fresh_channels() {
    let mut b: Data<i32> = Data::new(1, false);
    assert_eq!(try_send(&mut b, 5), Ok(()));
    assert_eq!(try_send(&mut b, 6), Err(6));
    assert_eq!(try_recv(&mut b), Ok(Some(5)));
    assert_eq!(try_recv(&mut b), Err(()));

    let mut r: Data<i32> = Data::new(0, false);
    assert_eq!(try_send(&mut r, 5), Err(5));
    assert_eq!(try_recv(&mut r), Err(()));

    let mut a: Data<i32> = Data::new(0, true);
    assert_eq!(try_recv(&mut a), Err(()));
    assert_eq!(try_send(&mut a, 5), Ok(()));
    assert_eq!(try_recv(&mut a), Ok(Some(5)));
}

#[test]
fn fifo_order_buffered_with_wraparound() {
    let mut ch: Data<i32> = Data::new(3, false);
    let mut got = Vec::new();
    for i in 0..10 {
        assert!(matches!(ch.send(true, i), SendStep::Done(SendOpKind::Sent)));
        if i % 2 == 1 {
            got.push(recv_now(&mut ch).unwrap());
            got.push(recv_now(&mut ch).unwrap());
        }
    }
    assert_eq!(got, (0..10).collect::<Vec<i32>>());
    assert_eq!(ch.len(), 0);
}

#[test]
fn fifo_order_async() {
    let mut ch: Data<i32> = Data::new(0, true);
    for i in 0..100 {
        ch.async_send(i);
    }
    let mut got = Vec::new();
    for _ in 0..100 {
        got.push(recv_now(&mut ch).unwrap());
    }
    assert_eq!(got, (0..100).collect::<Vec<i32>>());
}

#[test]
fn full_buffer_blocks_sends() {
    let mut ch: Data<i32> = Data::new(2, false);
    assert!(matches!(ch.send(false, 1), SendStep::Done(SendOpKind::Sent)));
    assert!(matches!(ch.send(false, 2), SendStep::Done(SendOpKind::Sent)));
    assert!(matches!(ch.send(false, 3), SendStep::Wait(3)));
    assert!(matches!(ch.send(true, 3), SendStep::Done(SendOpKind::WouldBlock(3))));
    assert_eq!(ch.len(), 2);
}

#[test]
fn empty_channel_blocks_receives() {
    let mut ch: Data<i32> = Data::new(2, false);
    assert!(matches!(ch.recv(false), RecvStep::Wait { notify: false }));
    assert!(matches!(ch.recv(true), RecvStep::Done(RecvOpKind::WouldBlock)));
    let mut r: Data<i32> = Data::new(0, false);
    assert!(matches!(r.recv(false), RecvStep::Wait { notify: true }));
}

#[test]
fn closed_channel_drains_then_reports_closed() {
    let mut ch: Data<i32> = Data::new(3, false);
    ch.send(true, 1);
    ch.send(true, 2);
    ch.close();
    assert!(ch.is_closed());
    assert!(matches!(ch.send(true, 3), SendStep::Done(SendOpKind::Closed(3))));
    assert_eq!(recv_now(&mut ch), Some(1));
    assert_eq!(recv_now(&mut ch), Some(2));
    assert_eq!(recv_now(&mut ch), None);
    assert_eq!(try_recv(&mut ch), Ok(None));
    assert!(ch.is_closed());
}

#[test]
fn closed_rendezvous_refuses_values() {
    let mut ch: Data<i32> = Data::new(0, false);
    ch.close();
    assert!(matches!(ch.send(false, 4), SendStep::Done(SendOpKind::Closed(4))));
    assert_eq!(recv_now(&mut ch), None);
}

#[test]
fn rendezvous_hands_value_to_waiting_receiver() {
    let mut ch: Data<i32> = Data::new(0, false);
    ch.begin_wait_recv();
    assert_eq!(ch.waiting_recv(), 1);
    assert!(matches!(ch.send(true, 9), SendStep::Offered));
    assert!(ch.offer_pending());
    assert!(matches!(ch.send(true, 10), SendStep::Done(SendOpKind::WouldBlock(10))));
    ch.begin_wait_send();
    assert_eq!(ch.waiting_send(), 1);
    ch.end_wait_recv();
    assert_eq!(recv_now(&mut ch), Some(9));
    assert!(!ch.offer_pending());
    ch.end_wait_send();
    assert_eq!(ch.waiting_send(), 0);
}

#[test]
fn op_kinds_convert_to_results() {
    assert_eq!(SendOpKind::<i32>::Sent.into_result(), Ok(()));
    assert_eq!(SendOpKind::WouldBlock(3).into_result(), Err(3));
    assert_eq!(RecvOpKind::Received(4).into_result(), Ok(Some(4)));
    assert_eq!(RecvOpKind::<i32>::Closed.into_result(), Ok(None));
    assert_eq!(RecvOpKind::<i32>::WouldBlock.into_result(), Err(()));
    assert_eq!(RecvOpKind::Received(4).unwrap(), Some(4));
    assert_eq!(RecvOpKind::<i32>::Closed.unwrap(), None);
    SendOpKind::<i32>::Sent.unwrap();
}

#[test]
fn async_channel_queues_even_when_closed() {
    let mut ch: Data<i32> = Data::new(0, true);
    ch.close();
    assert!(matches!(ch.send(false, 1), SendStep::Done(SendOpKind::Sent)));
    assert_eq!(recv_now(&mut ch), Some(1));
    assert_eq!(recv_now(&mut ch), None);
}

#[test]
fn rendezvous_slot_is_busy_while_offered() {
    let mut ch: Data<i32> = Data::new(0, false);
    assert!(matches!(ch.send(false, 1), SendStep::Offered));
    assert!(matches!(ch.send(false, 2), SendStep::Wait(2)));
    assert!(matches!(ch.send(true, 2), SendStep::Done(SendOpKind::WouldBlock(2))));
    assert_eq!(recv_now(&mut ch), Some(1));
}

#[test]
fn interleaved_sends_and_receives_keep_order() {
    for (size, is_async) in [(0usize, true), (2, false), (0, false)] {
        let mut ch: Data<i32> = Data::new(size, is_async);
        let mut received = Vec::new();
        let mut delivered = Vec::new();
        let rendezvous = size == 0 && !is_async;
        for i in 0..20 {
            if rendezvous && i % 2 == 0 {
                // A rendezvous channel takes a value only for a waiting receiver.
                ch.begin_wait_recv();
            }
            match ch.send(true, i) {
                SendStep::Done(SendOpKind::Sent) | SendStep::Offered => delivered.push(i),
                _ => {}
            }
            if i % 3 == 0 {
                if let RecvStep::Done(RecvOpKind::Received(v)) = ch.recv(true) {
                    received.push(v);
                }
            }
            if rendezvous && i % 2 == 0 {
                ch.end_wait_recv();
                if let RecvStep::Done(RecvOpKind::Received(v)) = ch.recv(true) {
                    received.push(v);
                }
            }
        }
        while let RecvStep::Done(RecvOpKind::Received(v)) = ch.recv(true) {
            received.push(v);
        }
        assert_eq!(received, delivered);
        assert!(!delivered.is_empty());
    }
}

#[test]
fn selects_on_both_ends_of_a_rendezvous_meet() {
    let mut ch: Data<i32> = Data::new(0, false);
    // Without a waiting receiver of any kind, a select's send gives up.
    assert!(matches!(ch.send(true, 1), SendStep::Done(SendOpKind::WouldBlock(1))));
    // A select with a receive subscribes and is counted.
    ch.begin_select_recv();
    assert_eq!(ch.select_recv(), 1);
    assert!(matches!(ch.send(true, 1), SendStep::Offered));
    assert_eq!(try_recv(&mut ch), Ok(Some(1)));
    assert!(!ch.offer_pending());
    ch.end_select_recv();
    assert_eq!(ch.select_recv(), 0);
    assert!(matches!(ch.send(true, 2), SendStep::Done(SendOpKind::WouldBlock(2))));
}
