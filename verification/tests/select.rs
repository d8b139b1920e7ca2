use chan::channel::{Data, RecvStep, SendStep, SendOpKind};
use chan::id::ChannelId;
use chan::record::Choice;
use chan::select::Select;

struct RecvChoice<'a> {
    chan: &'a mut Data<i32>,
    sub: Option<u64>,
    got: Option<Option<i32>>,
    locked: bool,
}

impl<'a> Choice for RecvChoice<'a> {
    fn subscribe(&mut self) -> u64 {
        self.sub = Some(7);
        7
    }
    fn unsubscribe(&mut self, _id: u64) {}
    fn attempt(&mut self) -> bool {
        match self.chan.recv(true) {
            RecvStep::Done(kind) => match kind.into_result() {
                Ok(v) => {
                    self.got = Some(v);
                    true
                }
                Err(()) => false,
            },
            RecvStep::Wait { .. } => false,
        }
    }
    fn lock(&mut self) {
        self.locked = true;
    }
    fn unlock(&mut self) {
        self.locked = false;
    }
}

fn recv_choice(chan: &mut Data<i32>) -> RecvChoice<'_> {
    RecvChoice { chan, sub: None, got: None, locked: false }
}

#[test]
fn select_manual() {
    let mut r1: Data<i32> = Data::new(1, false);
    let mut r2: Data<i32> = Data::new(1, false);
    assert!(matches!(r1.send(false, 1), SendStep::Done(SendOpKind::Sent)));
    assert!(matches!(r2.send(false, 2), SendStep::Done(SendOpKind::Sent)));

    let c1 = ChannelId::receiver(1);
    let c2 = ChannelId::receiver(2);
    let mut sel = Select::new();
    sel.register(c1, recv_choice(&mut r1));
    sel.register(c2, recv_choice(&mut r2));
    let which = sel.try_select();
    if which == Some(c1) {
        println!("r1");
    } else if which == Some(c2) {
        println!("r2");
    } else {
        unreachable!();
    }
}

#[test]
fn select_reports_none_when_all_block() {
    let mut r1: Data<i32> = Data::new(1, false);
    let mut r2: Data<i32> = Data::new(0, false);
    let mut sel = Select::new();
    sel.register(ChannelId::receiver(1), recv_choice(&mut r1));
    sel.register(ChannelId::receiver(2), recv_choice(&mut r2));
    assert!(!sel.is_started());
    assert_eq!(sel.try_select(), None);
    assert!(sel.is_started());
    assert_eq!(sel.try_select(), None);
}

#[test]
fn select_registration_replaces_and_keeps_subscription() {
    let mut r1: Data<i32> = Data::new(1, false);
    let mut r2: Data<i32> = Data::new(1, false);
    let id = ChannelId::receiver(1);
    let mut sel = Select::new();
    assert!(sel.is_subscribed());
    sel.register(id, recv_choice(&mut r1));
    assert!(!sel.is_subscribed());
    sel.subscribe_all();
    assert!(sel.is_subscribed());
    assert!(sel.is_registered(id));
    sel.register(id, recv_choice(&mut r2));
    assert!(sel.is_subscribed());
    assert!(!sel.is_registered(ChannelId::sender(1)));
    sel.lock_all();
    sel.unlock_all();
    sel.unsubscribe_all();
}

#[test]
fn select_chooses_among_ready_at_random() {
    let mut chans: Vec<Data<i32>> = (0..5).map(|_| Data::new(100, false)).collect();
    for c in chans.iter_mut() {
        for i in 0..100 {
            c.send(true, i);
        }
    }
    let mut sel = Select::new();
    for (i, c) in chans.iter_mut().enumerate() {
        sel.register(ChannelId::receiver(i as u64), recv_choice(c));
    }
    let mut seen = std::collections::HashSet::new();
    for _ in 0..100 {
        seen.insert(sel.try_select().unwrap());
    }
    assert!(seen.len() > 1);
}

/// An operation that logs the calls made on it.
struct Logged {
    name: &'static str,
    ready: bool,
    next_sub: u64,
    log: std::rc::Rc<std::cell::RefCell<Vec<String>>>,
}

impl Choice for Logged {
    fn subscribe(&mut self) -> u64 {
        self.log.borrow_mut().push(format!("{} subscribe {}", self.name, self.next_sub));
        self.next_sub
    }
    fn unsubscribe(&mut self, id: u64) {
        self.log.borrow_mut().push(format!("{} unsubscribe {}", self.name, id));
    }
    fn attempt(&mut self) -> bool {
        self.log.borrow_mut().push(format!("{} attempt {}", self.name, self.ready));
        self.ready
    }
    fn lock(&mut self) {
        self.log.borrow_mut().push(format!("{} lock", self.name));
    }
    fn unlock(&mut self) {
        self.log.borrow_mut().push(format!("{} unlock", self.name));
    }
}

fn logged_select(ready: [bool; 2]) -> (Select<Logged>, std::rc::Rc<std::cell::RefCell<Vec<String>>>) {
    let log = std::rc::Rc::new(std::cell::RefCell::new(Vec::new()));
    let mut sel = Select::new();
    sel.register(ChannelId::receiver(1), Logged { name: "a", ready: ready[0], next_sub: 10, log: log.clone() });
    sel.register(ChannelId::sender(2), Logged { name: "b", ready: ready[1], next_sub: 20, log: log.clone() });
    (sel, log)
}

#[test]
fn first_round_without_blocking_never_subscribes() {
    let (mut sel, log) = logged_select([false, false]);
    assert_eq!(sel.first_round(true), None);
    assert!(!sel.is_subscribed());
    let mut calls = log.borrow().clone();
    calls.sort();
    assert_eq!(calls, vec!["a attempt false", "b attempt false"]);
}

#[test]
fn first_round_blocking_subscribes_once_and_locks() {
    let (mut sel, log) = logged_select([false, false]);
    assert_eq!(sel.first_round(false), None);
    assert!(sel.is_subscribed());
    {
        let calls = log.borrow();
        assert_eq!(calls.len(), 6);
        assert_eq!(calls[2..], ["a subscribe 10", "b subscribe 20", "a lock", "b lock"]);
    }
    log.borrow_mut().clear();
    sel.unlock_all();
    assert_eq!(sel.first_round(false), None);
    let calls = log.borrow().clone();
    assert_eq!(calls[0..2], ["a unlock", "b unlock"]);
    assert_eq!(calls[4..], ["a lock", "b lock"]);
}

#[test]
fn first_round_returns_the_ready_operation() {
    let (mut sel, log) = logged_select([false, true]);
    assert_eq!(sel.first_round(false), Some(ChannelId::sender(2)));
    assert!(!sel.is_subscribed());
    assert!(log.borrow().iter().all(|c| c.contains("attempt")));
    assert!(log.borrow().contains(&"b attempt true".to_string()));
}

#[test]
fn unsubscribe_all_cancels_each_subscription() {
    let (mut sel, log) = logged_select([false, false]);
    sel.unsubscribe_all();
    assert!(log.borrow().is_empty());
    sel.subscribe_all();
    log.borrow_mut().clear();
    sel.unsubscribe_all();
    assert_eq!(*log.borrow(), vec!["a unsubscribe 10", "b unsubscribe 20"]);
}

#[test]
fn reregistering_replaces_the_operation() {
    let (mut sel, log) = logged_select([false, false]);
    assert_eq!(sel.try_select(), None);
    sel.register(
        ChannelId::receiver(1),
        Logged { name: "c", ready: true, next_sub: 30, log: log.clone() },
    );
    log.borrow_mut().clear();
    assert_eq!(sel.try_select(), Some(ChannelId::receiver(1)));
    assert!(log.borrow().contains(&"c attempt true".to_string()));
    assert!(!log.borrow().iter().any(|c| c.starts_with("a ")));
}
