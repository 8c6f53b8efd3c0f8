use fastpass::channel::{Channel, Step};
use fastpass::consumer::Consumer;
use fastpass::senders::{ControlSender, UserAnchor, UserSender};
use fastpass::types::{Config, ControlClosed, Received, TrySendError, UserClosed};
use loom::sync::atomic::{AtomicUsize, Ordering};
use loom::sync::{Arc, Condvar, Mutex};

/// A channel behind a lock. Each small step of a send or a receive takes the
/// lock on its own, so that every interleaving of such steps is explored; who
/// sleeps is woken only when the channel says so.
struct Shared<C, U> {
    ch: Mutex<Channel<C, U>>,
    bell: Condvar,
}

impl<C, U> Shared<C, U> {
    fn step<R>(&self, step: impl FnOnce(&mut Channel<C, U>) -> R) -> R {
        let mut ch = self.ch.lock().unwrap();
        let result = step(&mut ch);
        if ch.consumer_ready() || ch.producer_ready() {
            self.bell.notify_all();
        }
        result
    }

    fn sleep(&self, mut resume: impl FnMut(&mut Channel<C, U>) -> bool) {
        let mut ch = self.ch.lock().unwrap();
        while !resume(&mut ch) {
            ch = self.bell.wait(ch).unwrap();
        }
    }
}

struct Ctl<C, U> {
    shared: Arc<Shared<C, U>>,
    handle: Option<ControlSender<C>>,
}

impl<C, U> Ctl<C, U> {
    fn send(&self, item: C) -> Result<(), ControlClosed<C>> {
        self.shared.step(|ch| self.handle.as_ref().unwrap().send(ch, item))
    }
}

impl<C, U> Clone for Ctl<C, U> {
    fn clone(&self) -> Self {
        let handle = self.shared.step(|ch| self.handle.as_ref().unwrap().clone(ch));
        Ctl { shared: self.shared.clone(), handle: Some(handle) }
    }
}

impl<C, U> Drop for Ctl<C, U> {
    fn drop(&mut self) {
        let handle = self.handle.take().unwrap();
        let left = self.shared.step(|ch| {
            handle.drop(ch);
            ch.release_unused()
        });
        drop(left);
    }
}

struct Usr<C, U> {
    shared: Arc<Shared<C, U>>,
    handle: Option<UserSender<U>>,
}

impl<C, U> Usr<C, U> {
    fn try_send(&self, item: U) -> Result<(), TrySendError<U>> {
        self.shared.step(|ch| self.handle.as_ref().unwrap().try_send(ch, item))
    }

    fn send_blocking(&self, item: U) -> Result<(), UserClosed<U>> {
        let mut sending = self.handle.as_ref().unwrap().send(item);
        loop {
            if let Step::Ready(sent) = self.shared.step(|ch| sending.attempt(ch)) {
                return sent;
            }
            self.shared.step(|ch| sending.announce(ch));
            if let Step::Ready(sent) = self.shared.step(|ch| sending.recheck(ch)) {
                return sent;
            }
            self.shared.sleep(|ch| sending.resume(ch));
        }
    }

    fn anchor(&self) -> Anchor<C, U> {
        Anchor { shared: self.shared.clone(), handle: self.handle.as_ref().unwrap().anchor() }
    }
}

impl<C, U> Clone for Usr<C, U> {
    fn clone(&self) -> Self {
        let handle = self.shared.step(|ch| self.handle.as_ref().unwrap().clone(ch));
        Usr { shared: self.shared.clone(), handle: Some(handle) }
    }
}

impl<C, U> Drop for Usr<C, U> {
    fn drop(&mut self) {
        let handle = self.handle.take().unwrap();
        let left = self.shared.step(|ch| {
            handle.drop(ch);
            ch.release_unused()
        });
        drop(left);
    }
}

struct Anchor<C, U> {
    shared: Arc<Shared<C, U>>,
    handle: UserAnchor<U>,
}

impl<C, U> Anchor<C, U> {
    fn upgrade(&self) -> Option<Usr<C, U>> {
        let handle = self.shared.step(|ch| self.handle.upgrade(ch))?;
        Some(Usr { shared: self.shared.clone(), handle: Some(handle) })
    }

    fn send_blocking(&self, item: U) -> Result<(), UserClosed<U>> {
        match self.upgrade() {
            Some(sender) => sender.send_blocking(item),
            None => Err(UserClosed(item)),
        }
    }
}

struct Rx<C, U> {
    shared: Arc<Shared<C, U>>,
    consumer: Option<Consumer<C, U>>,
}

impl<C, U> Rx<C, U> {
    fn recv_blocking(&mut self) -> Option<Received<C, U>> {
        let consumer = self.consumer.as_mut().unwrap();
        loop {
            if let Step::Ready(got) = self.shared.step(|ch| consumer.attempt(ch)) {
                return got;
            }
            self.shared.step(|ch| consumer.announce(ch));
            if let Step::Ready(got) = self.shared.step(|ch| consumer.recheck(ch)) {
                return got;
            }
            self.shared.sleep(|ch| consumer.resume(ch));
        }
    }

    fn recv_control_blocking(&mut self) -> Option<C> {
        let consumer = self.consumer.as_mut().unwrap();
        loop {
            if let Step::Ready(got) = self.shared.step(|ch| consumer.recv_control(ch)) {
                return got;
            }
            self.shared.sleep(|ch| ch.consumer_ready());
        }
    }
}

impl<C, U> Drop for Rx<C, U> {
    fn drop(&mut self) {
        let consumer = self.consumer.take().unwrap();
        let left = self.shared.step(|ch| {
            consumer.drop(ch);
            ch.release_unused()
        });
        drop(left);
    }
}

fn channel<C, U>(cfg: Config) -> (Ctl<C, U>, Usr<C, U>, Rx<C, U>) {
    let (ch, control, user, consumer) = fastpass::channel::channel::<C, U>(cfg);
    let shared = Arc::new(Shared { ch: Mutex::new(ch), bell: Condvar::new() });
    (
        Ctl { shared: shared.clone(), handle: Some(control) },
        Usr { shared: shared.clone(), handle: Some(user) },
        Rx { shared, consumer: Some(consumer) },
    )
}

fn explore(model: impl Fn() + Sync + Send + 'static) {
    let mut builder = loom::model::Builder::new();
    builder.preemption_bound = Some(3);
    builder.max_branches = 20_000;
    builder.check(model);
}

#[derive(Debug)]
struct Counted(u32, Arc<AtomicUsize>);

impl Drop for Counted {
    fn drop(&mut self) {
        self.1.fetch_add(1, Ordering::SeqCst);
    }
}

#[test]
fn loom_user_backpressure_wakeup() {
    explore(|| {
        let (ctl, usr, mut rx) = channel::<u32, u32>(Config::new(2));
        drop(ctl);
        usr.try_send(0).expect("ring empty");
        usr.try_send(1).expect("capacity 2");
        let p = loom::thread::spawn(move || {
            usr.send_blocking(2).expect("consumer alive until drained");
        });
        let mut got = Vec::new();
        let mut legs = 0u32;
        while let Some(item) = rx.recv_blocking() {
            match item {
                Received::User(u) => got.push(u),
                Received::Control(_) => unreachable!("no control traffic"),
                Received::UserLaneClosed => legs += 1,
            }
        }
        p.join().unwrap();
        assert_eq!(got, [0, 1, 2], "user lane: loss / duplication / reorder");
        assert_eq!(legs, 1, "UserLaneClosed must fire exactly once");
    });
}

#[test]
fn loom_consumer_wakeup_and_control_chain() {
    explore(|| {
        let (ctl, usr, mut rx) = channel::<u32, u32>(Config::new(2));
        // Stand just before the end of a block, so that the sends below cross
        // into the next one.
        for i in 0..63u32 {
            ctl.send(i).expect("consumer alive until drained");
        }
        for i in 0..63u32 {
            assert_eq!(rx.recv_control_blocking(), Some(i));
        }
        drop(usr);
        let ctl2 = ctl.clone();
        let p1 = loom::thread::spawn(move || {
            for i in 0..2 {
                ctl.send(i).expect("consumer alive until drained");
            }
        });
        let p2 = loom::thread::spawn(move || {
            ctl2.send(2).expect("consumer alive until drained");
        });
        let mut got = Vec::new();
        let mut legs = 0u32;
        while let Some(item) = rx.recv_blocking() {
            match item {
                Received::Control(c) => got.push(c),
                Received::User(_) => unreachable!("no user traffic"),
                Received::UserLaneClosed => legs += 1,
            }
        }
        p1.join().unwrap();
        p2.join().unwrap();
        got.sort_unstable();
        assert_eq!(got, [0, 1, 2], "control lane: loss / duplication");
        assert_eq!(legs, 1, "UserLaneClosed must fire exactly once");
    });
}

#[test]
fn loom_teardown_releases_parked_producer() {
    explore(|| {
        let (_ctl, usr, mut rx) = channel::<u32, u32>(Config::new(2));
        let producer = loom::thread::spawn(move || {
            let mut results = Vec::new();
            for i in 0..3u32 {
                match usr.send_blocking(i) {
                    Ok(()) => results.push(Ok(i)),
                    Err(UserClosed(v)) => {
                        assert_eq!(v, i, "returned payload is not the sent one");
                        results.push(Err(i));
                    }
                }
            }
            results
        });
        let first = rx.recv_blocking();
        assert!(first.is_some());
        drop(rx);
        let results = producer.join().unwrap();
        let first_err = results.iter().position(Result::is_err);
        assert!(
            first_err.is_none_or(|k| results[k..].iter().all(Result::is_err)),
            "an Ok send followed a failed one after teardown: {results:?}"
        );
    });
}

#[test]
fn teardown_returns_unlinearized_payloads() {
    explore(|| {
        let drops = Arc::new(AtomicUsize::new(0));
        let (_ctl, usr, rx) = channel::<u32, Counted>(Config::new(2));
        let producer = loom::thread::spawn({
            let drops = drops.clone();
            move || {
                let mut oks = 0usize;
                for i in 0..3 {
                    match usr.send_blocking(Counted(i, drops.clone())) {
                        Ok(()) => oks += 1,
                        Err(UserClosed(p)) => drop(p),
                    }
                }
                oks
            }
        });
        drop(rx);
        let oks = producer.join().unwrap();
        assert!(oks <= 2, "{oks} sends resolved Ok with no consumer pop");
        assert_eq!(
            drops.load(Ordering::SeqCst),
            3,
            "payload leak or double-drop across teardown"
        );
    });
}

#[test]
fn teardown_releases_multiple_producers_with_their_payloads() {
    explore(|| {
        let drops = Arc::new(AtomicUsize::new(0));
        let (_ctl, usr, rx) = channel::<u32, Counted>(Config::new(2));
        usr.try_send(Counted(1, drops.clone())).expect("ring empty");
        usr.try_send(Counted(2, drops.clone())).expect("capacity 2");
        let p1 = loom::thread::spawn({
            let usr = usr.clone();
            let drops = drops.clone();
            move || usr.send_blocking(Counted(10, drops))
        });
        let p2 = loom::thread::spawn({
            let usr = usr.clone();
            let drops = drops.clone();
            move || usr.send_blocking(Counted(20, drops))
        });
        drop(rx);
        for (handle, id) in [(p1, 10), (p2, 20)] {
            let err = handle
                .join()
                .unwrap()
                .expect_err("a producer that never linearized must be rejected");
            assert_eq!(err.0.0, id, "a producer got another producer's payload");
            drop(err);
        }
        drop(usr);
        assert_eq!(
            drops.load(Ordering::SeqCst),
            4,
            "payload leak or double-drop across teardown"
        );
    });
}

#[test]
fn loom_user_lane_closed_leg_latch_and_wake() {
    explore(|| {
        let (ctl, usr, mut rx) = channel::<u32, u32>(Config::new(2));
        let dropper = loom::thread::spawn(move || drop(usr));
        match rx.recv_blocking() {
            Some(Received::UserLaneClosed) => {}
            other => panic!("expected UserLaneClosed, got {other:?}"),
        }
        dropper.join().unwrap();
        ctl.send(7).expect("consumer alive until drained");
        match rx.recv_blocking() {
            Some(Received::Control(7)) => {}
            other => panic!("expected Control(7), got {other:?}"),
        }
        drop(ctl);
        assert!(rx.recv_blocking().is_none());
    });
}

#[test]
fn loom_recv_control_parking_preserves_user_lane() {
    explore(|| {
        let (ctl, usr, mut rx) = channel::<u32, u32>(Config::new(2));
        usr.try_send(0).expect("ring empty");
        usr.try_send(1).expect("capacity 2");
        let parked_producer = loom::thread::spawn(move || {
            usr.send_blocking(2).expect("consumer alive until drained");
        });
        let control_producer = loom::thread::spawn(move || {
            ctl.send(10).expect("consumer alive until drained");
            ctl.send(11).expect("consumer alive until drained");
        });
        assert_eq!(rx.recv_control_blocking(), Some(10));
        assert_eq!(rx.recv_control_blocking(), Some(11));
        assert_eq!(rx.recv_control_blocking(), None);
        let mut got = Vec::new();
        let mut legs = 0u32;
        while let Some(item) = rx.recv_blocking() {
            match item {
                Received::User(u) => got.push(u),
                Received::UserLaneClosed => legs += 1,
                Received::Control(_) => unreachable!("control lane drained"),
            }
        }
        parked_producer.join().unwrap();
        control_producer.join().unwrap();
        assert_eq!(got, [0, 1, 2], "recv_control consumed or reordered user items");
        assert_eq!(legs, 1, "UserLaneClosed must fire exactly once");
    });
}

#[test]
fn anchor_upgrade_vs_last_drop() {
    explore(|| {
        let (ctl, usr, mut rx) = channel::<u32, u32>(Config::new(2));
        let anchor = usr.anchor();
        let dropper = loom::thread::spawn(move || drop(usr));
        let upgrader = loom::thread::spawn(move || match anchor.upgrade() {
            Some(sender) => sender.send_blocking(42).is_ok(),
            None => false,
        });
        drop(ctl);

        let mut items = Vec::new();
        let mut legs = 0u32;
        let mut marker_seen = false;
        while let Some(item) = rx.recv_blocking() {
            match item {
                Received::User(u) => {
                    assert!(!marker_seen, "user item after UserLaneClosed");
                    items.push(u);
                }
                Received::UserLaneClosed => {
                    marker_seen = true;
                    legs += 1;
                }
                Received::Control(_) => unreachable!("no control traffic"),
            }
        }
        let delivered = upgrader.join().unwrap();
        dropper.join().unwrap();
        assert_eq!(legs, 1, "UserLaneClosed must fire exactly once");
        if delivered {
            assert_eq!(items, vec![42], "delivered item missing from the stream");
        } else {
            assert!(items.is_empty(), "failed upgrade leaked an item into the stream");
        }
    });
}

#[test]
fn anchor_blocked_send_holds_liveness() {
    explore(|| {
        let (ctl, usr, mut rx) = channel::<u32, u32>(Config::new(2));
        let anchor = usr.anchor();
        usr.try_send(0).expect("ring empty");
        usr.try_send(1).expect("capacity 2");
        let blocked = loom::thread::spawn(move || anchor.send_blocking(2).is_ok());
        drop(usr);
        drop(ctl);

        let mut got = Vec::new();
        let mut marker_seen = false;
        while let Some(item) = rx.recv_blocking() {
            match item {
                Received::User(u) => {
                    assert!(!marker_seen, "user item after UserLaneClosed");
                    got.push(u);
                }
                Received::UserLaneClosed => marker_seen = true,
                Received::Control(_) => unreachable!("no control traffic"),
            }
        }
        let delivered = blocked.join().unwrap();
        assert!(marker_seen, "lane never closed after the send resolved");
        if delivered {
            assert_eq!(got, [0, 1, 2], "delivered item missing from the stream");
        } else {
            assert_eq!(got, [0, 1], "failed delivery leaked an item into the stream");
        }
    });
}

#[test]
fn anchor_upgrade_then_drop_releases_liveness() {
    explore(|| {
        let (ctl, usr, mut rx) = channel::<u32, u32>(Config::new(2));
        let anchor = usr.anchor();
        let upgrader = loom::thread::spawn(move || {
            if let Some(sender) = anchor.upgrade() {
                drop(sender);
            }
        });
        drop(usr);
        drop(ctl);
        upgrader.join().unwrap();

        let mut legs = 0u32;
        while let Some(item) = rx.recv_blocking() {
            match item {
                Received::User(_) => unreachable!("no user traffic"),
                Received::UserLaneClosed => legs += 1,
                Received::Control(_) => unreachable!("no control traffic"),
            }
        }
        assert_eq!(legs, 1, "UserLaneClosed must fire exactly once");
    });
}

#[test]
fn anchor_release_before_publish_marker_ordering() {
    explore(|| {
        let (ctl, usr, mut rx) = channel::<u32, u32>(Config::new(2));
        let anchor = usr.anchor();
        let fused = loom::thread::spawn(move || {
            let sender = anchor.upgrade().expect("sender is live");
            drop(usr);
            sender.send_blocking(42).expect("consumer alive until drained")
        });
        drop(ctl);

        let mut items = Vec::new();
        let mut marker_seen = false;
        while let Some(item) = rx.recv_blocking() {
            match item {
                Received::User(u) => {
                    assert!(!marker_seen, "user item after UserLaneClosed");
                    items.push(u);
                }
                Received::UserLaneClosed => marker_seen = true,
                Received::Control(_) => unreachable!("no control traffic"),
            }
        }
        fused.join().unwrap();
        assert!(marker_seen, "lane never closed");
        assert_eq!(items, vec![42], "delivered item missing from the stream");
    });
}
