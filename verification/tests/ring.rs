use fastpass::channel::{Channel, Step};
use fastpass::consumer::Consumer;
use fastpass::mailbox::MailboxOwner;
use fastpass::senders::{AnchorSending, ControlSender, Sending, UserAnchor, UserSender};
use fastpass::types::{Config, ControlClosed, Drained, Received, TrySendError, UserClosed};
use std::collections::{BTreeSet, VecDeque};
use std::future::Future;
use std::pin::Pin;
use std::sync::atomic::{AtomicUsize, Ordering};
use std::sync::{Arc, Mutex};
use std::task::{Context, Poll, Waker};
use std::time::Duration;
use tokio::sync::Barrier;
use tokio::task::yield_now;
use tokio::time::timeout;

const GUARD: Duration = Duration::from_secs(5);

/// A channel with the wakers of those who wait at it.
struct Inner<C, U> {
    ch: Channel<C, U>,
    consumer: Option<Waker>,
    producers: Vec<Waker>,
}

impl<C, U> Inner<C, U> {
    /// Wake whoever the channel says can go on, and nobody else.
    fn ring(&mut self) {
        if self.ch.consumer_ready() {
            if let Some(waker) = self.consumer.take() {
                waker.wake();
            }
        }
        if self.ch.producer_ready() {
            for waker in self.producers.drain(..) {
                waker.wake();
            }
        }
    }
}

impl<C, U> Inner<C, U> {
    /// A handle went away.
    fn retire(&mut self) -> Drained<C, U> {
        self.ring();
        self.ch.release_unused()
    }
}

type Shared<C, U> = Arc<Mutex<Inner<C, U>>>;

struct Ctl<C, U> {
    shared: Shared<C, U>,
    handle: Option<ControlSender<C>>,
}

impl<C, U> Ctl<C, U> {
    fn send(&self, item: C) -> Result<(), ControlClosed<C>> {
        let mut inner = self.shared.lock().unwrap();
        let sent = self.handle.as_ref().unwrap().send(&mut inner.ch, item);
        inner.ring();
        sent
    }
}

impl<C, U> Clone for Ctl<C, U> {
    fn clone(&self) -> Self {
        let mut inner = self.shared.lock().unwrap();
        let handle = self.handle.as_ref().unwrap().clone(&mut inner.ch);
        Ctl { shared: self.shared.clone(), handle: Some(handle) }
    }
}

impl<C, U> Drop for Ctl<C, U> {
    fn drop(&mut self) {
        if let Some(handle) = self.handle.take() {
            let mut inner = self.shared.lock().unwrap();
            handle.drop(&mut inner.ch);
            let left = inner.retire();
            drop(inner);
            drop(left);
        }
    }
}

struct Usr<C, U> {
    shared: Shared<C, U>,
    handle: Option<UserSender<U>>,
}

impl<C, U> Usr<C, U> {
    fn try_send(&self, item: U) -> Result<(), TrySendError<U>> {
        let mut inner = self.shared.lock().unwrap();
        let sent = self.handle.as_ref().unwrap().try_send(&mut inner.ch, item);
        inner.ring();
        sent
    }

    fn send(&self, item: U) -> SendFuture<C, U> {
        SendFuture {
            shared: self.shared.clone(),
            sending: Some(self.handle.as_ref().unwrap().send(item)),
        }
    }

    fn anchor(&self) -> Anchor<C, U> {
        Anchor { shared: self.shared.clone(), handle: self.handle.as_ref().unwrap().anchor() }
    }
}

impl<C, U> Clone for Usr<C, U> {
    fn clone(&self) -> Self {
        let mut inner = self.shared.lock().unwrap();
        let handle = self.handle.as_ref().unwrap().clone(&mut inner.ch);
        Usr { shared: self.shared.clone(), handle: Some(handle) }
    }
}

impl<C, U> Drop for Usr<C, U> {
    fn drop(&mut self) {
        if let Some(handle) = self.handle.take() {
            let mut inner = self.shared.lock().unwrap();
            handle.drop(&mut inner.ch);
            let left = inner.retire();
            drop(inner);
            drop(left);
        }
    }
}

struct SendFuture<C, U> {
    shared: Shared<C, U>,
    sending: Option<Sending<U>>,
}

impl<C, U> Unpin for SendFuture<C, U> {}

impl<C, U> Future for SendFuture<C, U> {
    type Output = Result<(), UserClosed<U>>;

    fn poll(mut self: Pin<&mut Self>, cx: &mut Context<'_>) -> Poll<Self::Output> {
        let this = &mut *self;
        let mut inner = this.shared.lock().unwrap();
        let step = this.sending.as_mut().unwrap().poll(&mut inner.ch);
        match step {
            Step::Ready(sent) => {
                this.sending = None;
                inner.ring();
                Poll::Ready(sent)
            }
            Step::Pending => {
                inner.producers.push(cx.waker().clone());
                inner.ring();
                Poll::Pending
            }
        }
    }
}

impl<C, U> Drop for SendFuture<C, U> {
    fn drop(&mut self) {
        if let Some(sending) = self.sending.take() {
            let mut inner = self.shared.lock().unwrap();
            let item = sending.cancel(&mut inner.ch);
            let left = inner.retire();
            drop(inner);
            drop((item, left));
        }
    }
}

struct Anchor<C, U> {
    shared: Shared<C, U>,
    handle: UserAnchor<U>,
}

impl<C, U> Clone for Anchor<C, U> {
    fn clone(&self) -> Self {
        Anchor { shared: self.shared.clone(), handle: self.handle.clone() }
    }
}

impl<C, U> Anchor<C, U> {
    fn upgrade(&self) -> Option<Usr<C, U>> {
        let mut inner = self.shared.lock().unwrap();
        let handle = self.handle.upgrade(&mut inner.ch);
        inner.ring();
        handle.map(|handle| Usr { shared: self.shared.clone(), handle: Some(handle) })
    }

    fn try_send(&self, item: U) -> Result<(), TrySendError<U>> {
        let mut inner = self.shared.lock().unwrap();
        let sent = self.handle.try_send(&mut inner.ch, item);
        inner.ring();
        sent
    }

    fn send(&self, item: U) -> AnchorFuture<C, U> {
        AnchorFuture { shared: self.shared.clone(), sending: Some(self.handle.send(item)) }
    }
}

struct AnchorFuture<C, U> {
    shared: Shared<C, U>,
    sending: Option<AnchorSending<U>>,
}

impl<C, U> Unpin for AnchorFuture<C, U> {}

impl<C, U> Future for AnchorFuture<C, U> {
    type Output = Result<(), UserClosed<U>>;

    fn poll(mut self: Pin<&mut Self>, cx: &mut Context<'_>) -> Poll<Self::Output> {
        let this = &mut *self;
        let mut inner = this.shared.lock().unwrap();
        let step = this.sending.as_mut().unwrap().poll(&mut inner.ch);
        match step {
            Step::Ready(sent) => {
                this.sending = None;
                inner.ring();
                Poll::Ready(sent)
            }
            Step::Pending => {
                inner.producers.push(cx.waker().clone());
                inner.ring();
                Poll::Pending
            }
        }
    }
}

impl<C, U> Drop for AnchorFuture<C, U> {
    fn drop(&mut self) {
        if let Some(sending) = self.sending.take() {
            let mut inner = self.shared.lock().unwrap();
            let item = sending.cancel(&mut inner.ch);
            let left = inner.retire();
            drop(inner);
            drop((item, left));
        }
    }
}

struct Rx<C, U> {
    shared: Shared<C, U>,
    consumer: Option<Consumer<C, U>>,
}

impl<C, U> Rx<C, U> {
    fn recv(&mut self) -> RecvFuture<'_, C, U> {
        RecvFuture { rx: self, done: false }
    }

    fn recv_control(&mut self) -> RecvControlFuture<'_, C, U> {
        RecvControlFuture { rx: self, done: false }
    }

    fn drain(mut self) -> Drained<C, U> {
        let consumer = self.consumer.take().unwrap();
        let mut inner = self.shared.lock().unwrap();
        let drained = consumer.drain(&mut inner.ch);
        inner.ring();
        drained
    }

    fn cancel(&mut self) {
        let mut inner = self.shared.lock().unwrap();
        self.consumer.as_mut().unwrap().cancel(&mut inner.ch);
        inner.ring();
    }
}

impl<C, U> Drop for Rx<C, U> {
    fn drop(&mut self) {
        if let Some(consumer) = self.consumer.take() {
            let mut inner = self.shared.lock().unwrap();
            consumer.drop(&mut inner.ch);
            let left = inner.retire();
            drop(inner);
            drop(left);
        }
    }
}

struct RecvFuture<'a, C, U> {
    rx: &'a mut Rx<C, U>,
    done: bool,
}

impl<C, U> Unpin for RecvFuture<'_, C, U> {}

impl<C, U> Future for RecvFuture<'_, C, U> {
    type Output = Option<Received<C, U>>;

    fn poll(mut self: Pin<&mut Self>, cx: &mut Context<'_>) -> Poll<Self::Output> {
        let this = &mut *self;
        let mut inner = this.rx.shared.lock().unwrap();
        let step = this.rx.consumer.as_mut().unwrap().recv(&mut inner.ch);
        match step {
            Step::Ready(got) => {
                this.done = true;
                inner.ring();
                Poll::Ready(got)
            }
            Step::Pending => {
                inner.consumer = Some(cx.waker().clone());
                inner.ring();
                Poll::Pending
            }
        }
    }
}

impl<C, U> Drop for RecvFuture<'_, C, U> {
    fn drop(&mut self) {
        if !self.done {
            self.rx.cancel();
        }
    }
}

struct RecvControlFuture<'a, C, U> {
    rx: &'a mut Rx<C, U>,
    done: bool,
}

impl<C, U> Unpin for RecvControlFuture<'_, C, U> {}

impl<C, U> Future for RecvControlFuture<'_, C, U> {
    type Output = Option<C>;

    fn poll(mut self: Pin<&mut Self>, cx: &mut Context<'_>) -> Poll<Self::Output> {
        let this = &mut *self;
        let mut inner = this.rx.shared.lock().unwrap();
        let step = this.rx.consumer.as_mut().unwrap().recv_control(&mut inner.ch);
        match step {
            Step::Ready(got) => {
                this.done = true;
                inner.ring();
                Poll::Ready(got)
            }
            Step::Pending => {
                inner.consumer = Some(cx.waker().clone());
                inner.ring();
                Poll::Pending
            }
        }
    }
}

impl<C, U> Drop for RecvControlFuture<'_, C, U> {
    fn drop(&mut self) {
        if !self.done {
            self.rx.cancel();
        }
    }
}

fn channel<C, U>(cfg: Config) -> (Ctl<C, U>, Usr<C, U>, Rx<C, U>) {
    let (ch, control, user, consumer) = fastpass::channel::channel::<C, U>(cfg);
    let shared = Arc::new(Mutex::new(Inner { ch, consumer: None, producers: Vec::new() }));
    (
        Ctl { shared: shared.clone(), handle: Some(control) },
        Usr { shared: shared.clone(), handle: Some(user) },
        Rx { shared, consumer: Some(consumer) },
    )
}

struct Owner<C, U> {
    shared: Shared<C, U>,
    handle: MailboxOwner<U>,
}

impl<C, U> Owner<C, U> {
    fn close_admission(self) {
        let mut inner = self.shared.lock().unwrap();
        self.handle.close_admission(&mut inner.ch);
        inner.ring();
    }
}

fn mailbox_channel<C, U>(cfg: Config) -> (Ctl<C, U>, Owner<C, U>, Anchor<C, U>, Rx<C, U>) {
    let (ch, control, owner, anchor, consumer) = fastpass::mailbox::mailbox_channel::<C, U>(cfg);
    let shared = Arc::new(Mutex::new(Inner { ch, consumer: None, producers: Vec::new() }));
    (
        Ctl { shared: shared.clone(), handle: Some(control) },
        Owner { shared: shared.clone(), handle: owner },
        Anchor { shared: shared.clone(), handle: anchor },
        Rx { shared, consumer: Some(consumer) },
    )
}

fn run<F: Future>(body: F) -> F::Output {
    tokio::runtime::Builder::new_current_thread().enable_all().build().unwrap().block_on(body)
}

fn run_on<F: Future>(workers: usize, body: F) -> F::Output {
    tokio::runtime::Builder::new_multi_thread()
        .worker_threads(workers)
        .enable_all()
        .build()
        .unwrap()
        .block_on(body)
}

async fn recv1(rx: &mut Rx<u32, u32>) -> Received<u32, u32> {
    match timeout(GUARD, rx.recv()).await {
        Ok(Some(x)) => x,
        Ok(None) => panic!("channel closed while an item was expected"),
        Err(_) => panic!("recv timed out"),
    }
}

/// A small generator of test inputs.
struct Numbers(u64);

impl Numbers {
    fn next(&mut self, below: u32) -> u32 {
        self.0 = self.0.wrapping_mul(6364136223846793005).wrapping_add(1442695040888963407);
        ((self.0 >> 33) as u32) % below
    }
}

#[derive(Debug, PartialEq, Eq)]
struct MoveOnly(u32);

#[test]
fn p1_control_skips_full_user_backlog() {
    run_on(2, async {
        let (ctl, usr, mut rx) = channel::<u32, u32>(Config::new(8));
        for i in 0..8u32 {
            usr.try_send(i).expect("user lane has capacity");
        }
        ctl.send(999).expect("control lane open");
        match recv1(&mut rx).await {
            Received::Control(c) => assert_eq!(c, 999),
            Received::User(u) => {
                panic!("user {u} served before control — head-of-line blocking")
            }
            Received::UserLaneClosed => {
                panic!("user lane reported closed while a UserSender lives")
            }
        }
    });
}

#[test]
fn p2_fifo_within_each_lane() {
    run_on(2, async {
        let (ctl, usr, mut rx) = channel::<u32, u32>(Config::new(16));
        ctl.send(1).unwrap();
        usr.try_send(10).unwrap();
        ctl.send(2).unwrap();
        usr.try_send(11).unwrap();
        ctl.send(3).unwrap();
        usr.try_send(12).unwrap();
        drop(ctl);
        drop(usr);

        let (mut controls, mut users) = (Vec::new(), Vec::new());
        while let Some(x) = timeout(GUARD, rx.recv()).await.expect("no timeout") {
            match x {
                Received::Control(c) => controls.push(c),
                Received::User(u) => users.push(u),
                Received::UserLaneClosed => {}
            }
        }
        assert_eq!(controls, vec![1, 2, 3], "control lane not FIFO");
        assert_eq!(users, vec![10, 11, 12], "user lane not FIFO");
    });
}

#[test]
fn p3_users_flow_when_control_idle() {
    run_on(2, async {
        let (ctl, usr, mut rx) = channel::<u32, u32>(Config::new(8));
        for i in 0..8u32 {
            usr.try_send(i).unwrap();
        }
        drop(ctl);
        let mut users = Vec::new();
        for _ in 0..8 {
            match recv1(&mut rx).await {
                Received::User(u) => users.push(u),
                Received::Control(c) => panic!("phantom control {c}"),
                Received::UserLaneClosed => {
                    panic!("user lane reported closed while a UserSender lives")
                }
            }
        }
        assert_eq!(users, (0..8).collect::<Vec<_>>(), "users must flow");
    });
}

#[test]
fn p4_no_loss_concurrent() {
    run_on(4, async {
        const NC: u32 = 500;
        const NU: u32 = 500;
        let (ctl, usr, mut rx) = channel::<u32, u32>(Config::new(64));
        let (c2, u2) = (ctl.clone(), usr.clone());
        let hc = tokio::spawn(async move {
            for i in 0..NC {
                c2.send(i).unwrap();
            }
        });
        let hu = tokio::spawn(async move {
            for i in 0..NU {
                u2.send(i).await.unwrap();
            }
        });
        drop(ctl);
        drop(usr);

        let (mut controls, mut users) = (BTreeSet::new(), BTreeSet::new());
        loop {
            match timeout(GUARD, rx.recv()).await.expect("no timeout") {
                Some(Received::Control(c)) => {
                    assert!(controls.insert(c), "dup control {c}")
                }
                Some(Received::User(u)) => assert!(users.insert(u), "dup user {u}"),
                Some(Received::UserLaneClosed) => {}
                None => break,
            }
        }
        hc.await.unwrap();
        hu.await.unwrap();
        assert_eq!(controls, (0..NC).collect(), "control loss/dup");
        assert_eq!(users, (0..NU).collect(), "user loss/dup");
    });
}

#[test]
fn p5_wake_on_control() {
    run_on(2, async {
        let (ctl, _usr, mut rx) = channel::<u32, u32>(Config::new(8));
        let b = Arc::new(Barrier::new(2));
        let b2 = b.clone();
        let h = tokio::spawn(async move {
            b2.wait().await;
            tokio::time::sleep(Duration::from_millis(25)).await;
            ctl.send(7).unwrap();
        });
        b.wait().await;
        assert!(
            matches!(recv1(&mut rx).await, Received::Control(7)),
            "consumer not woken by control arrival"
        );
        h.await.unwrap();
    });
}

#[test]
fn p5_wake_on_user() {
    run_on(2, async {
        let (_ctl, usr, mut rx) = channel::<u32, u32>(Config::new(8));
        let b = Arc::new(Barrier::new(2));
        let b2 = b.clone();
        let h = tokio::spawn(async move {
            b2.wait().await;
            tokio::time::sleep(Duration::from_millis(25)).await;
            usr.try_send(7).unwrap();
        });
        b.wait().await;
        assert!(
            matches!(recv1(&mut rx).await, Received::User(7)),
            "consumer not woken by user arrival"
        );
        h.await.unwrap();
    });
}

#[test]
fn p6_drain_returns_queued_items() {
    run_on(2, async {
        let (ctl, usr, rx) = channel::<u32, u32>(Config::new(8));
        ctl.send(1).unwrap();
        ctl.send(2).unwrap();
        usr.try_send(10).unwrap();
        usr.try_send(11).unwrap();
        let drained = rx.drain();
        assert_eq!(drained.control, vec![1, 2], "drain control not FIFO");
        assert_eq!(drained.user, vec![10, 11], "drain user not FIFO");
    });
}

#[test]
fn overtake_control_beats_earlier_user() {
    run_on(2, async {
        let (ctl, usr, mut rx) = channel::<u32, u32>(Config::new(8));
        usr.try_send(1).unwrap();
        ctl.send(2).unwrap();
        assert!(
            matches!(recv1(&mut rx).await, Received::Control(2)),
            "control must overtake an earlier user (ordering witness)"
        );
        assert!(matches!(recv1(&mut rx).await, Received::User(1)));
    });
}

#[test]
fn anti_starvation_user_served_within_aging_cap() {
    run_on(2, async {
        const K: usize = 4;
        let (ctl, usr, mut rx) = channel::<u32, u32>(Config::new(64).with_aging_cap(K));
        for i in 0..(K as u32 * 3) {
            ctl.send(i).unwrap();
        }
        usr.try_send(1000).unwrap();
        let mut saw_user = false;
        for _ in 0..=K {
            if let Received::User(_) = recv1(&mut rx).await {
                saw_user = true;
                break;
            }
        }
        assert!(saw_user, "user starved past aging cap K={K}");
    });
}

#[test]
fn user_fifo_survives_control_interleave() {
    run_on(2, async {
        let (ctl, usr, mut rx) = channel::<u32, u32>(Config::new(32));
        for i in 0..10u32 {
            usr.try_send(i).unwrap();
            if i % 2 == 0 {
                ctl.send(1000 + i).unwrap();
            }
        }
        drop(ctl);
        drop(usr);
        let mut users = Vec::new();
        while let Some(x) = timeout(GUARD, rx.recv()).await.expect("no timeout") {
            if let Received::User(u) = x {
                users.push(u);
            }
        }
        assert_eq!(
            users,
            (0..10).collect::<Vec<_>>(),
            "user FIFO broke under interleave"
        );
    });
}

#[test]
fn user_lane_closed_fires_at_most_once() {
    run_on(2, async {
        let (ctl, usr, mut rx) = channel::<u32, u32>(Config::new(8));
        usr.try_send(1).unwrap();
        drop(usr);
        assert!(matches!(recv1(&mut rx).await, Received::User(1)));
        assert!(matches!(recv1(&mut rx).await, Received::UserLaneClosed));
        ctl.send(7).unwrap();
        assert!(matches!(recv1(&mut rx).await, Received::Control(7)));
        drop(ctl);
        while let Some(x) = timeout(GUARD, rx.recv()).await.expect("recv stalled") {
            assert!(
                !matches!(x, Received::UserLaneClosed),
                "UserLaneClosed fired twice — the one-shot latch is broken"
            );
        }
    });
}

#[test]
fn user_lane_closed_only_after_all_user_items() {
    run_on(2, async {
        let (ctl, usr, mut rx) = channel::<u32, u32>(Config::new(16));
        for i in 0..10u32 {
            usr.try_send(i).unwrap();
        }
        ctl.send(999).unwrap();
        drop(usr);
        drop(ctl);

        let mut users = Vec::new();
        let mut legs = 0u32;
        while let Some(x) = timeout(GUARD, rx.recv()).await.expect("recv stalled") {
            match x {
                Received::Control(_) => {}
                Received::User(u) => {
                    assert_eq!(legs, 0, "user {u} served after UserLaneClosed");
                    users.push(u);
                }
                Received::UserLaneClosed => {
                    legs += 1;
                    assert_eq!(
                        users,
                        (0..10).collect::<Vec<_>>(),
                        "UserLaneClosed fired before every user item was received"
                    );
                }
            }
        }
        assert_eq!(legs, 1, "UserLaneClosed must fire exactly once");
    });
}

#[test]
fn user_lane_closed_never_fires_while_sender_alive() {
    run_on(2, async {
        let (ctl, usr, mut rx) = channel::<u32, u32>(Config::new(8));
        let usr2 = usr.clone();
        usr.try_send(1).unwrap();
        drop(usr);

        assert!(matches!(recv1(&mut rx).await, Received::User(1)));
        assert!(
            timeout(Duration::from_millis(100), rx.recv())
                .await
                .is_err(),
            "recv returned while a UserSender clone lives (premature leg or None)"
        );
        usr2.try_send(2).unwrap();
        assert!(matches!(recv1(&mut rx).await, Received::User(2)));
        drop(usr2);
        assert!(matches!(recv1(&mut rx).await, Received::UserLaneClosed));
        drop(ctl);
        assert!(
            timeout(GUARD, rx.recv())
                .await
                .expect("recv stalled")
                .is_none()
        );
    });
}

#[test]
fn user_lane_closed_then_control_continues_until_none() {
    run_on(2, async {
        let (ctl, usr, mut rx) = channel::<u32, u32>(Config::new(8).with_aging_cap(1));
        ctl.send(0).unwrap();
        ctl.send(1).unwrap();
        ctl.send(2).unwrap();
        usr.try_send(100).unwrap();
        drop(usr);

        let expected = [
            Received::Control(0),
            Received::User(100),
            Received::Control(1),
            Received::UserLaneClosed,
            Received::Control(2),
        ];
        for want in expected {
            assert_eq!(recv1(&mut rx).await, want);
        }
        ctl.send(3).unwrap();
        assert_eq!(recv1(&mut rx).await, Received::Control(3));
        drop(ctl);
        assert!(
            timeout(GUARD, rx.recv())
                .await
                .expect("recv stalled")
                .is_none()
        );
    });
}

#[test]
fn recv_control_fifo_and_never_consumes_user_items() {
    run_on(2, async {
        let (ctl, usr, mut rx) = channel::<u32, u32>(Config::new(8));
        for i in 0..8u32 {
            usr.try_send(i).unwrap();
        }
        for i in 0..4u32 {
            ctl.send(i).unwrap();
        }
        let mut controls = Vec::new();
        for _ in 0..4 {
            controls.push(
                timeout(GUARD, rx.recv_control())
                    .await
                    .expect("recv_control stalled")
                    .expect("control item expected"),
            );
        }
        assert_eq!(
            controls,
            (0..4).collect::<Vec<_>>(),
            "recv_control not FIFO"
        );
        drop(usr);
        let mut users = Vec::new();
        loop {
            match recv1(&mut rx).await {
                Received::User(u) => users.push(u),
                Received::UserLaneClosed => break,
                x => panic!("expected a user item or the end-marker, got {x:?}"),
            }
        }
        assert_eq!(
            users,
            (0..8).collect::<Vec<_>>(),
            "recv_control consumed user items"
        );
    });
}

#[test]
fn recv_control_none_only_when_control_closed_and_drained() {
    run_on(2, async {
        let (ctl, _usr, mut rx) = channel::<u32, u32>(Config::new(8));
        assert!(
            timeout(Duration::from_millis(100), rx.recv_control())
                .await
                .is_err(),
            "recv_control returned on an open, empty control lane"
        );
        ctl.send(1).unwrap();
        drop(ctl);
        assert_eq!(
            timeout(GUARD, rx.recv_control())
                .await
                .expect("recv_control stalled"),
            Some(1),
            "queued control lost to the lane closure"
        );
        assert_eq!(
            timeout(GUARD, rx.recv_control())
                .await
                .expect("recv_control stalled"),
            None,
            "control lane closed and drained — must be None"
        );
        let (ctl2, _usr2, mut rx2) = channel::<u32, u32>(Config::new(8));
        drop(ctl2);
        assert_eq!(
            timeout(GUARD, rx2.recv_control())
                .await
                .expect("recv_control stalled"),
            None,
            "closed empty control lane must yield None"
        );
    });
}

#[test]
fn anchor_shared_clone_neutrality() {
    run_on(2, async {
        let (ctl, usr, mut rx) = channel::<u32, u32>(Config::new(8));
        let a1 = usr.anchor();
        let a2 = a1.clone();
        usr.try_send(1).unwrap();
        drop(usr);
        assert!(matches!(recv1(&mut rx).await, Received::User(1)));
        assert!(
            matches!(recv1(&mut rx).await, Received::UserLaneClosed),
            "the leg must fire with only anchors held"
        );
        ctl.send(7).unwrap();
        assert!(matches!(recv1(&mut rx).await, Received::Control(7)));
        drop(ctl);
        assert!(
            timeout(GUARD, rx.recv())
                .await
                .expect("recv stalled")
                .is_none(),
            "recv must return None once both lanes are closed and drained"
        );
        drop((a1, a2));
    });
}

#[test]
fn anchor_shared_upgrade_and_send_while_live() {
    run_on(2, async {
        let (ctl, usr, mut rx) = channel::<u32, u32>(Config::new(8));
        let anchor = usr.anchor();
        let upgraded = anchor.upgrade().expect("sender is live");
        upgraded.try_send(11).unwrap();
        drop(upgraded);
        assert!(matches!(recv1(&mut rx).await, Received::User(11)));
        anchor.try_send(12).unwrap();
        assert!(matches!(recv1(&mut rx).await, Received::User(12)));
        drop(usr);
        drop(ctl);
    });
}

#[test]
fn anchor_shared_fails_after_last_sender() {
    run_on(2, async {
        let (_ctl, usr, mut rx) = channel::<u32, u32>(Config::new(8));
        let anchor = usr.anchor();
        drop(usr);
        assert!(
            matches!(recv1(&mut rx).await, Received::UserLaneClosed),
            "the leg must fire after the last sender drops"
        );
        assert!(
            anchor.upgrade().is_none(),
            "upgrade succeeded after the lane closed"
        );
        match anchor.try_send(99) {
            Err(TrySendError::Closed(v)) => assert_eq!(v, 99, "payload mangled"),
            Err(TrySendError::Full(v)) => {
                panic!("closed lane reported Full({v}) — must be Closed")
            }
            Ok(()) => panic!("try_send succeeded after the lane closed"),
        }
        let err = timeout(GUARD, anchor.send(100))
            .await
            .expect("anchor send stalled")
            .expect_err("send succeeded after the lane closed");
        match err {
            UserClosed(v) => assert_eq!(v, 100, "payload mangled"),
        }
    });
}

#[test]
fn anchor_shared_fails_after_consumer_drop() {
    run_on(2, async {
        let (ctl, usr, rx) = channel::<u32, u32>(Config::new(8));
        let anchor = usr.anchor();
        drop(rx);
        match anchor.try_send(7) {
            Err(TrySendError::Closed(v)) => assert_eq!(v, 7, "payload mangled"),
            Err(TrySendError::Full(v)) => {
                panic!("dropped consumer reported Full({v}) — must be Closed")
            }
            Ok(()) => panic!("try_send succeeded after the consumer dropped"),
        }
        drop(usr);
        drop(ctl);
        assert!(
            anchor.upgrade().is_none(),
            "upgrade resurrected a lane with no counting sender"
        );
    });
}

#[test]
fn cap_zero_rendezvous_loses_nothing() {
    run(async {
        const N: u32 = 200;
        let (ctl, usr, mut rx) = channel::<u32, u32>(Config::new(0).with_aging_cap(3));
        let producer = tokio::spawn(async move {
            for i in 0..N {
                usr.send(i).await.unwrap();
                ctl.send(i).unwrap();
            }
        });

        let mut got_u = Vec::new();
        let mut got_c = Vec::new();
        while got_u.len() + got_c.len() < (2 * N) as usize {
            match timeout(GUARD, rx.recv())
                .await
                .expect("rendezvous recv stalled")
            {
                Some(Received::User(u)) => got_u.push(u),
                Some(Received::Control(c)) => got_c.push(c),
                Some(Received::UserLaneClosed) => {}
                None => break,
            }
        }
        producer.await.unwrap();

        assert_eq!(
            got_u,
            (0..N).collect::<Vec<_>>(),
            "user lane: loss/dup/reorder at cap 0"
        );
        assert_eq!(
            got_c,
            (0..N).collect::<Vec<_>>(),
            "control lane: loss/dup/reorder at cap 0"
        );
    });
}

#[test]
fn default_config_is_pure_strict_priority() {
    run(async {
        let (ctl, usr, mut rx) = channel::<u32, u32>(Config::new(64));
        for i in 0..64u32 {
            usr.try_send(i).unwrap();
        }
        for i in 0..32u32 {
            ctl.send(i).unwrap();
        }
        drop(usr);
        drop(ctl);

        let mut saw_user = false;
        let mut controls = 0u32;
        while let Some(x) = timeout(GUARD, rx.recv()).await.expect("recv stalled") {
            match x {
                Received::Control(_) => {
                    controls += 1;
                    assert!(
                        !saw_user,
                        "user served before the control backlog drained — \
                         aging must stay OFF by default"
                    );
                }
                Received::User(_) => saw_user = true,
                Received::UserLaneClosed => {}
            }
        }
        assert_eq!(controls, 32);
    });
}

#[test]
fn closed_empty_recv_returns_none_repeatedly() {
    run(async {
        let (ctl, usr, mut rx) = channel::<u32, u32>(Config::new(1));
        drop(ctl);
        drop(usr);
        assert!(matches!(
            timeout(GUARD, rx.recv())
                .await
                .expect("marker recv stalled"),
            Some(Received::UserLaneClosed)
        ));
        assert!(
            timeout(GUARD, rx.recv())
                .await
                .expect("first recv stalled")
                .is_none()
        );
        assert!(
            timeout(GUARD, rx.recv())
                .await
                .expect("second recv stalled")
                .is_none()
        );
    });
}

#[test]
fn anchor_clone_supports_move_only_items() {
    run(async {
        let (_control, user, mut consumer) = channel::<(), MoveOnly>(Config::new(2));
        let anchor = user.anchor().clone();
        anchor.send(MoveOnly(7)).await.unwrap();
        let Some(Received::User(item)) = consumer.recv().await else {
            panic!("move-only user item must be delivered");
        };
        assert_eq!(item.0, 7);
    });
}

#[test]
fn parked_recv_wakes_with_user_lane_closed_on_last_sender_drop() {
    run(async {
        let (ctl, usr, mut rx) = channel::<u32, u32>(Config::new(8));
        let started = Arc::new(Barrier::new(3));
        let release = Arc::new(Barrier::new(2));
        let mut recver = tokio::spawn({
            let started = started.clone();
            async move {
                started.wait().await;
                let got = rx.recv().await;
                (got, rx)
            }
        });
        let dropper = tokio::spawn({
            let started = started.clone();
            let release = release.clone();
            async move {
                started.wait().await;
                release.wait().await;
                drop(usr);
            }
        });
        started.wait().await;
        for _ in 0..8 {
            tokio::task::yield_now().await;
        }
        assert!(
            !recver.is_finished(),
            "recv resolved before the last-sender drop — this is not the parked path"
        );
        release.wait().await;
        let (got, mut rx) = timeout(GUARD, &mut recver)
            .await
            .expect("recv stalled")
            .expect("recver task panicked");
        assert!(
            matches!(got, Some(Received::UserLaneClosed)),
            "expected UserLaneClosed, got {got:?} — None would mean the user lane's \
             death is unobservable while control lives"
        );
        dropper.await.unwrap();
        ctl.send(1).unwrap();
        let got = timeout(GUARD, rx.recv())
            .await
            .expect("control recv stalled");
        assert!(
            matches!(got, Some(Received::Control(1))),
            "control after the marker: {got:?}"
        );
        drop(ctl);
        assert!(
            timeout(GUARD, rx.recv())
                .await
                .expect("recv stalled")
                .is_none()
        );
    });
}

#[test]
fn recv_control_flows_with_full_user_ring() {
    run_on(2, async {
        let (ctl, usr, mut rx) = channel::<u32, u32>(Config::new(2));
        usr.try_send(10).unwrap();
        usr.try_send(11).unwrap();
        let mut blocked = tokio::spawn({
            let usr = usr.clone();
            async move { usr.send(12).await }
        });
        tokio::time::sleep(Duration::from_millis(25)).await;

        ctl.send(1).unwrap();
        ctl.send(2).unwrap();
        assert_eq!(
            timeout(GUARD, rx.recv_control())
                .await
                .expect("recv_control stalled"),
            Some(1)
        );
        assert_eq!(
            timeout(GUARD, rx.recv_control())
                .await
                .expect("recv_control stalled"),
            Some(2)
        );

        assert!(
            timeout(Duration::from_millis(100), &mut blocked)
                .await
                .is_err(),
            "recv_control released a producer parked on the full ring — it must not touch the user lane"
        );

        assert!(matches!(
            timeout(GUARD, rx.recv()).await.expect("recv stalled"),
            Some(Received::User(10))
        ));
        assert!(matches!(
            timeout(GUARD, rx.recv()).await.expect("recv stalled"),
            Some(Received::User(11))
        ));
        blocked
            .await
            .unwrap()
            .expect("blocked send resolves once recv makes room");
        assert!(matches!(
            timeout(GUARD, rx.recv()).await.expect("recv stalled"),
            Some(Received::User(12))
        ));

        drop(usr);
        drop(ctl);
        assert!(matches!(
            timeout(GUARD, rx.recv()).await.expect("recv stalled"),
            Some(Received::UserLaneClosed)
        ));
        assert!(
            timeout(GUARD, rx.recv())
                .await
                .expect("recv stalled")
                .is_none()
        );
    });
}

#[test]
fn parked_for_restart_shape() {
    run_on(2, async {
        let (ctl, usr, mut rx) = channel::<u32, u32>(Config::new(4));
        usr.try_send(1).unwrap();
        usr.try_send(2).unwrap();
        drop(usr);

        assert!(matches!(
            timeout(GUARD, rx.recv()).await.expect("recv stalled"),
            Some(Received::User(1))
        ));
        assert!(matches!(
            timeout(GUARD, rx.recv()).await.expect("recv stalled"),
            Some(Received::User(2))
        ));
        assert!(matches!(
            timeout(GUARD, rx.recv()).await.expect("recv stalled"),
            Some(Received::UserLaneClosed)
        ));

        ctl.send(99).unwrap();
        assert_eq!(
            timeout(GUARD, rx.recv_control())
                .await
                .expect("recv_control stalled"),
            Some(99)
        );

        drop(ctl);
        assert_eq!(
            timeout(GUARD, rx.recv_control())
                .await
                .expect("recv_control stalled"),
            None
        );
        assert!(
            timeout(GUARD, rx.recv())
                .await
                .expect("recv stalled")
                .is_none()
        );
    });
}

#[test]
fn anchor_clone_does_not_hold_lane_open() {
    run_on(2, async {
        let (ctl, usr, mut rx) = channel::<u32, u32>(Config::new(8));
        let a1 = usr.anchor();
        let a2 = a1.clone();
        let a3 = a1.clone();
        usr.try_send(1).unwrap();
        drop(usr);
        assert!(matches!(
            timeout(GUARD, rx.recv()).await.expect("recv stalled"),
            Some(Received::User(1))
        ));
        assert!(
            matches!(
                timeout(GUARD, rx.recv()).await.expect("recv stalled"),
                Some(Received::UserLaneClosed)
            ),
            "the end-marker must fire while cloned anchors are still held"
        );
        drop(ctl);
        assert!(
            timeout(GUARD, rx.recv())
                .await
                .expect("recv stalled")
                .is_none(),
            "recv must drain to None while cloned anchors are still held"
        );
        drop((a1, a2, a3));
    });
}

#[test]
fn anchor_send_while_live() {
    run_on(2, async {
        let (ctl, usr, mut rx) = channel::<u32, u32>(Config::new(8));
        let anchor = usr.anchor();
        let upgraded = anchor.upgrade().expect("a counting sender is live");
        upgraded.try_send(10).unwrap();
        drop(upgraded);
        anchor.try_send(11).unwrap();
        anchor.send(12).await.unwrap();
        drop(usr);
        drop(ctl);

        let mut users = Vec::new();
        while let Some(x) = timeout(GUARD, rx.recv()).await.expect("recv stalled") {
            if let Received::User(u) = x {
                users.push(u);
            }
        }
        assert_eq!(
            users,
            vec![10, 11, 12],
            "anchor deliveries must arrive in FIFO order"
        );
    });
}

#[test]
fn anchor_fails_after_last_sender() {
    run_on(2, async {
        let (_ctl, usr, mut rx) = channel::<u32, u32>(Config::new(8));
        let anchor = usr.anchor();
        drop(usr);
        assert!(matches!(
            timeout(GUARD, rx.recv()).await.expect("recv stalled"),
            Some(Received::UserLaneClosed)
        ));
        assert!(
            anchor.upgrade().is_none(),
            "upgrade resurrected a closed lane"
        );
        match anchor.try_send(99) {
            Err(TrySendError::Closed(v)) => assert_eq!(v, 99, "payload mangled"),
            Err(TrySendError::Full(v)) => panic!("closed lane reported Full({v})"),
            Ok(()) => panic!("try_send succeeded after closure"),
        }
        match timeout(GUARD, anchor.send(100))
            .await
            .expect("anchor send stalled")
        {
            Err(UserClosed(v)) => assert_eq!(v, 100, "payload mangled"),
            Ok(()) => panic!("send succeeded after closure"),
        }
    });
}

#[test]
fn anchor_fails_after_consumer_drop() {
    run_on(2, async {
        let (ctl, usr, rx) = channel::<u32, u32>(Config::new(8));
        let anchor = usr.anchor();
        drop(rx);
        match anchor.try_send(7) {
            Err(TrySendError::Closed(v)) => assert_eq!(v, 7, "payload mangled"),
            Err(TrySendError::Full(v)) => panic!("dropped consumer reported Full({v})"),
            Ok(()) => panic!("try_send succeeded after the consumer dropped"),
        }
        drop(usr);
        drop(ctl);
        assert!(
            anchor.upgrade().is_none(),
            "upgrade resurrected a dead lane"
        );
    });
}

#[test]
fn blocked_anchor_send_holds_lane_open() {
    run_on(2, async {
        let (ctl, usr, mut rx) = channel::<u32, u32>(Config::new(2));
        let anchor = usr.anchor();
        usr.try_send(0).unwrap();
        usr.try_send(1).unwrap();
        let handle = tokio::spawn({
            let anchor = anchor.clone();
            async move { anchor.send(2).await }
        });
        tokio::time::sleep(Duration::from_millis(25)).await;
        drop(usr);

        assert!(matches!(
            timeout(GUARD, rx.recv()).await.expect("recv stalled"),
            Some(Received::User(0))
        ));
        assert!(matches!(
            timeout(GUARD, rx.recv()).await.expect("recv stalled"),
            Some(Received::User(1))
        ));
        assert!(matches!(
            timeout(GUARD, rx.recv()).await.expect("recv stalled"),
            Some(Received::User(2))
        ));
        assert!(
            matches!(
                timeout(GUARD, rx.recv()).await.expect("recv stalled"),
                Some(Received::UserLaneClosed)
            ),
            "the end-marker must wait for the in-flight delivery"
        );
        handle.await.unwrap().expect("blocked send resolves");
        drop(ctl);
        assert!(
            timeout(GUARD, rx.recv())
                .await
                .expect("recv stalled")
                .is_none()
        );
    });
}

#[test]
fn cancelled_anchor_send_releases_liveness() {
    run_on(2, async {
        let (_ctl, usr, mut rx) = channel::<u32, u32>(Config::new(2));
        let anchor = usr.anchor();
        usr.try_send(0).unwrap();
        usr.try_send(1).unwrap();
        let handle = tokio::spawn({
            let anchor = anchor.clone();
            async move { anchor.send(2).await }
        });
        tokio::time::sleep(Duration::from_millis(25)).await;
        handle.abort();

        drop(usr);
        assert!(matches!(
            timeout(GUARD, rx.recv()).await.expect("recv stalled"),
            Some(Received::User(0))
        ));
        assert!(matches!(
            timeout(GUARD, rx.recv()).await.expect("recv stalled"),
            Some(Received::User(1))
        ));
        assert!(
            matches!(
                timeout(GUARD, rx.recv()).await.expect("recv stalled"),
                Some(Received::UserLaneClosed)
            ),
            "the lane never closed — the cancelled send leaked its liveness"
        );
    });
}

#[test]
fn anchor_racing_last_drop_is_linearizable() {
    run_on(4, async {
        for round in 0..300u32 {
            let (ctl, usr, mut rx) = channel::<u32, u32>(Config::new(8));
            let anchor = usr.anchor();
            let b = Arc::new(Barrier::new(3));
            let b2 = b.clone();
            let b3 = b.clone();
            let dropper = tokio::spawn(async move {
                b2.wait().await;
                drop(usr);
            });
            let sender = tokio::spawn(async move {
                b3.wait().await;
                anchor.try_send(round)
            });
            b.wait().await;
            let result = sender.await.unwrap();
            dropper.await.unwrap();

            drop(ctl);
            let mut saw_user = false;
            let mut marker_seen = false;
            loop {
                match timeout(GUARD, rx.recv()).await.expect("recv stalled") {
                    Some(Received::User(u)) => {
                        assert_eq!(u, round, "foreign item in the stream");
                        assert!(
                            !marker_seen,
                            "user item after UserLaneClosed — marker ordering broken"
                        );
                        saw_user = true;
                    }
                    Some(Received::UserLaneClosed) => marker_seen = true,
                    Some(Received::Control(_)) => unreachable!("no control traffic"),
                    None => break,
                }
            }
            assert!(
                marker_seen,
                "the end-marker must fire after the last sender drops"
            );
            match result {
                Ok(()) => assert!(saw_user, "try_send Ok but no item arrived"),
                Err(TrySendError::Full(_)) => {
                    panic!("unexpected Full on an 8-slot ring with one item")
                }
                Err(TrySendError::Closed(v)) => {
                    assert_eq!(v, round, "closed error must carry the original payload");
                    assert!(!saw_user, "try_send Closed but an item arrived");
                }
            }
        }
    });
}

/// Shared drop accounting for the move-only probe payloads.
#[derive(Debug, Default)]
struct Drops {
    /// Constructed minus dropped: must return to 0 after full shutdown.
    live: AtomicUsize,
    /// Dropped, ever: proves exactly-once drop when it equals constructions.
    total: AtomicUsize,
}

/// A move-only, drop-counted payload: deliberately not `Clone`/`Copy`, so
/// every ownership transfer is exact and every construction/drop is counted.
#[derive(Debug)]
struct Probe {
    id: u64,
    drops: Arc<Drops>,
}

impl Probe {
    fn new(id: u64, drops: &Arc<Drops>) -> Self {
        drops.live.fetch_add(1, Ordering::SeqCst);
        Self {
            id,
            drops: drops.clone(),
        }
    }
}

impl Drop for Probe {
    fn drop(&mut self) {
        self.drops.live.fetch_sub(1, Ordering::SeqCst);
        self.drops.total.fetch_add(1, Ordering::SeqCst);
    }
}

/// How a send that races consumer teardown must resolve.
#[derive(Debug, PartialEq, Eq)]
enum Fate {
    /// Linearized into the ring before teardown: resolves `Ok(())`; the
    /// mailbox owns the payload (drained or dropped with the lane).
    Enqueued(u64),
    /// Never linearized: must resolve `Err(UserClosed(payload))` with this
    /// exact payload id, exactly once.
    Returned(u64),
}

/// What teardown means for a ring pre-filled to capacity with no
/// consumer pops: every pre-filled send is `Enqueued`, every blocked send is
/// `Returned` — no blocked send can publish without a pop freeing a slot.
fn teardown_model(prefilled: &[u64], blocked: &[u64]) -> Vec<Fate> {
    prefilled
        .iter()
        .map(|&id| Fate::Enqueued(id))
        .chain(blocked.iter().map(|&id| Fate::Returned(id)))
        .collect()
}

/// Drive a current-thread runtime until every spawned send has run to its
/// park point. One yield per scheduled wakeup: the sends have no pending
/// external event, so a bounded yield count is deterministic — not a sleep.
async fn settle(tasks: &[tokio::task::JoinHandle<Result<(), UserClosed<Probe>>>]) {
    for _ in 0..8 {
        yield_now().await;
    }
    assert!(
        tasks.iter().all(|t| !t.is_finished()),
        "a send resolved before teardown — the scenario is not the blocked race it pins"
    );
}

#[test]
fn blocked_send_on_full_ring_recovers_exact_payload_on_consumer_drop() {
    run(async {
        let drops = Arc::new(Drops::default());
        let (ctl, usr, rx) = channel::<u32, Probe>(Config::new(2));
        usr.try_send(Probe::new(1, &drops)).expect("ring empty");
        usr.try_send(Probe::new(2, &drops)).expect("capacity 2");

        let barrier = Arc::new(Barrier::new(2));
        let blocked = tokio::spawn({
            let usr = usr.clone();
            let barrier = barrier.clone();
            let drops = drops.clone();
            async move {
                barrier.wait().await;
                usr.send(Probe::new(3, &drops)).await
            }
        });
        barrier.wait().await;
        settle(std::slice::from_ref(&blocked)).await;

        drop(rx);
        let err = timeout(GUARD, blocked)
            .await
            .expect("blocked sender never released — lost wakeup at teardown")
            .expect("producer task panicked")
            .expect_err("teardown must reject the blocked send, not report Ok");
        assert_eq!(
            teardown_model(&[1, 2], &[3]),
            vec![
                Fate::Enqueued(1),
                Fate::Enqueued(2),
                Fate::Returned(err.0.id)
            ],
            "send fates diverge from the teardown model"
        );
        drop(err);

        drop((ctl, usr));
        assert_eq!(
            drops.total.load(Ordering::SeqCst),
            3,
            "payload dropped more or fewer than once"
        );
        assert_eq!(
            drops.live.load(Ordering::SeqCst),
            0,
            "payload leaked across shutdown"
        );
    });
}

#[test]
fn enqueued_before_teardown_stays_ok_and_teardown_owns_the_payload() {
    run(async {
        let drops = Arc::new(Drops::default());

        let (_ctl, usr, rx) = channel::<u32, Probe>(Config::new(2));
        usr.send(Probe::new(1, &drops))
            .await
            .expect("consumer alive");
        let mut drained = rx.drain();
        assert_eq!(drained.user.len(), 1, "drain lost the enqueued payload");
        assert_eq!(drained.user.pop().expect("len checked").id, 1);
        drop((drained, usr));

        let (_ctl, usr, rx) = channel::<u32, Probe>(Config::new(2));
        usr.send(Probe::new(2, &drops))
            .await
            .expect("consumer alive");
        drop((rx, usr));

        assert_eq!(drops.total.load(Ordering::SeqCst), 2);
        assert_eq!(drops.live.load(Ordering::SeqCst), 0);
    });
}

#[test]
fn send_starting_after_teardown_returns_its_payload() {
    run(async {
        let drops = Arc::new(Drops::default());
        let (_ctl, usr, rx) = channel::<u32, Probe>(Config::new(2));
        drop(rx);

        let err = usr
            .send(Probe::new(1, &drops))
            .await
            .expect_err("consumer is gone");
        assert_eq!(err.0.id, 1);
        match usr.try_send(Probe::new(2, &drops)) {
            Err(TrySendError::Closed(p)) => assert_eq!(p.id, 2),
            other => panic!("expected Closed with the payload, got {other:?}"),
        }
        drop((err, usr));

        assert_eq!(drops.total.load(Ordering::SeqCst), 2);
        assert_eq!(drops.live.load(Ordering::SeqCst), 0);
    });
}

#[test]
fn every_blocked_producer_recovers_its_own_payload() {
    run_on(4, async {
        const PRODUCERS: u64 = 4;
        let drops = Arc::new(Drops::default());
        let (_ctl, usr, rx) = channel::<u32, Probe>(Config::new(2));
        usr.try_send(Probe::new(1, &drops)).expect("ring empty");
        usr.try_send(Probe::new(2, &drops)).expect("capacity 2");

        let barrier = Arc::new(Barrier::new(usize::try_from(PRODUCERS).expect("small") + 1));
        let mut tasks = Vec::new();
        for id in 10..10 + PRODUCERS {
            let usr = usr.clone();
            let barrier = barrier.clone();
            let drops = drops.clone();
            tasks.push(tokio::spawn(async move {
                barrier.wait().await;
                (id, usr.send(Probe::new(id, &drops)).await)
            }));
        }
        barrier.wait().await;
        for _ in 0..8 {
            yield_now().await;
        }
        assert!(
            tasks.iter().all(|t| !t.is_finished()),
            "a producer resolved before teardown"
        );

        drop(rx);
        let mut returned = Vec::new();
        for task in tasks {
            let (id, result) = timeout(GUARD, task)
                .await
                .expect("a producer stayed parked past teardown — lost wakeup")
                .expect("producer task panicked");
            let err = result.expect_err("teardown must reject every blocked send");
            assert_eq!(err.0.id, id, "a producer got another producer's payload");
            returned.push(err.0.id);
        }
        returned.sort_unstable();
        let expected: Vec<Fate> = teardown_model(&[1, 2], &[10, 11, 12, 13])
            .into_iter()
            .filter(|f| matches!(f, Fate::Returned(_)))
            .collect();
        assert_eq!(
            returned,
            expected
                .iter()
                .map(|f| match f {
                    Fate::Returned(id) => *id,
                    Fate::Enqueued(_) => unreachable!("filtered above"),
                })
                .collect::<Vec<_>>(),
            "returned payload ids diverge from the teardown model"
        );

        drop(usr);
        assert_eq!(
            drops.total.load(Ordering::SeqCst),
            2 + usize::try_from(PRODUCERS).expect("small")
        );
        assert_eq!(drops.live.load(Ordering::SeqCst), 0);
    });
}

#[test]
fn blocked_anchor_send_recovers_payload_on_consumer_drop() {
    run(async {
        let drops = Arc::new(Drops::default());
        let (_ctl, usr, rx) = channel::<u32, Probe>(Config::new(2));
        let anchor = usr.anchor();
        usr.try_send(Probe::new(1, &drops)).expect("ring empty");
        usr.try_send(Probe::new(2, &drops)).expect("capacity 2");

        let barrier = Arc::new(Barrier::new(2));
        let blocked = tokio::spawn({
            let anchor = anchor.clone();
            let barrier = barrier.clone();
            let drops = drops.clone();
            async move {
                barrier.wait().await;
                anchor.send(Probe::new(3, &drops)).await
            }
        });
        barrier.wait().await;
        settle(std::slice::from_ref(&blocked)).await;

        drop(rx);
        let err = timeout(GUARD, blocked)
            .await
            .expect("blocked anchor send never released")
            .expect("producer task panicked")
            .expect_err("teardown must reject the blocked anchor send");
        assert_eq!(err.0.id, 3);
        drop(err);

        drop(usr);
        assert!(
            anchor.upgrade().is_none(),
            "the blocked send leaked its temporary liveness"
        );
        drop(anchor);
        assert_eq!(drops.total.load(Ordering::SeqCst), 3);
        assert_eq!(drops.live.load(Ordering::SeqCst), 0);
    });
}

#[test]
fn cancelled_blocked_send_drops_payload_exactly_once() {
    run(async {
        let drops = Arc::new(Drops::default());
        let (_ctl, usr, rx) = channel::<u32, Probe>(Config::new(2));
        usr.try_send(Probe::new(1, &drops)).expect("ring empty");
        usr.try_send(Probe::new(2, &drops)).expect("capacity 2");

        let barrier = Arc::new(Barrier::new(2));
        let blocked = tokio::spawn({
            let usr = usr.clone();
            let barrier = barrier.clone();
            let drops = drops.clone();
            async move {
                barrier.wait().await;
                usr.send(Probe::new(3, &drops)).await
            }
        });
        barrier.wait().await;
        settle(std::slice::from_ref(&blocked)).await;

        blocked.abort();
        assert!(
            blocked.await.unwrap_err().is_cancelled(),
            "abort must cancel the parked send"
        );
        assert_eq!(drops.total.load(Ordering::SeqCst), 1, "cancel dropped it");
        assert_eq!(drops.live.load(Ordering::SeqCst), 2);

        drop((rx, usr));
        assert_eq!(drops.total.load(Ordering::SeqCst), 3);
        assert_eq!(drops.live.load(Ordering::SeqCst), 0);
    });
}

#[test]
fn last_sender_closure_and_user_lane_closed_marker_unchanged() {
    run(async {
        let (ctl, usr, mut rx) = channel::<u32, u32>(Config::new(4));
        usr.send(1).await.expect("consumer alive");
        usr.send(2).await.expect("consumer alive");
        drop(usr);

        assert_eq!(
            timeout(GUARD, rx.recv()).await.expect("recv hung"),
            Some(Received::User(1))
        );
        assert_eq!(
            timeout(GUARD, rx.recv()).await.expect("recv hung"),
            Some(Received::User(2))
        );
        assert_eq!(
            timeout(GUARD, rx.recv()).await.expect("recv hung"),
            Some(Received::UserLaneClosed),
            "the end-marker must follow the last user item exactly once"
        );
        ctl.send(9).expect("consumer alive");
        assert_eq!(
            timeout(GUARD, rx.recv()).await.expect("recv hung"),
            Some(Received::Control(9))
        );
        drop(ctl);
        assert_eq!(timeout(GUARD, rx.recv()).await.expect("recv hung"), None);
    });
}

#[test]
fn drain_with_blocked_producer_preserves_ordering_and_releases_payload() {
    run(async {
        let drops = Arc::new(Drops::default());
        let (ctl, usr, rx) = channel::<u32, Probe>(Config::new(2));
        usr.try_send(Probe::new(1, &drops)).expect("ring empty");
        usr.try_send(Probe::new(2, &drops)).expect("capacity 2");
        assert!(
            matches!(usr.try_send(Probe::new(99, &drops)), Err(TrySendError::Full(p)) if p.id == 99),
            "capacity accounting: a full ring must report Full with the payload"
        );

        let barrier = Arc::new(Barrier::new(2));
        let blocked = tokio::spawn({
            let usr = usr.clone();
            let barrier = barrier.clone();
            let drops = drops.clone();
            async move {
                barrier.wait().await;
                usr.send(Probe::new(3, &drops)).await
            }
        });
        barrier.wait().await;
        settle(std::slice::from_ref(&blocked)).await;

        ctl.send(7).expect("consumer alive");
        ctl.send(8).expect("consumer alive");

        let drained = rx.drain();
        let user_ids: Vec<u64> = drained.user.iter().map(|p| p.id).collect();
        assert_eq!(user_ids, vec![1, 2], "drained users must be FIFO");
        assert_eq!(drained.control, vec![7, 8], "drained control must be FIFO");

        let err = timeout(GUARD, blocked)
            .await
            .expect("blocked sender never released")
            .expect("producer task panicked")
            .expect_err("teardown must reject the blocked send");
        assert_eq!(err.0.id, 3);
        drop((drained, err, ctl, usr));

        assert_eq!(drops.total.load(Ordering::SeqCst), 4);
        assert_eq!(drops.live.load(Ordering::SeqCst), 0);
    });
}

#[test]
fn close_rejects_stale_refs_with_the_exact_payload_and_drains_accepted_work() {
    run(async {
        let (control, owner, actor_ref, mut receiver) = mailbox_channel::<(), MoveOnly>(Config::new(8));
        let stale = actor_ref.clone();

        actor_ref.send(MoveOnly(1)).await.unwrap();
        actor_ref.try_send(MoveOnly(2)).unwrap();
        owner.close_admission();

        match stale.try_send(MoveOnly(3)) {
            Err(TrySendError::Closed(value)) => assert_eq!(value, MoveOnly(3)),
            Err(TrySendError::Full(_)) => panic!("closed mailbox reported full"),
            Ok(()) => panic!("stale ref admitted a message after close"),
        }
        let UserClosed(value) = stale.send(MoveOnly(4)).await.unwrap_err();
        assert_eq!(value, MoveOnly(4));

        assert_eq!(receiver.recv().await, Some(Received::User(MoveOnly(1))));
        assert_eq!(receiver.recv().await, Some(Received::User(MoveOnly(2))));
        assert_eq!(receiver.recv().await, Some(Received::UserLaneClosed));

        drop(control);
        assert_eq!(receiver.recv().await, None);
    });
}

#[test]
fn close_racing_delivery_has_one_exact_linearizable_outcome() {
    run_on(4, async {
        for value in 0..500 {
            let (control, owner, actor_ref, mut receiver) =
                mailbox_channel::<(), MoveOnly>(Config::new(2));
            let barrier = Arc::new(Barrier::new(3));
            let sender_barrier = barrier.clone();
            let closer_barrier = barrier.clone();

            let sender = tokio::spawn(async move {
                sender_barrier.wait().await;
                actor_ref.try_send(MoveOnly(value))
            });
            let closer = tokio::spawn(async move {
                closer_barrier.wait().await;
                owner.close_admission();
            });
            barrier.wait().await;

            let result = sender.await.unwrap();
            closer.await.unwrap();
            drop(control);

            let first = receiver.recv().await;
            match result {
                Ok(()) => {
                    assert_eq!(first, Some(Received::User(MoveOnly(value))));
                    assert_eq!(receiver.recv().await, Some(Received::UserLaneClosed));
                }
                Err(TrySendError::Closed(returned)) => {
                    assert_eq!(returned, MoveOnly(value));
                    assert_eq!(first, Some(Received::UserLaneClosed));
                }
                Err(TrySendError::Full(_)) => panic!("empty mailbox reported full"),
            }
            assert_eq!(receiver.recv().await, None);
        }
    });
}

#[test]
fn delivery_admitted_before_close_finishes_before_terminal_marker() {
    run(async {
        let (control, owner, actor_ref, mut receiver) = mailbox_channel::<(), MoveOnly>(Config::new(2));
        actor_ref.try_send(MoveOnly(0)).unwrap();
        actor_ref.try_send(MoveOnly(1)).unwrap();

        let blocked = tokio::spawn(async move { actor_ref.send(MoveOnly(2)).await });
        for _ in 0..8 {
            tokio::task::yield_now().await;
        }
        assert!(
            !blocked.is_finished(),
            "send did not block on the full mailbox"
        );

        owner.close_admission();
        assert_eq!(receiver.recv().await, Some(Received::User(MoveOnly(0))));
        assert_eq!(receiver.recv().await, Some(Received::User(MoveOnly(1))));
        assert_eq!(receiver.recv().await, Some(Received::User(MoveOnly(2))));
        blocked.await.unwrap().unwrap();
        assert_eq!(receiver.recv().await, Some(Received::UserLaneClosed));

        drop(control);
        assert_eq!(receiver.recv().await, None);
    });
}

#[test]
fn recv_future_cancellation_loses_nothing() {
    run(async {
        const N: u32 = 500;
        let (ctl, usr, mut rx) = channel::<u32, u32>(Config::new(64).with_aging_cap(4));
        let producer = tokio::spawn(async move {
            for i in 0..N {
                ctl.send(i).unwrap();
                usr.send(i).await.unwrap();
                yield_now().await;
                if i % 16 == 15 {
                    tokio::time::sleep(Duration::from_millis(2)).await;
                }
            }
        });

        let mut got_c = Vec::new();
        let mut got_u = Vec::new();
        let mut cancels = 0u32;
        while got_c.len() + got_u.len() < (2 * N) as usize {
            match timeout(Duration::from_micros(50), rx.recv()).await {
                Ok(Some(Received::Control(c))) => got_c.push(c),
                Ok(Some(Received::User(u))) => got_u.push(u),
                Ok(Some(Received::UserLaneClosed)) => {}
                Ok(None) => break,
                Err(_) => cancels += 1,
            }
        }
        producer.await.unwrap();

        assert!(cancels > 0, "cancellation path was never exercised");
        assert_eq!(got_c, (0..N).collect::<Vec<_>>(), "control lane: loss/dup across cancel");
        assert_eq!(got_u, (0..N).collect::<Vec<_>>(), "user lane: loss/dup across cancel");
    });
}

/// The documented order of service for two backlogs that are loaded beforehand
/// on a closed channel.
fn model(
    users: &mut VecDeque<u32>,
    controls: &mut VecDeque<u32>,
    k: usize,
) -> Vec<Received<u32, u32>> {
    let mut out = Vec::with_capacity(users.len() + controls.len() + 1);
    let mut streak = 0usize;
    let mut leg_pending = true;
    loop {
        if k != 0 && streak >= k {
            if let Some(u) = users.pop_front() {
                out.push(Received::User(u));
                streak = 0;
                continue;
            }
            if leg_pending {
                out.push(Received::UserLaneClosed);
                leg_pending = false;
                streak = 0;
                continue;
            }
        }
        if let Some(c) = controls.pop_front() {
            out.push(Received::Control(c));
            if k != 0 && streak < k {
                streak += 1;
            }
            continue;
        }
        if let Some(u) = users.pop_front() {
            out.push(Received::User(u));
            streak = 0;
            continue;
        }
        if leg_pending {
            out.push(Received::UserLaneClosed);
            leg_pending = false;
            streak = 0;
            continue;
        }
        break;
    }
    out
}

#[test]
fn preloaded_backlog_matches_policy_model() {
    let mut numbers = Numbers(1);
    for case in 0..320usize {
        let k = case % 5;
        let users: Vec<u32> = (0..numbers.next(41)).map(|_| numbers.next(u32::MAX)).collect();
        let controls: Vec<u32> = (0..numbers.next(41)).map(|_| numbers.next(u32::MAX)).collect();
        let expected = model(&mut users.clone().into(), &mut controls.clone().into(), k);
        run(async move {
            let (ctl, usr, mut rx) =
                channel::<u32, u32>(Config::new(users.len().max(1)).with_aging_cap(k));
            for &u in &users {
                usr.try_send(u).unwrap();
            }
            for &c in &controls {
                ctl.send(c).unwrap();
            }
            drop(usr);
            drop(ctl);
            let mut got = Vec::with_capacity(users.len() + controls.len());
            while let Some(x) = timeout(GUARD, rx.recv())
                .await
                .expect("recv stalled on a preloaded, closed channel")
            {
                got.push(x);
            }
            assert_eq!(got, expected, "merge diverged from the policy model");
        });
    }
}

#[test]
fn concurrent_producers_no_loss_fifo() {
    let mut numbers = Numbers(2);
    for case in 0..64usize {
        let k = case % 5;
        let n_users = numbers.next(201);
        let n_controls = numbers.next(201);
        let c_yield = numbers.next(7);
        let u_yield = numbers.next(7);
        run(async move {
            let (ctl, usr, mut rx) = channel::<u32, u32>(Config::new(64).with_aging_cap(k));
            let producers = tokio::spawn(async move {
                let cp = tokio::spawn(async move {
                    for i in 0..n_controls {
                        ctl.send(i).unwrap();
                        if i % 7 == c_yield {
                            yield_now().await;
                        }
                    }
                });
                let up = tokio::spawn(async move {
                    for i in 0..n_users {
                        usr.send(i).await.unwrap();
                        if i % 7 == u_yield {
                            yield_now().await;
                        }
                    }
                });
                cp.await.unwrap();
                up.await.unwrap();
            });

            let mut got_c = Vec::new();
            let mut got_u = Vec::new();
            let mut legs = 0u32;
            loop {
                match timeout(GUARD, rx.recv()).await.expect("recv stalled") {
                    Some(Received::Control(c)) => got_c.push(c),
                    Some(Received::User(u)) => got_u.push(u),
                    Some(Received::UserLaneClosed) => legs += 1,
                    None => break,
                }
            }
            producers.await.unwrap();

            assert!(legs <= 1, "UserLaneClosed fired {legs}x, must be at most once");
            assert_eq!(
                got_c,
                (0..n_controls).collect::<Vec<_>>(),
                "control lane: loss/dup/reorder"
            );
            assert_eq!(got_u, (0..n_users).collect::<Vec<_>>(), "user lane: loss/dup/reorder");
        });
    }
}

/// The user lane as its handles see it: how many senders count, what is queued,
/// and whether the end-marker is out.
struct LaneModel {
    count: usize,
    queue: VecDeque<u32>,
    leg_delivered: bool,
}

impl LaneModel {
    fn next_stream(&mut self) -> Option<Received<u32, u32>> {
        if let Some(u) = self.queue.pop_front() {
            return Some(Received::User(u));
        }
        if self.count == 0 && !self.leg_delivered {
            self.leg_delivered = true;
            return Some(Received::UserLaneClosed);
        }
        None
    }
}

#[test]
fn anchor_schedules_match_lane_state_machine() {
    let mut numbers = Numbers(3);
    for _ in 0..64 {
        let ops: Vec<(u32, u32)> =
            (0..numbers.next(61)).map(|_| (numbers.next(5), numbers.next(u32::MAX))).collect();
        run(async move {
            let (ctl, usr, mut rx) = channel::<u32, u32>(Config::new(64));
            let anchor = usr.anchor();
            let mut model =
                LaneModel { count: 1, queue: VecDeque::new(), leg_delivered: false };
            let mut usr = Some(usr);

            for (op, n) in ops {
                match op {
                    0 => {
                        if model.count == 0 {
                            continue;
                        }
                        usr.as_ref().unwrap().try_send(n).unwrap();
                        model.queue.push_back(n);
                    }
                    1 => match anchor.try_send(n) {
                        Ok(()) => {
                            assert!(model.count > 0, "anchor send succeeded on a closed lane");
                            model.queue.push_back(n);
                        }
                        Err(TrySendError::Closed(v)) => {
                            assert_eq!(v, n, "closed anchor send must return the payload");
                            assert!(model.count == 0, "anchor send failed on an open lane");
                        }
                        Err(TrySendError::Full(_)) => {
                            panic!("capacity 64 cannot fill with <= 60 schedule ops")
                        }
                    },
                    2 => {
                        let upgraded = anchor.upgrade();
                        assert_eq!(
                            upgraded.is_some(),
                            model.count > 0,
                            "upgrade must track the lane state"
                        );
                        drop(upgraded);
                    }
                    3 => {
                        if model.count == 0 {
                            continue;
                        }
                        drop(usr.take().unwrap());
                        model.count = 0;
                    }
                    _ => {
                        if model.queue.is_empty() && (model.count > 0 || model.leg_delivered) {
                            continue;
                        }
                        let want = model.next_stream();
                        let got = timeout(GUARD, rx.recv()).await.expect("recv stalled");
                        assert_eq!(got, want, "stream diverged from the state machine");
                    }
                }
            }

            if let Some(usr) = usr.take() {
                drop(usr);
                model.count = 0;
            }
            drop(ctl);
            loop {
                let want = model.next_stream();
                let got = timeout(GUARD, rx.recv())
                    .await
                    .expect("recv stalled on the closed channel");
                assert_eq!(got, want, "final drain diverged from the state machine");
                if want.is_none() {
                    break;
                }
            }
        });
    }
}

#[test]
fn lanes_do_not_leak() {
    const M: u32 = 50_000;
    const BOUND: usize = 64;
    run(async {
        let (ctl, usr, mut rx) = channel::<u32, u32>(Config::new(8));
        for i in 0..M {
            ctl.send(i).unwrap();
            let _ = rx.recv().await;
        }
        let base = rx.shared.lock().unwrap().ch.control.blocks_in_memory();
        for i in 0..M {
            ctl.send(i).unwrap();
            let _ = rx.recv().await;
        }
        let after = rx.shared.lock().unwrap().ch.control.blocks_in_memory();
        assert!(after <= base + BOUND, "control lane leaks: {base} blocks became {after}");
        assert!(after <= 5, "an empty control lane keeps {after} blocks");
        drop((ctl, usr, rx));

        let (_ctl, usr, mut rx) = channel::<u32, u32>(Config::new(8));
        for i in 0..2 * M {
            usr.try_send(i).unwrap();
            assert_eq!(rx.recv().await, Some(Received::User(i)));
        }
    });
}

/// One full cycle: saturate the user lane, park two producers, tear the
/// consumer down. Returns how many payloads it made.
async fn teardown_cycle(drops: &Arc<Drops>) -> usize {
    let (ctl, usr, rx) = channel::<u32, Probe>(Config::new(2));
    usr.try_send(Probe::new(1, drops)).expect("ring empty");
    usr.try_send(Probe::new(2, drops)).expect("capacity 2");
    let mut tasks = Vec::new();
    for id in 3..5 {
        let usr = usr.clone();
        let drops = drops.clone();
        tasks.push(tokio::spawn(async move { usr.send(Probe::new(id, &drops)).await }));
    }
    settle(&tasks).await;
    drop(rx);
    for task in tasks {
        let err: UserClosed<Probe> = task
            .await
            .expect("producer task panicked")
            .expect_err("teardown must release each blocked producer with its payload");
        drop(err);
    }
    drop((ctl, usr));
    4
}

#[test]
fn shutdown_returns_allocations_to_baseline() {
    run(async {
        let drops = Arc::new(Drops::default());
        let mut built = 0usize;
        for _ in 0..65 {
            built += teardown_cycle(&drops).await;
            assert_eq!(drops.live.load(Ordering::SeqCst), 0);
        }
        assert_eq!(
            drops.total.load(Ordering::SeqCst),
            built,
            "payload drops must equal constructions"
        );
    });
}
