use fastpass::channel::Step;
use fastpass::flume_lane::{Offered, Polled};
use fastpass::reference::{
    channel as open_channel, control_send_answer, drain_answer, send_answer, send_upgraded,
    try_send_answer, try_send_upgraded, Consumer, ControlSender, Merger, UserAnchor, UserSender,
};
use fastpass::types::{Config, Drained, Received, TrySendError, UserClosed};
use std::collections::BTreeSet;
use std::future::{poll_fn, Future};
use std::sync::Arc;
use std::task::Poll;
use std::time::Duration;
use tokio::sync::Barrier;
use tokio::time::timeout;

const GUARD: Duration = Duration::from_secs(5);

#[derive(Clone)]
struct Usr<U>(UserSender<U>);

impl<U> Usr<U> {
    fn try_send(&self, item: U) -> Result<(), TrySendError<U>> {
        self.0.try_send(item)
    }

    async fn send(&self, item: U) -> Result<(), UserClosed<U>> {
        send_answer(self.0.tx().send_async(item).await.map_err(|e| e.into_inner()))
    }

    fn anchor(&self) -> Anchor<U> {
        Anchor(self.0.anchor())
    }
}

#[derive(Clone)]
struct Anchor<U>(UserAnchor<U>);

impl<U> Anchor<U> {
    fn upgrade(&self) -> Option<Usr<U>> {
        self.0.upgrade().map(Usr)
    }

    fn try_send(&self, item: U) -> Result<(), TrySendError<U>> {
        self.0.try_send(item)
    }

    async fn send(&self, item: U) -> Result<(), UserClosed<U>> {
        let (sender, item) = send_upgraded(self.0.upgrade(), item)?;
        Usr(sender).send(item).await
    }
}

enum Arrival<C, U> {
    Control(Option<C>),
    User(Option<U>),
}

struct Rx<C, U>(Consumer<C, U>);

impl<C, U> Rx<C, U> {
    async fn arrival(&self) -> Arrival<C, U> {
        let mut control = Box::pin(self.0.control_rx().recv_async());
        let mut user = Box::pin(self.0.user_rx().recv_async());
        poll_fn(|cx| {
            if self.0.merger().awaits_control() {
                if let Poll::Ready(arrived) = control.as_mut().poll(cx) {
                    return Poll::Ready(Arrival::Control(arrived.ok()));
                }
            }
            if self.0.merger().awaits_user() {
                if let Poll::Ready(arrived) = user.as_mut().poll(cx) {
                    return Poll::Ready(Arrival::User(arrived.ok()));
                }
            }
            Poll::Pending
        })
        .await
    }

    async fn recv(&mut self) -> Option<Received<C, U>> {
        loop {
            if let Step::Ready(got) = self.0.recv() {
                return got;
            }
            let taken = match self.arrival().await {
                Arrival::Control(arrived) => self.0.control_awaited(arrived),
                Arrival::User(arrived) => self.0.user_awaited(arrived),
            };
            if taken.is_some() {
                return taken;
            }
        }
    }

    async fn recv_control(&mut self) -> Option<C> {
        if let Step::Ready(got) = self.0.recv_control() {
            return got;
        }
        let arrived = self.0.control_rx().recv_async().await.ok();
        self.0.control_only_awaited(arrived)
    }

    fn drain(self) -> Drained<C, U> {
        self.0.drain()
    }
}

fn channel<C, U>(cfg: Config) -> (ControlSender<C>, Usr<U>, Rx<C, U>) {
    let (control, user, consumer) = open_channel::<C, U>(cfg);
    (control, Usr(user), Rx(consumer))
}

fn run<F: Future>(body: F) -> F::Output {
    tokio::runtime::Builder::new_current_thread().enable_all().build().unwrap().block_on(body)
}

fn run_on<F: Future>(workers: usize, body: F) -> F::Output {
    tokio::runtime::Builder::new_multi_thread()
        .worker_threads(workers)
        .enable_all()
        .build()
        .unwrap()
        .block_on(body)
}

async fn recv1(rx: &mut Rx<u32, u32>) -> Received<u32, u32> {
    match timeout(GUARD, rx.recv()).await {
        Ok(Some(x)) => x,
        Ok(None) => panic!("channel closed while an item was expected"),
        Err(_) => panic!("recv timed out"),
    }
}

#[test]
fn reference_p1_control_skips_full_user_backlog() {
    run_on(2, async {
        let (ctl, usr, mut rx) = channel::<u32, u32>(Config::new(8));
        for i in 0..8u32 {
            usr.try_send(i).expect("user lane has capacity");
        }
        ctl.send(999).expect("control lane open");
        match recv1(&mut rx).await {
            Received::Control(c) => assert_eq!(c, 999),
            Received::User(u) => {
                panic!("user {u} served before control — head-of-line blocking")
            }
            Received::UserLaneClosed => {
                panic!("user lane reported closed while a UserSender lives")
            }
        }
    });
}

#[test]
fn reference_p2_fifo_within_each_lane() {
    run_on(2, async {
        let (ctl, usr, mut rx) = channel::<u32, u32>(Config::new(16));
        ctl.send(1).unwrap();
        usr.try_send(10).unwrap();
        ctl.send(2).unwrap();
        usr.try_send(11).unwrap();
        ctl.send(3).unwrap();
        usr.try_send(12).unwrap();
        drop(ctl);
        drop(usr);

        let (mut controls, mut users) = (Vec::new(), Vec::new());
        while let Some(x) = timeout(GUARD, rx.recv()).await.expect("no timeout") {
            match x {
                Received::Control(c) => controls.push(c),
                Received::User(u) => users.push(u),
                Received::UserLaneClosed => {}
            }
        }
        assert_eq!(controls, vec![1, 2, 3], "control lane not FIFO");
        assert_eq!(users, vec![10, 11, 12], "user lane not FIFO");
    });
}

#[test]
fn reference_p3_users_flow_when_control_idle() {
    run_on(2, async {
        let (ctl, usr, mut rx) = channel::<u32, u32>(Config::new(8));
        for i in 0..8u32 {
            usr.try_send(i).unwrap();
        }
        drop(ctl);
        let mut users = Vec::new();
        for _ in 0..8 {
            match recv1(&mut rx).await {
                Received::User(u) => users.push(u),
                Received::Control(c) => panic!("phantom control {c}"),
                Received::UserLaneClosed => {
                    panic!("user lane reported closed while a UserSender lives")
                }
            }
        }
        assert_eq!(users, (0..8).collect::<Vec<_>>(), "users must flow");
    });
}

#[test]
fn reference_p4_no_loss_concurrent() {
    run_on(4, async {
        const NC: u32 = 500;
        const NU: u32 = 500;
        let (ctl, usr, mut rx) = channel::<u32, u32>(Config::new(64));
        let (c2, u2) = (ctl.clone(), usr.clone());
        let hc = tokio::spawn(async move {
            for i in 0..NC {
                c2.send(i).unwrap();
            }
        });
        let hu = tokio::spawn(async move {
            for i in 0..NU {
                u2.send(i).await.unwrap();
            }
        });
        drop(ctl);
        drop(usr);

        let (mut controls, mut users) = (BTreeSet::new(), BTreeSet::new());
        loop {
            match timeout(GUARD, rx.recv()).await.expect("no timeout") {
                Some(Received::Control(c)) => {
                    assert!(controls.insert(c), "dup control {c}")
                }
                Some(Received::User(u)) => assert!(users.insert(u), "dup user {u}"),
                Some(Received::UserLaneClosed) => {}
                None => break,
            }
        }
        hc.await.unwrap();
        hu.await.unwrap();
        assert_eq!(controls, (0..NC).collect(), "control loss/dup");
        assert_eq!(users, (0..NU).collect(), "user loss/dup");
    });
}

#[test]
fn reference_p5_wake_on_control() {
    run_on(2, async {
        let (ctl, _usr, mut rx) = channel::<u32, u32>(Config::new(8));
        let b = Arc::new(Barrier::new(2));
        let b2 = b.clone();
        let h = tokio::spawn(async move {
            b2.wait().await;
            tokio::time::sleep(Duration::from_millis(25)).await;
            ctl.send(7).unwrap();
        });
        b.wait().await;
        assert!(
            matches!(recv1(&mut rx).await, Received::Control(7)),
            "consumer not woken by control arrival"
        );
        h.await.unwrap();
    });
}

#[test]
fn reference_p5_wake_on_user() {
    run_on(2, async {
        let (_ctl, usr, mut rx) = channel::<u32, u32>(Config::new(8));
        let b = Arc::new(Barrier::new(2));
        let b2 = b.clone();
        let h = tokio::spawn(async move {
            b2.wait().await;
            tokio::time::sleep(Duration::from_millis(25)).await;
            usr.try_send(7).unwrap();
        });
        b.wait().await;
        assert!(
            matches!(recv1(&mut rx).await, Received::User(7)),
            "consumer not woken by user arrival"
        );
        h.await.unwrap();
    });
}

#[test]
fn reference_p6_drain_returns_queued_items() {
    run_on(2, async {
        let (ctl, usr, rx) = channel::<u32, u32>(Config::new(8));
        ctl.send(1).unwrap();
        ctl.send(2).unwrap();
        usr.try_send(10).unwrap();
        usr.try_send(11).unwrap();
        let drained = rx.drain();
        assert_eq!(drained.control, vec![1, 2], "drain control not FIFO");
        assert_eq!(drained.user, vec![10, 11], "drain user not FIFO");
    });
}

#[test]
fn reference_overtake_control_beats_earlier_user() {
    run_on(2, async {
        let (ctl, usr, mut rx) = channel::<u32, u32>(Config::new(8));
        usr.try_send(1).unwrap();
        ctl.send(2).unwrap();
        assert!(
            matches!(recv1(&mut rx).await, Received::Control(2)),
            "control must overtake an earlier user (ordering witness)"
        );
        assert!(matches!(recv1(&mut rx).await, Received::User(1)));
    });
}

#[test]
fn reference_anti_starvation_user_served_within_aging_cap() {
    run_on(2, async {
        const K: usize = 4;
        let (ctl, usr, mut rx) = channel::<u32, u32>(Config::new(64).with_aging_cap(K));
        for i in 0..(K as u32 * 3) {
            ctl.send(i).unwrap();
        }
        usr.try_send(1000).unwrap();
        let mut saw_user = false;
        for _ in 0..=K {
            if let Received::User(_) = recv1(&mut rx).await {
                saw_user = true;
                break;
            }
        }
        assert!(saw_user, "user starved past aging cap K={K}");
    });
}

#[test]
fn reference_user_fifo_survives_control_interleave() {
    run_on(2, async {
        let (ctl, usr, mut rx) = channel::<u32, u32>(Config::new(32));
        for i in 0..10u32 {
            usr.try_send(i).unwrap();
            if i % 2 == 0 {
                ctl.send(1000 + i).unwrap();
            }
        }
        drop(ctl);
        drop(usr);
        let mut users = Vec::new();
        while let Some(x) = timeout(GUARD, rx.recv()).await.expect("no timeout") {
            if let Received::User(u) = x {
                users.push(u);
            }
        }
        assert_eq!(
            users,
            (0..10).collect::<Vec<_>>(),
            "user FIFO broke under interleave"
        );
    });
}

#[test]
fn reference_user_lane_closed_fires_at_most_once() {
    run_on(2, async {
        let (ctl, usr, mut rx) = channel::<u32, u32>(Config::new(8));
        usr.try_send(1).unwrap();
        drop(usr);
        assert!(matches!(recv1(&mut rx).await, Received::User(1)));
        assert!(matches!(recv1(&mut rx).await, Received::UserLaneClosed));
        ctl.send(7).unwrap();
        assert!(matches!(recv1(&mut rx).await, Received::Control(7)));
        drop(ctl);
        while let Some(x) = timeout(GUARD, rx.recv()).await.expect("recv stalled") {
            assert!(
                !matches!(x, Received::UserLaneClosed),
                "UserLaneClosed fired twice — the one-shot latch is broken"
            );
        }
    });
}

#[test]
fn reference_user_lane_closed_only_after_all_user_items() {
    run_on(2, async {
        let (ctl, usr, mut rx) = channel::<u32, u32>(Config::new(16));
        for i in 0..10u32 {
            usr.try_send(i).unwrap();
        }
        ctl.send(999).unwrap();
        drop(usr);
        drop(ctl);

        let mut users = Vec::new();
        let mut legs = 0u32;
        while let Some(x) = timeout(GUARD, rx.recv()).await.expect("recv stalled") {
            match x {
                Received::Control(_) => {}
                Received::User(u) => {
                    assert_eq!(legs, 0, "user {u} served after UserLaneClosed");
                    users.push(u);
                }
                Received::UserLaneClosed => {
                    legs += 1;
                    assert_eq!(
                        users,
                        (0..10).collect::<Vec<_>>(),
                        "UserLaneClosed fired before every user item was received"
                    );
                }
            }
        }
        assert_eq!(legs, 1, "UserLaneClosed must fire exactly once");
    });
}

#[test]
fn reference_user_lane_closed_never_fires_while_sender_alive() {
    run_on(2, async {
        let (ctl, usr, mut rx) = channel::<u32, u32>(Config::new(8));
        let usr2 = usr.clone();
        usr.try_send(1).unwrap();
        drop(usr);

        assert!(matches!(recv1(&mut rx).await, Received::User(1)));
        assert!(
            timeout(Duration::from_millis(100), rx.recv())
                .await
                .is_err(),
            "recv returned while a UserSender clone lives (premature leg or None)"
        );
        usr2.try_send(2).unwrap();
        assert!(matches!(recv1(&mut rx).await, Received::User(2)));
        drop(usr2);
        assert!(matches!(recv1(&mut rx).await, Received::UserLaneClosed));
        drop(ctl);
        assert!(
            timeout(GUARD, rx.recv())
                .await
                .expect("recv stalled")
                .is_none()
        );
    });
}

#[test]
fn reference_user_lane_closed_then_control_continues_until_none() {
    run_on(2, async {
        let (ctl, usr, mut rx) = channel::<u32, u32>(Config::new(8).with_aging_cap(1));
        ctl.send(0).unwrap();
        ctl.send(1).unwrap();
        ctl.send(2).unwrap();
        usr.try_send(100).unwrap();
        drop(usr);

        let expected = [
            Received::Control(0),
            Received::User(100),
            Received::Control(1),
            Received::UserLaneClosed,
            Received::Control(2),
        ];
        for want in expected {
            assert_eq!(recv1(&mut rx).await, want);
        }
        ctl.send(3).unwrap();
        assert_eq!(recv1(&mut rx).await, Received::Control(3));
        drop(ctl);
        assert!(
            timeout(GUARD, rx.recv())
                .await
                .expect("recv stalled")
                .is_none()
        );
    });
}

#[test]
fn reference_recv_control_fifo_and_never_consumes_user_items() {
    run_on(2, async {
        let (ctl, usr, mut rx) = channel::<u32, u32>(Config::new(8));
        for i in 0..8u32 {
            usr.try_send(i).unwrap();
        }
        for i in 0..4u32 {
            ctl.send(i).unwrap();
        }
        let mut controls = Vec::new();
        for _ in 0..4 {
            controls.push(
                timeout(GUARD, rx.recv_control())
                    .await
                    .expect("recv_control stalled")
                    .expect("control item expected"),
            );
        }
        assert_eq!(
            controls,
            (0..4).collect::<Vec<_>>(),
            "recv_control not FIFO"
        );
        drop(usr);
        let mut users = Vec::new();
        loop {
            match recv1(&mut rx).await {
                Received::User(u) => users.push(u),
                Received::UserLaneClosed => break,
                x => panic!("expected a user item or the end-marker, got {x:?}"),
            }
        }
        assert_eq!(
            users,
            (0..8).collect::<Vec<_>>(),
            "recv_control consumed user items"
        );
    });
}

#[test]
fn reference_recv_control_none_only_when_control_closed_and_drained() {
    run_on(2, async {
        let (ctl, _usr, mut rx) = channel::<u32, u32>(Config::new(8));
        assert!(
            timeout(Duration::from_millis(100), rx.recv_control())
                .await
                .is_err(),
            "recv_control returned on an open, empty control lane"
        );
        ctl.send(1).unwrap();
        drop(ctl);
        assert_eq!(
            timeout(GUARD, rx.recv_control())
                .await
                .expect("recv_control stalled"),
            Some(1),
            "queued control lost to the lane closure"
        );
        assert_eq!(
            timeout(GUARD, rx.recv_control())
                .await
                .expect("recv_control stalled"),
            None,
            "control lane closed and drained — must be None"
        );
        let (ctl2, _usr2, mut rx2) = channel::<u32, u32>(Config::new(8));
        drop(ctl2);
        assert_eq!(
            timeout(GUARD, rx2.recv_control())
                .await
                .expect("recv_control stalled"),
            None,
            "closed empty control lane must yield None"
        );
    });
}

#[test]
fn reference_anchor_shared_clone_neutrality() {
    run_on(2, async {
        let (ctl, usr, mut rx) = channel::<u32, u32>(Config::new(8));
        let a1 = usr.anchor();
        let a2 = a1.clone();
        usr.try_send(1).unwrap();
        drop(usr);
        assert!(matches!(recv1(&mut rx).await, Received::User(1)));
        assert!(
            matches!(recv1(&mut rx).await, Received::UserLaneClosed),
            "the leg must fire with only anchors held"
        );
        ctl.send(7).unwrap();
        assert!(matches!(recv1(&mut rx).await, Received::Control(7)));
        drop(ctl);
        assert!(
            timeout(GUARD, rx.recv())
                .await
                .expect("recv stalled")
                .is_none(),
            "recv must return None once both lanes are closed and drained"
        );
        drop((a1, a2));
    });
}

#[test]
fn reference_anchor_shared_upgrade_and_send_while_live() {
    run_on(2, async {
        let (ctl, usr, mut rx) = channel::<u32, u32>(Config::new(8));
        let anchor = usr.anchor();
        let upgraded = anchor.upgrade().expect("sender is live");
        upgraded.try_send(11).unwrap();
        drop(upgraded);
        assert!(matches!(recv1(&mut rx).await, Received::User(11)));
        anchor.try_send(12).unwrap();
        assert!(matches!(recv1(&mut rx).await, Received::User(12)));
        drop(usr);
        drop(ctl);
    });
}

#[test]
fn reference_anchor_shared_fails_after_last_sender() {
    run_on(2, async {
        let (_ctl, usr, mut rx) = channel::<u32, u32>(Config::new(8));
        let anchor = usr.anchor();
        drop(usr);
        assert!(
            matches!(recv1(&mut rx).await, Received::UserLaneClosed),
            "the leg must fire after the last sender drops"
        );
        assert!(
            anchor.upgrade().is_none(),
            "upgrade succeeded after the lane closed"
        );
        match anchor.try_send(99) {
            Err(TrySendError::Closed(v)) => assert_eq!(v, 99, "payload mangled"),
            Err(TrySendError::Full(v)) => {
                panic!("closed lane reported Full({v}) — must be Closed")
            }
            Ok(()) => panic!("try_send succeeded after the lane closed"),
        }
        let err = timeout(GUARD, anchor.send(100))
            .await
            .expect("anchor send stalled")
            .expect_err("send succeeded after the lane closed");
        match err {
            UserClosed(v) => assert_eq!(v, 100, "payload mangled"),
        }
    });
}

#[test]
fn reference_anchor_shared_fails_after_consumer_drop() {
    run_on(2, async {
        let (ctl, usr, rx) = channel::<u32, u32>(Config::new(8));
        let anchor = usr.anchor();
        drop(rx);
        match anchor.try_send(7) {
            Err(TrySendError::Closed(v)) => assert_eq!(v, 7, "payload mangled"),
            Err(TrySendError::Full(v)) => {
                panic!("dropped consumer reported Full({v}) — must be Closed")
            }
            Ok(()) => panic!("try_send succeeded after the consumer dropped"),
        }
        drop(usr);
        drop(ctl);
        assert!(
            anchor.upgrade().is_none(),
            "upgrade resurrected a lane with no counting sender"
        );
    });
}

#[test]
fn reference_cap_zero_rendezvous_loses_nothing() {
    run(async {
        const N: u32 = 200;
        let (ctl, usr, mut rx) = channel::<u32, u32>(Config::new(0).with_aging_cap(3));
        let producer = tokio::spawn(async move {
            for i in 0..N {
                usr.send(i).await.unwrap();
                ctl.send(i).unwrap();
            }
        });

        let mut got_u = Vec::new();
        let mut got_c = Vec::new();
        while got_u.len() + got_c.len() < (2 * N) as usize {
            match timeout(GUARD, rx.recv())
                .await
                .expect("rendezvous recv stalled")
            {
                Some(Received::User(u)) => got_u.push(u),
                Some(Received::Control(c)) => got_c.push(c),
                Some(Received::UserLaneClosed) => {}
                None => break,
            }
        }
        producer.await.unwrap();

        assert_eq!(
            got_u,
            (0..N).collect::<Vec<_>>(),
            "user lane: loss/dup/reorder at cap 0"
        );
        assert_eq!(
            got_c,
            (0..N).collect::<Vec<_>>(),
            "control lane: loss/dup/reorder at cap 0"
        );
    });
}

#[test]
fn drain_teardown_race_discards_blocked_sender_item() {
    run(async {
        let (ctl, usr, rx) = channel::<u32, u32>(Config::new(2));
        usr.send(10).await.unwrap();
        usr.send(11).await.unwrap();
        let blocked = tokio::spawn({
            let usr = usr.clone();
            async move { usr.send(12).await }
        });
        tokio::time::sleep(Duration::from_millis(25)).await;
        ctl.send(7).unwrap();

        let drained = rx.drain();
        assert_eq!(
            drained.user,
            vec![10, 11],
            "drain must return queued users, FIFO"
        );
        assert_eq!(drained.control, vec![7], "drain must return queued control");

        let returned = timeout(GUARD, blocked)
            .await
            .expect("blocked sender never released")
            .unwrap();
        assert!(
            returned.is_ok(),
            "flume pulls parked sends into the orphaned queue at disconnect and reports Ok — \
             a send racing teardown is silently discarded"
        );
    });
}

#[test]
fn reference_default_config_is_pure_strict_priority() {
    run(async {
        let (ctl, usr, mut rx) = channel::<u32, u32>(Config::new(64));
        for i in 0..64u32 {
            usr.try_send(i).unwrap();
        }
        for i in 0..32u32 {
            ctl.send(i).unwrap();
        }
        drop(usr);
        drop(ctl);

        let mut saw_user = false;
        let mut controls = 0u32;
        while let Some(x) = timeout(GUARD, rx.recv()).await.expect("recv stalled") {
            match x {
                Received::Control(_) => {
                    controls += 1;
                    assert!(
                        !saw_user,
                        "user served before the control backlog drained — \
                         aging must stay OFF by default"
                    );
                }
                Received::User(_) => saw_user = true,
                Received::UserLaneClosed => {}
            }
        }
        assert_eq!(controls, 32);
    });
}

#[test]
fn reference_closed_empty_recv_returns_none_repeatedly() {
    run(async {
        let (ctl, usr, mut rx) = channel::<u32, u32>(Config::new(1));
        drop(ctl);
        drop(usr);
        assert!(matches!(
            timeout(GUARD, rx.recv())
                .await
                .expect("marker recv stalled"),
            Some(Received::UserLaneClosed)
        ));
        assert!(
            timeout(GUARD, rx.recv())
                .await
                .expect("first recv stalled")
                .is_none()
        );
        assert!(
            timeout(GUARD, rx.recv())
                .await
                .expect("second recv stalled")
                .is_none()
        );
    });
}

#[test]
fn reference_merger_follows_the_lanes() {
    let mut merger = Merger::new(2);
    assert!(!merger.aging_due());
    assert_eq!(merger.control_polled::<u32, u32>(Polled::Item(1)), Some(Received::Control(1)));
    assert_eq!(merger.control_polled::<u32, u32>(Polled::Item(2)), Some(Received::Control(2)));
    assert!(merger.aging_due());
    assert_eq!(merger.control_polled::<u32, u32>(Polled::Empty), None);
    assert_eq!(merger.user_polled::<u32, u32>(Polled::Item(7)), Some(Received::User(7)));
    assert!(!merger.aging_due());
    assert_eq!(merger.user_polled::<u32, u32>(Polled::Empty), None);
    assert!(merger.awaits_user() && merger.awaits_control() && !merger.finished());
    assert_eq!(
        merger.user_polled::<u32, u32>(Polled::Disconnected),
        Some(Received::UserLaneClosed)
    );
    assert_eq!(merger.user_polled::<u32, u32>(Polled::Disconnected), None);
    assert!(!merger.awaits_user() && !merger.finished());
    assert_eq!(merger.control_polled::<u32, u32>(Polled::Disconnected), None);
    assert!(!merger.awaits_control() && merger.finished());
}

#[test]
fn reference_merger_takes_what_waiting_gave() {
    let mut merger = Merger::new(1);
    assert_eq!(merger.control_awaited::<u32, u32>(Some(3)), Some(Received::Control(3)));
    assert!(merger.aging_due());
    assert_eq!(merger.user_awaited::<u32, u32>(Some(4)), Some(Received::User(4)));
    assert!(!merger.aging_due());
    assert_eq!(merger.user_awaited::<u32, u32>(None), None);
    assert_eq!(merger.user_polled::<u32, u32>(Polled::Empty), Some(Received::UserLaneClosed));
    assert_eq!(merger.control_only_polled(Polled::Item(5u32)), Step::Ready(Some(5)));
    assert_eq!(merger.control_only_polled(Polled::<u32>::Empty), Step::Pending);
    assert!(!merger.aging_due());
    assert_eq!(merger.control_awaited::<u32, u32>(None), None);
    assert!(merger.finished());
}

#[test]
fn reference_answers_carry_the_item() {
    assert!(matches!(try_send_answer(Offered::<u32>::Accepted), Ok(())));
    assert!(matches!(try_send_answer(Offered::Full(1u32)), Err(TrySendError::Full(1))));
    assert!(matches!(try_send_answer(Offered::Disconnected(2u32)), Err(TrySendError::Closed(2))));
    assert!(matches!(send_answer(Ok::<(), u32>(())), Ok(())));
    assert!(matches!(send_answer(Err(3u32)), Err(UserClosed(3))));
    assert!(matches!(control_send_answer(Ok::<(), u32>(())), Ok(())));
    assert_eq!(control_send_answer(Err(4u32)).unwrap_err().0, 4);
    assert!(matches!(try_send_upgraded(None, 5u32), Err(TrySendError::Closed(5))));
    let drained = drain_answer(vec![1u32, 2], vec![3u32]);
    assert_eq!((drained.control, drained.user), (vec![1, 2], vec![3]));

    let (control, user, consumer) = open_channel::<u32, u32>(Config::new(1));
    user.try_send(10).unwrap();
    assert!(matches!(user.try_send(11), Err(TrySendError::Full(11))));
    drop(consumer);
    assert!(matches!(user.try_send(12), Err(TrySendError::Closed(12))));
    assert_eq!(control.send(13).unwrap_err().0, 13);
}

#[test]
fn reference_recv_and_recv_control_without_waiting() {
    let (control, user, mut consumer) = open_channel::<u32, u32>(Config::new(4));
    assert_eq!(consumer.recv(), Step::Pending);
    assert_eq!(consumer.recv_control(), Step::Pending);
    user.try_send(1).unwrap();
    control.send(2).unwrap();
    let more = control.clone();
    more.send(3).unwrap();
    assert_eq!(consumer.recv_control(), Step::Ready(Some(2)));
    assert_eq!(consumer.recv(), Step::Ready(Some(Received::Control(3))));
    assert_eq!(consumer.recv(), Step::Ready(Some(Received::User(1))));
    let other = user.clone();
    drop(user);
    assert_eq!(consumer.recv(), Step::Pending);
    drop(other);
    assert_eq!(consumer.recv(), Step::Ready(Some(Received::UserLaneClosed)));
    drop(control);
    drop(more);
    assert_eq!(consumer.recv_control(), Step::Ready(None));
    assert_eq!(consumer.recv(), Step::Ready(None));
    assert_eq!(consumer.recv_control(), Step::Ready(None));
}

#[test]
fn reference_upgraded_sender_sends_into_its_own_lane() {
    let (_control, user, mut consumer) = open_channel::<u32, u32>(Config::new(4));
    let (_other_control, _other_user, mut other) = open_channel::<u32, u32>(Config::new(4));
    let sender = user.anchor().clone().upgrade().expect("a sender is left");
    try_send_upgraded(Some(sender), 6).unwrap();
    assert_eq!(other.recv(), Step::Pending);
    assert_eq!(consumer.recv(), Step::Ready(Some(Received::User(6))));
}

#[test]
fn reference_waiting_send_starts_as_a_sender() {
    let (_control, user, mut consumer) = open_channel::<u32, u32>(Config::new(4));
    let anchor = user.anchor();
    let (sender, item) = send_upgraded(anchor.upgrade(), 7).expect("a sender is left");
    assert_eq!(item, 7);
    drop(user);
    assert_eq!(consumer.recv(), Step::Pending, "the sender keeps the lane open");
    sender.try_send(item).unwrap();
    drop(sender);
    assert_eq!(consumer.recv(), Step::Ready(Some(Received::User(7))));
    assert!(anchor.upgrade().is_none());
    assert!(matches!(send_upgraded(anchor.upgrade(), 8), Err(UserClosed(8))));
    assert_eq!(consumer.recv(), Step::Ready(Some(Received::UserLaneClosed)));
}

#[test]
fn reference_clones_share_their_lane() {
    let (control, user, mut consumer) = open_channel::<u32, u32>(Config::new(2));
    let (_other_control, _other_user, mut other) = open_channel::<u32, u32>(Config::new(2));
    control.clone().send(1).unwrap();
    user.clone().try_send(2).unwrap();
    user.anchor().clone().try_send(3).unwrap();
    assert!(matches!(user.clone().try_send(4), Err(TrySendError::Full(4))), "one limit for all");
    assert_eq!(other.recv(), Step::Pending);
    assert_eq!(consumer.recv(), Step::Ready(Some(Received::Control(1))));
    let drained = consumer.drain();
    assert_eq!((drained.control, drained.user), (vec![], vec![2, 3]));
}

#[test]
fn reference_control_lane_has_no_limit() {
    let (control, user, consumer) = open_channel::<u32, u32>(Config::new(1));
    for i in 0..1_000 {
        control.send(i).unwrap();
    }
    user.try_send(0).unwrap();
    let drained = consumer.drain();
    assert_eq!(drained.control, (0..1_000).collect::<Vec<_>>());
    assert_eq!(drained.user, vec![0]);
}

#[test]
fn reference_nothing_follows_the_marker_but_control_and_nothing_the_end() {
    let (control, user, mut consumer) = open_channel::<u32, u32>(Config::new(4));
    let anchor = user.anchor();
    user.try_send(1).unwrap();
    drop(user);
    assert_eq!(consumer.recv(), Step::Ready(Some(Received::User(1))));
    assert_eq!(consumer.recv(), Step::Ready(Some(Received::UserLaneClosed)));
    assert!(matches!(anchor.try_send(2), Err(TrySendError::Closed(2))));
    assert_eq!(consumer.recv(), Step::Pending);
    control.send(3).unwrap();
    assert_eq!(consumer.recv(), Step::Ready(Some(Received::Control(3))));
    drop(control);
    for _ in 0..3 {
        assert_eq!(consumer.recv(), Step::Ready(None));
        assert_eq!(consumer.recv_control(), Step::Ready(None));
    }
}

#[test]
fn reference_control_only_receive_leaves_the_user_lane_alone() {
    let (control, user, mut consumer) = open_channel::<u32, u32>(Config::new(2));
    user.try_send(1).unwrap();
    user.try_send(2).unwrap();
    control.send(3).unwrap();
    assert_eq!(consumer.recv_control(), Step::Ready(Some(3)));
    assert_eq!(consumer.recv_control(), Step::Pending);
    assert!(matches!(user.try_send(4), Err(TrySendError::Full(4))), "no room was made");
    drop(user);
    drop(control);
    assert_eq!(consumer.recv_control(), Step::Ready(None));
    let drained = consumer.drain();
    assert_eq!((drained.control, drained.user), (vec![], vec![1, 2]));
}
