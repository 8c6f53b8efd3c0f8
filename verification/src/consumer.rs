use crate::channel::{Channel, ChannelView, Step};
use crate::policy::{Pick, Policy, PolicyView};
use crate::senders::SendingView;
use crate::types::{Config, Drained, Received, UserClosed};
use crate::user_lane::UserLaneView;
use std::marker::PhantomData;
use vstd::prelude::*;

verus! {

/// The single consumer that merges the two lanes.
pub struct Consumer<C, U> {
    policy: Policy,
    registered: bool,
    /// The channel that the consumer belongs to.
    channel: Ghost<int>,
    lanes: PhantomData<(C, U)>,
}

/// What a [`Consumer`] remembers.
pub struct ConsumerView {
    pub policy: PolicyView,
    /// A receive is registered as waiting.
    pub registered: bool,
}

/// A consumer that has served nothing and waits for nothing.
pub open spec fn fresh_consumer(cfg: Config) -> ConsumerView {
    ConsumerView {
        policy: PolicyView { cap: cfg.cap(), streak: 0, reported: false },
        registered: false,
    }
}

impl<C, U> ChannelView<C, U> {
    /// What the consumer serves next.
    pub open spec fn pick(self, policy: PolicyView) -> Pick {
        policy.pick(
            self.control.poppable(),
            self.user.poppable(),
            self.control.senders == 0,
            self.user.senders == 0,
        )
    }

    /// What the consumer serves between its announcement and its sleep: control
    /// first, whatever the streak.
    pub open spec fn late_pick(self, policy: PolicyView) -> Pick {
        self.pick(PolicyView { cap: 0, ..policy })
    }

    /// What a receive that serves `pick` answers.
    pub open spec fn handed(self, pick: Pick) -> Step<Option<Received<C, U>>> {
        match pick {
            Pick::Control => Step::Ready(Some(Received::Control(self.control.entries[0]->0))),
            Pick::User => Step::Ready(Some(Received::User(self.user.entries[0]->0))),
            Pick::Marker => Step::Ready(Some(Received::UserLaneClosed)),
            Pick::End => Step::Ready(None),
            Pick::Nothing => Step::Pending,
        }
    }

    /// The channel once `pick` was served. The consumer looked at the control
    /// lane on the way, unless a user was forced through.
    pub open spec fn served(self, pick: Pick, forced: bool) -> ChannelView<C, U> {
        ChannelView {
            control: match pick {
                Pick::Control => self.control.after_pop(),
                _ => if forced && (pick is User || pick is Marker) {
                    self.control
                } else {
                    self.control.after_look()
                },
            },
            user: if pick is User {
                self.user.after_pop()
            } else {
                self.user
            },
            ..self
        }
    }

    /// The consumer registered and announced that it is about to sleep.
    pub open spec fn announced(self) -> ChannelView<C, U> {
        ChannelView { core: self.core.announced(), ..self }
    }

    /// One waiting producer is let go, if there is one.
    pub open spec fn waiter_released(self) -> ChannelView<C, U> {
        ChannelView {
            user: UserLaneView { send_notify: self.user.released(), ..self.user },
            ..self
        }
    }

    /// What a control-only receive answers.
    pub open spec fn control_handed(self) -> Step<Option<C>> {
        if self.control.poppable() {
            Step::Ready(Some(self.control.entries[0]->0))
        } else if self.control.senders == 0 {
            Step::Ready(None)
        } else {
            Step::Pending
        }
    }

    /// The channel once a control-only receive took what there was.
    pub open spec fn control_served(self) -> ChannelView<C, U> {
        ChannelView {
            control: if self.control.poppable() {
                self.control.after_pop()
            } else {
                self.control.after_look()
            },
            ..self
        }
    }
}

impl ConsumerView {
    /// The consumer sleeps: it waits and nobody has woken it.
    pub open spec fn sleeps<C, U>(self, ch: ChannelView<C, U>) -> bool {
        self.registered && !ch.core.notify.ready()
    }

    /// The channel once the consumer is awake.
    pub open spec fn roused<C, U>(self, ch: ChannelView<C, U>) -> ChannelView<C, U> {
        if self.registered {
            ChannelView { core: ch.core.resumed(), ..ch }
        } else {
            ch
        }
    }

    /// What a receive answers.
    pub open spec fn recv_answer<C, U>(self, ch: ChannelView<C, U>) -> Step<
        Option<Received<C, U>>,
    > {
        if self.sleeps(ch) {
            Step::Pending
        } else {
            ch.handed(ch.pick(self.policy))
        }
    }

    /// The channel after a receive. A receive that has to wait lets one waiting
    /// producer go before it sleeps.
    pub open spec fn channel_after_recv<C, U>(self, ch: ChannelView<C, U>) -> ChannelView<C, U> {
        if self.sleeps(ch) {
            ch
        } else {
            let served = self.roused(ch).served(ch.pick(self.policy), self.policy.due());
            if ch.pick(self.policy) is Nothing {
                served.announced().waiter_released()
            } else {
                served
            }
        }
    }

    /// The consumer after a receive.
    pub open spec fn after_recv<C, U>(self, ch: ChannelView<C, U>) -> ConsumerView {
        if self.sleeps(ch) {
            self
        } else {
            ConsumerView {
                policy: self.policy.after(ch.pick(self.policy)),
                registered: ch.pick(self.policy) is Nothing,
            }
        }
    }

    /// What a control-only receive answers.
    pub open spec fn recv_control_answer<C, U>(self, ch: ChannelView<C, U>) -> Step<Option<C>> {
        if self.sleeps(ch) {
            Step::Pending
        } else {
            ch.control_handed()
        }
    }

    /// The channel after a control-only receive. It never touches the user lane,
    /// not even to let a waiting producer go.
    pub open spec fn channel_after_recv_control<C, U>(self, ch: ChannelView<C, U>) -> ChannelView<
        C,
        U,
    > {
        if self.sleeps(ch) {
            ch
        } else {
            let served = self.roused(ch).control_served();
            if ch.control_handed() is Pending {
                served.announced()
            } else {
                served
            }
        }
    }

    /// The consumer after a control-only receive, which leaves the policy alone.
    pub open spec fn after_recv_control<C, U>(self, ch: ChannelView<C, U>) -> ConsumerView {
        if self.sleeps(ch) {
            self
        } else {
            ConsumerView { registered: ch.control_handed() is Pending, ..self }
        }
    }
}

impl<C, U> View for Consumer<C, U> {
    type V = ConsumerView;

    closed spec fn view(&self) -> ConsumerView {
        ConsumerView { policy: self.policy@, registered: self.registered }
    }
}

impl<C, U> Consumer<C, U> {
    /// The policy is sound.
    pub closed spec fn wf(&self) -> bool {
        self.policy.wf()
    }

    /// The channel that the consumer belongs to.
    pub closed spec fn of(&self) -> int {
        self.channel@
    }

    /// This is the consumer of channel `ch`, and nobody else waits at its wakeup
    /// point.
    pub open spec fn attends(&self, ch: ChannelView<C, U>) -> bool {
        &&& self.of() == ch.id
        &&& ch.core.notify.registered() == if self@.registered {
            1nat
        } else {
            0nat
        }
    }

    /// A consumer of channel `id` that has served nothing.
    pub(crate) fn new(aging_cap: usize, Ghost(id): Ghost<int>) -> (consumer: Self)
        ensures
            consumer.wf(),
            consumer.of() == id,
            consumer@ == (ConsumerView {
                policy: PolicyView { cap: aging_cap as nat, streak: 0, reported: false },
                registered: false,
            }),
    {
        Consumer {
            policy: Policy::new(aging_cap),
            registered: false,
            channel: Ghost(id),
            lanes: PhantomData,
        }
    }

    /// The streak of a consumer never exceeds its cap.
    pub proof fn law_streak_stays_within_the_cap(&self)
        requires
            self.wf(),
        ensures
            self@.policy.streak <= self@.policy.cap,
    {
        self.policy.law_streak_stays_within_the_cap();
    }

    /// Serve the user lane: its oldest item, or its end-marker.
    fn take_user_slot(&mut self, ch: &mut Channel<C, U>) -> (taken: Option<Received<C, U>>)
        requires
            old(self).wf(),
            old(ch).wf(),
            old(self).of() == old(ch)@.id,
        ensures
            final(self).wf(),
            final(self).of() == old(self).of(),
            final(ch).wf(),
            ({
                let slot = old(self)@.policy.user_slot(
                    old(ch)@.user.poppable(),
                    old(ch)@.user.senders == 0,
                );
                &&& taken == match slot {
                    Pick::User => Some(Received::<C, U>::User(old(ch)@.user.entries[0]->0)),
                    Pick::Marker => Some(Received::<C, U>::UserLaneClosed),
                    _ => None,
                }
                &&& final(self)@ == (ConsumerView {
                    policy: old(self)@.policy.after(slot),
                    ..old(self)@
                })
                &&& final(ch)@ == (ChannelView {
                    user: if slot is User {
                        old(ch)@.user.after_pop()
                    } else {
                        old(ch)@.user
                    },
                    ..old(ch)@
                })
            }),
    {
        match ch.user.pop() {
            Some(u) => {
                self.policy.note_user();
                Some(Received::User(u))
            },
            None => {
                if self.policy.marker_pending(ch.user.closed()) {
                    self.policy.note_marker();
                    Some(Received::UserLaneClosed)
                } else {
                    None
                }
            },
        }
    }

    /// Serve control first, then the user lane; `Ready(None)` once both lanes
    /// are closed and drained.
    fn take_in_order(&mut self, ch: &mut Channel<C, U>) -> (step: Step<Option<Received<C, U>>>)
        requires
            old(self).wf(),
            old(ch).wf(),
            old(self).of() == old(ch)@.id,
        ensures
            final(self).wf(),
            final(self).of() == old(self).of(),
            final(ch).wf(),
            step == old(ch)@.handed(old(ch)@.late_pick(old(self)@.policy)),
            final(ch)@ == old(ch)@.served(old(ch)@.late_pick(old(self)@.policy), false),
            final(self)@ == (ConsumerView {
                policy: old(self)@.policy.after(old(ch)@.late_pick(old(self)@.policy)),
                ..old(self)@
            }),
    {
        match ch.control.pop() {
            Some(c) => {
                self.policy.note_control();
                return Step::Ready(Some(Received::Control(c)));
            },
            None => {},
        }
        match self.take_user_slot(ch) {
            Some(taken) => {
                return Step::Ready(Some(taken));
            },
            None => {},
        }
        if ch.control.closed() && ch.user.closed() {
            Step::Ready(None)
        } else {
            Step::Pending
        }
    }

    /// Take what is there, in the order of the policy: control first, but a
    /// waiting user, or the end-marker of the user lane, once the streak
    /// reached the cap.
    pub fn attempt(&mut self, ch: &mut Channel<C, U>) -> (step: Step<Option<Received<C, U>>>)
        requires
            old(self).wf(),
            old(ch).wf(),
            old(self).of() == old(ch)@.id,
        ensures
            final(self).wf(),
            final(self).of() == old(self).of(),
            final(ch).wf(),
            step == old(ch)@.handed(old(ch)@.pick(old(self)@.policy)),
            final(ch)@ == old(ch)@.served(
                old(ch)@.pick(old(self)@.policy),
                old(self)@.policy.due(),
            ),
            final(self)@ == (ConsumerView {
                policy: old(self)@.policy.after(old(ch)@.pick(old(self)@.policy)),
                ..old(self)@
            }),
    {
        if self.policy.aging_due() {
            match self.take_user_slot(ch) {
                Some(taken) => {
                    return Step::Ready(Some(taken));
                },
                None => {},
            }
        }
        self.take_in_order(ch)
    }

    /// Register and announce that the consumer is about to sleep. From here on
    /// every producer with news notifies the consumer.
    pub fn announce(&mut self, ch: &mut Channel<C, U>)
        requires
            old(self).wf(),
            old(ch).wf(),
            old(self).attends(old(ch)@),
            !old(self)@.registered,
        ensures
            final(self).wf(),
            final(ch).wf(),
            final(self).attends(final(ch)@),
            final(self).of() == old(self).of(),
            final(ch)@ == old(ch)@.announced(),
            final(self)@ == (ConsumerView { registered: true, ..old(self)@ }),
    {
        ch.core.notify.enable();
        ch.core.parked = true;
        self.registered = true;
    }

    /// Take the registration and the announcement back.
    fn withdraw(&mut self, ch: &mut Channel<C, U>)
        requires
            old(self).wf(),
            old(ch).wf(),
            old(self).attends(old(ch)@),
            old(self)@.registered,
        ensures
            final(self).wf(),
            final(ch).wf(),
            final(self).attends(final(ch)@),
            final(self).of() == old(self).of(),
            final(ch)@ == (ChannelView { core: old(ch)@.core.withdrawn(), ..old(ch)@ }),
            final(self)@ == (ConsumerView { registered: false, ..old(self)@ }),
    {
        ch.core.notify.abandon();
        ch.core.parked = false;
        self.registered = false;
    }

    /// Look once more after the announcement, so that nothing sent before it is
    /// missed. If there is nothing, one waiting producer is let go and the
    /// consumer may sleep.
    pub fn recheck(&mut self, ch: &mut Channel<C, U>) -> (step: Step<Option<Received<C, U>>>)
        requires
            old(self).wf(),
            old(ch).wf(),
            old(self).attends(old(ch)@),
            old(self)@.registered,
        ensures
            final(self).wf(),
            final(ch).wf(),
            final(self).attends(final(ch)@),
            final(self).of() == old(self).of(),
            ({
                let pick = old(ch)@.late_pick(old(self)@.policy);
                &&& step == old(ch)@.handed(pick)
                &&& final(self)@ == (ConsumerView {
                    policy: old(self)@.policy.after(pick),
                    registered: pick is Nothing,
                })
                &&& final(ch)@ == if pick is Nothing {
                    old(ch)@.served(pick, false).waiter_released()
                } else {
                    ChannelView {
                        core: old(ch)@.core.withdrawn(),
                        ..old(ch)@.served(pick, false)
                    }
                }
            }),
    {
        let step: Step<Option<Received<C, U>>> = self.take_in_order(ch);
        match step {
            Step::Ready(_) => self.withdraw(ch),
            Step::Pending => ch.user.release_one_waiter(),
        }
        step
    }

    /// One attempt of a sleeping consumer to go on.
    pub fn resume(&mut self, ch: &mut Channel<C, U>) -> (awake: bool)
        requires
            old(self).wf(),
            old(ch).wf(),
            old(self).attends(old(ch)@),
        ensures
            final(self).wf(),
            final(ch).wf(),
            final(self).attends(final(ch)@),
            final(self).of() == old(self).of(),
            awake == !old(self)@.sleeps(old(ch)@),
            final(ch)@ == if awake {
                old(self)@.roused(old(ch)@)
            } else {
                old(ch)@
            },
            final(self)@ == (ConsumerView { registered: !awake, ..old(self)@ }),
    {
        if self.registered {
            if !ch.core.notify.pass() {
                return false;
            }
            ch.core.parked = false;
            self.registered = false;
        }
        true
    }

    /// Receive the next item, control first.
    ///
    /// `Ready(None)` comes only once both lanes are closed and drained, and
    /// after the end-marker of the user lane. `Pending` means that the consumer
    /// sleeps; no item has moved, and the receive is to be tried again once it
    /// was woken.
    pub fn recv(&mut self, ch: &mut Channel<C, U>) -> (step: Step<Option<Received<C, U>>>)
        requires
            old(self).wf(),
            old(ch).wf(),
            old(self).attends(old(ch)@),
        ensures
            final(self).wf(),
            final(ch).wf(),
            final(self).attends(final(ch)@),
            final(self).of() == old(self).of(),
            step == old(self)@.recv_answer(old(ch)@),
            final(ch)@ == old(self)@.channel_after_recv(old(ch)@),
            final(self)@ == old(self)@.after_recv(old(ch)@),
    {
        if !self.resume(ch) {
            return Step::Pending;
        }
        match self.attempt(ch) {
            Step::Ready(taken) => {
                return Step::Ready(taken);
            },
            Step::Pending => {},
        }
        self.announce(ch);
        self.recheck(ch)
    }

    /// Take the oldest control item; `Ready(None)` once the control lane is
    /// closed and drained.
    pub fn attempt_control(&mut self, ch: &mut Channel<C, U>) -> (step: Step<Option<C>>)
        requires
            old(self).wf(),
            old(ch).wf(),
            old(self).of() == old(ch)@.id,
        ensures
            final(ch).wf(),
            *final(self) == *old(self),
            step == old(ch)@.control_handed(),
            final(ch)@ == old(ch)@.control_served(),
    {
        match ch.control.pop() {
            Some(c) => Step::Ready(Some(c)),
            None => {
                if ch.control.closed() {
                    Step::Ready(None)
                } else {
                    Step::Pending
                }
            },
        }
    }

    /// Look once more for control after the announcement.
    pub fn recheck_control(&mut self, ch: &mut Channel<C, U>) -> (step: Step<Option<C>>)
        requires
            old(self).wf(),
            old(ch).wf(),
            old(self).attends(old(ch)@),
            old(self)@.registered,
        ensures
            final(self).wf(),
            final(ch).wf(),
            final(self).attends(final(ch)@),
            final(self).of() == old(self).of(),
            step == old(ch)@.control_handed(),
            final(ch)@ == if step is Pending {
                old(ch)@.control_served()
            } else {
                ChannelView { core: old(ch)@.core.withdrawn(), ..old(ch)@.control_served() }
            },
            final(self)@ == (ConsumerView { registered: step is Pending, ..old(self)@ }),
    {
        let step: Step<Option<C>> = self.attempt_control(ch);
        match step {
            Step::Ready(_) => self.withdraw(ch),
            Step::Pending => {},
        }
        step
    }

    /// Receive the next control item only. The user lane is not touched, and the
    /// streak is left alone.
    ///
    /// `Ready(None)` comes once the control lane is closed and drained.
    pub fn recv_control(&mut self, ch: &mut Channel<C, U>) -> (step: Step<Option<C>>)
        requires
            old(self).wf(),
            old(ch).wf(),
            old(self).attends(old(ch)@),
        ensures
            final(self).wf(),
            final(ch).wf(),
            final(self).attends(final(ch)@),
            final(self).of() == old(self).of(),
            step == old(self)@.recv_control_answer(old(ch)@),
            final(ch)@ == old(self)@.channel_after_recv_control(old(ch)@),
            final(self)@ == old(self)@.after_recv_control(old(ch)@),
    {
        if !self.resume(ch) {
            return Step::Pending;
        }
        match self.attempt_control(ch) {
            Step::Ready(taken) => {
                return Step::Ready(taken);
            },
            Step::Pending => {},
        }
        self.announce(ch);
        self.recheck_control(ch)
    }

    /// Give a receive up while it sleeps. A wakeup that it had been given is
    /// kept for the next receive.
    pub fn cancel(&mut self, ch: &mut Channel<C, U>)
        requires
            old(self).wf(),
            old(ch).wf(),
            old(self).attends(old(ch)@),
        ensures
            final(self).wf(),
            final(ch).wf(),
            final(self).attends(final(ch)@),
            final(self).of() == old(self).of(),
            final(ch)@ == if old(self)@.registered {
                ChannelView { core: old(ch)@.core.cancelled(), ..old(ch)@ }
            } else {
                old(ch)@
            },
            final(self)@ == (ConsumerView { registered: false, ..old(self)@ }),
    {
        if self.registered {
            ch.core.notify.abandon();
            self.registered = false;
        }
    }

    /// Mark the consumer as gone and let every waiting producer go; each then
    /// gets its item back. Doing it twice changes nothing.
    fn teardown(&self, ch: &mut Channel<C, U>)
        requires
            old(ch).wf(),
            self.of() == old(ch)@.id,
        ensures
            final(ch).wf(),
            final(ch)@ == old(ch)@.torn_down(),
    {
        if ch.core.consumer_gone {
            return;
        }
        ch.core.consumer_gone = true;
        ch.user.release_all_waiters();
        ch.core.notify.notify_one();
    }

    /// Give the consumer up. What is queued stays in the channel.
    pub fn drop(self, ch: &mut Channel<C, U>)
        requires
            old(ch).wf(),
            self.of() == old(ch)@.id,
        ensures
            final(ch).wf(),
            final(ch)@ == old(ch)@.torn_down(),
    {
        self.teardown(ch);
    }

    /// Give the consumer up and return everything that is queued on both lanes,
    /// in FIFO order.
    #[must_use]
    pub fn drain(self, ch: &mut Channel<C, U>) -> (drained: Drained<C, U>)
        requires
            old(ch).wf(),
            self.of() == old(ch)@.id,
        ensures
            final(ch).wf(),
            drained.control@ == crate::entries::ready_prefix(old(ch)@.control.entries),
            drained.user@ == crate::entries::ready_prefix(old(ch)@.user.entries),
            final(ch)@ == (ChannelView {
                control: old(ch)@.control.emptied(),
                user: UserLaneView {
                    entries: old(ch)@.user.entries.skip(drained.user@.len() as int),
                    popped: old(ch)@.user.popped + drained.user@.len(),
                    ..old(ch)@.torn_down().user
                },
                ..old(ch)@.torn_down()
            }),
    {
        self.teardown(ch);
        let control: Vec<C> = ch.control.take_ready();
        let user: Vec<U> = ch.user.take_ready();
        Drained { control, user }
    }
}

/// A control-only receive leaves the user lane, its waiting producers and the
/// streak exactly as they are.
pub proof fn law_recv_control_spares_the_user_lane<C, U>(
    ch: ChannelView<C, U>,
    consumer: ConsumerView,
)
    ensures
        consumer.channel_after_recv_control(ch).user == ch.user,
        consumer.after_recv_control(ch).policy == consumer.policy,
{
}

/// A receive that has to wait has moved nothing, so that giving it up loses
/// nothing; and a wakeup that arrived for it is there for the next receive.
pub proof fn law_waiting_receive_loses_nothing<C, U>(ch: ChannelView<C, U>, consumer: ConsumerView)
    requires
        consumer.recv_answer(ch) is Pending,
    ensures
        consumer.channel_after_recv(ch).control.entries == ch.control.entries,
        consumer.channel_after_recv(ch).user.entries == ch.user.entries,
        consumer.after_recv(ch).policy == consumer.policy,
        ch.core.notify.registered() > 0 && ch.core.notify.ready()
            ==> ch.core.cancelled().notify.ready(),
{
}

/// A producer that waits for room is let go by the very next user item that is
/// received: there is room for it, and a send that waits gets through at its next
/// step.
pub proof fn law_every_user_received_lets_a_producer_go<C, U>(
    ch: ChannelView<C, U>,
    consumer: ConsumerView,
    u: U,
    send: SendingView<U>,
)
    requires
        ch.user.consistent(),
        ch.user.waiting > 0,
        !ch.core.consumer_gone,
        consumer.recv_answer(ch) == Step::Ready(Some(Received::<C, U>::User(u))),
    ensures
        ({
            let after = consumer.channel_after_recv(ch);
            &&& after.user.send_notify == ch.user.send_notify.notified()
            &&& after.user.send_notify.ready()
            &&& !after.full()
            &&& send.answer(after) == Step::Ready(Ok::<(), UserClosed<U>>(()))
        }),
{
}

/// The end-marker never comes while a sender of the user lane is left, or an
/// item of it is ready.
pub proof fn law_no_marker_while_a_sender_is_left<C, U>(
    ch: ChannelView<C, U>,
    consumer: ConsumerView,
)
    requires
        ch.user.senders > 0 || ch.user.poppable(),
    ensures
        consumer.recv_answer(ch) != Step::Ready(Some(Received::<C, U>::UserLaneClosed)),
{
}

/// A control-only receive answers that it is over only when the control lane is
/// closed and no item of it is ready.
pub proof fn law_control_end_comes_last<C, U>(ch: ChannelView<C, U>, consumer: ConsumerView)
    ensures
        consumer.recv_control_answer(ch) == Step::Ready(None::<C>) ==> ch.control.senders == 0
            && !ch.control.poppable(),
{
}

/// A receive answers that it is all over only when both lanes are closed, no
/// item is ready and the end-marker of the user lane is out.
pub proof fn law_end_comes_last<C, U>(ch: ChannelView<C, U>, consumer: ConsumerView)
    ensures
        consumer.recv_answer(ch) == Step::Ready(None::<Received<C, U>>) ==> {
            &&& !ch.control.poppable() && !ch.user.poppable()
            &&& ch.control.senders == 0 && ch.user.senders == 0
            &&& consumer.policy.reported
        },
        ch.settled() && consumer.recv_answer(ch) == Step::Ready(None::<Received<C, U>>) ==> {
            &&& ch.controls().len() == 0
            &&& ch.users().len() == 0
        },
{
}

} // verus!
