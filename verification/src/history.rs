use crate::channel::{ChannelView, Step};
use crate::consumer::ConsumerView;
use crate::senders::{AnchorSendingView, SendingView};
use crate::types::{Config, Received};
use crate::user_lane::UserLaneView;
use vstd::prelude::*;

verus! {

/// One call on a channel or one of its handles.
pub enum Event<C, U> {
    /// `ControlSender::send`.
    SendControl(C),
    /// `UserSender::try_send`.
    TrySend(U),
    /// `Sending::poll`.
    PollSend(SendingView<U>),
    /// `Sending::cancel`.
    CancelSend(SendingView<U>),
    /// `UserAnchor::try_send`.
    AnchorTrySend(U),
    /// `AnchorSending::poll`.
    PollAnchorSend(AnchorSendingView<U>),
    /// `AnchorSending::cancel`.
    CancelAnchorSend(AnchorSendingView<U>),
    /// `UserAnchor::upgrade`.
    Upgrade,
    /// `ControlSender::clone`.
    CloneControl,
    /// `ControlSender::drop`.
    DropControl,
    /// `UserSender::clone`.
    CloneUser,
    /// `UserSender::drop`.
    DropUser,
    /// `Consumer::recv`.
    Recv,
    /// `Consumer::recv_control`.
    RecvControl,
    /// `Consumer::cancel`.
    CancelRecv,
    /// `Consumer::drop`.
    DropConsumer,
    /// `Consumer::drain`.
    Drain,
}

/// A channel together with everything that went in and came out so far.
pub struct History<C, U> {
    pub ch: ChannelView<C, U>,
    pub consumer: ConsumerView,
    /// Control items whose send answered `Ok`, in that order.
    pub sent_controls: Seq<C>,
    /// User items whose send answered `Ok`, in that order.
    pub sent_users: Seq<U>,
    /// Control items that the consumer handed out, in that order.
    pub got_controls: Seq<C>,
    /// User items that the consumer handed out, in that order.
    pub got_users: Seq<U>,
    /// How often the end-marker was handed out.
    pub markers: nat,
}

impl<C, U> History<C, U> {
    /// The history of a channel on which nothing was called yet.
    pub open spec fn start(ch: ChannelView<C, U>, consumer: ConsumerView) -> History<C, U> {
        History {
            ch,
            consumer,
            sent_controls: Seq::empty(),
            sent_users: Seq::empty(),
            got_controls: Seq::empty(),
            got_users: Seq::empty(),
            markers: 0,
        }
    }

    /// The call can be made: the handle that it needs exists.
    pub open spec fn possible(self, event: Event<C, U>) -> bool {
        match event {
            Event::SendControl(_) => self.ch.control.senders > 0,
            Event::TrySend(_) => self.ch.user.senders > 0,
            Event::PollSend(s) => {
                &&& self.ch.user.senders > 0
                &&& s.item is Some
                &&& s.registered ==> self.ch.user.waiting > 0
            },
            Event::CancelSend(s) => s.registered ==> self.ch.user.waiting > 0,
            Event::AnchorTrySend(_) => true,
            Event::PollAnchorSend(s) => {
                &&& s.holds_sender ==> self.ch.user.senders > 0
                &&& !s.holds_sender ==> !s.sending.registered
                &&& s.sending.item is Some
                &&& s.sending.registered ==> self.ch.user.waiting > 0
            },
            Event::CancelAnchorSend(s) => {
                &&& s.holds_sender ==> self.ch.user.senders > 0
                &&& s.sending.registered ==> self.ch.user.waiting > 0
            },
            Event::Upgrade => true,
            Event::CloneControl => self.ch.control.senders > 0,
            Event::DropControl => self.ch.control.senders > 0,
            Event::CloneUser => self.ch.user.senders > 0,
            Event::DropUser => self.ch.user.senders > 0,
            Event::Recv => !self.ch.core.consumer_gone,
            Event::RecvControl => !self.ch.core.consumer_gone,
            Event::CancelRecv => !self.ch.core.consumer_gone,
            Event::DropConsumer => !self.ch.core.consumer_gone,
            Event::Drain => !self.ch.core.consumer_gone,
        }
    }

    /// A user send was answered.
    pub open spec fn user_answered(
        self,
        item: U,
        ok: bool,
        ch: ChannelView<C, U>,
    ) -> History<C, U> {
        History {
            ch,
            sent_users: if ok {
                self.sent_users.push(item)
            } else {
                self.sent_users
            },
            ..self
        }
    }

    /// The history after one more call.
    pub open spec fn call(self, event: Event<C, U>) -> History<C, U> {
        match event {
            Event::SendControl(item) => if self.ch.core.consumer_gone {
                self
            } else {
                History {
                    ch: self.ch.control_sent(item),
                    sent_controls: self.sent_controls.push(item),
                    ..self
                }
            },
            Event::TrySend(item) => {
                let ok = self.ch.try_send_result(item) is Ok;
                self.user_answered(
                    item,
                    ok,
                    if ok {
                        self.ch.user_sent(item)
                    } else {
                        self.ch
                    },
                )
            },
            Event::PollSend(s) => self.user_answered(
                s.item->0,
                s.answer(self.ch) == Step::Ready(
                    Ok::<(), crate::types::UserClosed<U>>(()),
                ),
                s.channel_after(self.ch),
            ),
            Event::CancelSend(s) => History { ch: s.channel_after_cancel(self.ch), ..self },
            Event::AnchorTrySend(item) => if self.ch.user.senders == 0 {
                self
            } else {
                let ok = self.ch.try_send_result(item) is Ok;
                self.user_answered(
                    item,
                    ok,
                    if ok {
                        self.ch.user_sent(item).woken()
                    } else {
                        self.ch.woken()
                    },
                )
            },
            Event::PollAnchorSend(s) => self.user_answered(
                s.sending.item->0,
                s.answer(self.ch) == Step::Ready(
                    Ok::<(), crate::types::UserClosed<U>>(()),
                ),
                s.channel_after(self.ch),
            ),
            Event::CancelAnchorSend(s) => History { ch: s.channel_after_cancel(self.ch), ..self },
            Event::Upgrade => History {
                ch: if self.ch.user.senders > 0 {
                    self.ch.user_sender_added()
                } else {
                    self.ch
                },
                ..self
            },
            Event::CloneControl => History { ch: self.ch.control_sender_added(), ..self },
            Event::DropControl => History { ch: self.ch.control_sender_gone(), ..self },
            Event::CloneUser => History { ch: self.ch.user_sender_added(), ..self },
            Event::DropUser => History { ch: self.ch.user_sender_gone(), ..self },
            Event::Recv => {
                let after = History {
                    ch: self.consumer.channel_after_recv(self.ch),
                    consumer: self.consumer.after_recv(self.ch),
                    ..self
                };
                match self.consumer.recv_answer(self.ch) {
                    Step::Ready(Some(Received::Control(c))) => History {
                        got_controls: self.got_controls.push(c),
                        ..after
                    },
                    Step::Ready(Some(Received::User(u))) => History {
                        got_users: self.got_users.push(u),
                        ..after
                    },
                    Step::Ready(Some(Received::UserLaneClosed)) => History {
                        markers: self.markers + 1,
                        ..after
                    },
                    _ => after,
                }
            },
            Event::RecvControl => {
                let after = History {
                    ch: self.consumer.channel_after_recv_control(self.ch),
                    consumer: self.consumer.after_recv_control(self.ch),
                    ..self
                };
                match self.consumer.recv_control_answer(self.ch) {
                    Step::Ready(Some(c)) => History {
                        got_controls: self.got_controls.push(c),
                        ..after
                    },
                    _ => after,
                }
            },
            Event::CancelRecv => History {
                ch: if self.consumer.registered {
                    ChannelView { core: self.ch.core.cancelled(), ..self.ch }
                } else {
                    self.ch
                },
                consumer: ConsumerView { registered: false, ..self.consumer },
                ..self
            },
            Event::DropConsumer => History { ch: self.ch.torn_down(), ..self },
            Event::Drain => {
                let controls = crate::entries::ready_prefix(self.ch.control.entries);
                let users = crate::entries::ready_prefix(self.ch.user.entries);
                History {
                    ch: ChannelView {
                        control: self.ch.control.emptied(),
                        user: UserLaneView {
                            entries: self.ch.user.entries.skip(users.len() as int),
                            popped: self.ch.user.popped + users.len(),
                            ..self.ch.torn_down().user
                        },
                        ..self.ch.torn_down()
                    },
                    got_controls: self.got_controls + controls,
                    got_users: self.got_users + users,
                    ..self
                }
            },
        }
    }

    /// The history after a run of calls.
    pub open spec fn after(self, events: Seq<Event<C, U>>) -> History<C, U>
        decreases events.len(),
    {
        if events.len() == 0 {
            self
        } else {
            self.call(events[0]).after(events.drop_first())
        }
    }

    /// Every call of the run can be made when its turn comes.
    pub open spec fn all_possible(self, events: Seq<Event<C, U>>) -> bool
        decreases events.len(),
    {
        events.len() == 0 || (self.possible(events[0]) && self.call(events[0]).all_possible(
            events.drop_first(),
        ))
    }

    /// Whatever was sent was handed out or is still queued, once and in order,
    /// lane by lane, and the end-marker is the last the user lane ever gives.
    pub open spec fn accounted(self) -> bool {
        &&& self.ch.settled()
        &&& self.got_controls + self.ch.controls() == self.sent_controls
        &&& self.got_users + self.ch.users() == self.sent_users
        &&& self.markers == if self.consumer.policy.reported {
            1nat
        } else {
            0nat
        }
        &&& self.consumer.policy.reported ==> self.ch.user.senders == 0
            && self.ch.user.entries.len() == 0
    }
}

/// A send that was answered `Ok` put its item at the end of the queue.
proof fn lemma_accepted<T>(entries: Seq<Option<T>>, got: Seq<T>, sent: Seq<T>, item: T)
    requires
        crate::entries::settled(entries),
        got + crate::entries::values(entries) == sent,
    ensures
        crate::entries::settled(entries.push(Some(item))),
        got + crate::entries::values(entries.push(Some(item))) == sent.push(item),
{
    crate::entries::lemma_settled_push(entries, item);
    assert(got + crate::entries::values(entries).push(item) =~= sent.push(item));
}

/// An item that was handed out was the oldest of the queue.
proof fn lemma_handed<T>(entries: Seq<Option<T>>, got: Seq<T>, sent: Seq<T>)
    requires
        crate::entries::settled(entries),
        entries.len() > 0,
        got + crate::entries::values(entries) == sent,
    ensures
        crate::entries::settled(entries.drop_first()),
        got.push(entries[0]->0) + crate::entries::values(entries.drop_first()) == sent,
{
    crate::entries::lemma_settled_pop(entries);
    assert(got.push(entries[0]->0) + crate::entries::values(entries).drop_first() =~= got
        + crate::entries::values(entries));
}

/// One call keeps the account.
proof fn lemma_call_keeps_account<C, U>(h: History<C, U>, event: Event<C, U>)
    requires
        h.accounted(),
        h.possible(event),
    ensures
        h.call(event).accounted(),
{
    let next = h.call(event);
    let cs = h.ch.control.entries;
    let us = h.ch.user.entries;
    match event {
        Event::SendControl(item) => {
            lemma_accepted(cs, h.got_controls, h.sent_controls, item);
        },
        Event::TrySend(item) => {
            lemma_accepted(us, h.got_users, h.sent_users, item);
        },
        Event::PollSend(s) => {
            lemma_accepted(us, h.got_users, h.sent_users, s.item->0);
        },
        Event::AnchorTrySend(item) => {
            lemma_accepted(us, h.got_users, h.sent_users, item);
        },
        Event::PollAnchorSend(s) => {
            lemma_accepted(us, h.got_users, h.sent_users, s.sending.item->0);
        },
        Event::Recv => {
            if cs.len() > 0 {
                lemma_handed(cs, h.got_controls, h.sent_controls);
            }
            if us.len() > 0 {
                lemma_handed(us, h.got_users, h.sent_users);
            }
        },
        Event::RecvControl => {
            if cs.len() > 0 {
                lemma_handed(cs, h.got_controls, h.sent_controls);
            }
        },
        Event::Drain => {
            crate::entries::lemma_settled(cs);
            crate::entries::lemma_settled(us);
            crate::control_lane::lemma_emptied(h.ch.control);
            assert(next.ch.control.entries =~= Seq::<Option<C>>::empty());
            assert(next.ch.user.entries =~= Seq::<Option<U>>::empty());
            assert(next.got_controls + next.ch.controls() =~= h.sent_controls);
            assert(next.got_users + next.ch.users() =~= h.sent_users);
        },
        _ => {},
    }
}

/// Exactly once and in order: whatever is called on a channel and its handles,
/// in whatever order, the items handed out by each lane, followed by those that
/// are still queued there, are the items that were sent into it; and the
/// end-marker comes once at most, after the last user item.
pub proof fn law_delivery_is_exactly_once_in_order<C, U>(
    h: History<C, U>,
    events: Seq<Event<C, U>>,
)
    requires
        h.accounted(),
        h.all_possible(events),
    ensures
        h.after(events).accounted(),
    decreases events.len(),
{
    if events.len() > 0 {
        lemma_call_keeps_account(h, events[0]);
        law_delivery_is_exactly_once_in_order(h.call(events[0]), events.drop_first());
    }
}

/// The account of a new channel is in order.
pub proof fn law_new_channel_is_accounted<C, U>(cfg: Config, ch: ChannelView<C, U>)
    requires
        crate::channel::fresh_channel(cfg, ch),
    ensures
        History::start(ch, crate::consumer::fresh_consumer(cfg)).accounted(),
{
    assert(ch.controls() =~= Seq::<C>::empty());
    assert(ch.users() =~= Seq::<U>::empty());
}

/// A closed lane stays closed: once the last sender is gone, no call on any
/// handle that is left brings one back. Anchors in particular never do.
pub proof fn law_closed_lane_stays_closed<C, U>(h: History<C, U>, events: Seq<Event<C, U>>)
    requires
        h.all_possible(events),
    ensures
        h.ch.user.senders == 0 ==> h.after(events).ch.user.senders == 0,
        h.ch.control.senders == 0 ==> h.after(events).ch.control.senders == 0,
    decreases events.len(),
{
    if events.len() > 0 {
        if events[0] is Drain {
            crate::control_lane::lemma_emptied(h.ch.control);
        }
        law_closed_lane_stays_closed(h.call(events[0]), events.drop_first());
    }
}

/// After the end-marker no user item is ever handed out or accepted.
pub proof fn law_nothing_follows_the_marker<C, U>(h: History<C, U>, events: Seq<Event<C, U>>)
    requires
        h.accounted(),
        h.consumer.policy.reported,
        h.all_possible(events),
    ensures
        h.after(events).got_users == h.got_users,
        h.after(events).sent_users == h.sent_users,
        h.after(events).markers == h.markers,
    decreases events.len(),
{
    if events.len() > 0 {
        lemma_call_keeps_account(h, events[0]);
        if events[0] is Drain {
            crate::entries::lemma_settled(h.ch.user.entries);
            assert(h.call(events[0]).got_users =~= h.got_users);
        }
        law_nothing_follows_the_marker(h.call(events[0]), events.drop_first());
    }
}

/// Draining a channel in which every send is finished returns both backlogs,
/// oldest first.
pub proof fn law_drain_returns_both_backlogs<C, U>(h: History<C, U>)
    requires
        h.accounted(),
        h.possible(Event::Drain),
    ensures
        h.call(Event::Drain).got_controls == h.got_controls + h.ch.controls(),
        h.call(Event::Drain).got_users == h.got_users + h.ch.users(),
        h.call(Event::Drain).got_controls == h.sent_controls,
        h.call(Event::Drain).got_users == h.sent_users,
        h.call(Event::Drain).ch.control.entries.len() == 0,
        h.call(Event::Drain).ch.user.entries.len() == 0,
{
    crate::entries::lemma_settled(h.ch.control.entries);
    crate::entries::lemma_settled(h.ch.user.entries);
    crate::control_lane::lemma_emptied(h.ch.control);
}

/// Once the consumer is gone it stays gone, and no send is accepted any more.
pub proof fn law_teardown_is_final<C, U>(h: History<C, U>, events: Seq<Event<C, U>>)
    requires
        h.ch.core.consumer_gone,
        h.all_possible(events),
    ensures
        h.after(events).ch.core.consumer_gone,
        h.after(events).sent_controls == h.sent_controls,
        h.after(events).sent_users == h.sent_users,
    decreases events.len(),
{
    if events.len() > 0 {
        law_teardown_is_final(h.call(events[0]), events.drop_first());
    }
}

} // verus!
