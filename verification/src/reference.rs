use crate::channel::{ChannelView, Step};
use crate::consumer::ConsumerView;
use crate::flume_lane::{bounded, unbounded, LaneAnchor, LaneReceiver, LaneSender, Offered, Polled};
use crate::policy::{Pick, Policy, PolicyView};
use crate::types::{Config, ControlClosed, Drained, Received, TrySendError, UserClosed};
use vstd::prelude::*;

verus! {

/// What the consumer remembers from one item to the next: the policy, and which
/// lanes it has seen closed.
#[derive(Debug)]
pub struct Merger {
    policy: Policy,
    ctl_closed: bool,
    usr_closed: bool,
}

/// What a [`Merger`] remembers.
pub struct MergerView {
    pub policy: PolicyView,
    /// The control lane was seen closed and drained.
    pub ctl_closed: bool,
    /// The user lane was seen closed and drained.
    pub usr_closed: bool,
}

impl MergerView {
    /// The lane state after the user lane was asked for an item.
    pub open spec fn user_closed_after<U>(self, polled: Polled<U>) -> bool {
        self.usr_closed || polled is Disconnected
    }

    /// What comes of asking the user lane: its item, or its end-marker once the
    /// lane is closed and the marker is not out yet.
    pub open spec fn user_answer<C, U>(self, polled: Polled<U>) -> Option<Received<C, U>> {
        match polled {
            Polled::Item(u) => Some(Received::User(u)),
            _ => if self.user_closed_after(polled) && !self.policy.reported {
                Some(Received::UserLaneClosed)
            } else {
                None
            },
        }
    }

    /// The state after asking the user lane.
    pub open spec fn after_user<U>(self, polled: Polled<U>) -> MergerView {
        let closed = self.user_closed_after(polled);
        MergerView {
            policy: if polled is Item {
                self.policy.after_user()
            } else if closed && !self.policy.reported {
                self.policy.after_marker()
            } else {
                self.policy
            },
            usr_closed: closed,
            ..self
        }
    }

    /// What comes of asking the control lane.
    pub open spec fn control_answer<C, U>(self, polled: Polled<C>) -> Option<Received<C, U>> {
        match polled {
            Polled::Item(c) => Some(Received::Control(c)),
            _ => None,
        }
    }

    /// The state after asking the control lane.
    pub open spec fn after_control<C>(self, polled: Polled<C>) -> MergerView {
        MergerView {
            policy: if polled is Item {
                self.policy.after_control()
            } else {
                self.policy
            },
            ctl_closed: self.ctl_closed || polled is Disconnected,
            ..self
        }
    }

    /// What a control-only receive answers.
    pub open spec fn control_only_answer<C>(self, polled: Polled<C>) -> Step<Option<C>> {
        match polled {
            Polled::Item(c) => Step::Ready(Some(c)),
            Polled::Disconnected => Step::Ready(None),
            Polled::Empty => Step::Pending,
        }
    }

    /// The state after a control-only receive.
    pub open spec fn after_control_only<C>(self, polled: Polled<C>) -> MergerView {
        MergerView { ctl_closed: self.ctl_closed || polled is Disconnected, ..self }
    }

    /// The state once the user lane was asked out of turn, if it was.
    pub open spec fn after_aging<U>(self, aging: Polled<U>) -> MergerView {
        if self.policy.due() {
            self.after_user(aging)
        } else {
            self
        }
    }

    /// What a forced user gives, if one is due.
    pub open spec fn aging_answer<C, U>(self, aging: Polled<U>) -> Option<Received<C, U>> {
        if self.policy.due() {
            self.user_answer(aging)
        } else {
            None
        }
    }

    /// What one turn answers, given what the lanes answer it: the user lane out
    /// of turn if a user is due, then the control lane, then the user lane. A
    /// lane is asked only if nothing came before.
    pub open spec fn turn_answer<C, U>(
        self,
        aging: Polled<U>,
        control: Polled<C>,
        user: Polled<U>,
    ) -> Step<Option<Received<C, U>>> {
        let first = self.after_aging(aging);
        let second = first.after_control(control);
        let third = second.after_user(user);
        let forced: Option<Received<C, U>> = self.aging_answer(aging);
        let signal: Option<Received<C, U>> = first.control_answer(control);
        let item: Option<Received<C, U>> = second.user_answer(user);
        if forced is Some {
            Step::Ready(forced)
        } else if signal is Some {
            Step::Ready(signal)
        } else if item is Some {
            Step::Ready(item)
        } else if third.ctl_closed && third.usr_closed {
            Step::Ready(None)
        } else {
            Step::Pending
        }
    }

    /// The state after one turn.
    pub open spec fn after_turn<C, U>(
        self,
        aging: Polled<U>,
        control: Polled<C>,
        user: Polled<U>,
    ) -> MergerView {
        let first = self.after_aging(aging);
        let second = first.after_control(control);
        let forced: Option<Received<C, U>> = self.aging_answer(aging);
        if forced is Some {
            first
        } else if control is Item {
            second
        } else {
            second.after_user(user)
        }
    }

    /// What one turn asks of the control lane, with the answer.
    pub open spec fn controls_asked<C, U>(self, aging: Polled<U>, control: Polled<C>) -> Seq<
        Polled<C>,
    > {
        let forced: Option<Received<C, U>> = self.aging_answer(aging);
        if forced is Some {
            Seq::empty()
        } else {
            seq![control]
        }
    }

    /// What one turn asks of the user lane, with the answers.
    pub open spec fn users_asked<C, U>(
        self,
        aging: Polled<U>,
        control: Polled<C>,
        user: Polled<U>,
    ) -> Seq<Polled<U>> {
        let forced: Option<Received<C, U>> = self.aging_answer(aging);
        let early: Seq<Polled<U>> = if self.policy.due() {
            seq![aging]
        } else {
            Seq::empty()
        };
        if forced is Some || control is Item {
            early
        } else {
            early.push(user)
        }
    }
}

impl View for Merger {
    type V = MergerView;

    closed spec fn view(&self) -> MergerView {
        MergerView {
            policy: self.policy@,
            ctl_closed: self.ctl_closed,
            usr_closed: self.usr_closed,
        }
    }
}

impl Merger {
    /// The policy is sound.
    pub closed spec fn wf(&self) -> bool {
        self.policy.wf()
    }

    /// A fresh start: nothing served, no lane seen closed.
    pub fn new(aging_cap: usize) -> (merger: Self)
        ensures
            merger.wf(),
            merger@ == (MergerView {
                policy: PolicyView { cap: aging_cap as nat, streak: 0, reported: false },
                ctl_closed: false,
                usr_closed: false,
            }),
    {
        Merger { policy: Policy::new(aging_cap), ctl_closed: false, usr_closed: false }
    }

    /// A user is to be forced through, if one waits.
    pub fn aging_due(&self) -> (due: bool)
        ensures
            due == self@.policy.due(),
    {
        self.policy.aging_due()
    }

    /// Take the answer of the user lane: hand out its item, or its end-marker
    /// once the lane is closed. The marker takes a user's place and comes once.
    pub fn user_polled<C, U>(&mut self, polled: Polled<U>) -> (taken: Option<Received<C, U>>)
        requires
            old(self).wf(),
        ensures
            final(self).wf(),
            taken == old(self)@.user_answer::<C, U>(polled),
            final(self)@ == old(self)@.after_user(polled),
    {
        match polled {
            Polled::Item(u) => {
                self.policy.note_user();
                return Some(Received::User(u));
            },
            Polled::Disconnected => {
                self.usr_closed = true;
            },
            Polled::Empty => {},
        }
        if self.policy.marker_pending(self.usr_closed) {
            self.policy.note_marker();
            Some(Received::UserLaneClosed)
        } else {
            None
        }
    }

    /// Take the answer of the control lane.
    pub fn control_polled<C, U>(&mut self, polled: Polled<C>) -> (taken: Option<Received<C, U>>)
        requires
            old(self).wf(),
        ensures
            final(self).wf(),
            taken == old(self)@.control_answer::<C, U>(polled),
            final(self)@ == old(self)@.after_control(polled),
    {
        match polled {
            Polled::Item(c) => {
                self.policy.note_control();
                return Some(Received::Control(c));
            },
            Polled::Disconnected => {
                self.ctl_closed = true;
            },
            Polled::Empty => {},
        }
        None
    }

    /// Both lanes were seen closed and drained.
    pub fn finished(&self) -> (finished: bool)
        ensures
            finished == (self@.ctl_closed && self@.usr_closed),
    {
        self.ctl_closed && self.usr_closed
    }

    /// The control lane is worth waiting for.
    pub fn awaits_control(&self) -> (awaits: bool)
        ensures
            awaits == !self@.ctl_closed,
    {
        !self.ctl_closed
    }

    /// The user lane is worth waiting for.
    pub fn awaits_user(&self) -> (awaits: bool)
        ensures
            awaits == !self@.usr_closed,
    {
        !self.usr_closed
    }

    /// Take what waiting for the control lane gave: an item, or `None` for a
    /// lane that is closed and drained. Without an item the consumer takes
    /// another turn.
    pub fn control_awaited<C, U>(&mut self, arrived: Option<C>) -> (taken: Option<Received<C, U>>)
        requires
            old(self).wf(),
        ensures
            final(self).wf(),
            taken == match arrived {
                Some(c) => Some(Received::<C, U>::Control(c)),
                None => None,
            },
            final(self)@ == match arrived {
                Some(_) => MergerView {
                    policy: old(self)@.policy.after_control(),
                    ..old(self)@
                },
                None => MergerView { ctl_closed: true, ..old(self)@ },
            },
    {
        match arrived {
            Some(c) => {
                self.policy.note_control();
                Some(Received::Control(c))
            },
            None => {
                self.ctl_closed = true;
                None
            },
        }
    }

    /// Take what waiting for the user lane gave: an item, or `None` for a lane
    /// that is closed and drained. Without an item the consumer takes another
    /// turn, which hands out the end-marker.
    pub fn user_awaited<C, U>(&mut self, arrived: Option<U>) -> (taken: Option<Received<C, U>>)
        requires
            old(self).wf(),
        ensures
            final(self).wf(),
            taken == match arrived {
                Some(u) => Some(Received::<C, U>::User(u)),
                None => None,
            },
            final(self)@ == match arrived {
                Some(_) => MergerView { policy: old(self)@.policy.after_user(), ..old(self)@ },
                None => MergerView { usr_closed: true, ..old(self)@ },
            },
    {
        match arrived {
            Some(u) => {
                self.policy.note_user();
                Some(Received::User(u))
            },
            None => {
                self.usr_closed = true;
                None
            },
        }
    }

    /// Take the answer of the control lane for a control-only receive. The
    /// policy is left alone.
    pub fn control_only_polled<C>(&mut self, polled: Polled<C>) -> (step: Step<Option<C>>)
        requires
            old(self).wf(),
        ensures
            final(self).wf(),
            step == old(self)@.control_only_answer(polled),
            final(self)@ == old(self)@.after_control_only(polled),
    {
        match polled {
            Polled::Item(c) => Step::Ready(Some(c)),
            Polled::Disconnected => {
                self.ctl_closed = true;
                Step::Ready(None)
            },
            Polled::Empty => Step::Pending,
        }
    }
}

/// Handle to the control lane. `send` never waits.
#[verifier::reject_recursive_types(C)]
pub struct ControlSender<C> {
    tx: LaneSender<C>,
}

impl<C> Clone for ControlSender<C> {
    fn clone(&self) -> (other: Self)
        ensures
            other.lane() == self.lane(),
            other.limit() == self.limit(),
    {
        proof {
            use_type_invariant(self);
        }
        ControlSender { tx: self.tx.duplicate() }
    }
}

impl<C> ControlSender<C> {
    /// The control lane has no limit.
    #[verifier::type_invariant]
    spec fn is_unbounded(&self) -> bool {
        self.tx.limit() is None
    }

    /// The flume channel behind the control lane.
    pub closed spec fn lane(&self) -> int {
        self.tx.lane()
    }

    /// How many items the lane holds at most.
    pub closed spec fn limit(&self) -> Option<nat> {
        self.tx.limit()
    }

    /// `delivered` is what this handle's lane gives when it is sent `item`.
    pub closed spec fn lane_gives(&self, item: C, delivered: Result<(), C>) -> bool {
        self.tx.send_gives(item, delivered)
    }

    /// Enqueue a control signal. Never waits (the lane is unbounded).
    ///
    /// Hands `item` back if the consumer is gone, which is for the lane to say.
    pub fn send(&self, item: C) -> (sent: Result<(), ControlClosed<C>>)
        ensures
            sent matches Err(e) ==> e == ControlClosed(item),
            exists|delivered: Result<(), C>| #[trigger]
                self.lane_gives(item, delivered) && sent == control_sent(delivered),
    {
        proof {
            use_type_invariant(self);
        }
        let delivered: Result<(), C> = self.tx.send(item);
        assert(self.lane_gives(item, delivered));
        control_send_answer(delivered)
    }
}

/// What a control send is answered, given the item that came back, if it did.
pub open spec fn control_sent<C>(delivered: Result<(), C>) -> Result<(), ControlClosed<C>> {
    match delivered {
        Ok(()) => Ok(()),
        Err(back) => Err(ControlClosed(back)),
    }
}

/// What a control send is answered, given the item that came back, if it did.
pub fn control_send_answer<C>(delivered: Result<(), C>) -> (sent: Result<(), ControlClosed<C>>)
    ensures
        sent == control_sent(delivered),
{
    match delivered {
        Ok(()) => Ok(()),
        Err(back) => Err(ControlClosed(back)),
    }
}

/// What a user send that does not wait is answered, given what the lane said.
pub open spec fn user_sent<U>(offered: Offered<U>) -> Result<(), TrySendError<U>> {
    match offered {
        Offered::Accepted => Ok(()),
        Offered::Full(back) => Err(TrySendError::Full(back)),
        Offered::Disconnected(back) => Err(TrySendError::Closed(back)),
    }
}

/// What a user send that does not wait is answered, given what the lane said.
pub fn try_send_answer<U>(offered: Offered<U>) -> (sent: Result<(), TrySendError<U>>)
    ensures
        sent == user_sent(offered),
{
    match offered {
        Offered::Accepted => Ok(()),
        Offered::Full(back) => Err(TrySendError::Full(back)),
        Offered::Disconnected(back) => Err(TrySendError::Closed(back)),
    }
}

/// What a user send that waited is answered, given the item that came back, if
/// it did.
pub fn send_answer<U>(delivered: Result<(), U>) -> (sent: Result<(), UserClosed<U>>)
    ensures
        sent == match delivered {
            Ok(()) => Ok(()),
            Err(back) => Err(UserClosed(back)),
        },
{
    match delivered {
        Ok(()) => Ok(()),
        Err(back) => Err(UserClosed(back)),
    }
}

/// Handle to the bounded user lane.
#[verifier::reject_recursive_types(U)]
pub struct UserSender<U> {
    tx: LaneSender<U>,
}

impl<U> Clone for UserSender<U> {
    fn clone(&self) -> (other: Self)
        ensures
            other.lane() == self.lane(),
            other.limit() == self.limit(),
    {
        UserSender { tx: self.tx.duplicate() }
    }
}

impl<U> UserSender<U> {
    /// The sender behind the handle.
    pub closed spec fn sender(&self) -> LaneSender<U> {
        self.tx
    }

    /// The flume channel behind the user lane.
    pub open spec fn lane(&self) -> int {
        self.sender().lane()
    }

    /// How many items the lane holds at most.
    pub open spec fn limit(&self) -> Option<nat> {
        self.sender().limit()
    }

    /// The flume sender behind the handle, to wait for room with.
    pub fn tx(&self) -> (tx: &flume::Sender<U>)
        ensures
            *tx == self.sender().raw(),
    {
        self.tx.as_flume()
    }

    /// Enqueue a user message without waiting.
    ///
    /// Hands `item` back as `Full` if the lane is at capacity and as `Closed` if
    /// the consumer is gone, which is for the lane to say.
    pub fn try_send(&self, item: U) -> (sent: Result<(), TrySendError<U>>)
        ensures
            sent matches Err(e) ==> e == TrySendError::Full(item) || e == TrySendError::Closed(
                item,
            ),
            exists|offered: Offered<U>| #[trigger]
                self.sender().offer_gives(item, offered) && sent == user_sent(offered),
    {
        let offered: Offered<U> = self.tx.offer(item);
        assert(self.sender().offer_gives(item, offered));
        try_send_answer(offered)
    }

    /// A handle that does not keep the lane open: the lane closes with the last
    /// sender even while anchors are held.
    #[must_use]
    pub fn anchor(&self) -> (anchor: UserAnchor<U>)
        ensures
            anchor.lane() == self.lane(),
            anchor.limit() == self.limit(),
    {
        UserAnchor { tx: self.tx.downgrade() }
    }
}

/// Handle to the user lane that does not keep it open. A delivery first turns
/// into a sender for as long as it takes.
#[verifier::reject_recursive_types(U)]
pub struct UserAnchor<U> {
    tx: LaneAnchor<U>,
}

impl<U> Clone for UserAnchor<U> {
    fn clone(&self) -> (other: Self)
        ensures
            other.lane() == self.lane(),
            other.limit() == self.limit(),
    {
        UserAnchor { tx: self.tx.duplicate() }
    }
}

impl<U> UserAnchor<U> {
    /// The anchor behind the handle.
    pub closed spec fn anchor(&self) -> LaneAnchor<U> {
        self.tx
    }

    /// The flume channel behind the user lane.
    pub open spec fn lane(&self) -> int {
        self.anchor().lane()
    }

    /// How many items the lane holds at most.
    pub open spec fn limit(&self) -> Option<nat> {
        self.anchor().limit()
    }

    /// `sender` is what this anchor's lane gives when the anchor is upgraded.
    pub open spec fn lane_gives(&self, sender: Option<UserSender<U>>) -> bool {
        exists|got: Option<LaneSender<U>>| #[trigger]
            self.anchor().upgrade_gives(got) && match sender {
                Some(s) => got == Some(s.sender()),
                None => got is None,
            }
    }

    /// A sender of the anchor's own lane, if the lane is still open, which is for
    /// the lane to say. A closed lane is never opened again.
    #[must_use]
    pub fn upgrade(&self) -> (sender: Option<UserSender<U>>)
        ensures
            self.lane_gives(sender),
            sender matches Some(s) ==> s.lane() == self.lane() && s.limit() == self.limit(),
    {
        let got: Option<LaneSender<U>> = self.tx.upgrade();
        assert(self.anchor().upgrade_gives(got));
        match got {
            Some(tx) => Some(UserSender { tx }),
            None => None,
        }
    }

    /// Enqueue a user message without waiting, as a sender for as long as it
    /// takes.
    ///
    /// Hands `item` back as `Closed` if no sender is left or the consumer is
    /// gone and as `Full` if the lane is at capacity.
    pub fn try_send(&self, item: U) -> (sent: Result<(), TrySendError<U>>)
        ensures
            sent matches Err(e) ==> e == TrySendError::Full(item) || e == TrySendError::Closed(
                item,
            ),
            exists|upgraded: Option<UserSender<U>>| #[trigger]
                self.lane_gives(upgraded) && upgraded_gives(upgraded, item, sent),
    {
        let upgraded: Option<UserSender<U>> = self.upgrade();
        let ghost became = upgraded;
        let sent: Result<(), TrySendError<U>> = try_send_upgraded(upgraded, item);
        assert(self.lane_gives(became) && upgraded_gives(became, item, sent));
        sent
    }
}

/// `sent` is what sending `item` through the sender that an anchor turned into
/// gives: without one the lane is closed; with one it is for the lane to say.
pub open spec fn upgraded_gives<U>(
    upgraded: Option<UserSender<U>>,
    item: U,
    sent: Result<(), TrySendError<U>>,
) -> bool {
    match upgraded {
        Some(s) => exists|offered: Offered<U>| #[trigger]
            s.sender().offer_gives(item, offered) && sent == user_sent(offered),
        None => sent == Err::<(), TrySendError<U>>(TrySendError::Closed(item)),
    }
}

/// Enqueue a user message without waiting through the sender that an anchor
/// turned into. Without one the lane is closed, and `item` comes back so.
pub fn try_send_upgraded<U>(upgraded: Option<UserSender<U>>, item: U) -> (sent: Result<
    (),
    TrySendError<U>,
>)
    ensures
        upgraded_gives(upgraded, item, sent),
        sent matches Err(e) ==> e == TrySendError::Full(item) || e == TrySendError::Closed(item),
{
    match upgraded {
        Some(sender) => sender.try_send(item),
        None => Err(TrySendError::Closed(item)),
    }
}

/// The sender that an anchor turned into, to wait for room with, and the item.
/// Without a sender the lane is closed, and `item` comes back so.
pub fn send_upgraded<U>(upgraded: Option<UserSender<U>>, item: U) -> (start: Result<
    (UserSender<U>, U),
    UserClosed<U>,
>)
    ensures
        start == match upgraded {
            Some(s) => Ok::<(UserSender<U>, U), UserClosed<U>>((s, item)),
            None => Err(UserClosed(item)),
        },
{
    match upgraded {
        Some(sender) => Ok((sender, item)),
        None => Err(UserClosed(item)),
    }
}

/// The single consumer. Serves control ahead of user, with an aging safety net.
#[verifier::reject_recursive_types(C)]
#[verifier::reject_recursive_types(U)]
pub struct Consumer<C, U> {
    crx: LaneReceiver<C>,
    urx: LaneReceiver<U>,
    merger: Merger,
}

impl<C, U> Consumer<C, U> {
    /// The policy is sound.
    pub closed spec fn wf(&self) -> bool {
        self.merger.wf()
    }

    /// What the consumer remembers.
    pub closed spec fn state(&self) -> MergerView {
        self.merger@
    }

    /// The receiver of the control lane.
    pub closed spec fn control(&self) -> LaneReceiver<C> {
        self.crx
    }

    /// The receiver of the user lane.
    pub closed spec fn user(&self) -> LaneReceiver<U> {
        self.urx
    }

    /// The flume channel behind the control lane.
    pub open spec fn control_lane(&self) -> int {
        self.control().lane()
    }

    /// The flume channel behind the user lane.
    pub open spec fn user_lane(&self) -> int {
        self.user().lane()
    }

    /// Every lane that the consumer has seen closed was found so by asking it.
    pub open spec fn closures_were_asked(&self) -> bool {
        &&& self.state().ctl_closed ==> self.control().over()
        &&& self.state().usr_closed ==> self.user().over()
    }

    /// The consumer reads from the same two lanes as `before`.
    pub open spec fn same_lanes(&self, before: &Consumer<C, U>) -> bool {
        &&& self.control().lane() == before.control().lane()
        &&& self.control().raw() == before.control().raw()
        &&& self.user().lane() == before.user().lane()
        &&& self.user().raw() == before.user().raw()
    }

    /// One turn of a receive: control first, then a user or the end-marker of
    /// the user lane, but a user or the marker first once the streak reached the
    /// cap.
    ///
    /// The lanes are asked in that order, each of them only if nothing came
    /// before. `Ready(None)` comes only once both lanes are closed and drained.
    /// `Pending` means that both lanes are empty: the consumer waits for one of
    /// them and then takes what arrived, or another turn.
    pub fn recv(&mut self) -> (step: Step<Option<Received<C, U>>>)
        requires
            old(self).wf(),
        ensures
            final(self).wf(),
            final(self).same_lanes(old(self)),
            exists|aging: Polled<U>, control: Polled<C>, user: Polled<U>|
                {
                    &&& step == old(self).state().turn_answer(aging, control, user)
                    &&& #[trigger] old(self).state().after_turn(aging, control, user)
                        == final(self).state()
                    &&& final(self).control().answers() == old(self).control().answers() + old(
                        self,
                    ).state().controls_asked(aging, control)
                    &&& final(self).user().answers() == old(self).user().answers() + old(
                        self,
                    ).state().users_asked(aging, control, user)
                    &&& old(self).control().over() ==> control is Disconnected
                    &&& old(self).user().over() ==> aging is Disconnected
                    &&& aging is Disconnected ==> user is Disconnected
                },
    {
        let ghost before = *self;
        let ghost unasked_control = if self.control().over() {
            Polled::<C>::Disconnected
        } else {
            Polled::Empty
        };
        let ghost mut aging = if self.user().over() {
            Polled::<U>::Disconnected
        } else {
            Polled::Empty
        };
        if self.merger.aging_due() {
            let polled: Polled<U> = self.urx.poll();
            proof {
                aging = polled;
            }
            match self.merger.user_polled(polled) {
                Some(taken) => {
                    proof {
                        let control = unasked_control;
                        let user = aging;
                        assert(before.state().after_turn(aging, control, user) == self.state());
                        assert(self.control().answers() =~= before.control().answers()
                            + before.state().controls_asked(aging, control));
                        assert(self.user().answers() =~= before.user().answers()
                            + before.state().users_asked(aging, control, user));
                    }
                    return Step::Ready(Some(taken));
                },
                None => {
                    proof {
                        if aging is Disconnected {
                            assert(self.user().answers().last() == Polled::<U>::Disconnected);
                            assert(self.user().over());
                        }
                    }
                },
            }
        }
        let polled: Polled<C> = self.crx.poll();
        let ghost control = polled;
        match self.merger.control_polled(polled) {
            Some(taken) => {
                proof {
                    let user = aging;
                    assert(before.state().after_turn(aging, control, user) == self.state());
                    assert(self.control().answers() =~= before.control().answers()
                        + before.state().controls_asked(aging, control));
                    assert(self.user().answers() =~= before.user().answers()
                        + before.state().users_asked(aging, control, user));
                }
                return Step::Ready(Some(taken));
            },
            None => {},
        }
        let polled: Polled<U> = self.urx.poll();
        let ghost user = polled;
        let taken: Option<Received<C, U>> = self.merger.user_polled(polled);
        proof {
            assert(before.state().after_turn(aging, control, user) == self.state());
            assert(self.control().answers() =~= before.control().answers()
                + before.state().controls_asked(aging, control));
            assert(self.user().answers() =~= before.user().answers() + before.state().users_asked(
                aging,
                control,
                user,
            ));
        }
        match taken {
            Some(taken) => Step::Ready(Some(taken)),
            None => {
                if self.merger.finished() {
                    Step::Ready(None)
                } else {
                    Step::Pending
                }
            },
        }
    }

    /// The receiver of the control lane, to wait for an item with.
    pub fn control_rx(&self) -> (rx: &flume::Receiver<C>)
        ensures
            *rx == self.control().raw(),
    {
        self.crx.as_flume()
    }

    /// The receiver of the user lane, to wait for an item with.
    pub fn user_rx(&self) -> (rx: &flume::Receiver<U>)
        ensures
            *rx == self.user().raw(),
    {
        self.urx.as_flume()
    }

    /// What the consumer remembers, to be asked what to wait for.
    pub fn merger(&self) -> (merger: &Merger)
        ensures
            merger@ == self.state(),
            self.wf() ==> merger.wf(),
    {
        &self.merger
    }

    /// Take what waiting for the control lane gave; see
    /// [`Merger::control_awaited`].
    pub fn control_awaited(&mut self, arrived: Option<C>) -> (taken: Option<Received<C, U>>)
        requires
            old(self).wf(),
        ensures
            final(self).wf(),
            final(self).control() == old(self).control(),
            final(self).user() == old(self).user(),
            taken == match arrived {
                Some(c) => Some(Received::<C, U>::Control(c)),
                None => None,
            },
            final(self).state() == match arrived {
                Some(_) => MergerView {
                    policy: old(self).state().policy.after_control(),
                    ..old(self).state()
                },
                None => MergerView { ctl_closed: true, ..old(self).state() },
            },
    {
        self.merger.control_awaited(arrived)
    }

    /// Take what waiting for the user lane gave; see [`Merger::user_awaited`].
    pub fn user_awaited(&mut self, arrived: Option<U>) -> (taken: Option<Received<C, U>>)
        requires
            old(self).wf(),
        ensures
            final(self).wf(),
            final(self).control() == old(self).control(),
            final(self).user() == old(self).user(),
            taken == match arrived {
                Some(u) => Some(Received::<C, U>::User(u)),
                None => None,
            },
            final(self).state() == match arrived {
                Some(_) => MergerView {
                    policy: old(self).state().policy.after_user(),
                    ..old(self).state()
                },
                None => MergerView { usr_closed: true, ..old(self).state() },
            },
    {
        self.merger.user_awaited(arrived)
    }

    /// Receive the next control item only, never touching the user lane or the
    /// streak.
    ///
    /// `Ready(None)` comes once the control lane is closed and drained, and at
    /// once if it was seen so before. `Pending` means that the lane is empty: the
    /// consumer waits for it and hands what it gets to
    /// [`Consumer::control_only_awaited`].
    pub fn recv_control(&mut self) -> (step: Step<Option<C>>)
        requires
            old(self).wf(),
        ensures
            final(self).wf(),
            final(self).same_lanes(old(self)),
            final(self).user() == old(self).user(),
            old(self).state().ctl_closed ==> {
                &&& step == Step::Ready(None::<C>)
                &&& final(self).state() == old(self).state()
                &&& final(self).control() == old(self).control()
            },
            !old(self).state().ctl_closed ==> exists|polled: Polled<C>|
                {
                    &&& step == old(self).state().control_only_answer(polled)
                    &&& #[trigger] old(self).state().after_control_only(polled)
                        == final(self).state()
                    &&& final(self).control().answers() == old(self).control().answers().push(
                        polled,
                    )
                    &&& old(self).control().over() ==> polled is Disconnected
                },
    {
        if !self.merger.awaits_control() {
            return Step::Ready(None);
        }
        let polled: Polled<C> = self.crx.poll();
        let ghost asked = polled;
        let step: Step<Option<C>> = self.merger.control_only_polled(polled);
        assert(old(self).state().after_control_only(asked) == self.state());
        step
    }

    /// Take what waiting gave a control-only receive: an item, or `None` for a
    /// lane that is closed and drained.
    pub fn control_only_awaited(&mut self, arrived: Option<C>) -> (taken: Option<C>)
        requires
            old(self).wf(),
        ensures
            final(self).wf(),
            final(self).control() == old(self).control(),
            final(self).user() == old(self).user(),
            taken == arrived,
            final(self).state() == (MergerView {
                ctl_closed: old(self).state().ctl_closed || arrived is None,
                ..old(self).state()
            }),
    {
        match arrived {
            Some(c) => Some(c),
            None => {
                self.merger.ctl_closed = true;
                None
            },
        }
    }

    /// Give the consumer up and return everything that is queued on both lanes,
    /// in FIFO order. What is queued is for the lanes to say.
    ///
    /// Of the sends that wait for room at this moment, flume completes as many as
    /// fit into the emptied lane as sent, though nobody will receive them; the
    /// others get their item back.
    #[must_use]
    pub fn drain(self) -> (drained: Drained<C, U>)
        ensures
            self.control().drain_gives(drained.control),
            self.user().drain_gives(drained.user),
    {
        let (control, control_rx) = self.crx.drain();
        let (user, user_rx) = self.urx.drain();
        // Neither lane is disconnected before both are drained.
        let _receivers = (control_rx, user_rx);
        drain_answer(control, user)
    }
}

/// What a drain answers, given what was queued on each lane.
pub fn drain_answer<C, U>(control: Vec<C>, user: Vec<U>) -> (drained: Drained<C, U>)
    ensures
        drained.control == control,
        drained.user == user,
{
    Drained { control, user }
}

/// Build a two-lane priority channel: an unbounded control lane and a bounded
/// user lane feeding one [`Consumer`].
#[must_use]
pub fn channel<C, U>(cfg: Config) -> (made: (ControlSender<C>, UserSender<U>, Consumer<C, U>))
    ensures
        made.0.lane() == made.2.control_lane(),
        made.0.limit() is None,
        made.1.lane() == made.2.user_lane(),
        made.1.limit() == Some(cfg.capacity()),
        made.2.wf(),
        made.2.state() == (MergerView {
            policy: PolicyView { cap: cfg.cap(), streak: 0, reported: false },
            ctl_closed: false,
            usr_closed: false,
        }),
        made.2.control().answers() == Seq::<Polled<C>>::empty(),
        made.2.user().answers() == Seq::<Polled<U>>::empty(),
{
    let (ctx, crx) = unbounded::<C>();
    let (utx, urx) = bounded::<U>(cfg.user_capacity());
    (
        ControlSender { tx: ctx },
        UserSender { tx: utx },
        Consumer { crx, urx, merger: Merger::new(cfg.aging_cap()) },
    )
}

/// One turn serves what the policy picks, as long as the lanes do not change
/// while it asks them.
pub proof fn law_turn_follows_the_policy<C, U>(
    m: MergerView,
    control: Polled<C>,
    user: Polled<U>,
)
    requires
        m.ctl_closed ==> control is Disconnected,
        m.usr_closed ==> user is Disconnected,
    ensures
        ({
            let pick = m.policy.pick(
                control is Item,
                user is Item,
                control is Disconnected,
                user is Disconnected,
            );
            let answer = m.turn_answer(user, control, user);
            &&& m.after_turn(user, control, user).policy == m.policy.after(pick)
            &&& answer == match pick {
                Pick::Control => Step::Ready(Some(Received::<C, U>::Control(control->Item_0))),
                Pick::User => Step::Ready(Some(Received::<C, U>::User(user->Item_0))),
                Pick::Marker => Step::Ready(Some(Received::<C, U>::UserLaneClosed)),
                Pick::End => Step::Ready(None),
                Pick::Nothing => Step::Pending,
            }
        }),
{
}

/// What a lane of the ring would answer if it were asked for an item.
pub open spec fn polled_entries<T>(entries: Seq<Option<T>>, senders: nat) -> Polled<T> {
    if entries.len() > 0 && entries[0] is Some {
        Polled::Item(entries[0]->0)
    } else if senders == 0 {
        Polled::Disconnected
    } else {
        Polled::Empty
    }
}

/// The two channels serve alike: over lanes that answer as those of a ring
/// channel do, one turn hands out what the consumer of the ring hands out, and
/// leaves the policy where that one leaves it.
pub proof fn law_both_channels_serve_alike<C, U>(m: MergerView, ch: ChannelView<C, U>)
    requires
        m.ctl_closed ==> ch.control.senders == 0 && !ch.control.poppable(),
        m.usr_closed ==> ch.user.senders == 0 && !ch.user.poppable(),
    ensures
        ({
            let control = polled_entries(ch.control.entries, ch.control.senders);
            let user = polled_entries(ch.user.entries, ch.user.senders);
            let consumer = ConsumerView { policy: m.policy, registered: false };
            &&& m.turn_answer(user, control, user) == consumer.recv_answer(ch)
            &&& m.after_turn(user, control, user).policy == consumer.after_recv(ch).policy
        }),
{
}

} // verus!
