use crate::channel::{Channel, ChannelView, Step};
use crate::types::{ControlClosed, TrySendError, UserClosed};
use std::marker::PhantomData;
use vstd::prelude::*;

verus! {

/// Handle to the control lane. `send` never waits.
pub struct ControlSender<C> {
    lane: PhantomData<C>,
    channel: Ghost<int>,
}

impl<C> ControlSender<C> {
    /// The channel that the handle belongs to.
    pub closed spec fn of(&self) -> int {
        self.channel@
    }

    /// The handle that a new channel starts with.
    pub(crate) fn new(channel: Ghost<int>) -> (handle: Self)
        ensures
            handle.of() == channel@,
    {
        ControlSender { lane: PhantomData, channel }
    }

    /// One more handle to the same lane.
    pub fn clone<U>(&self, ch: &mut Channel<C, U>) -> (other: ControlSender<C>)
        requires
            old(ch).wf(),
            self.of() == old(ch)@.id,
            0 < old(ch)@.control.senders < usize::MAX,
        ensures
            final(ch).wf(),
            final(ch)@ == old(ch)@.control_sender_added(),
            other.of() == self.of(),
    {
        ch.control.add_sender();
        ControlSender { lane: PhantomData, channel: self.channel }
    }

    /// Give the handle up. The last one closes the lane.
    pub fn drop<U>(self, ch: &mut Channel<C, U>)
        requires
            old(ch).wf(),
            self.of() == old(ch)@.id,
            old(ch)@.control.senders > 0,
        ensures
            final(ch).wf(),
            final(ch)@ == old(ch)@.control_sender_gone(),
    {
        ch.core.wake_consumer();
        if ch.control.remove_sender() {
            ch.core.wake_consumer();
        }
    }

    /// Enqueue a control signal. Never waits (the lane is unbounded).
    ///
    /// Hands `item` back if the consumer is gone.
    pub fn send<U>(&self, ch: &mut Channel<C, U>, item: C) -> (sent: Result<(), ControlClosed<C>>)
        requires
            old(ch).wf(),
            self.of() == old(ch)@.id,
            old(ch)@.control.end() <= usize::MAX - crate::control_lane::CBLOCK,
        ensures
            final(ch).wf(),
            sent == if old(ch)@.core.consumer_gone {
                Err::<(), ControlClosed<C>>(ControlClosed(item))
            } else {
                Ok(())
            },
            final(ch)@ == if old(ch)@.core.consumer_gone {
                old(ch)@
            } else {
                old(ch)@.control_sent(item)
            },
    {
        if ch.core.consumer_gone {
            return Err(ControlClosed(item));
        }
        ch.control.push(item);
        ch.core.wake_consumer();
        Ok(())
    }
}

/// Handle to the bounded user lane.
pub struct UserSender<U> {
    lane: PhantomData<U>,
    channel: Ghost<int>,
}

impl<U> UserSender<U> {
    /// The channel that the handle belongs to.
    pub closed spec fn of(&self) -> int {
        self.channel@
    }

    /// The handle that a new channel starts with.
    pub(crate) fn new(channel: Ghost<int>) -> (handle: Self)
        ensures
            handle.of() == channel@,
    {
        UserSender { lane: PhantomData, channel }
    }

    /// One more handle to the same lane.
    pub fn clone<C>(&self, ch: &mut Channel<C, U>) -> (other: UserSender<U>)
        requires
            old(ch).wf(),
            self.of() == old(ch)@.id,
            0 < old(ch)@.user.senders < usize::MAX,
        ensures
            final(ch).wf(),
            final(ch)@ == old(ch)@.user_sender_added(),
            other.of() == self.of(),
    {
        ch.user.add_sender();
        UserSender { lane: PhantomData, channel: self.channel }
    }

    /// Give the handle up. The last one closes the lane.
    pub fn drop<C>(self, ch: &mut Channel<C, U>)
        requires
            old(ch).wf(),
            self.of() == old(ch)@.id,
            old(ch)@.user.senders > 0,
        ensures
            final(ch).wf(),
            final(ch)@ == old(ch)@.user_sender_gone(),
    {
        ch.core.wake_consumer();
        if ch.user.remove_sender() {
            ch.core.wake_consumer();
        }
    }

    /// Enqueue a user message without waiting.
    ///
    /// Hands `item` back as `Closed` if the consumer is gone and as `Full` if
    /// the lane is at capacity.
    pub fn try_send<C>(&self, ch: &mut Channel<C, U>, item: U) -> (sent: Result<
        (),
        TrySendError<U>,
    >)
        requires
            old(ch).wf(),
            self.of() == old(ch)@.id,
        ensures
            final(ch).wf(),
            sent == old(ch)@.try_send_result(item),
            final(ch)@ == if sent is Ok {
                old(ch)@.user_sent(item)
            } else {
                old(ch)@
            },
    {
        if ch.core.consumer_gone {
            return Err(TrySendError::Closed(item));
        }
        match ch.user.try_push(item) {
            Ok(()) => {
                ch.core.wake_consumer();
                Ok(())
            },
            Err(v) => Err(TrySendError::Full(v)),
        }
    }

    /// Enqueue a user message, waiting for room (backpressure). Nothing happens
    /// before the first `poll` of what is returned.
    pub fn send(&self, item: U) -> (sending: Sending<U>)
        ensures
            sending@ == (SendingView { item: Some(item), registered: false }),
            sending.of() == self.of(),
    {
        Sending { item: Some(item), registered: false, channel: self.channel }
    }

    /// A handle that does not keep the lane open: the lane closes with the last
    /// sender even while anchors are held.
    #[must_use]
    pub fn anchor(&self) -> (anchor: UserAnchor<U>)
        ensures
            anchor.of() == self.of(),
    {
        UserAnchor { lane: PhantomData, channel: self.channel }
    }
}

impl<C, U> ChannelView<C, U> {
    /// What a send that does not wait is answered.
    pub open spec fn try_send_result(self, item: U) -> Result<(), TrySendError<U>> {
        if self.core.consumer_gone {
            Err(TrySendError::Closed(item))
        } else if self.full() {
            Err(TrySendError::Full(item))
        } else {
            Ok(())
        }
    }
}

/// A user send on its way: it holds its item until the item is enqueued or
/// handed back.
pub struct Sending<U> {
    item: Option<U>,
    registered: bool,
    channel: Ghost<int>,
}

/// What a [`Sending`] holds.
pub struct SendingView<U> {
    /// The item, until the send is done.
    pub item: Option<U>,
    /// The send is registered as waiting for room.
    pub registered: bool,
}

impl<U> View for Sending<U> {
    type V = SendingView<U>;

    closed spec fn view(&self) -> SendingView<U> {
        SendingView { item: self.item, registered: self.registered }
    }
}

impl<U> SendingView<U> {
    /// The send sleeps: it waits for room and nobody has let it go.
    pub open spec fn sleeps<C>(self, ch: ChannelView<C, U>) -> bool {
        self.registered && !ch.user.send_notify.ready()
    }

    /// The channel once the send is awake.
    pub open spec fn roused<C>(self, ch: ChannelView<C, U>) -> ChannelView<C, U> {
        if self.registered {
            ChannelView { user: ch.user.after_pass(), ..ch }
        } else {
            ch
        }
    }

    /// What one step of the send answers.
    pub open spec fn answer<C>(self, ch: ChannelView<C, U>) -> Step<Result<(), UserClosed<U>>> {
        if self.sleeps(ch) {
            Step::Pending
        } else if ch.core.consumer_gone {
            Step::Ready(Err(UserClosed(self.item->0)))
        } else if ch.full() {
            Step::Pending
        } else {
            Step::Ready(Ok(()))
        }
    }

    /// The channel after one step of the send.
    pub open spec fn channel_after<C>(self, ch: ChannelView<C, U>) -> ChannelView<C, U> {
        let awake = self.roused(ch);
        if self.sleeps(ch) {
            ch
        } else if ch.core.consumer_gone {
            awake
        } else if ch.full() {
            ChannelView { user: awake.user.after_wait(), ..awake }
        } else {
            awake.user_sent(self.item->0)
        }
    }

    /// The channel once the send was given up.
    pub open spec fn channel_after_cancel<C>(self, ch: ChannelView<C, U>) -> ChannelView<C, U> {
        if self.registered {
            ChannelView { user: ch.user.after_giving_up(), ..ch }
        } else {
            ch
        }
    }

    /// The send after one step.
    pub open spec fn after<C>(self, ch: ChannelView<C, U>) -> SendingView<U> {
        if self.answer(ch) is Pending {
            SendingView { registered: true, ..self }
        } else {
            SendingView { item: None, registered: false }
        }
    }
}

impl<U> Sending<U> {
    /// The channel that the send belongs to.
    pub closed spec fn of(&self) -> int {
        self.channel@
    }

    /// Enqueue the item if there is room and tell the consumer.
    fn push<C>(&mut self, ch: &mut Channel<C, U>) -> (pushed: bool)
        requires
            old(ch).wf(),
            old(self).of() == old(ch)@.id,
            old(self)@.item is Some,
        ensures
            final(self).of() == old(self).of(),
            final(ch).wf(),
            pushed == !old(ch)@.full(),
            final(ch)@ == if pushed {
                old(ch)@.user_sent(old(self)@.item->0)
            } else {
                old(ch)@
            },
            final(self)@ == if pushed {
                SendingView { item: None, ..old(self)@ }
            } else {
                old(self)@
            },
    {
        proof {
            ch.user.law_lane_is_consistent();
        }
        match self.item.take() {
            Some(item) => match ch.user.try_push(item) {
                Ok(()) => {
                    ch.core.wake_consumer();
                    true
                },
                Err(v) => {
                    self.item = Some(v);
                    false
                },
            },
            None => false,
        }
    }

    /// Hand the item back.
    fn surrender(&mut self) -> (step: Step<Result<(), UserClosed<U>>>)
        requires
            old(self)@.item is Some,
        ensures
            final(self).of() == old(self).of(),
            step == Step::Ready(Err::<(), UserClosed<U>>(UserClosed(old(self)@.item->0))),
            final(self)@ == (SendingView { item: None, ..old(self)@ }),
    {
        match self.item.take() {
            Some(item) => Step::Ready(Err(UserClosed(item))),
            None => Step::Pending,
        }
    }

    /// Hand the item back if the consumer is gone, or else enqueue it if there
    /// is room.
    pub fn attempt<C>(&mut self, ch: &mut Channel<C, U>) -> (step: Step<
        Result<(), UserClosed<U>>,
    >)
        requires
            old(ch).wf(),
            old(self).of() == old(ch)@.id,
            old(self)@.item is Some,
        ensures
            final(self).of() == old(self).of(),
            final(ch).wf(),
            step == if old(ch)@.core.consumer_gone {
                Step::Ready(Err(UserClosed(old(self)@.item->0)))
            } else if old(ch)@.full() {
                Step::Pending
            } else {
                Step::Ready(Ok::<(), UserClosed<U>>(()))
            },
            final(ch)@ == if !old(ch)@.core.consumer_gone && !old(ch)@.full() {
                old(ch)@.user_sent(old(self)@.item->0)
            } else {
                old(ch)@
            },
            final(self)@ == if step is Pending {
                old(self)@
            } else {
                SendingView { item: None, ..old(self)@ }
            },
    {
        if ch.core.consumer_gone {
            return self.surrender();
        }
        if self.push(ch) {
            Step::Ready(Ok(()))
        } else {
            Step::Pending
        }
    }

    /// Register as waiting for room. From here on the consumer lets the producer
    /// go when it makes room, before it sleeps, and when it goes away.
    pub fn announce<C>(&mut self, ch: &mut Channel<C, U>)
        requires
            old(ch).wf(),
            old(self).of() == old(ch)@.id,
            !old(self)@.registered,
            old(ch)@.user.waiting < usize::MAX,
        ensures
            final(self).of() == old(self).of(),
            final(ch).wf(),
            final(ch)@ == (ChannelView { user: old(ch)@.user.after_wait(), ..old(ch)@ }),
            final(self)@ == (SendingView { registered: true, ..old(self)@ }),
    {
        ch.user.start_waiting();
        self.registered = true;
    }

    /// Try once more after the registration, so that room made before it is not
    /// missed. If there is none, and the consumer is still there, the producer
    /// may sleep.
    pub fn recheck<C>(&mut self, ch: &mut Channel<C, U>) -> (step: Step<
        Result<(), UserClosed<U>>,
    >)
        requires
            old(ch).wf(),
            old(self).of() == old(ch)@.id,
            old(self)@.item is Some,
            old(self)@.registered,
            old(ch)@.user.waiting > 0,
        ensures
            final(self).of() == old(self).of(),
            final(ch).wf(),
            step == if !old(ch)@.full() {
                Step::Ready(Ok(()))
            } else if old(ch)@.core.consumer_gone {
                Step::Ready(Err(UserClosed(old(self)@.item->0)))
            } else {
                Step::Pending
            },
            ({
                let left = ChannelView { user: old(ch)@.user.after_giving_up(), ..old(ch)@ };
                final(ch)@ == if !old(ch)@.full() {
                    left.user_sent(old(self)@.item->0)
                } else if old(ch)@.core.consumer_gone {
                    left
                } else {
                    old(ch)@
                }
            }),
            final(self)@ == if step is Pending {
                old(self)@
            } else {
                SendingView { item: None, registered: false }
            },
    {
        if self.push(ch) {
            ch.user.give_up_waiting();
            self.registered = false;
            return Step::Ready(Ok(()));
        }
        if ch.core.consumer_gone {
            ch.user.give_up_waiting();
            self.registered = false;
            return self.surrender();
        }
        Step::Pending
    }

    /// One attempt of a sleeping producer to go on.
    pub fn resume<C>(&mut self, ch: &mut Channel<C, U>) -> (awake: bool)
        requires
            old(ch).wf(),
            old(self).of() == old(ch)@.id,
            old(self)@.registered ==> old(ch)@.user.waiting > 0,
        ensures
            final(self).of() == old(self).of(),
            final(ch).wf(),
            awake == !old(self)@.sleeps(old(ch)@),
            final(ch)@ == if awake {
                old(self)@.roused(old(ch)@)
            } else {
                old(ch)@
            },
            final(self)@ == (SendingView { registered: !awake, ..old(self)@ }),
    {
        if self.registered {
            if !ch.user.pass_waiting() {
                return false;
            }
            self.registered = false;
        }
        true
    }

    /// One round of the send: enqueue the item if there is room, hand it back if
    /// the consumer is gone, or else wait.
    ///
    /// The send is done once this answers `Ready`; the item was then enqueued,
    /// with `Ok`, or comes back with the error.
    pub fn poll<C>(&mut self, ch: &mut Channel<C, U>) -> (step: Step<Result<(), UserClosed<U>>>)
        requires
            old(ch).wf(),
            old(self).of() == old(ch)@.id,
            old(self)@.item is Some,
            old(self)@.registered ==> old(ch)@.user.waiting > 0,
            !old(self)@.registered ==> old(ch)@.user.waiting < usize::MAX,
        ensures
            final(self).of() == old(self).of(),
            final(ch).wf(),
            step == old(self)@.answer(old(ch)@),
            final(ch)@ == old(self)@.channel_after(old(ch)@),
            final(self)@ == old(self)@.after(old(ch)@),
    {
        proof {
            ch.user.law_lane_is_consistent();
        }
        if !self.resume(ch) {
            return Step::Pending;
        }
        match self.attempt(ch) {
            Step::Ready(sent) => {
                return Step::Ready(sent);
            },
            Step::Pending => {},
        }
        self.announce(ch);
        self.recheck(ch)
    }

    /// Give the send up. The item, unless it was enqueued or handed back
    /// before, is returned.
    pub fn cancel<C>(self, ch: &mut Channel<C, U>) -> (item: Option<U>)
        requires
            old(ch).wf(),
            self.of() == old(ch)@.id,
            self@.registered ==> old(ch)@.user.waiting > 0,
        ensures
            final(ch).wf(),
            item == self@.item,
            final(ch)@ == self@.channel_after_cancel(old(ch)@),
    {
        if self.registered {
            ch.user.give_up_waiting();
        }
        self.item
    }
}

/// Handle to the user lane that does not keep it open. A delivery first turns
/// into a sender for as long as it takes, so that a delivery either comes
/// entirely before the end of the lane or fails, with its item, entirely after.
pub struct UserAnchor<U> {
    lane: PhantomData<U>,
    channel: Ghost<int>,
}

impl<U> UserAnchor<U> {
    /// The channel that the handle belongs to.
    pub closed spec fn of(&self) -> int {
        self.channel@
    }

    /// One more anchor to the same lane.
    pub fn clone(&self) -> (other: UserAnchor<U>)
        ensures
            other.of() == self.of(),
    {
        UserAnchor { lane: PhantomData, channel: self.channel }
    }

    /// A sender, if the lane is still open. A closed lane is never opened
    /// again.
    #[must_use]
    pub fn upgrade<C>(&self, ch: &mut Channel<C, U>) -> (sender: Option<UserSender<U>>)
        requires
            old(ch).wf(),
            self.of() == old(ch)@.id,
            old(ch)@.user.senders < usize::MAX,
        ensures
            final(ch).wf(),
            sender is Some == (old(ch)@.user.senders > 0),
            sender matches Some(s) ==> s.of() == self.of(),
            final(ch)@ == if old(ch)@.user.senders > 0 {
                old(ch)@.user_sender_added()
            } else {
                old(ch)@
            },
    {
        if ch.user.closed() {
            None
        } else {
            ch.user.add_sender();
            Some(UserSender { lane: PhantomData, channel: self.channel })
        }
    }

    /// Enqueue a user message without waiting, as a sender for as long as it
    /// takes.
    ///
    /// Hands `item` back as `Closed` if no sender is left or the consumer is
    /// gone and as `Full` if the lane is at capacity.
    pub fn try_send<C>(&self, ch: &mut Channel<C, U>, item: U) -> (sent: Result<
        (),
        TrySendError<U>,
    >)
        requires
            old(ch).wf(),
            self.of() == old(ch)@.id,
            old(ch)@.user.senders < usize::MAX,
        ensures
            final(ch).wf(),
            sent == if old(ch)@.user.senders == 0 {
                Err::<(), TrySendError<U>>(TrySendError::Closed(item))
            } else {
                old(ch)@.try_send_result(item)
            },
            final(ch)@ == if old(ch)@.user.senders == 0 {
                old(ch)@
            } else if sent is Ok {
                old(ch)@.user_sent(item).woken()
            } else {
                old(ch)@.woken()
            },
    {
        match self.upgrade(ch) {
            None => Err(TrySendError::Closed(item)),
            Some(sender) => {
                let sent: Result<(), TrySendError<U>> = sender.try_send(ch, item);
                sender.drop(ch);
                sent
            },
        }
    }

    /// Enqueue a user message, waiting for room, as a sender for as long as it
    /// takes. Nothing happens before the first `poll` of what is returned.
    pub fn send(&self, item: U) -> (sending: AnchorSending<U>)
        ensures
            sending@ == (AnchorSendingView {
                sending: SendingView { item: Some(item), registered: false },
                holds_sender: false,
            }),
            sending.is_of(self.of()),
    {
        AnchorSending {
            sending: Sending { item: Some(item), registered: false, channel: self.channel },
            sender: None,
            anchor: self.clone(),
        }
    }
}

/// A user send through an anchor on its way. From its first step until it is
/// done it counts as a sender.
pub struct AnchorSending<U> {
    sending: Sending<U>,
    sender: Option<UserSender<U>>,
    anchor: UserAnchor<U>,
}

/// What an [`AnchorSending`] holds.
pub struct AnchorSendingView<U> {
    pub sending: SendingView<U>,
    /// The send counts as a sender.
    pub holds_sender: bool,
}

impl<U> View for AnchorSending<U> {
    type V = AnchorSendingView<U>;

    closed spec fn view(&self) -> AnchorSendingView<U> {
        AnchorSendingView { sending: self.sending@, holds_sender: self.sender is Some }
    }
}

impl<U> AnchorSendingView<U> {
    /// The channel once the send counts as a sender.
    pub open spec fn joined<C>(self, ch: ChannelView<C, U>) -> ChannelView<C, U> {
        if self.holds_sender {
            ch
        } else {
            ch.user_sender_added()
        }
    }

    /// The send came too late: no sender is left that it could stand beside.
    pub open spec fn refused<C>(self, ch: ChannelView<C, U>) -> bool {
        !self.holds_sender && ch.user.senders == 0
    }

    /// What one step of the send answers.
    pub open spec fn answer<C>(self, ch: ChannelView<C, U>) -> Step<Result<(), UserClosed<U>>> {
        if self.refused(ch) {
            Step::Ready(Err(UserClosed(self.sending.item->0)))
        } else {
            self.sending.answer(self.joined(ch))
        }
    }

    /// The channel after one step of the send.
    pub open spec fn channel_after<C>(self, ch: ChannelView<C, U>) -> ChannelView<C, U> {
        if self.refused(ch) {
            ch
        } else {
            let stepped = self.sending.channel_after(self.joined(ch));
            if self.answer(ch) is Pending {
                stepped
            } else {
                stepped.user_sender_gone()
            }
        }
    }

    /// The channel once the send was given up.
    pub open spec fn channel_after_cancel<C>(self, ch: ChannelView<C, U>) -> ChannelView<C, U> {
        let left = self.sending.channel_after_cancel(ch);
        if self.holds_sender {
            left.user_sender_gone()
        } else {
            left
        }
    }
}

impl<U> AnchorSending<U> {
    /// The send, and the sender it counts as, belong to channel `channel`.
    pub closed spec fn is_of(&self, channel: int) -> bool {
        &&& self.sending.of() == channel
        &&& self.anchor.of() == channel
        &&& self.sender matches Some(sender) ==> sender.of() == channel
    }

    /// One step of the send: as [`Sending::poll`], and as a sender from the
    /// first step until the send is done.
    pub fn poll<C>(&mut self, ch: &mut Channel<C, U>) -> (step: Step<Result<(), UserClosed<U>>>)
        requires
            old(ch).wf(),
            old(self).is_of(old(ch)@.id),
            old(self)@.sending.item is Some,
            old(self)@.holds_sender ==> old(ch)@.user.senders > 0,
            !old(self)@.holds_sender ==> !old(self)@.sending.registered
                && old(ch)@.user.senders < usize::MAX,
            old(self)@.sending.registered ==> old(ch)@.user.waiting > 0,
            !old(self)@.sending.registered ==> old(ch)@.user.waiting < usize::MAX,
        ensures
            final(ch).wf(),
            final(self).is_of(final(ch)@.id),
            step == old(self)@.answer(old(ch)@),
            final(ch)@ == old(self)@.channel_after(old(ch)@),
            step is Pending ==> final(self)@ == (AnchorSendingView {
                sending: old(self)@.sending.after(old(self)@.joined(old(ch)@)),
                holds_sender: true,
            }),
            step is Ready ==> final(self)@ == (AnchorSendingView {
                sending: SendingView::<U> { item: None, registered: false },
                holds_sender: false,
            }),
    {
        if self.sender.is_none() {
            match self.anchor.upgrade(ch) {
                None => {
                    return match self.sending.item.take() {
                        Some(item) => Step::Ready(Err(UserClosed(item))),
                        None => Step::Pending,
                    };
                },
                Some(sender) => {
                    self.sender = Some(sender);
                },
            }
        }
        let step: Step<Result<(), UserClosed<U>>> = self.sending.poll(ch);
        match step {
            Step::Pending => {},
            Step::Ready(_) => match self.sender.take() {
                Some(sender) => sender.drop(ch),
                None => {},
            },
        }
        step
    }

    /// Give the send up: it stops waiting and stops counting as a sender. The
    /// item, unless it was enqueued or handed back before, is returned.
    pub fn cancel<C>(self, ch: &mut Channel<C, U>) -> (item: Option<U>)
        requires
            old(ch).wf(),
            self.is_of(old(ch)@.id),
            self@.holds_sender ==> old(ch)@.user.senders > 0,
            self@.sending.registered ==> old(ch)@.user.waiting > 0,
        ensures
            final(ch).wf(),
            item == self@.sending.item,
            final(ch)@ == self@.channel_after_cancel(old(ch)@),
    {
        let item: Option<U> = self.sending.cancel(ch);
        match self.sender {
            Some(sender) => sender.drop(ch),
            None => {},
        }
        item
    }
}

/// Teardown lets every waiting producer go: nobody who waits sleeps any more.
pub open spec fn everyone_let_go<C, U>(ch: ChannelView<C, U>) -> bool {
    ch.core.consumer_gone && ch.user.send_notify.enabled == 0
}

/// A producer that waits for room when the consumer goes away is let go and
/// gets exactly its own item back, and so does everybody who waits beside it,
/// whoever comes first.
pub proof fn law_teardown_returns_every_item<C, U>(ch: ChannelView<C, U>, s: SendingView<U>)
    requires
        ch.user.consistent(),
        s.item is Some,
        s.registered ==> ch.user.waiting > 0,
    ensures
        !ch.core.consumer_gone ==> everyone_let_go(ch.torn_down()),
        everyone_let_go(ch) ==> {
            &&& s.answer(ch) == Step::Ready(Err::<(), UserClosed<U>>(UserClosed(s.item->0)))
            &&& everyone_let_go(s.channel_after(ch))
            &&& s.channel_after(ch).user.consistent()
            &&& s.channel_after(ch).user.entries == ch.user.entries
        },
{
}

/// A send that is answered `Ok` is in the queue, last, and one that is answered
/// with an error, or has to wait, is not.
pub proof fn law_ok_means_enqueued<C, U>(ch: ChannelView<C, U>, s: SendingView<U>)
    requires
        s.item is Some,
    ensures
        s.answer(ch) matches Step::Ready(Ok(_)) ==> s.channel_after(ch).user.entries
            == ch.user.entries.push(s.item),
        !(s.answer(ch) matches Step::Ready(Ok(_))) ==> s.channel_after(ch).user.entries
            == ch.user.entries,
{
}

/// A producer that goes away while it waits leaves no trace in the queue, and
/// if somebody was about to be let go, somebody still is.
pub proof fn law_cancelled_send_leaves_no_trace<C, U>(ch: ChannelView<C, U>, s: SendingView<U>)
    requires
        ch.user.consistent(),
        s.registered ==> ch.user.waiting > 0,
    ensures
        s.channel_after_cancel(ch).user.entries == ch.user.entries,
        s.channel_after_cancel(ch).user.consistent(),
        ch.user.send_notify.ready() ==> s.channel_after_cancel(ch).user.send_notify.ready(),
{
}

/// A send through an anchor that waits keeps the lane open, so that the
/// end-marker cannot overtake it; once it is done, or given up, it no longer
/// counts.
pub proof fn law_anchor_send_counts_while_it_lasts<C, U>(
    ch: ChannelView<C, U>,
    s: AnchorSendingView<U>,
)
    requires
        s.holds_sender ==> ch.user.senders > 0,
        !s.holds_sender ==> !s.sending.registered,
    ensures
        ({
            let own = if s.holds_sender {
                1int
            } else {
                0int
            };
            let others = ch.user.senders - own;
            &&& s.answer(ch) is Pending ==> s.channel_after(ch).user.senders == others + 1
            &&& s.answer(ch) is Ready ==> s.channel_after(ch).user.senders == others
            &&& s.channel_after_cancel(ch).user.senders == others
        }),
{
}

/// Without a sender an anchor delivers nothing: the item comes back as closed,
/// and the channel stays as it is.
pub proof fn law_anchor_never_outlives_the_senders<C, U>(
    ch: ChannelView<C, U>,
    s: AnchorSendingView<U>,
)
    requires
        ch.user.senders == 0,
        !s.holds_sender,
        s.sending.item is Some,
    ensures
        s.answer(ch) == Step::Ready(Err::<(), UserClosed<U>>(UserClosed(s.sending.item->0))),
        s.channel_after(ch) == ch,
{
}

} // verus!
