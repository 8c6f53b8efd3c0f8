use crate::channel::{Channel, Step};
use crate::consumer::Consumer;
use crate::history::{Event, History};
use crate::senders::{AnchorSending, ControlSender, Sending, UserAnchor, UserSender};
use crate::types::{ControlClosed, Drained, Received, TrySendError, UserClosed};
use vstd::prelude::*;

verus! {

impl<C, U> History<C, U> {
    /// The call leaves the channel as the history says.
    pub open spec fn leads_to(self, event: Event<C, U>, ch: Channel<C, U>) -> bool {
        ch.wf() && ch@ == self.call(event).ch
    }

    /// The history counts the control item as sent exactly if the send said so.
    pub open spec fn counts_control(self, event: Event<C, U>, item: C, ok: bool) -> bool {
        self.call(event).sent_controls == if ok {
            self.sent_controls.push(item)
        } else {
            self.sent_controls
        }
    }

    /// The history counts the user item as sent exactly if the send said so.
    pub open spec fn counts_user(self, event: Event<C, U>, item: U, ok: bool) -> bool {
        self.call(event).sent_users == if ok {
            self.sent_users.push(item)
        } else {
            self.sent_users
        }
    }
}

/// `ControlSender::send` does what its event says.
pub proof fn law_control_send_is_told<C, U>(h: History<C, U>)
    ensures
        forall|
            sender: &ControlSender<C>,
            ch: &mut Channel<C, U>,
            item: C,
            sent: Result<(), ControlClosed<C>>,
        |
            ch@ == h.ch && #[trigger] call_ensures(
                ControlSender::<C>::send::<U>,
                (sender, ch, item),
                sent,
            ) ==> {
                &&& h.leads_to(Event::SendControl(item), *final(ch))
                &&& h.counts_control(Event::SendControl(item), item, sent is Ok)
                &&& sent matches Err(e) ==> e == ControlClosed(item)
            },
{
}

/// `UserSender::try_send` does what its event says.
pub proof fn law_try_send_is_told<C, U>(h: History<C, U>)
    ensures
        forall|
            sender: &UserSender<U>,
            ch: &mut Channel<C, U>,
            item: U,
            sent: Result<(), TrySendError<U>>,
        |
            ch@ == h.ch && #[trigger] call_ensures(
                UserSender::<U>::try_send::<C>,
                (sender, ch, item),
                sent,
            ) ==> {
                &&& h.leads_to(Event::TrySend(item), *final(ch))
                &&& h.counts_user(Event::TrySend(item), item, sent is Ok)
            },
{
}

/// `Sending::poll` does what its event says.
pub proof fn law_send_round_is_told<C, U>(h: History<C, U>)
    ensures
        forall|send: &mut Sending<U>, ch: &mut Channel<C, U>, step: Step<Result<(), UserClosed<U>>>|
            ch@ == h.ch && #[trigger] call_ensures(Sending::<U>::poll::<C>, (send, ch), step) ==> {
                &&& h.leads_to(Event::PollSend((*send)@), *final(ch))
                &&& h.counts_user(
                    Event::PollSend((*send)@),
                    (*send)@.item->0,
                    step == Step::Ready(Ok::<(), UserClosed<U>>(())),
                )
            },
{
}

/// `Sending::cancel` does what its event says, and returns the item.
pub proof fn law_cancelled_send_is_told<C, U>(h: History<C, U>)
    ensures
        forall|send: Sending<U>, ch: &mut Channel<C, U>, item: Option<U>|
            ch@ == h.ch && #[trigger] call_ensures(
                Sending::<U>::cancel::<C>,
                (send, ch),
                item,
            ) ==> {
                &&& h.leads_to(Event::CancelSend(send@), *final(ch))
                &&& item == send@.item
            },
{
}

/// `UserAnchor::try_send` does what its event says.
pub proof fn law_anchor_try_send_is_told<C, U>(h: History<C, U>)
    ensures
        forall|
            anchor: &UserAnchor<U>,
            ch: &mut Channel<C, U>,
            item: U,
            sent: Result<(), TrySendError<U>>,
        |
            ch@ == h.ch && #[trigger] call_ensures(
                UserAnchor::<U>::try_send::<C>,
                (anchor, ch, item),
                sent,
            ) ==> {
                &&& h.leads_to(Event::AnchorTrySend(item), *final(ch))
                &&& h.counts_user(Event::AnchorTrySend(item), item, sent is Ok)
            },
{
}

/// `AnchorSending::poll` does what its event says.
pub proof fn law_anchor_send_round_is_told<C, U>(h: History<C, U>)
    ensures
        forall|
            send: &mut AnchorSending<U>,
            ch: &mut Channel<C, U>,
            step: Step<Result<(), UserClosed<U>>>,
        |
            ch@ == h.ch && #[trigger] call_ensures(
                AnchorSending::<U>::poll::<C>,
                (send, ch),
                step,
            ) ==> {
                &&& h.leads_to(Event::PollAnchorSend((*send)@), *final(ch))
                &&& h.counts_user(
                    Event::PollAnchorSend((*send)@),
                    (*send)@.sending.item->0,
                    step == Step::Ready(Ok::<(), UserClosed<U>>(())),
                )
            },
{
}

/// `AnchorSending::cancel` does what its event says, and returns the item.
pub proof fn law_cancelled_anchor_send_is_told<C, U>(h: History<C, U>)
    ensures
        forall|send: AnchorSending<U>, ch: &mut Channel<C, U>, item: Option<U>|
            ch@ == h.ch && #[trigger] call_ensures(
                AnchorSending::<U>::cancel::<C>,
                (send, ch),
                item,
            ) ==> {
                &&& h.leads_to(Event::CancelAnchorSend(send@), *final(ch))
                &&& item == send@.sending.item
            },
{
}

/// `UserAnchor::upgrade` does what its event says.
pub proof fn law_upgrade_is_told<C, U>(h: History<C, U>)
    ensures
        forall|anchor: &UserAnchor<U>, ch: &mut Channel<C, U>, sender: Option<UserSender<U>>|
            ch@ == h.ch && #[trigger] call_ensures(
                UserAnchor::<U>::upgrade::<C>,
                (anchor, ch),
                sender,
            ) ==> {
                &&& h.leads_to(Event::Upgrade, *final(ch))
                &&& sender is Some == (h.ch.user.senders > 0)
            },
{
}

/// `ControlSender::clone` and `ControlSender::drop` do what their events say.
pub proof fn law_control_senders_are_told<C, U>(h: History<C, U>)
    ensures
        forall|sender: &ControlSender<C>, ch: &mut Channel<C, U>, other: ControlSender<C>|
            ch@ == h.ch && #[trigger] call_ensures(
                ControlSender::<C>::clone::<U>,
                (sender, ch),
                other,
            ) ==> h.leads_to(Event::CloneControl, *final(ch)),
        forall|sender: ControlSender<C>, ch: &mut Channel<C, U>|
            ch@ == h.ch && #[trigger] call_ensures(
                ControlSender::<C>::drop::<U>,
                (sender, ch),
                (),
            ) ==> h.leads_to(Event::DropControl, *final(ch)),
{
}

/// `UserSender::clone` and `UserSender::drop` do what their events say.
pub proof fn law_user_senders_are_told<C, U>(h: History<C, U>)
    ensures
        forall|sender: &UserSender<U>, ch: &mut Channel<C, U>, other: UserSender<U>|
            ch@ == h.ch && #[trigger] call_ensures(
                UserSender::<U>::clone::<C>,
                (sender, ch),
                other,
            ) ==> h.leads_to(Event::CloneUser, *final(ch)),
        forall|sender: UserSender<U>, ch: &mut Channel<C, U>|
            ch@ == h.ch && #[trigger] call_ensures(
                UserSender::<U>::drop::<C>,
                (sender, ch),
                (),
            ) ==> h.leads_to(Event::DropUser, *final(ch)),
{
}

/// `Consumer::recv` does what its event says, and hands out what the history counts
/// as handed out.
pub proof fn law_receive_is_told<C, U>(h: History<C, U>)
    ensures
        forall|me: &mut Consumer<C, U>, ch: &mut Channel<C, U>, step: Step<Option<Received<C, U>>>|
            ch@ == h.ch && (*me)@ == h.consumer && #[trigger] call_ensures(
                Consumer::<C, U>::recv,
                (me, ch),
                step,
            ) ==> {
                let after = h.call(Event::Recv);
                &&& h.leads_to(Event::Recv, *final(ch))
                &&& (*final(me))@ == after.consumer
                &&& after.got_controls == match step {
                    Step::Ready(Some(Received::Control(c))) => h.got_controls.push(c),
                    _ => h.got_controls,
                }
                &&& after.got_users == match step {
                    Step::Ready(Some(Received::User(u))) => h.got_users.push(u),
                    _ => h.got_users,
                }
                &&& after.markers == match step {
                    Step::Ready(Some(Received::UserLaneClosed)) => h.markers + 1,
                    _ => h.markers,
                }
            },
{
}

/// `Consumer::recv_control` does what its event says, and hands out what the
/// history counts as handed out.
pub proof fn law_control_receive_is_told<C, U>(h: History<C, U>)
    ensures
        forall|me: &mut Consumer<C, U>, ch: &mut Channel<C, U>, step: Step<Option<C>>|
            ch@ == h.ch && (*me)@ == h.consumer && #[trigger] call_ensures(
                Consumer::<C, U>::recv_control,
                (me, ch),
                step,
            ) ==> {
                let after = h.call(Event::RecvControl);
                &&& h.leads_to(Event::RecvControl, *final(ch))
                &&& (*final(me))@ == after.consumer
                &&& after.got_controls == match step {
                    Step::Ready(Some(c)) => h.got_controls.push(c),
                    _ => h.got_controls,
                }
                &&& after.got_users == h.got_users
                &&& after.markers == h.markers
            },
{
}

/// `Consumer::cancel` does what its event says.
pub proof fn law_cancelled_receive_is_told<C, U>(h: History<C, U>)
    ensures
        forall|me: &mut Consumer<C, U>, ch: &mut Channel<C, U>|
            ch@ == h.ch && (*me)@ == h.consumer && #[trigger] call_ensures(
                Consumer::<C, U>::cancel,
                (me, ch),
                (),
            ) ==> {
                &&& h.leads_to(Event::CancelRecv, *final(ch))
                &&& (*final(me))@ == h.call(Event::CancelRecv).consumer
            },
{
}

/// `Consumer::drop` and `Consumer::drain` do what their events say, and the backlog
/// that is returned counts as handed out.
pub proof fn law_end_of_the_consumer_is_told<C, U>(h: History<C, U>)
    ensures
        forall|me: Consumer<C, U>, ch: &mut Channel<C, U>|
            ch@ == h.ch && #[trigger] call_ensures(Consumer::<C, U>::drop, (me, ch), ())
                ==> h.leads_to(Event::DropConsumer, *final(ch)),
        forall|me: Consumer<C, U>, ch: &mut Channel<C, U>, drained: Drained<C, U>|
            ch@ == h.ch && #[trigger] call_ensures(
                Consumer::<C, U>::drain,
                (me, ch),
                drained,
            ) ==> {
                let after = h.call(Event::Drain);
                &&& h.leads_to(Event::Drain, *final(ch))
                &&& after.got_controls == h.got_controls + drained.control@
                &&& after.got_users == h.got_users + drained.user@
            },
{
}

} // verus!
