use crate::channel::{Channel, ChannelView, Step};
use crate::mailbox::MailboxOwner;
use crate::senders::{AnchorSending, ControlSender, Sending, UserAnchor, UserSender};
use crate::types::{ControlClosed, TrySendError, UserClosed};
use crate::user_lane::UserLaneView;
use vstd::prelude::*;

verus! {

/// The control lanes hold the same items, claims and senders.
pub open spec fn same_control<C, U>(before: ChannelView<C, U>, after: ChannelView<C, U>) -> bool {
    after.control == before.control
}

/// The user lanes agree in everything but what is queued, who counts as a sender
/// and who waits.
pub open spec fn same_ring<C, U>(before: ChannelView<C, U>, after: ChannelView<C, U>) -> bool {
    &&& after.user.capacity == before.user.capacity
    &&& after.user.popped == before.user.popped
}

/// A control send is refused exactly if the consumer is gone, with its own item and
/// without a trace; else the item is last in the control lane, whatever else is
/// queued or waits there, and nothing but the consumer's wakeup point changes
/// beside it.
pub proof fn law_control_send_fails_only_without_a_consumer<C, U>()
    ensures
        forall|
            sender: &ControlSender<C>,
            ch: &mut Channel<C, U>,
            item: C,
            sent: Result<(), ControlClosed<C>>,
        | #[trigger]
            call_ensures(ControlSender::<C>::send::<U>, (sender, ch, item), sent) ==> {
                let before = (*ch)@;
                let after = (*final(ch))@;
                let position = (before.control.storage.taken + before.control.entries.len()) as int;
                let block = position / crate::control_lane::CBLOCK as int;
                &&& sent is Err <==> before.core.consumer_gone
                &&& sent is Err ==> sent->Err_0.0 == item && after == before
                &&& sent is Ok ==> {
                    &&& after.control.entries.len() == before.control.entries.len() + 1
                    &&& after.control.entries.last() == Some(item)
                    &&& after.control.entries.drop_last() == before.control.entries
                    &&& after.control.senders == before.control.senders
                    &&& after.control.walking == before.control.walking
                    &&& after.control.storage.taken == before.control.storage.taken
                    &&& after.control.storage.first == before.control.storage.first
                    &&& after.control.storage.cursor == before.control.storage.cursor
                    &&& after.control.storage.last >= before.control.storage.last
                    &&& block <= after.control.storage.last
                    &&& after.control.storage.last == before.control.storage.last
                        || after.control.storage.last == block
                    &&& after.user == before.user
                    &&& after.id == before.id
                    &&& crate::wakeup_laws::told(before.core, after.core, 1)
                }
            },
{
    assert forall|
        sender: &ControlSender<C>,
        ch: &mut Channel<C, U>,
        item: C,
        sent: Result<(), ControlClosed<C>>,
    | #[trigger]
        call_ensures(ControlSender::<C>::send::<U>, (sender, ch, item), sent)
            && sent is Ok implies (*final(ch))@.control.entries.drop_last()
        == (*ch)@.control.entries by {
        assert((*final(ch))@.control.entries.drop_last() =~= (*ch)@.control.entries);
    }
}

/// The user item was enqueued between the two: it is last in the user lane, which
/// had room for it, and no other item moved.
pub open spec fn enqueued<U>(before: UserLaneView<U>, after: UserLaneView<U>, item: U) -> bool {
    &&& before.entries.len() < before.capacity
    &&& after.entries.len() == before.entries.len() + 1
    &&& after.entries.last() == Some(item)
    &&& after.entries.drop_last() == before.entries
}

/// A send that does not wait is answered `Closed` exactly if the consumer is gone,
/// and with the consumer there `Ok` exactly if the lane holds less than its
/// capacity and `Full` exactly if it does not, whatever the wakeup points, the
/// control lane and the other senders do. A refused item comes back and leaves no
/// trace.
pub proof fn law_try_send_is_refused_only_by_a_full_lane_or_a_lost_consumer<C, U>()
    ensures
        forall|
            sender: &UserSender<U>,
            ch: &mut Channel<C, U>,
            item: U,
            sent: Result<(), TrySendError<U>>,
        |
            (*ch)@.user.entries.len() <= (*ch)@.user.capacity && #[trigger] call_ensures(
                UserSender::<U>::try_send::<C>,
                (sender, ch, item),
                sent,
            ) ==> {
                let before = (*ch)@;
                let after = (*final(ch))@;
                let gone = before.core.consumer_gone;
                let room = before.user.entries.len() < before.user.capacity;
                &&& sent is Ok <==> !gone && room
                &&& gone <==> sent == Err::<(), TrySendError<U>>(TrySendError::Closed(item))
                &&& !gone && !room <==> sent == Err::<(), TrySendError<U>>(
                    TrySendError::Full(item),
                )
                &&& sent is Err ==> after == before
                &&& sent is Ok ==> {
                    &&& enqueued(before.user, after.user, item)
                    &&& after.user == (UserLaneView {
                        entries: after.user.entries,
                        ..before.user
                    })
                    &&& same_control(before, after)
                    &&& after.id == before.id
                    &&& crate::wakeup_laws::told(before.core, after.core, 1)
                }
            },
{
    assert forall|
        sender: &UserSender<U>,
        ch: &mut Channel<C, U>,
        item: U,
        sent: Result<(), TrySendError<U>>,
    | #[trigger]
        call_ensures(UserSender::<U>::try_send::<C>, (sender, ch, item), sent)
            && sent is Ok implies (*final(ch))@.user.entries.drop_last()
        == (*ch)@.user.entries by {
        assert((*final(ch))@.user.entries.drop_last() =~= (*ch)@.user.entries);
    }
}

/// A send that waits starts out with its item and without a registration, on the
/// channel of its sender; and so does one through an anchor.
pub proof fn law_waiting_send_starts_with_its_item<U>()
    ensures
        forall|sender: &UserSender<U>, item: U, send: Sending<U>| #[trigger]
            call_ensures(UserSender::<U>::send, (sender, item), send) ==> {
                &&& send@.item == Some(item)
                &&& !send@.registered
                &&& send.of() == sender.of()
            },
        forall|anchor: &UserAnchor<U>, item: U, send: AnchorSending<U>| #[trigger]
            call_ensures(UserAnchor::<U>::send, (anchor, item), send) ==> {
                &&& send@.sending.item == Some(item)
                &&& !send@.sending.registered
                &&& !send@.holds_sender
                &&& send.is_of(anchor.of())
            },
        forall|sender: &UserSender<U>, anchor: UserAnchor<U>| #[trigger]
            call_ensures(UserSender::<U>::anchor, (sender,), anchor) ==> anchor.of()
                == sender.of(),
        forall|anchor: &UserAnchor<U>, other: UserAnchor<U>| #[trigger]
            call_ensures(UserAnchor::<U>::clone, (anchor,), other) ==> other.of() == anchor.of(),
{
}

/// What one attempt to enqueue does, without regard to registrations: it fails
/// exactly if the consumer is gone, waits exactly if the lane is full, and else
/// enqueues.
pub open spec fn send_decides<C, U>(
    before: ChannelView<C, U>,
    item: U,
    step: Step<Result<(), UserClosed<U>>>,
) -> bool {
    let room = before.user.entries.len() < before.user.capacity;
    &&& before.core.consumer_gone <==> step == Step::Ready(
        Err::<(), UserClosed<U>>(UserClosed(item)),
    )
    &&& !before.core.consumer_gone && room <==> step == Step::Ready(Ok::<(), UserClosed<U>>(()))
    &&& !before.core.consumer_gone && !room <==> step is Pending
}

/// The first try of a waiting send: it fails exactly if the consumer is gone, and
/// goes through exactly if the consumer is there and the lane has room, whatever
/// the control lane holds and whoever waits.
pub proof fn law_attempt_goes_through_whenever_there_is_room<C, U>()
    ensures
        forall|send: &mut Sending<U>, ch: &mut Channel<C, U>, step: Step<Result<(), UserClosed<U>>>|
            (*send)@.item is Some && (*ch)@.user.entries.len() <= (*ch)@.user.capacity
                && #[trigger] call_ensures(Sending::<U>::attempt::<C>, (send, ch), step) ==> {
                let before = (*ch)@;
                let after = (*final(ch))@;
                let item = (*send)@.item->0;
                &&& send_decides(before, item, step)
                &&& step is Ready <==> (*final(send))@.item is None
                &&& step is Pending ==> (*final(send))@.item == Some(item)
                &&& (*final(send))@.registered == (*send)@.registered
                &&& (*final(send)).of() == (*send).of()
                &&& step == Step::Ready(Ok::<(), UserClosed<U>>(())) ==> {
                    &&& enqueued(before.user, after.user, item)
                    &&& after.user == (UserLaneView {
                        entries: after.user.entries,
                        ..before.user
                    })
                    &&& same_control(before, after)
                    &&& after.id == before.id
                    &&& crate::wakeup_laws::told(before.core, after.core, 1)
                }
                &&& step != Step::Ready(Ok::<(), UserClosed<U>>(())) ==> after == before
            },
{
    assert forall|
        send: &mut Sending<U>,
        ch: &mut Channel<C, U>,
        step: Step<Result<(), UserClosed<U>>>,
    | #[trigger]
        call_ensures(Sending::<U>::attempt::<C>, (send, ch), step) && step == Step::Ready(
            Ok::<(), UserClosed<U>>(()),
        ) implies (*final(ch))@.user.entries.drop_last() == (*ch)@.user.entries by {
        assert((*final(ch))@.user.entries.drop_last() =~= (*ch)@.user.entries);
    }
}

/// Registering to wait adds one waiting producer and changes nothing else, and a
/// sleeping send goes on exactly if it was let go.
pub proof fn law_registering_and_going_on_touch_the_waiters_alone<C, U>()
    ensures
        forall|send: &mut Sending<U>, ch: &mut Channel<C, U>| #[trigger]
            call_ensures(Sending::<U>::announce::<C>, (send, ch), ()) ==> {
                let before = (*ch)@;
                let after = (*final(ch))@;
                &&& (*final(send))@.registered
                &&& (*final(send))@.item == (*send)@.item
                &&& (*final(send)).of() == (*send).of()
                &&& after.control == before.control
                &&& after.core == before.core
                &&& after.id == before.id
                &&& after.user == (UserLaneView {
                    waiting: before.user.waiting + 1,
                    send_notify: after.user.send_notify,
                    ..before.user
                })
                &&& after.user.send_notify.enabled == before.user.send_notify.enabled + 1
                &&& after.user.send_notify.woken == before.user.send_notify.woken
                &&& after.user.send_notify.permit == before.user.send_notify.permit
            },
        forall|send: &mut Sending<U>, ch: &mut Channel<C, U>, awake: bool|
            (*ch)@.user.waiting == (*ch)@.user.send_notify.enabled
                + (*ch)@.user.send_notify.woken && ((*send)@.registered ==> (*ch)@.user.waiting
                > 0) && #[trigger] call_ensures(Sending::<U>::resume::<C>, (send, ch), awake)
                ==> {
                let before = (*ch)@;
                let after = (*final(ch))@;
                &&& awake <==> !(*send)@.registered || crate::wakeup_laws::passable(
                    before.user.send_notify,
                )
                &&& (*final(send))@.item == (*send)@.item
                &&& (*final(send))@.registered == !awake
                &&& (*final(send)).of() == (*send).of()
                &&& !awake || !(*send)@.registered ==> after == before
                &&& awake && (*send)@.registered ==> {
                    &&& after.control == before.control
                    &&& after.core == before.core
                    &&& after.id == before.id
                    &&& after.user == (UserLaneView {
                        waiting: (before.user.waiting - 1) as nat,
                        send_notify: after.user.send_notify,
                        ..before.user
                    })
                    &&& crate::wakeup_laws::let_through(
                        before.user.send_notify,
                        after.user.send_notify,
                    )
                }
            },
{
}

/// The second try of a registered send: room lets it through even if the consumer
/// is gone by then; without room it fails exactly if the consumer is gone, and else
/// keeps its registration and its item.
pub proof fn law_second_try_takes_any_room_there_is<C, U>()
    ensures
        forall|send: &mut Sending<U>, ch: &mut Channel<C, U>, step: Step<Result<(), UserClosed<U>>>|
            (*send)@.item is Some && (*ch)@.user.entries.len() <= (*ch)@.user.capacity
                && (*ch)@.user.waiting == (*ch)@.user.send_notify.enabled
                + (*ch)@.user.send_notify.woken && (*ch)@.user.waiting > 0
                && #[trigger] call_ensures(Sending::<U>::recheck::<C>, (send, ch), step) ==> {
                let before = (*ch)@;
                let after = (*final(ch))@;
                let item = (*send)@.item->0;
                let room = before.user.entries.len() < before.user.capacity;
                &&& room <==> step == Step::Ready(Ok::<(), UserClosed<U>>(()))
                &&& !room && before.core.consumer_gone <==> step == Step::Ready(
                    Err::<(), UserClosed<U>>(UserClosed(item)),
                )
                &&& after.control == before.control
                &&& after.id == before.id
                &&& (*final(send)).of() == (*send).of()
                &&& step is Pending ==> {
                    &&& after == before
                    &&& (*final(send))@ == (*send)@
                }
                &&& step is Ready ==> {
                    &&& (*final(send))@.item is None
                    &&& !(*final(send))@.registered
                    &&& after.user.waiting == before.user.waiting - 1
                    &&& crate::wakeup_laws::left(before.user.send_notify, after.user.send_notify)
                    &&& after.user.senders == before.user.senders
                    &&& same_ring(before, after)
                }
                &&& room ==> {
                    &&& enqueued(before.user, after.user, item)
                    &&& crate::wakeup_laws::told(before.core, after.core, 1)
                }
                &&& !room ==> after.user.entries == before.user.entries && after.core
                    == before.core
            },
{
    assert forall|
        send: &mut Sending<U>,
        ch: &mut Channel<C, U>,
        step: Step<Result<(), UserClosed<U>>>,
    | #[trigger]
        call_ensures(Sending::<U>::recheck::<C>, (send, ch), step) && step == Step::Ready(
            Ok::<(), UserClosed<U>>(()),
        ) implies (*final(ch))@.user.entries.drop_last() == (*ch)@.user.entries by {
        assert((*final(ch))@.user.entries.drop_last() =~= (*ch)@.user.entries);
    }
}

/// One round of a waiting send: while it sleeps, registered and not let go, nothing
/// happens. Else it fails exactly if the consumer is gone, and goes through exactly
/// if the consumer is there and the lane has room, whatever the control lane holds
/// and whoever else waits; and in what is left, a full lane, it waits.
pub proof fn law_send_waits_only_for_room_and_fails_only_without_a_consumer<C, U>()
    ensures
        forall|send: &mut Sending<U>, ch: &mut Channel<C, U>, step: Step<Result<(), UserClosed<U>>>|
            (*send)@.item is Some && (*ch)@.user.entries.len() <= (*ch)@.user.capacity
                && (*ch)@.user.waiting == (*ch)@.user.send_notify.enabled
                + (*ch)@.user.send_notify.woken && ((*send)@.registered ==> (*ch)@.user.waiting
                > 0) && #[trigger] call_ensures(Sending::<U>::poll::<C>, (send, ch), step) ==> {
                let before = (*ch)@;
                let after = (*final(ch))@;
                let item = (*send)@.item->0;
                let was = (*send)@.registered;
                let asleep = was && !crate::wakeup_laws::passable(before.user.send_notify);
                &&& asleep ==> {
                    &&& step is Pending
                    &&& after == before
                    &&& (*final(send))@ == (*send)@
                }
                &&& !asleep ==> send_decides(before, item, step)
                &&& (*final(send)).of() == (*send).of()
                &&& step is Ready ==> (*final(send))@.item is None && !(*final(send))@.registered
                &&& step is Pending ==> (*final(send))@.item == Some(item)
                    && (*final(send))@.registered
                &&& after.control == before.control
                &&& after.id == before.id
                &&& after.user.senders == before.user.senders
                &&& same_ring(before, after)
                &&& step == Step::Ready(Ok::<(), UserClosed<U>>(())) ==> {
                    &&& enqueued(before.user, after.user, item)
                    &&& crate::wakeup_laws::told(before.core, after.core, 1)
                }
                &&& step != Step::Ready(Ok::<(), UserClosed<U>>(())) ==> {
                    &&& after.user.entries == before.user.entries
                    &&& after.core == before.core
                }
                &&& after.user.waiting == before.user.waiting + (if step is Pending {
                    1int
                } else {
                    0int
                }) - (if was {
                    1int
                } else {
                    0int
                })
                &&& after.user.send_notify.enabled + after.user.send_notify.woken
                    == after.user.waiting
                &&& step is Ready && was ==> crate::wakeup_laws::let_through(
                    before.user.send_notify,
                    after.user.send_notify,
                )
                &&& step is Ready && !was ==> after.user.send_notify == before.user.send_notify
                &&& step is Pending && !was ==> {
                    &&& after.user.send_notify.woken == before.user.send_notify.woken
                    &&& after.user.send_notify.permit == before.user.send_notify.permit
                }
                &&& step is Pending && was && !asleep ==> {
                    &&& !after.user.send_notify.permit
                    &&& after.user.send_notify.woken == before.user.send_notify.woken - (if
                    before.user.send_notify.permit && before.user.send_notify.enabled > 0 {
                        0int
                    } else {
                        1int
                    })
                }
            },
{
    assert forall|
        send: &mut Sending<U>,
        ch: &mut Channel<C, U>,
        step: Step<Result<(), UserClosed<U>>>,
    | #[trigger]
        call_ensures(Sending::<U>::poll::<C>, (send, ch), step) && step == Step::Ready(
            Ok::<(), UserClosed<U>>(()),
        ) implies (*final(ch))@.user.entries.drop_last() == (*ch)@.user.entries by {
        assert((*final(ch))@.user.entries.drop_last() =~= (*ch)@.user.entries);
    }
}

/// Giving a waiting send up returns its item, takes its registration away if it has
/// one, and leaves everything else as it is.
pub proof fn law_giving_a_send_up_leaves_the_queue_alone<C, U>()
    ensures
        forall|send: Sending<U>, ch: &mut Channel<C, U>, item: Option<U>|
            (*ch)@.user.waiting == (*ch)@.user.send_notify.enabled
                + (*ch)@.user.send_notify.woken && (send@.registered ==> (*ch)@.user.waiting > 0)
                && #[trigger] call_ensures(Sending::<U>::cancel::<C>, (send, ch), item) ==> {
                let before = (*ch)@;
                let after = (*final(ch))@;
                &&& item == send@.item
                &&& !send@.registered ==> after == before
                &&& send@.registered ==> {
                    &&& after.control == before.control
                    &&& after.core == before.core
                    &&& after.id == before.id
                    &&& after.user == (UserLaneView {
                        waiting: (before.user.waiting - 1) as nat,
                        send_notify: after.user.send_notify,
                        ..before.user
                    })
                    &&& crate::wakeup_laws::left(before.user.send_notify, after.user.send_notify)
                }
            },
{
}

/// A clone is one more sender of its lane and a drop one less, and nothing else of
/// either lane changes. The consumer is told ahead of a drop, and once more after
/// that of the last sender.
pub proof fn law_senders_are_counted_one_by_one<C, U>()
    ensures
        forall|
            sender: &ControlSender<C>,
            ch: &mut Channel<C, U>,
            other: ControlSender<C>,
        | #[trigger]
            call_ensures(ControlSender::<C>::clone::<U>, (sender, ch), other) ==> {
                let before = (*ch)@;
                let after = (*final(ch))@;
                &&& other.of() == sender.of()
                &&& after.control.senders == before.control.senders + 1
                &&& after.control.entries == before.control.entries
                &&& after.control.storage == before.control.storage
                &&& after.control.walking == before.control.walking
                &&& after.user == before.user
                &&& after.core == before.core
                &&& after.id == before.id
            },
        forall|sender: &UserSender<U>, ch: &mut Channel<C, U>, other: UserSender<U>| #[trigger]
            call_ensures(UserSender::<U>::clone::<C>, (sender, ch), other) ==> {
                let before = (*ch)@;
                let after = (*final(ch))@;
                &&& other.of() == sender.of()
                &&& after.user == (UserLaneView {
                    senders: before.user.senders + 1,
                    ..before.user
                })
                &&& after.control == before.control
                &&& after.core == before.core
                &&& after.id == before.id
            },
        forall|sender: ControlSender<C>, ch: &mut Channel<C, U>|
            (*ch)@.control.senders > 0 && #[trigger] call_ensures(
                ControlSender::<C>::drop::<U>,
                (sender, ch),
                (),
            ) ==> {
                let before = (*ch)@;
                let after = (*final(ch))@;
                &&& after.control.senders + 1 == before.control.senders
                &&& after.control.entries == before.control.entries
                &&& after.control.storage == before.control.storage
                &&& after.control.walking == before.control.walking
                &&& after.user == before.user
                &&& after.id == before.id
                &&& crate::wakeup_laws::told(
                    before.core,
                    after.core,
                    if before.control.senders == 1 {
                        2int
                    } else {
                        1int
                    },
                )
            },
        forall|sender: UserSender<U>, ch: &mut Channel<C, U>|
            (*ch)@.user.senders > 0 && #[trigger] call_ensures(
                UserSender::<U>::drop::<C>,
                (sender, ch),
                (),
            ) ==> user_sender_left((*ch)@, (*final(ch))@),
        forall|owner: MailboxOwner<U>, ch: &mut Channel<C, U>|
            (*ch)@.user.senders > 0 && #[trigger] call_ensures(
                MailboxOwner::<U>::close_admission::<C>,
                (owner, ch),
                (),
            ) ==> user_sender_left((*ch)@, (*final(ch))@),
{
}

/// One user sender less, and nothing else but that the consumer was told.
pub open spec fn user_sender_left<C, U>(
    before: ChannelView<C, U>,
    after: ChannelView<C, U>,
) -> bool {
    &&& after.user.senders + 1 == before.user.senders
    &&& after.user == (UserLaneView { senders: after.user.senders, ..before.user })
    &&& after.control == before.control
    &&& after.id == before.id
    &&& crate::wakeup_laws::told(
        before.core,
        after.core,
        if before.user.senders == 1 {
            2int
        } else {
            1int
        },
    )
}

/// An anchor turns into a sender exactly if one is left, and then counts as one
/// more; a lane without a sender stays as it is.
pub proof fn law_anchor_upgrades_whenever_a_sender_is_left<C, U>()
    ensures
        forall|
            anchor: &UserAnchor<U>,
            ch: &mut Channel<C, U>,
            sender: Option<UserSender<U>>,
        | #[trigger]
            call_ensures(UserAnchor::<U>::upgrade::<C>, (anchor, ch), sender) ==> {
                let before = (*ch)@;
                let after = (*final(ch))@;
                &&& sender is Some <==> before.user.senders > 0
                &&& sender is None ==> after == before
                &&& sender is Some ==> {
                    &&& sender->0.of() == anchor.of()
                    &&& after.user == (UserLaneView {
                        senders: before.user.senders + 1,
                        ..before.user
                    })
                    &&& after.control == before.control
                    &&& after.core == before.core
                    &&& after.id == before.id
                }
            },
{
}

/// A send through an anchor that does not wait is refused as closed exactly if no
/// sender is left or the consumer is gone, and else goes through exactly if the
/// lane has room. Afterwards there are as many senders as before, and the consumer
/// was told once for the item and once for the sender that was there meanwhile.
pub proof fn law_anchor_try_send_needs_a_sender_a_consumer_and_room<C, U>()
    ensures
        forall|
            anchor: &UserAnchor<U>,
            ch: &mut Channel<C, U>,
            item: U,
            sent: Result<(), TrySendError<U>>,
        |
            (*ch)@.user.entries.len() <= (*ch)@.user.capacity && #[trigger] call_ensures(
                UserAnchor::<U>::try_send::<C>,
                (anchor, ch, item),
                sent,
            ) ==> {
                let before = (*ch)@;
                let after = (*final(ch))@;
                let closed = before.user.senders == 0 || before.core.consumer_gone;
                let room = before.user.entries.len() < before.user.capacity;
                &&& sent is Ok <==> !closed && room
                &&& closed <==> sent == Err::<(), TrySendError<U>>(TrySendError::Closed(item))
                &&& !closed && !room <==> sent == Err::<(), TrySendError<U>>(
                    TrySendError::Full(item),
                )
                &&& after.control == before.control
                &&& after.id == before.id
                &&& after.user == (UserLaneView { entries: after.user.entries, ..before.user })
                &&& sent is Ok ==> enqueued(before.user, after.user, item)
                &&& sent is Err ==> after.user.entries == before.user.entries
                &&& crate::wakeup_laws::told(
                    before.core,
                    after.core,
                    if before.user.senders == 0 {
                        0int
                    } else if sent is Ok {
                        2int
                    } else {
                        1int
                    },
                )
            },
{
    assert forall|
        anchor: &UserAnchor<U>,
        ch: &mut Channel<C, U>,
        item: U,
        sent: Result<(), TrySendError<U>>,
    | #[trigger]
        call_ensures(UserAnchor::<U>::try_send::<C>, (anchor, ch, item), sent)
            && sent is Ok implies (*final(ch))@.user.entries.drop_last()
        == (*ch)@.user.entries by {
        assert((*final(ch))@.user.entries.drop_last() =~= (*ch)@.user.entries);
    }
}

/// One round of a waiting send through an anchor: it is refused exactly if, at its
/// start, no user sender is left, or if the consumer is gone; with a sender left,
/// the consumer there and room in the lane it goes through, whatever the control
/// lane holds, and in what is left it waits. It counts as a sender exactly while it
/// waits.
pub proof fn law_anchor_send_is_refused_only_without_a_sender_or_a_consumer<C, U>()
    ensures
        forall|
            send: &mut AnchorSending<U>,
            ch: &mut Channel<C, U>,
            step: Step<Result<(), UserClosed<U>>>,
        |
            (*send)@.sending.item is Some && (*ch)@.user.entries.len() <= (*ch)@.user.capacity
                && (*ch)@.user.waiting == (*ch)@.user.send_notify.enabled
                + (*ch)@.user.send_notify.woken && ((*send)@.sending.registered
                ==> (*ch)@.user.waiting > 0 && (*send)@.holds_sender) && ((*send)@.holds_sender
                ==> (*ch)@.user.senders > 0) && #[trigger] call_ensures(
                AnchorSending::<U>::poll::<C>,
                (send, ch),
                step,
            ) ==> {
                let before = (*ch)@;
                let after = (*final(ch))@;
                let item = (*send)@.sending.item->0;
                let was = (*send)@.sending.registered;
                let held = (*send)@.holds_sender;
                let refused = !held && before.user.senders == 0;
                let asleep = was && !crate::wakeup_laws::passable(before.user.send_notify);
                &&& refused ==> {
                    &&& step == Step::Ready(Err::<(), UserClosed<U>>(UserClosed(item)))
                    &&& after == before
                }
                &&& asleep ==> step is Pending && after == before
                &&& !refused && !asleep ==> send_decides(before, item, step)
                &&& after.control == before.control
                &&& after.id == before.id
                &&& same_ring(before, after)
                &&& step == Step::Ready(Ok::<(), UserClosed<U>>(())) ==> enqueued(
                    before.user,
                    after.user,
                    item,
                )
                &&& step != Step::Ready(Ok::<(), UserClosed<U>>(())) ==> after.user.entries
                    == before.user.entries
                &&& after.user.senders + (if held {
                    1int
                } else {
                    0int
                }) == before.user.senders + (if step is Pending {
                    1int
                } else {
                    0int
                })
                &&& after.user.waiting + (if was {
                    1int
                } else {
                    0int
                }) == before.user.waiting + (if step is Pending {
                    1int
                } else {
                    0int
                })
                &&& (*final(send))@.holds_sender == (step is Pending)
                &&& (*final(send))@.sending.registered == (step is Pending)
                &&& step is Pending ==> (*final(send))@.sending.item == Some(item)
                &&& step is Ready ==> (*final(send))@.sending.item is None
                &&& (*final(send)).is_of(after.id)
                &&& crate::wakeup_laws::told(
                    before.core,
                    after.core,
                    if refused || step is Pending {
                        0int
                    } else {
                        (if step == Step::Ready(Ok::<(), UserClosed<U>>(())) {
                            1int
                        } else {
                            0int
                        }) + (if held && before.user.senders == 1 {
                            2int
                        } else {
                            1int
                        })
                    },
                )
                &&& step is Ready && !refused && was ==> crate::wakeup_laws::let_through(
                    before.user.send_notify,
                    after.user.send_notify,
                )
                &&& step is Ready && !was ==> after.user.send_notify == before.user.send_notify
                &&& step is Pending && !was ==> {
                    &&& after.user.send_notify.woken == before.user.send_notify.woken
                    &&& after.user.send_notify.permit == before.user.send_notify.permit
                }
                &&& step is Pending && was && !asleep ==> {
                    &&& !after.user.send_notify.permit
                    &&& after.user.send_notify.woken == before.user.send_notify.woken - (if
                    before.user.send_notify.permit && before.user.send_notify.enabled > 0 {
                        0int
                    } else {
                        1int
                    })
                }
                &&& after.user.send_notify.enabled + after.user.send_notify.woken
                    == after.user.waiting
            },
{
    assert forall|
        send: &mut AnchorSending<U>,
        ch: &mut Channel<C, U>,
        step: Step<Result<(), UserClosed<U>>>,
    | #[trigger]
        call_ensures(AnchorSending::<U>::poll::<C>, (send, ch), step) && step == Step::Ready(
            Ok::<(), UserClosed<U>>(()),
        ) implies (*final(ch))@.user.entries.drop_last() == (*ch)@.user.entries by {
        assert((*final(ch))@.user.entries.drop_last() =~= (*ch)@.user.entries);
    }
}

/// Giving a waiting send through an anchor up returns its item, takes away its
/// registration and the sender it counts as, and leaves the queues alone.
pub proof fn law_giving_an_anchor_send_up_leaves_the_queue_alone<C, U>()
    ensures
        forall|send: AnchorSending<U>, ch: &mut Channel<C, U>, item: Option<U>|
            (*ch)@.user.waiting == (*ch)@.user.send_notify.enabled
                + (*ch)@.user.send_notify.woken && (send@.sending.registered
                ==> (*ch)@.user.waiting > 0) && (send@.holds_sender ==> (*ch)@.user.senders > 0)
                && #[trigger] call_ensures(AnchorSending::<U>::cancel::<C>, (send, ch), item)
                ==> {
                let before = (*ch)@;
                let after = (*final(ch))@;
                &&& item == send@.sending.item
                &&& after.control == before.control
                &&& after.id == before.id
                &&& after.user.entries == before.user.entries
                &&& same_ring(before, after)
                &&& after.user.senders == before.user.senders - (if send@.holds_sender {
                    1int
                } else {
                    0int
                })
                &&& after.user.waiting == before.user.waiting - (if send@.sending.registered {
                    1int
                } else {
                    0int
                })
                &&& send@.sending.registered ==> crate::wakeup_laws::left(
                    before.user.send_notify,
                    after.user.send_notify,
                )
                &&& !send@.sending.registered ==> after.user.send_notify
                    == before.user.send_notify
                &&& crate::wakeup_laws::told(
                    before.core,
                    after.core,
                    if !send@.holds_sender {
                        0int
                    } else if before.user.senders == 1 {
                        2int
                    } else {
                        1int
                    },
                )
            },
{
}

/// A handle can be used on its own channel at any time: whatever is queued, whoever
/// waits and whether or not the consumer is there, as long as the counters that the
/// call moves have room.
pub proof fn law_sends_can_always_be_made<C, U>()
    ensures
        forall|sender: &ControlSender<C>, ch: &mut Channel<C, U>, item: C|
            (*ch).wf() && sender.of() == (*ch)@.id && (*ch)@.control.storage.taken
                + (*ch)@.control.entries.len() + crate::control_lane::CBLOCK <= usize::MAX
                ==> #[trigger] call_requires(
                ControlSender::<C>::send::<U>,
                (sender, ch, item),
            ),
        forall|sender: &UserSender<U>, ch: &mut Channel<C, U>, item: U|
            (*ch).wf() && sender.of() == (*ch)@.id ==> #[trigger] call_requires(
                UserSender::<U>::try_send::<C>,
                (sender, ch, item),
            ),
        forall|sender: &UserSender<U>, item: U| #[trigger]
            call_requires(UserSender::<U>::send, (sender, item)),
        forall|sender: &UserSender<U>| #[trigger]
            call_requires(UserSender::<U>::anchor, (sender,)),
        forall|anchor: &UserAnchor<U>, item: U| #[trigger]
            call_requires(UserAnchor::<U>::send, (anchor, item)),
        forall|anchor: &UserAnchor<U>, ch: &mut Channel<C, U>, item: U|
            (*ch).wf() && anchor.of() == (*ch)@.id && (*ch)@.user.senders < usize::MAX
                ==> #[trigger] call_requires(
                UserAnchor::<U>::try_send::<C>,
                (anchor, ch, item),
            ),
        forall|anchor: &UserAnchor<U>, ch: &mut Channel<C, U>|
            (*ch).wf() && anchor.of() == (*ch)@.id && (*ch)@.user.senders < usize::MAX
                ==> #[trigger] call_requires(UserAnchor::<U>::upgrade::<C>, (anchor, ch)),
        forall|send: &mut Sending<U>, ch: &mut Channel<C, U>|
            (*ch).wf() && (*send).of() == (*ch)@.id && (*send)@.item is Some && (
            (*send)@.registered ==> (*ch)@.user.waiting > 0) && (*ch)@.user.waiting < usize::MAX
                ==> #[trigger] call_requires(Sending::<U>::poll::<C>, (send, ch)),
        forall|send: Sending<U>, ch: &mut Channel<C, U>|
            (*ch).wf() && send.of() == (*ch)@.id && (send@.registered ==> (*ch)@.user.waiting
                > 0) ==> #[trigger] call_requires(Sending::<U>::cancel::<C>, (send, ch)),
        forall|send: &mut AnchorSending<U>, ch: &mut Channel<C, U>|
            (*ch).wf() && (*send).is_of((*ch)@.id) && (*send)@.sending.item is Some && (
            (*send)@.sending.registered ==> (*ch)@.user.waiting > 0 && (*send)@.holds_sender)
                && ((*send)@.holds_sender ==> (*ch)@.user.senders > 0) && (*ch)@.user.waiting
                < usize::MAX && (*ch)@.user.senders < usize::MAX ==> #[trigger] call_requires(
                AnchorSending::<U>::poll::<C>,
                (send, ch),
            ),
        forall|sender: &ControlSender<C>, ch: &mut Channel<C, U>|
            (*ch).wf() && sender.of() == (*ch)@.id && 0 < (*ch)@.control.senders < usize::MAX
                ==> #[trigger] call_requires(ControlSender::<C>::clone::<U>, (sender, ch)),
        forall|sender: &UserSender<U>, ch: &mut Channel<C, U>|
            (*ch).wf() && sender.of() == (*ch)@.id && 0 < (*ch)@.user.senders < usize::MAX
                ==> #[trigger] call_requires(UserSender::<U>::clone::<C>, (sender, ch)),
        forall|sender: ControlSender<C>, ch: &mut Channel<C, U>|
            (*ch).wf() && sender.of() == (*ch)@.id && (*ch)@.control.senders > 0
                ==> #[trigger] call_requires(ControlSender::<C>::drop::<U>, (sender, ch)),
        forall|sender: UserSender<U>, ch: &mut Channel<C, U>|
            (*ch).wf() && sender.of() == (*ch)@.id && (*ch)@.user.senders > 0
                ==> #[trigger] call_requires(UserSender::<U>::drop::<C>, (sender, ch)),
{
}

} // verus!
