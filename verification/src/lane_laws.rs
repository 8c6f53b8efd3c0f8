use crate::channel::{channel, Channel, ChannelView};
use crate::consumer::{Consumer, ConsumerView};
use crate::control_lane::{ControlLane, ControlLaneView, ControlTicket, CBLOCK};
use crate::mailbox::{mailbox_channel, MailboxOwner};
use crate::senders::{ControlSender, UserAnchor, UserSender};
use crate::types::{Config, ControlClosed, TrySendError, UserClosed};
use crate::user_lane::{Claim, UserLane, UserLaneView, UserTicket};
use vstd::prelude::*;

verus! {

/// A configuration tells back what it was made with: the capacity, no aging to begin
/// with, and the cap that was set last.
pub proof fn law_config_tells_back_what_was_asked_for()
    ensures
        forall|n: usize, cfg: Config, m: usize| #[trigger]
            call_ensures(Config::new, (n,), cfg) && #[trigger] call_ensures(
                Config::user_capacity,
                (&cfg,),
                m,
            ) ==> m == n,
        forall|n: usize, cfg: Config, k: usize| #[trigger]
            call_ensures(Config::new, (n,), cfg) && #[trigger] call_ensures(
                Config::aging_cap,
                (&cfg,),
                k,
            ) ==> k == 0,
        forall|cfg: Config, k: usize, aged: Config, m: usize, n: usize| #[trigger]
            call_ensures(Config::with_aging_cap, (cfg, k), aged) && #[trigger] call_ensures(
                Config::user_capacity,
                (&cfg,),
                n,
            ) && #[trigger] call_ensures(Config::user_capacity, (&aged,), m) ==> m == n,
        forall|cfg: Config, k: usize, aged: Config, j: usize| #[trigger]
            call_ensures(Config::with_aging_cap, (cfg, k), aged) && #[trigger] call_ensures(
                Config::aging_cap,
                (&aged,),
                j,
            ) ==> j == k,
{
}

/// The errors of the user lane say the same when the consumer is gone, whichever send
/// they come from; and no two different reasons read alike.
pub proof fn law_errors_read_by_their_reason<T>()
    ensures
        forall|e: &TrySendError<T>, f: &UserClosed<T>, a: &'static str, b: &'static str| #[trigger]
            call_ensures(TrySendError::<T>::message, (e,), a) && #[trigger] call_ensures(
                UserClosed::<T>::message,
                (f,),
                b,
            ) ==> (*e is Closed <==> a@ == b@),
        forall|e: &ControlClosed<T>, f: &UserClosed<T>, a: &'static str, b: &'static str| #[trigger]
            call_ensures(ControlClosed::<T>::message, (e,), a) && #[trigger] call_ensures(
                UserClosed::<T>::message,
                (f,),
                b,
            ) ==> a@ != b@,
        forall|e: &TrySendError<T>, a: &'static str| #[trigger]
            call_ensures(TrySendError::<T>::message, (e,), a) && *e is Full ==> a@
                == "user lane full"@,
        forall|e: &UserClosed<T>, a: &'static str| #[trigger]
            call_ensures(UserClosed::<T>::message, (e,), a) ==> a@
                == "user lane closed: consumer dropped"@,
        forall|e: &ControlClosed<T>, a: &'static str| #[trigger]
            call_ensures(ControlClosed::<T>::message, (e,), a) ==> a@
                == "control lane closed: consumer dropped"@,
{
    reveal_strlit("user lane full");
    reveal_strlit("user lane closed: consumer dropped");
    reveal_strlit("control lane closed: consumer dropped");
    assert("user lane full"@.len() != "user lane closed: consumer dropped"@.len());
    assert("control lane closed: consumer dropped"@.len()
        != "user lane closed: consumer dropped"@.len());
}

/// Nothing is in the lane, one sender is left, and nobody waits.
pub open spec fn empty_user_lane<U>(lane: UserLaneView<U>) -> bool {
    &&& lane.entries.len() == 0
    &&& lane.popped == 0
    &&& lane.waiting == 0
    &&& lane.senders == 1
    &&& lane.send_notify.enabled == 0
    &&& lane.send_notify.woken == 0
    &&& !lane.send_notify.permit
}

/// Nothing is in the lane, one sender is left, and one block is in memory.
pub open spec fn empty_control_lane<C>(lane: ControlLaneView<C>) -> bool {
    &&& lane.entries.len() == 0
    &&& lane.senders == 1
    &&& lane.walking == Set::<int>::empty()
    &&& lane.storage.taken == 0
    &&& lane.storage.first == 0
    &&& lane.storage.cursor == 0
    &&& lane.storage.last == 0
}

/// The channel is empty and open, nobody waits, the consumer is there, and its user
/// lane holds the smallest power of two that is at least two and at least what was
/// asked for.
pub open spec fn new_channel<C, U>(ch: ChannelView<C, U>, asked: int) -> bool {
    &&& empty_control_lane(ch.control)
    &&& empty_user_lane(ch.user)
    &&& !ch.core.parked
    &&& !ch.core.consumer_gone
    &&& !ch.core.notify.permit
    &&& ch.core.notify.enabled == 0
    &&& ch.core.notify.woken == 0
    &&& 2 <= ch.user.capacity
    &&& asked <= ch.user.capacity
    &&& ch.user.capacity > 2 ==> ch.user.capacity < 2 * asked
    &&& exists|e: nat| ch.user.capacity == #[trigger] vstd::arithmetic::power2::pow2(e)
}

/// The consumer has served nothing, waits for nothing, and has the cap asked for.
pub open spec fn new_consumer(me: ConsumerView, cap: int) -> bool {
    &&& me.policy.cap == cap
    &&& me.policy.streak == 0
    &&& !me.policy.reported
    &&& !me.registered
}

/// A new channel is empty, as large as was asked for, rounded up, and its handles
/// are all its own.
pub proof fn law_new_channel_is_what_was_asked_for<C, U>()
    ensures
        forall|
            cfg: Config,
            made: (Channel<C, U>, ControlSender<C>, UserSender<U>, Consumer<C, U>),
            n: usize,
            k: usize,
        | #[trigger]
            call_ensures(channel::<C, U>, (cfg,), made) && #[trigger] call_ensures(
                Config::user_capacity,
                (&cfg,),
                n,
            ) && #[trigger] call_ensures(Config::aging_cap, (&cfg,), k) ==> {
                &&& new_channel(made.0@, n as int)
                &&& new_consumer(made.3@, k as int)
                &&& made.1.of() == made.0@.id
                &&& made.2.of() == made.0@.id
                &&& made.3.of() == made.0@.id
            },
        forall|
            cfg: Config,
            made: (
                Channel<C, U>,
                ControlSender<C>,
                MailboxOwner<U>,
                UserAnchor<U>,
                Consumer<C, U>,
            ),
            n: usize,
            k: usize,
        | #[trigger]
            call_ensures(mailbox_channel::<C, U>, (cfg,), made) && #[trigger] call_ensures(
                Config::user_capacity,
                (&cfg,),
                n,
            ) && #[trigger] call_ensures(Config::aging_cap, (&cfg,), k) ==> {
                &&& new_channel(made.0@, n as int)
                &&& new_consumer(made.4@, k as int)
                &&& made.1.of() == made.0@.id
                &&& made.2.of() == made.0@.id
                &&& made.3.of() == made.0@.id
                &&& made.4.of() == made.0@.id
            },
{
}

/// A new lane is empty and has one sender.
pub proof fn law_new_lanes_are_empty<C, U>()
    ensures
        forall|capacity: usize, lane: UserLane<U>| #[trigger]
            call_ensures(UserLane::<U>::new, (capacity,), lane) ==> empty_user_lane(lane@)
                && lane@.capacity == capacity,
        forall|lane: ControlLane<C>| #[trigger]
            call_ensures(ControlLane::<C>::new, (), lane) ==> empty_control_lane(lane@),
{
}

/// A producer that has just seen the end of the lane claims a position exactly if
/// fewer are taken than there are, and is told that the lane is full exactly
/// otherwise; one that saw another end loses and learns the present one. A claim adds
/// one unpublished position behind all others and changes nothing else.
pub proof fn law_claim_is_won_by_whoever_sees_the_end<U>()
    ensures
        forall|seen: &UserLane<U>, end: usize, lane: &mut UserLane<U>, pos: usize, claim: Claim|
            *seen == *lane && (*lane)@.entries.len() <= (*lane)@.capacity
                && #[trigger] call_ensures(UserLane::<U>::observe_tail, (seen,), end)
                && #[trigger] call_ensures(UserLane::<U>::try_claim, (lane, pos), claim) ==> {
                let before = (*lane)@;
                let after = (*final(lane))@;
                let room = before.entries.len() < before.capacity;
                &&& claim is Won <==> pos == end && room
                &&& claim is Full <==> pos == end && !room
                &&& claim is Lost <==> pos != end
                &&& claim matches Claim::Lost(now) ==> now == end
                &&& !(claim is Won) ==> after == before
                &&& claim is Won ==> {
                    &&& after.entries.len() == before.entries.len() + 1
                    &&& after.entries.last() is None
                    &&& after.entries.drop_last() == before.entries
                    &&& after == (UserLaneView { entries: after.entries, ..before })
                }
            },
{
    assert forall|
        seen: &UserLane<U>,
        end: usize,
        lane: &mut UserLane<U>,
        pos: usize,
        claim: Claim,
    |
        *seen == *lane && #[trigger] call_ensures(UserLane::<U>::observe_tail, (seen,), end)
            && #[trigger] call_ensures(UserLane::<U>::try_claim, (lane, pos), claim)
            && claim is Won implies (*final(lane))@.entries.drop_last() == (*lane)@.entries by {
        assert((*final(lane))@.entries.drop_last() =~= (*lane)@.entries);
    }
}

/// A ticket publishes at the very position it was claimed for, however many others
/// have claimed, published or been popped since, and nothing else changes.
pub proof fn law_ticket_publishes_its_own_position<U>()
    ensures
        forall|
            claimed: &mut UserLane<U>,
            pos: usize,
            t: UserTicket,
            lane: &mut UserLane<U>,
            v: U,
        |
            (*claimed)@.consistent() && (*lane)@.consistent() && #[trigger] call_ensures(
                UserLane::<U>::try_claim,
                (claimed, pos),
                Claim::Won(t),
            ) && #[trigger] call_ensures(UserLane::<U>::publish, (lane, t, v), ()) ==> {
                let before = (*lane)@;
                let after = (*final(lane))@;
                let k = (*claimed)@.popped + (*claimed)@.entries.len() - before.popped;
                0 <= k < before.entries.len() ==> {
                    &&& after.entries.len() == before.entries.len()
                    &&& after.entries[k] == Some(v)
                    &&& forall|i: int|
                        0 <= i < before.entries.len() && i != k ==> #[trigger] after.entries[i]
                            == before.entries[i]
                    &&& after == (UserLaneView { entries: after.entries, ..before })
                }
            },
{
    assert forall|
        claimed: &mut UserLane<U>,
        pos: usize,
        t: UserTicket,
        lane: &mut UserLane<U>,
        v: U,
    |
        (*claimed)@.consistent() && (*lane)@.consistent() && #[trigger] call_ensures(
            UserLane::<U>::try_claim,
            (claimed, pos),
            Claim::Won(t),
        ) && #[trigger] call_ensures(UserLane::<U>::publish, (lane, t, v), ()) implies {
        let before = (*lane)@;
        let after = (*final(lane))@;
        let k = (*claimed)@.popped + (*claimed)@.entries.len() - before.popped;
        0 <= k < before.entries.len() ==> {
            &&& after.entries == before.entries.update(k, Some(v))
            &&& after == (UserLaneView { entries: after.entries, ..before })
        }
    } by {
        let before = (*lane)@;
        let k = (*claimed)@.popped + (*claimed)@.entries.len() - before.popped;
        if 0 <= k < before.entries.len() {
            crate::user_lane::lemma_claim_is_found(before, k);
        }
    }
}

/// A push goes through exactly if there is room, as the last item; and a pop gives the
/// oldest item exactly if it is published, and lets one waiting producer go. Each
/// changes nothing else.
pub proof fn law_user_lane_is_first_in_first_out<U>()
    ensures
        forall|lane: &mut UserLane<U>, v: U, pushed: Result<(), U>|
            (*lane)@.entries.len() <= (*lane)@.capacity && #[trigger] call_ensures(
                UserLane::<U>::try_push,
                (lane, v),
                pushed,
            ) ==> {
                let before = (*lane)@;
                let after = (*final(lane))@;
                &&& pushed is Ok <==> before.entries.len() < before.capacity
                &&& pushed matches Err(back) ==> back == v && after == before
                &&& pushed is Ok ==> {
                    &&& crate::sending_laws::enqueued(before, after, v)
                    &&& after == (UserLaneView { entries: after.entries, ..before })
                }
            },
        forall|lane: &mut UserLane<U>, popped: Option<U>| #[trigger]
            call_ensures(UserLane::<U>::pop, (lane,), popped) ==> {
                let before = (*lane)@;
                let after = (*final(lane))@;
                &&& popped == crate::receiving_laws::head(before.entries)
                &&& crate::receiving_laws::user_moved(before, after, popped is Some)
            },
{
    assert forall|lane: &mut UserLane<U>, v: U, pushed: Result<(), U>| #[trigger]
        call_ensures(UserLane::<U>::try_push, (lane, v), pushed)
            && pushed is Ok implies (*final(lane))@.entries.drop_last() == (*lane)@.entries by {
        assert((*final(lane))@.entries.drop_last() =~= (*lane)@.entries);
    }
}

/// Everything else that is done to the user lane: letting producers go, waiting,
/// counting senders, and asking. None of it moves an item.
pub proof fn law_user_lane_bookkeeping_moves_no_item<U>()
    ensures
        forall|lane: &mut UserLane<U>| #[trigger]
            call_ensures(UserLane::<U>::release_one_waiter, (lane,), ())
                ==> crate::receiving_laws::one_producer_let_go((*lane)@, (*final(lane))@),
        forall|lane: &mut UserLane<U>| #[trigger]
            call_ensures(UserLane::<U>::release_all_waiters, (lane,), ()) ==> {
                let before = (*lane)@;
                let after = (*final(lane))@;
                &&& after == (UserLaneView { send_notify: after.send_notify, ..before })
                &&& after.send_notify.enabled == 0
                &&& after.send_notify.woken == before.send_notify.enabled
                    + before.send_notify.woken
                &&& after.send_notify.permit == before.send_notify.permit
            },
        forall|lane: &mut UserLane<U>| #[trigger]
            call_ensures(UserLane::<U>::start_waiting, (lane,), ()) ==> {
                let before = (*lane)@;
                let after = (*final(lane))@;
                &&& after.waiting == before.waiting + 1
                &&& after.send_notify.enabled == before.send_notify.enabled + 1
                &&& after.send_notify.woken == before.send_notify.woken
                &&& after.send_notify.permit == before.send_notify.permit
                &&& after == (UserLaneView {
                    waiting: after.waiting,
                    send_notify: after.send_notify,
                    ..before
                })
            },
        forall|lane: &mut UserLane<U>, passed: bool|
            (*lane)@.waiting > 0 && (*lane)@.waiting == (*lane)@.send_notify.enabled
                + (*lane)@.send_notify.woken && #[trigger] call_ensures(
                UserLane::<U>::pass_waiting,
                (lane,),
                passed,
            ) ==> {
                let before = (*lane)@;
                let after = (*final(lane))@;
                &&& passed == crate::wakeup_laws::passable(before.send_notify)
                &&& !passed ==> after == before
                &&& passed ==> {
                    &&& after.waiting + 1 == before.waiting
                    &&& crate::wakeup_laws::let_through(before.send_notify, after.send_notify)
                    &&& after == (UserLaneView {
                        waiting: after.waiting,
                        send_notify: after.send_notify,
                        ..before
                    })
                }
            },
        forall|lane: &mut UserLane<U>|
            (*lane)@.waiting > 0 && (*lane)@.waiting == (*lane)@.send_notify.enabled
                + (*lane)@.send_notify.woken && #[trigger] call_ensures(
                UserLane::<U>::give_up_waiting,
                (lane,),
                (),
            ) ==> {
                let before = (*lane)@;
                let after = (*final(lane))@;
                &&& after.waiting + 1 == before.waiting
                &&& crate::wakeup_laws::left(before.send_notify, after.send_notify)
                &&& after == (UserLaneView {
                    waiting: after.waiting,
                    send_notify: after.send_notify,
                    ..before
                })
            },
        forall|lane: &mut UserLane<U>| #[trigger]
            call_ensures(UserLane::<U>::add_sender, (lane,), ()) ==> (*final(lane))@ == (
            UserLaneView { senders: (*lane)@.senders + 1, ..(*lane)@ }),
        forall|lane: &mut UserLane<U>, last: bool|
            (*lane)@.senders > 0 && #[trigger] call_ensures(
                UserLane::<U>::remove_sender,
                (lane,),
                last,
            ) ==> {
                &&& last <==> (*final(lane))@.senders == 0
                &&& (*final(lane))@.senders + 1 == (*lane)@.senders
                &&& (*final(lane))@ == (UserLaneView {
                    senders: (*final(lane))@.senders,
                    ..(*lane)@
                })
            },
        forall|lane: &UserLane<U>, closed: bool| #[trigger]
            call_ensures(UserLane::<U>::closed, (lane,), closed) ==> (closed <==> lane@.senders
                < 1),
        forall|lane: &UserLane<U>, ready: bool| #[trigger]
            call_ensures(UserLane::<U>::waiter_ready, (lane,), ready) ==> (ready
                <==> lane@.waiting > 0 && crate::wakeup_laws::passable(lane@.send_notify)),
        forall|lane: &UserLane<U>, room: bool| #[trigger]
            call_ensures(UserLane::<U>::has_headroom, (lane,), room) ==> (room
                <==> lane@.senders + 1 <= usize::MAX && lane@.waiting + 1 <= usize::MAX),
{
}

/// Taking everything that is ready takes the oldest items up to the first one that is
/// not published, and leaves the rest; a lane that is thrown away gives up every
/// published item.
pub proof fn law_lanes_give_up_what_they_hold<C, U>()
    ensures
        forall|lane: &mut UserLane<U>, taken: Vec<U>| #[trigger]
            call_ensures(UserLane::<U>::take_ready, (lane,), taken) ==> {
                let before = (*lane)@;
                let after = (*final(lane))@;
                &&& crate::receiving_laws::all_that_is_ready(before.entries, taken@)
                &&& after.entries == before.entries.skip(taken@.len() as int)
                &&& after.popped == before.popped + taken@.len()
                &&& after == (UserLaneView {
                    entries: after.entries,
                    popped: after.popped,
                    ..before
                })
            },
        forall|lane: UserLane<U>, left: Vec<U>| #[trigger]
            call_ensures(UserLane::<U>::into_unconsumed, (lane,), left) ==> left@
                == crate::receiving_laws::all_that_is_published(lane@.entries),
        forall|lane: &mut ControlLane<C>, taken: Vec<C>| #[trigger]
            call_ensures(ControlLane::<C>::take_ready, (lane,), taken) ==> {
                let before = (*lane)@;
                let after = (*final(lane))@;
                &&& crate::receiving_laws::all_that_is_ready(before.entries, taken@)
                &&& after.entries == before.entries.skip(taken@.len() as int)
                &&& after.storage.taken == before.storage.taken + taken@.len()
                &&& after.senders == before.senders
                &&& after.walking == before.walking
            },
        forall|lane: ControlLane<C>, left: Vec<C>| #[trigger]
            call_ensures(ControlLane::<C>::into_unconsumed, (lane,), left) ==> left@
                == crate::receiving_laws::all_that_is_published(lane@.entries),
{
    assert forall|lane: &mut UserLane<U>, taken: Vec<U>| #[trigger]
        call_ensures(
            UserLane::<U>::take_ready,
            (lane,),
            taken,
        ) implies crate::receiving_laws::all_that_is_ready((*lane)@.entries, taken@) by {
        crate::receiving_laws::lemma_ready_prefix((*lane)@.entries);
    }
    assert forall|lane: UserLane<U>, left: Vec<U>| #[trigger]
        call_ensures(UserLane::<U>::into_unconsumed, (lane,), left) implies left@
        == crate::receiving_laws::all_that_is_published(lane@.entries) by {
        crate::receiving_laws::lemma_published(lane@.entries);
    }
    assert forall|lane: &mut ControlLane<C>, taken: Vec<C>| #[trigger]
        call_ensures(ControlLane::<C>::take_ready, (lane,), taken) implies {
        let before = (*lane)@;
        let after = (*final(lane))@;
        &&& crate::receiving_laws::all_that_is_ready(before.entries, taken@)
        &&& after.entries == before.entries.skip(taken@.len() as int)
        &&& after.storage.taken == before.storage.taken + taken@.len()
        &&& after.senders == before.senders
        &&& after.walking == before.walking
    } by {
        crate::receiving_laws::lemma_ready_prefix((*lane)@.entries);
        crate::receiving_laws::lemma_emptied_counts((*lane)@);
        crate::control_lane::lemma_emptied((*lane)@);
    }
    assert forall|lane: ControlLane<C>, left: Vec<C>| #[trigger]
        call_ensures(ControlLane::<C>::into_unconsumed, (lane,), left) implies left@
        == crate::receiving_laws::all_that_is_published(lane@.entries) by {
        crate::receiving_laws::lemma_published(lane@.entries);
    }
}

/// A control claim takes the next position behind all others; it walks exactly if its
/// block is not the newest. Publishing puts the item at the claimed position, ends the
/// walk, and brings the block of the position into memory.
pub proof fn law_control_ticket_publishes_its_own_position<C>()
    ensures
        forall|lane: &mut ControlLane<C>, t: ControlTicket| #[trigger]
            call_ensures(ControlLane::<C>::claim, (lane,), t) ==> {
                let before = (*lane)@;
                let after = (*final(lane))@;
                let next = before.storage.taken + before.entries.len();
                &&& t.position() == next
                &&& t.walks() <==> t.position() / CBLOCK as int != before.storage.last
                &&& after.entries.len() == before.entries.len() + 1
                &&& after.entries.last() is None
                &&& after.entries.drop_last() == before.entries
                &&& after.storage == before.storage
                &&& after.senders == before.senders
                &&& forall|p: int| #[trigger]
                    after.walking.contains(p) <==> before.walking.contains(p) || (p == next
                        && t.walks())
            },
        forall|lane: &mut ControlLane<C>, t: ControlTicket, item: C|
            (*lane)@.storage.taken <= t.position() < (*lane)@.storage.taken
                + (*lane)@.entries.len() && #[trigger] call_ensures(
                ControlLane::<C>::publish,
                (lane, t, item),
                (),
            ) ==> {
                let before = (*lane)@;
                let after = (*final(lane))@;
                let k = t.position() - before.storage.taken;
                let block = t.position() / CBLOCK as int;
                &&& after.entries.len() == before.entries.len()
                &&& after.entries[k] == Some(item)
                &&& forall|i: int|
                    0 <= i < before.entries.len() && i != k ==> #[trigger] after.entries[i]
                        == before.entries[i]
                &&& after.senders == before.senders
                &&& after.storage.taken == before.storage.taken
                &&& after.storage.first == before.storage.first
                &&& after.storage.cursor == before.storage.cursor
                &&& before.storage.last >= block ==> after.storage.last == before.storage.last
                &&& before.storage.last < block ==> after.storage.last == block
                &&& forall|p: int| #[trigger]
                    after.walking.contains(p) <==> before.walking.contains(p) && p
                        != t.position()
            },
{
    assert forall|lane: &mut ControlLane<C>, t: ControlTicket| #[trigger]
        call_ensures(ControlLane::<C>::claim, (lane,), t) implies (
    *final(lane))@.entries.drop_last() == (*lane)@.entries by {
        assert((*final(lane))@.entries.drop_last() =~= (*lane)@.entries);
    }
}

/// A control push adds its item behind all others; a pop gives the oldest item exactly
/// if it is published, and nothing else moves. The consumer's block is left exactly
/// when it is used up and there is another, and blocks behind it are freed exactly if
/// there are four or more and nobody walks.
pub proof fn law_control_lane_is_first_in_first_out<C>()
    ensures
        forall|lane: &mut ControlLane<C>, item: C| #[trigger]
            call_ensures(ControlLane::<C>::push, (lane, item), ()) ==> {
                let before = (*lane)@;
                let after = (*final(lane))@;
                let block = (before.storage.taken + before.entries.len()) as int / CBLOCK as int;
                &&& after.entries.len() == before.entries.len() + 1
                &&& after.entries.last() == Some(item)
                &&& after.entries.drop_last() == before.entries
                &&& after.senders == before.senders
                &&& after.walking == before.walking
                &&& after.storage.taken == before.storage.taken
                &&& after.storage.first == before.storage.first
                &&& after.storage.cursor == before.storage.cursor
                &&& before.storage.last >= block ==> after.storage.last == before.storage.last
                &&& before.storage.last < block ==> after.storage.last == block
            },
        forall|lane: &mut ControlLane<C>, popped: Option<C>| #[trigger]
            call_ensures(ControlLane::<C>::pop, (lane,), popped) ==> {
                let before = (*lane)@;
                let after = (*final(lane))@;
                let moves = before.storage.taken == (before.storage.cursor + 1) * CBLOCK
                    && before.storage.cursor < before.storage.last;
                let frees = moves && before.walking.len() == 0 && before.storage.cursor + 1
                    - before.storage.first >= 4;
                &&& popped == crate::receiving_laws::head(before.entries)
                &&& crate::receiving_laws::control_moved(before, after, popped is Some)
                &&& after.storage.cursor == before.storage.cursor + (if moves {
                    1int
                } else {
                    0int
                })
                &&& frees ==> after.storage.first == after.storage.cursor
                &&& !frees ==> after.storage.first == before.storage.first
            },
        forall|lane: &mut ControlLane<C>| #[trigger]
            call_ensures(ControlLane::<C>::reclaim, (lane,), ()) ==> {
                let before = (*lane)@;
                let after = (*final(lane))@;
                let frees = before.walking.len() == 0 && before.storage.cursor
                    - before.storage.first >= 4;
                &&& !frees ==> after == before
                &&& frees ==> {
                    &&& after.entries == before.entries
                    &&& after.senders == before.senders
                    &&& after.walking == before.walking
                    &&& after.storage.taken == before.storage.taken
                    &&& after.storage.cursor == before.storage.cursor
                    &&& after.storage.last == before.storage.last
                    &&& after.storage.first == before.storage.cursor
                }
            },
{
    assert forall|lane: &mut ControlLane<C>, item: C| #[trigger]
        call_ensures(ControlLane::<C>::push, (lane, item), ()) implies (
    *final(lane))@.entries.drop_last() == (*lane)@.entries by {
        assert((*final(lane))@.entries.drop_last() =~= (*lane)@.entries);
    }
}

/// Counting senders of the control lane, and asking it something, moves no item.
pub proof fn law_control_lane_bookkeeping_moves_no_item<C>()
    ensures
        forall|lane: &mut ControlLane<C>| #[trigger]
            call_ensures(ControlLane::<C>::add_sender, (lane,), ()) ==> (*final(lane))@ == (
            ControlLaneView { senders: (*lane)@.senders + 1, ..(*lane)@ }),
        forall|lane: &mut ControlLane<C>, last: bool|
            (*lane)@.senders > 0 && #[trigger] call_ensures(
                ControlLane::<C>::remove_sender,
                (lane,),
                last,
            ) ==> {
                &&& last <==> (*final(lane))@.senders == 0
                &&& (*final(lane))@.senders + 1 == (*lane)@.senders
                &&& (*final(lane))@ == (ControlLaneView {
                    senders: (*final(lane))@.senders,
                    ..(*lane)@
                })
            },
        forall|lane: &ControlLane<C>, closed: bool| #[trigger]
            call_ensures(ControlLane::<C>::closed, (lane,), closed) ==> (closed
                <==> lane@.senders < 1),
        forall|lane: &ControlLane<C>, room: bool| #[trigger]
            call_ensures(ControlLane::<C>::has_headroom, (lane,), room) ==> (room
                <==> lane@.storage.taken + lane@.entries.len() + CBLOCK <= usize::MAX
                && lane@.senders + 1 <= usize::MAX),
        forall|lane: &ControlLane<C>, n: usize| #[trigger]
            call_ensures(ControlLane::<C>::blocks_in_memory, (lane,), n) ==> n
                + lane@.storage.first == lane@.storage.last + 1,
{
}

} // verus!
