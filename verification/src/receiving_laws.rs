use crate::channel::{Channel, ChannelView, Step};
use crate::consumer::{Consumer, ConsumerView};
use crate::control_lane::ControlLaneView;
use crate::policy::{Policy, PolicyView};
use crate::types::{Drained, Received};
use crate::user_lane::UserLaneView;
use vstd::prelude::*;

verus! {

/// The item that the consumer finds at the head of a lane, if it is published.
pub open spec fn head<T>(entries: Seq<Option<T>>) -> Option<T> {
    if entries.len() == 0 {
        None
    } else {
        entries.first()
    }
}

/// The user lane has something for the consumer: an item, or an end-marker that is
/// not out yet.
pub open spec fn user_has<C, U>(ch: ChannelView<C, U>, policy: PolicyView) -> bool {
    head(ch.user.entries) is Some || (ch.user.senders == 0 && !policy.reported)
}

/// `answer` is right for a look at both lanes, where `forced` tells whether a user
/// goes first: a ready control is passed over only by a forced user or marker; an
/// item is never passed over by nothing; the marker comes only from a lane without
/// senders and items, the end only from two of them, and waiting is for what is
/// left.
pub open spec fn right_answer<C, U>(
    ch: ChannelView<C, U>,
    policy: PolicyView,
    forced: bool,
    answer: Step<Option<Received<C, U>>>,
) -> bool {
    let user_first = forced && user_has(ch, policy);
    &&& head(ch.control.entries) is Some && !user_first <==> (answer matches Step::Ready(
        Some(Received::Control(_)),
    ))
    &&& answer matches Step::Ready(Some(Received::Control(c))) ==> head(ch.control.entries)
        == Some(c)
    &&& head(ch.user.entries) is Some && (forced || head(ch.control.entries) is None) <==> (
    answer matches Step::Ready(Some(Received::User(_))))
    &&& answer matches Step::Ready(Some(Received::User(u))) ==> head(ch.user.entries) == Some(u)
    &&& head(ch.user.entries) is None && ch.user.senders == 0 && !policy.reported && (forced
        || head(ch.control.entries) is None) <==> answer == Step::Ready(
        Some(Received::<C, U>::UserLaneClosed),
    )
    &&& head(ch.control.entries) is None && head(ch.user.entries) is None && ch.control.senders
        == 0 && ch.user.senders == 0 && policy.reported <==> answer == Step::Ready(
        None::<Received<C, U>>,
    )
    &&& head(ch.control.entries) is None && !user_has(ch, policy) && !(ch.control.senders == 0
        && ch.user.senders == 0) <==> answer is Pending
}

/// The policy counts `answer`: a control makes the streak one longer, up to the cap;
/// a user item or the marker ends it, however it came to be served; nothing else
/// touches it.
pub open spec fn counted<C, U>(
    before: PolicyView,
    after: PolicyView,
    answer: Step<Option<Received<C, U>>>,
) -> bool {
    &&& after.cap == before.cap
    &&& match answer {
        Step::Ready(Some(Received::Control(_))) => {
            &&& before.streak < before.cap ==> after.streak == before.streak + 1
            &&& before.streak >= before.cap ==> after.streak == before.streak
            &&& after.reported == before.reported
        },
        Step::Ready(Some(Received::User(_))) => {
            &&& after.streak == 0
            &&& after.reported == before.reported
        },
        Step::Ready(Some(Received::UserLaneClosed)) => after.streak == 0 && after.reported,
        _ => after.streak == before.streak && after.reported == before.reported,
    }
}

/// What left the control lane between the two: the oldest item if `took`, and else
/// nothing. Used-up blocks may be freed.
pub open spec fn control_moved<C>(
    before: ControlLaneView<C>,
    after: ControlLaneView<C>,
    took: bool,
) -> bool {
    &&& took ==> before.entries.len() > 0 && after.entries == before.entries.subrange(
        1,
        before.entries.len() as int,
    ) && after.storage.taken == before.storage.taken + 1
    &&& !took ==> after.entries == before.entries && after.storage.taken
        == before.storage.taken
    &&& after.senders == before.senders
    &&& after.walking == before.walking
    &&& after.storage.last == before.storage.last
    &&& before.storage.first <= after.storage.first
    &&& before.storage.cursor <= after.storage.cursor <= before.storage.cursor + 1
    &&& after.storage.first == before.storage.first || after.storage.first
        == after.storage.cursor
    &&& before.walking.len() > 0 ==> after.storage.first == before.storage.first
}

/// What left the user lane between the two: the oldest item if `took`, which lets
/// one waiting producer go, and else nothing.
pub open spec fn user_moved<U>(
    before: UserLaneView<U>,
    after: UserLaneView<U>,
    took: bool,
) -> bool {
    &&& took ==> {
        &&& before.entries.len() > 0
        &&& after.entries == before.entries.subrange(1, before.entries.len() as int)
        &&& after.popped == before.popped + 1
        &&& after.capacity == before.capacity
        &&& after.senders == before.senders
        &&& after.waiting == before.waiting
        &&& before.waiting > 0 ==> crate::wakeup_laws::reached(
            before.send_notify,
            after.send_notify,
            1,
        )
        &&& before.waiting == 0 ==> after.send_notify == before.send_notify
    }
    &&& !took ==> after == before
}

/// The policy's own functions keep the count: a fresh one starts at zero, a control
/// adds one up to the cap, a user item and the marker end the streak, a user is due
/// exactly at the cap, and the marker exactly once.
pub proof fn law_policy_keeps_the_count()
    ensures
        forall|cap: usize, p: Policy| #[trigger]
            call_ensures(Policy::new, (cap,), p) ==> p@.cap == cap && p@.streak == 0
                && !p@.reported,
        forall|p: &Policy, due: bool| #[trigger]
            call_ensures(Policy::aging_due, (p,), due) ==> (due <==> p@.cap > 0 && p@.cap
                <= p@.streak),
        forall|p: &Policy, closed: bool, pending: bool| #[trigger]
            call_ensures(Policy::marker_pending, (p, closed), pending) ==> (pending <==> closed
                && !p@.reported),
        forall|p: &mut Policy| #[trigger]
            call_ensures(Policy::note_control, (p,), ()) ==> {
                &&& (*final(p))@.cap == (*p)@.cap
                &&& (*final(p))@.reported == (*p)@.reported
                &&& (*p)@.streak < (*p)@.cap ==> (*final(p))@.streak == (*p)@.streak + 1
                &&& (*p)@.streak >= (*p)@.cap ==> (*final(p))@.streak == (*p)@.streak
            },
        forall|p: &mut Policy| #[trigger]
            call_ensures(Policy::note_user, (p,), ()) ==> {
                &&& (*final(p))@.cap == (*p)@.cap
                &&& (*final(p))@.reported == (*p)@.reported
                &&& (*final(p))@.streak == 0
            },
        forall|p: &mut Policy| #[trigger]
            call_ensures(Policy::note_marker, (p,), ()) ==> {
                &&& (*final(p))@.cap == (*p)@.cap
                &&& (*final(p))@.reported
                &&& (*final(p))@.streak == 0
            },
{
}

/// `answer` hands a control out.
pub open spec fn gives_control<C, U>(answer: Step<Option<Received<C, U>>>) -> bool {
    answer matches Step::Ready(Some(Received::Control(_)))
}

/// `answer` hands a user item out.
pub open spec fn gives_user<C, U>(answer: Step<Option<Received<C, U>>>) -> bool {
    answer matches Step::Ready(Some(Received::User(_)))
}

/// A look at both lanes gives the right answer, where a user goes first exactly once
/// the streak has reached a cap that is not zero; takes what it answers and nothing
/// else; counts it; and touches neither wakeups of the consumer nor registrations.
pub proof fn law_attempt_gives_the_right_item<C, U>()
    ensures
        forall|
            me: &mut Consumer<C, U>,
            ch: &mut Channel<C, U>,
            step: Step<Option<Received<C, U>>>,
        | #[trigger]
            call_ensures(Consumer::<C, U>::attempt, (me, ch), step) ==> {
                let before = (*ch)@;
                let after = (*final(ch))@;
                let policy = (*me)@.policy;
                &&& right_answer(
                    before,
                    policy,
                    policy.cap > 0 && policy.cap <= policy.streak,
                    step,
                )
                &&& counted(policy, (*final(me))@.policy, step)
                &&& (*final(me))@.registered == (*me)@.registered
                &&& (*final(me)).of() == (*me).of()
                &&& control_moved(before.control, after.control, gives_control(step))
                &&& user_moved(before.user, after.user, gives_user(step))
                &&& after.core == before.core
                &&& after.id == before.id
            },
{
}

/// Announcing adds the consumer's registration and its word that it is about to
/// sleep, and changes nothing else.
pub proof fn law_announcement_changes_the_wakeup_point_alone<C, U>()
    ensures
        forall|me: &mut Consumer<C, U>, ch: &mut Channel<C, U>| #[trigger]
            call_ensures(Consumer::<C, U>::announce, (me, ch), ()) ==> {
                let before = (*ch)@;
                let after = (*final(ch))@;
                &&& (*final(me))@.registered
                &&& (*final(me))@.policy == (*me)@.policy
                &&& (*final(me)).of() == (*me).of()
                &&& after.control == before.control
                &&& after.user == before.user
                &&& after.id == before.id
                &&& after.core.parked
                &&& after.core.consumer_gone == before.core.consumer_gone
                &&& after.core.notify.enabled == before.core.notify.enabled + 1
                &&& after.core.notify.woken == before.core.notify.woken
                &&& after.core.notify.permit == before.core.notify.permit
            },
{
}

/// The second look gives the right answer with control first, whatever the streak;
/// if there is something, the registration and the announcement are taken back, and
/// if there is nothing, one waiting producer is let go.
pub proof fn law_second_look_gives_the_right_item<C, U>()
    ensures
        forall|
            me: &mut Consumer<C, U>,
            ch: &mut Channel<C, U>,
            step: Step<Option<Received<C, U>>>,
        |
            (*ch)@.core.notify.enabled + (*ch)@.core.notify.woken > 0
                && #[trigger] call_ensures(Consumer::<C, U>::recheck, (me, ch), step) ==> {
                let before = (*ch)@;
                let after = (*final(ch))@;
                &&& right_answer(before, (*me)@.policy, false, step)
                &&& counted((*me)@.policy, (*final(me))@.policy, step)
                &&& (*final(me))@.registered == (step is Pending)
                &&& (*final(me)).of() == (*me).of()
                &&& control_moved(before.control, after.control, gives_control(step))
                &&& after.id == before.id
                &&& step is Ready ==> {
                    &&& user_moved(before.user, after.user, gives_user(step))
                    &&& !after.core.parked
                    &&& after.core.consumer_gone == before.core.consumer_gone
                    &&& crate::wakeup_laws::left(before.core.notify, after.core.notify)
                }
                &&& step is Pending ==> {
                    &&& after.core == before.core
                    &&& one_producer_let_go(before.user, after.user)
                }
            },
{
}

/// One waiting producer was let go between the two, if there is one, and nothing
/// else changed.
pub open spec fn one_producer_let_go<U>(before: UserLaneView<U>, after: UserLaneView<U>) -> bool {
    &&& after == (UserLaneView { send_notify: after.send_notify, ..before })
    &&& before.waiting > 0 ==> crate::wakeup_laws::reached(
        before.send_notify,
        after.send_notify,
        1,
    )
    &&& before.waiting == 0 ==> after.send_notify == before.send_notify
}

/// The consumer went on between the two: its registration and its announcement are
/// gone.
pub open spec fn went_on<C, U>(before: ChannelView<C, U>, after: ChannelView<C, U>) -> bool {
    &&& !after.core.parked
    &&& after.core.consumer_gone == before.core.consumer_gone
    &&& crate::wakeup_laws::let_through(before.core.notify, after.core.notify)
}

/// A sleeping consumer goes on exactly if it was notified, and one that does not
/// sleep always does; no item moves.
pub proof fn law_consumer_goes_on_exactly_if_notified<C, U>()
    ensures
        forall|me: &mut Consumer<C, U>, ch: &mut Channel<C, U>, awake: bool|
            ((*me)@.registered ==> (*ch)@.core.notify.enabled + (*ch)@.core.notify.woken > 0)
                && #[trigger] call_ensures(Consumer::<C, U>::resume, (me, ch), awake) ==> {
                let before = (*ch)@;
                let after = (*final(ch))@;
                &&& awake <==> !(*me)@.registered || crate::wakeup_laws::passable(
                    before.core.notify,
                )
                &&& (*final(me))@.policy == (*me)@.policy
                &&& (*final(me))@.registered == !awake
                &&& (*final(me)).of() == (*me).of()
                &&& after.control == before.control
                &&& after.user == before.user
                &&& after.id == before.id
                &&& awake && (*me)@.registered ==> went_on(before, after)
                &&& !(awake && (*me)@.registered) ==> after.core == before.core
            },
{
}

/// A receive: while the consumer sleeps unnotified, nothing happens. Else it gives
/// the right answer, where a user goes first exactly once the streak has reached a
/// cap that is not zero, takes what it answers and nothing else, and counts it. It
/// waits exactly if there is nothing to give, and is then registered and announced,
/// and has let one waiting producer go.
pub proof fn law_receive_gives_the_right_item<C, U>()
    ensures
        forall|
            me: &mut Consumer<C, U>,
            ch: &mut Channel<C, U>,
            step: Step<Option<Received<C, U>>>,
        |
            ((*me)@.registered ==> (*ch)@.core.notify.enabled + (*ch)@.core.notify.woken > 0)
                && #[trigger] call_ensures(Consumer::<C, U>::recv, (me, ch), step) ==> {
                let before = (*ch)@;
                let after = (*final(ch))@;
                let policy = (*me)@.policy;
                let was = (*me)@.registered;
                let asleep = was && !crate::wakeup_laws::passable(before.core.notify);
                &&& asleep ==> {
                    &&& step is Pending
                    &&& after == before
                    &&& (*final(me))@ == (*me)@
                }
                &&& !asleep ==> {
                    &&& right_answer(
                        before,
                        policy,
                        policy.cap > 0 && policy.cap <= policy.streak,
                        step,
                    )
                    &&& counted(policy, (*final(me))@.policy, step)
                    &&& control_moved(before.control, after.control, gives_control(step))
                    &&& step is Ready ==> {
                        &&& user_moved(before.user, after.user, gives_user(step))
                        &&& was ==> went_on(before, after)
                        &&& !was ==> after.core == before.core
                    }
                    &&& step is Pending ==> one_producer_let_go(before.user, after.user)
                    &&& step is Pending ==> waits_anew(before, after, was)
                }
                &&& (*final(me))@.registered == (step is Pending)
                &&& (*final(me)).of() == (*me).of()
                &&& after.id == before.id
            },
{
}

/// A receive that found nothing registered between the two, after it went on if it
/// was registered before.
pub open spec fn waits_anew<C, U>(
    before: ChannelView<C, U>,
    after: ChannelView<C, U>,
    was: bool,
) -> bool {
    let n = before.core.notify;
    let now = after.core.notify;
    &&& after.core.parked
    &&& after.core.consumer_gone == before.core.consumer_gone
    &&& !was ==> now.enabled == n.enabled + 1 && now.woken == n.woken && now.permit == n.permit
    &&& was ==> {
        &&& now.enabled + now.woken == n.enabled + n.woken
        &&& !now.permit
        &&& n.permit && n.enabled > 0 ==> now.woken == n.woken
        &&& !(n.permit && n.enabled > 0) ==> now.woken + 1 == n.woken
    }
}

/// The oldest ready control, the end of a control lane without senders, or nothing
/// yet: what a control-only look answers, whatever the streak and the user lane.
pub open spec fn right_control_answer<C, U>(
    ch: ChannelView<C, U>,
    answer: Step<Option<C>>,
) -> bool {
    &&& forall|c: C| #[trigger]
        head(ch.control.entries) == Some(c) <==> answer == Step::Ready(Some(c))
    &&& head(ch.control.entries) is None && ch.control.senders == 0 <==> answer == Step::Ready(
        None::<C>,
    )
    &&& head(ch.control.entries) is None && ch.control.senders > 0 <==> answer is Pending
}

/// A control-only receive gives the oldest ready control whatever the streak and the
/// user lane, takes it and nothing else, and leaves the user lane, the producers that
/// wait there and the policy exactly as they are; and so do its single looks.
pub proof fn law_control_only_receive_gives_every_control<C, U>()
    ensures
        forall|me: &mut Consumer<C, U>, ch: &mut Channel<C, U>, step: Step<Option<C>>| #[trigger]
            call_ensures(Consumer::<C, U>::attempt_control, (me, ch), step) ==> {
                let before = (*ch)@;
                let after = (*final(ch))@;
                &&& right_control_answer(before, step)
                &&& (*final(me))@ == (*me)@
                &&& (*final(me)).of() == (*me).of()
                &&& control_moved(
                    before.control,
                    after.control,
                    step matches Step::Ready(Some(_)),
                )
                &&& after.user == before.user
                &&& after.core == before.core
                &&& after.id == before.id
            },
        forall|me: &mut Consumer<C, U>, ch: &mut Channel<C, U>, step: Step<Option<C>>|
            (*ch)@.core.notify.enabled + (*ch)@.core.notify.woken > 0
                && #[trigger] call_ensures(Consumer::<C, U>::recheck_control, (me, ch), step)
                ==> {
                let before = (*ch)@;
                let after = (*final(ch))@;
                &&& right_control_answer(before, step)
                &&& (*final(me))@ == (ConsumerView {
                    policy: (*me)@.policy,
                    registered: step is Pending,
                })
                &&& (*final(me)).of() == (*me).of()
                &&& control_moved(
                    before.control,
                    after.control,
                    step matches Step::Ready(Some(_)),
                )
                &&& after.user == before.user
                &&& after.id == before.id
                &&& step is Pending ==> after.core == before.core
                &&& step is Ready ==> {
                    &&& !after.core.parked
                    &&& after.core.consumer_gone == before.core.consumer_gone
                    &&& crate::wakeup_laws::left(before.core.notify, after.core.notify)
                }
            },
        forall|me: &mut Consumer<C, U>, ch: &mut Channel<C, U>, step: Step<Option<C>>|
            ((*me)@.registered ==> (*ch)@.core.notify.enabled + (*ch)@.core.notify.woken > 0)
                && #[trigger] call_ensures(Consumer::<C, U>::recv_control, (me, ch), step) ==> {
                let before = (*ch)@;
                let after = (*final(ch))@;
                let was = (*me)@.registered;
                let asleep = was && !crate::wakeup_laws::passable(before.core.notify);
                &&& asleep ==> step is Pending && after == before
                &&& !asleep ==> {
                    &&& right_control_answer(before, step)
                    &&& control_moved(
                        before.control,
                        after.control,
                        step matches Step::Ready(Some(_)),
                    )
                    &&& step is Ready && was ==> went_on(before, after)
                    &&& step is Ready && !was ==> after.core == before.core
                    &&& step is Pending ==> waits_anew(before, after, was)
                }
                &&& (*final(me))@ == (ConsumerView {
                    policy: (*me)@.policy,
                    registered: step is Pending,
                })
                &&& (*final(me)).of() == (*me).of()
                &&& after.user == before.user
                &&& after.id == before.id
            },
{
}

/// Giving a receive up takes its registration away and nothing else: no item moves,
/// the policy stays, and a wakeup that had arrived is kept.
pub proof fn law_giving_a_receive_up_moves_nothing<C, U>()
    ensures
        forall|me: &mut Consumer<C, U>, ch: &mut Channel<C, U>|
            ((*me)@.registered ==> (*ch)@.core.notify.enabled + (*ch)@.core.notify.woken > 0)
                && #[trigger] call_ensures(Consumer::<C, U>::cancel, (me, ch), ()) ==> {
                let before = (*ch)@;
                let after = (*final(ch))@;
                &&& (*final(me))@ == (ConsumerView {
                    policy: (*me)@.policy,
                    registered: false,
                })
                &&& (*final(me)).of() == (*me).of()
                &&& after.control == before.control
                &&& after.user == before.user
                &&& after.id == before.id
                &&& after.core.parked == before.core.parked
                &&& after.core.consumer_gone == before.core.consumer_gone
                &&& (*me)@.registered ==> crate::wakeup_laws::left(
                    before.core.notify,
                    after.core.notify,
                )
                &&& !(*me)@.registered ==> after.core.notify == before.core.notify
            },
{
}

/// The consumer went away between the two: every waiting producer was let go, and
/// whoever waits at the consumer's own wakeup point was notified once; where it was
/// gone before, nothing changed.
pub open spec fn consumer_left<C, U>(before: ChannelView<C, U>, after: ChannelView<C, U>) -> bool {
    &&& after.core.consumer_gone
    &&& after.core.parked == before.core.parked
    &&& after.id == before.id
    &&& after.user.capacity == before.user.capacity
    &&& after.user.waiting == before.user.waiting
    &&& after.user.senders == before.user.senders
    &&& after.control.senders == before.control.senders
    &&& after.control.walking == before.control.walking
    &&& before.core.consumer_gone ==> {
        &&& after.core == before.core
        &&& after.user.send_notify == before.user.send_notify
    }
    &&& !before.core.consumer_gone ==> {
        &&& crate::wakeup_laws::reached(before.core.notify, after.core.notify, 1)
        &&& after.user.send_notify.enabled == 0
        &&& after.user.send_notify.woken == before.user.send_notify.enabled
            + before.user.send_notify.woken
        &&& after.user.send_notify.permit == before.user.send_notify.permit
    }
}

/// `taken` is everything that can be taken off a lane: its first items, up to the
/// first one that is not published, in order.
pub open spec fn all_that_is_ready<T>(entries: Seq<Option<T>>, taken: Seq<T>) -> bool {
    &&& taken.len() <= entries.len()
    &&& forall|k: int| 0 <= k < taken.len() ==> entries[k] == Some(#[trigger] taken[k])
    &&& taken.len() < entries.len() ==> entries[taken.len() as int] is None
}

/// What can be taken is what the entries say.
pub proof fn lemma_ready_prefix<T>(entries: Seq<Option<T>>)
    ensures
        all_that_is_ready(entries, crate::entries::ready_prefix(entries)),
    decreases entries.len(),
{
    if entries.len() > 0 && entries[0] is Some {
        let rest = entries.drop_first();
        let taken = crate::entries::ready_prefix(rest);
        lemma_ready_prefix(rest);
        let all = crate::entries::ready_prefix(entries);
        assert forall|k: int| 0 <= k < all.len() implies entries[k] == Some(#[trigger] all[k]) by {
            if k > 0 {
                assert(entries[k] == rest[k - 1]);
                assert(all[k] == taken[k - 1]);
            }
        }
        if all.len() < entries.len() {
            assert(entries[all.len() as int] == rest[taken.len() as int]);
        }
    }
}

/// Dropping the consumer moves no item and lets every waiting producer go; draining
/// it does the same and returns everything that is ready on both lanes, oldest
/// first, and leaves only what comes after.
pub proof fn law_end_of_the_consumer_returns_what_is_ready<C, U>()
    ensures
        forall|me: Consumer<C, U>, ch: &mut Channel<C, U>| #[trigger]
            call_ensures(Consumer::<C, U>::drop, (me, ch), ()) ==> {
                let before = (*ch)@;
                let after = (*final(ch))@;
                &&& consumer_left(before, after)
                &&& after.control == before.control
                &&& after.user.entries == before.user.entries
                &&& after.user.popped == before.user.popped
            },
        forall|me: Consumer<C, U>, ch: &mut Channel<C, U>, drained: Drained<C, U>| #[trigger]
            call_ensures(Consumer::<C, U>::drain, (me, ch), drained) ==> {
                let before = (*ch)@;
                let after = (*final(ch))@;
                let controls = drained.control@.len();
                let users = drained.user@.len();
                &&& consumer_left(before, after)
                &&& all_that_is_ready(before.control.entries, drained.control@)
                &&& all_that_is_ready(before.user.entries, drained.user@)
                &&& after.control.entries == before.control.entries.skip(controls as int)
                &&& after.user.entries == before.user.entries.skip(users as int)
                &&& after.user.popped == before.user.popped + users
                &&& after.control.storage.taken == before.control.storage.taken + controls
            },
{
    assert forall|me: Consumer<C, U>, ch: &mut Channel<C, U>, drained: Drained<C, U>| #[trigger]
        call_ensures(Consumer::<C, U>::drain, (me, ch), drained) implies {
        let before = (*ch)@;
        let after = (*final(ch))@;
        &&& consumer_left(before, after)
        &&& all_that_is_ready(before.control.entries, drained.control@)
        &&& all_that_is_ready(before.user.entries, drained.user@)
        &&& after.control.entries == before.control.entries.skip(
            drained.control@.len() as int,
        )
        &&& after.control.storage.taken == before.control.storage.taken
            + drained.control@.len()
    } by {
        lemma_ready_prefix((*ch)@.control.entries);
        lemma_ready_prefix((*ch)@.user.entries);
        crate::control_lane::lemma_emptied((*ch)@.control);
        lemma_emptied_counts((*ch)@.control);
    }
}

/// Emptying a lane counts what it takes.
pub proof fn lemma_emptied_counts<C>(v: ControlLaneView<C>)
    ensures
        v.emptied().storage.taken == v.storage.taken + crate::entries::ready_prefix(
            v.entries,
        ).len(),
    decreases v.entries.len(),
{
    if v.entries.len() > 0 && v.entries[0] is Some {
        lemma_emptied_counts(v.after_pop());
    }
}

/// A lane that nobody can use any more, since its senders and the consumer are gone,
/// gives up everything that is ready, and any other lane gives up nothing and stays
/// as it is. A channel that is thrown away gives up every published item, oldest
/// first.
pub proof fn law_channel_gives_up_what_nobody_can_use<C, U>()
    ensures
        forall|ch: &mut Channel<C, U>, left: Drained<C, U>| #[trigger]
            call_ensures(Channel::<C, U>::release_unused, (ch,), left) ==> {
                let before = (*ch)@;
                let after = (*final(ch))@;
                let gone = before.core.consumer_gone;
                &&& after.core == before.core
                &&& after.id == before.id
                &&& after.user == (UserLaneView {
                    entries: after.user.entries,
                    popped: before.user.popped + left.user@.len(),
                    ..before.user
                })
                &&& after.user.entries == before.user.entries.skip(left.user@.len() as int)
                &&& gone && before.user.senders == 0 ==> all_that_is_ready(
                    before.user.entries,
                    left.user@,
                )
                &&& !(gone && before.user.senders == 0) ==> left.user@.len() == 0
                &&& gone && before.control.senders == 0 ==> {
                    &&& all_that_is_ready(before.control.entries, left.control@)
                    &&& after.control.entries == before.control.entries.skip(
                        left.control@.len() as int,
                    )
                }
                &&& !(gone && before.control.senders == 0) ==> {
                    &&& left.control@.len() == 0
                    &&& after.control == before.control
                }
            },
        forall|ch: Channel<C, U>, left: Drained<C, U>| #[trigger]
            call_ensures(Channel::<C, U>::into_unconsumed, (ch,), left) ==> {
                &&& left.control@ == all_that_is_published(ch@.control.entries)
                &&& left.user@ == all_that_is_published(ch@.user.entries)
            },
{
    assert forall|ch: &mut Channel<C, U>, left: Drained<C, U>| #[trigger]
        call_ensures(Channel::<C, U>::release_unused, (ch,), left) implies {
        let before = (*ch)@;
        let after = (*final(ch))@;
        let gone = before.core.consumer_gone;
        &&& gone && before.user.senders == 0 ==> all_that_is_ready(
            before.user.entries,
            left.user@,
        )
        &&& gone && before.control.senders == 0 ==> {
            &&& all_that_is_ready(before.control.entries, left.control@)
            &&& after.control.entries == before.control.entries.skip(
                left.control@.len() as int,
            )
        }
    } by {
        lemma_ready_prefix((*ch)@.control.entries);
        lemma_ready_prefix((*ch)@.user.entries);
        crate::control_lane::lemma_emptied((*ch)@.control);
    }
    assert forall|ch: Channel<C, U>, left: Drained<C, U>| #[trigger]
        call_ensures(Channel::<C, U>::into_unconsumed, (ch,), left) implies {
        &&& left.control@ == all_that_is_published(ch@.control.entries)
        &&& left.user@ == all_that_is_published(ch@.user.entries)
    } by {
        lemma_published(ch@.control.entries);
        lemma_published(ch@.user.entries);
    }
}

/// The published items among the entries, in order.
pub open spec fn all_that_is_published<T>(entries: Seq<Option<T>>) -> Seq<T> {
    entries.filter(|e: Option<T>| e is Some).map_values(|e: Option<T>| e->0)
}

/// What is published is what the entries say.
pub proof fn lemma_published<T>(entries: Seq<Option<T>>)
    ensures
        crate::entries::published(entries) == all_that_is_published(entries),
    decreases entries.len(),
{
    let keep = |e: Option<T>| e is Some;
    if entries.len() > 0 {
        let rest = entries.drop_first();
        lemma_published(rest);
        let first = seq![entries[0]];
        assert(entries =~= first + rest);
        Seq::<Option<T>>::filter_distributes_over_add(first, rest, keep);
        assert(first.drop_last() =~= Seq::<Option<T>>::empty());
        reveal_with_fuel(Seq::filter, 2);
        assert(first.filter(keep) =~= if entries[0] is Some {
            first
        } else {
            Seq::empty()
        });
        assert(all_that_is_published(entries) =~= (if entries[0] is Some {
            seq![entries[0]->0]
        } else {
            Seq::empty()
        }) + all_that_is_published(rest));
        assert(Seq::<T>::empty() + all_that_is_published(rest) =~= all_that_is_published(rest));
    } else {
        reveal_with_fuel(Seq::filter, 1);
        assert(all_that_is_published(entries) =~= Seq::<T>::empty());
    }
}

/// The consumer can receive from its own channel at any time, whatever is queued there
/// and whoever is left, and can be given up at any time.
pub proof fn law_receives_can_always_be_made<C, U>()
    ensures
        forall|me: &mut Consumer<C, U>, ch: &mut Channel<C, U>|
            (*me).wf() && (*ch).wf() && (*me).attends((*ch)@) ==> {
                &&& #[trigger] call_requires(Consumer::<C, U>::recv, (me, ch))
                &&& call_requires(Consumer::<C, U>::recv_control, (me, ch))
                &&& call_requires(Consumer::<C, U>::cancel, (me, ch))
            },
        forall|me: Consumer<C, U>, ch: &mut Channel<C, U>|
            (*ch).wf() && me.of() == (*ch)@.id ==> {
                &&& #[trigger] call_requires(Consumer::<C, U>::drain, (me, ch))
                &&& call_requires(Consumer::<C, U>::drop, (me, ch))
            },
        forall|me: &Consumer<C, U>, ch: ChannelView<C, U>|
            me.of() == ch.id && ch.core.notify.enabled + ch.core.notify.woken == (if
            me@.registered {
                1int
            } else {
                0int
            }) ==> #[trigger] me.attends(ch),
{
}

} // verus!
