use crate::channel::Step;
use crate::flume_lane::{LaneSender, Offered, Polled};
use crate::reference::{
    channel, control_send_answer, drain_answer, send_answer, send_upgraded, try_send_answer,
    try_send_upgraded, Consumer, ControlSender, Merger, MergerView, UserAnchor, UserSender,
};
use crate::types::{Config, ControlClosed, Drained, Received, TrySendError, UserClosed};
use vstd::prelude::*;

verus! {

/// The items among the answers of a lane, in order.
pub open spec fn items_given<T>(answers: Seq<Polled<T>>) -> Seq<T> {
    answers.filter(|p: Polled<T>| p is Item).map_values(|p: Polled<T>| p->Item_0)
}

/// The item of one answer, if it has one.
pub open spec fn item_of<T>(polled: Polled<T>) -> Seq<T> {
    if polled is Item {
        seq![polled->Item_0]
    } else {
        Seq::empty()
    }
}

/// One more answer gives its item.
proof fn lemma_one_more_answer<T>(answers: Seq<Polled<T>>, polled: Polled<T>)
    ensures
        items_given(answers.push(polled)) == items_given(answers) + item_of(polled),
{
    let keep = |p: Polled<T>| p is Item;
    let all = answers.push(polled);
    assert(all.drop_last() =~= answers);
    assert(all.last() == polled);
    reveal_with_fuel(Seq::filter, 2);
    assert(all.filter(keep) == if polled is Item {
        answers.filter(keep).push(polled)
    } else {
        answers.filter(keep)
    });
    assert(items_given(all) =~= items_given(answers) + item_of(polled));
}

/// The answers that came in between the two logs.
pub open spec fn asked<T>(before: Seq<Polled<T>>, after: Seq<Polled<T>>) -> Seq<Polled<T>> {
    after.skip(before.len() as int)
}

/// The control that was handed out, if one was.
pub open spec fn control_out<C, U>(answer: Step<Option<Received<C, U>>>) -> Seq<C> {
    match answer {
        Step::Ready(Some(Received::Control(c))) => seq![c],
        _ => Seq::empty(),
    }
}

/// The user item that was handed out, if one was.
pub open spec fn user_out<C, U>(answer: Step<Option<Received<C, U>>>) -> Seq<U> {
    match answer {
        Step::Ready(Some(Received::User(u))) => seq![u],
        _ => Seq::empty(),
    }
}

/// The answer of the user lane becomes: its item, whatever else is remembered; or
/// the end-marker, exactly if the lane is known to be closed and the marker is not
/// out; or nothing. The answer of the control lane becomes its item or nothing.
/// Closures are remembered, and what is handed out is counted.
pub proof fn law_merger_hands_on_every_item<C, U>()
    ensures
        forall|m: &mut Merger, polled: Polled<U>, taken: Option<Received<C, U>>| #[trigger]
            call_ensures(Merger::user_polled::<C, U>, (m, polled), taken) ==> {
                let before = (*m)@;
                let after = (*final(m))@;
                &&& polled matches Polled::Item(u) ==> taken == Some(Received::<C, U>::User(u))
                &&& !(polled is Item) ==> (taken is Some <==> !before.policy.reported && (
                before.usr_closed || polled is Disconnected))
                &&& !(polled is Item) && taken is Some ==> taken->0 is UserLaneClosed
                &&& after.usr_closed == (before.usr_closed || polled is Disconnected)
                &&& after.ctl_closed == before.ctl_closed
                &&& crate::receiving_laws::counted(
                    before.policy,
                    after.policy,
                    Step::Ready(taken),
                )
            },
        forall|m: &mut Merger, polled: Polled<C>, taken: Option<Received<C, U>>| #[trigger]
            call_ensures(Merger::control_polled::<C, U>, (m, polled), taken) ==> {
                let before = (*m)@;
                let after = (*final(m))@;
                &&& polled matches Polled::Item(c) ==> taken == Some(
                    Received::<C, U>::Control(c),
                )
                &&& !(polled is Item) ==> taken is None
                &&& after.ctl_closed == (before.ctl_closed || polled is Disconnected)
                &&& after.usr_closed == before.usr_closed
                &&& crate::receiving_laws::counted(
                    before.policy,
                    after.policy,
                    Step::Ready(taken),
                )
            },
        forall|m: &mut Merger, polled: Polled<C>, step: Step<Option<C>>| #[trigger]
            call_ensures(Merger::control_only_polled::<C>, (m, polled), step) ==> {
                &&& control_only_hands_on(polled, step)
                &&& (*final(m))@.policy == (*m)@.policy
                &&& (*final(m))@.usr_closed == (*m)@.usr_closed
                &&& (*final(m))@.ctl_closed == ((*m)@.ctl_closed || polled is Disconnected)
            },
{
}

/// A control-only receive answers with exactly the item that the lane gave it,
/// whatever is remembered; that it is over exactly if the lane is; and waits exactly
/// on an empty lane.
pub open spec fn control_only_hands_on<C>(polled: Polled<C>, step: Step<Option<C>>) -> bool {
    &&& polled matches Polled::Item(c) ==> step == Step::Ready(Some(c))
    &&& polled is Disconnected <==> step == Step::Ready(None::<C>)
    &&& polled is Empty <==> step is Pending
}

/// What waiting for a lane gave is handed out, whatever is remembered, and counted;
/// a lane that gave nothing is closed from there on.
pub proof fn law_merger_hands_on_what_arrived<C, U>()
    ensures
        forall|m: &mut Merger, arrived: Option<C>, taken: Option<Received<C, U>>| #[trigger]
            call_ensures(Merger::control_awaited::<C, U>, (m, arrived), taken)
                ==> control_arrival((*m)@, (*final(m))@, arrived, taken),
        forall|m: &mut Merger, arrived: Option<U>, taken: Option<Received<C, U>>| #[trigger]
            call_ensures(Merger::user_awaited::<C, U>, (m, arrived), taken) ==> user_arrival(
                (*m)@,
                (*final(m))@,
                arrived,
                taken,
            ),
        forall|m: &Merger, finished: bool| #[trigger]
            call_ensures(Merger::finished, (m,), finished) ==> (finished <==> m@.ctl_closed
                && m@.usr_closed),
        forall|m: &Merger, awaits: bool| #[trigger]
            call_ensures(Merger::awaits_control, (m,), awaits) ==> (awaits
                <==> !m@.ctl_closed),
        forall|m: &Merger, awaits: bool| #[trigger]
            call_ensures(Merger::awaits_user, (m,), awaits) ==> (awaits <==> !m@.usr_closed),
        forall|m: &Merger, due: bool| #[trigger]
            call_ensures(Merger::aging_due, (m,), due) ==> (due <==> m@.policy.cap > 0
                && m@.policy.cap <= m@.policy.streak),
        forall|cap: usize, m: Merger| #[trigger]
            call_ensures(Merger::new, (cap,), m) ==> {
                &&& m@.policy.cap == cap
                &&& m@.policy.streak == 0
                &&& !m@.policy.reported
                &&& !m@.ctl_closed
                &&& !m@.usr_closed
            },
{
}

/// What an arrival on the control lane does.
pub open spec fn control_arrival<C, U>(
    before: MergerView,
    after: MergerView,
    arrived: Option<C>,
    taken: Option<Received<C, U>>,
) -> bool {
    &&& arrived matches Some(c) ==> taken == Some(Received::<C, U>::Control(c))
    &&& arrived is None ==> taken is None
    &&& after.ctl_closed == (before.ctl_closed || arrived is None)
    &&& after.usr_closed == before.usr_closed
    &&& crate::receiving_laws::counted(before.policy, after.policy, Step::Ready(taken))
}

/// What an arrival on the user lane does.
pub open spec fn user_arrival<C, U>(
    before: MergerView,
    after: MergerView,
    arrived: Option<U>,
    taken: Option<Received<C, U>>,
) -> bool {
    &&& arrived matches Some(u) ==> taken == Some(Received::<C, U>::User(u))
    &&& arrived is None ==> taken is None
    &&& after.usr_closed == (before.usr_closed || arrived is None)
    &&& after.ctl_closed == before.ctl_closed
    &&& crate::receiving_laws::counted(before.policy, after.policy, Step::Ready(taken))
}

/// The consumer of a flume pair hands on what waiting gave it, and asks its lanes
/// nothing meanwhile.
pub proof fn law_pair_hands_on_what_arrived<C, U>()
    ensures
        forall|
            me: &mut Consumer<C, U>,
            arrived: Option<C>,
            taken: Option<Received<C, U>>,
        | #[trigger]
            call_ensures(Consumer::<C, U>::control_awaited, (me, arrived), taken) ==> {
                &&& control_arrival((*me).state(), (*final(me)).state(), arrived, taken)
                &&& (*final(me)).control() == (*me).control()
                &&& (*final(me)).user() == (*me).user()
            },
        forall|
            me: &mut Consumer<C, U>,
            arrived: Option<U>,
            taken: Option<Received<C, U>>,
        | #[trigger]
            call_ensures(Consumer::<C, U>::user_awaited, (me, arrived), taken) ==> {
                &&& user_arrival((*me).state(), (*final(me)).state(), arrived, taken)
                &&& (*final(me)).control() == (*me).control()
                &&& (*final(me)).user() == (*me).user()
            },
        forall|me: &mut Consumer<C, U>, arrived: Option<C>, taken: Option<C>| #[trigger]
            call_ensures(Consumer::<C, U>::control_only_awaited, (me, arrived), taken) ==> {
                &&& taken == arrived
                &&& (*final(me)).state().policy == (*me).state().policy
                &&& (*final(me)).state().usr_closed == (*me).state().usr_closed
                &&& (*final(me)).state().ctl_closed == ((*me).state().ctl_closed
                    || arrived is None)
                &&& (*final(me)).control() == (*me).control()
                &&& (*final(me)).user() == (*me).user()
            },
        forall|me: Consumer<C, U>, drained: Drained<C, U>| #[trigger]
            call_ensures(Consumer::<C, U>::drain, (me,), drained) ==> {
                &&& me.control().drain_gives(drained.control)
                &&& me.user().drain_gives(drained.user)
            },
        forall|control: Vec<C>, user: Vec<U>, drained: Drained<C, U>| #[trigger]
            call_ensures(drain_answer::<C, U>, (control, user), drained) ==> drained.control@
                == control@ && drained.user@ == user@,
{
}

/// What a receive of a flume pair does, over what its lanes were asked and answered.
///
/// Every item that a lane gives is handed out, at once and in order, and nothing
/// else is. A user goes first exactly once the streak has reached a cap that is not
/// zero: else control is asked before the user lane is, and the user lane only if
/// control had nothing. The marker comes from a lane that is known to be closed, if
/// it is not out; it is held back by a control alone, and not once a user goes first.
/// `None` comes once both lanes are known to be closed, and waiting is for what is
/// left.
pub open spec fn right_turn<C, U>(
    before: MergerView,
    after: MergerView,
    controls: (Seq<Polled<C>>, Seq<Polled<C>>),
    users: (Seq<Polled<U>>, Seq<Polled<U>>),
    step: Step<Option<Received<C, U>>>,
) -> bool {
    let forced = before.policy.cap > 0 && before.policy.cap <= before.policy.streak;
    let asked_controls = asked(controls.0, controls.1);
    let asked_users = asked(users.0, users.1);
    let out_of_turn = forced && (user_out(step).len() > 0 || step == Step::Ready(
        Some(Received::<C, U>::UserLaneClosed),
    ));
    &&& items_given(controls.1) == items_given(controls.0) + control_out(step)
    &&& items_given(users.1) == items_given(users.0) + user_out(step)
    &&& controls.0.is_prefix_of(controls.1)
    &&& users.0.is_prefix_of(users.1)
    &&& asked_controls.len() <= 1
    &&& asked_controls.len() == 0 ==> out_of_turn
    &&& asked_users.len() == 0 ==> !forced && control_out(step).len() > 0
    &&& !forced ==> asked_users.len() <= 1
    &&& !forced && asked_users.len() > 0 ==> asked_controls.len() == 1
        && !(asked_controls[0] is Item)
    &&& after.ctl_closed == (before.ctl_closed || asked_controls.contains(Polled::Disconnected))
    &&& after.usr_closed == (before.usr_closed || asked_users.contains(Polled::Disconnected))
    &&& step == Step::Ready(Some(Received::<C, U>::UserLaneClosed)) ==> after.usr_closed
        && !before.policy.reported
    &&& after.usr_closed && !after.policy.reported ==> !forced && control_out(step).len() > 0
        || user_out(step).len() > 0
    &&& step == Step::Ready(None::<Received<C, U>>) ==> after.ctl_closed && after.usr_closed
        && after.policy.reported
    &&& step is Pending ==> !(after.ctl_closed && after.usr_closed)
    &&& crate::receiving_laws::counted(before.policy, after.policy, step)
}

/// The new answers of a log.
proof fn lemma_asked<T>(before: Seq<Polled<T>>, more: Seq<Polled<T>>)
    ensures
        asked(before, before + more) == more,
        before.is_prefix_of(before + more),
{
    assert(asked(before, before + more) =~= more);
}

/// One turn is right.
proof fn lemma_turn_is_right<C, U>(
    m: MergerView,
    controls: Seq<Polled<C>>,
    users: Seq<Polled<U>>,
    aging: Polled<U>,
    control: Polled<C>,
    user: Polled<U>,
)
    ensures
        right_turn(
            m,
            m.after_turn(aging, control, user),
            (controls, controls + m.controls_asked(aging, control)),
            (users, users + m.users_asked(aging, control, user)),
            m.turn_answer(aging, control, user),
        ),
{
    let cs = m.controls_asked(aging, control);
    let us = m.users_asked(aging, control, user);
    lemma_asked(controls, cs);
    lemma_asked(users, us);
    lemma_one_more_answer(controls, control);
    lemma_one_more_answer(users, aging);
    lemma_one_more_answer(users, user);
    lemma_one_more_answer(users.push(aging), user);
    assert(controls + seq![control] =~= controls.push(control));
    assert(controls + Seq::<Polled<C>>::empty() =~= controls);
    assert(users + Seq::<Polled<U>>::empty() =~= users);
    assert(users + seq![aging] =~= users.push(aging));
    assert(users + Seq::<Polled<U>>::empty().push(user) =~= users.push(user));
    assert(users + seq![aging].push(user) =~= users.push(aging).push(user));
    assert(forall|s: Seq<C>| #[trigger] (s + Seq::<C>::empty()) =~= s);
    assert(forall|s: Seq<U>| #[trigger] (s + Seq::<U>::empty()) =~= s);
    if cs.len() > 0 {
        assert(cs[0] == control);
        assert(cs.contains(Polled::<C>::Disconnected) <==> control is Disconnected) by {
            if control is Disconnected {
                assert(cs[0] == Polled::<C>::Disconnected);
            }
        }
    }
    if us.len() == 1 {
        assert(us.contains(Polled::<U>::Disconnected) <==> us[0] is Disconnected) by {
            if us[0] is Disconnected {
                assert(us[0] == Polled::<U>::Disconnected);
            }
        }
    }
    if us.len() == 2 {
        assert(us.contains(Polled::<U>::Disconnected) <==> us[0] is Disconnected
            || us[1] is Disconnected) by {
            if us[0] is Disconnected {
                assert(us[0] == Polled::<U>::Disconnected);
            }
            if us[1] is Disconnected {
                assert(us[1] == Polled::<U>::Disconnected);
            }
        }
    }
}

/// `Consumer::recv` of a flume pair does the right thing with whatever its lanes
/// answer.
pub proof fn law_pair_receive_hands_out_what_the_lanes_give<C, U>()
    ensures
        forall|me: &mut Consumer<C, U>, step: Step<Option<Received<C, U>>>| #[trigger]
            call_ensures(Consumer::<C, U>::recv, (me,), step) ==> {
                &&& right_turn(
                    (*me).state(),
                    (*final(me)).state(),
                    ((*me).control().answers(), (*final(me)).control().answers()),
                    ((*me).user().answers(), (*final(me)).user().answers()),
                    step,
                )
                &&& (*final(me)).control().lane() == (*me).control().lane()
                &&& (*final(me)).control().raw() == (*me).control().raw()
                &&& (*final(me)).user().lane() == (*me).user().lane()
                &&& (*final(me)).user().raw() == (*me).user().raw()
            },
{
    assert forall|me: &mut Consumer<C, U>, step: Step<Option<Received<C, U>>>| #[trigger]
        call_ensures(Consumer::<C, U>::recv, (me,), step) implies right_turn(
        (*me).state(),
        (*final(me)).state(),
        ((*me).control().answers(), (*final(me)).control().answers()),
        ((*me).user().answers(), (*final(me)).user().answers()),
        step,
    ) by {
        let m = (*me).state();
        let (aging, control, user) = choose|
            aging: Polled<U>,
            control: Polled<C>,
            user: Polled<U>,
        |
            {
                &&& step == m.turn_answer(aging, control, user)
                &&& #[trigger] m.after_turn(aging, control, user) == (*final(me)).state()
                &&& (*final(me)).control().answers() == (*me).control().answers()
                    + m.controls_asked(aging, control)
                &&& (*final(me)).user().answers() == (*me).user().answers() + m.users_asked(
                    aging,
                    control,
                    user,
                )
            };
        lemma_turn_is_right(
            m,
            (*me).control().answers(),
            (*me).user().answers(),
            aging,
            control,
            user,
        );
    }
}

/// `Consumer::recv_control` of a flume pair hands out every item that the control lane
/// gives it, whatever the policy remembers, asks the user lane nothing, and leaves the
/// policy alone. A control lane that is known to be closed is not asked again.
pub proof fn law_pair_control_receive_hands_out_what_the_lane_gives<C, U>()
    ensures
        forall|me: &mut Consumer<C, U>, step: Step<Option<C>>| #[trigger]
            call_ensures(Consumer::<C, U>::recv_control, (me,), step) ==> {
                let before = (*me).state();
                let after = (*final(me)).state();
                let new = asked((*me).control().answers(), (*final(me)).control().answers());
                &&& items_given((*final(me)).control().answers()) == items_given(
                    (*me).control().answers(),
                ) + (match step {
                    Step::Ready(Some(c)) => seq![c],
                    _ => Seq::empty(),
                })
                &&& (*me).control().answers().is_prefix_of((*final(me)).control().answers())
                &&& before.ctl_closed ==> new.len() == 0 && step == Step::Ready(None::<C>)
                &&& !before.ctl_closed ==> new.len() == 1 && control_only_hands_on(new[0], step)
                &&& after.ctl_closed == (before.ctl_closed || step == Step::Ready(None::<C>))
                &&& after.usr_closed == before.usr_closed
                &&& after.policy == before.policy
                &&& (*final(me)).user() == (*me).user()
                &&& (*final(me)).control().lane() == (*me).control().lane()
                &&& (*final(me)).control().raw() == (*me).control().raw()
            },
{
    assert forall|me: &mut Consumer<C, U>, step: Step<Option<C>>| #[trigger]
        call_ensures(Consumer::<C, U>::recv_control, (me,), step) implies {
        let new = asked((*me).control().answers(), (*final(me)).control().answers());
        &&& items_given((*final(me)).control().answers()) == items_given(
            (*me).control().answers(),
        ) + (match step {
            Step::Ready(Some(c)) => seq![c],
            _ => Seq::empty(),
        })
        &&& (*me).control().answers().is_prefix_of((*final(me)).control().answers())
        &&& (*me).state().ctl_closed ==> new.len() == 0
        &&& !(*me).state().ctl_closed ==> new.len() == 1 && control_only_hands_on(new[0], step)
    } by {
        let m = (*me).state();
        let log = (*me).control().answers();
        assert(items_given(log) + Seq::<C>::empty() =~= items_given(log));
        if !m.ctl_closed {
            let polled = choose|polled: Polled<C>|
                {
                    &&& step == m.control_only_answer(polled)
                    &&& #[trigger] m.after_control_only(polled) == (*final(me)).state()
                    &&& (*final(me)).control().answers() == log.push(polled)
                };
            lemma_one_more_answer(log, polled);
            lemma_asked(log, seq![polled]);
            assert(log + seq![polled] =~= log.push(polled));
        }
    }
}

/// What a lane says of a send becomes its answer, one for one: accepted is `Ok`, full
/// is `Full` and no receiver is `Closed`, each with the item that came back.
pub proof fn law_pair_sends_answer_what_the_lane_says<C, U>()
    ensures
        forall|delivered: Result<(), C>, sent: Result<(), ControlClosed<C>>| #[trigger]
            call_ensures(control_send_answer::<C>, (delivered,), sent) ==> {
                &&& sent is Ok <==> delivered is Ok
                &&& delivered matches Err(back) ==> sent->Err_0.0 == back
            },
        forall|delivered: Result<(), U>, sent: Result<(), UserClosed<U>>| #[trigger]
            call_ensures(send_answer::<U>, (delivered,), sent) ==> {
                &&& sent is Ok <==> delivered is Ok
                &&& delivered matches Err(back) ==> sent->Err_0.0 == back
            },
        forall|offered: Offered<U>, sent: Result<(), TrySendError<U>>| #[trigger]
            call_ensures(try_send_answer::<U>, (offered,), sent) ==> says(offered, sent),
        forall|sender: &ControlSender<C>, item: C, sent: Result<(), ControlClosed<C>>| #[trigger]
            call_ensures(ControlSender::<C>::send, (sender, item), sent) ==> {
                &&& sent matches Err(e) ==> e.0 == item
                &&& exists|delivered: Result<(), C>| #[trigger]
                    sender.lane_gives(item, delivered) && (sent is Ok <==> delivered is Ok)
            },
        forall|sender: &UserSender<U>, item: U, sent: Result<(), TrySendError<U>>| #[trigger]
            call_ensures(UserSender::<U>::try_send, (sender, item), sent) ==> lane_says(
                *sender,
                item,
                sent,
            ),
{
}

/// `sent` is what `offered` says.
pub open spec fn says<U>(offered: Offered<U>, sent: Result<(), TrySendError<U>>) -> bool {
    &&& offered is Accepted <==> sent is Ok
    &&& offered matches Offered::Full(back) ==> sent == Err::<(), TrySendError<U>>(
        TrySendError::Full(back),
    )
    &&& offered matches Offered::Disconnected(back) ==> sent == Err::<(), TrySendError<U>>(
        TrySendError::Closed(back),
    )
}

/// `sent` is what the lane of `sender` says when it is offered `item`, and a refused
/// item comes back.
pub open spec fn lane_says<U>(
    sender: UserSender<U>,
    item: U,
    sent: Result<(), TrySendError<U>>,
) -> bool {
    &&& sent matches Err(TrySendError::Full(back)) ==> back == item
    &&& sent matches Err(TrySendError::Closed(back)) ==> back == item
    &&& exists|offered: Offered<U>| #[trigger]
        sender.sender().offer_gives(item, offered) && says(offered, sent)
}

/// A send through an anchor of a flume pair is refused as closed, with its item, if the
/// anchor turns into no sender, and else does what that sender does.
pub proof fn law_pair_anchor_sends_as_its_sender<U>()
    ensures
        forall|
            upgraded: Option<UserSender<U>>,
            item: U,
            sent: Result<(), TrySendError<U>>,
        | #[trigger]
            call_ensures(try_send_upgraded::<U>, (upgraded, item), sent) ==> {
                &&& upgraded is None ==> sent == Err::<(), TrySendError<U>>(
                    TrySendError::Closed(item),
                )
                &&& upgraded matches Some(sender) ==> lane_says(sender, item, sent)
            },
        forall|
            upgraded: Option<UserSender<U>>,
            item: U,
            start: Result<(UserSender<U>, U), UserClosed<U>>,
        | #[trigger]
            call_ensures(send_upgraded::<U>, (upgraded, item), start) ==> {
                &&& start is Ok <==> upgraded is Some
                &&& start matches Ok(go) ==> go.0 == upgraded->0 && go.1 == item
                &&& start matches Err(e) ==> e.0 == item
            },
        forall|anchor: &UserAnchor<U>, item: U, sent: Result<(), TrySendError<U>>| #[trigger]
            call_ensures(UserAnchor::<U>::try_send, (anchor, item), sent) ==> exists|
                upgraded: Option<UserSender<U>>,
            | #[trigger]
                anchor.lane_gives(upgraded) && match upgraded {
                    None => sent == Err::<(), TrySendError<U>>(TrySendError::Closed(item)),
                    Some(sender) => lane_says(sender, item, sent),
                },
        forall|anchor: &UserAnchor<U>, sender: Option<UserSender<U>>| #[trigger]
            call_ensures(UserAnchor::<U>::upgrade, (anchor,), sender) ==> {
                &&& exists|got: Option<LaneSender<U>>| #[trigger]
                    anchor.anchor().upgrade_gives(got) && (got is Some <==> sender is Some)
                &&& sender matches Some(s) ==> s.lane() == anchor.lane() && s.limit()
                    == anchor.limit()
            },
{
    assert forall|anchor: &UserAnchor<U>, item: U, sent: Result<(), TrySendError<U>>| #[trigger]
        call_ensures(UserAnchor::<U>::try_send, (anchor, item), sent) implies exists|
        upgraded: Option<UserSender<U>>,
    | #[trigger]
        anchor.lane_gives(upgraded) && match upgraded {
            None => sent == Err::<(), TrySendError<U>>(TrySendError::Closed(item)),
            Some(sender) => lane_says(sender, item, sent),
        } by {
        let upgraded = choose|upgraded: Option<UserSender<U>>| #[trigger]
            anchor.lane_gives(upgraded) && crate::reference::upgraded_gives(upgraded, item, sent);
        assert(anchor.lane_gives(upgraded));
    }
}

/// A new flume pair links each sender to the consumer, without a limit for control and
/// with the capacity asked for as the limit for users, and its consumer has asked
/// nothing, served nothing and seen nothing closed.
pub proof fn law_new_pair_is_what_was_asked_for<C, U>()
    ensures
        forall|
            cfg: Config,
            made: (ControlSender<C>, UserSender<U>, Consumer<C, U>),
            n: usize,
            k: usize,
        | #[trigger]
            call_ensures(channel::<C, U>, (cfg,), made) && #[trigger] call_ensures(
                Config::user_capacity,
                (&cfg,),
                n,
            ) && #[trigger] call_ensures(Config::aging_cap, (&cfg,), k) ==> {
                &&& made.0.lane() == made.2.control().lane()
                &&& made.0.limit() is None
                &&& made.1.lane() == made.2.user().lane()
                &&& made.1.limit() == Some(n as nat)
                &&& made.2.control().answers().len() == 0
                &&& made.2.user().answers().len() == 0
                &&& made.2.state().policy.cap == k
                &&& made.2.state().policy.streak == 0
                &&& !made.2.state().policy.reported
                &&& !made.2.state().ctl_closed
                &&& !made.2.state().usr_closed
            },
{
}

/// Clones and anchors of a flume pair's handles belong to the same lane.
pub proof fn law_pair_handles_share_their_lane<C, U>()
    ensures
        forall|sender: &ControlSender<C>, other: ControlSender<C>| #[trigger]
            call_ensures(ControlSender::<C>::clone, (sender,), other) ==> other.lane()
                == sender.lane() && other.limit() == sender.limit(),
        forall|sender: &UserSender<U>, other: UserSender<U>| #[trigger]
            call_ensures(UserSender::<U>::clone, (sender,), other) ==> other.lane()
                == sender.lane() && other.limit() == sender.limit(),
        forall|anchor: &UserAnchor<U>, other: UserAnchor<U>| #[trigger]
            call_ensures(UserAnchor::<U>::clone, (anchor,), other) ==> other.lane()
                == anchor.lane() && other.limit() == anchor.limit(),
        forall|sender: &UserSender<U>, anchor: UserAnchor<U>| #[trigger]
            call_ensures(UserSender::<U>::anchor, (sender,), anchor) ==> anchor.lane()
                == sender.lane() && anchor.limit() == sender.limit(),
{
}

/// The consumer of a flume pair can receive at any time, and shows what it remembers
/// and its own receivers.
pub proof fn law_pair_consumer_is_always_usable<C, U>()
    ensures
        forall|me: &mut Consumer<C, U>|
            (*me).wf() ==> {
                &&& #[trigger] call_requires(Consumer::<C, U>::recv, (me,))
                &&& call_requires(Consumer::<C, U>::recv_control, (me,))
            },
        forall|me: Consumer<C, U>| #[trigger] call_requires(Consumer::<C, U>::drain, (me,)),
        forall|me: &Consumer<C, U>, merger: &Merger| #[trigger]
            call_ensures(Consumer::<C, U>::merger, (me,), merger) ==> merger@ == me.state(),
        forall|me: &Consumer<C, U>, rx: &flume::Receiver<C>| #[trigger]
            call_ensures(Consumer::<C, U>::control_rx, (me,), rx) ==> *rx == me.control().raw(),
        forall|me: &Consumer<C, U>, rx: &flume::Receiver<U>| #[trigger]
            call_ensures(Consumer::<C, U>::user_rx, (me,), rx) ==> *rx == me.user().raw(),
        forall|sender: &UserSender<U>, tx: &flume::Sender<U>| #[trigger]
            call_ensures(UserSender::<U>::tx, (sender,), tx) ==> *tx == sender.sender().raw(),
{
}

} // verus!
