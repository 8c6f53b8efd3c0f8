use crate::channel::Step;
use crate::flume_lane::Polled;
use crate::reference::{Consumer, MergerView};
use crate::types::Received;
use vstd::prelude::*;

verus! {

/// One thing that the consumer of a flume pair does, with what the lanes give it.
pub enum Deed<C, U> {
    /// A turn of a receive, with what the lanes answered.
    Turn { aging: Polled<U>, control: Polled<C>, user: Polled<U> },
    /// A receive waited for the control lane and got this.
    ControlArrived(Option<C>),
    /// A receive waited for the user lane and got this.
    UserArrived(Option<U>),
    /// A control-only receive asked the control lane.
    ControlTurn(Polled<C>),
    /// A control-only receive waited for the control lane and got this.
    ControlOnlyArrived(Option<C>),
}

impl MergerView {
    /// The lanes can give this: one that was seen closed, with nothing queued,
    /// has nothing to give any more, and is not waited for.
    pub open spec fn possible<C, U>(self, deed: Deed<C, U>) -> bool {
        match deed {
            Deed::Turn { aging, control, user } => {
                &&& self.ctl_closed ==> control is Disconnected
                &&& self.usr_closed ==> aging is Disconnected
                &&& aging is Disconnected ==> user is Disconnected
            },
            Deed::ControlArrived(_) => !self.ctl_closed,
            Deed::UserArrived(_) => !self.usr_closed,
            Deed::ControlTurn(polled) => self.ctl_closed ==> polled is Disconnected,
            Deed::ControlOnlyArrived(_) => !self.ctl_closed,
        }
    }

    /// What the deed answers; `Pending` if the consumer has to go on.
    pub open spec fn answer<C, U>(self, deed: Deed<C, U>) -> Step<Option<Received<C, U>>> {
        match deed {
            Deed::Turn { aging, control, user } => self.turn_answer(aging, control, user),
            Deed::ControlArrived(Some(c)) => Step::Ready(Some(Received::Control(c))),
            Deed::ControlArrived(None) => Step::Pending,
            Deed::UserArrived(Some(u)) => Step::Ready(Some(Received::User(u))),
            Deed::UserArrived(None) => Step::Pending,
            Deed::ControlTurn(polled) => match self.control_only_answer(polled) {
                Step::Ready(Some(c)) => Step::Ready(Some(Received::Control(c))),
                Step::Ready(None) => Step::Ready(None),
                Step::Pending => Step::Pending,
            },
            Deed::ControlOnlyArrived(Some(c)) => Step::Ready(Some(Received::Control(c))),
            Deed::ControlOnlyArrived(None) => Step::Ready(None),
        }
    }

    /// What the consumer remembers after the deed.
    pub open spec fn next<C, U>(self, deed: Deed<C, U>) -> MergerView {
        match deed {
            Deed::Turn { aging, control, user } => self.after_turn(aging, control, user),
            Deed::ControlArrived(Some(_)) => MergerView {
                policy: self.policy.after_control(),
                ..self
            },
            Deed::ControlArrived(None) => MergerView { ctl_closed: true, ..self },
            Deed::UserArrived(Some(_)) => MergerView {
                policy: self.policy.after_user(),
                ..self
            },
            Deed::UserArrived(None) => MergerView { usr_closed: true, ..self },
            Deed::ControlTurn(polled) => self.after_control_only(polled),
            Deed::ControlOnlyArrived(Some(_)) => self,
            Deed::ControlOnlyArrived(None) => MergerView { ctl_closed: true, ..self },
        }
    }

    /// What the consumer remembers after a run of deeds.
    pub open spec fn after_all<C, U>(self, deeds: Seq<Deed<C, U>>) -> MergerView
        decreases deeds.len(),
    {
        if deeds.len() == 0 {
            self
        } else {
            self.next(deeds[0]).after_all(deeds.drop_first())
        }
    }

    /// The lanes can give what the run says, each time.
    pub open spec fn all_possible<C, U>(self, deeds: Seq<Deed<C, U>>) -> bool
        decreases deeds.len(),
    {
        deeds.len() == 0 || (self.possible(deeds[0]) && self.next(deeds[0]).all_possible(
            deeds.drop_first(),
        ))
    }

    /// The end-marker is only ever out once the user lane was seen closed.
    pub open spec fn marker_is_justified(self) -> bool {
        self.policy.reported ==> self.usr_closed
    }

    /// Both lanes were seen closed and the end-marker is out.
    pub open spec fn finished(self) -> bool {
        self.ctl_closed && self.usr_closed && self.policy.reported
    }
}

/// One deed keeps what was seen: closed lanes stay closed, the end-marker stays
/// out, and it is out only of a closed lane.
pub proof fn law_deed_forgets_no_closure<C, U>(m: MergerView, deed: Deed<C, U>)
    requires
        m.marker_is_justified(),
    ensures
        m.next(deed).marker_is_justified(),
        m.ctl_closed ==> m.next(deed).ctl_closed,
        m.usr_closed ==> m.next(deed).usr_closed,
        m.policy.reported ==> m.next(deed).policy.reported,
        m.answer(deed) == Step::Ready(Some(Received::<C, U>::UserLaneClosed))
            ==> !m.policy.reported && m.next(deed).policy.reported,
{
}

/// No user item and no second end-marker follow the end-marker, whatever the
/// consumer of a flume pair does from there on.
pub proof fn law_nothing_follows_the_marker_of_a_pair<C, U>(
    m: MergerView,
    deeds: Seq<Deed<C, U>>,
    i: int,
)
    requires
        m.marker_is_justified(),
        m.policy.reported,
        m.all_possible(deeds),
        0 <= i < deeds.len(),
    ensures
        match m.after_all(deeds.take(i)).answer(deeds[i]) {
            Step::Ready(Some(received)) => received is Control,
            _ => true,
        },
    decreases i,
{
    if i > 0 {
        law_deed_forgets_no_closure(m, deeds[0]);
        law_nothing_follows_the_marker_of_a_pair(m.next(deeds[0]), deeds.drop_first(), i - 1);
        lemma_later_deed(m, deeds, i);
    } else {
        assert(deeds.take(0) =~= Seq::<Deed<C, U>>::empty());
    }
}

/// A deed of a run is a deed of the run that starts one later.
proof fn lemma_later_deed<C, U>(m: MergerView, deeds: Seq<Deed<C, U>>, i: int)
    requires
        0 < i < deeds.len(),
    ensures
        deeds[i] == deeds.drop_first()[i - 1],
        m.after_all(deeds.take(i)) == m.next(deeds[0]).after_all(deeds.drop_first().take(i - 1)),
{
    assert(deeds.take(i).drop_first() =~= deeds.drop_first().take(i - 1));
}

/// `None` stays `None`: once both lanes were seen closed and the end-marker is
/// out, every receive and every control-only receive of a flume pair answers that
/// it is over, without waiting, and nothing changes any more.
pub proof fn law_end_of_a_pair_is_final<C, U>(m: MergerView, deeds: Seq<Deed<C, U>>, i: int)
    requires
        m.finished(),
        m.all_possible(deeds),
        0 <= i < deeds.len(),
    ensures
        m.after_all(deeds.take(i)) == m,
        m.answer(deeds[i]) == Step::Ready(None::<Received<C, U>>),
    decreases i,
{
    if i > 0 {
        assert(m.next(deeds[0]) == m);
        law_end_of_a_pair_is_final(m, deeds.drop_first(), i - 1);
        lemma_later_deed(m, deeds, i);
    } else {
        assert(deeds.take(0) =~= Seq::<Deed<C, U>>::empty());
    }
}

/// A receive that answers `None` leaves the consumer of a flume pair finished.
pub proof fn law_none_means_finished<C, U>(
    m: MergerView,
    aging: Polled<U>,
    control: Polled<C>,
    user: Polled<U>,
)
    requires
        m.turn_answer(aging, control, user) == Step::Ready(None::<Received<C, U>>),
    ensures
        m.after_turn(aging, control, user).finished(),
{
}

/// A lane that was found closed has been found so for good.
proof fn lemma_over<T>(answers: Seq<Polled<T>>, more: Seq<Polled<T>>)
    ensures
        answers.contains(Polled::Disconnected) ==> (answers + more).contains(
            Polled::Disconnected,
        ),
        more.contains(Polled::Disconnected) ==> (answers + more).contains(Polled::Disconnected),
{
    if answers.contains(Polled::Disconnected) {
        let i = choose|i: int| 0 <= i < answers.len() && answers[i] == Polled::<T>::Disconnected;
        assert((answers + more)[i] == Polled::<T>::Disconnected);
    }
    if more.contains(Polled::Disconnected) {
        let i = choose|i: int| 0 <= i < more.len() && more[i] == Polled::<T>::Disconnected;
        assert((answers + more)[answers.len() + i] == Polled::<T>::Disconnected);
    }
}

/// The logs after a turn, by what the consumer then remembers.
proof fn lemma_turn_is_logged<C, U>(
    m: MergerView,
    controls: Seq<Polled<C>>,
    users: Seq<Polled<U>>,
    aging: Polled<U>,
    control: Polled<C>,
    user: Polled<U>,
)
    requires
        m.ctl_closed ==> controls.contains(Polled::Disconnected),
        m.usr_closed ==> users.contains(Polled::Disconnected),
    ensures
        ({
            let after = m.after_turn(aging, control, user);
            let asked = controls + m.controls_asked(aging, control);
            let asked_users = users + m.users_asked(aging, control, user);
            &&& after.ctl_closed ==> asked.contains(Polled::Disconnected)
            &&& after.usr_closed ==> asked_users.contains(Polled::Disconnected)
        }),
{
    let cs = m.controls_asked(aging, control);
    let us = m.users_asked(aging, control, user);
    lemma_over(controls, cs);
    lemma_over(users, us);
    let after = m.after_turn(aging, control, user);
    if after.ctl_closed && !m.ctl_closed {
        assert(cs[0] == Polled::<C>::Disconnected);
    }
    if after.usr_closed && !m.usr_closed {
        if us[0] is Disconnected {
            assert(us.contains(us[0]));
        } else {
            assert(us.last() is Disconnected);
            assert(us.contains(us.last()));
        }
    }
}

/// `Consumer::recv` of a flume pair takes a turn that the lanes can give, as long
/// as what it knows of closed lanes it knows from asking them.
pub proof fn law_recv_takes_a_possible_turn<C, U>()
    ensures
        forall|me: &mut Consumer<C, U>, step: Step<Option<Received<C, U>>>|
            (*me).closures_were_asked() && #[trigger] call_ensures(
                Consumer::<C, U>::recv,
                (me,),
                step,
            ) ==> {
                &&& (*final(me)).closures_were_asked()
                &&& exists|deed: Deed<C, U>|
                    {
                        &&& #[trigger] (*me).state().possible(deed)
                        &&& step == (*me).state().answer(deed)
                        &&& (*final(me)).state() == (*me).state().next(deed)
                    }
            },
{
    assert forall|me: &mut Consumer<C, U>, step: Step<Option<Received<C, U>>>|
        (*me).closures_were_asked() && #[trigger] call_ensures(
            Consumer::<C, U>::recv,
            (me,),
            step,
        ) implies {
        &&& (*final(me)).closures_were_asked()
        &&& exists|deed: Deed<C, U>|
            {
                &&& #[trigger] (*me).state().possible(deed)
                &&& step == (*me).state().answer(deed)
                &&& (*final(me)).state() == (*me).state().next(deed)
            }
    } by {
        let m = (*me).state();
        let (aging, control, user) = choose|
            aging: Polled<U>,
            control: Polled<C>,
            user: Polled<U>,
        |
            {
                &&& step == m.turn_answer(aging, control, user)
                &&& #[trigger] m.after_turn(aging, control, user) == (*final(me)).state()
                &&& (*final(me)).control().answers() == (*me).control().answers()
                    + m.controls_asked(aging, control)
                &&& (*final(me)).user().answers() == (*me).user().answers() + m.users_asked(
                    aging,
                    control,
                    user,
                )
                &&& (*me).control().over() ==> control is Disconnected
                &&& (*me).user().over() ==> aging is Disconnected
                &&& aging is Disconnected ==> user is Disconnected
            };
        let deed = Deed::Turn { aging, control, user };
        assert(m.possible(deed));
        lemma_turn_is_logged(
            m,
            (*me).control().answers(),
            (*me).user().answers(),
            aging,
            control,
            user,
        );
    }
}

/// Once the end-marker is out, `Consumer::recv` of a flume pair hands out controls
/// alone; and once it is all over, `None` and nothing else.
pub proof fn law_recv_after_the_marker<C, U>()
    ensures
        forall|me: &mut Consumer<C, U>, step: Step<Option<Received<C, U>>>|
            (*me).closures_were_asked() && (*me).state().marker_is_justified()
                && #[trigger] call_ensures(Consumer::<C, U>::recv, (me,), step) ==> {
                &&& (*final(me)).state().marker_is_justified()
                &&& (*me).state().policy.reported ==> {
                    &&& (*final(me)).state().policy.reported
                    &&& match step {
                        Step::Ready(Some(received)) => received is Control,
                        _ => true,
                    }
                }
                &&& (*me).state().finished() ==> {
                    &&& step == Step::Ready(None::<Received<C, U>>)
                    &&& (*final(me)).state() == (*me).state()
                }
            },
{
    law_recv_takes_a_possible_turn::<C, U>();
    assert forall|me: &mut Consumer<C, U>, step: Step<Option<Received<C, U>>>|
        (*me).closures_were_asked() && (*me).state().marker_is_justified()
            && #[trigger] call_ensures(Consumer::<C, U>::recv, (me,), step) implies {
        &&& (*final(me)).state().marker_is_justified()
        &&& (*me).state().policy.reported ==> {
            &&& (*final(me)).state().policy.reported
            &&& match step {
                Step::Ready(Some(received)) => received is Control,
                _ => true,
            }
        }
        &&& (*me).state().finished() ==> {
            &&& step == Step::Ready(None::<Received<C, U>>)
            &&& (*final(me)).state() == (*me).state()
        }
    } by {
        let m = (*me).state();
        let deed = choose|deed: Deed<C, U>|
            {
                &&& #[trigger] m.possible(deed)
                &&& step == m.answer(deed)
                &&& (*final(me)).state() == m.next(deed)
            };
        law_deed_forgets_no_closure(m, deed);
    }
}

/// `Consumer::recv_control` of a flume pair takes a control turn that the lane can
/// give, as long as what it knows of closed lanes it knows from asking them, and
/// takes nothing off the user lane and asks it nothing.
pub proof fn law_recv_control_takes_a_possible_turn<C, U>()
    ensures
        forall|me: &mut Consumer<C, U>, step: Step<Option<C>>|
            (*me).closures_were_asked() && #[trigger] call_ensures(
                Consumer::<C, U>::recv_control,
                (me,),
                step,
            ) ==> {
                &&& (*final(me)).closures_were_asked()
                &&& (*final(me)).user() == (*me).user()
                &&& (*final(me)).state().policy == (*me).state().policy
                &&& (*final(me)).state().usr_closed == (*me).state().usr_closed
                &&& exists|polled: Polled<C>|
                    {
                        &&& (*me).state().possible(Deed::<C, U>::ControlTurn(polled))
                        &&& step == (*me).state().control_only_answer(polled)
                        &&& (*final(me)).state() == #[trigger]
                            (*me).state().after_control_only(polled)
                    }
            },
{
    assert forall|me: &mut Consumer<C, U>, step: Step<Option<C>>|
        (*me).closures_were_asked() && #[trigger] call_ensures(
            Consumer::<C, U>::recv_control,
            (me,),
            step,
        ) implies {
        &&& (*final(me)).closures_were_asked()
        &&& exists|polled: Polled<C>|
            {
                &&& (*me).state().possible(Deed::<C, U>::ControlTurn(polled))
                &&& step == (*me).state().control_only_answer(polled)
                &&& (*final(me)).state() == #[trigger] (*me).state().after_control_only(polled)
            }
    } by {
        let m = (*me).state();
        if m.ctl_closed {
            assert(m.after_control_only(Polled::<C>::Disconnected) == m);
        } else {
            let polled = choose|polled: Polled<C>|
                {
                    &&& step == m.control_only_answer(polled)
                    &&& #[trigger] m.after_control_only(polled) == (*final(me)).state()
                    &&& (*final(me)).control().answers() == (*me).control().answers().push(polled)
                };
            if polled is Disconnected {
                assert((*final(me)).control().answers().last() == polled);
            }
        }
    }
}

} // verus!
