use crate::channel::{Channel, ChannelView, Core, Step};
use crate::consumer::{Consumer, ConsumerView};
use crate::control_lane::{ControlLane, ControlTicket};
use crate::protocol::{Move, System};
use crate::senders::UserSender;
use crate::types::{Received, TrySendError};
use crate::user_lane::{Claim, UserLane, UserTicket};
use vstd::prelude::*;

verus! {

impl<C, U> System<C, U> {
    /// `lane` is the user lane of the system.
    pub open spec fn has_user_lane(self, lane: UserLane<U>) -> bool {
        lane.wf() && lane@ == self.ch.user
    }

    /// `lane` is the control lane of the system.
    pub open spec fn has_control_lane(self, lane: ControlLane<C>) -> bool {
        lane.wf() && lane@ == self.ch.control
    }

    /// `core` is what both lanes of the system share.
    pub open spec fn has_core(self, core: Core) -> bool {
        core.wf() && core@ == self.ch.core
    }

    /// `me` is the consumer of the system and `ch` its channel.
    pub open spec fn has_consumer(self, me: Consumer<C, U>, ch: Channel<C, U>) -> bool {
        &&& me.wf()
        &&& ch.wf()
        &&& ch@ == self.ch
        &&& me.attends(ch@)
        &&& me@.policy == self.policy
        &&& me@.registered == (self.stage is Announced || self.stage is Asleep)
    }

    /// The step changes the user lane alone, and this is what it becomes.
    pub open spec fn makes_user_lane(self, m: Move<C, U>, lane: UserLane<U>) -> bool {
        lane.wf() && self.step(m).ch == (ChannelView { user: lane@, ..self.ch })
    }

    /// The step changes the control lane alone, and this is what it becomes.
    pub open spec fn makes_control_lane(self, m: Move<C, U>, lane: ControlLane<C>) -> bool {
        lane.wf() && self.step(m).ch == (ChannelView { control: lane@, ..self.ch })
    }

    /// The step changes what both lanes share, and this is what it becomes.
    pub open spec fn makes_core(self, m: Move<C, U>, core: Core) -> bool {
        core.wf() && self.step(m).ch == (ChannelView { core: core@, ..self.ch })
    }
}

/// `UserLane::try_claim` is the step it stands for: a running or registered send
/// that finds room claims, and one that finds none leaves the lane as it is,
/// whether it is turned away or falls asleep.
pub proof fn law_claims_are_steps<C, U>(s: System<C, U>)
    requires
        s.sound(),
    ensures
        forall|lane: &mut UserLane<U>, pos: usize|
            s.has_user_lane(*lane) && pos == s.ch.user.end() ==> #[trigger] call_requires(
                UserLane::<U>::try_claim,
                (lane, pos),
            ),
        forall|lane: &mut UserLane<U>, pos: usize, claim: Claim|
            s.has_user_lane(*lane) && pos == s.ch.user.end() && #[trigger] call_ensures(
                UserLane::<U>::try_claim,
                (lane, pos),
                claim,
            ) ==> {
                &&& s.can(Move::Claim) ==> s.makes_user_lane(Move::Claim, *final(lane))
                &&& s.can(Move::ClaimRegistered) ==> s.makes_user_lane(
                    Move::ClaimRegistered,
                    *final(lane),
                )
                &&& !s.ch.full() ==> claim is Won && claim->Won_0.counter()
                    == s.ch.user.counter(s.next_position() - s.ch.user.popped)
                &&& s.ch.full() ==> claim is Full
                &&& s.can(Move::TurnedAway) && s.ch.full() ==> s.makes_user_lane(
                    Move::TurnedAway,
                    *final(lane),
                )
                &&& s.can(Move::FallAsleep) ==> s.makes_user_lane(
                    Move::FallAsleep,
                    *final(lane),
                )
            },
{
    crate::tickets::lemma_spaces(s.ch.user.capacity as int, 0);
}

/// `UserLane::publish` is the step in which a claimed position is published.
pub proof fn law_publication_is_a_step<C, U>(s: System<C, U>, pos: int)
    requires
        s.sound(),
        s.holding.contains(pos),
    ensures
        forall|lane: &mut UserLane<U>, t: UserTicket, value: U|
            s.has_user_lane(*lane) && t.counter() == s.ch.user.counter(pos - s.ch.user.popped)
                ==> #[trigger] call_requires(UserLane::<U>::publish, (lane, t, value)),
        forall|lane: &mut UserLane<U>, t: UserTicket, value: U|
            s.has_user_lane(*lane) && t.counter() == s.ch.user.counter(pos - s.ch.user.popped)
                && #[trigger] call_ensures(UserLane::<U>::publish, (lane, t, value), ())
                ==> s.makes_user_lane(Move::Publish { pos, value }, *final(lane)),
{
    reveal(crate::protocol::held_positions_agree);
    crate::user_lane::lemma_claim_is_found(s.ch.user, pos - s.ch.user.popped);
}

/// `ControlLane::claim` is the step in which a control position is claimed.
pub proof fn law_control_claim_is_a_step<C, U>(s: System<C, U>)
    requires
        s.sound(),
        s.can(Move::ClaimControl),
    ensures
        forall|lane: &mut ControlLane<C>|
            s.has_control_lane(*lane) ==> #[trigger] call_requires(
                ControlLane::<C>::claim,
                (lane,),
            ),
        forall|lane: &mut ControlLane<C>, t: ControlTicket|
            s.has_control_lane(*lane) && #[trigger] call_ensures(
                ControlLane::<C>::claim,
                (lane,),
                t,
            ) ==> {
                &&& s.makes_control_lane(Move::ClaimControl, *final(lane))
                &&& s.step(Move::ClaimControl).control_holding.contains(t.position())
                &&& s.step(Move::ClaimControl).ch.control.owns(t)
            },
{
}

/// `ControlLane::publish` is the step in which a claimed control position is
/// published.
pub proof fn law_control_publication_is_a_step<C, U>(s: System<C, U>, pos: int)
    requires
        s.sound(),
        s.control_holding.contains(pos),
    ensures
        forall|lane: &mut ControlLane<C>, t: ControlTicket, signal: C|
            s.has_control_lane(*lane) && t.position() == pos && t.walks()
                == s.ch.control.walking.contains(pos) ==> #[trigger] call_requires(
                ControlLane::<C>::publish,
                (lane, t, signal),
            ),
        forall|lane: &mut ControlLane<C>, t: ControlTicket, signal: C|
            s.has_control_lane(*lane) && t.position() == pos && #[trigger] call_ensures(
                ControlLane::<C>::publish,
                (lane, t, signal),
                (),
            ) ==> s.makes_control_lane(Move::PublishControl { pos, signal }, *final(lane)),
{
    reveal(crate::protocol::held_positions_agree);
}

/// `Core::wake_consumer` is the step in which the consumer is told: after a
/// publication, ahead of a departure, and after that of a last sender.
pub proof fn law_telling_is_a_step<C, U>(s: System<C, U>)
    ensures
        forall|core: &mut Core|
            s.has_core(*core) ==> #[trigger] call_requires(Core::wake_consumer, (core,)),
        forall|core: &mut Core|
            s.has_core(*core) && #[trigger] call_ensures(Core::wake_consumer, (core,), ()) ==> {
                &&& s.makes_core(Move::Tell, *final(core))
                &&& s.makes_core(Move::Nudge, *final(core))
                &&& s.makes_core(Move::TellGone, *final(core))
            },
{
}

/// `UserLane::start_waiting` is the step in which a send registers.
pub proof fn law_registration_is_a_step<C, U>(s: System<C, U>)
    requires
        s.can(Move::Register),
    ensures
        forall|lane: &mut UserLane<U>|
            s.has_user_lane(*lane) ==> #[trigger] call_requires(
                UserLane::<U>::start_waiting,
                (lane,),
            ),
        forall|lane: &mut UserLane<U>|
            s.has_user_lane(*lane) && #[trigger] call_ensures(
                UserLane::<U>::start_waiting,
                (lane,),
                (),
            ) ==> s.makes_user_lane(Move::Register, *final(lane)),
{
}

/// `UserLane::pass_waiting` is the step in which a sleeping send is let go, or else
/// it changes nothing.
pub proof fn law_passing_is_a_step<C, U>(s: System<C, U>)
    requires
        s.sound(),
        s.asleep > 0,
    ensures
        forall|lane: &mut UserLane<U>|
            s.has_user_lane(*lane) ==> #[trigger] call_requires(
                UserLane::<U>::pass_waiting,
                (lane,),
            ),
        forall|lane: &mut UserLane<U>, passed: bool|
            s.has_user_lane(*lane) && #[trigger] call_ensures(
                UserLane::<U>::pass_waiting,
                (lane,),
                passed,
            ) ==> {
                &&& passed == s.can(Move::LetGo)
                &&& passed ==> s.makes_user_lane(Move::LetGo, *final(lane))
                &&& !passed ==> (*final(lane))@ == s.ch.user
            },
{
}

/// `UserLane::give_up_waiting` is the step in which a registration is taken back:
/// that of a send that is given up, of one that got through, or of one that finds
/// the consumer gone.
pub proof fn law_giving_up_is_a_step<C, U>(s: System<C, U>)
    requires
        s.sound(),
        s.can(Move::GiveUp) || s.can(Move::TakeBack) || s.can(Move::QuitRegistered),
    ensures
        forall|lane: &mut UserLane<U>|
            s.has_user_lane(*lane) ==> #[trigger] call_requires(
                UserLane::<U>::give_up_waiting,
                (lane,),
            ),
        forall|lane: &mut UserLane<U>|
            s.has_user_lane(*lane) && #[trigger] call_ensures(
                UserLane::<U>::give_up_waiting,
                (lane,),
                (),
            ) ==> {
                &&& s.makes_user_lane(Move::GiveUp, *final(lane))
                &&& s.makes_user_lane(Move::TakeBack, *final(lane))
                &&& s.makes_user_lane(Move::QuitRegistered, *final(lane))
            },
{
}

/// `add_sender` of either lane is the step in which there is one more sender.
pub proof fn law_new_senders_are_steps<C, U>(s: System<C, U>)
    ensures
        s.can(Move::AddUserSender) ==> forall|lane: &mut UserLane<U>|
            s.has_user_lane(*lane) ==> #[trigger] call_requires(
                UserLane::<U>::add_sender,
                (lane,),
            ),
        forall|lane: &mut UserLane<U>|
            s.has_user_lane(*lane) && #[trigger] call_ensures(
                UserLane::<U>::add_sender,
                (lane,),
                (),
            ) ==> s.makes_user_lane(Move::AddUserSender, *final(lane)),
        s.can(Move::AddControlSender) ==> forall|lane: &mut ControlLane<C>|
            s.has_control_lane(*lane) ==> #[trigger] call_requires(
                ControlLane::<C>::add_sender,
                (lane,),
            ),
        forall|lane: &mut ControlLane<C>|
            s.has_control_lane(*lane) && #[trigger] call_ensures(
                ControlLane::<C>::add_sender,
                (lane,),
                (),
            ) ==> s.makes_control_lane(Move::AddControlSender, *final(lane)),
{
}

/// `remove_sender` of either lane is the step in which a sender leaves, and the last
/// one of its lane knows that it still has to tell the consumer.
pub proof fn law_departures_are_steps<C, U>(s: System<C, U>)
    ensures
        s.can(Move::LeaveUser) ==> forall|lane: &mut UserLane<U>|
            s.has_user_lane(*lane) ==> #[trigger] call_requires(
                UserLane::<U>::remove_sender,
                (lane,),
            ),
        forall|lane: &mut UserLane<U>, last: bool|
            s.has_user_lane(*lane) && #[trigger] call_ensures(
                UserLane::<U>::remove_sender,
                (lane,),
                last,
            ) ==> {
                &&& s.makes_user_lane(Move::LeaveUser, *final(lane))
                &&& last == (s.step(Move::LeaveUser).leaving > s.leaving)
            },
        s.can(Move::LeaveControl) ==> forall|lane: &mut ControlLane<C>|
            s.has_control_lane(*lane) ==> #[trigger] call_requires(
                ControlLane::<C>::remove_sender,
                (lane,),
            ),
        forall|lane: &mut ControlLane<C>, last: bool|
            s.has_control_lane(*lane) && #[trigger] call_ensures(
                ControlLane::<C>::remove_sender,
                (lane,),
                last,
            ) ==> {
                &&& s.makes_control_lane(Move::LeaveControl, *final(lane))
                &&& last == (s.step(Move::LeaveControl).leaving > s.leaving)
            },
{
}

/// `Consumer::attempt` is the step in which the consumer takes what is there, from
/// both lanes.
pub proof fn law_attempt_is_a_step<C, U>(s: System<C, U>)
    requires
        s.can(Move::Attempt),
    ensures
        forall|me: &mut Consumer<C, U>, ch: &mut Channel<C, U>|
            s.has_consumer(*me, *ch) ==> #[trigger] call_requires(
                Consumer::<C, U>::attempt,
                (me, ch),
            ),
        forall|
            me: &mut Consumer<C, U>,
            ch: &mut Channel<C, U>,
            step: Step<Option<Received<C, U>>>,
        |
            s.has_consumer(*me, *ch) && #[trigger] call_ensures(
                Consumer::<C, U>::attempt,
                (me, ch),
                step,
            ) ==> {
                &&& s.step(Move::Attempt).has_consumer(*final(me), *final(ch))
                &&& step == s.ch.handed(s.ch.pick(s.policy))
            },
{
}

/// `Consumer::attempt_control` is the step in which the consumer takes what is
/// there, from the control lane.
pub proof fn law_control_attempt_is_a_step<C, U>(s: System<C, U>)
    requires
        s.can(Move::AttemptControl),
    ensures
        forall|me: &mut Consumer<C, U>, ch: &mut Channel<C, U>|
            s.has_consumer(*me, *ch) ==> #[trigger] call_requires(
                Consumer::<C, U>::attempt_control,
                (me, ch),
            ),
        forall|me: &mut Consumer<C, U>, ch: &mut Channel<C, U>, step: Step<Option<C>>|
            s.has_consumer(*me, *ch) && #[trigger] call_ensures(
                Consumer::<C, U>::attempt_control,
                (me, ch),
                step,
            ) ==> {
                &&& s.step(Move::AttemptControl).has_consumer(*final(me), *final(ch))
                &&& step == s.ch.control_handed()
            },
{
}

/// `Consumer::announce` is the step in which the consumer announces its sleep.
pub proof fn law_announcement_is_a_step<C, U>(s: System<C, U>, control_only: bool)
    requires
        s.can(Move::Announce { control_only }),
    ensures
        forall|me: &mut Consumer<C, U>, ch: &mut Channel<C, U>|
            s.has_consumer(*me, *ch) ==> #[trigger] call_requires(
                Consumer::<C, U>::announce,
                (me, ch),
            ),
        forall|me: &mut Consumer<C, U>, ch: &mut Channel<C, U>|
            s.has_consumer(*me, *ch) && #[trigger] call_ensures(
                Consumer::<C, U>::announce,
                (me, ch),
                (),
            ) ==> s.step(Move::Announce { control_only }).has_consumer(*final(me), *final(ch)),
{
}

/// `Consumer::recheck` is the step in which the consumer looks once more at both
/// lanes.
pub proof fn law_second_look_is_a_step<C, U>(s: System<C, U>)
    requires
        s.can(Move::Recheck),
    ensures
        forall|me: &mut Consumer<C, U>, ch: &mut Channel<C, U>|
            s.has_consumer(*me, *ch) ==> #[trigger] call_requires(
                Consumer::<C, U>::recheck,
                (me, ch),
            ),
        forall|
            me: &mut Consumer<C, U>,
            ch: &mut Channel<C, U>,
            step: Step<Option<Received<C, U>>>,
        |
            s.has_consumer(*me, *ch) && #[trigger] call_ensures(
                Consumer::<C, U>::recheck,
                (me, ch),
                step,
            ) ==> {
                &&& s.step(Move::Recheck).has_consumer(*final(me), *final(ch))
                &&& step == s.ch.handed(s.ch.late_pick(s.policy))
            },
{
}

/// `Consumer::recheck_control` is the step in which the consumer looks once more at
/// the control lane.
pub proof fn law_second_control_look_is_a_step<C, U>(s: System<C, U>)
    requires
        s.can(Move::RecheckControl),
    ensures
        forall|me: &mut Consumer<C, U>, ch: &mut Channel<C, U>|
            s.has_consumer(*me, *ch) ==> #[trigger] call_requires(
                Consumer::<C, U>::recheck_control,
                (me, ch),
            ),
        forall|me: &mut Consumer<C, U>, ch: &mut Channel<C, U>, step: Step<Option<C>>|
            s.has_consumer(*me, *ch) && #[trigger] call_ensures(
                Consumer::<C, U>::recheck_control,
                (me, ch),
                step,
            ) ==> {
                &&& s.step(Move::RecheckControl).has_consumer(*final(me), *final(ch))
                &&& step == s.ch.control_handed()
            },
{
}

/// `Consumer::resume` is the step in which a notified consumer goes on, or else it
/// changes nothing.
pub proof fn law_resumption_is_a_step<C, U>(s: System<C, U>)
    requires
        s.stage is Asleep,
    ensures
        forall|me: &mut Consumer<C, U>, ch: &mut Channel<C, U>|
            s.has_consumer(*me, *ch) ==> #[trigger] call_requires(
                Consumer::<C, U>::resume,
                (me, ch),
            ),
        forall|me: &mut Consumer<C, U>, ch: &mut Channel<C, U>, awake: bool|
            s.has_consumer(*me, *ch) && #[trigger] call_ensures(
                Consumer::<C, U>::resume,
                (me, ch),
                awake,
            ) ==> {
                &&& awake == s.can(Move::Resume)
                &&& awake ==> s.step(Move::Resume).has_consumer(*final(me), *final(ch))
                &&& !awake ==> s.has_consumer(*final(me), *final(ch))
            },
{
}

/// `Consumer::cancel` is the step in which a sleeping receive is given up.
pub proof fn law_cancellation_is_a_step<C, U>(s: System<C, U>)
    requires
        s.can(Move::CancelReceive),
    ensures
        forall|me: &mut Consumer<C, U>, ch: &mut Channel<C, U>|
            s.has_consumer(*me, *ch) ==> #[trigger] call_requires(
                Consumer::<C, U>::cancel,
                (me, ch),
            ),
        forall|me: &mut Consumer<C, U>, ch: &mut Channel<C, U>|
            s.has_consumer(*me, *ch) && #[trigger] call_ensures(
                Consumer::<C, U>::cancel,
                (me, ch),
                (),
            ) ==> s.step(Move::CancelReceive).has_consumer(*final(me), *final(ch)),
{
}

/// `Consumer::drop` is the step in which the consumer is torn down.
pub proof fn law_teardown_is_a_step<C, U>(s: System<C, U>)
    requires
        s.can(Move::TearDown),
    ensures
        forall|me: Consumer<C, U>, ch: &mut Channel<C, U>|
            s.has_consumer(me, *ch) ==> #[trigger] call_requires(
                Consumer::<C, U>::drop,
                (me, ch),
            ),
        forall|me: Consumer<C, U>, ch: &mut Channel<C, U>|
            s.has_consumer(me, *ch) && #[trigger] call_ensures(
                Consumer::<C, U>::drop,
                (me, ch),
                (),
            ) ==> (*final(ch)).wf() && (*final(ch))@ == s.step(Move::TearDown).ch,
{
}

/// `UserSender::try_send`, once the consumer is gone, is the step in which a send is
/// turned away.
pub proof fn law_refusal_is_a_step<C, U>(s: System<C, U>)
    requires
        s.can(Move::TurnedAway),
        s.ch.core.consumer_gone,
    ensures
        forall|
            sender: &UserSender<U>,
            ch: &mut Channel<C, U>,
            item: U,
            sent: Result<(), TrySendError<U>>,
        |
            ch@ == s.ch && #[trigger] call_ensures(
                UserSender::<U>::try_send::<C>,
                (sender, ch, item),
                sent,
            ) ==> {
                &&& sent == Err::<(), TrySendError<U>>(TrySendError::Closed(item))
                &&& (*final(ch))@ == s.step(Move::TurnedAway).ch
            },
{
}

/// A control send, taken without interruption, is a claim, the publication of
/// it and a word to the consumer.
pub proof fn law_control_send_is_a_run_of_steps<C, U>(s: System<C, U>, item: C)
    requires
        s.sound(),
        s.can(Move::ClaimControl),
    ensures
        ({
            let publish = Move::PublishControl { pos: s.ch.control.end(), signal: item };
            let claimed = s.step(Move::ClaimControl);
            let published = claimed.step(publish);
            &&& claimed.can(publish)
            &&& published.can(Move::Tell)
            &&& published.step(Move::Tell).ch == s.ch.control_sent(item)
        }),
{
    let control = s.ch.control;
    let published = control.after_claim().after_publish(control.end(), item);
    assert(!control.walking.contains(control.end()));
    assert(published.walking =~= control.walking);
    assert(published.entries =~= control.entries.push(Some(item)));
}

/// A user send that finds room, taken without interruption, is a claim, the
/// publication of it and a word to the consumer.
pub proof fn law_user_send_is_a_run_of_steps<C, U>(s: System<C, U>, item: U)
    requires
        s.sound(),
        s.can(Move::Claim),
    ensures
        ({
            let publish = Move::Publish { pos: s.next_position(), value: item };
            let claimed = s.step(Move::Claim);
            let published = claimed.step(publish);
            &&& claimed.can(publish)
            &&& published.can(Move::Tell)
            &&& published.step(Move::Tell).ch == s.ch.user_sent(item)
        }),
{
    let claimed = s.ch.user.after_claim();
    let k = s.ch.user.entries.len() as int;
    crate::user_lane::lemma_claim_is_found(claimed, k);
    assert(claimed.after_publish(claimed.counter(k), item).entries
        =~= s.ch.user.entries.push(Some(item)));
}

/// A receive, taken without interruption, is an attempt; and if there is
/// nothing, an announcement and a second look.
pub proof fn law_receive_is_a_run_of_steps<C, U>(s: System<C, U>)
    requires
        s.stage is Awake,
    ensures
        ({
            let me = ConsumerView { policy: s.policy, registered: false };
            let tried = s.step(Move::Attempt);
            let announced = tried.step(Move::Announce { control_only: false });
            let done = if s.ch.pick(s.policy) is Nothing {
                announced.step(Move::Recheck)
            } else {
                tried
            };
            &&& s.can(Move::Attempt)
            &&& tried.can(Move::Announce { control_only: false })
            &&& announced.can(Move::Recheck)
            &&& done.ch == me.channel_after_recv(s.ch)
            &&& done.policy == me.after_recv(s.ch).policy
            &&& done.stage is Asleep == me.after_recv(s.ch).registered
        }),
{
}

/// A control-only receive, taken without interruption, is an attempt; and if
/// there is nothing, an announcement and a second look.
pub proof fn law_control_receive_is_a_run_of_steps<C, U>(s: System<C, U>)
    requires
        s.stage is Awake,
    ensures
        ({
            let me = ConsumerView { policy: s.policy, registered: false };
            let tried = s.step(Move::AttemptControl);
            let announced = tried.step(Move::Announce { control_only: true });
            let done = if s.ch.control_handed() is Pending {
                announced.step(Move::RecheckControl)
            } else {
                tried
            };
            &&& s.can(Move::AttemptControl)
            &&& tried.can(Move::Announce { control_only: true })
            &&& announced.can(Move::RecheckControl)
            &&& done.ch == me.channel_after_recv_control(s.ch)
            &&& done.policy == me.after_recv_control(s.ch).policy
            &&& done.stage is Asleep == me.after_recv_control(s.ch).registered
        }),
{
}

/// The departure of a sender, taken without interruption, is a word to the
/// consumer, the departure, and another word if the sender was the last of its
/// lane.
pub proof fn law_departure_is_a_run_of_steps<C, U>(s: System<C, U>)
    ensures
        ({
            let left = s.step(Move::Nudge).step(Move::LeaveControl);
            let done = if s.ch.control.senders == 1 {
                left.step(Move::TellGone)
            } else {
                left
            };
            &&& s.can(Move::LeaveControl) ==> s.step(Move::Nudge).can(Move::LeaveControl)
            &&& s.ch.control.senders == 1 ==> left.can(Move::TellGone)
            &&& done.ch == s.ch.control_sender_gone()
        }),
        ({
            let left = s.step(Move::Nudge).step(Move::LeaveUser);
            let done = if s.ch.user.senders == 1 {
                left.step(Move::TellGone)
            } else {
                left
            };
            &&& s.can(Move::LeaveUser) ==> s.step(Move::Nudge).can(Move::LeaveUser)
            &&& s.ch.user.senders == 1 ==> left.can(Move::TellGone)
            &&& done.ch == s.ch.user_sender_gone()
        }),
{
}

} // verus!
