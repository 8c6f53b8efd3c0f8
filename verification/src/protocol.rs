use crate::channel::ChannelView;
use crate::control_lane::ControlLaneView;
use crate::policy::PolicyView;
use crate::types::Config;
use crate::user_lane::UserLaneView;
use vstd::prelude::*;

verus! {

/// Where the consumer is.
pub enum Stage {
    /// It runs, or it is not receiving.
    Awake,
    /// It announced that it is about to sleep and looks once more; for control
    /// alone, or for both lanes.
    Announced { control_only: bool },
    /// It found nothing and sleeps until it is notified.
    Asleep { control_only: bool },
    /// It was torn down.
    Gone,
}

/// A channel in use by many producers and one consumer, each of which takes one
/// small step at a time: a claim, the publication of a claimed value, a
/// notification, a registration, a look at the lanes.
///
/// Producers are told apart only by what they have to do next.
pub struct System<C, U> {
    pub ch: ChannelView<C, U>,
    pub policy: PolicyView,
    pub stage: Stage,
    /// User sends that run and are not registered as waiting.
    pub running: nat,
    /// User sends that registered and have to try once more.
    pub registered: nat,
    /// User sends that sleep until they are let go.
    pub asleep: nat,
    /// User sends that got through while registered and have to take their
    /// registration back.
    pub quitting: nat,
    /// Claimed positions of the user lane that are not published.
    pub holding: Set<int>,
    /// Claimed positions of the control lane that are not published.
    pub control_holding: Set<int>,
    /// Sends of either lane that have published and not told the consumer.
    pub published: nat,
    /// Last senders of a lane that are gone and have not told the consumer.
    pub leaving: nat,
}

/// One small step of a producer or of the consumer.
pub enum Move<C, U> {
    /// A user send starts.
    StartSend,
    /// A send that does not wait gives up on a full lane, or on a consumer that
    /// is gone.
    TurnedAway,
    /// A running send claims a position.
    Claim,
    /// A claimed user position is published.
    Publish { pos: int, value: U },
    /// A control send claims a position.
    ClaimControl,
    /// A claimed control position is published.
    PublishControl { pos: int, signal: C },
    /// A send that published tells the consumer.
    Tell,
    /// A running send registers as waiting.
    Register,
    /// A registered send finds room after all and claims a position.
    ClaimRegistered,
    /// A registered send finds that the consumer is gone.
    QuitRegistered,
    /// A registered send finds no room and sleeps.
    FallAsleep,
    /// A sleeping send is let go.
    LetGo,
    /// A sleeping send is given up.
    GiveUp,
    /// A send that got through while registered takes its registration back.
    TakeBack,
    /// A user sender more.
    AddUserSender,
    /// A control sender more.
    AddControlSender,
    /// A sender that is about to leave tells the consumer.
    Nudge,
    /// A user sender leaves.
    LeaveUser,
    /// A control sender leaves.
    LeaveControl,
    /// The last sender of a lane, gone, tells the consumer.
    TellGone,
    /// The consumer takes what is there, from both lanes.
    Attempt,
    /// The consumer takes what is there, from the control lane.
    AttemptControl,
    /// The consumer announces that it is about to sleep.
    Announce { control_only: bool },
    /// The consumer looks once more at both lanes.
    Recheck,
    /// The consumer looks once more at the control lane.
    RecheckControl,
    /// The consumer was notified and goes on.
    Resume,
    /// The receive is given up while it sleeps.
    CancelReceive,
    /// The consumer is torn down.
    TearDown,
}

/// The unpublished entries are those whose position is in `holding`.
#[verifier::opaque]
pub open spec fn held_positions_agree<U>(
    entries: Seq<Option<U>>,
    popped: int,
    holding: Set<int>,
) -> bool {
    &&& forall|pos: int| #[trigger]
        holding.contains(pos) ==> popped <= pos < popped + entries.len() && entries[pos
            - popped] is None
    &&& forall|k: int|
        0 <= k < entries.len() && (#[trigger] entries[k]) is None ==> holding.contains(popped + k)
}

impl<C, U> System<C, U> {
    /// Somebody is in the middle of something that ends with the consumer being
    /// told, or with a look at a lane that is full.
    pub open spec fn busy(self) -> bool {
        ||| self.running + self.registered + self.published + self.leaving > 0
        ||| self.holding.len() > 0
        ||| self.control_holding.len() > 0
    }

    /// The consumer sleeps and has not been notified.
    pub open spec fn consumer_sleeps(self) -> bool {
        self.stage is Asleep && !self.ch.core.notify.ready()
    }

    /// The step can be taken now, and the counters that it moves have room.
    pub open spec fn can(self, m: Move<C, U>) -> bool {
        let user = self.ch.user;
        match m {
            Move::StartSend => user.senders > 0,
            Move::TurnedAway => self.running > 0 && (self.ch.full()
                || self.ch.core.consumer_gone),
            Move::Claim => self.running > 0 && !self.ch.full(),
            Move::Publish { pos, .. } => self.holding.contains(pos),
            Move::ClaimControl => self.ch.control.senders > 0 && self.ch.control.end()
                <= usize::MAX - crate::control_lane::CBLOCK,
            Move::PublishControl { pos, .. } => self.control_holding.contains(pos),
            Move::Tell => self.published > 0,
            Move::Register => self.running > 0 && user.waiting < usize::MAX,
            Move::ClaimRegistered => self.registered > 0 && !self.ch.full(),
            Move::QuitRegistered => self.registered > 0 && self.ch.core.consumer_gone,
            Move::FallAsleep => self.registered > 0 && self.ch.full()
                && !self.ch.core.consumer_gone,
            Move::LetGo => self.asleep > 0 && user.send_notify.ready(),
            Move::GiveUp => self.asleep > 0,
            Move::TakeBack => self.quitting > 0,
            Move::AddUserSender => 0 < user.senders < usize::MAX,
            Move::AddControlSender => 0 < self.ch.control.senders < usize::MAX,
            Move::Nudge => true,
            Move::LeaveUser => {
                &&& user.senders > 0
                &&& user.senders == 1 ==> self.running + self.registered + self.asleep
                    + self.quitting == 0 && self.holding.len() == 0
            },
            Move::LeaveControl => {
                &&& self.ch.control.senders > 0
                &&& self.ch.control.senders == 1 ==> self.control_holding.len() == 0
            },
            Move::TellGone => self.leaving > 0,
            Move::Attempt => self.stage is Awake,
            Move::AttemptControl => self.stage is Awake,
            Move::Announce { .. } => self.stage is Awake,
            Move::Recheck => self.stage == (Stage::Announced { control_only: false }),
            Move::RecheckControl => self.stage == (Stage::Announced { control_only: true }),
            Move::Resume => self.stage is Asleep && self.ch.core.notify.ready(),
            Move::CancelReceive => self.stage is Asleep,
            Move::TearDown => self.stage is Awake,
        }
    }

    /// The user lane once one more position is claimed.
    pub open spec fn claimed(self) -> ChannelView<C, U> {
        ChannelView { user: self.ch.user.after_claim(), ..self.ch }
    }

    /// The position that the next claim of the user lane gets.
    pub open spec fn next_position(self) -> int {
        (self.ch.user.popped + self.ch.user.entries.len()) as int
    }

    /// The system after the step.
    pub open spec fn step(self, m: Move<C, U>) -> System<C, U> {
        let ch = self.ch;
        match m {
            Move::StartSend => System { running: self.running + 1, ..self },
            Move::TurnedAway => System { running: (self.running - 1) as nat, ..self },
            Move::Claim => System {
                ch: self.claimed(),
                running: (self.running - 1) as nat,
                holding: self.holding.insert(self.next_position()),
                ..self
            },
            Move::Publish { pos, value } => System {
                ch: ChannelView {
                    user: ch.user.after_publish(ch.user.counter(pos - ch.user.popped), value),
                    ..ch
                },
                holding: self.holding.remove(pos),
                published: self.published + 1,
                ..self
            },
            Move::ClaimControl => System {
                ch: ChannelView { control: ch.control.after_claim(), ..ch },
                control_holding: self.control_holding.insert(ch.control.end()),
                ..self
            },
            Move::PublishControl { pos, signal } => System {
                ch: ChannelView { control: ch.control.after_publish(pos, signal), ..ch },
                control_holding: self.control_holding.remove(pos),
                published: self.published + 1,
                ..self
            },
            Move::Tell => System {
                ch: ch.woken(),
                published: (self.published - 1) as nat,
                ..self
            },
            Move::Register => System {
                ch: ChannelView { user: ch.user.after_wait(), ..ch },
                running: (self.running - 1) as nat,
                registered: self.registered + 1,
                ..self
            },
            Move::ClaimRegistered => System {
                ch: self.claimed(),
                registered: (self.registered - 1) as nat,
                quitting: self.quitting + 1,
                holding: self.holding.insert(self.next_position()),
                ..self
            },
            Move::QuitRegistered => System {
                ch: ChannelView { user: ch.user.after_giving_up(), ..ch },
                registered: (self.registered - 1) as nat,
                ..self
            },
            Move::FallAsleep => System {
                registered: (self.registered - 1) as nat,
                asleep: self.asleep + 1,
                ..self
            },
            Move::LetGo => System {
                ch: ChannelView { user: ch.user.after_pass(), ..ch },
                asleep: (self.asleep - 1) as nat,
                running: self.running + 1,
                ..self
            },
            Move::GiveUp => System {
                ch: ChannelView { user: ch.user.after_giving_up(), ..ch },
                asleep: (self.asleep - 1) as nat,
                ..self
            },
            Move::TakeBack => System {
                ch: ChannelView { user: ch.user.after_giving_up(), ..ch },
                quitting: (self.quitting - 1) as nat,
                ..self
            },
            Move::AddUserSender => System { ch: ch.user_sender_added(), ..self },
            Move::AddControlSender => System { ch: ch.control_sender_added(), ..self },
            Move::Nudge => System { ch: ch.woken(), ..self },
            Move::LeaveUser => System {
                ch: ChannelView {
                    user: UserLaneView { senders: (ch.user.senders - 1) as nat, ..ch.user },
                    ..ch
                },
                leaving: if ch.user.senders == 1 {
                    self.leaving + 1
                } else {
                    self.leaving
                },
                ..self
            },
            Move::LeaveControl => System {
                ch: ChannelView {
                    control: ControlLaneView {
                        senders: (ch.control.senders - 1) as nat,
                        ..ch.control
                    },
                    ..ch
                },
                leaving: if ch.control.senders == 1 {
                    self.leaving + 1
                } else {
                    self.leaving
                },
                ..self
            },
            Move::TellGone => System {
                ch: ch.woken(),
                leaving: (self.leaving - 1) as nat,
                ..self
            },
            Move::Attempt => System {
                ch: ch.served(ch.pick(self.policy), self.policy.due()),
                policy: self.policy.after(ch.pick(self.policy)),
                ..self
            },
            Move::AttemptControl => System { ch: ch.control_served(), ..self },
            Move::Announce { control_only } => System {
                ch: ch.announced(),
                stage: Stage::Announced { control_only },
                ..self
            },
            Move::Recheck => {
                let pick = ch.late_pick(self.policy);
                System {
                    ch: if pick is Nothing {
                        ch.served(pick, false).waiter_released()
                    } else {
                        ChannelView { core: ch.core.withdrawn(), ..ch.served(pick, false) }
                    },
                    policy: self.policy.after(pick),
                    stage: if pick is Nothing {
                        Stage::Asleep { control_only: false }
                    } else {
                        Stage::Awake
                    },
                    ..self
                }
            },
            Move::RecheckControl => System {
                ch: if ch.control_handed() is Pending {
                    ch.control_served()
                } else {
                    ChannelView { core: ch.core.withdrawn(), ..ch.control_served() }
                },
                stage: if ch.control_handed() is Pending {
                    Stage::Asleep { control_only: true }
                } else {
                    Stage::Awake
                },
                ..self
            },
            Move::Resume => System {
                ch: ChannelView { core: ch.core.resumed(), ..ch },
                stage: Stage::Awake,
                ..self
            },
            Move::CancelReceive => System {
                ch: ChannelView { core: ch.core.cancelled(), ..ch },
                stage: Stage::Awake,
                ..self
            },
            Move::TearDown => System { ch: ch.torn_down(), stage: Stage::Gone, ..self },
        }
    }

    /// The registrations are those of the sends that wait and of the consumer.
    pub open spec fn counts_agree(self) -> bool {
        self.producers_counted() && self.consumer_counted()
    }

    /// Every send that waits is registered.
    pub open spec fn producers_counted(self) -> bool {
        &&& self.ch.user.waiting == self.registered + self.asleep + self.quitting
        &&& self.ch.user.send_notify.registered() == self.ch.user.waiting
    }

    /// The consumer is registered, and says so, while it is about to sleep.
    pub open spec fn consumer_counted(self) -> bool {
        &&& self.ch.core.notify.registered() == if self.stage is Announced
            || self.stage is Asleep {
            1nat
        } else {
            0nat
        }
        &&& self.stage is Announced || self.stage is Asleep ==> self.ch.core.parked
        &&& self.stage is Gone == self.ch.core.consumer_gone
    }

    /// The unpublished positions of both lanes are those that somebody holds.
    pub open spec fn claims_agree(self) -> bool {
        self.user_claims_agree() && self.control_claims_agree()
    }

    /// The unpublished positions of the user lane are those that somebody holds.
    pub open spec fn user_claims_agree(self) -> bool {
        let user = self.ch.user;
        &&& self.holding.finite()
        &&& held_positions_agree(user.entries, user.popped as int, self.holding)
        &&& user.senders == 0 ==> self.running + self.registered + self.asleep + self.quitting
            == 0 && self.holding.len() == 0
    }

    /// The unpublished positions of the control lane are those that somebody
    /// holds.
    pub open spec fn control_claims_agree(self) -> bool {
        let control = self.ch.control;
        &&& self.control_holding.finite()
        &&& held_positions_agree(
            control.entries,
            control.storage.taken as int,
            self.control_holding,
        )
        &&& control.senders == 0 ==> self.control_holding.len() == 0
    }

    /// Both lanes are consistent.
    pub open spec fn lanes_are_consistent(self) -> bool {
        self.ch.user.consistent() && self.ch.control.consistent()
    }

    /// If the consumer sleeps although there is something for it, somebody is
    /// about to tell it.
    pub open spec fn consumer_will_be_told(self) -> bool {
        self.consumer_sleeps() ==> {
            &&& self.stage == (Stage::Asleep { control_only: false }) && !(self.ch.late_pick(
                self.policy,
            ) is Nothing) ==> self.published + self.leaving > 0
            &&& self.stage == (Stage::Asleep { control_only: true })
                && !(self.ch.control_handed() is Pending) ==> self.published + self.leaving > 0
        }
    }

    /// If the consumer sleeps on both lanes while sends wait for room, one of
    /// them has been let go or somebody is in the middle of something.
    pub open spec fn producers_will_be_let_go(self) -> bool {
        self.consumer_sleeps() && self.stage == (Stage::Asleep { control_only: false })
            && self.ch.user.waiting > 0 ==> self.ch.user.send_notify.ready() || self.busy()
    }

    /// Once the consumer is gone, every send that sleeps has been let go.
    pub open spec fn teardown_reaches_everyone(self) -> bool {
        self.stage is Gone ==> self.ch.user.send_notify.enabled <= self.registered
            + self.quitting
    }

    /// What holds between any two steps.
    pub open spec fn sound(self) -> bool {
        &&& self.counts_agree()
        &&& self.lanes_are_consistent()
        &&& self.claims_agree()
        &&& self.consumer_will_be_told()
        &&& self.producers_will_be_let_go()
        &&& self.teardown_reaches_everyone()
    }

    /// The system after a run of steps.
    pub open spec fn after(self, moves: Seq<Move<C, U>>) -> System<C, U>
        decreases moves.len(),
    {
        if moves.len() == 0 {
            self
        } else {
            self.step(moves[0]).after(moves.drop_first())
        }
    }

    /// Every step of the run can be taken when its turn comes.
    pub open spec fn can_all(self, moves: Seq<Move<C, U>>) -> bool
        decreases moves.len(),
    {
        moves.len() == 0 || (self.can(moves[0]) && self.step(moves[0]).can_all(
            moves.drop_first(),
        ))
    }
}

/// A full lane means that the consumer has been told, or that somebody is in
/// the middle of something.
proof fn lemma_full_lane_is_noticed<C, U>(s: System<C, U>)
    requires
        s.sound(),
        s.ch.full(),
    ensures
        s.consumer_sleeps() && s.stage == (Stage::Asleep { control_only: false }) ==> s.published
            + s.leaving > 0 || s.holding.len() > 0,
{
    let user = s.ch.user;
    if user.entries[0] is None {
        lemma_unpublished_head_is_held(s);
    }
}

/// If the oldest claim is not published, somebody holds it.
proof fn lemma_unpublished_head_is_held<C, U>(s: System<C, U>)
    requires
        s.user_claims_agree(),
        s.ch.user.entries.len() > 0,
        s.ch.user.entries[0] is None,
    ensures
        s.holding.len() > 0,
{
    reveal(held_positions_agree);
    assert(s.holding.contains(s.ch.user.popped as int));
    if s.holding.len() == 0 {
        assert(s.holding =~= Set::empty());
    }
}

/// One more claim.
proof fn lemma_claim_agrees<U>(entries: Seq<Option<U>>, popped: int, holding: Set<int>)
    requires
        held_positions_agree(entries, popped, holding),
    ensures
        held_positions_agree(entries.push(None), popped, holding.insert(popped + entries.len())),
{
    reveal(held_positions_agree);
    let after = entries.push(None);
    let held = holding.insert(popped + entries.len());
    assert forall|k: int|
        0 <= k < after.len() && (#[trigger] after[k]) is None implies held.contains(popped + k) by {
        if k < entries.len() {
            assert(entries[k] is None);
        }
    }
}

/// A held position is published.
proof fn lemma_publication_agrees<U>(
    entries: Seq<Option<U>>,
    popped: int,
    holding: Set<int>,
    pos: int,
    value: U,
)
    requires
        held_positions_agree(entries, popped, holding),
        holding.contains(pos),
    ensures
        0 <= pos - popped < entries.len(),
        held_positions_agree(
            entries.update(pos - popped, Some(value)),
            popped,
            holding.remove(pos),
        ),
{
    reveal(held_positions_agree);
    let after = entries.update(pos - popped, Some(value));
    let held = holding.remove(pos);
    assert forall|k: int|
        0 <= k < after.len() && (#[trigger] after[k]) is None implies held.contains(popped + k) by {
        assert(entries[k] is None);
    }
}

/// The oldest entry, which is published, leaves.
proof fn lemma_pop_agrees<U>(entries: Seq<Option<U>>, popped: int, holding: Set<int>)
    requires
        held_positions_agree(entries, popped, holding),
        entries.len() > 0,
        entries[0] is Some,
    ensures
        held_positions_agree(entries.drop_first(), popped + 1, holding),
{
    reveal(held_positions_agree);
    let after = entries.drop_first();
    assert forall|pos: int| #[trigger] holding.contains(pos) implies popped + 1 <= pos < popped + 1
        + after.len() && after[pos - (popped + 1)] is None by {
        assert(pos != popped);
    }
    assert forall|k: int|
        0 <= k < after.len() && (#[trigger] after[k]) is None implies holding.contains(
        popped + 1 + k,
    ) by {
        assert(entries[k + 1] is None);
    }
}

/// A set that holds something is not empty.
proof fn lemma_held(holding: Set<int>, pos: int)
    requires
        holding.finite(),
        holding.contains(pos),
    ensures
        holding.len() > 0,
{
    if holding.len() == 0 {
        assert(holding =~= Set::empty());
    }
}

/// Claims and positions of the user lane still agree after the step.
proof fn lemma_user_claims<C, U>(s: System<C, U>, m: Move<C, U>)
    requires
        s.ch.user.consistent(),
        s.user_claims_agree(),
        s.can(m),
    ensures
        s.step(m).user_claims_agree(),
{
    let user = s.ch.user;
    let popped = user.popped as int;
    match m {
        Move::Claim => {
            lemma_claim_agrees(user.entries, popped, s.holding);
        },
        Move::ClaimRegistered => {
            lemma_claim_agrees(user.entries, popped, s.holding);
        },
        Move::Publish { pos, value } => {
            lemma_publication_agrees(user.entries, popped, s.holding, pos, value);
            lemma_held(s.holding, pos);
            crate::user_lane::lemma_claim_is_found(user, pos - popped);
        },
        Move::Attempt => {
            if s.ch.pick(s.policy) is User {
                lemma_pop_agrees(user.entries, popped, s.holding);
            }
        },
        Move::Recheck => {
            if s.ch.late_pick(s.policy) is User {
                lemma_pop_agrees(user.entries, popped, s.holding);
            }
        },
        _ => {},
    }
}

/// Claims and positions of the control lane still agree after the step.
proof fn lemma_control_claims<C, U>(s: System<C, U>, m: Move<C, U>)
    requires
        s.control_claims_agree(),
        s.can(m),
    ensures
        s.step(m).control_claims_agree(),
{
    let control = s.ch.control;
    let taken = control.storage.taken as int;
    if control.poppable() {
        lemma_pop_agrees(control.entries, taken, s.control_holding);
    }
    match m {
        Move::ClaimControl => {
            lemma_claim_agrees(control.entries, taken, s.control_holding);
        },
        Move::PublishControl { pos, signal } => {
            lemma_publication_agrees(control.entries, taken, s.control_holding, pos, signal);
            lemma_held(s.control_holding, pos);
        },
        _ => {},
    }
}

/// The control lane is still consistent after the step.
proof fn lemma_control_is_consistent<C, U>(s: System<C, U>, m: Move<C, U>)
    requires
        s.ch.control.consistent(),
        s.control_claims_agree(),
        s.can(m),
    ensures
        s.step(m).ch.control.consistent(),
{
    let control = s.ch.control;
    match m {
        Move::PublishControl { pos, signal } => {
            lemma_publication_agrees(
                control.entries,
                control.storage.taken as int,
                s.control_holding,
                pos,
                signal,
            );
            assert(control.entries[pos - control.storage.taken] is None) by {
                reveal(held_positions_agree);
            }
            crate::control_lane::law_lane_stays_consistent(control, pos, signal);
        },
        _ => {
            let any = vstd::pervasive::arbitrary::<C>();
            crate::control_lane::law_lane_stays_consistent(control, 0, any);
        },
    }
}

/// The user lane is still consistent after the step.
#[verifier::spinoff_prover]
#[verifier::rlimit(60)]
proof fn lemma_user_is_consistent<C, U>(s: System<C, U>, m: Move<C, U>)
    requires
        s.producers_counted(),
        s.ch.user.consistent(),
        s.user_claims_agree(),
        s.can(m),
    ensures
        s.step(m).producers_counted(),
        s.step(m).ch.user.consistent(),
{
    let user = s.ch.user;
    match m {
        Move::Publish { pos, value } => {
            lemma_publication_agrees(user.entries, user.popped as int, s.holding, pos, value);
            crate::user_lane::lemma_claim_is_found(user, pos - user.popped);
        },
        _ => {},
    }
}

/// The consumer is still counted right after the step.
proof fn lemma_consumer_counted<C, U>(s: System<C, U>, m: Move<C, U>)
    requires
        s.consumer_counted(),
        s.can(m),
    ensures
        s.step(m).consumer_counted(),
{
}

/// Teardown has still reached everyone after the step.
proof fn lemma_teardown<C, U>(s: System<C, U>, m: Move<C, U>)
    requires
        s.counts_agree(),
        s.teardown_reaches_everyone(),
        s.can(m),
    ensures
        s.step(m).teardown_reaches_everyone(),
{
}

/// Somebody still tells the consumer after the step.
proof fn lemma_told<C, U>(s: System<C, U>, m: Move<C, U>)
    requires
        s.counts_agree(),
        s.consumer_will_be_told(),
        s.can(m),
    ensures
        s.step(m).consumer_will_be_told(),
{
}

/// Somebody still lets the producers go after the step.
proof fn lemma_let_go<C, U>(s: System<C, U>, m: Move<C, U>)
    requires
        s.sound(),
        s.can(m),
    ensures
        s.step(m).producers_will_be_let_go(),
{
    let t = s.step(m);
    if s.ch.full() {
        lemma_full_lane_is_noticed(s);
    }
    match m {
        Move::Claim | Move::ClaimRegistered => {
            lemma_held(t.holding, s.next_position());
        },
        _ => {},
    }
}

/// One step keeps the system sound.
pub proof fn law_step_is_sound<C, U>(s: System<C, U>, m: Move<C, U>)
    requires
        s.sound(),
        s.can(m),
    ensures
        s.step(m).sound(),
{
    lemma_user_claims(s, m);
    lemma_control_claims(s, m);
    lemma_user_is_consistent(s, m);
    lemma_control_is_consistent(s, m);
    lemma_consumer_counted(s, m);
    lemma_teardown(s, m);
    lemma_told(s, m);
    lemma_let_go(s, m);
}

/// Whatever producers and consumer do, in whatever order their small steps
/// interleave, the system stays sound.
pub proof fn law_every_interleaving_is_sound<C, U>(s: System<C, U>, moves: Seq<Move<C, U>>)
    requires
        s.sound(),
        s.can_all(moves),
    ensures
        s.after(moves).sound(),
    decreases moves.len(),
{
    if moves.len() > 0 {
        law_step_is_sound(s, moves[0]);
        law_every_interleaving_is_sound(s.step(moves[0]), moves.drop_first());
    }
}

/// No lost wakeup: a consumer that sleeps while nobody is about to tell it
/// anything has nothing to receive.
pub proof fn law_sleeping_consumer_misses_nothing<C, U>(s: System<C, U>)
    requires
        s.sound(),
        s.consumer_sleeps(),
        s.published == 0,
        s.leaving == 0,
    ensures
        s.stage == (Stage::Asleep { control_only: false }) ==> {
            &&& !s.ch.control.poppable() && !s.ch.user.poppable()
            &&& s.ch.user.senders == 0 ==> s.policy.reported
            &&& !(s.ch.control.senders == 0 && s.ch.user.senders == 0)
        },
        s.stage == (Stage::Asleep { control_only: true }) ==> {
            &&& !s.ch.control.poppable()
            &&& s.ch.control.senders > 0
        },
{
}

/// Being told wakes the consumer: a send that has published, or the last sender
/// of a lane that has left, finds it registered and lets it go on.
pub proof fn law_telling_wakes_the_consumer<C, U>(s: System<C, U>)
    requires
        s.sound(),
        s.stage is Asleep,
    ensures
        s.can(Move::Tell) ==> s.step(Move::Tell).can(Move::Resume),
        s.can(Move::TellGone) ==> s.step(Move::TellGone).can(Move::Resume),
{
}

/// No deadlock: while the consumer sleeps on both lanes and nobody else runs,
/// any producer that waits for room has been let go.
pub proof fn law_waiting_producers_do_not_sleep_forever<C, U>(s: System<C, U>)
    requires
        s.sound(),
        s.consumer_sleeps(),
        s.stage == (Stage::Asleep { control_only: false }),
        !s.busy(),
        s.asleep > 0,
    ensures
        s.can(Move::LetGo),
{
}

/// Teardown reaches everybody: once the consumer is gone, any producer that
/// sleeps has been let go.
pub proof fn law_teardown_wakes_every_producer<C, U>(s: System<C, U>)
    requires
        s.sound(),
        s.stage is Gone,
        s.asleep > 0,
    ensures
        s.can(Move::LetGo),
{
}

/// The end-marker cannot overtake an item: when it is served, nothing of the
/// user lane is queued, and no send is on its way.
pub proof fn law_marker_overtakes_nothing<C, U>(s: System<C, U>)
    requires
        s.sound(),
        s.ch.pick(s.policy) is Marker,
    ensures
        s.ch.user.entries.len() == 0,
        s.holding.len() == 0,
        s.running + s.registered + s.asleep == 0,
{
    if s.ch.user.entries.len() > 0 {
        lemma_unpublished_head_is_held(s);
    }
}

/// A new channel that nobody uses yet.
pub open spec fn idle<C, U>(cfg: Config, ch: ChannelView<C, U>) -> System<C, U> {
    System {
        ch,
        policy: crate::consumer::fresh_consumer(cfg).policy,
        stage: Stage::Awake,
        running: 0,
        registered: 0,
        asleep: 0,
        quitting: 0,
        holding: Set::empty(),
        control_holding: Set::empty(),
        published: 0,
        leaving: 0,
    }
}

/// A new channel is sound.
pub proof fn law_new_channel_is_sound<C, U>(cfg: Config, ch: ChannelView<C, U>)
    requires
        crate::channel::fresh_channel(cfg, ch),
    ensures
        idle(cfg, ch).sound(),
{
    reveal(held_positions_agree);
}

} // verus!
