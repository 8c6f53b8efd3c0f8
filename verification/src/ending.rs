use crate::channel::{ChannelView, Step};
use crate::delivery::{Act, Journal};
use crate::protocol::{Move, System};
use crate::types::{Config, Received};
use vstd::prelude::*;

verus! {

impl<C, U> System<C, U> {
    /// Every sender of both lanes is gone.
    pub open spec fn closed(self) -> bool {
        self.ch.control.senders == 0 && self.ch.user.senders == 0
    }

    /// How much the consumer of a closed channel still has to hand out: what is
    /// queued, and the end-marker of the user lane unless it is out.
    pub open spec fn remaining(self) -> nat {
        self.ch.control.entries.len() + self.ch.user.entries.len() + if self.policy.reported {
            0nat
        } else {
            1nat
        }
    }
}

/// A turn of a receive: a look at both lanes.
pub open spec fn is_turn<C, U>(m: Move<C, U>) -> bool {
    m is Attempt || m is Recheck
}

/// How many turns a run of steps holds.
pub open spec fn turns<C, U>(moves: Seq<Move<C, U>>) -> nat
    decreases moves.len(),
{
    if moves.len() == 0 {
        0
    } else {
        (if is_turn(moves[0]) {
            1nat
        } else {
            0nat
        }) + turns(moves.drop_first())
    }
}

/// In a closed channel everything that was claimed is published.
proof fn lemma_closed_is_settled<C, U>(s: System<C, U>)
    requires
        s.sound(),
        s.closed(),
    ensures
        s.ch.settled(),
{
    reveal(crate::protocol::held_positions_agree);
    assert(s.holding =~= Set::empty());
    assert(s.control_holding =~= Set::empty());
}

/// A receive never waits on a closed channel: each look at both lanes finds an
/// item, the end-marker or the end, and so the consumer does not fall asleep.
pub proof fn law_closed_channel_keeps_nobody_waiting<C, U>(s: System<C, U>)
    requires
        s.sound(),
        s.closed(),
    ensures
        !(s.ch.pick(s.policy) is Nothing),
        !(s.ch.late_pick(s.policy) is Nothing),
        s.can(Move::Recheck) ==> s.step(Move::Recheck).stage is Awake,
        s.remaining() == 0 <==> s.ch.pick(s.policy) is End,
        s.remaining() == 0 <==> s.ch.late_pick(s.policy) is End,
{
    lemma_closed_is_settled(s);
}

/// A consumer that sleeps on a closed channel goes on: it was notified, or
/// somebody is about to notify it.
pub proof fn law_closing_wakes_the_consumer<C, U>(s: System<C, U>)
    requires
        s.sound(),
        s.closed(),
        s.stage is Asleep,
    ensures
        s.can(Move::Resume) || (s.can(Move::Tell) && s.step(Move::Tell).can(Move::Resume)) || (
        s.can(Move::TellGone) && s.step(Move::TellGone).can(Move::Resume)),
{
    law_closed_channel_keeps_nobody_waiting(s);
    crate::protocol::law_telling_wakes_the_consumer(s);
}

/// One step in a closed channel: it stays closed, nothing is added to what
/// remains, and a turn takes one thing away as long as there is one.
proof fn lemma_step_when_closed<C, U>(s: System<C, U>, m: Move<C, U>)
    requires
        s.sound(),
        s.closed(),
        s.can(m),
    ensures
        s.step(m).closed(),
        s.step(m).remaining() <= s.remaining(),
        is_turn(m) && s.remaining() > 0 ==> s.step(m).remaining() == s.remaining() - 1,
{
    lemma_closed_is_settled(s);
    match m {
        Move::Publish { pos, .. } => {
            assert(s.holding =~= Set::empty());
        },
        Move::PublishControl { pos, .. } => {
            assert(s.control_holding =~= Set::empty());
        },
        _ => {},
    }
}

/// Receiving comes to an end: once the senders of both lanes are gone, whatever
/// steps are taken, as many turns as there are things to hand out leave nothing,
/// and every further receive answers that it is over.
pub proof fn law_receiving_ends<C, U>(s: System<C, U>, moves: Seq<Move<C, U>>)
    requires
        s.sound(),
        s.closed(),
        s.can_all(moves),
    ensures
        s.after(moves).sound(),
        s.after(moves).closed(),
        s.after(moves).remaining() <= s.remaining(),
        turns(moves) <= s.remaining() ==> s.after(moves).remaining() <= s.remaining() - turns(
            moves,
        ),
        turns(moves) >= s.remaining() ==> {
            let end = s.after(moves);
            &&& end.remaining() == 0
            &&& end.ch.handed(end.ch.pick(end.policy)) == Step::Ready(
                None::<Received<C, U>>,
            )
            &&& end.ch.handed(end.ch.late_pick(end.policy)) == Step::Ready(
                None::<Received<C, U>>,
            )
        },
    decreases moves.len(),
{
    if moves.len() > 0 {
        crate::protocol::law_step_is_sound(s, moves[0]);
        lemma_step_when_closed(s, moves[0]);
        law_receiving_ends(s.step(moves[0]), moves.drop_first());
    }
    law_closed_channel_keeps_nobody_waiting(s.after(moves));
}

/// The turns of a run, as the journal writes them.
pub open spec fn turns_of<C, U>(acts: Seq<Act<C, U>>) -> nat
    decreases acts.len(),
{
    if acts.len() == 0 {
        0
    } else {
        (match acts[0] {
            Act::Other(m) => if is_turn(m) {
                1nat
            } else {
                0nat
            },
            _ => 0nat,
        }) + turns_of(acts.drop_first())
    }
}

/// What remains of a closed channel after a run that the journal writes.
proof fn lemma_journal_runs_down<C, U>(j: Journal<C, U>, acts: Seq<Act<C, U>>)
    requires
        j.sound(),
        j.system.closed(),
        j.can_all(acts),
    ensures
        j.after(acts).system.closed(),
        j.after(acts).system.remaining() <= if turns_of(acts) >= j.system.remaining() {
            0
        } else {
            j.system.remaining() - turns_of(acts)
        },
    decreases acts.len(),
{
    if acts.len() > 0 {
        lemma_step_when_closed(j.system, j.move_of(acts[0]));
        crate::delivery::law_step_is_told(j, acts[0]);
        lemma_journal_runs_down(j.step(acts[0]), acts.drop_first());
    }
}

/// A receive that is repeated until the end hands out everything: once the
/// senders of both lanes are gone, whatever steps are taken, as many turns as
/// there are things to hand out have given the consumer every item that was ever
/// pushed, once, in the order of the claims and in each producer's own order, and
/// the next receive answers that it is over.
pub proof fn law_everything_is_handed_out<C, U>(j: Journal<C, U>, acts: Seq<Act<C, U>>, by: int)
    requires
        j.sound(),
        j.system.closed(),
        j.can_all(acts),
        turns_of(acts) >= j.system.remaining(),
    ensures
        ({
            let end = j.after(acts);
            &&& end.control.taken == end.control.claims
            &&& end.user.taken == end.user.claims
            &&& end.control.taken_from(by) == end.control.pushed_by(by)
            &&& end.user.taken_from(by) == end.user.pushed_by(by)
            &&& end.system.policy.reported
            &&& end.system.ch.pick(end.system.policy) is End
        }),
{
    lemma_journal_runs_down(j, acts);
    crate::delivery::law_every_interleaving_is_told(j, acts);
    let end = j.after(acts);
    law_closed_channel_keeps_nobody_waiting(end.system);
    let ch = end.system.ch;
    crate::delivery::law_items_come_out_once_in_claim_order(
        end.control,
        ch.control.entries,
        ch.control.storage.taken as int,
    );
    crate::delivery::law_items_come_out_once_in_claim_order(
        end.user,
        ch.user.entries,
        ch.user.popped as int,
    );
    crate::delivery::law_each_producer_keeps_its_order(
        end.control,
        ch.control.entries,
        ch.control.storage.taken as int,
        by,
    );
    crate::delivery::law_each_producer_keeps_its_order(
        end.user,
        ch.user.entries,
        ch.user.popped as int,
        by,
    );
}

/// From the first step to the last: whatever producers and consumer of a new
/// channel do, in whatever order their small steps interleave, once all senders
/// are gone a bounded number of turns has handed out every item that was ever
/// pushed, once and in each producer's own order, and then the end.
pub proof fn law_whole_life_delivers_everything<C, U>(
    cfg: Config,
    ch: ChannelView<C, U>,
    life: Seq<Act<C, U>>,
    closing: Seq<Act<C, U>>,
    by: int,
)
    requires
        crate::channel::fresh_channel(cfg, ch),
        crate::delivery::first_page(crate::protocol::idle(cfg, ch)).can_all(life),
        ({
            let lived = crate::delivery::first_page(crate::protocol::idle(cfg, ch)).after(life);
            &&& lived.system.closed()
            &&& lived.can_all(closing)
            &&& turns_of(closing) >= lived.system.remaining()
        }),
    ensures
        ({
            let lived = crate::delivery::first_page(crate::protocol::idle(cfg, ch)).after(life);
            let end = lived.after(closing);
            &&& end.control.taken == end.control.claims
            &&& end.user.taken == end.user.claims
            &&& end.control.taken_from(by) == end.control.pushed_by(by)
            &&& end.user.taken_from(by) == end.user.pushed_by(by)
            &&& end.system.ch.pick(end.system.policy) is End
        }),
{
    let start = crate::delivery::first_page(crate::protocol::idle(cfg, ch));
    crate::delivery::law_new_journal_is_sound(cfg, ch);
    crate::delivery::law_every_interleaving_is_told(start, life);
    law_everything_is_handed_out(start.after(life), closing, by);
}

} // verus!
