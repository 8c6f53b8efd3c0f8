use crate::channel::{ChannelView, Step};
use crate::protocol::{Move, System};
use crate::types::{Config, Received};
use vstd::prelude::*;

verus! {

/// The items that producer `by` has in a sequence of items and their producers.
pub open spec fn items_of<T>(items: Seq<(int, T)>, by: int) -> Seq<T>
    decreases items.len(),
{
    if items.len() == 0 {
        Seq::empty()
    } else {
        let before = items_of(items.drop_last(), by);
        if items.last().0 == by {
            before.push(items.last().1)
        } else {
            before
        }
    }
}

/// What went through one lane, item by item, and who sent it.
pub struct Ledger<T> {
    /// Every push that claimed a position, with its producer, in the order of
    /// the positions.
    pub claims: Seq<(int, T)>,
    /// The position that a producer in the middle of a push has claimed.
    pub pending: Map<int, int>,
    /// The items whose push is finished, producer by producer, in the order in
    /// which the producer pushed them.
    pub pushed: Map<int, Seq<T>>,
    /// What the consumer took, in that order, with its producer.
    pub taken: Seq<(int, T)>,
}

impl<T> Ledger<T> {
    /// The ledger of a lane that was never used.
    pub open spec fn empty() -> Ledger<T> {
        Ledger {
            claims: Seq::empty(),
            pending: Map::empty(),
            pushed: Map::empty(),
            taken: Seq::empty(),
        }
    }

    /// The items that `by` has pushed, in its own order.
    pub open spec fn pushed_by(self, by: int) -> Seq<T> {
        if self.pushed.contains_key(by) {
            self.pushed[by]
        } else {
            Seq::empty()
        }
    }

    /// The items of `by` that the consumer took, in that order.
    pub open spec fn taken_from(self, by: int) -> Seq<T> {
        items_of(self.taken, by)
    }

    /// Producer `by` starts to push `item` and claims the next position.
    pub open spec fn claimed(self, by: int, item: T) -> Ledger<T> {
        Ledger {
            claims: self.claims.push((by, item)),
            pending: self.pending.insert(by, self.claims.len() as int),
            ..self
        }
    }

    /// The item that `by` is in the middle of pushing.
    pub open spec fn in_hand(self, by: int) -> T {
        self.claims[self.pending[by]].1
    }

    /// Producer `by` publishes its item and is done with this push.
    pub open spec fn published(self, by: int) -> Ledger<T> {
        Ledger {
            pending: self.pending.remove(by),
            pushed: self.pushed.insert(by, self.pushed_by(by).push(self.in_hand(by))),
            ..self
        }
    }

    /// The consumer takes `item`, from the position that is next.
    pub open spec fn popped(self, item: T) -> Ledger<T> {
        Ledger {
            taken: self.taken.push((self.claims[self.taken.len() as int].0, item)),
            ..self
        }
    }

    /// The ledger tells what is in a lane from which `gone` items were taken:
    /// every claim was taken or is still there, with its own item, and those that
    /// are not published are in the hands of the producer that claimed them.
    pub open spec fn tells(self, entries: Seq<Option<T>>, gone: int) -> bool {
        &&& self.taken == self.claims.take(gone)
        &&& self.claims.len() == gone + entries.len()
        &&& 0 <= gone
        &&& forall|k: int|
            0 <= k < entries.len() && (#[trigger] entries[k]) is Some ==> entries[k]->0
                == self.claims[gone + k].1
        &&& forall|k: int|
            0 <= k < entries.len() && (#[trigger] entries[k]) is None ==> {
                &&& self.pending.contains_key(self.claims[gone + k].0)
                &&& self.pending[self.claims[gone + k].0] == gone + k
            }
        &&& forall|by: int| #[trigger]
            self.pending.contains_key(by) ==> {
                &&& gone <= self.pending[by] < self.claims.len()
                &&& entries[self.pending[by] - gone] is None
                &&& self.claims[self.pending[by]].0 == by
            }
    }

    /// Each producer claimed what it pushed, in its own order, and what it has in
    /// hand after that.
    pub open spec fn keeps_orders(self) -> bool {
        forall|by: int| #[trigger]
            items_of(self.claims, by) == if self.pending.contains_key(by) {
                self.pushed_by(by).push(self.in_hand(by))
            } else {
                self.pushed_by(by)
            }
    }
}

/// The items of a producer in two stretches are those of the first and those of
/// the second.
proof fn lemma_items_of_parts<T>(items: Seq<(int, T)>, n: int, by: int)
    requires
        0 <= n <= items.len(),
    ensures
        items_of(items, by) == items_of(items.take(n), by) + items_of(items.skip(n), by),
    decreases items.len(),
{
    if n == items.len() {
        assert(items.take(n) =~= items);
        assert(items.skip(n) =~= Seq::<(int, T)>::empty());
        assert(items_of(items, by) + Seq::<T>::empty() =~= items_of(items, by));
    } else {
        lemma_items_of_parts(items.drop_last(), n, by);
        assert(items.drop_last().take(n) =~= items.take(n));
        assert(items.skip(n).drop_last() =~= items.drop_last().skip(n));
        assert(items.skip(n).last() == items.last());
        assert(items_of(items, by) =~= items_of(items.take(n), by) + items_of(
            items.skip(n),
            by,
        ));
    }
}

/// A producer with a claim in a stretch has an item in it.
proof fn lemma_claim_counts<T>(items: Seq<(int, T)>, i: int)
    requires
        0 <= i < items.len(),
    ensures
        items_of(items, items[i].0).len() > 0,
    decreases items.len(),
{
    if i < items.len() - 1 {
        lemma_claim_counts(items.drop_last(), i);
    }
}

/// One more claim.
proof fn lemma_claimed<T>(l: Ledger<T>, entries: Seq<Option<T>>, gone: int, by: int, item: T)
    requires
        l.tells(entries, gone),
        l.keeps_orders(),
        !l.pending.contains_key(by),
    ensures
        l.claimed(by, item).tells(entries.push(None), gone),
        l.claimed(by, item).keeps_orders(),
{
    let after = l.claimed(by, item);
    assert(after.claims.take(gone) =~= l.claims.take(gone));
    assert(after.claims.drop_last() =~= l.claims);
    assert forall|who: int| #[trigger]
        items_of(after.claims, who) == if after.pending.contains_key(who) {
            after.pushed_by(who).push(after.in_hand(who))
        } else {
            after.pushed_by(who)
        } by {
        assert(items_of(l.claims, who) == items_of(after.claims.drop_last(), who));
    }
}

/// A claim is published.
proof fn lemma_published<T>(l: Ledger<T>, entries: Seq<Option<T>>, gone: int, by: int)
    requires
        l.tells(entries, gone),
        l.keeps_orders(),
        l.pending.contains_key(by),
    ensures
        0 <= l.pending[by] - gone < entries.len(),
        l.published(by).tells(
            entries.update(l.pending[by] - gone, Some(l.in_hand(by))),
            gone,
        ),
        l.published(by).keeps_orders(),
{
    let after = l.published(by);
    let now = entries.update(l.pending[by] - gone, Some(l.in_hand(by)));
    assert forall|k: int| 0 <= k < now.len() && (#[trigger] now[k]) is None implies {
        &&& after.pending.contains_key(after.claims[gone + k].0)
        &&& after.pending[after.claims[gone + k].0] == gone + k
    } by {
        assert(entries[k] is None);
    }
    assert forall|who: int| #[trigger]
        items_of(after.claims, who) == if after.pending.contains_key(who) {
            after.pushed_by(who).push(after.in_hand(who))
        } else {
            after.pushed_by(who)
        } by {
        assert(items_of(l.claims, who) == items_of(after.claims, who));
    }
}

/// The oldest item is taken.
proof fn lemma_popped<T>(l: Ledger<T>, entries: Seq<Option<T>>, gone: int)
    requires
        l.tells(entries, gone),
        l.keeps_orders(),
        entries.len() > 0,
        entries[0] is Some,
    ensures
        l.popped(entries[0]->0).tells(entries.drop_first(), gone + 1),
        l.popped(entries[0]->0).keeps_orders(),
{
    let after = l.popped(entries[0]->0);
    let now = entries.drop_first();
    assert(after.taken =~= after.claims.take(gone + 1));
    assert forall|k: int| 0 <= k < now.len() && (#[trigger] now[k]) is Some implies now[k]->0
        == after.claims[gone + 1 + k].1 by {
        assert(entries[k + 1] is Some);
    }
    assert forall|k: int| 0 <= k < now.len() && (#[trigger] now[k]) is None implies {
        &&& after.pending.contains_key(after.claims[gone + 1 + k].0)
        &&& after.pending[after.claims[gone + 1 + k].0] == gone + 1 + k
    } by {
        assert(entries[k + 1] is None);
    }
    assert forall|who: int| #[trigger]
        items_of(after.claims, who) == if after.pending.contains_key(who) {
            after.pushed_by(who).push(after.in_hand(who))
        } else {
            after.pushed_by(who)
        } by {
        assert(items_of(l.claims, who) == items_of(after.claims, who));
    }
}

/// A channel in use, step by step, together with what went through its lanes.
pub struct Journal<C, U> {
    pub system: System<C, U>,
    pub control: Ledger<C>,
    pub user: Ledger<U>,
}

/// One small step, with the producer that takes it where that matters. A
/// producer pushes one item after the other.
pub enum Act<C, U> {
    /// A producer starts to push a control item and claims a position.
    ClaimControl { by: int, signal: C },
    /// The producer publishes its control item.
    PublishControl { by: int },
    /// A running user send claims a position.
    Claim { by: int, item: U },
    /// A registered user send claims a position after all.
    ClaimRegistered { by: int, item: U },
    /// The producer publishes its user item.
    Publish { by: int },
    /// Any other step.
    Other(Move<C, U>),
}

impl<C, U> Journal<C, U> {
    /// The step as the channel sees it.
    pub open spec fn move_of(self, act: Act<C, U>) -> Move<C, U> {
        match act {
            Act::ClaimControl { .. } => Move::ClaimControl,
            Act::PublishControl { by } => Move::PublishControl {
                pos: self.control.pending[by],
                signal: self.control.in_hand(by),
            },
            Act::Claim { .. } => Move::Claim,
            Act::ClaimRegistered { .. } => Move::ClaimRegistered,
            Act::Publish { by } => Move::Publish {
                pos: self.user.pending[by],
                value: self.user.in_hand(by),
            },
            Act::Other(m) => m,
        }
    }

    /// The step can be taken now.
    pub open spec fn can(self, act: Act<C, U>) -> bool {
        &&& self.system.can(self.move_of(act))
        &&& match act {
            Act::ClaimControl { by, .. } => !self.control.pending.contains_key(by),
            Act::PublishControl { by } => self.control.pending.contains_key(by),
            Act::Claim { by, .. } => !self.user.pending.contains_key(by),
            Act::ClaimRegistered { by, .. } => !self.user.pending.contains_key(by),
            Act::Publish { by } => self.user.pending.contains_key(by),
            Act::Other(m) => !(m is ClaimControl || m is PublishControl || m is Claim
                || m is ClaimRegistered || m is Publish),
        }
    }

    /// What a receive answers in the step, if the step is part of one.
    pub open spec fn answer(self, act: Act<C, U>) -> Step<Option<Received<C, U>>> {
        let s = self.system;
        match act {
            Act::Other(Move::Attempt) => s.ch.handed(s.ch.pick(s.policy)),
            Act::Other(Move::Recheck) => s.ch.handed(s.ch.late_pick(s.policy)),
            Act::Other(Move::AttemptControl) | Act::Other(Move::RecheckControl) => {
                match s.ch.control_handed() {
                    Step::Ready(Some(c)) => Step::Ready(Some(Received::Control(c))),
                    Step::Ready(None) => Step::Ready(None),
                    Step::Pending => Step::Pending,
                }
            },
            _ => Step::Pending,
        }
    }

    /// The journal after the step.
    pub open spec fn step(self, act: Act<C, U>) -> Journal<C, U> {
        Journal {
            system: self.system.step(self.move_of(act)),
            control: match act {
                Act::ClaimControl { by, signal } => self.control.claimed(by, signal),
                Act::PublishControl { by } => self.control.published(by),
                _ => match self.answer(act) {
                    Step::Ready(Some(Received::Control(c))) => self.control.popped(c),
                    _ => self.control,
                },
            },
            user: match act {
                Act::Claim { by, item } => self.user.claimed(by, item),
                Act::ClaimRegistered { by, item } => self.user.claimed(by, item),
                Act::Publish { by } => self.user.published(by),
                _ => match self.answer(act) {
                    Step::Ready(Some(Received::User(u))) => self.user.popped(u),
                    _ => self.user,
                },
            },
        }
    }

    /// The system is sound, and both ledgers tell what is in their lane.
    pub open spec fn sound(self) -> bool {
        let ch = self.system.ch;
        &&& self.system.sound()
        &&& self.control.tells(ch.control.entries, ch.control.storage.taken as int)
        &&& self.control.keeps_orders()
        &&& self.user.tells(ch.user.entries, ch.user.popped as int)
        &&& self.user.keeps_orders()
    }

    /// The journal after a run of steps.
    pub open spec fn after(self, acts: Seq<Act<C, U>>) -> Journal<C, U>
        decreases acts.len(),
    {
        if acts.len() == 0 {
            self
        } else {
            self.step(acts[0]).after(acts.drop_first())
        }
    }

    /// Every step of the run can be taken when its turn comes.
    pub open spec fn can_all(self, acts: Seq<Act<C, U>>) -> bool
        decreases acts.len(),
    {
        acts.len() == 0 || (self.can(acts[0]) && self.step(acts[0]).can_all(acts.drop_first()))
    }
}

/// The control ledger still tells what is in the lane after the step.
proof fn lemma_control_ledger<C, U>(j: Journal<C, U>, act: Act<C, U>)
    requires
        j.sound(),
        j.can(act),
    ensures
        ({
            let after = j.step(act);
            let lane = after.system.ch.control;
            &&& after.control.tells(lane.entries, lane.storage.taken as int)
            &&& after.control.keeps_orders()
        }),
{
    let lane = j.system.ch.control;
    let gone = lane.storage.taken as int;
    match act {
        Act::ClaimControl { by, signal } => {
            lemma_claimed(j.control, lane.entries, gone, by, signal);
        },
        Act::PublishControl { by } => {
            lemma_published(j.control, lane.entries, gone, by);
        },
        _ => {
            if lane.poppable() {
                lemma_popped(j.control, lane.entries, gone);
            }
        },
    }
}

/// The user ledger still tells what is in the lane after the step.
proof fn lemma_user_ledger<C, U>(j: Journal<C, U>, act: Act<C, U>)
    requires
        j.sound(),
        j.can(act),
    ensures
        ({
            let after = j.step(act);
            let lane = after.system.ch.user;
            &&& after.user.tells(lane.entries, lane.popped as int)
            &&& after.user.keeps_orders()
        }),
{
    let lane = j.system.ch.user;
    let gone = lane.popped as int;
    match act {
        Act::Claim { by, item } => {
            lemma_claimed(j.user, lane.entries, gone, by, item);
        },
        Act::ClaimRegistered { by, item } => {
            lemma_claimed(j.user, lane.entries, gone, by, item);
        },
        Act::Publish { by } => {
            lemma_published(j.user, lane.entries, gone, by);
            crate::user_lane::lemma_claim_is_found(lane, j.user.pending[by] - gone);
        },
        _ => {
            if lane.poppable() {
                lemma_popped(j.user, lane.entries, gone);
            }
        },
    }
}

/// One step keeps the journal in order.
pub proof fn law_step_is_told<C, U>(j: Journal<C, U>, act: Act<C, U>)
    requires
        j.sound(),
        j.can(act),
    ensures
        j.step(act).sound(),
{
    crate::protocol::law_step_is_sound(j.system, j.move_of(act));
    lemma_control_ledger(j, act);
    lemma_user_ledger(j, act);
}

/// However the claims, publications and pops of any number of producers and the
/// consumer interleave, the ledgers go on telling what is in the lanes.
pub proof fn law_every_interleaving_is_told<C, U>(j: Journal<C, U>, acts: Seq<Act<C, U>>)
    requires
        j.sound(),
        j.can_all(acts),
    ensures
        j.after(acts).sound(),
    decreases acts.len(),
{
    if acts.len() > 0 {
        law_step_is_told(j, acts[0]);
        law_every_interleaving_is_told(j.step(acts[0]), acts.drop_first());
    }
}

/// A producer that has claimed a position can always publish its item.
pub proof fn law_claims_can_be_published<C, U>(j: Journal<C, U>, by: int)
    requires
        j.sound(),
    ensures
        j.control.pending.contains_key(by) ==> j.can(Act::PublishControl { by }),
        j.user.pending.contains_key(by) ==> j.can(Act::Publish { by }),
{
    reveal(crate::protocol::held_positions_agree);
}

/// The journal of a system on which nothing was sent yet.
pub open spec fn first_page<C, U>(system: System<C, U>) -> Journal<C, U> {
    Journal { system, control: Ledger::empty(), user: Ledger::empty() }
}

/// The journal of a new channel is in order.
pub proof fn law_new_journal_is_sound<C, U>(
    cfg: Config,
    ch: ChannelView<C, U>,
)
    requires
        crate::channel::fresh_channel(cfg, ch),
    ensures
        first_page(crate::protocol::idle(cfg, ch)).sound(),
{
    crate::protocol::law_new_channel_is_sound(cfg, ch);
    let j = first_page(crate::protocol::idle(cfg, ch));
    assert(j.control.taken =~= j.control.claims.take(0));
    assert(j.user.taken =~= j.user.claims.take(0));
}

/// Exactly once and in the order of the claims: what the consumer took are the
/// first claims, each once, and each of the claims after them is in the lane or,
/// while it is not published, in its producer's hands.
pub proof fn law_items_come_out_once_in_claim_order<T>(
    l: Ledger<T>,
    entries: Seq<Option<T>>,
    gone: int,
)
    requires
        l.tells(entries, gone),
    ensures
        l.taken.len() == gone,
        forall|i: int| 0 <= i < gone ==> #[trigger] l.taken[i] == l.claims[i],
        l.claims == l.taken + l.claims.skip(gone),
        l.claims.skip(gone).len() == entries.len(),
        forall|k: int|
            0 <= k < entries.len() ==> match #[trigger] entries[k] {
                Some(v) => v == l.claims[gone + k].1,
                None => l.pending.contains_key(l.claims[gone + k].0),
            },
        entries.len() == 0 ==> l.taken == l.claims,
{
    assert(l.claims =~= l.taken + l.claims.skip(gone));
    if entries.len() == 0 {
        assert(l.taken =~= l.claims);
    }
}

/// Each producer's own order: what the consumer took of a producer's items are
/// the first of those that the producer pushed, in the order in which it pushed
/// them; and once the lane is empty they are all of them.
pub proof fn law_each_producer_keeps_its_order<T>(
    l: Ledger<T>,
    entries: Seq<Option<T>>,
    gone: int,
    by: int,
)
    requires
        l.tells(entries, gone),
        l.keeps_orders(),
    ensures
        l.taken_from(by).is_prefix_of(l.pushed_by(by)),
        entries.len() == 0 ==> l.taken_from(by) == l.pushed_by(by),
{
    lemma_items_of_parts(l.claims, gone, by);
    let rest = l.claims.skip(gone);
    assert(items_of(l.claims, by) == l.taken_from(by) + items_of(rest, by));
    if l.pending.contains_key(by) {
        let at = l.pending[by] - gone;
        assert(rest[at].0 == by);
        lemma_claim_counts(rest, at);
    }
    let n = l.taken_from(by).len() as int;
    assert(n <= l.pushed_by(by).len());
    assert forall|i: int| 0 <= i < n implies l.taken_from(by)[i] == l.pushed_by(by)[i] by {
        assert(items_of(l.claims, by)[i] == l.taken_from(by)[i]);
    }
    if entries.len() == 0 {
        assert(l.taken =~= l.claims);
        assert(!l.pending.contains_key(by));
    }
}

/// With a single producer the items come out in the order in which they were
/// pushed.
pub proof fn law_single_producer_is_first_in_first_out<T>(
    l: Ledger<T>,
    entries: Seq<Option<T>>,
    gone: int,
    by: int,
)
    requires
        l.tells(entries, gone),
        l.keeps_orders(),
        forall|i: int| 0 <= i < l.claims.len() ==> (#[trigger] l.claims[i]).0 == by,
    ensures
        l.taken.len() <= l.pushed_by(by).len(),
        forall|i: int| 0 <= i < l.taken.len() ==> (#[trigger] l.taken[i]).1 == l.pushed_by(by)[i],
{
    law_each_producer_keeps_its_order(l, entries, gone, by);
    lemma_only_producer(l.taken, by);
}

/// All items of a sequence that has one producer are that producer's.
proof fn lemma_only_producer<T>(items: Seq<(int, T)>, by: int)
    requires
        forall|i: int| 0 <= i < items.len() ==> (#[trigger] items[i]).0 == by,
    ensures
        items_of(items, by).len() == items.len(),
        forall|i: int|
            0 <= i < items.len() ==> (#[trigger] items[i]).1 == items_of(items, by)[i],
    decreases items.len(),
{
    if items.len() > 0 {
        lemma_only_producer(items.drop_last(), by);
        assert forall|i: int| 0 <= i < items.len() implies (#[trigger] items[i]).1 == items_of(
            items,
            by,
        )[i] by {
            if i < items.len() - 1 {
                assert(items.drop_last()[i] == items[i]);
            }
        }
    }
}

} // verus!
