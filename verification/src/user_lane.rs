use crate::notify::{Notify, NotifyView};
use vstd::prelude::*;

verus! {

/// One slot of the ring. The ticket equals the slot's position while the slot
/// is free and `position + 1` once a value is published in it.
struct Slot<U> {
    seq: u32,
    val: Option<U>,
}

/// The bounded user lane: a ring with one ticket per slot, many producers and
/// one consumer.
///
/// A producer first claims the position at `tail`, then publishes its value in
/// the slot of that position. Several claims may be outstanding at once, and
/// they may be published in any order; the consumer takes values in the order
/// of the claims. Position counters and tickets start over when they run out.
pub struct UserLane<U> {
    ring: Vec<Slot<U>>,
    /// Next position to claim.
    tail: usize,
    /// Next position to pop; moved by the consumer alone.
    head: usize,
    /// Wakeup point of producers that wait for room.
    send_notify: Notify,
    /// Producers that wait for room.
    waiting: usize,
    /// Live sender handles; the lane is closed once this is zero.
    senders: usize,
    /// How many values were ever popped.
    popped: Ghost<int>,
}

/// What a [`UserLane`] holds.
#[verifier::ext_equal]
pub struct UserLaneView<U> {
    /// The claimed positions, oldest first: `None` until the claim is published.
    pub entries: Seq<Option<U>>,
    /// How many positions can be claimed at once.
    pub capacity: nat,
    /// How many values were ever popped.
    pub popped: nat,
    /// Producers that wait for room.
    pub waiting: nat,
    /// Live sender handles.
    pub senders: nat,
    /// Wakeup point of the waiting producers.
    pub send_notify: NotifyView,
}

impl<U> UserLaneView<U> {
    /// The position counter of the `k`-th entry.
    pub open spec fn counter(self, k: int) -> int {
        crate::tickets::position(self.popped + k)
    }

    /// The position counter of the next claim.
    pub open spec fn end(self) -> int {
        self.counter(self.entries.len() as int)
    }

    /// How many claims were made since the counter at the end read `pos`.
    pub open spec fn lag(self, pos: usize) -> int {
        if pos <= self.end() {
            self.end() - pos
        } else {
            self.end() - pos + crate::tickets::position_space()
        }
    }

    /// Where among the entries the claim with counter `pos` stands.
    pub open spec fn slot_of(self, pos: int) -> int {
        if self.counter(0) <= pos {
            pos - self.counter(0)
        } else {
            pos - self.counter(0) + crate::tickets::position_space()
        }
    }

    /// The claim with counter `pos` is outstanding: made and not published.
    pub open spec fn outstanding(self, pos: int) -> bool {
        let k = self.slot_of(pos);
        0 <= k < self.entries.len() && self.entries[k] is None
    }

    /// The lane holds at most as much as it can, every waiting producer has a
    /// registration, and all counts fit their counters.
    pub open spec fn consistent(self) -> bool {
        &&& crate::tickets::ring_size(self.capacity as int)
        &&& self.entries.len() <= self.capacity
        &&& self.send_notify.registered() == self.waiting
        &&& self.waiting <= usize::MAX
        &&& self.senders <= usize::MAX
    }

    /// A value is ready for the consumer.
    pub open spec fn poppable(self) -> bool {
        self.entries.len() > 0 && self.entries[0] is Some
    }

    /// The wakeup point once a producer was let go, if one was waiting.
    pub open spec fn released(self) -> NotifyView {
        if self.waiting != 0 {
            self.send_notify.notified()
        } else {
            self.send_notify
        }
    }

    /// The lane once one more producer waits.
    pub open spec fn after_wait(self) -> UserLaneView<U> {
        UserLaneView {
            waiting: self.waiting + 1,
            send_notify: self.send_notify.armed(),
            ..self
        }
    }

    /// The lane once a waiting producer was let through.
    pub open spec fn after_pass(self) -> UserLaneView<U> {
        UserLaneView {
            waiting: (self.waiting - 1) as nat,
            send_notify: self.send_notify.passed(),
            ..self
        }
    }

    /// The lane once a waiting producer went away on its own.
    pub open spec fn after_giving_up(self) -> UserLaneView<U> {
        UserLaneView {
            waiting: (self.waiting - 1) as nat,
            send_notify: self.send_notify.abandoned(),
            ..self
        }
    }

    /// The lane once one more position is claimed.
    pub open spec fn after_claim(self) -> UserLaneView<U> {
        UserLaneView { entries: self.entries.push(None), ..self }
    }

    /// The lane once `v` is published at the claim with counter `pos`.
    pub open spec fn after_publish(self, pos: int, v: U) -> UserLaneView<U> {
        UserLaneView { entries: self.entries.update(self.slot_of(pos), Some(v)), ..self }
    }

    /// The lane once its oldest value left, which lets a waiting producer go.
    pub open spec fn after_pop(self) -> UserLaneView<U> {
        UserLaneView {
            entries: self.entries.drop_first(),
            popped: self.popped + 1,
            send_notify: self.released(),
            ..self
        }
    }
}

/// A claim is found by its counter, and by no other claim's.
pub proof fn lemma_claim_is_found<U>(v: UserLaneView<U>, k: int)
    requires
        crate::tickets::ring_size(v.capacity as int),
        v.entries.len() <= v.capacity,
        0 <= k < v.entries.len(),
    ensures
        v.slot_of(v.counter(k)) == k,
{
    vstd::layout::unsigned_int_max_values();
    crate::tickets::lemma_spaces(v.capacity as int, 0);
    crate::tickets::lemma_gap(v.popped as int, k, crate::tickets::position_space());
}

/// The right to publish one value at a claimed position.
pub struct UserTicket {
    pos: usize,
}

impl UserTicket {
    /// The position counter that was claimed.
    pub closed spec fn counter(self) -> int {
        self.pos as int
    }
}

/// What became of an attempt to claim a position.
pub enum Claim {
    /// The position is claimed.
    Won(UserTicket),
    /// Another producer was faster; the counter now reads this.
    Lost(usize),
    /// Every position is taken.
    Full,
}

impl<U> View for UserLane<U> {
    type V = UserLaneView<U>;

    closed spec fn view(&self) -> UserLaneView<U> {
        UserLaneView {
            entries: self.entries(),
            capacity: self.ring@.len(),
            popped: self.popped@ as nat,
            waiting: self.waiting as nat,
            senders: self.senders as nat,
            send_notify: self.send_notify@,
        }
    }
}

impl<U> UserLane<U> {
    spec fn claimed(self) -> int {
        if self.head <= self.tail {
            self.tail - self.head
        } else {
            self.tail - self.head + crate::tickets::position_space()
        }
    }

    spec fn entries(self) -> Seq<Option<U>> {
        Seq::new(
            self.claimed() as nat,
            |k: int| self.ring@[(self.popped@ + k) % (self.ring@.len() as int)].val,
        )
    }

    /// Slot `s` serves position `p`, and the next claim is for `end`.
    spec fn slot_ok(s: Slot<U>, p: int, end: int) -> bool {
        if s.val is Some {
            p < end && s.seq == crate::tickets::ticket(p + 1)
        } else {
            s.seq == crate::tickets::ticket(p)
        }
    }

    /// Head, tail and tickets agree on what is claimed and published, and every
    /// waiting producer has a registration.
    pub closed spec fn wf(&self) -> bool {
        let cap = self.ring@.len() as int;
        &&& crate::tickets::ring_size(cap)
        &&& self.popped@ >= 0
        &&& self.head == crate::tickets::position(self.popped@)
        &&& self.claimed() <= cap
        &&& self.tail == crate::tickets::position(self.popped@ + self.claimed())
        &&& forall|i: int|
            0 <= i < cap ==> Self::slot_ok(
                #[trigger] self.ring@[i],
                crate::tickets::served(self.popped@, cap, i),
                self.popped@ + self.claimed(),
            )
        &&& self.send_notify.wf()
        &&& self.send_notify@.registered() == self.waiting
    }

    /// An empty ring of the given size, with one live sender.
    pub fn new(capacity: usize) -> (lane: Self)
        requires
            crate::tickets::ring_size(capacity as int),
        ensures
            lane.wf(),
            lane@ == (UserLaneView {
                entries: Seq::<Option<U>>::empty(),
                capacity: capacity as nat,
                popped: 0,
                waiting: 0,
                senders: 1,
                send_notify: NotifyView { permit: false, enabled: 0, woken: 0 },
            }),
    {
        proof {
            crate::tickets::lemma_spaces(capacity as int, 0);
        }
        let mut ring: Vec<Slot<U>> = Vec::with_capacity(capacity);
        let mut i: usize = 0;
        while i < capacity
            invariant
                capacity <= 0x4000_0000,
                i <= capacity,
                ring@.len() == i,
                forall|j: int|
                    0 <= j < i ==> (#[trigger] ring@[j]).val is None && ring@[j].seq == j,
            decreases capacity - i,
        {
            ring.push(Slot { seq: i as u32, val: None });
            i = i + 1;
        }
        let lane = UserLane {
            ring,
            tail: 0,
            head: 0,
            send_notify: Notify::new(),
            waiting: 0,
            senders: 1,
            popped: Ghost(0),
        };
        proof {
            let cap = capacity as int;
            assert forall|j: int| 0 <= j < cap implies Self::slot_ok(
                #[trigger] lane.ring@[j],
                crate::tickets::served(0, cap, j),
                0,
            ) by {
                crate::tickets::lemma_served(0, cap, j);
                crate::tickets::lemma_gap(0, j, cap);
                crate::tickets::lemma_gap(0, j, crate::tickets::ticket_space());
            }
            assert(lane.entries() =~= Seq::<Option<U>>::empty());
        }
        lane
    }

    /// The low bits of a position counter that select the slot.
    fn mask(&self) -> (mask: usize)
        requires
            self.wf(),
        ensures
            mask == self.ring@.len() - 1,
    {
        self.ring.len() - 1
    }

    /// Claim the position whose counter is `pos`, the value at which the end of
    /// the lane was last seen. A producer that saw it too long ago loses and
    /// learns the present value; it is never told that the lane is full.
    pub fn try_claim(&mut self, pos: usize) -> (claim: Claim)
        requires
            old(self).wf(),
            old(self)@.lag(pos) + old(self)@.capacity <= 0x8000_0000,
        ensures
            final(self).wf(),
            match claim {
                Claim::Won(t) => {
                    &&& pos == old(self)@.end()
                    &&& old(self)@.entries.len() < old(self)@.capacity
                    &&& t.counter() == pos
                    &&& final(self)@ == old(self)@.after_claim()
                },
                Claim::Full => {
                    &&& pos == old(self)@.end()
                    &&& old(self)@.entries.len() == old(self)@.capacity
                    &&& final(self)@ == old(self)@
                },
                Claim::Lost(now) => {
                    &&& pos != old(self)@.end()
                    &&& now == old(self)@.end()
                    &&& final(self)@ == old(self)@
                },
            },
    {
        let ghost cap = self.ring@.len() as int;
        let ghost base = self.popped@;
        let ghost n = self.claimed();
        let ghost q = base + n - self@.lag(pos);
        proof {
            self.lemma_position(pos);
        }
        let mask: usize = self.mask();
        let i: usize = pos & mask;
        proof {
            crate::tickets::lemma_mask(pos, self.ring.len());
            crate::tickets::lemma_spaces(cap, q);
            crate::tickets::lemma_cut(pos);
            crate::tickets::lemma_served_step(base, cap, i as int);
        }
        let seq: u32 = self.ring[i].seq;
        let pos32: u32 = pos as u32;
        let diff: u32 = seq.wrapping_sub(pos32);
        let ghost p = crate::tickets::served(base, cap, i as int);
        proof {
            assert(Self::slot_ok(self.ring@[i as int], p, base + n));
            Self::lemma_ticket_distance(base, cap, n, q, i as int);
            let ahead = if self.ring@[i as int].val is Some {
                p + 1
            } else {
                p
            };
            assert(seq == crate::tickets::ticket(ahead));
            if q <= ahead {
                crate::tickets::lemma_gap(q, ahead - q, crate::tickets::ticket_space());
            } else {
                crate::tickets::lemma_gap(ahead, q - ahead, crate::tickets::ticket_space());
            }
        }
        if diff == 0 {
            if self.tail == pos {
                self.tail = pos.wrapping_add(1);
                proof {
                    crate::tickets::lemma_gap(base, n + 1, crate::tickets::position_space());
                    crate::tickets::lemma_gap(base, n, crate::tickets::position_space());
                    crate::tickets::lemma_gap(base + n, 1, crate::tickets::position_space());
                    assert(self.claimed() == n + 1);
                    assert(self.ring@[(base + n) % cap].val is None);
                    assert(self.entries() =~= old(self).entries().push(None));
                }
                Claim::Won(UserTicket { pos })
            } else {
                Claim::Lost(self.tail)
            }
        } else if diff >= 0x8000_0000 {
            Claim::Full
        } else {
            Claim::Lost(self.tail)
        }
    }

    /// A counter that is `lag` claims old stands for the position `lag` before
    /// the end.
    proof fn lemma_position(&self, pos: usize)
        requires
            self.wf(),
            self@.lag(pos) <= 0x7fff_ffff,
        ensures
            self@.end() == self.tail,
            0 <= self@.lag(pos),
            pos == crate::tickets::position(self.popped@ + self.claimed() - self@.lag(pos)),
            pos == self.tail <==> self@.lag(pos) == 0,
    {
        let space = crate::tickets::position_space();
        let lag = self@.lag(pos);
        vstd::layout::unsigned_int_max_values();
        crate::tickets::lemma_gap(self.popped@ + self.claimed() - lag, lag, space);
    }

    /// How far the ticket of the slot for position `q` can be from `q`.
    proof fn lemma_ticket_distance(base: int, cap: int, n: int, q: int, i: int)
        requires
            crate::tickets::ring_size(cap),
            0 <= n <= cap,
            base + n + cap - 0x8000_0000 <= q <= base + n,
            i == q % cap,
        ensures
            ({
                let p = crate::tickets::served(base, cap, i);
                &&& q == base + n && n == cap ==> p == q - cap
                &&& q == base + n && n < cap ==> p == q
                &&& q < base + n ==> q <= p <= q + 0x7fff_ffff
                &&& q <= p < base + n ==> p + 1 <= q + 0x7fff_ffff
                &&& base <= q < base + n ==> p == q
                &&& q < base ==> q < p
            }),
    {
        crate::tickets::lemma_spaces(cap, q);
        crate::tickets::lemma_served_step(base, cap, i);
        let p = crate::tickets::served(base, cap, i);
        if base <= q < base + cap {
            crate::tickets::lemma_served(base, cap, q - base);
        } else if q == base + cap {
            crate::tickets::lemma_gap(base, 0, cap);
            assert((base + cap) % cap == base % cap) by {
                vstd::arithmetic::div_mod::lemma_mod_add_multiples_vanish(base, cap);
            }
            crate::tickets::lemma_served(base, cap, 0);
        }
    }

    /// The end of the lane as the next producer sees it.
    pub fn observe_tail(&self) -> (pos: usize)
        requires
            self.wf(),
        ensures
            pos == self@.end(),
            self@.lag(pos) == 0,
    {
        self.tail
    }

    /// Publish `v` at a claimed position.
    pub fn publish(&mut self, t: UserTicket, v: U)
        requires
            old(self).wf(),
            old(self)@.outstanding(t.counter()),
        ensures
            final(self).wf(),
            final(self)@ == old(self)@.after_publish(t.counter(), v),
    {
        let ghost cap = self.ring@.len() as int;
        let ghost base = self.popped@;
        let ghost k = self@.slot_of(t.counter());
        let pos: usize = t.pos;
        proof {
            vstd::layout::unsigned_int_max_values();
            crate::tickets::lemma_spaces(cap, base + k);
            crate::tickets::lemma_gap(base, k, crate::tickets::position_space());
            crate::tickets::lemma_mask(pos, self.ring.len());
            crate::tickets::lemma_cut(pos);
            crate::tickets::lemma_served(base, cap, k);
            crate::tickets::lemma_gap(base + k, 1, crate::tickets::ticket_space());
        }
        let mask: usize = self.mask();
        let i: usize = pos & mask;
        let pos32: u32 = pos as u32;
        self.ring.set(i, Slot { seq: pos32.wrapping_add(1), val: Some(v) });
        proof {
            assert(i == (base + k) % cap);
            assert forall|j: int| 0 <= j < self.claimed() implies #[trigger] self.entries()[j]
                == old(self).entries().update(k, Some(v))[j] by {
                crate::tickets::lemma_served(base, cap, j);
            }
            assert(self.entries() =~= old(self).entries().update(k, Some(v)));
        }
    }

    /// Enqueue `v`, or hand it back if every position is taken.
    pub fn try_push(&mut self, v: U) -> (pushed: Result<(), U>)
        requires
            old(self).wf(),
        ensures
            final(self).wf(),
            match pushed {
                Ok(()) => {
                    &&& old(self)@.entries.len() < old(self)@.capacity
                    &&& final(self)@ == (UserLaneView {
                        entries: old(self)@.entries.push(Some(v)),
                        ..old(self)@
                    })
                },
                Err(back) => {
                    &&& old(self)@.entries.len() == old(self)@.capacity
                    &&& back == v
                    &&& final(self)@ == old(self)@
                },
            },
    {
        let mut pos: usize = self.observe_tail();
        loop
            invariant
                self.wf(),
                self@ == old(self)@,
                self@.lag(pos) == 0,
            decreases self@.lag(pos),
        {
            proof {
                crate::tickets::lemma_spaces(self@.capacity as int, 0);
            }
            match self.try_claim(pos) {
                Claim::Won(t) => {
                    proof {
                        lemma_claim_is_found(self@, self@.entries.len() - 1);
                        assert(self@.entries.update(self@.entries.len() - 1, Some(v))
                            =~= old(self)@.entries.push(Some(v)));
                    }
                    self.publish(t, v);
                    return Ok(());
                },
                Claim::Full => {
                    return Err(v);
                },
                Claim::Lost(now) => {
                    pos = now;
                },
            }
        }
    }

    /// Take the oldest value if it is published, telling no producer.
    fn take_head(&mut self) -> (taken: Option<U>)
        requires
            old(self).wf(),
        ensures
            final(self).wf(),
            match taken {
                Some(v) => {
                    &&& old(self)@.poppable()
                    &&& v == old(self)@.entries[0]->0
                    &&& final(self)@ == (UserLaneView {
                        entries: old(self)@.entries.drop_first(),
                        popped: old(self)@.popped + 1,
                        ..old(self)@
                    })
                },
                None => {
                    &&& !old(self)@.poppable()
                    &&& final(self)@ == old(self)@
                },
            },
    {
        let ghost cap = self.ring@.len() as int;
        let ghost base = self.popped@;
        let ghost n = self.claimed();
        let head: usize = self.head;
        let mask: usize = self.mask();
        let i: usize = head & mask;
        let head32: u32 = head as u32;
        proof {
            vstd::layout::unsigned_int_max_values();
            crate::tickets::lemma_spaces(cap, base);
            crate::tickets::lemma_mask(head, self.ring.len());
            crate::tickets::lemma_cut(head);
            crate::tickets::lemma_served(base, cap, 0);
            crate::tickets::lemma_gap(base, 1, crate::tickets::ticket_space());
            assert(Self::slot_ok(self.ring@[i as int], base, base + n));
            assert(self.ring@[i as int].val is Some ==> n > 0);
            assert(n > 0 ==> self@.entries[0] == self.ring@[i as int].val);
        }
        if self.ring[i].seq != head32.wrapping_add(1) {
            return None;
        }
        let turn: u32 = self.ring.len() as u32;
        let seq: u32 = head32.wrapping_add(turn);
        let slot: &mut Slot<U> = &mut self.ring[i];
        let v: Option<U> = slot.val.take();
        slot.seq = seq;
        self.head = head.wrapping_add(1);
        self.popped = Ghost(self.popped@ + 1);
        proof {
            crate::tickets::lemma_gap(base, cap, crate::tickets::ticket_space());
            crate::tickets::lemma_gap(base, 1, crate::tickets::position_space());
            crate::tickets::lemma_gap(base, n, crate::tickets::position_space());
            crate::tickets::lemma_gap(base + 1, n - 1, crate::tickets::position_space());
            assert(self.claimed() == n - 1);
            assert forall|j: int| 0 <= j < cap implies Self::slot_ok(
                #[trigger] self.ring@[j],
                crate::tickets::served(base + 1, cap, j),
                base + n,
            ) by {
                crate::tickets::lemma_served_step(base, cap, j);
                assert(Self::slot_ok(
                    old(self).ring@[j],
                    crate::tickets::served(base, cap, j),
                    base + n,
                ));
            }
            assert forall|j: int| 0 <= j < n - 1 implies #[trigger] self.entries()[j]
                == old(self).entries()[j + 1] by {
                crate::tickets::lemma_served(base, cap, j + 1);
            }
            assert(self.entries() =~= old(self).entries().drop_first());
        }
        v
    }

    /// Dequeue the oldest value, if it is published. Every pop makes room, and so
    /// lets one waiting producer go.
    pub fn pop(&mut self) -> (popped: Option<U>)
        requires
            old(self).wf(),
        ensures
            final(self).wf(),
            match popped {
                Some(v) => {
                    &&& old(self)@.poppable()
                    &&& v == old(self)@.entries[0]->0
                    &&& final(self)@ == old(self)@.after_pop()
                },
                None => {
                    &&& !old(self)@.poppable()
                    &&& final(self)@ == old(self)@
                },
            },
    {
        let popped: Option<U> = self.take_head();
        if popped.is_some() {
            self.release_one_waiter();
        }
        popped
    }

    /// Let one waiting producer go, if there is one.
    pub fn release_one_waiter(&mut self)
        requires
            old(self).wf(),
        ensures
            final(self).wf(),
            final(self)@ == (UserLaneView { send_notify: old(self)@.released(), ..old(self)@ }),
    {
        self.send_notify.notify_if_nonzero(self.waiting);
    }

    /// Let every waiting producer go.
    pub fn release_all_waiters(&mut self)
        requires
            old(self).wf(),
        ensures
            final(self).wf(),
            final(self)@ == (UserLaneView {
                send_notify: old(self)@.send_notify.all_notified(),
                ..old(self)@
            }),
    {
        self.send_notify.notify_waiters();
    }

    /// Every sender handle is gone.
    pub fn closed(&self) -> (closed: bool)
        ensures
            closed == (self@.senders == 0),
    {
        self.senders == 0
    }

    /// One more sender and one more waiting producer can be counted.
    pub fn has_headroom(&self) -> (room: bool)
        ensures
            room == (self@.senders < usize::MAX && self@.waiting < usize::MAX),
    {
        self.senders < usize::MAX && self.waiting < usize::MAX
    }

    /// A producer that waits for room is let through at once.
    pub fn waiter_ready(&self) -> (ready: bool)
        ensures
            ready == (self@.waiting > 0 && self@.send_notify.ready()),
    {
        self.waiting > 0 && self.send_notify.is_ready()
    }

    /// A producer registers to wait for room.
    pub fn start_waiting(&mut self)
        requires
            old(self).wf(),
            old(self)@.waiting < usize::MAX,
        ensures
            final(self).wf(),
            final(self)@ == old(self)@.after_wait(),
    {
        self.send_notify.enable();
        self.waiting = self.waiting + 1;
    }

    /// One attempt of a waiting producer to go on.
    pub fn pass_waiting(&mut self) -> (passed: bool)
        requires
            old(self).wf(),
            old(self)@.waiting > 0,
        ensures
            final(self).wf(),
            passed == old(self)@.send_notify.ready(),
            final(self)@ == if old(self)@.send_notify.ready() {
                old(self)@.after_pass()
            } else {
                old(self)@
            },
    {
        let passed: bool = self.send_notify.pass();
        if passed {
            self.waiting = self.waiting - 1;
        }
        passed
    }

    /// A producer that waited for room gives up.
    pub fn give_up_waiting(&mut self)
        requires
            old(self).wf(),
            old(self)@.waiting > 0,
        ensures
            final(self).wf(),
            final(self)@ == old(self)@.after_giving_up(),
    {
        self.send_notify.abandon();
        self.waiting = self.waiting - 1;
    }

    /// One more sender handle exists.
    pub fn add_sender(&mut self)
        requires
            old(self).wf(),
            old(self)@.senders < usize::MAX,
        ensures
            final(self).wf(),
            final(self)@ == (UserLaneView { senders: old(self)@.senders + 1, ..old(self)@ }),
    {
        self.senders = self.senders + 1;
    }

    /// One sender handle less exists; answers whether it was the last.
    pub fn remove_sender(&mut self) -> (last: bool)
        requires
            old(self).wf(),
            old(self)@.senders > 0,
        ensures
            final(self).wf(),
            last == (old(self)@.senders == 1),
            final(self)@ == (UserLaneView {
                senders: (old(self)@.senders - 1) as nat,
                ..old(self)@
            }),
    {
        self.senders = self.senders - 1;
        self.senders == 0
    }

    /// Take everything that can be taken, oldest first, telling no producer.
    pub fn take_ready(&mut self) -> (taken: Vec<U>)
        requires
            old(self).wf(),
        ensures
            final(self).wf(),
            taken@ == crate::entries::ready_prefix(old(self)@.entries),
            final(self)@ == (UserLaneView {
                entries: old(self)@.entries.skip(taken@.len() as int),
                popped: old(self)@.popped + taken@.len(),
                ..old(self)@
            }),
    {
        let mut taken: Vec<U> = Vec::new();
        proof {
            assert(self@.entries.skip(0) =~= self@.entries);
        }
        loop
            invariant
                self.wf(),
                taken@.len() <= old(self)@.entries.len(),
                taken@ + crate::entries::ready_prefix(self@.entries)
                    == crate::entries::ready_prefix(old(self)@.entries),
                self@ == (UserLaneView {
                    entries: old(self)@.entries.skip(taken@.len() as int),
                    popped: old(self)@.popped + taken@.len(),
                    ..old(self)@
                }),
            ensures
                crate::entries::ready_prefix(self@.entries) =~= Seq::<U>::empty(),
            decreases self@.entries.len(),
        {
            let ghost before = self@.entries;
            let ghost sofar = taken@;
            match self.take_head() {
                Some(v) => {
                    taken.push(v);
                    proof {
                        assert(before.drop_first()
                            =~= old(self)@.entries.skip(taken@.len() as int));
                        assert(taken@ + crate::entries::ready_prefix(before.drop_first())
                            =~= sofar + (seq![v] + crate::entries::ready_prefix(
                            before.drop_first(),
                        )));
                    }
                },
                None => {
                    break;
                },
            }
        }
        taken
    }

    /// Everything a lane that is thrown away still owns: the values that were
    /// published and never taken, oldest first.
    pub fn into_unconsumed(self) -> (left: Vec<U>)
        requires
            self.wf(),
        ensures
            left@ == crate::entries::published(self@.entries),
    {
        let mut lane = self;
        let ghost all = self.entries();
        let ghost base = self.popped@;
        let ghost cap = self.ring@.len() as int;
        let ghost n = self.claimed();
        let ghost mut k: int = 0;
        let mut left: Vec<U> = Vec::new();
        let mut pos: usize = lane.head;
        let mask: usize = lane.mask();
        proof {
            vstd::layout::unsigned_int_max_values();
            crate::tickets::lemma_spaces(cap, base);
            assert(all.skip(0) =~= all);
        }
        while pos != lane.tail
            invariant
                self.wf(),
                all == self.entries(),
                base == self.popped@,
                cap == self.ring@.len(),
                n == self.claimed(),
                0 <= k <= n <= cap < crate::tickets::position_space(),
                mask == cap - 1,
                cap <= 0x4000_0000,
                crate::tickets::ring_size(cap),
                lane.ring@.len() == cap,
                lane.tail == crate::tickets::position(base + n),
                pos == crate::tickets::position(base + k),
                forall|j: int|
                    k <= j < n ==> #[trigger] lane.ring@[(base + j) % cap].val == all[j],
                left@ + crate::entries::published(all.skip(k)) == crate::entries::published(all),
            decreases n - k,
        {
            let i: usize = pos & mask;
            proof {
                crate::tickets::lemma_mask(pos, self.ring.len());
                crate::tickets::lemma_spaces(cap, base + k);
                assert(k != n);
                crate::tickets::lemma_served(base, cap, k);
                crate::tickets::lemma_gap(base + k, 1, crate::tickets::position_space());
                assert(all.skip(k).drop_first() =~= all.skip(k + 1));
                assert(all.skip(k)[0] == all[k]);
                assert(lane.ring@[(base + k) % cap].val == all[k]);
                assert forall|j: int| k < j < n implies #[trigger] ((base + j) % cap) != i by {
                    crate::tickets::lemma_served(base, cap, j);
                }
            }
            let ghost sofar = left@;
            match lane.ring[i].val.take() {
                Some(v) => {
                    left.push(v);
                    proof {
                        assert(left@ + crate::entries::published(all.skip(k + 1))
                            =~= sofar + (seq![v] + crate::entries::published(all.skip(k + 1))));
                    }
                },
                None => {},
            }
            pos = pos.wrapping_add(1);
            proof {
                k = k + 1;
            }
        }
        proof {
            if k < n {
                crate::tickets::lemma_gap(base + k, n - k, crate::tickets::position_space());
            }
            assert(k == n);
            assert(crate::entries::published(all.skip(n)) =~= Seq::<U>::empty());
            assert(left@ + Seq::<U>::empty() =~= left@);
        }
        left
    }

    /// What holds of every lane at any time.
    pub proof fn law_lane_is_consistent(&self)
        requires
            self.wf(),
        ensures
            self@.consistent(),
    {
    }
}

} // verus!
