use vstd::prelude::*;

verus! {

/// Slots per block.
pub const CBLOCK: usize = 64;

/// One control slot: written once, published with `ready`.
struct CSlot<C> {
    ready: bool,
    val: Option<C>,
}

/// One block of the chain. Blocks are used once and then thrown away.
struct CBlock<C> {
    /// The block holds the positions from `idx * CBLOCK` on.
    idx: usize,
    slots: Vec<CSlot<C>>,
}

impl<C> CBlock<C> {
    spec fn wf(self) -> bool {
        self.slots@.len() == CBLOCK
    }

    /// A block in which nothing is published.
    fn new(idx: usize) -> (block: Self)
        ensures
            block.wf(),
            block.idx == idx,
            forall|j: int|
                0 <= j < CBLOCK ==> (#[trigger] block.slots@[j]).val is None
                    && !block.slots@[j].ready,
    {
        let mut slots: Vec<CSlot<C>> = Vec::with_capacity(CBLOCK);
        let mut j: usize = 0;
        while j < CBLOCK
            invariant
                j <= CBLOCK,
                slots@.len() == j,
                forall|i: int|
                    0 <= i < j ==> (#[trigger] slots@[i]).val is None && !slots@[i].ready,
            decreases CBLOCK - j,
        {
            slots.push(CSlot { ready: false, val: None });
            j = j + 1;
        }
        CBlock { idx, slots }
    }
}

/// The unbounded control lane: a chain of blocks, many producers and one
/// consumer.
///
/// A producer claims the position at `tail` and then publishes its value in the
/// slot of that position, linking blocks as needed. The consumer takes values
/// in the order of the claims and lets the blocks it has left behind be freed.
pub struct ControlLane<C> {
    /// The linked blocks, oldest first, with consecutive indices.
    blocks: Vec<CBlock<C>>,
    /// Next position to claim.
    tail: usize,
    /// Index of the newest linked block.
    tail_block: usize,
    /// Index of the first block from which a producer may walk.
    first_block: usize,
    /// Claims whose producer has to walk to another block.
    in_flight: usize,
    /// Live sender handles; the lane is closed once this is zero.
    senders: usize,
    /// Next position to pop.
    head: usize,
    /// Index of the block in which the consumer reads.
    cursor: usize,
    /// The positions behind `in_flight`.
    walking: Ghost<Set<int>>,
}

/// Which positions were popped and which blocks are in memory.
pub struct ControlStorage {
    /// How many values were ever popped.
    pub taken: nat,
    /// Index of the oldest block in memory.
    pub first: nat,
    /// Index of the block in which the consumer reads.
    pub cursor: nat,
    /// Index of the newest block in memory.
    pub last: nat,
}

impl ControlStorage {
    /// How many blocks are in memory.
    pub open spec fn blocks(self) -> int {
        self.last - self.first + 1
    }

    /// The blocks once position `pos` has one.
    pub open spec fn reaching(self, pos: int) -> ControlStorage {
        if pos / CBLOCK as int > self.last {
            ControlStorage { last: (pos / CBLOCK as int) as nat, ..self }
        } else {
            self
        }
    }

    /// The consumer has used up its block, and there is another one.
    pub open spec fn crosses(self) -> bool {
        self.taken == (self.cursor + 1) * CBLOCK && self.cursor < self.last
    }

    /// The blocks once those behind the consumer were freed, which happens four
    /// blocks or more at a time, and only while no producer walks.
    pub open spec fn reclaimed(self, walkers: nat) -> ControlStorage {
        if walkers == 0 && self.cursor - self.first >= 4 {
            ControlStorage { first: self.cursor, ..self }
        } else {
            self
        }
    }

    /// The blocks once the consumer moved on to the next one, and what it left
    /// behind was freed.
    pub open spec fn crossed(self, walkers: nat) -> ControlStorage {
        ControlStorage { cursor: self.cursor + 1, ..self }.reclaimed(walkers)
    }

    /// The blocks as the consumer leaves them when it looks for a value.
    pub open spec fn looked(self, walkers: nat) -> ControlStorage {
        if self.crosses() {
            self.crossed(walkers)
        } else {
            self
        }
    }

    /// The blocks after a value was taken.
    pub open spec fn popped(self, walkers: nat) -> ControlStorage {
        ControlStorage { taken: self.taken + 1, ..self.looked(walkers) }
    }
}

/// What a [`ControlLane`] holds.
#[verifier::ext_equal]
pub struct ControlLaneView<C> {
    /// The claimed positions, oldest first: `None` until the claim is published.
    pub entries: Seq<Option<C>>,
    /// Positions popped and blocks in memory.
    pub storage: ControlStorage,
    /// Claimed positions whose producer has to walk to another block.
    pub walking: Set<int>,
    /// Live sender handles.
    pub senders: nat,
}

impl<C> ControlLaneView<C> {
    /// The next position to be claimed.
    pub open spec fn end(self) -> int {
        (self.storage.taken + self.entries.len()) as int
    }

    /// A value is ready for the consumer.
    pub open spec fn poppable(self) -> bool {
        self.entries.len() > 0 && self.entries[0] is Some
    }

    /// The claim that `t` stands for is outstanding: made and not published.
    pub open spec fn owns(self, t: ControlTicket) -> bool {
        &&& self.storage.taken <= t.position() < self.end()
        &&& self.entries[t.position() - self.storage.taken] is None
        &&& t.walks() == self.walking.contains(t.position())
    }

    /// The consumer reads in a block that is in memory and that holds its
    /// position, blocks are only linked for claimed positions, only claims that
    /// are not published walk, and all others have their block.
    pub open spec fn consistent(self) -> bool {
        let st = self.storage;
        &&& st.first <= st.cursor <= st.last
        &&& st.cursor * CBLOCK <= st.taken <= (st.cursor + 1) * CBLOCK
        &&& st.last == 0 || st.last * CBLOCK < self.end()
        &&& self.end() <= usize::MAX - (CBLOCK - 1)
        &&& self.senders <= usize::MAX
        &&& self.walking.finite()
        &&& forall|p: int| #[trigger]
            self.walking.contains(p) ==> st.taken <= p < self.end() && self.entries[p
                - st.taken] is None
        &&& forall|p: int|
            st.taken <= p < self.end() && !(#[trigger] self.walking.contains(p)) ==> p
                / CBLOCK as int <= st.last
    }

    /// The lane once one more position is claimed. The producer of a position
    /// whose block is not the newest one has to walk.
    pub open spec fn after_claim(self) -> ControlLaneView<C> {
        ControlLaneView {
            entries: self.entries.push(None),
            walking: if self.end() / CBLOCK as int != self.storage.last {
                self.walking.insert(self.end())
            } else {
                self.walking
            },
            ..self
        }
    }

    /// The lane once `item` is published at the claimed position `pos`, which
    /// then has its block.
    pub open spec fn after_publish(self, pos: int, item: C) -> ControlLaneView<C> {
        ControlLaneView {
            entries: self.entries.update(pos - self.storage.taken, Some(item)),
            storage: self.storage.reaching(pos),
            walking: self.walking.remove(pos),
            ..self
        }
    }

    /// The lane once a position is claimed and `item` is published there.
    pub open spec fn after_push(self, item: C) -> ControlLaneView<C> {
        ControlLaneView {
            entries: self.entries.push(Some(item)),
            storage: self.storage.reaching(self.end()),
            ..self
        }
    }

    /// The lane once the blocks behind the consumer were freed.
    pub open spec fn after_reclaim(self) -> ControlLaneView<C> {
        ControlLaneView { storage: self.storage.reclaimed(self.walking.len()), ..self }
    }

    /// The lane as the consumer leaves it when there is nothing to take.
    pub open spec fn after_look(self) -> ControlLaneView<C> {
        ControlLaneView { storage: self.storage.looked(self.walking.len()), ..self }
    }

    /// The lane once its oldest value left.
    pub open spec fn after_pop(self) -> ControlLaneView<C> {
        ControlLaneView {
            entries: self.entries.drop_first(),
            storage: self.storage.popped(self.walking.len()),
            ..self
        }
    }

    /// The lane once the consumer took everything it could.
    pub open spec fn emptied(self) -> ControlLaneView<C>
        decreases self.entries.len(),
    {
        if self.poppable() {
            self.after_pop().emptied()
        } else {
            self.after_look()
        }
    }
}

/// The right to publish one value at a claimed position.
pub struct ControlTicket {
    pos: usize,
    slow: bool,
}

impl ControlTicket {
    /// The claimed position.
    pub closed spec fn position(self) -> int {
        self.pos as int
    }

    /// The block of the position was not the newest one at the time of the
    /// claim.
    pub closed spec fn walks(self) -> bool {
        self.slow
    }
}

impl<C> View for ControlLane<C> {
    type V = ControlLaneView<C>;

    closed spec fn view(&self) -> ControlLaneView<C> {
        ControlLaneView {
            entries: self.entries(),
            storage: ControlStorage {
                taken: self.head as nat,
                first: self.anchor() as nat,
                cursor: self.cursor as nat,
                last: self.last() as nat,
            },
            walking: self.walking@,
            senders: self.senders as nat,
        }
    }
}

/// The slot of position `p` in a chain of blocks.
spec fn slot_at<C>(blocks: Seq<CBlock<C>>, p: int) -> CSlot<C> {
    blocks[p / CBLOCK as int - blocks[0].idx].slots@[p % CBLOCK as int]
}

/// What is published at position `p`, which may lie beyond the chain.
spec fn val_at<C>(blocks: Seq<CBlock<C>>, p: int) -> Option<C> {
    if (p / CBLOCK as int) < blocks[0].idx + blocks.len() {
        slot_at(blocks, p).val
    } else {
        None
    }
}

/// What is published at the positions from `head` to `tail`.
spec fn vals<C>(blocks: Seq<CBlock<C>>, head: int, tail: int) -> Seq<Option<C>> {
    Seq::new((tail - head) as nat, |k: int| val_at(blocks, head + k))
}

/// The blocks are whole and have consecutive indices.
spec fn chain_ok<C>(blocks: Seq<CBlock<C>>) -> bool {
    &&& blocks.len() > 0
    &&& forall|i: int|
        0 <= i < blocks.len() ==> (#[trigger] blocks[i]).wf() && blocks[i].idx == blocks[0].idx
            + i
}

/// Slot `s` serves position `p`: only claimed positions hold a value, and from
/// `head` on the flag tells whether there is one.
spec fn slot_ok<C>(s: CSlot<C>, p: int, head: int, tail: int) -> bool {
    &&& s.val is Some ==> head <= p < tail
    &&& head <= p ==> s.ready == (s.val is Some)
}

spec fn slots_ok<C>(blocks: Seq<CBlock<C>>, head: int, tail: int) -> bool {
    forall|p: int|
        blocks[0].idx * CBLOCK <= p < (blocks[0].idx + blocks.len()) * CBLOCK ==> slot_ok(
            #[trigger] slot_at(blocks, p),
            p,
            head,
            tail,
        )
}

/// Producers walk only for claims that are not published, and every other
/// unpublished claim has its block in memory.
spec fn claims_ok<C>(blocks: Seq<CBlock<C>>, head: int, tail: int, walking: Set<int>) -> bool {
    &&& forall|p: int| #[trigger]
        walking.contains(p) ==> head <= p < tail && val_at(blocks, p) is None
    &&& forall|p: int|
        head <= p < tail && (#[trigger] val_at(blocks, p)) is None && !walking.contains(p) ==> (p
            / CBLOCK as int) < blocks[0].idx + blocks.len()
}

impl<C> ControlLane<C> {
    spec fn anchor(self) -> int {
        self.blocks@[0].idx as int
    }

    spec fn last(self) -> int {
        self.anchor() + self.blocks@.len() - 1
    }

    spec fn entries(self) -> Seq<Option<C>> {
        vals(self.blocks@, self.head as int, self.tail as int)
    }

    /// The blocks follow one another without a gap, the consumer reads in one
    /// of them, producers walk from a block that is in memory and not ahead of
    /// the consumer, and every claim that needs no walk has its block in memory.
    pub closed spec fn wf(&self) -> bool {
        &&& chain_ok(self.blocks@)
        &&& self.tail_block == self.last()
        &&& self.anchor() <= self.first_block <= self.cursor <= self.last()
        &&& self.cursor * CBLOCK <= self.head <= (self.cursor + 1) * CBLOCK
        &&& self.head <= self.tail <= usize::MAX - (CBLOCK - 1)
        &&& self.last() == 0 || self.last() * CBLOCK < self.tail
        &&& slots_ok(self.blocks@, self.head as int, self.tail as int)
        &&& claims_ok(self.blocks@, self.head as int, self.tail as int, self.walking@)
        &&& self.walking@.finite()
        &&& self.walking@.len() == self.in_flight
    }

    /// An empty chain of one block, with one live sender.
    pub fn new() -> (lane: Self)
        ensures
            lane.wf(),
            lane@ == (ControlLaneView {
                entries: Seq::<Option<C>>::empty(),
                storage: ControlStorage { taken: 0, first: 0, cursor: 0, last: 0 },
                walking: Set::empty(),
                senders: 1,
            }),
    {
        let mut blocks: Vec<CBlock<C>> = Vec::new();
        blocks.push(CBlock::new(0));
        let lane = ControlLane {
            blocks,
            tail: 0,
            tail_block: 0,
            first_block: 0,
            in_flight: 0,
            senders: 1,
            head: 0,
            cursor: 0,
            walking: Ghost(Set::empty()),
        };
        proof {
            assert(lane.entries() =~= Seq::<Option<C>>::empty());
        }
        lane
    }

    /// Claim the next position. A producer whose block is not the newest one is
    /// counted as walking until it publishes.
    pub fn claim(&mut self) -> (t: ControlTicket)
        requires
            old(self).wf(),
            old(self)@.end() <= usize::MAX - CBLOCK,
        ensures
            final(self).wf(),
            t.position() == old(self)@.end(),
            t.walks() == (t.position() / CBLOCK as int != old(self)@.storage.last),
            final(self)@.owns(t),
            final(self)@ == old(self)@.after_claim(),
    {
        let hint: usize = self.tail_block;
        let pos: usize = self.tail;
        self.tail = pos + 1;
        let want: usize = pos / CBLOCK;
        let slow: bool = hint != want;
        proof {
            old(self).lemma_walkers();
            assert(val_at(self.blocks@, pos as int) is None) by {
                if pos as int / CBLOCK as int <= self.last() {
                    old(self).lemma_slot(pos as int);
                }
            }
        }
        if slow {
            self.in_flight = self.in_flight + 1;
            self.walking = Ghost(self.walking@.insert(pos as int));
        }
        proof {
            assert(self.entries() =~= old(self).entries().push(None));
        }
        ControlTicket { pos, slow }
    }

    /// Where the slot of a position is found.
    proof fn lemma_slot(&self, p: int)
        requires
            self.wf(),
            self.anchor() * CBLOCK <= p,
            p / CBLOCK as int <= self.last(),
        ensures
            0 <= p / CBLOCK as int - self.anchor() < self.blocks@.len(),
            0 <= (p % CBLOCK as int) < CBLOCK,
            self.blocks@[p / CBLOCK as int - self.anchor()].wf(),
            slot_ok(slot_at(self.blocks@, p), p, self.head as int, self.tail as int),
    {
    }

    /// There are fewer walkers than positions ever claimed.
    proof fn lemma_walkers(&self)
        requires
            self.wf(),
        ensures
            self.in_flight <= self.tail,
    {
        let all = vstd::set_lib::set_int_range(0, self.tail as int);
        vstd::set_lib::lemma_int_range(0, self.tail as int);
        assert(self.walking@.subset_of(all));
        vstd::set_lib::lemma_len_subset(self.walking@, all);
    }

    /// Link a fresh block behind the newest one.
    fn link(&mut self)
        requires
            old(self).wf(),
            (old(self).last() + 1) * CBLOCK < old(self).tail,
        ensures
            final(self).wf(),
            final(self).tail == old(self).tail,
            final(self).last() == old(self).last() + 1,
            final(self)@ == (ControlLaneView {
                storage: ControlStorage {
                    last: old(self)@.storage.last + 1,
                    ..old(self)@.storage
                },
                ..old(self)@
            }),
    {
        let idx: usize = self.tail_block + 1;
        let fresh: CBlock<C> = CBlock::new(idx);
        self.blocks.push(fresh);
        self.tail_block = idx;
        proof {
            assert forall|p: int| self.head <= p implies #[trigger] val_at(self.blocks@, p)
                == val_at(old(self).blocks@, p) by {
                let i = p / CBLOCK as int - self.anchor();
                if i < old(self).blocks@.len() {
                    assert(self.blocks@[i] == old(self).blocks@[i]);
                }
            }
            assert forall|p: int|
                self.anchor() * CBLOCK <= p < (self.last() + 1) * CBLOCK implies slot_ok(
                #[trigger] slot_at(self.blocks@, p),
                p,
                self.head as int,
                self.tail as int,
            ) by {
                let i = p / CBLOCK as int - self.anchor();
                if i < old(self).blocks@.len() {
                    assert(slot_at(self.blocks@, p) == slot_at(old(self).blocks@, p));
                }
            }
            assert(self.entries() =~= old(self).entries());
        }
    }

    /// Publish `item` at a claimed position, walking to its block and linking
    /// what is missing on the way.
    pub fn publish(&mut self, t: ControlTicket, item: C)
        requires
            old(self).wf(),
            old(self)@.owns(t),
        ensures
            final(self).wf(),
            final(self)@ == old(self)@.after_publish(t.position(), item),
    {
        let pos: usize = t.pos;
        let want: usize = pos / CBLOCK;
        proof {
            assert(self.entries()[pos - self.head] == val_at(self.blocks@, pos as int));
        }
        if t.slow {
            let mut b: usize = self.tail_block;
            if b > want {
                b = self.first_block;
            }
            while b < want
                invariant
                    self.wf(),
                    old(self)@.owns(t),
                    old(self).wf(),
                    t.pos == pos,
                    want == pos / CBLOCK,
                    self.anchor() <= b <= want,
                    b <= self.last(),
                    self.last() <= want || self.last() == old(self).last(),
                    old(self).last() <= self.last(),
                    self.tail == old(self).tail,
                    self@ == (ControlLaneView {
                        storage: ControlStorage {
                            last: self@.storage.last,
                            ..old(self)@.storage
                        },
                        ..old(self)@
                    }),
                decreases want - b,
            {
                if b == self.tail_block {
                    assert((self.last() + 1) * CBLOCK <= want * CBLOCK <= pos < self.tail);
                    self.link();
                }
                b = b + 1;
            }
        }
        proof {
            assert(self@.end() == self.tail);
            assert(self.cursor <= want <= self.last());
            assert(self.entries()[pos - self.head] == val_at(self.blocks@, pos as int));
            self.lemma_slot(pos as int);
        }
        let ghost mid = *self;
        let first: usize = self.blocks[0].idx;
        let bi: usize = want - first;
        let si: usize = pos % CBLOCK;
        let block: &mut CBlock<C> = &mut self.blocks[bi];
        block.slots.set(si, CSlot { ready: true, val: Some(item) });
        if t.slow {
            self.in_flight = self.in_flight - 1;
            self.walking = Ghost(self.walking@.remove(pos as int));
        }
        proof {
            assert(self.walking@ =~= old(self).walking@.remove(pos as int));
            assert forall|p: int|
                self.head <= p implies #[trigger] val_at(self.blocks@, p) == (if p == pos {
                Some(item)
            } else {
                val_at(mid.blocks@, p)
            }) by {
                if p / CBLOCK as int <= mid.last() {
                    mid.lemma_slot(p);
                }
            }
            assert forall|p: int|
                self.anchor() * CBLOCK <= p < (self.last() + 1) * CBLOCK implies slot_ok(
                #[trigger] slot_at(self.blocks@, p),
                p,
                self.head as int,
                self.tail as int,
            ) by {
                mid.lemma_slot(p);
                assert(p != pos ==> slot_at(self.blocks@, p) == slot_at(mid.blocks@, p));
            }
            assert(self.entries() =~= old(self).entries().update(pos - self.head, Some(item)));
        }
    }

    /// Enqueue `item`.
    pub fn push(&mut self, item: C)
        requires
            old(self).wf(),
            old(self)@.end() <= usize::MAX - CBLOCK,
        ensures
            final(self).wf(),
            final(self)@ == old(self)@.after_push(item),
    {
        let t: ControlTicket = self.claim();
        proof {
            let pos = t.position();
            assert(!old(self)@.walking.contains(pos)) by {
                if old(self).walking@.contains(pos) {
                    assert(pos < old(self).tail);
                }
            }
            assert(self@.walking.remove(pos) =~= old(self)@.walking);
            assert(self@.entries.update(pos - self@.storage.taken, Some(item))
                =~= old(self)@.entries.push(Some(item)));
        }
        self.publish(t, item);
    }

    /// Retire the blocks behind the consumer, and free them when no producer
    /// walks and at least four are retired.
    pub fn reclaim(&mut self)
        requires
            old(self).wf(),
        ensures
            final(self).wf(),
            final(self)@ == old(self)@.after_reclaim(),
    {
        let bound: usize = if self.tail_block < self.cursor {
            self.tail_block
        } else {
            self.cursor
        };
        if self.first_block < bound {
            self.first_block = bound;
        }
        if self.in_flight != 0 {
            return;
        }
        let first: usize = self.blocks[0].idx;
        let retired: usize = self.first_block - first;
        if retired < 4 {
            return;
        }
        let kept: Vec<CBlock<C>> = self.blocks.split_off(retired);
        self.blocks = kept;
        proof {
            let before = old(self).blocks@;
            assert(forall|i: int|
                0 <= i < self.blocks@.len() ==> self.blocks@[i] == before[i + retired]);
            assert(self.anchor() == old(self).anchor() + retired);
            assert forall|p: int| self.head <= p implies #[trigger] val_at(self.blocks@, p)
                == val_at(old(self).blocks@, p) by {
                assert(p / CBLOCK as int >= self.cursor);
            }
            assert forall|p: int|
                self.anchor() * CBLOCK <= p < (self.last() + 1) * CBLOCK implies slot_ok(
                #[trigger] slot_at(self.blocks@, p),
                p,
                self.head as int,
                self.tail as int,
            ) by {
                assert(slot_at(self.blocks@, p) == slot_at(before, p));
            }
            assert(self.entries() =~= old(self).entries());
        }
    }

    /// Move on to the next block if this one is used up; answers whether the
    /// consumer's position now lies in its block.
    fn look(&mut self) -> (inside: bool)
        requires
            old(self).wf(),
        ensures
            final(self).wf(),
            final(self)@ == old(self)@.after_look(),
            inside == (final(self).head < (final(self).cursor + 1) * CBLOCK),
            !inside ==> final(self).cursor == final(self).last(),
    {
        if self.head < (self.cursor + 1) * CBLOCK {
            return true;
        }
        if self.cursor == self.tail_block {
            return false;
        }
        self.cursor = self.cursor + 1;
        self.reclaim();
        true
    }

    /// Take what is published at the consumer's position, if anything is.
    fn take_head(&mut self) -> (taken: Option<C>)
        requires
            old(self).wf(),
            old(self).head < (old(self).cursor + 1) * CBLOCK,
        ensures
            final(self).wf(),
            match taken {
                Some(v) => {
                    &&& old(self)@.poppable()
                    &&& v == old(self)@.entries[0]->0
                    &&& final(self)@ == (ControlLaneView {
                        entries: old(self)@.entries.drop_first(),
                        storage: ControlStorage {
                            taken: old(self)@.storage.taken + 1,
                            ..old(self)@.storage
                        },
                        ..old(self)@
                    })
                },
                None => {
                    &&& !old(self)@.poppable()
                    &&& final(self)@ == old(self)@
                },
            },
    {
        proof {
            self.lemma_slot(self.head as int);
            assert(self.tail > self.head ==> self.entries()[0] == val_at(
                self.blocks@,
                self.head as int,
            ));
        }
        let first: usize = self.blocks[0].idx;
        let bi: usize = self.cursor - first;
        let si: usize = self.head % CBLOCK;
        if !self.blocks[bi].slots[si].ready {
            return None;
        }
        let block: &mut CBlock<C> = &mut self.blocks[bi];
        let slot: &mut CSlot<C> = &mut block.slots[si];
        let v: Option<C> = slot.val.take();
        self.head = self.head + 1;
        proof {
            assert forall|p: int| self.head <= p implies #[trigger] val_at(self.blocks@, p)
                == val_at(old(self).blocks@, p) by {
                if p / CBLOCK as int <= old(self).last() {
                    old(self).lemma_slot(p);
                }
            }
            assert forall|p: int|
                self.anchor() * CBLOCK <= p < (self.last() + 1) * CBLOCK implies slot_ok(
                #[trigger] slot_at(self.blocks@, p),
                p,
                self.head as int,
                self.tail as int,
            ) by {
                old(self).lemma_slot(p);
                assert(p != old(self).head ==> slot_at(self.blocks@, p) == slot_at(
                    old(self).blocks@,
                    p,
                ));
            }
            assert(self.entries() =~= old(self).entries().drop_first());
        }
        v
    }

    /// Dequeue the oldest value, if it is published, moving on to the next
    /// block when this one is used up.
    pub fn pop(&mut self) -> (popped: Option<C>)
        requires
            old(self).wf(),
        ensures
            final(self).wf(),
            match popped {
                Some(v) => {
                    &&& old(self)@.poppable()
                    &&& v == old(self)@.entries[0]->0
                    &&& final(self)@ == old(self)@.after_pop()
                },
                None => {
                    &&& !old(self)@.poppable()
                    &&& final(self)@ == old(self)@.after_look()
                },
            },
    {
        if !self.look() {
            proof {
                assert(self.tail > self.head ==> self.entries()[0] == val_at(
                    self.blocks@,
                    self.head as int,
                ));
            }
            return None;
        }
        self.take_head()
    }

    /// Every sender handle is gone.
    pub fn closed(&self) -> (closed: bool)
        ensures
            closed == (self@.senders == 0),
    {
        self.senders == 0
    }

    /// One more position and one more sender can be counted.
    pub fn has_headroom(&self) -> (room: bool)
        requires
            self.wf(),
        ensures
            room == (self@.end() <= usize::MAX - CBLOCK && self@.senders < usize::MAX),
    {
        self.tail <= usize::MAX - CBLOCK && self.senders < usize::MAX
    }

    /// How many blocks are in memory.
    pub fn blocks_in_memory(&self) -> (n: usize)
        requires
            self.wf(),
        ensures
            n == self@.storage.blocks(),
    {
        self.blocks.len()
    }

    /// One more sender handle exists.
    pub fn add_sender(&mut self)
        requires
            old(self).wf(),
            old(self)@.senders < usize::MAX,
        ensures
            final(self).wf(),
            final(self)@ == (ControlLaneView { senders: old(self)@.senders + 1, ..old(self)@ }),
    {
        self.senders = self.senders + 1;
        proof {
            assert(self.entries() =~= old(self).entries());
        }
    }

    /// One sender handle less exists; answers whether it was the last.
    pub fn remove_sender(&mut self) -> (last: bool)
        requires
            old(self).wf(),
            old(self)@.senders > 0,
        ensures
            final(self).wf(),
            last == (old(self)@.senders == 1),
            final(self)@ == (ControlLaneView {
                senders: (old(self)@.senders - 1) as nat,
                ..old(self)@
            }),
    {
        self.senders = self.senders - 1;
        proof {
            assert(self.entries() =~= old(self).entries());
        }
        self.senders == 0
    }

    /// Take everything that can be taken, oldest first.
    pub fn take_ready(&mut self) -> (taken: Vec<C>)
        requires
            old(self).wf(),
        ensures
            final(self).wf(),
            taken@ == crate::entries::ready_prefix(old(self)@.entries),
            final(self)@ == old(self)@.emptied(),
    {
        let mut taken: Vec<C> = Vec::new();
        loop
            invariant
                self.wf(),
                taken@ + crate::entries::ready_prefix(self@.entries)
                    == crate::entries::ready_prefix(old(self)@.entries),
                self@.emptied() == old(self)@.emptied(),
            ensures
                self.wf(),
                taken@ == crate::entries::ready_prefix(old(self)@.entries),
                self@ == old(self)@.emptied(),
            decreases self@.entries.len(),
        {
            let ghost before = self@.entries;
            let ghost sofar = taken@;
            match self.pop() {
                Some(v) => {
                    taken.push(v);
                    proof {
                        assert(taken@ + crate::entries::ready_prefix(before.drop_first())
                            =~= sofar + (seq![v] + crate::entries::ready_prefix(
                            before.drop_first(),
                        )));
                    }
                },
                None => {
                    proof {
                        assert(sofar + Seq::<C>::empty() =~= sofar);
                    }
                    break;
                },
            }
        }
        taken
    }

    /// Everything a lane that is thrown away still owns: the values that were
    /// published and never taken, oldest first.
    pub fn into_unconsumed(self) -> (left: Vec<C>)
        requires
            self.wf(),
        ensures
            left@ == crate::entries::published(self@.entries),
    {
        let ghost all = self.entries();
        let mut blocks: Vec<CBlock<C>> = self.blocks;
        let head: usize = self.head;
        let tail: usize = self.tail;
        let first: usize = blocks[0].idx;
        let linked: usize = blocks.len();
        let mut left: Vec<C> = Vec::new();
        let mut pos: usize = head;
        proof {
            assert(all.skip(0) =~= all);
        }
        while pos < tail
            invariant
                self.wf(),
                all == self.entries(),
                head == self.head,
                tail == self.tail,
                first == self.anchor(),
                linked == self.blocks@.len(),
                chain_ok(blocks@),
                blocks@.len() == linked,
                blocks@[0].idx == first,
                head <= pos <= tail,
                forall|p: int|
                    pos <= p < tail ==> #[trigger] val_at(blocks@, p) == val_at(self.blocks@, p),
                left@ + crate::entries::published(all.skip(pos - head))
                    == crate::entries::published(all),
            decreases tail - pos,
        {
            let ghost sofar = left@;
            let ghost k = pos - head;
            let ghost before = blocks@;
            proof {
                assert(all.skip(k).drop_first() =~= all.skip(k + 1));
                assert(all.skip(k)[0] == val_at(blocks@, pos as int));
            }
            let want: usize = pos / CBLOCK;
            let mut found: Option<C> = None;
            if want - first < linked {
                let bi: usize = want - first;
                let si: usize = pos % CBLOCK;
                let block: &mut CBlock<C> = &mut blocks[bi];
                let slot: &mut CSlot<C> = &mut block.slots[si];
                found = slot.val.take();
            }
            proof {
                assert(found == val_at(before, pos as int));
                assert forall|p: int| pos < p < tail implies #[trigger] val_at(blocks@, p)
                    == val_at(self.blocks@, p) by {
                    assert(val_at(before, p) == val_at(self.blocks@, p));
                    assert(p / CBLOCK as int != pos as int / CBLOCK as int || p % CBLOCK as int
                        != pos as int % CBLOCK as int);
                    if (p / CBLOCK as int) < first + linked {
                        let i = p / CBLOCK as int - first;
                        assert(0 <= i < linked);
                        assert(before[i].wf());
                        assert(slot_at(blocks@, p) == slot_at(before, p));
                    }
                }
            }
            match found {
                Some(v) => {
                    left.push(v);
                    proof {
                        assert(left@ + crate::entries::published(all.skip(k + 1))
                            =~= sofar + (seq![v] + crate::entries::published(all.skip(k + 1))));
                    }
                },
                None => {},
            }
            pos = pos + 1;
        }
        proof {
            assert(crate::entries::published(all.skip(tail - head)) =~= Seq::<C>::empty());
            assert(left@ + Seq::<C>::empty() =~= left@);
        }
        left
    }

    /// What holds of every lane at any time.
    pub proof fn law_lane_is_consistent(&self)
        requires
            self.wf(),
        ensures
            self@.consistent(),
    {
        assert forall|p: int| #[trigger] self@.walking.contains(p) implies self@.storage.taken <= p
            < self@.end() && self@.entries[p - self@.storage.taken] is None by {
            assert(val_at(self.blocks@, p) is None);
            assert(self.entries()[p - self.head] == val_at(self.blocks@, p));
        }
        assert forall|p: int|
            self@.storage.taken <= p < self@.end() && !(#[trigger] self@.walking.contains(
                p,
            )) implies p / CBLOCK as int <= self@.storage.last by {
            assert(val_at(self.blocks@, p) is Some || val_at(self.blocks@, p) is None);
        }
    }
}

/// Whatever is done to a lane, it stays consistent: a claim, the publication of
/// a claim, the freeing of blocks, a look and a pop.
pub proof fn law_lane_stays_consistent<C>(v: ControlLaneView<C>, pos: int, item: C)
    requires
        v.consistent(),
    ensures
        v.end() <= usize::MAX - CBLOCK ==> v.after_claim().consistent(),
        v.end() <= usize::MAX - CBLOCK ==> v.after_push(item).consistent(),
        v.storage.taken <= pos < v.end() && v.entries[pos - v.storage.taken] is None
            ==> v.after_publish(pos, item).consistent(),
        v.after_reclaim().consistent(),
        v.after_look().consistent(),
        v.poppable() ==> v.after_pop().consistent(),
{
    if v.poppable() {
        assert(!v.walking.contains(v.storage.taken as int));
        assert(v.after_pop().consistent());
    }
    if v.end() <= usize::MAX - CBLOCK {
        let claimed = v.after_claim();
        assert forall|p: int|
            v.storage.taken <= p < claimed.end() && !(#[trigger] claimed.walking.contains(
                p,
            )) implies p / CBLOCK as int <= claimed.storage.last by {
            if p < v.end() {
                assert(!v.walking.contains(p));
            }
        }
        assert(claimed.consistent());
        let pushed = v.after_push(item);
        assert(!v.walking.contains(v.end()));
        assert(pushed.consistent());
    }
    if v.storage.taken <= pos < v.end() && v.entries[pos - v.storage.taken] is None {
        let published = v.after_publish(pos, item);
        assert forall|p: int|
            v.storage.taken <= p < published.end() && !(#[trigger] published.walking.contains(
                p,
            )) implies p / CBLOCK as int <= published.storage.last by {
            if p != pos {
                assert(!v.walking.contains(p));
            }
        }
        assert(published.consistent());
    }
}

/// What is left once the consumer took everything it could, and what taking it
/// does not touch.
pub proof fn lemma_emptied<C>(v: ControlLaneView<C>)
    ensures
        v.emptied().entries == v.entries.skip(
            crate::entries::ready_prefix(v.entries).len() as int,
        ),
        v.emptied().walking == v.walking,
        v.emptied().senders == v.senders,
    decreases v.entries.len(),
{
    if v.poppable() {
        lemma_emptied(v.after_pop());
        crate::entries::lemma_prefix_length(v.entries.drop_first());
        let n = crate::entries::ready_prefix(v.entries.drop_first()).len();
        assert(v.entries.drop_first().skip(n as int) =~= v.entries.skip((n + 1) as int));
    } else {
        assert(v.entries.skip(0) =~= v.entries);
    }
}

/// The chain does not grow without bound: as long as no producer walks, fewer
/// than four used-up blocks stay in memory, whatever is pushed, taken or looked
/// for, so the chain is never longer than its backlog needs plus five blocks.
pub proof fn law_blocks_in_memory_are_bounded<C>(v: ControlLaneView<C>, item: C)
    requires
        v.consistent(),
        v.walking.len() == 0,
        v.storage.cursor - v.storage.first < 4,
    ensures
        v.storage.blocks() <= v.entries.len() / CBLOCK as nat + 5,
        v.after_look().storage.cursor - v.after_look().storage.first < 4,
        v.poppable() ==> v.after_pop().storage.cursor - v.after_pop().storage.first < 4,
        ({
            let pushed = v.storage.reaching(v.end());
            pushed.cursor - pushed.first < 4
        }),
{
}

/// Freeing never takes a block that a producer still needs: every claimed
/// position keeps its block, and while any producer walks nothing is freed.
pub proof fn law_freeing_spares_claims<C>(v: ControlLaneView<C>, p: int)
    requires
        v.consistent(),
        v.storage.taken <= p < v.end(),
    ensures
        v.after_look().storage.first <= p / CBLOCK as int,
        v.after_pop().storage.first <= p / CBLOCK as int,
        v.walking.len() > 0 ==> v.after_look().storage.first == v.storage.first
            && v.after_pop().storage.first == v.storage.first,
{
}

/// `ControlLane::reclaim` loses and changes nothing that is queued: every claim
/// stays as it is and keeps its block. While a producer walks nothing is freed;
/// else fewer than four used-up blocks stay in memory. Doing it twice changes
/// nothing.
pub proof fn law_reclaim_frees_only_used_up_blocks<C>()
    ensures
        forall|lane: &mut ControlLane<C>|
            (*lane).wf() ==> #[trigger] call_requires(ControlLane::<C>::reclaim, (lane,)),
        forall|lane: &mut ControlLane<C>|
            (*lane)@.consistent() && #[trigger] call_ensures(
                ControlLane::<C>::reclaim,
                (lane,),
                (),
            ) ==> {
                let v = (*lane)@;
                let after = (*final(lane))@;
                &&& after.consistent()
                &&& after.entries == v.entries
                &&& after.walking == v.walking
                &&& after.senders == v.senders
                &&& after.storage.taken == v.storage.taken
                &&& after.storage.cursor == v.storage.cursor
                &&& after.storage.last == v.storage.last
                &&& v.storage.first <= after.storage.first
                &&& forall|p: int|
                    v.storage.taken <= p < v.end() ==> after.storage.first <= #[trigger] (p
                        / CBLOCK as int)
                &&& v.walking.len() > 0 ==> after.storage.first == v.storage.first
                &&& v.walking.len() == 0 ==> after.storage.cursor - after.storage.first < 4
                &&& after.after_reclaim() == after
            },
{
}

} // verus!
