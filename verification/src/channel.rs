use crate::consumer::Consumer;
use crate::control_lane::{ControlLane, ControlLaneView, ControlStorage};
use crate::notify::{Notify, NotifyView};
use crate::senders::{ControlSender, UserSender};
use crate::types::{Config, Drained};
use crate::user_lane::{UserLane, UserLaneView};
use vstd::prelude::*;

verus! {

/// Whether an operation that may have to wait is done.
#[derive(Debug, PartialEq, Eq)]
pub enum Step<T> {
    /// It is done, with this result.
    Ready(T),
    /// It waits and is to be tried again once it was woken.
    Pending,
}

/// What both lanes and the consumer share: the single wakeup point of the
/// consumer and whether the consumer is still there.
pub struct Core {
    /// Wakeup point of the consumer.
    pub notify: Notify,
    /// The consumer announced that it is about to sleep.
    pub parked: bool,
    /// The consumer was torn down.
    pub consumer_gone: bool,
}

/// What a [`Core`] holds.
pub struct CoreView {
    pub notify: NotifyView,
    pub parked: bool,
    pub consumer_gone: bool,
}

impl CoreView {
    /// A producer has news for the consumer: it is notified if it announced
    /// that it sleeps.
    pub open spec fn woken(self) -> CoreView {
        if self.parked {
            CoreView { notify: self.notify.notified(), ..self }
        } else {
            self
        }
    }

    /// The consumer registered and announced that it is about to sleep.
    pub open spec fn announced(self) -> CoreView {
        CoreView { notify: self.notify.armed(), parked: true, ..self }
    }

    /// The consumer was let through and is awake again.
    pub open spec fn resumed(self) -> CoreView {
        CoreView { notify: self.notify.passed(), parked: false, ..self }
    }

    /// The consumer found something after all and does not sleep.
    pub open spec fn withdrawn(self) -> CoreView {
        CoreView { notify: self.notify.abandoned(), parked: false, ..self }
    }

    /// The consumer stopped waiting from outside, its announcement stands.
    pub open spec fn cancelled(self) -> CoreView {
        CoreView { notify: self.notify.abandoned(), ..self }
    }
}

impl View for Core {
    type V = CoreView;

    open spec fn view(&self) -> CoreView {
        CoreView {
            notify: self.notify@,
            parked: self.parked,
            consumer_gone: self.consumer_gone,
        }
    }
}

impl Core {
    /// The wakeup point is sound.
    pub open spec fn wf(&self) -> bool {
        self.notify.wf()
    }

    /// A consumer that is there and awake.
    pub fn new() -> (core: Self)
        ensures
            core.wf(),
            core@ == (CoreView {
                notify: NotifyView { permit: false, enabled: 0, woken: 0 },
                parked: false,
                consumer_gone: false,
            }),
    {
        Core { notify: Notify::new(), parked: false, consumer_gone: false }
    }

    /// Wake the consumer if it announced that it sleeps.
    pub fn wake_consumer(&mut self)
        requires
            old(self).wf(),
        ensures
            final(self).wf(),
            final(self)@ == old(self)@.woken(),
    {
        self.notify.notify_if(self.parked);
    }
}

/// The state behind a two-lane channel: an unbounded control lane and a bounded
/// user lane that feed one consumer.
///
/// Handles carry no state of their own that others see; each call is given the
/// channel that the handle belongs to. Callers know nothing of a channel's `id`
/// but that its handles share it, so that a handle works on no other channel.
pub struct Channel<C, U> {
    pub control: ControlLane<C>,
    pub user: UserLane<U>,
    pub core: Core,
    /// What the handles of this channel know it by.
    pub id: Ghost<int>,
}

/// What a [`Channel`] holds.
#[verifier::ext_equal]
pub struct ChannelView<C, U> {
    pub control: ControlLaneView<C>,
    pub user: UserLaneView<U>,
    pub core: CoreView,
    /// What the handles of this channel know it by; no call ever changes it.
    pub id: int,
}

impl<C, U> ChannelView<C, U> {
    /// Every value that was announced is published.
    pub open spec fn settled(self) -> bool {
        crate::entries::settled(self.control.entries) && crate::entries::settled(
            self.user.entries,
        )
    }

    /// The control items that wait, oldest first.
    pub open spec fn controls(self) -> Seq<C> {
        crate::entries::values(self.control.entries)
    }

    /// The user items that wait, oldest first.
    pub open spec fn users(self) -> Seq<U> {
        crate::entries::values(self.user.entries)
    }

    /// Every counter has room for one more: a send, a sender or a producer that
    /// waits.
    pub open spec fn headroom(self) -> bool {
        &&& self.control.end() <= usize::MAX - crate::control_lane::CBLOCK
        &&& self.control.senders < usize::MAX
        &&& self.user.senders < usize::MAX
        &&& self.user.waiting < usize::MAX
    }

    /// The user lane takes no more values now.
    pub open spec fn full(self) -> bool {
        self.user.entries.len() == self.user.capacity
    }

    /// The consumer is told that there is news.
    pub open spec fn woken(self) -> ChannelView<C, U> {
        ChannelView { core: self.core.woken(), ..self }
    }

    /// A control item was enqueued and the consumer was told.
    pub open spec fn control_sent(self, item: C) -> ChannelView<C, U> {
        ChannelView { control: self.control.after_push(item), ..self }.woken()
    }

    /// A user item was enqueued and the consumer was told.
    pub open spec fn user_sent(self, item: U) -> ChannelView<C, U> {
        ChannelView {
            user: UserLaneView { entries: self.user.entries.push(Some(item)), ..self.user },
            ..self
        }.woken()
    }

    /// There is one more control sender.
    pub open spec fn control_sender_added(self) -> ChannelView<C, U> {
        ChannelView {
            control: ControlLaneView { senders: self.control.senders + 1, ..self.control },
            ..self
        }
    }

    /// There is one more user sender.
    pub open spec fn user_sender_added(self) -> ChannelView<C, U> {
        ChannelView {
            user: UserLaneView { senders: self.user.senders + 1, ..self.user },
            ..self
        }
    }

    /// A control sender went away. The consumer is told before the sender stops
    /// counting, and once more if it was the last one.
    pub open spec fn control_sender_gone(self) -> ChannelView<C, U> {
        let left = ChannelView {
            control: ControlLaneView {
                senders: (self.control.senders - 1) as nat,
                ..self.control
            },
            ..self.woken()
        };
        if self.control.senders == 1 {
            left.woken()
        } else {
            left
        }
    }

    /// A user sender went away. The consumer is told before the sender stops
    /// counting, and once more if it was the last one.
    pub open spec fn user_sender_gone(self) -> ChannelView<C, U> {
        let left = ChannelView {
            user: UserLaneView { senders: (self.user.senders - 1) as nat, ..self.user },
            ..self.woken()
        };
        if self.user.senders == 1 {
            left.woken()
        } else {
            left
        }
    }

    /// The consumer went away: every waiting producer is let go. Doing it twice
    /// changes nothing.
    pub open spec fn torn_down(self) -> ChannelView<C, U> {
        if self.core.consumer_gone {
            self
        } else {
            ChannelView {
                user: UserLaneView {
                    send_notify: self.user.send_notify.all_notified(),
                    ..self.user
                },
                core: CoreView {
                    consumer_gone: true,
                    notify: self.core.notify.notified(),
                    ..self.core
                },
                ..self
            }
        }
    }
}

impl<C, U> View for Channel<C, U> {
    type V = ChannelView<C, U>;

    open spec fn view(&self) -> ChannelView<C, U> {
        ChannelView {
            control: self.control@,
            user: self.user@,
            core: self.core@,
            id: self.id@,
        }
    }
}

impl<C, U> Channel<C, U> {
    /// Both lanes and the wakeup point are sound.
    pub open spec fn wf(&self) -> bool {
        self.control.wf() && self.user.wf() && self.core.wf()
    }

    /// Every counter has room for one more: a send, a sender or a producer that
    /// waits.
    pub fn has_headroom(&self) -> (room: bool)
        requires
            self.wf(),
        ensures
            room == self@.headroom(),
    {
        self.control.has_headroom() && self.user.has_headroom()
    }

    /// A consumer that waits can go on. Whoever runs the handles asks this after
    /// each call and wakes the consumer.
    pub fn consumer_ready(&self) -> (ready: bool)
        ensures
            ready == self@.core.notify.ready(),
    {
        self.core.notify.is_ready()
    }

    /// A producer that waits for room can go on. Whoever runs the handles asks
    /// this after each call and wakes the producers that wait.
    pub fn producer_ready(&self) -> (ready: bool)
        ensures
            ready == (self@.user.waiting > 0 && self@.user.send_notify.ready()),
    {
        self.user.waiter_ready()
    }

    /// Everything queued on a lane that nobody can use any more, because the
    /// consumer and all senders of the lane are gone. Whoever runs the handles
    /// calls this when one of them goes away, and drops what comes back.
    pub fn release_unused(&mut self) -> (left: Drained<C, U>)
        requires
            old(self).wf(),
        ensures
            final(self).wf(),
            ({
                let gone = old(self)@.core.consumer_gone;
                let control_unused = gone && old(self)@.control.senders == 0;
                let user_unused = gone && old(self)@.user.senders == 0;
                &&& left.control@ == if control_unused {
                    crate::entries::ready_prefix(old(self)@.control.entries)
                } else {
                    Seq::empty()
                }
                &&& left.user@ == if user_unused {
                    crate::entries::ready_prefix(old(self)@.user.entries)
                } else {
                    Seq::empty()
                }
                &&& final(self)@ == (ChannelView {
                    control: if control_unused {
                        old(self)@.control.emptied()
                    } else {
                        old(self)@.control
                    },
                    user: UserLaneView {
                        entries: old(self)@.user.entries.skip(left.user@.len() as int),
                        popped: old(self)@.user.popped + left.user@.len(),
                        ..old(self)@.user
                    },
                    ..old(self)@
                })
            }),
    {
        let gone: bool = self.core.consumer_gone;
        let control: Vec<C> = if gone && self.control.closed() {
            self.control.take_ready()
        } else {
            Vec::new()
        };
        let user: Vec<U> = if gone && self.user.closed() {
            self.user.take_ready()
        } else {
            Vec::new()
        };
        proof {
            assert(old(self)@.user.entries.skip(0) =~= old(self)@.user.entries);
        }
        Drained { control, user }
    }

    /// Everything that is left in a channel whose handles are all gone.
    pub fn into_unconsumed(self) -> (left: Drained<C, U>)
        requires
            self.wf(),
        ensures
            left.control@ == crate::entries::published(self@.control.entries),
            left.user@ == crate::entries::published(self@.user.entries),
    {
        let control: Vec<C> = self.control.into_unconsumed();
        let user: Vec<U> = self.user.into_unconsumed();
        Drained { control, user }
    }
}

/// The ring size for a lane that is to hold `n` items.
pub open spec fn rounded(n: int, size: int) -> bool {
    &&& crate::tickets::ring_size(size)
    &&& n <= size
    &&& size == 2 || size < 2 * n
}

/// The smallest power of two that is at least `n`, two at least.
fn ring_len(n: usize) -> (size: usize)
    requires
        n <= 0x4000_0000,
    ensures
        rounded(n as int, size as int),
{
    let mut size: usize = 2;
    proof {
        vstd::arithmetic::power2::lemma2_to64();
        assert(size == vstd::arithmetic::power2::pow2(1));
    }
    let ghost mut e: nat = 1;
    while size < n
        invariant
            n <= 0x4000_0000,
            1 <= e <= 30,
            size == vstd::arithmetic::power2::pow2(e),
            size <= 0x4000_0000,
            size == 2 || size < 2 * n,
        decreases 0x4000_0000 - size,
    {
        proof {
            vstd::arithmetic::power2::lemma2_to64();
            vstd::arithmetic::power2::lemma_pow2_unfold(e + 1);
            if e == 30 {
                assert(size == 0x4000_0000);
            }
            if e < 30 {
                if e + 1 < 30 {
                    vstd::arithmetic::power2::lemma_pow2_strictly_increases(e + 1, 30);
                }
                e = e + 1;
            }
        }
        size = size * 2;
    }
    size
}

/// A size that is right for `n` is the only one.
pub proof fn law_ring_size_is_unique(n: int, a: int, b: int)
    requires
        n >= 0,
        rounded(n, a),
        rounded(n, b),
    ensures
        a == b,
{
    let i = choose|k: nat| k <= 30 && a == #[trigger] vstd::arithmetic::power2::pow2(k);
    let j = choose|k: nat| k <= 30 && b == #[trigger] vstd::arithmetic::power2::pow2(k);
    if i < j {
        lemma_next_power(i, j);
    }
    if j < i {
        lemma_next_power(j, i);
    }
}

/// A larger power of two is at least twice as large.
proof fn lemma_next_power(i: nat, j: nat)
    requires
        i < j,
    ensures
        2 * vstd::arithmetic::power2::pow2(i) <= vstd::arithmetic::power2::pow2(j),
{
    vstd::arithmetic::power2::lemma_pow2_unfold(i + 1);
    if i + 1 < j {
        vstd::arithmetic::power2::lemma_pow2_strictly_increases(i + 1, j);
    }
}

/// The channel that `cfg` describes, with nothing in it, one sender for each
/// lane and a consumer that is awake.
pub open spec fn fresh_channel<C, U>(cfg: Config, ch: ChannelView<C, U>) -> bool {
    &&& rounded(cfg.capacity() as int, ch.user.capacity as int)
    &&& ch == (ChannelView {
        control: ControlLaneView {
            entries: Seq::<Option<C>>::empty(),
            storage: ControlStorage { taken: 0, first: 0, cursor: 0, last: 0 },
            walking: Set::empty(),
            senders: 1,
        },
        user: UserLaneView {
            entries: Seq::<Option<U>>::empty(),
            capacity: ch.user.capacity,
            popped: 0,
            waiting: 0,
            senders: 1,
            send_notify: NotifyView { permit: false, enabled: 0, woken: 0 },
        },
        core: CoreView {
            notify: NotifyView { permit: false, enabled: 0, woken: 0 },
            parked: false,
            consumer_gone: false,
        },
        id: ch.id,
    })
}

/// Build a two-lane priority channel: an unbounded control lane and a bounded
/// user lane feeding one [`Consumer`].
///
/// The user lane is rounded up to a power of two, two at least; a capacity of
/// zero is served by the smallest ring.
#[must_use]
pub fn channel<C, U>(cfg: Config) -> (made: (
    Channel<C, U>,
    ControlSender<C>,
    UserSender<U>,
    Consumer<C, U>,
))
    requires
        cfg.capacity() <= 0x4000_0000,
    ensures
        made.0.wf(),
        made.3.wf(),
        made.3.attends(made.0@),
        made.3@ == crate::consumer::fresh_consumer(cfg),
        fresh_channel(cfg, made.0@),
        made.1.of() == made.0@.id,
        made.2.of() == made.0@.id,
{
    let size: usize = ring_len(cfg.user_capacity());
    let id: Ghost<int> = Ghost(vstd::pervasive::arbitrary());
    let ch = Channel {
        control: ControlLane::new(),
        user: UserLane::new(size),
        core: Core::new(),
        id,
    };
    (ch, ControlSender::new(id), UserSender::new(id), Consumer::new(cfg.aging_cap(), id))
}

} // verus!
