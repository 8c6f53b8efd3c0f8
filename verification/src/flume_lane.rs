use vstd::prelude::*;

verus! {

/// The sending half of a flume channel.
#[verifier::external_type_specification]
#[verifier::external_body]
#[verifier::reject_recursive_types(T)]
pub struct ExFlumeSender<T>(flume::Sender<T>);

/// The receiving half of a flume channel.
#[verifier::external_type_specification]
#[verifier::external_body]
#[verifier::reject_recursive_types(T)]
pub struct ExFlumeReceiver<T>(flume::Receiver<T>);

/// A sending half that does not keep its flume channel open.
#[verifier::external_type_specification]
#[verifier::external_body]
#[verifier::reject_recursive_types(T)]
pub struct ExFlumeWeakSender<T>(flume::WeakSender<T>);

/// What a lane answered when it was asked for an item without waiting.
#[derive(Debug, PartialEq, Eq)]
pub enum Polled<T> {
    /// Its oldest item.
    Item(T),
    /// It is empty, and senders are left.
    Empty,
    /// It is empty, and no sender is left.
    Disconnected,
}

/// What a bounded lane answered when it was offered an item without waiting.
#[derive(Debug, PartialEq, Eq)]
pub enum Offered<T> {
    /// The item was enqueued.
    Accepted,
    /// The lane is at capacity; the item comes back.
    Full(T),
    /// No receiver is left; the item comes back.
    Disconnected(T),
}

/// A flume sender together with what it was made with. Only the functions of
/// this file make one, from a flume call each.
#[verifier::reject_recursive_types(T)]
pub struct LaneSender<T> {
    tx: flume::Sender<T>,
    lane: Ghost<int>,
    limit: Ghost<Option<nat>>,
}

/// A flume receiver together with what it was made with, and with the answers
/// it was given so far.
#[verifier::reject_recursive_types(T)]
pub struct LaneReceiver<T> {
    rx: flume::Receiver<T>,
    lane: Ghost<int>,
    answers: Ghost<Seq<Polled<T>>>,
}

/// A weak flume sender together with what its channel was made with.
#[verifier::reject_recursive_types(T)]
pub struct LaneAnchor<T> {
    tx: flume::WeakSender<T>,
    lane: Ghost<int>,
    limit: Ghost<Option<nat>>,
}

impl<T> LaneSender<T> {
    /// The flume channel that the sender belongs to.
    pub closed spec fn lane(&self) -> int {
        self.lane@
    }

    /// How many items that channel holds at most; `None` if it has no limit.
    pub closed spec fn limit(&self) -> Option<nat> {
        self.limit@
    }

    /// The flume sender.
    pub closed spec fn raw(&self) -> flume::Sender<T> {
        self.tx
    }

    /// `offered` is an answer that offering `item` on this sender gives.
    pub open(crate) spec fn offer_gives(&self, item: T, offered: Offered<T>) -> bool {
        call_ensures(LaneSender::<T>::offer, (self, item), offered)
    }

    /// `sent` is an answer that sending `item` on this sender gives.
    pub open(crate) spec fn send_gives(&self, item: T, sent: Result<(), T>) -> bool {
        call_ensures(LaneSender::<T>::send, (self, item), sent)
    }

    /// The flume sender, to wait for room with.
    pub fn as_flume(&self) -> (tx: &flume::Sender<T>)
        ensures
            *tx == self.raw(),
    {
        &self.tx
    }

    /// `flume::Sender::send`, on a channel without a limit, so that it does not
    /// wait. Claimed: an item that is not enqueued comes back unchanged. Whether
    /// it is depends on whether a receiver is left.
    #[verifier::external_body]
    pub(crate) fn send(&self, item: T) -> (sent: Result<(), T>)
        requires
            self.limit() is None,
        ensures
            sent matches Err(back) ==> back == item,
    {
        self.tx.send(item).map_err(|e| e.into_inner())
    }

    /// `flume::Sender::try_send`. Claimed: an item that is not enqueued comes
    /// back unchanged, and a channel without a limit is never full. Which of the
    /// other answers comes depends on the other users of the channel.
    #[verifier::external_body]
    pub(crate) fn offer(&self, item: T) -> (offered: Offered<T>)
        ensures
            match offered {
                Offered::Accepted => true,
                Offered::Full(back) => back == item && self.limit() is Some,
                Offered::Disconnected(back) => back == item,
            },
    {
        match self.tx.try_send(item) {
            Ok(()) => Offered::Accepted,
            Err(flume::TrySendError::Full(v)) => Offered::Full(v),
            Err(flume::TrySendError::Disconnected(v)) => Offered::Disconnected(v),
        }
    }

    /// `flume::Sender::clone`: one more sender. Claimed: it belongs to the same
    /// channel.
    #[verifier::external_body]
    pub(crate) fn duplicate(&self) -> (other: LaneSender<T>)
        ensures
            other.lane() == self.lane(),
            other.limit() == self.limit(),
    {
        LaneSender { tx: self.tx.clone(), lane: self.lane, limit: self.limit }
    }

    /// `flume::Sender::downgrade`: a handle that does not keep the channel open.
    /// Claimed: it belongs to the same channel.
    #[verifier::external_body]
    pub(crate) fn downgrade(&self) -> (anchor: LaneAnchor<T>)
        ensures
            anchor.lane() == self.lane(),
            anchor.limit() == self.limit(),
    {
        LaneAnchor { tx: self.tx.downgrade(), lane: self.lane, limit: self.limit }
    }
}

impl<T> LaneAnchor<T> {
    /// The flume channel that the anchor belongs to.
    pub closed spec fn lane(&self) -> int {
        self.lane@
    }

    /// How many items that channel holds at most; `None` if it has no limit.
    pub closed spec fn limit(&self) -> Option<nat> {
        self.limit@
    }

    /// `got` is an answer that upgrading this anchor gives.
    pub open(crate) spec fn upgrade_gives(&self, got: Option<LaneSender<T>>) -> bool {
        call_ensures(LaneAnchor::<T>::upgrade, (self,), got)
    }

    /// `flume::WeakSender::upgrade`: a sender, if one is left to stand beside.
    /// Claimed: it belongs to the same channel. Whether it comes depends on the
    /// other users of the channel.
    #[verifier::external_body]
    pub(crate) fn upgrade(&self) -> (got: Option<LaneSender<T>>)
        ensures
            got matches Some(sender) ==> sender.lane() == self.lane() && sender.limit()
                == self.limit(),
    {
        let lane = self.lane;
        let limit = self.limit;
        self.tx.upgrade().map(|tx| LaneSender { tx, lane, limit })
    }

    /// `flume::WeakSender::clone`: one more such handle. Claimed: it belongs to
    /// the same channel.
    #[verifier::external_body]
    pub(crate) fn duplicate(&self) -> (other: LaneAnchor<T>)
        ensures
            other.lane() == self.lane(),
            other.limit() == self.limit(),
    {
        LaneAnchor { tx: self.tx.clone(), lane: self.lane, limit: self.limit }
    }
}

impl<T> LaneReceiver<T> {
    /// The flume channel that the receiver belongs to.
    pub closed spec fn lane(&self) -> int {
        self.lane@
    }

    /// What `poll` answered so far, oldest first.
    pub closed spec fn answers(&self) -> Seq<Polled<T>> {
        self.answers@
    }

    /// `poll` once found the channel empty, with no sender left.
    pub open spec fn over(&self) -> bool {
        self.answers().contains(Polled::Disconnected)
    }

    /// The flume receiver.
    pub closed spec fn raw(&self) -> flume::Receiver<T> {
        self.rx
    }

    /// `items` is an answer that draining this receiver, as it is now, gives.
    pub open(crate) spec fn drain_gives(&self, items: Vec<T>) -> bool {
        call_ensures(LaneReceiver::<T>::drain, (*self,), (items, self.raw()))
    }

    /// The flume receiver, to wait for an item with.
    pub fn as_flume(&self) -> (rx: &flume::Receiver<T>)
        ensures
            *rx == self.raw(),
    {
        &self.rx
    }

    /// `flume::Receiver::try_recv`. Claimed: the answer is recorded, nothing else
    /// of the receiver changes, and a channel that was once found empty with no
    /// sender left is found so ever after. What else the answer is depends on the
    /// other users of the channel.
    #[verifier::external_body]
    pub(crate) fn poll(&mut self) -> (polled: Polled<T>)
        ensures
            final(self).answers() == old(self).answers().push(polled),
            final(self).lane() == old(self).lane(),
            final(self).raw() == old(self).raw(),
            old(self).over() ==> polled is Disconnected,
    {
        let polled = match self.rx.try_recv() {
            Ok(v) => Polled::Item(v),
            Err(flume::TryRecvError::Empty) => Polled::Empty,
            Err(flume::TryRecvError::Disconnected) => Polled::Disconnected,
        };
        self.answers = Ghost(self.answers@.push(polled));
        polled
    }

    /// `flume::Receiver::drain`: everything that is queued now. It is the last
    /// thing that is asked of the receiver, which comes back as flume has it, so
    /// that it can be kept alive. Claimed: it is the same receiver. No clause says
    /// what is queued: that depends on the other users of the channel.
    #[verifier::external_body]
    pub(crate) fn drain(self) -> (left: (Vec<T>, flume::Receiver<T>))
        ensures
            left.1 == self.raw(),
    {
        let items = self.rx.drain().collect();
        (items, self.rx)
    }
}

/// `flume::unbounded`. Claimed: the two halves belong to one channel, which has
/// no limit, and nothing was asked of it yet.
#[verifier::external_body]
pub(crate) fn unbounded<T>() -> (halves: (LaneSender<T>, LaneReceiver<T>))
    ensures
        halves.0.lane() == halves.1.lane(),
        halves.0.limit() is None,
        halves.1.answers() == Seq::<Polled<T>>::empty(),
{
    let (tx, rx) = flume::unbounded();
    let lane: Ghost<int> = Ghost(vstd::pervasive::arbitrary());
    (
        LaneSender { tx, lane, limit: Ghost(None) },
        LaneReceiver { rx, lane, answers: Ghost(Seq::empty()) },
    )
}

/// `flume::bounded`. Claimed: the two halves belong to one channel, which holds
/// at most `cap` items, and nothing was asked of it yet.
#[verifier::external_body]
pub(crate) fn bounded<T>(cap: usize) -> (halves: (LaneSender<T>, LaneReceiver<T>))
    ensures
        halves.0.lane() == halves.1.lane(),
        halves.0.limit() == Some(cap as nat),
        halves.1.answers() == Seq::<Polled<T>>::empty(),
{
    let (tx, rx) = flume::bounded(cap);
    let lane: Ghost<int> = Ghost(vstd::pervasive::arbitrary());
    (
        LaneSender { tx, lane, limit: Ghost(Some(cap as nat)) },
        LaneReceiver { rx, lane, answers: Ghost(Seq::empty()) },
    )
}

} // verus!
