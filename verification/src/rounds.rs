use crate::channel::{ChannelView, Step};
use crate::consumer::ConsumerView;
use crate::control_lane::ControlLaneView;
use crate::types::{Config, Received};
use vstd::prelude::*;

verus! {

/// A lane that is empty, has no walking producer and has at most three used-up
/// blocks.
pub open spec fn tidy<C>(lane: ControlLaneView<C>) -> bool {
    &&& lane.consistent()
    &&& lane.entries.len() == 0
    &&& lane.walking.len() == 0
    &&& lane.storage.cursor - lane.storage.first < 4
}

/// A channel and its consumer after a run of rounds, in each of which one
/// control item is sent and one item is received.
pub open spec fn after_rounds<C, U>(
    ch: ChannelView<C, U>,
    consumer: ConsumerView,
    items: Seq<C>,
) -> (ChannelView<C, U>, ConsumerView)
    decreases items.len(),
{
    if items.len() == 0 {
        (ch, consumer)
    } else {
        let (ch, consumer) = after_rounds(ch, consumer, items.drop_last());
        let sent = ch.control_sent(items.last());
        (consumer.channel_after_recv(sent), consumer.after_recv(sent))
    }
}

/// A round can start: the control lane is tidy, the user lane has nothing to give,
/// and the consumer is awake.
pub open spec fn between_rounds<C, U>(ch: ChannelView<C, U>, consumer: ConsumerView) -> bool {
    &&& tidy(ch.control)
    &&& !ch.user.poppable()
    &&& ch.user.senders > 0 || consumer.policy.reported
    &&& !consumer.registered
}

/// One round gives back its own item and leaves everything as a round finds it.
proof fn lemma_round<C, U>(ch: ChannelView<C, U>, consumer: ConsumerView, item: C)
    requires
        between_rounds(ch, consumer),
        ch.control.end() <= usize::MAX - crate::control_lane::CBLOCK,
    ensures
        ({
            let sent = ch.control_sent(item);
            &&& consumer.recv_answer(sent) == Step::Ready(
                Some(Received::<C, U>::Control(item)),
            )
            &&& ch.control.storage.blocks() <= 5
            &&& sent.control.storage.blocks() <= 5
            &&& between_rounds(consumer.channel_after_recv(sent), consumer.after_recv(sent))
            &&& consumer.channel_after_recv(sent).control.end() == ch.control.end() + 1
        }),
{
    let sent = ch.control_sent(item);
    crate::control_lane::law_lane_stays_consistent(ch.control, 0, item);
    crate::control_lane::law_blocks_in_memory_are_bounded(ch.control, item);
    crate::control_lane::law_lane_stays_consistent(sent.control, 0, item);
    crate::control_lane::law_blocks_in_memory_are_bounded(sent.control, item);
}

/// The rounds so far have left everything as a round finds it.
proof fn lemma_rounds<C, U>(ch: ChannelView<C, U>, consumer: ConsumerView, items: Seq<C>)
    requires
        between_rounds(ch, consumer),
        ch.control.end() + items.len() <= usize::MAX - crate::control_lane::CBLOCK,
    ensures
        ({
            let now = after_rounds(ch, consumer, items);
            &&& between_rounds(now.0, now.1)
            &&& now.0.control.end() == ch.control.end() + items.len()
        }),
    decreases items.len(),
{
    if items.len() > 0 {
        lemma_rounds(ch, consumer, items.drop_last());
        let before = after_rounds(ch, consumer, items.drop_last());
        lemma_round(before.0, before.1, items.last());
    }
}

/// However many control items are sent and received one after the other, each
/// receive gives the item of its own round, and there are never more than five
/// blocks in memory, neither between the rounds nor within one: freeing blocks
/// loses nothing, and there is never anything left to free.
pub proof fn law_rounds_give_back_and_do_not_pile_up<C, U>(
    ch: ChannelView<C, U>,
    consumer: ConsumerView,
    items: Seq<C>,
    i: int,
)
    requires
        between_rounds(ch, consumer),
        ch.control.end() + items.len() <= usize::MAX - crate::control_lane::CBLOCK,
        0 <= i < items.len(),
    ensures
        ({
            let now = after_rounds(ch, consumer, items.take(i));
            let sent = now.0.control_sent(items[i]);
            let after = after_rounds(ch, consumer, items.take(i + 1));
            &&& now.1.recv_answer(sent) == Step::Ready(
                Some(Received::<C, U>::Control(items[i])),
            )
            &&& after.0 == now.1.channel_after_recv(sent)
            &&& after.0.control.entries.len() == 0
            &&& now.0.control.storage.blocks() <= 5
            &&& sent.control.storage.blocks() <= 5
            &&& after.0.control.storage.blocks() <= 5
            &&& after.0.control.after_reclaim() == after.0.control
        }),
{
    lemma_rounds(ch, consumer, items.take(i));
    lemma_rounds(ch, consumer, items.take(i + 1));
    let now = after_rounds(ch, consumer, items.take(i));
    let after = after_rounds(ch, consumer, items.take(i + 1));
    assert(items.take(i + 1).drop_last() =~= items.take(i));
    lemma_round(now.0, now.1, items[i]);
    crate::control_lane::law_blocks_in_memory_are_bounded(after.0.control, items[i]);
}

/// A new channel is ready for rounds.
pub proof fn law_new_channel_is_ready_for_rounds<C, U>(
    cfg: Config,
    ch: ChannelView<C, U>,
)
    requires
        crate::channel::fresh_channel(cfg, ch),
    ensures
        between_rounds(ch, crate::consumer::fresh_consumer(cfg)),
{
}

/// A control lane after a run of rounds, in each of which an item is pushed, an
/// item is popped, and used-up blocks are freed.
pub open spec fn lane_after_rounds<C>(lane: ControlLaneView<C>, items: Seq<C>) -> ControlLaneView<
    C,
>
    decreases items.len(),
{
    if items.len() == 0 {
        lane
    } else {
        lane_after_rounds(lane, items.drop_last()).after_push(
            items.last(),
        ).after_pop().after_reclaim()
    }
}

/// One round leaves the lane tidy.
proof fn lemma_lane_round<C>(lane: ControlLaneView<C>, item: C)
    requires
        tidy(lane),
        lane.end() <= usize::MAX - crate::control_lane::CBLOCK,
    ensures
        ({
            let pushed = lane.after_push(item);
            let popped = pushed.after_pop();
            &&& pushed.poppable() && pushed.entries[0] == Some(item)
            &&& lane.storage.blocks() <= 5
            &&& pushed.storage.blocks() <= 5
            &&& popped.storage.blocks() <= 5
            &&& tidy(popped)
            &&& popped.after_reclaim() == popped
            &&& popped.end() == lane.end() + 1
        }),
{
    let pushed = lane.after_push(item);
    crate::control_lane::law_lane_stays_consistent(lane, 0, item);
    crate::control_lane::law_blocks_in_memory_are_bounded(lane, item);
    crate::control_lane::law_lane_stays_consistent(pushed, 0, item);
    crate::control_lane::law_blocks_in_memory_are_bounded(pushed, item);
    crate::control_lane::law_blocks_in_memory_are_bounded(pushed.after_pop(), item);
}

/// The rounds so far have left the lane tidy.
proof fn lemma_lane_rounds<C>(lane: ControlLaneView<C>, items: Seq<C>)
    requires
        tidy(lane),
        lane.end() + items.len() <= usize::MAX - crate::control_lane::CBLOCK,
    ensures
        tidy(lane_after_rounds(lane, items)),
        lane_after_rounds(lane, items).end() == lane.end() + items.len(),
    decreases items.len(),
{
    if items.len() > 0 {
        lemma_lane_rounds(lane, items.drop_last());
        lemma_lane_round(lane_after_rounds(lane, items.drop_last()), items.last());
    }
}

/// However many items are pushed and popped one after the other, each pop gives
/// the item of its own round, and freeing used-up blocks, in the pop or after it,
/// never changes what is queued and keeps at most five blocks in memory.
pub proof fn law_lane_rounds_give_back_and_do_not_pile_up<C>(
    lane: ControlLaneView<C>,
    items: Seq<C>,
    i: int,
)
    requires
        tidy(lane),
        lane.end() + items.len() <= usize::MAX - crate::control_lane::CBLOCK,
        0 <= i < items.len(),
    ensures
        ({
            let now = lane_after_rounds(lane, items.take(i));
            let pushed = now.after_push(items[i]);
            let after = lane_after_rounds(lane, items.take(i + 1));
            &&& pushed.poppable() && pushed.entries[0] == Some(items[i])
            &&& pushed.after_reclaim().entries == pushed.entries
            &&& after == pushed.after_pop()
            &&& now.storage.blocks() <= 5
            &&& pushed.storage.blocks() <= 5
            &&& after.storage.blocks() <= 5
        }),
{
    lemma_lane_rounds(lane, items.take(i));
    assert(items.take(i + 1).drop_last() =~= items.take(i));
    lemma_lane_round(lane_after_rounds(lane, items.take(i)), items[i]);
}

} // verus!
