# fastpass

A two-lane channel with one consumer: an unbounded control lane and a bounded
user lane. Control is served before a user backlog, an aging cap keeps users
from starving, each lane stays in order, blocked producers get backpressure, and
shutdown hands every item back to somebody.

The library is written in Verus. What each function does is stated in its
`requires` and `ensures`, over the views of the lanes and handles.

## Layout

- `src/types.rs`, `src/policy.rs`: configuration, results, and the order of
  service.
- `src/tickets.rs`, `src/user_lane.rs`: the bounded ring and the arithmetic of
  its tickets.
- `src/control_lane.rs`: the unbounded chain of blocks and how used-up blocks are
  freed.
- `src/entries.rs`, `src/notify.rs`: what lanes hold, and wakeup bookkeeping.
- `src/channel.rs`, `src/senders.rs`, `src/consumer.rs`, `src/mailbox.rs`: the
  channel and its handles. A handle is given the channel with each call; an
  operation that may have to wait answers `Pending` and is tried again once the
  channel says that it can go on.
- `src/flume_lane.rs`: flume's channels as the library sees them: which halves
  belong together, how much a channel holds, and what a receiver was answered.
- `src/reference.rs`, `src/closing.rs`: the same order of service over a pair of
  flume channels, and that nothing follows its end-marker but control, and nothing
  its end.
- `src/merge.rs`, `src/rounds.rs`: the order in which a backlog comes out, and
  runs of one send and one receive after the other.
- `src/history.rs`, `src/calls.rs`: delivery exactly once and in order over whole
  calls, and that each function is the call it stands for.
- `src/protocol.rs`, `src/steps.rs`: that no wakeup is lost however the small
  steps of producers and consumer interleave, and that each step is what its
  function does.
- `src/delivery.rs`, `src/ending.rs`: over the same small steps, that every item
  comes out once, in the order of the claims and in its producer's own order, and
  that receiving comes to an end once the senders are gone.
- `app/`: handles that lock, wake and await, and a program that measures them.
- `tests/`: scenarios over the channel with tokio and loom, over the flume pair,
  and over the parts.
