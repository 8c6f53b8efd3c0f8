//! A two-lane channel with one consumer: an unbounded control lane that is
//! served first, and a bounded user lane that an aging cap keeps from starving.

pub mod calls;
pub mod channel;
pub mod closing;
pub mod consumer;
pub mod control_lane;
pub mod delivery;
pub mod ending;
pub mod entries;
pub mod flume_lane;
pub mod history;
pub mod lane_laws;
pub mod mailbox;
pub mod merge;
pub mod notify;
pub mod pair_laws;
pub mod policy;
pub mod protocol;
pub mod receiving_laws;
pub mod reference;
pub mod rounds;
pub mod senders;
pub mod sending_laws;
pub mod service_laws;
pub mod steps;
pub mod tickets;
pub mod types;
pub mod user_lane;
pub mod wakeup_laws;
