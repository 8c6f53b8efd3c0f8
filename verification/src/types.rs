use vstd::prelude::*;

verus! {

/// Consumer configuration.
#[derive(Debug, Clone, Copy)]
pub struct Config {
    user_capacity: usize,
    aging_cap: usize,
}

impl Config {
    /// How many user items may wait at once.
    pub closed spec fn capacity(self) -> nat {
        self.user_capacity as nat
    }

    /// After how many control items in a row a waiting user is served.
    pub closed spec fn cap(self) -> nat {
        self.aging_cap as nat
    }

    /// A config with the given bounded user-lane capacity and pure strict
    /// priority (no aging).
    ///
    /// The capacity is a minimum: the ring rounds it up to a power of two, two
    /// at least, and the rounded size is what counts.
    #[must_use]
    pub fn new(user_capacity: usize) -> (cfg: Self)
        ensures
            cfg.capacity() == user_capacity,
            cfg.cap() == 0,
    {
        Config { user_capacity, aging_cap: 0 }
    }

    /// Force one waiting user through after `k` control items in a row. `0`
    /// turns aging off (pure strict priority).
    #[must_use]
    pub fn with_aging_cap(self, k: usize) -> (cfg: Self)
        ensures
            cfg.capacity() == self.capacity(),
            cfg.cap() == k,
    {
        Config { user_capacity: self.user_capacity, aging_cap: k }
    }

    /// The capacity asked for.
    pub fn user_capacity(&self) -> (n: usize)
        ensures
            n == self.capacity(),
    {
        self.user_capacity
    }

    /// The aging cap asked for.
    pub fn aging_cap(&self) -> (k: usize)
        ensures
            k == self.cap(),
    {
        self.aging_cap
    }
}

/// The item that the consumer hands out, tagged by its lane.
#[derive(Debug, Clone, Copy, PartialEq, Eq)]
pub enum Received<C, U> {
    /// A control-lane item (served with priority).
    Control(C),
    /// A user-lane item.
    User(U),
    /// The user lane is closed for good: every sender is gone and the queue is
    /// drained. Handed out exactly once, after the last user item, and subject
    /// to the same priority and aging as a user item.
    UserLaneClosed,
}

/// Items still queued when the consumer is torn down.
#[derive(Debug)]
pub struct Drained<C, U> {
    /// Queued control items, in FIFO order.
    pub control: Vec<C>,
    /// Queued user items, in FIFO order.
    pub user: Vec<U>,
}

/// The control lane closed because the consumer was dropped. Carries the
/// undelivered item back to the caller.
#[derive(Debug)]
pub struct ControlClosed<T>(pub T);

impl<T> ControlClosed<T> {
    /// The error in words.
    pub fn message(&self) -> (text: &'static str)
        ensures
            text@ == "control lane closed: consumer dropped"@,
    {
        "control lane closed: consumer dropped"
    }
}

/// The user lane closed because the consumer was dropped. Carries the
/// undelivered item back to the caller.
#[derive(Debug)]
pub struct UserClosed<T>(pub T);

impl<T> UserClosed<T> {
    /// The error in words.
    pub fn message(&self) -> (text: &'static str)
        ensures
            text@ == "user lane closed: consumer dropped"@,
    {
        "user lane closed: consumer dropped"
    }
}

/// A user send that does not wait could not be enqueued.
#[derive(Debug)]
pub enum TrySendError<T> {
    /// The bounded user lane is at capacity.
    Full(T),
    /// The consumer was dropped.
    Closed(T),
}

impl<T> TrySendError<T> {
    /// The error in words.
    pub fn message(&self) -> (text: &'static str)
        ensures
            text@ == match *self {
                TrySendError::Full(_) => "user lane full"@,
                TrySendError::Closed(_) => "user lane closed: consumer dropped"@,
            },
    {
        match self {
            TrySendError::Full(_) => "user lane full",
            TrySendError::Closed(_) => "user lane closed: consumer dropped",
        }
    }
}

} // verus!
