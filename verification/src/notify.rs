use vstd::prelude::*;

verus! {

/// The bookkeeping of one wakeup point.
///
/// A waiter arms a registration with `enable`; a notification turns one armed
/// registration into a wake credit, or, when none is armed, stores a single
/// permit. Credits are pooled: whichever waiter looks first takes one.
#[derive(Debug)]
pub struct Notify {
    permit: bool,
    enabled: usize,
    woken: usize,
}

/// What a [`Notify`] holds.
pub struct NotifyView {
    /// A notification arrived while nobody was registered.
    pub permit: bool,
    /// Armed registrations that no notification has reached.
    pub enabled: nat,
    /// Registrations that were reached and not yet taken back.
    pub woken: nat,
}

impl NotifyView {
    /// Every registration that is still outstanding, reached or not.
    pub open spec fn registered(self) -> nat {
        self.enabled + self.woken
    }

    /// Somebody who waits here now is let through at once.
    pub open spec fn ready(self) -> bool {
        self.permit || self.woken > 0
    }

    /// One more registration is armed.
    pub open spec fn armed(self) -> NotifyView {
        NotifyView { enabled: self.enabled + 1, ..self }
    }

    /// One notification arrives.
    pub open spec fn notified(self) -> NotifyView {
        if self.enabled > 0 {
            NotifyView { enabled: (self.enabled - 1) as nat, woken: self.woken + 1, ..self }
        } else {
            NotifyView { permit: true, ..self }
        }
    }

    /// Every armed registration is reached, and no permit is stored.
    pub open spec fn all_notified(self) -> NotifyView {
        NotifyView { enabled: 0, woken: self.woken + self.enabled, ..self }
    }

    /// A waiter is let through, by the stored permit or else by one credit, and
    /// its registration is taken back.
    pub open spec fn passed(self) -> NotifyView {
        if !self.permit || self.enabled == 0 {
            NotifyView { permit: false, woken: (self.woken - 1) as nat, ..self }
        } else {
            NotifyView { permit: false, enabled: (self.enabled - 1) as nat, ..self }
        }
    }

    /// A waiter goes away without having been let through. A credit that only
    /// it could have taken is kept as a permit.
    pub open spec fn abandoned(self) -> NotifyView {
        if self.enabled > 0 {
            NotifyView { enabled: (self.enabled - 1) as nat, ..self }
        } else {
            NotifyView { woken: (self.woken - 1) as nat, permit: true, ..self }
        }
    }

    /// A waiter takes the stored permit, or else one credit.
    pub open spec fn taken(self) -> NotifyView {
        if self.permit {
            NotifyView { permit: false, ..self }
        } else if self.woken > 0 {
            NotifyView { woken: (self.woken - 1) as nat, ..self }
        } else {
            self
        }
    }
}

impl View for Notify {
    type V = NotifyView;

    closed spec fn view(&self) -> NotifyView {
        NotifyView { permit: self.permit, enabled: self.enabled as nat, woken: self.woken as nat }
    }
}

impl Notify {
    /// The outstanding registrations can be counted.
    pub closed spec fn wf(&self) -> bool {
        self.enabled + self.woken <= usize::MAX
    }

    /// No permit, nobody registered.
    pub fn new() -> (notify: Self)
        ensures
            notify.wf(),
            notify@ == (NotifyView { permit: false, enabled: 0, woken: 0 }),
    {
        Notify { permit: false, enabled: 0, woken: 0 }
    }

    /// Arm a registration.
    pub fn enable(&mut self)
        requires
            old(self).wf(),
            old(self)@.registered() < usize::MAX,
        ensures
            final(self).wf(),
            final(self)@ == old(self)@.armed(),
    {
        self.enabled = self.enabled + 1;
    }

    /// Wake one waiter if `flag` is set.
    pub fn notify_if(&mut self, flag: bool)
        requires
            old(self).wf(),
        ensures
            final(self).wf(),
            final(self)@ == if flag {
                old(self)@.notified()
            } else {
                old(self)@
            },
    {
        if flag {
            self.notify_one();
        }
    }

    /// Wake one waiter if `n` is not zero.
    pub fn notify_if_nonzero(&mut self, n: usize)
        requires
            old(self).wf(),
        ensures
            final(self).wf(),
            final(self)@ == if n != 0 {
                old(self)@.notified()
            } else {
                old(self)@
            },
    {
        if n != 0 {
            self.notify_one();
        }
    }

    /// Wake one registered waiter, or store a permit.
    pub fn notify_one(&mut self)
        requires
            old(self).wf(),
        ensures
            final(self).wf(),
            final(self)@ == old(self)@.notified(),
    {
        if self.enabled > 0 {
            self.enabled = self.enabled - 1;
            self.woken = self.woken + 1;
        } else {
            self.permit = true;
        }
    }

    /// Wake every registered waiter, storing no permit.
    pub fn notify_waiters(&mut self)
        requires
            old(self).wf(),
        ensures
            final(self).wf(),
            final(self)@ == old(self)@.all_notified(),
    {
        self.woken = self.woken + self.enabled;
        self.enabled = 0;
    }

    /// One attempt to pass: takes the stored permit or a wake credit and
    /// answers `true`, or answers `false` and changes nothing, in which case
    /// the waiter sleeps and tries again.
    pub fn wait(&mut self) -> (passed: bool)
        requires
            old(self).wf(),
        ensures
            final(self).wf(),
            passed == old(self)@.ready(),
            final(self)@ == old(self)@.taken(),
    {
        if self.permit {
            self.permit = false;
            true
        } else if self.woken > 0 {
            self.woken = self.woken - 1;
            true
        } else {
            false
        }
    }

    /// One attempt of a registered waiter to pass; takes its registration back
    /// where it succeeds.
    pub fn pass(&mut self) -> (passed: bool)
        requires
            old(self).wf(),
            old(self)@.registered() > 0,
        ensures
            final(self).wf(),
            passed == old(self)@.ready(),
            final(self)@ == if old(self)@.ready() {
                old(self)@.passed()
            } else {
                old(self)@
            },
    {
        let permit: bool = self.permit;
        let passed: bool = self.wait();
        if passed && permit {
            if self.enabled > 0 {
                self.enabled = self.enabled - 1;
            } else {
                self.woken = self.woken - 1;
            }
        }
        passed
    }

    /// Somebody who waits here is let through at once.
    pub fn is_ready(&self) -> (ready: bool)
        ensures
            ready == self@.ready(),
    {
        self.permit || self.woken > 0
    }

    /// Take back the registration of a waiter that gives up.
    pub fn abandon(&mut self)
        requires
            old(self).wf(),
            old(self)@.registered() > 0,
        ensures
            final(self).wf(),
            final(self)@ == old(self)@.abandoned(),
    {
        if self.enabled > 0 {
            self.enabled = self.enabled - 1;
        } else {
            self.woken = self.woken - 1;
            self.permit = true;
        }
    }
}

/// A notification never disappears: whoever waits after it passes at once.
pub proof fn law_notification_is_kept(n: NotifyView)
    ensures
        n.notified().ready(),
        n.enabled > 0 ==> n.all_notified().ready(),
        n.notified().registered() == n.registered(),
        n.all_notified().registered() == n.registered(),
{
}

/// A waiter that gives up does not take anybody else's wakeup with it: as long
/// as the point was ready before, it is ready after.
pub proof fn law_abandoning_keeps_wakeups(n: NotifyView)
    requires
        n.registered() > 0,
        n.ready(),
    ensures
        n.abandoned().ready(),
{
}

/// Passing takes back exactly one registration, and whoever is left and had
/// been reached still passes.
pub proof fn law_passing_leaves_the_others(n: NotifyView)
    requires
        n.registered() > 0,
        n.ready(),
    ensures
        n.passed().registered() == n.registered() - 1,
        n.passed().enabled <= n.enabled,
        n.passed().woken == n.woken || n.passed().woken == n.woken - 1,
        n.enabled == 0 ==> n.passed().woken == n.passed().registered(),
{
}

} // verus!
