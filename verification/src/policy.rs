use vstd::prelude::*;

verus! {

/// What the consumer serves next.
pub enum Pick {
    /// The oldest control item.
    Control,
    /// The oldest user item.
    User,
    /// The end-marker of the user lane.
    Marker,
    /// Nothing, now or ever: both lanes are closed and drained.
    End,
    /// Nothing now: the consumer has to wait.
    Nothing,
}

/// The order in which the two lanes are served: control first, but after
/// `aging_cap` control items in a row one waiting user is forced through.
#[derive(Debug)]
pub struct Policy {
    aging_cap: usize,
    consec_control: usize,
    usr_closed_reported: bool,
}

/// What a [`Policy`] remembers.
pub struct PolicyView {
    /// After how many control items in a row a user is forced through; `0`
    /// stands for never.
    pub cap: nat,
    /// Control items since the last user item, at most `cap`.
    pub streak: nat,
    /// The end-marker of the user lane was handed out.
    pub reported: bool,
}

impl PolicyView {
    /// The streak reached the cap.
    pub open spec fn due(self) -> bool {
        self.cap != 0 && self.streak >= self.cap
    }

    /// What the user lane has to offer.
    pub open spec fn user_slot(self, user_ready: bool, user_closed: bool) -> Pick {
        if user_ready {
            Pick::User
        } else if user_closed && !self.reported {
            Pick::Marker
        } else {
            Pick::Nothing
        }
    }

    /// What is served next, given which lanes have an item ready and which have
    /// lost their last sender.
    pub open spec fn pick(
        self,
        control_ready: bool,
        user_ready: bool,
        control_closed: bool,
        user_closed: bool,
    ) -> Pick {
        let user_slot = self.user_slot(user_ready, user_closed);
        if self.due() && !(user_slot is Nothing) {
            user_slot
        } else if control_ready {
            Pick::Control
        } else if !(user_slot is Nothing) {
            user_slot
        } else if control_closed && user_closed {
            Pick::End
        } else {
            Pick::Nothing
        }
    }

    /// A control item was served. The streak stops at the cap.
    pub open spec fn after_control(self) -> PolicyView {
        if self.cap != 0 && self.streak < self.cap {
            PolicyView { streak: self.streak + 1, ..self }
        } else {
            self
        }
    }

    /// A user item was served.
    pub open spec fn after_user(self) -> PolicyView {
        PolicyView { streak: 0, ..self }
    }

    /// The end-marker was served, in a user's place.
    pub open spec fn after_marker(self) -> PolicyView {
        PolicyView { streak: 0, reported: true, ..self }
    }

    /// The policy once `pick` was served.
    pub open spec fn after(self, pick: Pick) -> PolicyView {
        match pick {
            Pick::Control => self.after_control(),
            Pick::User => self.after_user(),
            Pick::Marker => self.after_marker(),
            Pick::End => self,
            Pick::Nothing => self,
        }
    }
}

impl View for Policy {
    type V = PolicyView;

    closed spec fn view(&self) -> PolicyView {
        PolicyView {
            cap: self.aging_cap as nat,
            streak: self.consec_control as nat,
            reported: self.usr_closed_reported,
        }
    }
}

impl Policy {
    /// The streak never exceeds the cap.
    pub closed spec fn wf(&self) -> bool {
        self.consec_control <= self.aging_cap
    }

    /// A fresh start.
    pub fn new(aging_cap: usize) -> (policy: Self)
        ensures
            policy.wf(),
            policy@ == (PolicyView { cap: aging_cap as nat, streak: 0, reported: false }),
    {
        Policy { aging_cap, consec_control: 0, usr_closed_reported: false }
    }

    /// A user has to be forced through now, if one waits.
    pub fn aging_due(&self) -> (due: bool)
        ensures
            due == self@.due(),
    {
        self.aging_cap != 0 && self.consec_control >= self.aging_cap
    }

    /// The end-marker is due, given that the user lane has nothing to offer.
    pub fn marker_pending(&self, user_closed: bool) -> (pending: bool)
        ensures
            pending == (user_closed && !self@.reported),
    {
        user_closed && !self.usr_closed_reported
    }

    /// Record a control item.
    pub fn note_control(&mut self)
        requires
            old(self).wf(),
        ensures
            final(self).wf(),
            final(self)@ == old(self)@.after_control(),
    {
        if self.aging_cap != 0 && self.consec_control < self.aging_cap {
            self.consec_control = self.consec_control + 1;
        }
    }

    /// Record a user item.
    pub fn note_user(&mut self)
        requires
            old(self).wf(),
        ensures
            final(self).wf(),
            final(self)@ == old(self)@.after_user(),
    {
        self.consec_control = 0;
    }

    /// Record the end-marker, which takes a user's place.
    pub fn note_marker(&mut self)
        requires
            old(self).wf(),
        ensures
            final(self).wf(),
            final(self)@ == old(self)@.after_marker(),
    {
        self.usr_closed_reported = true;
        self.consec_control = 0;
    }

    /// The streak never exceeds the cap.
    pub proof fn law_streak_stays_within_the_cap(&self)
        requires
            self.wf(),
        ensures
            self@.streak <= self@.cap,
    {
    }
}

/// Without aging, and with aging as long as the streak is below the cap, a
/// ready control item is served before anything else.
pub proof fn law_control_comes_first(
    p: PolicyView,
    user_ready: bool,
    control_closed: bool,
    user_closed: bool,
)
    requires
        !p.due(),
    ensures
        p.pick(true, user_ready, control_closed, user_closed) is Control,
        p.cap == 0 ==> !p.after_control().due(),
{
}

/// A ready control item waits behind one user slot at most, however many users
/// are queued: whatever is served in its place, the next pick is control.
pub proof fn law_control_waits_for_one_user_at_most(
    p: PolicyView,
    first_user: bool,
    next_user: bool,
    closed: (bool, bool),
    next_closed: (bool, bool),
)
    requires
        !(p.pick(true, first_user, closed.0, closed.1) is Control),
    ensures
        ({
            let later = p.after(p.pick(true, first_user, closed.0, closed.1));
            later.pick(true, next_user, next_closed.0, next_closed.1) is Control
        }),
{
}

/// Every pick of a run went to control although a user was always waiting;
/// `control_ready[i]` tells whether control had something at the `i`-th pick.
pub open spec fn only_control_served(p: PolicyView, control_ready: Seq<bool>) -> bool
    decreases control_ready.len(),
{
    control_ready.len() == 0 || ({
        let pick = p.pick(control_ready[0], true, false, false);
        pick is Control && only_control_served(p.after(pick), control_ready.drop_first())
    })
}

/// No starvation: a waiting user is passed over by at most `cap` control items,
/// even under a control flood.
pub proof fn law_user_waits_for_cap_controls_at_most(p: PolicyView, control_ready: Seq<bool>)
    requires
        p.cap != 0,
        p.streak <= p.cap,
        only_control_served(p, control_ready),
    ensures
        control_ready.len() <= p.cap - p.streak,
    decreases control_ready.len(),
{
    if control_ready.len() > 0 {
        let next = p.after(p.pick(control_ready[0], true, false, false));
        law_user_waits_for_cap_controls_at_most(next, control_ready.drop_first());
    }
}

/// The end-marker is handed out once: after it, no pick is a marker again.
pub proof fn law_marker_is_handed_out_once(
    p: PolicyView,
    pick: Pick,
    ready: (bool, bool),
    closed: (bool, bool),
)
    requires
        p.reported,
    ensures
        !(p.pick(ready.0, ready.1, closed.0, closed.1) is Marker),
        p.after(pick).reported,
{
}

} // verus!
