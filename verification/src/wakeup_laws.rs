use crate::channel::{Channel, Core, CoreView};
use crate::notify::{Notify, NotifyView};
use vstd::prelude::*;

verus! {

/// `n` notifications lie between the two: each reached one armed registration,
/// and those that found none left a single permit.
pub open spec fn reached(before: NotifyView, after: NotifyView, n: int) -> bool {
    &&& after.enabled + after.woken == before.enabled + before.woken
    &&& n <= before.enabled ==> after.woken == before.woken + n && after.permit == before.permit
    &&& n > before.enabled ==> after.enabled == 0 && after.permit
}

/// One registered waiter was let through between the two: it used up the permit
/// if there was one, and else a credit, and its registration is gone.
pub open spec fn let_through(before: NotifyView, after: NotifyView) -> bool {
    &&& after.enabled + after.woken + 1 == before.enabled + before.woken
    &&& !after.permit
    &&& before.permit && before.enabled > 0 ==> after.woken == before.woken
    &&& !(before.permit && before.enabled > 0) ==> after.enabled == before.enabled
}

/// One registered waiter left between the two without having been let through: an
/// unreached one if there is one; else the credit is kept as a permit.
pub open spec fn left(before: NotifyView, after: NotifyView) -> bool {
    &&& after.enabled + after.woken + 1 == before.enabled + before.woken
    &&& before.enabled > 0 ==> after.woken == before.woken && after.permit == before.permit
    &&& before.enabled == 0 ==> after.enabled == 0 && after.permit
}

/// Somebody who waits at the point gets through now.
pub open spec fn passable(n: NotifyView) -> bool {
    n.permit || n.woken >= 1
}

/// The consumer was told `n` times between the two: a consumer that announced its
/// sleep is notified each time, and one that did not is left alone.
pub open spec fn told(before: CoreView, after: CoreView, n: int) -> bool {
    &&& after.parked == before.parked
    &&& after.consumer_gone == before.consumer_gone
    &&& before.parked ==> reached(before.notify, after.notify, n)
    &&& !before.parked ==> after.notify == before.notify
}

/// A new wakeup point has nobody registered and lets nobody through.
pub proof fn law_new_point_lets_nobody_through()
    ensures
        forall|n: Notify| #[trigger]
            call_ensures(Notify::new, (), n) ==> !passable(n@) && n@.enabled == 0 && n@.woken == 0,
{
}

/// `Notify::enable` adds one registration, which nothing has reached.
pub proof fn law_enabling_registers_one()
    ensures
        forall|n: &mut Notify| #[trigger]
            call_ensures(Notify::enable, (n,), ()) ==> {
                &&& (*final(n))@.enabled == (*n)@.enabled + 1
                &&& (*final(n))@.woken == (*n)@.woken
                &&& (*final(n))@.permit == (*n)@.permit
            },
{
}

/// A notification reaches exactly one waiter, or is kept, and afterwards somebody
/// gets through; a condition that does not hold notifies nobody.
pub proof fn law_notification_reaches_one()
    ensures
        forall|n: &mut Notify| #[trigger]
            call_ensures(Notify::notify_one, (n,), ()) ==> {
                &&& reached((*n)@, (*final(n))@, 1)
                &&& passable((*final(n))@)
            },
        forall|n: &mut Notify, flag: bool| #[trigger]
            call_ensures(Notify::notify_if, (n, flag), ()) ==> reached(
                (*n)@,
                (*final(n))@,
                if flag {
                    1int
                } else {
                    0int
                },
            ),
        forall|n: &mut Notify, k: usize| #[trigger]
            call_ensures(Notify::notify_if_nonzero, (n, k), ()) ==> reached(
                (*n)@,
                (*final(n))@,
                if k > 0 {
                    1int
                } else {
                    0int
                },
            ),
{
}

/// Notifying everybody reaches every registration and leaves no new permit.
pub proof fn law_notifying_everybody_misses_nobody()
    ensures
        forall|n: &mut Notify| #[trigger]
            call_ensures(Notify::notify_waiters, (n,), ()) ==> {
                &&& (*final(n))@.enabled == 0
                &&& (*final(n))@.woken == (*n)@.enabled + (*n)@.woken
                &&& (*final(n))@.permit == (*n)@.permit
            },
{
}

/// Who tries to pass does so exactly if there is a permit or a credit, and uses up
/// one of them, the permit first; one who does not pass changes nothing.
pub proof fn law_passing_uses_up_one_wakeup()
    ensures
        forall|n: &Notify, ready: bool| #[trigger]
            call_ensures(Notify::is_ready, (n,), ready) ==> ready == passable(n@),
        forall|n: &mut Notify, passed: bool| #[trigger]
            call_ensures(Notify::wait, (n,), passed) ==> {
                &&& passed == passable((*n)@)
                &&& (*final(n))@.enabled == (*n)@.enabled
                &&& !(*final(n))@.permit
                &&& (*final(n))@.woken + (if passed && !(*n)@.permit {
                    1int
                } else {
                    0int
                }) == (*n)@.woken
            },
        forall|n: &mut Notify, passed: bool|
            (*n)@.enabled + (*n)@.woken > 0 && #[trigger] call_ensures(
                Notify::pass,
                (n,),
                passed,
            ) ==> {
                &&& passed == passable((*n)@)
                &&& passed ==> let_through((*n)@, (*final(n))@)
                &&& !passed ==> (*final(n))@ == (*n)@
            },
{
}

/// Who gives up takes one registration away and no wakeup of anybody else.
pub proof fn law_abandoning_takes_one_registration()
    ensures
        forall|n: &mut Notify|
            (*n)@.enabled + (*n)@.woken > 0 && #[trigger] call_ensures(
                Notify::abandon,
                (n,),
                (),
            ) ==> {
                &&& left((*n)@, (*final(n))@)
                &&& passable((*n)@) ==> passable((*final(n))@)
            },
{
}

/// A new core has a consumer that is there, awake and not notified; and telling it
/// something notifies it exactly if it announced its sleep.
pub proof fn law_telling_notifies_a_sleeper()
    ensures
        forall|core: Core| #[trigger]
            call_ensures(Core::new, (), core) ==> {
                &&& !core@.parked
                &&& !core@.consumer_gone
                &&& !passable(core@.notify)
                &&& core@.notify.enabled == 0
                &&& core@.notify.woken == 0
            },
        forall|core: &mut Core| #[trigger]
            call_ensures(Core::wake_consumer, (core,), ()) ==> {
                &&& told((*core)@, (*final(core))@, 1)
                &&& (*core)@.parked ==> passable((*final(core))@.notify)
            },
{
}

/// The channel says that the consumer, or a waiting producer, can go on exactly
/// if its wakeup point would let it through; and that there is headroom exactly
/// if every counter has room for one more.
pub proof fn law_channel_says_who_can_go_on<C, U>()
    ensures
        forall|ch: &Channel<C, U>, ready: bool| #[trigger]
            call_ensures(Channel::<C, U>::consumer_ready, (ch,), ready) ==> ready == passable(
                ch@.core.notify,
            ),
        forall|ch: &Channel<C, U>, ready: bool| #[trigger]
            call_ensures(Channel::<C, U>::producer_ready, (ch,), ready) ==> ready == (
            ch@.user.waiting >= 1 && passable(ch@.user.send_notify)),
        forall|ch: &Channel<C, U>, room: bool| #[trigger]
            call_ensures(Channel::<C, U>::has_headroom, (ch,), room) ==> room == ({
                &&& ch@.control.storage.taken + ch@.control.entries.len()
                    + crate::control_lane::CBLOCK <= usize::MAX
                &&& ch@.control.senders + 1 <= usize::MAX
                &&& ch@.user.senders + 1 <= usize::MAX
                &&& ch@.user.waiting + 1 <= usize::MAX
            }),
{
}

} // verus!
