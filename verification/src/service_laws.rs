use crate::channel::{Channel, Step};
use crate::consumer::Consumer;
use crate::policy::PolicyView;
use crate::reference::Consumer as PairConsumer;
use crate::types::Received;
use vstd::prelude::*;

verus! {

/// How many controls came since the last user item or end-marker.
pub open spec fn controls_in_a_row<C, U>(log: Seq<Received<C, U>>) -> nat
    decreases log.len(),
{
    if log.len() == 0 || !(log.last() is Control) {
        0
    } else {
        controls_in_a_row(log.drop_last()) + 1
    }
}

/// Everything that a run of receives handed out, in order.
pub open spec fn handed_out<C, U>(answers: Seq<Step<Option<Received<C, U>>>>) -> Seq<
    Received<C, U>,
>
    decreases answers.len(),
{
    if answers.len() == 0 {
        Seq::empty()
    } else {
        match answers.last() {
            Step::Ready(Some(received)) => handed_out(answers.drop_last()).push(received),
            _ => handed_out(answers.drop_last()),
        }
    }
}

/// The streak is the number of controls in a row, up to the cap.
pub open spec fn streak_is_right<C, U>(policy: PolicyView, log: Seq<Received<C, U>>) -> bool {
    policy.streak == if controls_in_a_row(log) < policy.cap {
        controls_in_a_row(log)
    } else {
        policy.cap
    }
}

/// A policy that counts an answer keeps the streak right.
proof fn lemma_counting_keeps_the_streak<C, U>(
    before: PolicyView,
    after: PolicyView,
    answers: Seq<Step<Option<Received<C, U>>>>,
    n: int,
)
    requires
        0 <= n < answers.len(),
        streak_is_right(before, handed_out(answers.take(n))),
        crate::receiving_laws::counted(before, after, answers[n]),
    ensures
        streak_is_right(after, handed_out(answers.take(n + 1))),
        after.cap == before.cap,
{
    let all = answers.take(n + 1);
    assert(all.drop_last() =~= answers.take(n));
    assert(all.last() == answers[n]);
    match answers[n] {
        Step::Ready(Some(received)) => {
            let log = handed_out(answers.take(n));
            assert(log.push(received).drop_last() =~= log);
            assert(log.push(received).last() == received);
        },
        _ => {},
    }
}

/// Over a whole run of receives, whatever else happens to the channel and to the
/// consumer between them, the streak is always the number of controls that were
/// received since the last user item or end-marker, up to the cap, and the cap never
/// changes.
///
/// The `i`-th receive finds the consumer as `*me[i]` and leaves it as
/// `*final(me[i])`.
pub proof fn law_streak_counts_controls_since_the_last_user<C, U>(
    me: Seq<&mut Consumer<C, U>>,
    ch: Seq<&mut Channel<C, U>>,
    answers: Seq<Step<Option<Received<C, U>>>>,
    n: int,
)
    requires
        0 <= n < answers.len(),
        forall|i: int|
            0 <= i < answers.len() ==> call_requires(
                Consumer::<C, U>::recv,
                (#[trigger] me[i], ch[i]),
            ) && call_ensures(Consumer::<C, U>::recv, (me[i], ch[i]), answers[i]),
        forall|i: int|
            #![trigger me[i]]
            0 <= i < answers.len() - 1 ==> (*me[i + 1])@.policy == (*final(me[i]))@.policy,
        (*me[0])@.policy.streak == 0,
    ensures
        streak_is_right((*me[n])@.policy, handed_out(answers.take(n))),
        (*me[n])@.policy.cap == (*me[0])@.policy.cap,
    decreases n,
{
    if n > 0 {
        law_streak_counts_controls_since_the_last_user(me, ch, answers, n - 1);
        crate::receiving_laws::law_receive_gives_the_right_item::<C, U>();
        let before = (*me[n - 1])@.policy;
        let after = (*me[n])@.policy;
        assert(call_ensures(Consumer::<C, U>::recv, (me[n - 1], ch[n - 1]), answers[n - 1]));
        assert(crate::receiving_laws::counted(before, after, answers[n - 1]));
        lemma_counting_keeps_the_streak(before, after, answers, n - 1);
    }
}

/// A ready control is passed over by a user item or the end-marker only if there is a
/// cap and at least that many controls were received since the last user item or
/// marker; and once they were, whatever the user lane has goes first.
pub proof fn law_control_is_passed_over_only_after_a_full_streak<C, U>(
    me: Seq<&mut Consumer<C, U>>,
    ch: Seq<&mut Channel<C, U>>,
    answers: Seq<Step<Option<Received<C, U>>>>,
    n: int,
    received: Received<C, U>,
)
    requires
        0 <= n < answers.len(),
        answers[n] == Step::Ready(Some(received)),
        forall|i: int|
            0 <= i < answers.len() ==> call_requires(
                Consumer::<C, U>::recv,
                (#[trigger] me[i], ch[i]),
            ) && call_ensures(Consumer::<C, U>::recv, (me[i], ch[i]), answers[i]),
        forall|i: int|
            #![trigger me[i]]
            0 <= i < answers.len() - 1 ==> (*me[i + 1])@.policy == (*final(me[i]))@.policy,
        (*me[0])@.policy.streak == 0,
    ensures
        ({
            let now = (*ch[n])@;
            let cap = (*me[0])@.policy.cap;
            let row = controls_in_a_row(handed_out(answers.take(n)));
            let control = now.control.entries.len() > 0 && now.control.entries[0] is Some;
            let user = now.user.entries.len() > 0 && now.user.entries[0] is Some;
            let marker = now.user.senders == 0 && !(*me[n])@.policy.reported;
            &&& control && !(received is Control) ==> cap > 0 && row >= cap
            &&& cap > 0 && row >= cap && user ==> received == Received::<C, U>::User(
                now.user.entries[0]->0,
            )
            &&& cap > 0 && row >= cap && !user && marker ==> received is UserLaneClosed
            &&& cap == 0 || row < cap ==> (received is Control <==> control)
        }),
{
    law_streak_counts_controls_since_the_last_user(me, ch, answers, n);
    crate::receiving_laws::law_receive_gives_the_right_item::<C, U>();
    assert(call_ensures(Consumer::<C, U>::recv, (me[n], ch[n]), answers[n]));
    assert(call_requires(Consumer::<C, U>::recv, (me[n], ch[n])));
}

/// The same of a flume pair: over a whole run of receives, each a turn or the taking of
/// what waiting gave, the streak is always the number of controls that were handed out
/// since the last user item or end-marker, up to the cap.
pub proof fn law_pair_streak_counts_controls_since_the_last_user<C, U>(
    me: Seq<&mut PairConsumer<C, U>>,
    controls: Seq<Option<C>>,
    users: Seq<Option<U>>,
    answers: Seq<Step<Option<Received<C, U>>>>,
    n: int,
)
    requires
        0 <= n < answers.len(),
        forall|i: int|
            0 <= i < answers.len() ==> {
                ||| call_ensures(PairConsumer::<C, U>::recv, (#[trigger] me[i],), answers[i])
                ||| answers[i] is Ready && call_ensures(
                    PairConsumer::<C, U>::control_awaited,
                    (me[i], controls[i]),
                    answers[i]->Ready_0,
                )
                ||| answers[i] is Ready && call_ensures(
                    PairConsumer::<C, U>::user_awaited,
                    (me[i], users[i]),
                    answers[i]->Ready_0,
                )
            },
        forall|i: int|
            #![trigger me[i]]
            0 <= i < answers.len() - 1 ==> (*me[i + 1]).state().policy == (*final(
                me[i]
            )).state().policy,
        (*me[0]).state().policy.streak == 0,
    ensures
        streak_is_right((*me[n]).state().policy, handed_out(answers.take(n))),
        (*me[n]).state().policy.cap == (*me[0]).state().policy.cap,
    decreases n,
{
    if n > 0 {
        law_pair_streak_counts_controls_since_the_last_user(me, controls, users, answers, n - 1);
        crate::pair_laws::law_pair_receive_hands_out_what_the_lanes_give::<C, U>();
        crate::pair_laws::law_pair_hands_on_what_arrived::<C, U>();
        let before = (*me[n - 1]).state().policy;
        let after = (*me[n]).state().policy;
        assert(after == (*final(me[n - 1])).state().policy);
        assert(crate::receiving_laws::counted(before, after, answers[n - 1]));
        lemma_counting_keeps_the_streak(before, after, answers, n - 1);
    }
}

} // verus!
