use crate::channel::ChannelView;
use crate::policy::{Pick, PolicyView};
use crate::types::Received;
use vstd::prelude::*;

verus! {

/// The order in which a consumer serves two lanes that are loaded beforehand
/// and get nothing new.
pub open spec fn merged<C, U>(
    policy: PolicyView,
    controls: Seq<C>,
    users: Seq<U>,
    user_closed: bool,
) -> Seq<Received<C, U>>
    decreases
            controls.len() + users.len() + if policy.reported {
                0int
            } else {
                1int
            },
{
    let pick = policy.pick(controls.len() > 0, users.len() > 0, true, user_closed);
    let after = policy.after(pick);
    match pick {
        Pick::Control => seq![Received::<C, U>::Control(controls[0])] + merged(
            after,
            controls.drop_first(),
            users,
            user_closed,
        ),
        Pick::User => seq![Received::<C, U>::User(users[0])] + merged(
            after,
            controls,
            users.drop_first(),
            user_closed,
        ),
        Pick::Marker => seq![Received::<C, U>::UserLaneClosed] + merged(
            after,
            controls,
            users,
            user_closed,
        ),
        Pick::End => Seq::empty(),
        Pick::Nothing => Seq::empty(),
    }
}

/// The control items of a stream.
pub open spec fn controls_of<C, U>(stream: Seq<Received<C, U>>) -> Seq<C>
    decreases stream.len(),
{
    if stream.len() == 0 {
        Seq::empty()
    } else {
        match stream[0] {
            Received::Control(c) => seq![c] + controls_of(stream.drop_first()),
            _ => controls_of(stream.drop_first()),
        }
    }
}

/// The user items of a stream.
pub open spec fn users_of<C, U>(stream: Seq<Received<C, U>>) -> Seq<U>
    decreases stream.len(),
{
    if stream.len() == 0 {
        Seq::empty()
    } else {
        match stream[0] {
            Received::User(u) => seq![u] + users_of(stream.drop_first()),
            _ => users_of(stream.drop_first()),
        }
    }
}

/// How many end-markers a stream holds.
pub open spec fn markers_of<C, U>(stream: Seq<Received<C, U>>) -> nat
    decreases stream.len(),
{
    if stream.len() == 0 {
        0
    } else {
        (if stream[0] is UserLaneClosed {
            1nat
        } else {
            0nat
        }) + markers_of(stream.drop_first())
    }
}

/// Everything a consumer serves, one receive after the other, from a channel
/// that gets nothing new.
pub open spec fn stream<C, U>(ch: ChannelView<C, U>, policy: PolicyView) -> Seq<Received<C, U>>
    decreases
            ch.control.entries.len() + ch.user.entries.len() + if policy.reported {
                0int
            } else {
                1int
            },
{
    let pick = ch.pick(policy);
    if pick is Nothing || pick is End {
        Seq::empty()
    } else {
        let answer = ch.handed(pick);
        seq![answer->Ready_0->0] + stream(ch.served(pick, policy.due()), policy.after(pick))
    }
}

/// A preloaded backlog comes out exactly as the policy orders it.
pub proof fn law_preloaded_backlog_is_merged<C, U>(ch: ChannelView<C, U>, policy: PolicyView)
    requires
        ch.settled(),
    ensures
        stream(ch, policy) == merged(policy, ch.controls(), ch.users(), ch.user.senders == 0),
    decreases
            ch.control.entries.len() + ch.user.entries.len() + if policy.reported {
                0int
            } else {
                1int
            },
{
    let pick = ch.pick(policy);
    assert(ch.control.poppable() == (ch.controls().len() > 0));
    assert(ch.user.poppable() == (ch.users().len() > 0));
    let next = ch.served(pick, policy.due());
    if pick is Control {
        crate::entries::lemma_settled_pop(ch.control.entries);
    }
    if pick is User {
        crate::entries::lemma_settled_pop(ch.user.entries);
    }
    if !(pick is Nothing) && !(pick is End) {
        law_preloaded_backlog_is_merged(next, policy.after(pick));
    }
}

/// Nothing is lost, invented or reordered within a lane: the control items of
/// the stream are the control backlog, and the user items the user backlog.
pub proof fn law_merge_keeps_each_lane<C, U>(
    policy: PolicyView,
    controls: Seq<C>,
    users: Seq<U>,
    user_closed: bool,
)
    ensures
        controls_of(merged(policy, controls, users, user_closed)) == controls,
        users_of(merged(policy, controls, users, user_closed)) == users,
    decreases
            controls.len() + users.len() + if policy.reported {
                0int
            } else {
                1int
            },
{
    let all = merged(policy, controls, users, user_closed);
    let pick = policy.pick(controls.len() > 0, users.len() > 0, true, user_closed);
    let after = policy.after(pick);
    match pick {
        Pick::Control => {
            law_merge_keeps_each_lane(after, controls.drop_first(), users, user_closed);
            assert(all.drop_first() =~= merged(after, controls.drop_first(), users, user_closed));
            assert(seq![controls[0]] + controls.drop_first() =~= controls);
        },
        Pick::User => {
            law_merge_keeps_each_lane(after, controls, users.drop_first(), user_closed);
            assert(all.drop_first() =~= merged(after, controls, users.drop_first(), user_closed));
            assert(seq![users[0]] + users.drop_first() =~= users);
        },
        Pick::Marker => {
            law_merge_keeps_each_lane(after, controls, users, user_closed);
            assert(all.drop_first() =~= merged(after, controls, users, user_closed));
        },
        Pick::End => {
            assert(controls =~= Seq::<C>::empty());
            assert(users =~= Seq::<U>::empty());
        },
        Pick::Nothing => {
            assert(controls =~= Seq::<C>::empty());
            assert(users =~= Seq::<U>::empty());
        },
    }
}

/// The end-marker of a closed user lane comes exactly once, and after it no
/// user item; an open lane has none.
pub proof fn law_marker_ends_the_user_lane<C, U>(
    policy: PolicyView,
    controls: Seq<C>,
    users: Seq<U>,
    user_closed: bool,
    i: int,
    j: int,
)
    requires
        0 <= i < j < merged(policy, controls, users, user_closed).len(),
        merged(policy, controls, users, user_closed)[i] is UserLaneClosed,
    ensures
        merged(policy, controls, users, user_closed)[j] is Control,
        user_closed,
        !policy.reported,
    decreases
            controls.len() + users.len() + if policy.reported {
                0int
            } else {
                1int
            },
{
    let all = merged(policy, controls, users, user_closed);
    let pick = policy.pick(controls.len() > 0, users.len() > 0, true, user_closed);
    let after = policy.after(pick);
    let rest = match pick {
        Pick::Control => merged(after, controls.drop_first(), users, user_closed),
        Pick::User => merged(after, controls, users.drop_first(), user_closed),
        _ => merged(after, controls, users, user_closed),
    };
    assert(all.drop_first() =~= rest);
    if i > 0 {
        assert(all[i] == rest[i - 1]);
        assert(all[j] == rest[j - 1]);
        match pick {
            Pick::Control => law_marker_ends_the_user_lane(
                after,
                controls.drop_first(),
                users,
                user_closed,
                i - 1,
                j - 1,
            ),
            Pick::User => law_marker_ends_the_user_lane(
                after,
                controls,
                users.drop_first(),
                user_closed,
                i - 1,
                j - 1,
            ),
            _ => law_marker_ends_the_user_lane(
                after,
                controls,
                users,
                user_closed,
                i - 1,
                j - 1,
            ),
        }
    } else {
        assert(pick is Marker);
        assert(all[j] == rest[j - 1]);
        lemma_only_control_left(after, controls, users, user_closed, j - 1);
    }
}

/// Once the marker is out and no user is left, only control comes.
proof fn lemma_only_control_left<C, U>(
    policy: PolicyView,
    controls: Seq<C>,
    users: Seq<U>,
    user_closed: bool,
    j: int,
)
    requires
        policy.reported,
        users.len() == 0,
        0 <= j < merged(policy, controls, users, user_closed).len(),
    ensures
        merged(policy, controls, users, user_closed)[j] is Control,
    decreases controls.len(),
{
    let all = merged(policy, controls, users, user_closed);
    if j > 0 {
        let rest = merged(policy.after_control(), controls.drop_first(), users, user_closed);
        assert(all.drop_first() =~= rest);
        assert(all[j] == rest[j - 1]);
        lemma_only_control_left(
            policy.after_control(),
            controls.drop_first(),
            users,
            user_closed,
            j - 1,
        );
    }
}

/// The number of end-markers: one for a closed lane whose marker is not out
/// yet, none otherwise.
pub proof fn law_one_marker<C, U>(
    policy: PolicyView,
    controls: Seq<C>,
    users: Seq<U>,
    user_closed: bool,
)
    ensures
        markers_of(merged(policy, controls, users, user_closed)) == if user_closed
            && !policy.reported {
            1nat
        } else {
            0nat
        },
    decreases
            controls.len() + users.len() + if policy.reported {
                0int
            } else {
                1int
            },
{
    let all = merged(policy, controls, users, user_closed);
    let pick = policy.pick(controls.len() > 0, users.len() > 0, true, user_closed);
    let after = policy.after(pick);
    match pick {
        Pick::Control => {
            law_one_marker(after, controls.drop_first(), users, user_closed);
            assert(all.drop_first() =~= merged(after, controls.drop_first(), users, user_closed));
        },
        Pick::User => {
            law_one_marker(after, controls, users.drop_first(), user_closed);
            assert(all.drop_first() =~= merged(after, controls, users.drop_first(), user_closed));
        },
        Pick::Marker => {
            law_one_marker(after, controls, users, user_closed);
            assert(all.drop_first() =~= merged(after, controls, users, user_closed));
        },
        Pick::End => {},
        Pick::Nothing => {},
    }
}

/// Without aging the whole control backlog comes before the first user.
pub proof fn law_strict_priority<C, U>(
    policy: PolicyView,
    controls: Seq<C>,
    users: Seq<U>,
    user_closed: bool,
    i: int,
)
    requires
        policy.cap == 0,
        0 <= i < controls.len(),
    ensures
        i < merged(policy, controls, users, user_closed).len(),
        merged(policy, controls, users, user_closed)[i] == Received::<C, U>::Control(controls[i]),
    decreases i,
{
    let all = merged(policy, controls, users, user_closed);
    let rest = merged(policy.after_control(), controls.drop_first(), users, user_closed);
    assert(all.drop_first() =~= rest);
    if i > 0 {
        law_strict_priority(
            policy.after_control(),
            controls.drop_first(),
            users,
            user_closed,
            i - 1,
        );
        assert(all[i] == rest[i - 1]);
    }
}

/// With aging the oldest waiting user comes after exactly as many control items
/// as the streak has room for, or after the whole control backlog if that is
/// shorter.
pub proof fn law_user_comes_within_the_cap<C, U>(
    policy: PolicyView,
    controls: Seq<C>,
    users: Seq<U>,
    user_closed: bool,
)
    requires
        policy.cap != 0,
        policy.streak <= policy.cap,
        users.len() > 0,
    ensures
        ({
            let all = merged(policy, controls, users, user_closed);
            let wait = if controls.len() < policy.cap - policy.streak {
                controls.len() as int
            } else {
                policy.cap - policy.streak
            };
            &&& wait < all.len()
            &&& all[wait] == Received::<C, U>::User(users[0])
            &&& forall|i: int|
                0 <= i < wait ==> #[trigger] all[i] == Received::<C, U>::Control(controls[i])
        }),
    decreases controls.len(),
{
    let all = merged(policy, controls, users, user_closed);
    let pick = policy.pick(controls.len() > 0, true, true, user_closed);
    if pick is Control {
        let rest = merged(policy.after_control(), controls.drop_first(), users, user_closed);
        assert(all.drop_first() =~= rest);
        law_user_comes_within_the_cap(
            policy.after_control(),
            controls.drop_first(),
            users,
            user_closed,
        );
        let wait = if controls.len() < policy.cap - policy.streak {
            controls.len() as int
        } else {
            policy.cap - policy.streak
        };
        assert(all[wait] == rest[wait - 1]);
        assert forall|i: int| 0 <= i < wait implies #[trigger] all[i] == Received::<C, U>::Control(
            controls[i],
        ) by {
            if i > 0 {
                assert(all[i] == rest[i - 1]);
            }
        }
    }
}

} // verus!
