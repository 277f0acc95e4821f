use vstd::prelude::*;
use crate::classify::{offline_like, online_like, tracked_product, MismatchPolicy};
use crate::cycle::{prev_of, run_cycle};
use crate::notify::{alert_of, AlertView, ONLINE_SUFFIX};
use crate::types::Friend;

verus! {

/// No two records of `roster` share an id.
pub open spec fn distinct_ids(roster: Seq<Friend>) -> bool {
    forall|i: int, j: int|
        0 <= i < j < roster.len() ==> #[trigger] roster[i].puuid != #[trigger] roster[j].puuid
}

/// Whether some record of `roster` has id `id`.
pub open spec fn mentions(roster: Seq<Friend>, id: Seq<char>) -> bool {
    exists|i: int| 0 <= i < roster.len() && #[trigger] roster[i].puuid == id
}

/// A cycle leaves the record of a friend whom the roster does not mention as it was.
pub proof fn lemma_unmentioned_untouched(
    policy: MismatchPolicy,
    store: Map<Seq<char>, Friend>,
    roster: Seq<Friend>,
    id: Seq<char>,
)
    requires
        !mentions(roster, id),
    ensures
        prev_of(run_cycle(policy, store, roster).0, id) == prev_of(store, id),
    decreases roster.len(),
{
    if roster.len() > 0 {
        let f = roster[0];
        let rest = roster.drop_first();
        assert(f.puuid != id);
        assert(!mentions(rest, id)) by {
            if mentions(rest, id) {
                let i = choose|i: int| 0 <= i < rest.len() && #[trigger] rest[i].puuid == id;
                assert(roster[i + 1].puuid == id);
            }
        }
        lemma_unmentioned_untouched(policy, store, rest, id);
        lemma_unmentioned_untouched(policy, store.insert(f.puuid, f), rest, id);
        assert(prev_of(store.insert(f.puuid, f), id) == prev_of(store, id));
    }
}

/// A friend seen for the first time raises no alert and is recorded: a cycle over a
/// roster of friends none of whom the store knows raises no alert, and leaves each of
/// them recorded as the roster gives them.
pub proof fn lemma_first_sightings_silent(
    policy: MismatchPolicy,
    store: Map<Seq<char>, Friend>,
    roster: Seq<Friend>,
)
    requires
        distinct_ids(roster),
        forall|i: int| 0 <= i < roster.len() ==> !store.contains_key(#[trigger] roster[i].puuid),
    ensures
        run_cycle(policy, store, roster).1.len() == 0,
        forall|i: int|
            0 <= i < roster.len() ==> #[trigger] prev_of(
                run_cycle(policy, store, roster).0,
                roster[i].puuid,
            ) == Some(roster[i]),
    decreases roster.len(),
{
    if roster.len() > 0 {
        let f = roster[0];
        let rest = roster.drop_first();
        let next = store.insert(f.puuid, f);
        assert(distinct_ids(rest)) by {
            assert forall|i: int, j: int| 0 <= i < j < rest.len() implies #[trigger] rest[i].puuid
                != #[trigger] rest[j].puuid by {
                assert(roster[i + 1].puuid != roster[j + 1].puuid);
            }
        }
        assert forall|i: int| 0 <= i < rest.len() implies !next.contains_key(
            #[trigger] rest[i].puuid,
        ) by {
            assert(roster[0].puuid != roster[i + 1].puuid);
            assert(!store.contains_key(roster[i + 1].puuid));
        }
        lemma_first_sightings_silent(policy, next, rest);
        assert(!mentions(rest, f.puuid)) by {
            if mentions(rest, f.puuid) {
                let i = choose|i: int| 0 <= i < rest.len() && #[trigger] rest[i].puuid == f.puuid;
                assert(roster[0].puuid != roster[i + 1].puuid);
            }
        }
        lemma_unmentioned_untouched(policy, next, rest, f.puuid);
        assert forall|i: int| 0 <= i < roster.len() implies #[trigger] prev_of(
            run_cycle(policy, store, roster).0,
            roster[i].puuid,
        ) == Some(roster[i]) by {
            if i > 0 {
                assert(roster[i] == rest[i - 1]);
            }
        }
    }
}

/// A friend whose availability did not change raises no alert, whatever else changed
/// in the record; the store takes the new record and the cycle goes on.
pub proof fn lemma_same_availability_silent(
    policy: MismatchPolicy,
    store: Map<Seq<char>, Friend>,
    friend: Friend,
    rest: Seq<Friend>,
)
    requires
        store.contains_key(friend.puuid),
        store[friend.puuid].availability == friend.availability,
    ensures
        run_cycle(policy, store, seq![friend] + rest) == run_cycle(
            policy,
            store.insert(friend.puuid, friend),
            rest,
        ),
{
    let roster = seq![friend] + rest;
    assert(roster[0] == friend);
    assert(roster.drop_first() =~= rest);
}

/// A friend who goes from an offline-like to an online-like state through the tracked
/// surface raises exactly one alert, whose body is `"{name}#{tag} is now online!"`,
/// ahead of whatever the rest of the cycle raises.
pub proof fn lemma_coming_online_alerts_once(
    policy: MismatchPolicy,
    store: Map<Seq<char>, Friend>,
    friend: Friend,
    rest: Seq<Friend>,
)
    requires
        store.contains_key(friend.puuid),
        offline_like(store[friend.puuid].availability),
        online_like(friend.availability),
        tracked_product(friend.product),
    ensures
        run_cycle(policy, store, seq![friend] + rest) == ({
            let after = run_cycle(policy, store.insert(friend.puuid, friend), rest);
            (after.0, seq![alert_of(friend)] + after.1)
        }),
        alert_of(friend).body == friend.game_name + seq!['#'] + friend.game_tag
            + ONLINE_SUFFIX@,
{
    let roster = seq![friend] + rest;
    assert(roster[0] == friend);
    assert(roster.drop_first() =~= rest);
    reveal_strlit("mobile");
    reveal_strlit("offline");
    reveal_strlit("chat");
    reveal_strlit("dnd");
    reveal_strlit("away");
    assert(store[friend.puuid].availability != friend.availability) by {
        let a = store[friend.puuid].availability;
        let b = friend.availability;
        if a == b {
            assert(a.len() == b.len());
            assert(a[0] == b[0]);
        }
    }
}

/// A change of availability through another surface raises no alert for that friend
/// and leaves its record as it was. Under [`MismatchPolicy::AbandonCycle`] the rest of
/// the roster is not classified at all; under [`MismatchPolicy::SkipFriend`] the cycle
/// goes on with the next friend.
pub proof fn lemma_foreign_product_stops(
    store: Map<Seq<char>, Friend>,
    friend: Friend,
    rest: Seq<Friend>,
)
    requires
        store.contains_key(friend.puuid),
        store[friend.puuid].availability != friend.availability,
        !tracked_product(friend.product),
    ensures
        run_cycle(MismatchPolicy::AbandonCycle, store, seq![friend] + rest) == (
            store,
            Seq::<AlertView>::empty(),
        ),
        run_cycle(MismatchPolicy::SkipFriend, store, seq![friend] + rest) == run_cycle(
            MismatchPolicy::SkipFriend,
            store,
            rest,
        ),
{
    let roster = seq![friend] + rest;
    assert(roster[0] == friend);
    assert(roster.drop_first() =~= rest);
}

/// Classifying the same roster again, right after a cycle over it, raises no alert and
/// leaves the store as that cycle left it.
pub proof fn lemma_rerun_silent(
    policy: MismatchPolicy,
    store: Map<Seq<char>, Friend>,
    roster: Seq<Friend>,
)
    requires
        distinct_ids(roster),
    ensures
        ({
            let after = run_cycle(policy, store, roster).0;
            run_cycle(policy, after, roster) == (after, Seq::<AlertView>::empty())
        }),
    decreases roster.len(),
{
    if roster.len() > 0 {
        let f = roster[0];
        let rest = roster.drop_first();
        let after = run_cycle(policy, store, roster).0;
        assert(distinct_ids(rest)) by {
            assert forall|i: int, j: int| 0 <= i < j < rest.len() implies #[trigger] rest[i].puuid
                != #[trigger] rest[j].puuid by {
                assert(roster[i + 1].puuid != roster[j + 1].puuid);
            }
        }
        assert(!mentions(rest, f.puuid)) by {
            if mentions(rest, f.puuid) {
                let i = choose|i: int| 0 <= i < rest.len() && #[trigger] rest[i].puuid == f.puuid;
                assert(roster[0].puuid != roster[i + 1].puuid);
            }
        }
        let next = store.insert(f.puuid, f);
        lemma_rerun_silent(policy, next, rest);
        lemma_rerun_silent(policy, store, rest);
        lemma_unmentioned_untouched(policy, next, rest, f.puuid);
        lemma_unmentioned_untouched(policy, store, rest, f.puuid);
        if prev_of(store, f.puuid) is Some && store[f.puuid].availability != f.availability
            && !tracked_product(f.product) {
            match policy {
                MismatchPolicy::AbandonCycle => {},
                MismatchPolicy::SkipFriend => {
                    assert(after == run_cycle(policy, store, rest).0);
                },
            }
        } else {
            assert(after == run_cycle(policy, next, rest).0);
            assert(prev_of(after, f.puuid) == Some(f));
            assert(after.insert(f.puuid, f) =~= after);
        }
    }
}

} // verus!
