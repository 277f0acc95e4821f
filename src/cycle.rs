use vstd::prelude::*;
use crate::classify::{classify, transition_of, view_opt, MismatchPolicy, Transition};
use crate::notify::{alert_for, alert_of, Alert, AlertView};
use crate::store::PresenceStore;
use crate::types::{Friend, FriendResource};

verus! {

/// Seconds between two polls of the roster.
pub const POLL_INTERVAL_SECS: u64 = 5;

/// Endpoint of the local client that lists the friend roster.
pub const ROSTER_ENDPOINT: &'static str = "/lol-chat/v1/friends";

/// The model of a roster.
pub open spec fn roster_view(friends: Seq<FriendResource>) -> Seq<Friend> {
    friends.map_values(|f: FriendResource| f@)
}

/// The model of a sequence of alerts.
pub open spec fn alerts_view(alerts: Seq<Alert>) -> Seq<AlertView> {
    alerts.map_values(|a: Alert| a@)
}

/// The last record of `id` in `store`, if there is one.
pub open spec fn prev_of(store: Map<Seq<char>, Friend>, id: Seq<char>) -> Option<Friend> {
    if store.contains_key(id) {
        Some(store[id])
    } else {
        None
    }
}

/// One poll cycle over `roster`, in order, starting from `store`: the store it leaves
/// behind and the alerts it raises, in the order of the roster.
///
/// A first sighting records the friend silently. Any other record overwrites the stored
/// one; a change from an offline-like to an online-like state through the tracked
/// surface also raises an alert. A change through another surface leaves that friend's
/// record as it was and, under [`MismatchPolicy::AbandonCycle`], ends the cycle there.
pub open spec fn run_cycle(
    policy: MismatchPolicy,
    store: Map<Seq<char>, Friend>,
    roster: Seq<Friend>,
) -> (Map<Seq<char>, Friend>, Seq<AlertView>)
    decreases roster.len(),
{
    if roster.len() == 0 {
        (store, Seq::empty())
    } else {
        let f = roster[0];
        let rest = roster.drop_first();
        match transition_of(prev_of(store, f.puuid), f) {
            Transition::ForeignProduct => match policy {
                MismatchPolicy::AbandonCycle => (store, Seq::empty()),
                MismatchPolicy::SkipFriend => run_cycle(policy, store, rest),
            },
            Transition::CameOnline => {
                let after = run_cycle(policy, store.insert(f.puuid, f), rest);
                (after.0, seq![alert_of(f)] + after.1)
            },
            _ => run_cycle(policy, store.insert(f.puuid, f), rest),
        }
    }
}

/// Runs one poll cycle of `friends` against `store`, and returns the alerts to raise,
/// in roster order.
pub fn compare_friend_availability(
    policy: MismatchPolicy,
    friends: Vec<FriendResource>,
    store: &mut PresenceStore,
) -> (r: Vec<Alert>)
    requires
        old(store).wf(),
    ensures
        final(store).wf(),
        (final(store)@, alerts_view(r@)) == run_cycle(
            policy,
            old(store)@,
            roster_view(friends@),
        ),
{
    let ghost roster = roster_view(friends@);
    let ghost store0 = store@;
    let mut alerts: Vec<Alert> = Vec::new();
    let mut abandoned = false;
    assert(roster.skip(0) =~= roster);
    assert(alerts_view(alerts@) + run_cycle(policy, store0, roster).1 =~= run_cycle(
        policy,
        store0,
        roster,
    ).1);
    for friend in it: friends
        invariant
            store.wf(),
            roster_view(it.seq()) == roster,
            abandoned ==> run_cycle(policy, store0, roster) == (store@, alerts_view(alerts@)),
            !abandoned ==> run_cycle(policy, store0, roster) == ({
                let tail = run_cycle(policy, store@, roster.skip(it.index() as int));
                (tail.0, alerts_view(alerts@) + tail.1)
            }),
    {
        if !abandoned {
            let ghost i = it.index() as int;
            let ghost here = roster.skip(i);
            assert(it.seq()[i] == friend);
            assert(here[0] == friend@);
            assert(here.drop_first() =~= roster.skip(i + 1));
            let prev = store.get(friend.puuid.as_str());
            assert(view_opt(prev) == prev_of(store@, friend@.puuid));
            let t = classify(prev, &friend);
            match t {
                Transition::ForeignProduct => match policy {
                    MismatchPolicy::AbandonCycle => {
                        assert(alerts_view(alerts@) + Seq::<AlertView>::empty() =~= alerts_view(
                            alerts@,
                        ));
                        abandoned = true;
                    },
                    MismatchPolicy::SkipFriend => {},
                },
                Transition::CameOnline => {
                    let ghost shown = alerts_view(alerts@);
                    alerts.push(alert_for(&friend));
                    assert(alerts_view(alerts@) =~= shown.push(alert_of(friend@)));
                    store.record(friend);
                    let ghost tail = run_cycle(policy, store@, roster.skip(i + 1));
                    assert(shown + (seq![alert_of(friend@)] + tail.1) =~= alerts_view(alerts@)
                        + tail.1);
                },
                _ => {
                    store.record(friend);
                },
            }
        }
    }
    alerts
}

/// Handles the outcome of one poll: `None` when no roster could be had this time (no
/// client session, a transport or decoding error), which changes nothing and raises no
/// alert; otherwise the cycle over the roster.
pub fn process_friends(
    policy: MismatchPolicy,
    roster: Option<Vec<FriendResource>>,
    store: &mut PresenceStore,
) -> (r: Vec<Alert>)
    requires
        old(store).wf(),
    ensures
        final(store).wf(),
        match roster {
            None => final(store)@ == old(store)@ && r@.len() == 0,
            Some(friends) => (final(store)@, alerts_view(r@)) == run_cycle(
                policy,
                old(store)@,
                roster_view(friends@),
            ),
        },
{
    match roster {
        None => Vec::new(),
        Some(friends) => compare_friend_availability(policy, friends, store),
    }
}

} // verus!
