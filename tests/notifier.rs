use league_notifier::classify::{classify, MismatchPolicy, Transition};
use league_notifier::cycle::{compare_friend_availability, process_friends};
use league_notifier::notify::{alert_for, avatar_url_for, online_message, toast_for};
use league_notifier::store::PresenceStore;
use league_notifier::types::FriendResource;

fn friend(id: &str, availability: &str, product: &str, name: &str, tag: &str, icon: i32) -> FriendResource {
    FriendResource::new(
        id.to_string(),
        availability.to_string(),
        name.to_string(),
        tag.to_string(),
        icon,
        product.to_string(),
    )
}

fn lol(id: &str, availability: &str) -> FriendResource {
    friend(id, availability, "league_of_legends", "Ana", "EU1", 4569)
}

#[test]
fn two_cycles_offline_then_chat() {
    let mut store = PresenceStore::new();
    let alerts = compare_friend_availability(
        MismatchPolicy::AbandonCycle,
        vec![friend("a", "offline", "league_of_legends", "Ana", "EU1", 1)],
        &mut store,
    );
    assert!(alerts.is_empty());
    assert_eq!(store.len(), 1);
    assert_eq!(store.get("a").unwrap().availability, "offline");

    let alerts = compare_friend_availability(
        MismatchPolicy::AbandonCycle,
        vec![friend("a", "chat", "league_of_legends", "Ana", "EU1", 1)],
        &mut store,
    );
    assert_eq!(alerts.len(), 1);
    assert_eq!(alerts[0].body, "Ana#EU1 is now online!");
    assert_eq!(store.len(), 1);
    assert_eq!(store.get("a").unwrap().availability, "chat");
}

#[test]
fn failed_fetch_changes_nothing() {
    let mut store = PresenceStore::new();
    process_friends(MismatchPolicy::AbandonCycle, Some(vec![lol("a", "offline")]), &mut store);
    let alerts = process_friends(MismatchPolicy::AbandonCycle, None, &mut store);
    assert!(alerts.is_empty());
    assert_eq!(store.len(), 1);
    assert_eq!(store.get("a").unwrap().availability, "offline");
    let alerts = process_friends(MismatchPolicy::AbandonCycle, Some(vec![lol("a", "away")]), &mut store);
    assert_eq!(alerts.len(), 1);
}

#[test]
fn first_sightings_raise_nothing() {
    let mut store = PresenceStore::new();
    let alerts = compare_friend_availability(
        MismatchPolicy::AbandonCycle,
        vec![lol("a", "chat"), lol("b", "offline"), lol("c", "dnd")],
        &mut store,
    );
    assert!(alerts.is_empty());
    assert_eq!(store.len(), 3);
    assert_eq!(store.get("a").unwrap().availability, "chat");
    assert_eq!(store.get("b").unwrap().availability, "offline");
    assert_eq!(store.get("c").unwrap().availability, "dnd");
    assert!(store.get("d").is_none());
}

#[test]
fn empty_roster_changes_nothing() {
    let mut store = PresenceStore::new();
    let alerts = compare_friend_availability(MismatchPolicy::AbandonCycle, vec![], &mut store);
    assert!(alerts.is_empty());
    assert_eq!(store.len(), 0);
}

#[test]
fn same_availability_is_silent_but_refreshes() {
    let mut store = PresenceStore::new();
    compare_friend_availability(MismatchPolicy::AbandonCycle, vec![lol("a", "offline")], &mut store);
    let renamed = friend("a", "offline", "other_product", "Bea", "NA1", 12);
    let alerts = compare_friend_availability(MismatchPolicy::AbandonCycle, vec![renamed], &mut store);
    assert!(alerts.is_empty());
    let rec = store.get("a").unwrap();
    assert_eq!(rec.game_name, "Bea");
    assert_eq!(rec.game_tag, "NA1");
    assert_eq!(rec.icon, 12);
}

#[test]
fn every_worthy_pair_alerts_once() {
    for from in ["mobile", "offline"] {
        for to in ["chat", "dnd", "away"] {
            let mut store = PresenceStore::new();
            compare_friend_availability(MismatchPolicy::AbandonCycle, vec![lol("a", from)], &mut store);
            let alerts = compare_friend_availability(
                MismatchPolicy::AbandonCycle,
                vec![friend("a", to, "league_of_legends", "Zed", "KR9", 3)],
                &mut store,
            );
            assert_eq!(alerts.len(), 1);
            assert_eq!(alerts[0].body, "Zed#KR9 is now online!");
            assert_eq!(store.get("a").unwrap().availability, to);
        }
    }
}

#[test]
fn other_changes_are_recorded_silently() {
    let pairs = [("chat", "dnd"), ("away", "offline"), ("offline", "mobile"), ("mobile", "spectating"), ("dnd", "chat")];
    for (from, to) in pairs {
        let mut store = PresenceStore::new();
        compare_friend_availability(MismatchPolicy::AbandonCycle, vec![lol("a", from)], &mut store);
        let alerts = compare_friend_availability(MismatchPolicy::AbandonCycle, vec![lol("a", to)], &mut store);
        assert!(alerts.is_empty());
        assert_eq!(store.get("a").unwrap().availability, to);
    }
}

#[test]
fn foreign_product_abandons_rest_of_cycle() {
    let mut store = PresenceStore::new();
    compare_friend_availability(
        MismatchPolicy::AbandonCycle,
        vec![lol("a", "offline"), lol("b", "offline"), lol("c", "offline")],
        &mut store,
    );
    let alerts = compare_friend_availability(
        MismatchPolicy::AbandonCycle,
        vec![
            lol("a", "chat"),
            friend("b", "chat", "valorant", "Bo", "X", 2),
            lol("c", "chat"),
            lol("d", "chat"),
        ],
        &mut store,
    );
    assert_eq!(alerts.len(), 1);
    assert_eq!(alerts[0].body, "Ana#EU1 is now online!");
    assert_eq!(store.get("a").unwrap().availability, "chat");
    assert_eq!(store.get("b").unwrap().availability, "offline");
    assert_eq!(store.get("c").unwrap().availability, "offline");
    assert!(store.get("d").is_none());
}

#[test]
fn foreign_product_skipped_under_skip_policy() {
    let mut store = PresenceStore::new();
    compare_friend_availability(
        MismatchPolicy::SkipFriend,
        vec![lol("a", "offline"), lol("b", "offline"), lol("c", "offline")],
        &mut store,
    );
    let alerts = compare_friend_availability(
        MismatchPolicy::SkipFriend,
        vec![friend("a", "chat", "valorant", "Al", "X", 2), lol("b", "chat"), lol("c", "away")],
        &mut store,
    );
    assert_eq!(alerts.len(), 2);
    assert_eq!(store.get("a").unwrap().availability, "offline");
    assert_eq!(store.get("b").unwrap().availability, "chat");
    assert_eq!(store.get("c").unwrap().availability, "away");
}

#[test]
fn rerun_on_same_roster_is_silent() {
    let mut store = PresenceStore::new();
    compare_friend_availability(MismatchPolicy::AbandonCycle, vec![lol("a", "offline"), lol("b", "mobile")], &mut store);
    let first = compare_friend_availability(MismatchPolicy::AbandonCycle, vec![lol("a", "chat"), lol("b", "away")], &mut store);
    assert_eq!(first.len(), 2);
    for _ in 0..3 {
        let again = compare_friend_availability(MismatchPolicy::AbandonCycle, vec![lol("a", "chat"), lol("b", "away")], &mut store);
        assert!(again.is_empty());
        assert_eq!(store.len(), 2);
    }
}

#[test]
fn classify_cases() {
    let prev = lol("a", "offline");
    assert_eq!(classify(None, &prev), Transition::FirstSighting);
    assert_eq!(classify(Some(&prev), &lol("a", "offline")), Transition::Unchanged);
    assert_eq!(classify(Some(&prev), &lol("a", "chat")), Transition::CameOnline);
    assert_eq!(classify(Some(&prev), &lol("a", "mobile")), Transition::Changed);
    assert_eq!(
        classify(Some(&prev), &friend("a", "chat", "valorant", "Ana", "EU1", 1)),
        Transition::ForeignProduct
    );
    assert_eq!(classify(Some(&lol("a", "chat")), &lol("a", "unknown_state")), Transition::Changed);
}

#[test]
fn message_and_avatar_url() {
    let f = friend("a", "chat", "league_of_legends", "Ana", "EU1", 4569);
    assert_eq!(online_message(&f), "Ana#EU1 is now online!");
    assert_eq!(
        avatar_url_for(4569),
        "https://raw.communitydragon.org/latest/plugins/rcp-be-lol-game-data/global/default/v1/profile-icons/4569.jpg"
    );
    assert!(avatar_url_for(0).ends_with("/profile-icons/0.jpg"));
    assert!(avatar_url_for(-7).ends_with("/profile-icons/-7.jpg"));
    assert!(avatar_url_for(i32::MIN).ends_with("/profile-icons/-2147483648.jpg"));
    assert!(avatar_url_for(i32::MAX).ends_with("/profile-icons/2147483647.jpg"));
    let a = alert_for(&f);
    assert_eq!(a.body, "Ana#EU1 is now online!");
    assert_eq!(a.icon_url, avatar_url_for(4569));
}

#[test]
fn toast_without_image_still_shown() {
    let a = alert_for(&lol("a", "chat"));
    let t = toast_for(&a, None);
    assert_eq!(t.summary, "League Notifier");
    assert_eq!(t.app_name, "League Notifier");
    assert_eq!(t.sound, "IM");
    assert_eq!(t.body, "Ana#EU1 is now online!");
    assert!(t.image.is_none());
    let t = toast_for(&a, Some("/tmp/icon.jpg".to_string()));
    assert_eq!(t.image.as_deref(), Some("/tmp/icon.jpg"));
    assert_eq!(t.body, "Ana#EU1 is now online!");
}
