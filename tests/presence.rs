use presence_monitor::notification::{Notification, NotificationReason};
use presence_monitor::presence::{Config, DataminerStatusProvider};
use presence_monitor::table::Table;

fn tracker(id: &str, name: Option<&str>, timeout_ms: Option<u64>) -> DataminerStatusProvider {
    let mut cfg = Table::new();
    cfg.insert(id.to_string(), Config { name: name.map(|n| n.to_string()), timeout_ms });
    DataminerStatusProvider::new(cfg)
}

fn reasons(ns: &[Notification]) -> Vec<NotificationReason> {
    ns.iter().map(|n| n.reason.clone()).collect()
}

fn online(t: &DataminerStatusProvider, id: &str) -> Option<bool> {
    t.current_stati().get(&id.to_string()).map(|s| s.is_online)
}

#[test]
fn unanswered_ping_goes_offline_then_back_online() {
    let mut t = tracker("m1", None, Some(5000));
    let out = t.ping(&"m1".to_string(), 0);
    assert_eq!(reasons(&out.notifications), vec![NotificationReason::WentOnline]);
    let check = out.check.expect("a deadline is configured");
    assert_eq!(check.item_id, "m1");
    assert_eq!(check.seen_at, 0);
    assert_eq!(check.delay_ms, 5000);
    assert_eq!(online(&t, "m1"), Some(true));

    let offline = t.check_offline(&check).expect("no later ping came");
    assert_eq!(offline.reason, NotificationReason::WentOffline);
    assert_eq!(offline.item_id, "m1");
    assert_eq!(online(&t, "m1"), Some(false));
    assert!(t.check_offline(&check).is_none());

    let again = t.ping(&"m1".to_string(), 6000);
    assert_eq!(
        reasons(&again.notifications),
        vec![NotificationReason::WentOnline, NotificationReason::Seen]
    );
    assert_eq!(online(&t, "m1"), Some(true));
    let st = t.current_stati();
    assert_eq!(st.get(&"m1".to_string()).unwrap().last_seen, Some(6000));
}

#[test]
fn later_ping_cancels_earlier_check() {
    let mut t = tracker("m1", None, Some(5000));
    let first = t.ping(&"m1".to_string(), 0).check.unwrap();
    let second = t.ping(&"m1".to_string(), 3000);
    assert_eq!(reasons(&second.notifications), vec![NotificationReason::Seen]);
    assert!(t.check_offline(&first).is_none());
    assert_eq!(online(&t, "m1"), Some(true));
    let second_check = second.check.unwrap();
    assert_eq!(second_check.seen_at, 3000);
    assert!(t.check_offline(&second_check).is_some());
    assert_eq!(online(&t, "m1"), Some(false));
}

#[test]
fn every_ping_reports_online() {
    let mut t = tracker("m1", None, None);
    for (i, id) in ["a", "m1", "b", "a"].iter().enumerate() {
        let out = t.ping(&id.to_string(), i as i64);
        assert!(out.check.is_none());
        assert_eq!(online(&t, id), Some(true));
    }
}

#[test]
fn configured_name_is_used_and_unpinged_entities_are_offline() {
    let t = tracker("m1", Some("Miner One"), Some(1000));
    let st = t.current_stati();
    let s = st.get(&"m1".to_string()).unwrap();
    assert_eq!(s.name, "Miner One");
    assert!(!s.is_online);
    assert_eq!(s.last_seen, None);
    assert_eq!(st.len(), 1);
}

#[test]
fn notifications_carry_name_and_id() {
    let mut t = tracker("m1", Some("Miner One"), None);
    let out = t.ping(&"m1".to_string(), 10);
    assert_eq!(out.notifications[0].item_name, "Miner One");
    assert_eq!(out.notifications[0].item_id, "m1");
    let out = t.ping(&"x".to_string(), 11);
    assert_eq!(out.notifications[0].item_name, "x");
}

#[test]
fn unknown_entity_is_absent() {
    let t = tracker("m1", None, None);
    assert!(t.current_stati().get(&"nobody".to_string()).is_none());
}

#[test]
fn reconfigure_keeps_presence() {
    let mut t = tracker("m1", None, Some(10));
    t.ping(&"m1".to_string(), 1);
    t.update_config(Table::new());
    assert_eq!(online(&t, "m1"), Some(true));
    let out = t.ping(&"m1".to_string(), 2);
    assert!(out.check.is_none());
}

#[test]
fn offline_notice_keeps_the_name_of_the_ping() {
    let mut t = tracker("m1", Some("a"), Some(5000));
    let check = t.ping(&"m1".to_string(), 0).check.unwrap();
    assert_eq!(check.item_name, "a");
    let mut renamed = Table::new();
    renamed.insert("m1".to_string(), Config { name: Some("b".to_string()), timeout_ms: Some(5000) });
    t.update_config(renamed);
    let offline = t.check_offline(&check).unwrap();
    assert_eq!(offline.item_name, "a");
    assert_eq!(t.current_stati().get(&"m1".to_string()).unwrap().name, "b");
}

#[test]
fn never_online_past_the_timeout() {
    let mut t = tracker("m1", None, Some(5000));
    t.ping(&"m1".to_string(), 1000);
    let at = |t: &DataminerStatusProvider, now: i64| t.stati_at(now).get(&"m1".to_string()).unwrap().is_online;
    assert!(at(&t, 1000));
    assert!(at(&t, 5999));
    assert!(!at(&t, 6000));
    assert!(!at(&t, 60_000));
    assert_eq!(online(&t, "m1"), Some(true));
    t.ping(&"m1".to_string(), 60_000);
    assert!(at(&t, 60_001));
    let mut u = tracker("x", None, None);
    u.ping(&"y".to_string(), 0);
    assert!(u.stati_at(i64::MAX).get(&"y".to_string()).unwrap().is_online);
    assert!(!u.stati_at(0).get(&"x".to_string()).unwrap().is_online);
}
