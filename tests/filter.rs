use presence_monitor::filter::{Filter, IdFilter, ReasonFilter, TypeFilter};
use presence_monitor::notification::{Notification, NotificationReason};

fn note(id: &str, reason: NotificationReason) -> Notification {
    Notification::new(format!("name of {id}"), id.to_string(), reason)
}

#[test]
fn default_filter_blocks_seen_only() {
    let f = Filter::default();
    let src = "miner".to_string();
    assert!(!f.allows(&src, &note("m1", NotificationReason::Seen)));
    assert!(f.allows(&src, &note("m1", NotificationReason::WentOnline)));
    assert!(f.allows(&src, &note("m1", NotificationReason::WentOffline)));
    assert!(f.allows(&src, &note("m1", NotificationReason::Other("x".to_string()))));
}

#[test]
fn offline_whitelist_passes_only_offline() {
    let f = Filter {
        reason_filter: ReasonFilter::WhiteList(vec![NotificationReason::WentOffline]),
        id_filter: IdFilter::default(),
        type_filter: TypeFilter::default(),
    };
    let src = "server".to_string();
    assert!(f.allows(&src, &note("s", NotificationReason::WentOffline)));
    assert!(!f.allows(&src, &note("s", NotificationReason::WentOnline)));
    assert!(!f.allows(&src, &note("s", NotificationReason::Seen)));
}

#[test]
fn id_and_type_rules_combine() {
    let f = Filter {
        reason_filter: ReasonFilter::default(),
        id_filter: IdFilter::WhiteList(vec!["a".to_string()]),
        type_filter: TypeFilter::BlackList(vec!["server".to_string()]),
    };
    let miner = "miner".to_string();
    let server = "server".to_string();
    assert!(f.allows(&miner, &note("a", NotificationReason::Seen)));
    assert!(!f.allows(&miner, &note("b", NotificationReason::Seen)));
    assert!(!f.allows(&server, &note("a", NotificationReason::Seen)));
    assert!(f.allows_reason(&NotificationReason::Seen));
}

#[test]
fn other_reasons_compare_by_text() {
    let f = ReasonFilter::BlackList(vec![NotificationReason::Other("maintenance".to_string())]);
    assert!(!f.allows(&NotificationReason::Other("maintenance".to_string())));
    assert!(f.allows(&NotificationReason::Other("other".to_string())));
    assert!(NotificationReason::Other("a".to_string()).same_as(&NotificationReason::Other("a".to_string())));
    assert!(!NotificationReason::Seen.same_as(&NotificationReason::WentOnline));
}

#[test]
fn reason_text_phrases() {
    assert_eq!(NotificationReason::WentOnline.text(), "went online");
    assert_eq!(NotificationReason::WentOffline.text(), "went offline");
    assert_eq!(NotificationReason::Seen.text(), "was seen");
    assert_eq!(NotificationReason::Other("rebooted".to_string()).text(), "rebooted");
}
