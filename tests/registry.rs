use presence_monitor::handle::{ProviderType, StateHandle};
use presence_monitor::registry::{config_or_default, Dispatch, RawConfig, RouteTarget, State};
use presence_monitor::notification::{Notification, NotificationReason};
use presence_monitor::table::Table;

type Reg = State<String, String, u64>;

fn decode(block: Option<&String>) -> u64 {
    config_or_default(block.map(|b| b.parse::<u64>()), 0)
}

#[test]
fn duplicate_registration_fails_and_keeps_first() {
    let mut r: Reg = State::new(RawConfig::empty());
    assert!(r.register_status_provider("miner".to_string(), |_| "first".to_string()).is_ok());
    let err = r
        .register_status_provider("miner".to_string(), |_| "second".to_string())
        .unwrap_err();
    assert_eq!(err.id, "miner");
    assert_eq!(r.status_providers().get(&"miner".to_string()), Some(&"first".to_string()));
    assert_eq!(r.status_providers().len(), 1);
}

#[test]
fn disabled_registration_is_a_no_op() {
    let mut cfg = RawConfig::empty();
    cfg.disabled_status.push("server".to_string());
    cfg.disabled_notifications.push("email".to_string());
    let mut r: Reg = State::new(cfg);
    assert!(r.register_status_provider("server".to_string(), |_| "s".to_string()).is_ok());
    assert!(r.register_notification_provider("email".to_string(), |_| 1).is_ok());
    assert_eq!(r.status_providers().len(), 0);
    assert_eq!(r.notification_providers().len(), 0);
    assert!(r.is_status_disabled(&"server".to_string()));
    assert!(r.register_status_provider("server".to_string(), |_| "s".to_string()).is_ok());
}

#[test]
fn constructor_gets_its_block() {
    let mut cfg = RawConfig::empty();
    cfg.notifications.insert("ntfy".to_string(), "42".to_string());
    let mut r: Reg = State::new(cfg);
    r.register_notification_provider("ntfy".to_string(), decode).unwrap();
    r.register_notification_provider("email".to_string(), decode).unwrap();
    assert_eq!(r.notification_providers().get(&"ntfy".to_string()), Some(&42));
    assert_eq!(r.notification_providers().get(&"email".to_string()), Some(&0));
    let err = r.register_notification_provider("ntfy".to_string(), decode).unwrap_err();
    assert_eq!(err.id, "ntfy");
}

#[test]
fn malformed_block_falls_back_alone() {
    let mut r: Reg = State::new(RawConfig::empty());
    r.register_notification_provider("a".to_string(), decode).unwrap();
    r.register_notification_provider("b".to_string(), decode).unwrap();
    let mut next = RawConfig::empty();
    next.notifications.insert("a".to_string(), "not a number".to_string());
    next.notifications.insert("b".to_string(), "7".to_string());
    r.reload_config(next);
    assert_eq!(decode(r.notification_block(&"a".to_string())), 0);
    assert_eq!(decode(r.notification_block(&"b".to_string())), 7);
    assert_eq!(r.notification_providers().len(), 2);
}

#[test]
fn reload_removes_disabled_providers() {
    let mut r: Reg = State::new(RawConfig::empty());
    r.register_status_provider("miner".to_string(), |_| "m".to_string()).unwrap();
    r.register_status_provider("server".to_string(), |_| "s".to_string()).unwrap();
    r.register_notification_provider("api".to_string(), |_| 1).unwrap();
    let mut next = RawConfig::empty();
    next.disabled_status.push("server".to_string());
    next.disabled_notifications.push("api".to_string());
    next.status.insert("miner".to_string(), "block".to_string());
    r.reload_config(next);
    assert_eq!(r.status_providers().len(), 1);
    assert!(r.status_providers().contains_key(&"miner".to_string()));
    assert_eq!(r.notification_providers().len(), 0);
    assert_eq!(r.status_block(&"miner".to_string()), Some(&"block".to_string()));
    assert_eq!(r.status_block(&"server".to_string()), None);
}

#[test]
fn unregister_removes_one() {
    let mut r: Reg = State::new(RawConfig::empty());
    r.register_status_provider("a".to_string(), |_| "x".to_string()).unwrap();
    r.register_notification_provider("n".to_string(), |_| 3).unwrap();
    assert_eq!(r.unregister_status_provider(&"a".to_string()), Some("x".to_string()));
    assert_eq!(r.unregister_status_provider(&"a".to_string()), None);
    assert_eq!(r.unregister_notification_provider(&"n".to_string()), Some(3));
    assert!(r.register_status_provider("a".to_string(), |_| "y".to_string()).is_ok());
}

#[test]
fn all_stati_and_fan_out_reach_every_provider() {
    let mut r: Reg = State::new(RawConfig::empty());
    r.register_status_provider("a".to_string(), |_| "alpha".to_string()).unwrap();
    r.register_status_provider("b".to_string(), |_| "beta".to_string()).unwrap();
    r.register_notification_provider("n1".to_string(), |_| 1).unwrap();
    r.register_notification_provider("n2".to_string(), |_| 2).unwrap();
    let all: Table<usize> = r.all_stati(|s: &String| s.len());
    assert_eq!(all.len(), 2);
    assert_eq!(all.get(&"a".to_string()), Some(&5));
    assert_eq!(all.get(&"b".to_string()), Some(&4));
    let msg = Notification::new("A".to_string(), "a".to_string(), NotificationReason::Seen);
    let delivered = r.send_notification(&"miner".to_string(), &msg, |src: &String, n: &u64, m: &Notification| {
        format!("{src}:{n}:{}", m.item_id)
    });
    assert_eq!(delivered, vec!["miner:1:a".to_string(), "miner:2:a".to_string()]);
}

#[test]
fn routes_by_first_segment() {
    let mut r: Reg = State::new(RawConfig::empty());
    r.register_status_provider("miner".to_string(), |_| "m".to_string()).unwrap();
    let p = |v: &[&str]| v.iter().map(|s| s.to_string()).collect::<Vec<String>>();
    assert_eq!(r.route(&p(&["reload_config"])), RouteTarget::ReloadConfig);
    assert_eq!(
        r.route(&p(&["miner", "ping"])),
        RouteTarget::StatusProvider { id: "miner".to_string(), rest: p(&["ping"]) }
    );
    assert_eq!(r.route(&p(&["api", "all_stati"])), RouteTarget::NotificationProviders);
    assert_eq!(r.route(&p(&[])), RouteTarget::NotificationProviders);
    assert_eq!(r.route(&p(&["reload_config", "x"])), RouteTarget::NotificationProviders);
}

#[test]
fn config_or_default_picks_decoded() {
    assert_eq!(config_or_default::<u64, ()>(Some(Ok(3)), 9), 3);
    assert_eq!(config_or_default::<u64, ()>(Some(Err(())), 9), 9);
    assert_eq!(config_or_default::<u64, ()>(None, 9), 9);
}

#[test]
fn table_keeps_insertion_order_and_replaces() {
    let mut t: Table<u8> = Table::new();
    t.insert("x".to_string(), 1);
    t.insert("y".to_string(), 2);
    t.insert("x".to_string(), 3);
    assert_eq!(t.len(), 2);
    assert_eq!(t.entry(0), (&"x".to_string(), &3));
    assert_eq!(t.position(&"y".to_string()), Some(1));
    assert_eq!(t.remove(&"x".to_string()), Some(3));
    assert_eq!(t.entry(0), (&"y".to_string(), &2));
}

#[test]
fn handle_acts_as_its_provider() {
    let mut r: Reg = State::new(RawConfig::empty());
    r.register_status_provider("a".to_string(), |_| "x".to_string()).unwrap();
    r.register_notification_provider("n".to_string(), |_| 1).unwrap();
    let h = StateHandle::new("a".to_string(), ProviderType::Status);
    assert_eq!(h.id(), "a");
    let msg = Notification::new("A".to_string(), "a".to_string(), NotificationReason::WentOnline);
    let sent = h.send_notification(&r, &msg, |src: &String, _: &u64, _: &Notification| src.clone());
    assert_eq!(sent, vec!["a".to_string()]);
    let all = h.all_stati(&r, |s: &String| s.clone());
    assert_eq!(all.get(&"a".to_string()), Some(&"x".to_string()));
    StateHandle::add_dependency_notification_provider(&mut r, "n".to_string(), |_| 99);
    assert_eq!(r.notification_providers().get(&"n".to_string()), Some(&1));
    StateHandle::add_dependency_notification_provider(&mut r, "m".to_string(), |_| 7);
    assert_eq!(r.notification_providers().get(&"m".to_string()), Some(&7));
    StateHandle::add_dependency_status_provider(&mut r, "a".to_string(), |_| "y".to_string());
    assert_eq!(r.status_providers().get(&"a".to_string()), Some(&"x".to_string()));
    h.remove_self(&mut r);
    assert!(r.status_providers().get(&"a".to_string()).is_none());
    assert_eq!(r.notification_providers().len(), 2);
}

#[test]
fn handle_falls_through_to_notification_providers() {
    let mut r: Reg = State::new(RawConfig::empty());
    r.register_status_provider("miner".to_string(), |_| "m".to_string()).unwrap();
    r.register_notification_provider("api".to_string(), |_| 1).unwrap();
    r.register_notification_provider("web".to_string(), |_| 2).unwrap();
    let p = |v: &[&str]| v.iter().map(|s| s.to_string()).collect::<Vec<String>>();
    let ask_status = |_: &String, rest: &Vec<String>| {
        if rest == &vec!["ping".to_string()] { Some("pinged".to_string()) } else { None }
    };
    let ask_notification = |n: &u64, path: &Vec<String>| {
        if *n == 2 && path.len() == 2 { Some(format!("web:{}", path.join("/"))) } else { None }
    };
    assert_eq!(r.handle(&p(&["reload_config"]), ask_status, ask_notification), Dispatch::ReloadConfig);
    assert_eq!(r.handle(&p(&["miner", "ping"]), ask_status, ask_notification), Dispatch::Answered("pinged".to_string()));
    assert_eq!(
        r.handle(&p(&["miner", "other"]), ask_status, ask_notification),
        Dispatch::Answered("web:miner/other".to_string())
    );
    assert_eq!(r.handle(&p(&["x"]), ask_status, ask_notification), Dispatch::NotFound);
}
