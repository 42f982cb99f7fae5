use presence_monitor::notification::NotificationReason;
use presence_monitor::poller::{hourly, java_default_port, java_item_id, java_name, Config, ServerStatusProvider, TaskAction, DEFAULT_INTERVAL_MS};
use presence_monitor::table::Table;

fn config(ids: &[&str]) -> Table<Config> {
    let mut t = Table::new();
    for id in ids {
        t.insert(id.to_string(), Config::new(None, format!("https://{id}.example")));
    }
    t
}

#[test]
fn poller_reports_online_seen_seen_offline() {
    let mut m = ServerStatusProvider::new();
    let actions = m.update_config(config(&["s1"]));
    assert_eq!(actions, vec![TaskAction::Start("s1".to_string())]);
    let id = "s1".to_string();
    let mut seen = Vec::new();
    for (t, healthy) in [(10_000, true), (20_000, true), (30_000, false)] {
        seen.extend(m.record_probe(&id, healthy, t).into_iter().map(|n| n.reason));
    }
    assert_eq!(
        seen,
        vec![
            NotificationReason::WentOnline,
            NotificationReason::Seen,
            NotificationReason::Seen,
            NotificationReason::WentOffline
        ]
    );
    let st = m.current_stati();
    let s = st.get(&id).unwrap();
    assert!(!s.is_online);
    assert_eq!(s.last_seen, Some(20_000));
}

#[test]
fn no_repeated_offline_while_unhealthy() {
    let mut m = ServerStatusProvider::new();
    m.update_config(config(&["s1"]));
    let id = "s1".to_string();
    assert!(m.record_probe(&id, false, 1).is_empty());
    assert_eq!(m.record_probe(&id, true, 2).len(), 2);
    assert_eq!(m.record_probe(&id, false, 3).len(), 1);
    assert!(m.record_probe(&id, false, 4).is_empty());
}

#[test]
fn unknown_server_probe_is_ignored() {
    let mut m = ServerStatusProvider::new();
    assert!(m.record_probe(&"ghost".to_string(), true, 1).is_empty());
    assert_eq!(m.current_stati().len(), 0);
}

#[test]
fn classify_by_code_and_lists() {
    let mut c = Config::new(None, "https://a.example".to_string());
    assert_eq!(c.interval_ms, DEFAULT_INTERVAL_MS);
    assert!(c.classify(Some(200)));
    assert!(c.classify(Some(301)));
    assert!(!c.classify(Some(404)));
    assert!(!c.classify(Some(503)));
    assert!(!c.classify(None));
    c.accepted_stati.push(404);
    c.rejected_stati.push(200);
    c.rejected_stati.push(404);
    assert!(c.classify(Some(404)));
    assert!(!c.classify(Some(200)));
    assert!(c.classify(Some(600)));
}

#[test]
fn reconfigure_starts_restarts_and_stops() {
    let mut m = ServerStatusProvider::new();
    m.update_config(config(&["a", "b", "c"]));
    m.record_probe(&"a".to_string(), true, 5);
    let mut next = config(&["a", "c", "d"]);
    next.insert("c".to_string(), Config::new(Some("Cee".to_string()), "https://c.example".to_string()));
    let actions = m.update_config(next);
    assert_eq!(
        actions,
        vec![
            TaskAction::Restart("c".to_string()),
            TaskAction::Start("d".to_string()),
            TaskAction::Stop("b".to_string())
        ]
    );
    let st = m.current_stati();
    assert_eq!(st.len(), 3);
    assert!(st.get(&"a".to_string()).unwrap().is_online);
    assert_eq!(st.get(&"c".to_string()).unwrap().name, "Cee");
    assert!(!st.get(&"d".to_string()).unwrap().is_online);
    assert!(st.get(&"b".to_string()).is_none());
}

#[test]
fn same_config_compares_code_sets() {
    let mut a = Config::new(None, "u".to_string());
    let mut b = Config::new(None, "u".to_string());
    a.accepted_stati = vec![1, 2, 2];
    b.accepted_stati = vec![2, 1];
    assert!(a.same_as(&b));
    b.interval_ms = 5;
    assert!(!a.same_as(&b));
}

#[test]
fn default_server_config() {
    let c = Config::default();
    assert_eq!(c.url, "https://example.com");
    assert_eq!(c.interval_ms, 3_600_000);
    assert_eq!(hourly(), 3_600_000);
    assert_eq!(java_default_port(), 25565);
    assert!(c.name.is_none() && c.accepted_stati.is_empty() && c.rejected_stati.is_empty());
}

#[test]
fn game_server_ids_and_names() {
    assert_eq!(java_item_id(&"lobby".to_string()), "java.lobby");
    assert_eq!(java_name(&"".to_string(), &"lobby".to_string()), "lobby");
    assert_eq!(java_name(&"Lobby".to_string(), &"lobby".to_string()), "Lobby");
}
