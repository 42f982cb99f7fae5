use presence_monitor::email::{alert_body, alert_subject, default_name, Config as EmailConfig, Subscriber};
use presence_monitor::filter::{Filter, IdFilter, ReasonFilter, TypeFilter};
use presence_monitor::notification::{Notification, NotificationReason};
use presence_monitor::ntfy::{default_message, render_template, text_or_template, Config as NtfyConfig, NtfyNotificationProvider};
use presence_monitor::push::{api_endpoint, default_route, element_statuses, ApiEndpoint, StatusUpdate, WebSocketMessage};
use presence_monitor::status::{name_or_id, Status};
use presence_monitor::table::Table;
use presence_monitor::website::{default_static_dir, Asset};

fn note(name: &str, id: &str, reason: NotificationReason) -> Notification {
    Notification::new(name.to_string(), id.to_string(), reason)
}

fn ntfy(base: &str, message: &str, title: Option<&str>, behaviour: Option<Filter>) -> NtfyConfig {
    NtfyConfig {
        base: base.to_string(),
        topic: "alerts".to_string(),
        title: title.map(|t| t.to_string()),
        message: message.to_string(),
        tags: vec!["warning".to_string()],
        priority: Some(4),
        click: None,
        attach: None,
        markdown: None,
        icon: None,
        filename: None,
        delay: None,
        email: None,
        call: None,
        behaviour,
        auth_token: Some("SECRET-REDACTED".to_string()),
    }
}

#[test]
fn template_is_filled_from_notification() {
    let n = note("Miner One", "m1", NotificationReason::WentOnline);
    let out = render_template(&default_message(), &"miner".to_string(), &n);
    assert_eq!(out, "Miner One went online");
    let out = render_template(&"{type_id}/{source_id}: {reason}".to_string(), &"miner".to_string(), &n);
    assert_eq!(out, "miner/m1: went online");
}

#[test]
fn unfillable_template_is_sent_as_is() {
    let n = note("Miner One", "m1", NotificationReason::Seen);
    let t = "{nope} happened".to_string();
    assert_eq!(render_template(&t, &"miner".to_string(), &n), t);
    assert_eq!(text_or_template(None, &t), t);
    assert_eq!(text_or_template(Some("x".to_string()), &t), "x");
}

#[test]
fn ntfy_sends_to_passing_targets_only() {
    let only_offline = Filter {
        reason_filter: ReasonFilter::WhiteList(vec![NotificationReason::WentOffline]),
        id_filter: IdFilter::default(),
        type_filter: TypeFilter::default(),
    };
    let p = NtfyNotificationProvider {
        config: vec![
            ntfy("https://a.example", "{source_name} {reason}", Some("{type_id}"), None),
            ntfy("https://b.example", "down: {source_id}", None, Some(only_offline)),
        ],
    };
    let src = "server".to_string();
    let up = p.send(&src, &note("Web", "w", NotificationReason::WentOnline));
    assert_eq!(up.len(), 1);
    assert_eq!(up[0].base, "https://a.example");
    assert_eq!(up[0].body.message.as_deref(), Some("Web went online"));
    assert_eq!(up[0].body.title.as_deref(), Some("server"));
    assert_eq!(up[0].body.priority, Some(4));
    assert_eq!(up[0].body.tags, vec!["warning".to_string()]);
    assert_eq!(up[0].body.topic, "alerts");
    assert_eq!(up[0].auth_token.as_deref(), Some("SECRET-REDACTED"));
    assert_eq!(up[0].body.click, None);
    let down = p.send(&src, &note("Web", "w", NotificationReason::WentOffline));
    assert_eq!(down.len(), 2);
    assert_eq!(down[1].body.message.as_deref(), Some("down: w"));
    assert_eq!(down[1].body.title, None);
    assert_eq!(down[1].auth_token.as_deref(), Some("SECRET-REDACTED"));
    assert!(p.send(&src, &note("Web", "w", NotificationReason::Seen)).is_empty());
}

#[test]
fn email_recipients_follow_filters() {
    let no_b = Filter {
        reason_filter: ReasonFilter::BlackList(vec![]),
        id_filter: IdFilter::BlackList(vec!["b".to_string()]),
        type_filter: TypeFilter::default(),
    };
    let cfg = EmailConfig {
        address: "from@example.com".to_string(),
        password: "SECRET-REDACTED".to_string(),
        server: "smtp.example.com".to_string(),
        name: default_name(),
        subscribers: vec![
            Subscriber::Default("all@example.com".to_string()),
            Subscriber::Custom { email: "picky@example.com".to_string(), behaviour: no_b },
        ],
        behaviour: None,
    };
    assert_eq!(cfg.name, "No Reply");
    let src = "miner".to_string();
    assert_eq!(
        cfg.recipients(&src, &note("A", "a", NotificationReason::WentOffline)),
        vec!["all@example.com".to_string(), "picky@example.com".to_string()]
    );
    assert_eq!(
        cfg.recipients(&src, &note("B", "b", NotificationReason::WentOffline)),
        vec!["all@example.com".to_string()]
    );
    assert!(cfg.recipients(&src, &note("A", "a", NotificationReason::Seen)).is_empty());
    assert_eq!(cfg.subscribers[1].get_email(), "picky@example.com");
    assert!(cfg.subscribers[0].allows(&src, &note("B", "b", NotificationReason::Seen)));
}

#[test]
fn push_messages_by_reason() {
    let src = "miner".to_string();
    assert_eq!(
        WebSocketMessage::from_notification(src.clone(), note("M", "m1", NotificationReason::WentOnline)),
        Some(WebSocketMessage::MinerStatusChange(StatusUpdate {
            type_id: "miner".to_string(),
            id: "m1".to_string(),
            new_status: true
        }))
    );
    assert_eq!(
        WebSocketMessage::from_notification(src.clone(), note("M", "m1", NotificationReason::WentOffline)),
        Some(WebSocketMessage::MinerStatusChange(StatusUpdate {
            type_id: "miner".to_string(),
            id: "m1".to_string(),
            new_status: false
        }))
    );
    assert_eq!(
        WebSocketMessage::from_notification(src.clone(), note("M", "m1", NotificationReason::Seen)),
        Some(WebSocketMessage::MinerPing { type_id: "miner".to_string(), id: "m1".to_string() })
    );
    assert_eq!(
        WebSocketMessage::from_notification(src, note("M", "m1", NotificationReason::Other("x".to_string()))),
        None
    );
}

#[test]
fn status_report_rows() {
    let mut t = Table::new();
    t.insert("m1".to_string(), Status { name: "One".to_string(), is_online: true, last_seen: Some(5) });
    t.insert("m2".to_string(), Status { name: "m2".to_string(), is_online: false, last_seen: None });
    let rows = element_statuses(&t);
    assert_eq!(rows.len(), 2);
    assert_eq!(rows[0].id, "m1");
    assert_eq!(rows[0].name, "One");
    assert_eq!(rows[0].last_ping, Some(5));
    assert!(rows[0].is_online);
    assert!(!rows[1].is_online);
    assert_eq!(name_or_id(&None, &"id".to_string()), "id");
    assert_eq!(name_or_id(&Some("n".to_string()), &"id".to_string()), "n");
}

#[test]
fn api_endpoints_under_route() {
    let seg = |v: &[&str]| v.iter().map(|s| s.to_string()).collect::<Vec<String>>();
    assert_eq!(default_route(), "api/");
    let route = seg(&["api"]);
    assert_eq!(api_endpoint(&route, &seg(&["api", "all_stati"])), Some(ApiEndpoint::AllStati));
    assert_eq!(api_endpoint(&route, &seg(&["api", "all_statuses"])), Some(ApiEndpoint::AllStati));
    assert_eq!(api_endpoint(&route, &seg(&["api", "ws"])), Some(ApiEndpoint::Live));
    assert_eq!(api_endpoint(&route, &seg(&["api", "other"])), None);
    assert_eq!(api_endpoint(&route, &seg(&["web", "all_stati"])), None);
    assert_eq!(api_endpoint(&route, &seg(&["api", "ws", "x"])), None);
    assert_eq!(api_endpoint(&route, &seg(&[])), None);
    assert_eq!(api_endpoint(&seg(&[]), &seg(&["ws"])), Some(ApiEndpoint::Live));
}

#[test]
fn email_defaults() {
    let c = EmailConfig::default();
    assert_eq!(c.name, "No Reply");
    assert!(c.address.is_empty() && c.subscribers.is_empty() && c.behaviour.is_none());
}

#[test]
fn website_assets_by_path() {
    let seg = |v: &[&str]| v.iter().map(|s| s.to_string()).collect::<Vec<String>>();
    assert_eq!(default_static_dir(), "static/");
    assert_eq!(Asset::for_path(&seg(&[])), Some(Asset::Index));
    assert_eq!(Asset::for_path(&seg(&["index.html"])), Some(Asset::Index));
    assert_eq!(Asset::for_path(&seg(&["static", "index.html"])), Some(Asset::Index));
    assert_eq!(Asset::for_path(&seg(&["static", "style.css"])), Some(Asset::Style));
    assert_eq!(Asset::for_path(&seg(&["static", "wasm", "frontend.js"])), Some(Asset::FrontendJs));
    assert_eq!(Asset::for_path(&seg(&["static", "wasm", "frontend_bg.wasm"])), Some(Asset::FrontendWasm));
    assert_eq!(Asset::for_path(&seg(&["style.css"])), None);
    assert_eq!(Asset::for_path(&seg(&["static", "wasm"])), None);
    assert_eq!(Asset::FrontendWasm.file(), "wasm/frontend_bg.wasm");
    assert_eq!(Asset::FrontendWasm.content_type(), "application/wasm");
    assert_eq!(Asset::Index.file(), "index.html");
}

#[test]
fn email_subject_and_body() {
    let src = "miner".to_string();
    let n = note("Miner One", "m1", NotificationReason::WentOffline);
    assert_eq!(alert_subject(&src, &n), "miner `Miner One` went offline");
    assert_eq!(
        alert_body(&src, &n),
        "<h1> The miner <code>Miner One</code> just went offline.</h1>\n<p>Might need to do something</p>\n"
    );
    let o = note("W", "w", NotificationReason::Other("rebooted".to_string()));
    assert_eq!(alert_subject(&"server".to_string(), &o), "server `W` rebooted");
    assert!(alert_body(&"server".to_string(), &o).ends_with("<p>rebooted</p>\n"));
}
