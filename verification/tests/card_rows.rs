use omnyssh::event::{AlertSeverity, DetectedService, ServiceKind, ServiceMetric, ServiceStatus};
use omnyssh::ssh::client::ConnectionStatus;
use omnyssh::ssh::services::{alert, metric_int};
use omnyssh::ui::card::{
    card_address, card_alert_lines, card_alert_rows, card_offline, card_separator,
    card_service_lines, card_tags, card_title, status_dot,
};

fn service(kind: ServiceKind, metrics: Vec<ServiceMetric>) -> DetectedService {
    DetectedService {
        kind,
        version: None,
        status: ServiceStatus::Unknown,
        metrics,
        alerts: Vec::new(),
        suggested_snippets: Vec::new(),
    }
}

#[test]
fn title_address_and_dot() {
    assert_eq!(card_title("web-prod-1", 40), " web-prod-1 ");
    assert_eq!(card_title("a-very-long-host-name", 12), " a-ver… ");
    let (addr, up) = card_address("192.168.1.10", "deploy", 2222, 20);
    assert_eq!(up, "deploy:2222");
    assert_eq!(addr, "192.168…");
    assert_eq!(status_dot(Some(&ConnectionStatus::Connected)), "●");
    assert_eq!(status_dot(None), "?");
    assert_eq!(status_dot(Some(&ConnectionStatus::Failed("x".to_string()))), "✗");
}

#[test]
fn offline_only_without_metrics_and_connection() {
    assert!(card_offline(None, false));
    assert!(card_offline(Some(&ConnectionStatus::Unknown), false));
    assert!(!card_offline(Some(&ConnectionStatus::Connected), false));
    assert!(!card_offline(None, true));
}

#[test]
fn service_lines_skip_empty_summaries_and_stop_at_two() {
    let services = vec![
        service(ServiceKind::Docker, vec![]),
        service(ServiceKind::Redis, vec![metric_int("memory_used_mb", 50, "MB")]),
        service(ServiceKind::NodeJS, vec![]),
    ];
    assert_eq!(card_service_lines(&services, 40), vec!["📦 Redis: 50MB used".to_string()]);
    let narrow = card_service_lines(&services, 8);
    assert_eq!(narrow, vec!["📦 Redi…".to_string()]);
}

#[test]
fn alert_lines_put_critical_first() {
    let alerts = vec![
        alert(AlertSeverity::Info, ServiceKind::Docker, "info".to_string(), None),
        alert(AlertSeverity::Warning, ServiceKind::Docker, "warn".to_string(), None),
        alert(AlertSeverity::Critical, ServiceKind::Redis, "down and out".to_string(), None),
        alert(AlertSeverity::Critical, ServiceKind::Nginx, "second".to_string(), None),
    ];
    let lines = card_alert_lines(&alerts, 10);
    assert_eq!(
        lines,
        vec![
            (AlertSeverity::Critical, "down a…".to_string()),
            (AlertSeverity::Critical, "second".to_string()),
        ]
    );
    assert_eq!(card_alert_lines(&alerts[..2].to_vec(), 40).len(), 2);
    assert_eq!(card_alert_lines(&alerts[..2].to_vec(), 40)[0].1, "warn");
}

#[test]
fn rows_tags_and_separator() {
    assert_eq!(card_alert_rows(0, 5), 3);
    assert_eq!(card_alert_rows(2, 2), 1);
    assert_eq!(card_alert_rows(3, 2), 0);
    assert_eq!(card_tags(&vec!["prod".to_string(), "web".to_string()]), "[prod] [web] ");
    assert_eq!(card_tags(&vec![]), "");
    assert_eq!(card_separator(3), "───");
}
