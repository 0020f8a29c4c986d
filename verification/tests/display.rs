use omnyssh::event::{DetectedService, MetricValue, ServiceKind, ServiceMetric, ServiceStatus};
use omnyssh::ssh::services::metric_int;
use omnyssh::ui::card::{service_info, service_name_short, truncate, CARD_MIN_WIDTH};
use omnyssh::ui::dashboard::{compute_card_width, compute_columns};
use omnyssh::ui::detail_view::{service_hotkey, service_name_display, service_status_display};
use omnyssh::ui::host_list;

fn service(kind: ServiceKind, metrics: Vec<ServiceMetric>) -> DetectedService {
    DetectedService {
        kind,
        version: None,
        status: ServiceStatus::Unknown,
        metrics,
        alerts: Vec::new(),
        suggested_snippets: Vec::new(),
    }
}

#[test]
fn card_truncate_adds_ellipsis() {
    assert_eq!(truncate("hello", 0), "");
    assert_eq!(truncate("hello", 5), "hello");
    assert_eq!(truncate("hello", 9), "hello");
    assert_eq!(truncate("hello world", 5), "hell…");
    assert_eq!(truncate("ééééé", 3).chars().count(), 3);
}

#[test]
fn host_list_truncate_cuts() {
    assert_eq!(host_list::truncate("hello", 3), "hel");
    assert_eq!(host_list::truncate("hi", 3), "hi");
    assert_eq!(host_list::truncate("héllo", 2), "hé");
}

#[test]
fn grid_columns_and_widths() {
    assert_eq!(compute_columns(0), 1);
    assert_eq!(compute_columns(CARD_MIN_WIDTH), 1);
    assert_eq!(compute_columns(69), 2);
    assert_eq!(compute_columns(68), 1);
    assert_eq!(compute_columns(120), 3);
    assert_eq!(compute_card_width(120, 3), 39);
    assert_eq!(compute_card_width(50, 0), 50);
    assert_eq!(compute_card_width(1, 3), 0);
}

#[test]
fn service_names_and_hotkeys() {
    assert_eq!(service_name_short(&ServiceKind::PostgreSQL), "PG");
    assert_eq!(service_name_short(&ServiceKind::NodeJS), "Node");
    assert_eq!(service_name_display(&ServiceKind::NodeJS), "Node.js");
    assert_eq!(service_hotkey(&ServiceKind::Docker), "[4]");
    assert_eq!(service_hotkey(&ServiceKind::NodeJS), "[8]");
}

#[test]
fn service_info_summaries() {
    assert_eq!(service_info(&service(ServiceKind::Docker, vec![])), "");
    let docker = service(
        ServiceKind::Docker,
        vec![
            metric_int("containers_running", 4, ""),
            metric_int("containers_stopped", 0, ""),
            metric_int("containers_restarting", 1, ""),
        ],
    );
    assert_eq!(service_info(&docker), "4 running, 1 restarting");
    let empty = service(ServiceKind::Docker, vec![metric_int("containers_total", 0, "")]);
    assert_eq!(service_info(&empty), "no containers");
    let pg = service(
        ServiceKind::PostgreSQL,
        vec![metric_int("replication_lag_seconds", 0, ""), metric_int("replication_lag_seconds", 3, "s")],
    );
    assert_eq!(service_info(&pg), "repl lag 3s");
    assert_eq!(service_info(&service(ServiceKind::Nginx, vec![])), "ok");
    let quiet = service(ServiceKind::Nginx, vec![metric_int("recent_502_504_errors", 0, "")]);
    assert_eq!(service_info(&quiet), "0 errors/5min");
    let busy = service(ServiceKind::Nginx, vec![metric_int("recent_502_504_errors", 12, "")]);
    assert_eq!(service_info(&busy), "12 errors/5min");
    let redis = service(ServiceKind::Redis, vec![metric_int("memory_used_mb", 50, "MB")]);
    assert_eq!(service_info(&redis), "50MB used");
    assert_eq!(service_info(&service(ServiceKind::NodeJS, vec![])), "no processes");
}

#[test]
fn status_lines() {
    let docker = service(
        ServiceKind::Docker,
        vec![metric_int("containers_running", 8, ""), metric_int("containers_stopped", 1, "")],
    );
    assert_eq!(service_status_display(&docker), "8 running, 1 stopped");
    assert_eq!(
        service_status_display(&service(ServiceKind::Docker, vec![])),
        "0 containers running"
    );
    let nginx = service(ServiceKind::Nginx, vec![metric_int("recent_502_504_errors", 0, "")]);
    assert_eq!(service_status_display(&nginx), "active, 0 errors/5min");
    let nginx2 = service(ServiceKind::Nginx, vec![metric_int("recent_502_504_errors", 7, "")]);
    assert_eq!(service_status_display(&nginx2), "active, 7 errors/5min");
    assert_eq!(
        service_status_display(&service(ServiceKind::PostgreSQL, vec![])),
        "active, no replication lag"
    );
    let redis = service(ServiceKind::Redis, vec![metric_int("memory_used_mb", 12, "")]);
    assert_eq!(service_status_display(&redis), "active, 12MB mem");
    let node = service(ServiceKind::NodeJS, vec![metric_int("node_processes", 2, "")]);
    assert_eq!(service_status_display(&node), "2 process(es) running");
    let text = ServiceMetric {
        name: "node_processes".to_string(),
        value: MetricValue::String("x".to_string()),
        unit: String::new(),
        threshold: None,
    };
    assert_eq!(service_status_display(&service(ServiceKind::NodeJS, vec![text])), "no processes");
}
