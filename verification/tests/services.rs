use omnyssh::event::{AlertSeverity, MetricValue, ServiceKind, ServiceStatus};
use omnyssh::ssh::discovery::quick_scan_services;
use omnyssh::ssh::probe::ProbeOutput;
use omnyssh::ssh::services::docker::{parse_docker_output, DockerProvider};
use omnyssh::ssh::services::nginx::{parse_nginx_output, NginxProvider};
use omnyssh::ssh::services::nodejs::{parse_nodejs_output, NodeJSProvider};
use omnyssh::ssh::services::postgresql::{parse_pg_output, PostgreSQLProvider};
use omnyssh::ssh::services::redis::{parse_redis_output, RedisProvider};
use omnyssh::ssh::services::{alert, metric_int, metric_string, ServiceRegistry};

// ---- Docker ----

#[test]
fn test_docker_detect_from_probe() {
    let probe_output = "===OMNYSSH:DOCKER===\nabc123\tnginx\tUp 2 hours\tnginx:latest\n";
    let parsed = ProbeOutput::parse(probe_output).expect("should parse");
    let provider = DockerProvider;
    assert!(provider.detect(&parsed));
}

#[test]
fn test_docker_not_detected_when_absent() {
    let probe_output = "===OMNYSSH:OS===\nUbuntu\n";
    let parsed = ProbeOutput::parse(probe_output).expect("should parse");
    let provider = DockerProvider;
    assert!(!provider.detect(&parsed));
}

#[test]
fn test_parse_healthy_containers() {
    let output = r#"===CONTAINERS===
abc123	nginx-proxy	Up 2 hours	running	nginx:latest
def456	db-master	Up 5 days	running	postgres:15
===STATS===
===RESTARTS===
/nginx-proxy	0
/db-master	1
"#;
    let (metrics, alerts, status) = parse_docker_output(output);

    assert_eq!(metrics.len(), 4);
    assert!(alerts.is_empty());
    assert!(matches!(status, ServiceStatus::Healthy));

    let running_metric = metrics.iter().find(|m| m.name == "containers_running");
    assert!(running_metric.is_some());
}

#[test]
fn test_parse_restart_loop() {
    let output = r#"===CONTAINERS===
abc123	nginx-proxy	Restarting (5) About a minute ago	restarting	nginx:latest
===STATS===
===RESTARTS===
/nginx-proxy	5
"#;
    let (_metrics, alerts, status) = parse_docker_output(output);

    assert!(!alerts.is_empty());
    assert!(matches!(status, ServiceStatus::Critical(_)));

    let restart_alert = alerts.iter().find(|a| a.message.contains("restart loop"));
    assert!(restart_alert.is_some());
    assert_eq!(restart_alert.unwrap().severity, AlertSeverity::Critical);
}

#[test]
fn test_parse_exited_containers() {
    let output = r#"===CONTAINERS===
abc123	nginx-proxy	Exited (1) 5 minutes ago	exited	nginx:latest
def456	db-master	Up 2 days	running	postgres:15
===STATS===
===RESTARTS===
/nginx-proxy	0
/db-master	0
"#;
    let (metrics, alerts, status) = parse_docker_output(output);

    assert!(matches!(status, ServiceStatus::Degraded(_)));

    let stopped_metric = metrics.iter().find(|m| m.name == "containers_stopped");
    assert!(stopped_metric.is_some());

    assert!(alerts.iter().any(|a| a.severity == AlertSeverity::Warning));
}

#[test]
fn test_parse_permission_denied() {
    let output = "Got permission denied while trying to connect to the Docker daemon socket";
    let (metrics, _alerts, _status) = parse_docker_output(output);
    assert_eq!(metrics.len(), 4);
}

#[test]
fn docker_restart_loop_message_and_status() {
    let output = "===CONTAINERS===\n===RESTARTS===\n/web\t7\n";
    let (_m, alerts, status) = parse_docker_output(output);
    assert_eq!(alerts.len(), 1);
    assert_eq!(alerts[0].message, "Container web in restart loop (7 restarts)");
    assert_eq!(alerts[0].suggested_action.as_deref(), Some("docker logs web --tail 100"));
    match status {
        ServiceStatus::Critical(s) => assert_eq!(s, "web restarting"),
        _ => panic!("expected critical"),
    }
}

#[test]
fn docker_no_containers_is_unknown() {
    let (metrics, alerts, status) = parse_docker_output("");
    assert!(alerts.is_empty());
    assert!(matches!(status, ServiceStatus::Unknown));
    assert!(matches!(metrics[0].value, MetricValue::Integer(0)));
}

#[test]
fn docker_quick_metrics_counts_up() {
    let parsed = ProbeOutput::parse(
        "===OMNYSSH:DOCKER===\na\tweb\tUp 2 hours\tnginx\nb\tdb\tExited (0)\tpg\n",
    )
    .expect("parse");
    let m = DockerProvider.quick_metrics(&parsed);
    assert_eq!(m.len(), 2);
    assert!(matches!(m[0].value, MetricValue::Integer(2)));
    assert!(matches!(m[1].value, MetricValue::Integer(1)));
}

// ---- Nginx ----

#[test]
fn test_nginx_detect_from_process() {
    let probe = "===OMNYSSH:PROCESS===\nroot 1234 nginx: master process\n";
    let parsed = ProbeOutput::parse(probe).expect("should parse");
    assert!(NginxProvider.detect(&parsed));
}

#[test]
fn test_parse_nginx_healthy() {
    let output = "===NGINX_CONFIG===\nnginx: configuration file /etc/nginx/nginx.conf test is successful\n===NGINX_ERRORS===\n0\n";
    let (_metrics, alerts, status) = parse_nginx_output(output);
    assert!(alerts.is_empty());
    assert!(matches!(status, ServiceStatus::Healthy));
}

#[test]
fn test_parse_nginx_config_error() {
    let output =
        "===NGINX_CONFIG===\nnginx: configuration file test failed\n===NGINX_ERRORS===\n0\n";
    let (_metrics, alerts, status) = parse_nginx_output(output);
    assert!(!alerts.is_empty());
    assert!(matches!(status, ServiceStatus::Degraded(_)));
}

// ---- PostgreSQL ----

#[test]
fn test_pg_detect_from_systemd() {
    let probe = "===OMNYSSH:SERVICES===\npostgresql.service\nsshd.service\n";
    let parsed = ProbeOutput::parse(probe).expect("should parse");
    assert!(PostgreSQLProvider.detect(&parsed));
}

#[test]
fn test_pg_detect_from_port() {
    let probe = "===OMNYSSH:LISTEN===\n0.0.0.0:5432\tLISTEN\n";
    let parsed = ProbeOutput::parse(probe).expect("should parse");
    assert!(PostgreSQLProvider.detect(&parsed));
}

#[test]
fn test_parse_replication_healthy() {
    let output = "===PG_STATUS===\naccepting connections\n===PG_REPLICATION===\n192.168.1.10 | streaming | | | | 2\n===PG_LOCKS===\n0\n";
    let (_metrics, alerts, status) = parse_pg_output(output);
    assert!(alerts.is_empty());
    assert!(matches!(status, ServiceStatus::Healthy));
}

#[test]
fn test_parse_replication_lagging() {
    let output = "===PG_STATUS===\naccepting connections\n===PG_REPLICATION===\n192.168.1.10 | streaming | | | | 15\n===PG_LOCKS===\n0\n";
    let (metrics, alerts, status) = parse_pg_output(output);
    assert!(!alerts.is_empty());
    assert!(matches!(status, ServiceStatus::Critical(_)));

    let lag_metric = metrics.iter().find(|m| m.name == "replication_lag_seconds");
    assert!(lag_metric.is_some());
}

// ---- Redis ----

#[test]
fn test_redis_detect_from_port() {
    let probe = "===OMNYSSH:LISTEN===\n0.0.0.0:6379\tLISTEN\n";
    let parsed = ProbeOutput::parse(probe).expect("should parse");
    assert!(RedisProvider.detect(&parsed));
}

#[test]
fn test_redis_detect_from_process() {
    let probe = "===OMNYSSH:PROCESS===\nredis 1234 redis-server\n";
    let parsed = ProbeOutput::parse(probe).expect("should parse");
    assert!(RedisProvider.detect(&parsed));
}

#[test]
fn test_redis_not_detected() {
    let probe = "===OMNYSSH:SERVICES===\nsshd.service\n";
    let parsed = ProbeOutput::parse(probe).expect("should parse");
    assert!(!RedisProvider.detect(&parsed));
}

#[test]
fn test_parse_healthy_redis() {
    let output = r#"===REDIS_PING===
PONG
===REDIS_INFO===
used_memory:52428800
maxmemory:1073741824
evicted_keys:0
===REDIS_CLIENTS===
connected_clients:5
"#;
    let (metrics, alerts, status) = parse_redis_output(output);

    assert!(alerts.is_empty());
    assert!(matches!(status, ServiceStatus::Healthy));

    let mem_metric = metrics.iter().find(|m| m.name == "memory_used_mb");
    assert!(mem_metric.is_some());
}

#[test]
fn test_parse_redis_memory_critical() {
    let output = r#"===REDIS_PING===
PONG
===REDIS_INFO===
used_memory:1020054733
maxmemory:1073741824
evicted_keys:0
===REDIS_CLIENTS===
connected_clients:5
"#;
    let (_metrics, alerts, status) = parse_redis_output(output);

    assert!(!alerts.is_empty());
    assert!(matches!(status, ServiceStatus::Critical(_)));

    let critical_alert = alerts
        .iter()
        .find(|a| a.severity == AlertSeverity::Critical);
    assert!(critical_alert.is_some());
    assert!(critical_alert
        .unwrap()
        .message
        .contains("Memory usage critical"));
}

#[test]
fn test_parse_redis_not_responding() {
    let output = r#"===REDIS_PING===
ERROR
===REDIS_INFO===
===REDIS_CLIENTS===
"#;
    let (_metrics, alerts, status) = parse_redis_output(output);

    assert!(matches!(status, ServiceStatus::Critical(_)));
    let ping_alert = alerts.iter().find(|a| a.message.contains("not responding"));
    assert!(ping_alert.is_some());
}

#[test]
fn test_parse_redis_evictions() {
    let output = r#"===REDIS_PING===
PONG
===REDIS_INFO===
used_memory:52428800
maxmemory:1073741824
evicted_keys:500
===REDIS_CLIENTS===
connected_clients:5
"#;
    let (_metrics, alerts, status) = parse_redis_output(output);

    assert!(matches!(status, ServiceStatus::Degraded(_)));
    let evict_alert = alerts.iter().find(|a| a.message.contains("evicted"));
    assert!(evict_alert.is_some());
}

// ---- Node.js ----

#[test]
fn test_nodejs_detect_from_process() {
    let probe = "===OMNYSSH:PROCESS===\nuser 1234 /usr/bin/node server.js\n";
    let parsed = ProbeOutput::parse(probe).expect("should parse");
    assert!(NodeJSProvider.detect(&parsed));
}

#[test]
fn test_nodejs_not_detected() {
    let probe = "===OMNYSSH:SERVICES===\nsshd.service\n";
    let parsed = ProbeOutput::parse(probe).expect("should parse");
    assert!(!NodeJSProvider.detect(&parsed));
}

#[test]
fn test_parse_healthy_nodejs() {
    let output = r#"===NODE_PROCESSES===
user     1234  2.5  1.2 1234567 123456 ?  Ssl  10:00   0:05 /usr/bin/node server.js
===PM2_STATUS===
[{"name":"app1","status":"online","restart":2}]
"#;
    let (metrics, alerts, status) = parse_nodejs_output(output);

    assert!(alerts.is_empty());
    assert!(matches!(status, ServiceStatus::Healthy));

    let proc_metric = metrics.iter().find(|m| m.name == "node_processes");
    assert!(proc_metric.is_some());
}

#[test]
fn test_parse_nodejs_high_cpu() {
    let output = r#"===NODE_PROCESSES===
user     1234  95.5  1.2 1234567 123456 ?  Rsl  10:00   0:05 /usr/bin/node server.js
===PM2_STATUS===
[]
"#;
    let (_metrics, alerts, status) = parse_nodejs_output(output);

    assert!(!alerts.is_empty());
    assert!(matches!(status, ServiceStatus::Critical(_)));

    let cpu_alert = alerts.iter().find(|a| a.message.contains("CPU"));
    assert!(cpu_alert.is_some());
}

#[test]
fn test_parse_pm2_errored() {
    let output = r#"===NODE_PROCESSES===
===PM2_STATUS===
[{"name":"app1","status":"errored","restart":5}]
"#;
    let (_metrics, alerts, status) = parse_nodejs_output(output);

    assert!(matches!(status, ServiceStatus::Critical(_)));

    let errored_alert = alerts.iter().find(|a| a.message.contains("errored"));
    assert!(errored_alert.is_some());
}

#[test]
fn test_parse_pm2_high_restarts() {
    let output = r#"===NODE_PROCESSES===
===PM2_STATUS===
[{"name":"app1","status":"online","restart":25}]
"#;
    let (_metrics, alerts, status) = parse_nodejs_output(output);

    assert!(matches!(status, ServiceStatus::Degraded(_)));

    let restart_alert = alerts.iter().find(|a| a.message.contains("restarted"));
    assert!(restart_alert.is_some());
}

#[test]
fn nodejs_percentages_compared_exactly() {
    // 90.0 is not above 90; 90.01 is. 50.5 memory is above 50.
    let output = "===NODE_PROCESSES===\nu 1 90.0 10 x\nu 2 90.01 50.5 x\nu 3 abc 1 x\n";
    let (metrics, alerts, status) = parse_nodejs_output(output);
    assert!(matches!(metrics[0].value, MetricValue::Integer(2)));
    assert_eq!(alerts.len(), 2);
    assert_eq!(alerts[0].message, "1 Node process(es) with >90% CPU");
    assert_eq!(alerts[1].message, "1 Node process(es) with >50% memory");
    assert_eq!(alerts[1].severity, AlertSeverity::Warning);
    match status {
        ServiceStatus::Critical(s) => assert_eq!(s, "high CPU"),
        _ => panic!("expected critical"),
    }
}

#[test]
fn nodejs_max_restarts_and_messages() {
    let output = "===PM2_STATUS===\n{\"status\":\"stopped\",\"restart\":12}\n{\"restart\": 40 }\n";
    let (metrics, alerts, status) = parse_nodejs_output(output);
    assert_eq!(metrics.len(), 4);
    assert_eq!(metrics[3].name, "max_pm2_restarts");
    assert!(matches!(metrics[3].value, MetricValue::Integer(40)));
    assert_eq!(alerts[0].message, "1 PM2 app(s) in errored state");
    assert_eq!(alerts[1].message, "PM2 app restarted 40 times (high)");
    match status {
        ServiceStatus::Critical(s) => assert_eq!(s, "PM2 apps errored"),
        _ => panic!("expected critical"),
    }
}

#[test]
fn nodejs_nothing_seen_is_unknown() {
    let (_m, alerts, status) = parse_nodejs_output("");
    assert!(alerts.is_empty());
    assert!(matches!(status, ServiceStatus::Unknown));
}

// ---- Registry and helpers ----

#[test]
fn registry_detects_in_order() {
    let parsed = ProbeOutput::parse(
        "===OMNYSSH:PROCESS===\nnode app.js\nredis-server\n===OMNYSSH:DOCKER===\nx\n",
    )
    .expect("parse");
    let registry = ServiceRegistry::new();
    assert_eq!(
        registry.detect_services(&parsed),
        vec![ServiceKind::Docker, ServiceKind::Redis, ServiceKind::NodeJS]
    );
    assert_eq!(registry.get_provider(&ServiceKind::Nginx), Some(ServiceKind::Nginx));
}

#[test]
fn quick_scan_reports_detected_services() {
    let parsed =
        ProbeOutput::parse("===OMNYSSH:DOCKER===\na\tweb\tUp 1 hour\tx\n").expect("parse");
    let services = quick_scan_services(&ServiceRegistry::new(), &parsed);
    assert_eq!(services.len(), 1);
    assert_eq!(services[0].kind, ServiceKind::Docker);
    assert!(matches!(services[0].status, ServiceStatus::Unknown));
    assert_eq!(services[0].metrics.len(), 2);
}

#[test]
fn metric_and_alert_helpers() {
    let m = metric_int("count", 42, "");
    assert_eq!(m.name, "count");
    assert!(matches!(m.value, MetricValue::Integer(42)));
    let s = metric_string("status", "healthy");
    assert!(matches!(s.value, MetricValue::String(ref v) if v == "healthy"));
    assert_eq!(s.unit, "");
    let a = alert(AlertSeverity::Info, ServiceKind::Redis, "m".to_string(), None);
    assert_eq!(a.message, "m");
    assert_eq!(a.service, ServiceKind::Redis);
}

#[test]
fn test_registry_creation() {
    let registry = ServiceRegistry::new();
    assert_eq!(registry.providers.len(), 5);
}

#[test]
fn test_registry_get_provider() {
    let registry = ServiceRegistry::new();
    assert!(registry.get_provider(&ServiceKind::Docker).is_some());
    assert!(registry.get_provider(&ServiceKind::Nginx).is_some());
    assert!(registry.get_provider(&ServiceKind::PostgreSQL).is_some());
    assert!(registry.get_provider(&ServiceKind::Redis).is_some());
    assert!(registry.get_provider(&ServiceKind::NodeJS).is_some());
}

#[test]
fn test_metric_helpers() {
    let m_int = metric_int("count", 42, "");
    assert_eq!(m_int.name, "count");
    assert!(matches!(m_int.value, MetricValue::Integer(42)));

    let m_string = metric_string("status", "healthy");
    assert!(matches!(m_string.value, MetricValue::String(_)));
}

#[test]
fn nodejs_exponent_inf_and_nan_fields_are_numbers() {
    let output = "===NODE_PROCESSES===\nu 1 1e2 10 x\nu 2 NaN 1 x\nu 3 inf 1 x\nu 4 abc 1 x\n";
    let (metrics, alerts, status) = parse_nodejs_output(output);
    assert!(matches!(metrics[0].value, MetricValue::Integer(3)));
    assert_eq!(alerts[0].message, "2 Node process(es) with >90% CPU");
    match status {
        ServiceStatus::Critical(s) => assert_eq!(s, "high CPU"),
        _ => panic!("expected critical"),
    }
    let (_m, alerts, status) = parse_nodejs_output("===NODE_PROCESSES===\nu 1 inf 0\n");
    assert_eq!(alerts.len(), 1);
    assert!(matches!(status, ServiceStatus::Critical(_)));
}

#[test]
fn nginx_is_never_critical() {
    let output = "===NGINX_CONFIG===\nnginx: [emerg] error\n===NGINX_ERRORS===\n25\n";
    let (metrics, alerts, status) = parse_nginx_output(output);
    assert!(matches!(metrics[0].value, MetricValue::Integer(25)));
    assert_eq!(alerts.len(), 2);
    assert_eq!(alerts[0].severity, AlertSeverity::Warning);
    assert_eq!(alerts[1].severity, AlertSeverity::Critical);
    assert_eq!(alerts[1].message, "25 502/504 errors in recent logs");
    match status {
        ServiceStatus::Degraded(s) => assert_eq!(s, "errors detected"),
        _ => panic!("expected degraded"),
    }
    let (_m, none, healthy) = parse_nginx_output("");
    assert!(none.is_empty());
    assert!(matches!(healthy, ServiceStatus::Healthy));
}

#[test]
fn redis_without_pong_is_critical_not_unknown() {
    let (_m, alerts, status) = parse_redis_output("");
    assert_eq!(alerts[0].severity, AlertSeverity::Critical);
    assert!(matches!(status, ServiceStatus::Critical(_)));
}

#[test]
fn pg_waiting_locks_degrade_without_alert_up_to_five() {
    let output = "===PG_STATUS===\n/var/run/postgresql:5432 - accepting connections\n===PG_LOCKS===\n 3\n";
    let (_m, alerts, status) = parse_pg_output(output);
    assert!(alerts.is_empty());
    match status {
        ServiceStatus::Degraded(s) => assert_eq!(s, "3 waiting locks"),
        _ => panic!("expected degraded"),
    }
    let (_m, alerts, status) = parse_pg_output("===PG_STATUS===\nno response\n");
    assert_eq!(alerts.len(), 1);
    assert!(matches!(status, ServiceStatus::Critical(_)));
}
