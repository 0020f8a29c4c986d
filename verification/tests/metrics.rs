use omnyssh::ssh::metrics::{parse_loadavg, parse_uptime};
use omnyssh::ssh::pool::BackoffState;

#[test]
fn test_uptime_linux_days() {
    let out = " 14:23:45 up 2 days,  3:45,  2 users,  load average: 0.15, 0.10, 0.08";
    let result = parse_uptime(out).expect("should parse");
    assert_eq!(result, "2 days", "expected '2 days' only, got: {result}");
}

#[test]
fn test_uptime_linux_hours() {
    let out = " 10:00:00 up  3:45,  1 user,  load average: 0.00, 0.01, 0.05";
    let result = parse_uptime(out).expect("should parse");
    assert!(result.contains("3:45"), "missing '3:45': {result}");
}

#[test]
fn test_uptime_empty_returns_none() {
    assert!(parse_uptime("").is_none());
}

#[test]
fn test_loadavg() {
    let out = "0.15 0.10 0.08 1/423 12345\n";
    let result = parse_loadavg(out).expect("should parse");
    assert_eq!(result, "0.15 0.10 0.08");
}

#[test]
fn uptime_linux_days_and_hours() {
    let out = " 14:23:45 up 2 days,  3:45,  2 users,  load average: 0.15, 0.10, 0.08";
    let result = parse_uptime(out).expect("parse linux uptime");
    assert_eq!(result, "2 days", "got: {result}");
}

#[test]
fn uptime_linux_hours_only() {
    let out = " 10:00:00 up  3:45,  1 user,  load average: 0.00, 0.01, 0.05";
    let result = parse_uptime(out).expect("parse linux uptime hours");
    assert!(result.contains("3:45"), "got: {result}");
}

#[test]
fn uptime_empty_returns_none() {
    assert!(parse_uptime("").is_none());
}

#[test]
fn loadavg_linux() {
    let out = "0.15 0.10 0.08 1/423 12345\n";
    let result = parse_loadavg(out).expect("parse loadavg");
    assert_eq!(result, "0.15 0.10 0.08");
}

#[test]
fn loadavg_empty_returns_none() {
    assert!(parse_loadavg("").is_none());
}

#[test]
fn uptime_exact_values() {
    assert_eq!(
        parse_uptime(" 10:00:00 up  3:45,  1 user,  load average: 0.00").as_deref(),
        Some("3:45")
    );
    assert_eq!(
        parse_uptime("10:00 up 1 day,  2:03,  3 users").as_deref(),
        Some("1 day")
    );
    assert_eq!(parse_uptime("10:00 UP 5 min,  1 user").as_deref(), Some("5 min"));
    assert_eq!(parse_uptime("no marker here"), None);
    assert_eq!(parse_uptime("x up 4 days").as_deref(), Some("4 days"));
}

#[test]
fn loadavg_too_few_fields() {
    assert_eq!(parse_loadavg("0.1 0.2\n"), None);
    assert_eq!(parse_loadavg("  1  2   3\n"), Some("1 2 3".to_string()));
}

#[test]
fn backoff_schedule_and_reset() {
    let mut b = BackoffState::new();
    let delays: Vec<u64> = (0..6).map(|_| b.next_delay()).collect();
    assert_eq!(delays, vec![30, 60, 120, 300, 300, 300]);
    b.reset();
    assert_eq!(b.next_delay(), 30);
    assert_eq!(b.next_delay(), 60);
}

use omnyssh::ssh::pool::{PollAction, PollOutcome, PollerState};

#[test]
fn poller_connects_discovers_then_polls() {
    let mut p = PollerState::new();
    let mut a = PollAction::Connect;
    a = p.next(a, PollOutcome::Succeeded);
    assert_eq!(a, PollAction::Discover);
    a = p.next(a, PollOutcome::Succeeded);
    assert_eq!(a, PollAction::CollectMetrics);
    a = p.next(a, PollOutcome::Succeeded);
    assert_eq!(a, PollAction::WaitInterval);
    a = p.next(a, PollOutcome::Succeeded);
    assert_eq!(a, PollAction::CollectMetrics);
    a = p.next(a, PollOutcome::Closed);
    assert_eq!(a, PollAction::Stop);
}

#[test]
fn poller_backs_off_and_resets() {
    let mut p = PollerState::new();
    let mut a = PollAction::Connect;
    let mut waits = Vec::new();
    for _ in 0..5 {
        a = p.next(a, PollOutcome::Failed);
        if let PollAction::WaitBackoff(d) = a {
            waits.push(d);
        }
        a = p.next(a, PollOutcome::Succeeded);
        assert_eq!(a, PollAction::Connect);
    }
    assert_eq!(waits, vec![30, 60, 120, 300, 300]);
    a = p.next(a, PollOutcome::Succeeded);
    assert_eq!(a, PollAction::Discover);
    a = p.next(a, PollOutcome::Succeeded);
    a = p.next(a, PollOutcome::Failed);
    assert_eq!(a, PollAction::WaitBackoff(30));
    a = p.next(a, PollOutcome::Succeeded);
    assert_eq!(a, PollAction::Connect);
}

use omnyssh::ssh::metrics::{
    cpu_macos_idle_text, cpu_proc_stat_counters, cpu_top_idle_candidates, disk_df_use_text,
    ram_free_fields,
};

#[test]
fn top_idle_texts() {
    assert_eq!(
        cpu_top_idle_candidates(
            "%Cpu(s):  2.3 us,  0.7 sy,  0.0 ni, 96.7 id,  0.3 wa,  0.0 hi,  0.0 si,  0.0 st"
        ),
        vec!["96.7"]
    );
    assert_eq!(
        cpu_top_idle_candidates(
            "Cpu(s):  2.3%us,  0.7%sy,  0.0%ni, 96.7%id,  0.3%wa,  0.0%hi,  0.0%si,  0.0%st"
        ),
        vec!["96.7"]
    );
    assert_eq!(
        cpu_top_idle_candidates(
            "CPU:   4% usr   1% sys   0% nic  94% idle   0% io   0% irq   1% sirq"
        ),
        vec!["94"]
    );
    assert!(cpu_top_idle_candidates("").is_empty());
    assert!(cpu_top_idle_candidates("no cpu info here").is_empty());
    assert!(cpu_top_idle_candidates("%Cpu(s):  2.3 us,  0.7 sy").is_empty());
}

#[test]
fn macos_idle_text() {
    assert_eq!(
        cpu_macos_idle_text("CPU usage: 3.17% user, 1.56% sys, 95.26% idle").as_deref(),
        Some("95.26")
    );
    let full = "Processes: 412 total, 2 running\nLoad Avg: 1.52, 1.74, 1.89\nCPU usage: 5.71% user, 2.57% sys, 91.71% idle\nSharedLibs: 438M resident";
    assert_eq!(cpu_macos_idle_text(full).as_deref(), Some("91.71"));
    assert_eq!(cpu_macos_idle_text(""), None);
}

#[test]
fn proc_stat_counters() {
    assert_eq!(
        cpu_proc_stat_counters("cpu  74608 2520 24433 1117073 6176 4054 0 0 0 0"),
        Some(vec![74608, 2520, 24433, 1117073, 6176, 4054, 0, 0, 0, 0])
    );
    assert_eq!(cpu_proc_stat_counters("cpu 1 2 x 3"), None);
    assert_eq!(cpu_proc_stat_counters("intr 1 2 3 4"), None);
    assert_eq!(cpu_proc_stat_counters(""), None);
}

#[test]
fn free_fields() {
    let modern = "              total        used        free      shared  buff/cache   available\n\
                  Mem:    8192000000  3145728000   512000000   134217728  4534272000  4915200000\n\
                  Swap:   2147483648           0  2147483648";
    assert_eq!(
        ram_free_fields(modern),
        Some(("8192000000".to_string(), "4915200000".to_string()))
    );
    let busybox = "              total        used        free\n\
                   Mem:       1018736      524288      494448";
    assert_eq!(
        ram_free_fields(busybox),
        Some(("1018736".to_string(), "494448".to_string()))
    );
    assert_eq!(ram_free_fields(""), None);
    assert_eq!(ram_free_fields("only the header line\n"), None);
}

#[test]
fn df_use_texts() {
    let linux = "Filesystem     1K-blocks    Used Available Use% Mounted on\n\
                 /dev/sda1       51475068 9000000  39841436  19% /";
    assert_eq!(disk_df_use_text(linux).as_deref(), Some("19"));
    let macos = "Filesystem   1024-blocks      Used Available Capacity iused ifree %iused  Mounted on\n\
                 /dev/disk3s5   994662584 516879368 400765064    57% 5488234 4293478045    0%   /";
    assert_eq!(disk_df_use_text(macos).as_deref(), Some("57"));
    assert_eq!(disk_df_use_text(""), None);
    assert_eq!(
        disk_df_use_text("Filesystem 1K-blocks Used Available Use% Mounted on\n"),
        None
    );
}
