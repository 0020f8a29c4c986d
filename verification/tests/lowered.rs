use omnyssh::config::ssh_config::{apply_directive_in, block_keyword, BlockKeyword};
use omnyssh::ssh::client::{Host, HostSource};
use omnyssh::ssh::metrics::{idle_ending, idle_label, macos_cpu_line, procps_header, uptime_in_line};
use omnyssh::ssh::services::docker::container_flags;

fn chars(s: &str) -> Vec<char> {
    s.chars().collect()
}

#[test]
fn uptime_is_cut_from_the_original_line() {
    let line = chars(" 14:23 UP 5 days,  2 users");
    let lower = chars(" 14:23 up 5 days,  2 users");
    assert_eq!(uptime_in_line(&line, &lower), Some("5 days".to_string()));
    assert_eq!(uptime_in_line(&line, &line), None);
}

#[test]
fn cpu_lines_recognised_after_lowering() {
    assert!(procps_header(&chars("%cpu(s):  2.0 us")));
    assert!(procps_header(&chars("cpu(s): 1.0 us")));
    assert!(!procps_header(&chars("%CPU(s): 2.0 us")));
    assert!(idle_label(&chars("id")));
    assert!(idle_label(&chars("id, 0.0 wa")));
    assert!(!idle_label(&chars("ide")));
    assert!(idle_ending(&chars("95.26% idle")));
    assert!(!idle_ending(&chars("95.26% IDLE")));
    assert!(macos_cpu_line(&chars("cpu usage: 3.17% user")));
}

#[test]
fn container_flags_read_lowered_fields() {
    let f = container_flags(&chars("exited"), &chars("exited (0) 2 hours ago"));
    assert!(f.exited && f.exited_cleanly && !f.running && !f.restarting);
    let g = container_flags(&chars("running"), &chars("restarting (1) 3 seconds ago"));
    assert!(g.running && g.restarting && !g.exited);
    assert!(!container_flags(&chars("Running"), &chars("")).running);
}

#[test]
fn config_keywords_after_lowering() {
    assert_eq!(block_keyword(&chars("host")), BlockKeyword::Host);
    assert_eq!(block_keyword(&chars("include")), BlockKeyword::Include);
    assert_eq!(block_keyword(&chars("Host")), BlockKeyword::Directive);
    let h = Host::named("a".to_string(), HostSource::SshConfig);
    let h = apply_directive_in(h, &chars("port"), &chars("2222"), &None);
    assert_eq!(h.port, 2222);
    let h = apply_directive_in(h, &chars("identityfile"), &chars("~/k"), &Some("/h".to_string()));
    assert_eq!(h.identity_file.as_deref(), Some("/h/k"));
    let h = apply_directive_in(h, &chars("Port"), &chars("1"), &None);
    assert_eq!(h.port, 2222);
}
