use omnyssh::ssh::probe::{generate_quick_scan_script, ProbeOutput};

#[test]
fn test_parse_probe_empty_output() {
    let result = ProbeOutput::parse("").expect("should parse empty");
    assert_eq!(result.section_names().len(), 0);
}

#[test]
fn test_parse_probe_garbage_output() {
    let result = ProbeOutput::parse("random\ngarbage\ntext").expect("should parse garbage");
    assert_eq!(result.section_names().len(), 0);
}

#[test]
fn test_parse_probe_single_section() {
    let output = "===OMNYSSH:OS===\nUbuntu 22.04 LTS\n===OMNYSSH:SERVICES===\nsshd.service\n";
    let result = ProbeOutput::parse(output).expect("should parse");
    assert!(result.has_section("OS"));
    assert!(result.has_section("SERVICES"));
    assert_eq!(result.get_section("OS"), Some("Ubuntu 22.04 LTS"));
    assert_eq!(result.get_section("SERVICES"), Some("sshd.service"));
}

#[test]
fn test_parse_probe_multiple_sections() {
    let output = r#"===OMNYSSH:OS===
NAME="Ubuntu"
VERSION="22.04 LTS"
===OMNYSSH:DOCKER===
abc123	nginx-proxy	Up 2 hours	nginx:latest
def456	db-master	Up 5 days	postgres:15
===OMNYSSH:LISTEN===
0.0.0.0:22	LISTEN
0.0.0.0:80	LISTEN
"#;
    let result = ProbeOutput::parse(output).expect("should parse");
    assert!(result.has_section("OS"));
    assert!(result.has_section("DOCKER"));
    assert!(result.has_section("LISTEN"));

    let docker_section = result
        .get_section("DOCKER")
        .expect("docker section should exist");
    assert!(docker_section.contains("nginx-proxy"));
    assert!(docker_section.contains("postgres:15"));
}

#[test]
fn test_parse_probe_with_empty_sections() {
    let output =
        "===OMNYSSH:OS===\nUbuntu\n===OMNYSSH:DOCKER===\n===OMNYSSH:SERVICES===\nsshd.service\n";
    let result = ProbeOutput::parse(output).expect("should parse");
    assert!(result.has_section("OS"));
    assert!(!result.has_section("DOCKER"));
    assert!(result.has_section("SERVICES"));
}

#[test]
fn test_generate_quick_scan_script() {
    let script = generate_quick_scan_script();
    assert!(script.contains("===OMNYSSH:OS==="));
    assert!(script.contains("===OMNYSSH:SERVICES==="));
    assert!(script.contains("===OMNYSSH:DOCKER==="));
    assert!(script.contains("===OMNYSSH:LISTEN==="));
    assert!(script.contains("===OMNYSSH:PROCESS==="));
    assert!(script.contains("/etc/os-release"));
    assert!(script.contains("systemctl list-units"));
    assert!(script.contains("docker ps"));
}

#[test]
fn test_section_names() {
    let output = "===OMNYSSH:OS===\ndata\n===OMNYSSH:DOCKER===\nmore data\n";
    let result = ProbeOutput::parse(output).expect("should parse");
    let names = result.section_names();
    assert_eq!(names.len(), 2);
    assert!(names.contains(&"OS"));
    assert!(names.contains(&"DOCKER"));
}

#[test]
fn test_quick_scan_script_generation() {
    let script = generate_quick_scan_script();
    assert!(script.contains("===OMNYSSH:OS==="));
    assert!(script.contains("===OMNYSSH:DOCKER==="));
    assert!(script.contains("===OMNYSSH:SERVICES==="));
}

#[test]
fn text_before_first_marker_is_ignored() {
    let result = ProbeOutput::parse("noise\n===OMNYSSH:OS===\nDebian\n").expect("parse");
    assert_eq!(result.section_names(), vec!["OS"]);
    assert_eq!(result.get_section("OS"), Some("Debian"));
}

#[test]
fn missing_section_lookup() {
    let result = ProbeOutput::parse("===OMNYSSH:OS===\nDebian\n").expect("parse");
    assert_eq!(result.get_section("DOCKER"), None);
    assert!(!result.has_section("DOCKER"));
}

#[test]
fn os_info_prefers_pretty_name() {
    let out = "===OMNYSSH:OS===\nNAME=\"Ubuntu\"\nVERSION=\"22.04 LTS\"\nPRETTY_NAME=\"Ubuntu 22.04.3 LTS\"\n";
    let result = ProbeOutput::parse(out).expect("parse");
    assert_eq!(result.parse_os_info().as_deref(), Some("Ubuntu 22.04.3 LTS"));
    let out2 = "===OMNYSSH:OS===\nNAME=\"Ubuntu\"\nVERSION=\"22.04 LTS\"\n";
    let result2 = ProbeOutput::parse(out2).expect("parse");
    assert_eq!(result2.parse_os_info().as_deref(), Some("Ubuntu 22.04 LTS"));
    let result3 = ProbeOutput::parse("===OMNYSSH:DOCKER===\nx\n").expect("parse");
    assert_eq!(result3.parse_os_info(), None);
}

#[test]
fn section_text_reads_back_trimmed() {
    let output = "===OMNYSSH:A===\n old\n===OMNYSSH:B===\n  line one\nline two  \n\n===OMNYSSH:A===\nnew\n";
    let parsed = ProbeOutput::parse(output).expect("should parse");
    assert_eq!(parsed.get_section("B"), Some("line one\nline two"));
    // A name written twice keeps its last text.
    assert_eq!(parsed.get_section("A"), Some("new"));
}
