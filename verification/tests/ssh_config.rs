use omnyssh::config::ssh_config::{
    assemble_hosts, expand_tilde, expand_tilde_under, glob_matches, include_depth_ok,
    narrow_separators_in, parse_config_entries, parse_ssh_config, parse_ssh_config_with,
    split_glob, ConfigEntry,
};
use omnyssh::ssh::client::{Host, HostSource};

#[test]
fn test_empty_input() {
    assert!(parse_ssh_config("", "").is_empty());
    assert!(parse_ssh_config("   \n  \n", "").is_empty());
}

#[test]
fn test_comments_only() {
    let cfg = "# This is a comment\n# Another comment\n";
    assert!(parse_ssh_config(cfg, "").is_empty());
}

#[test]
fn test_hostname_fallback_to_name() {
    let cfg = "\
Host myalias
    User admin
";
    let hosts = parse_ssh_config(cfg, "");
    assert_eq!(hosts.len(), 1);
    assert_eq!(hosts[0].hostname, "myalias");
}

#[test]
fn test_full_config_all_fields() {
    let cfg = "\
Host web-prod-1
    HostName 192.168.1.10
    User deploy
    Port 2222
    IdentityFile ~/.ssh/id_ed25519
    ProxyJump bastion
";
    let hosts = parse_ssh_config(cfg, "");
    assert_eq!(hosts.len(), 1);
    let h = &hosts[0];
    assert_eq!(h.name, "web-prod-1");
    assert_eq!(h.hostname, "192.168.1.10");
    assert_eq!(h.user, "deploy");
    assert_eq!(h.port, 2222);
    assert!(h
        .identity_file
        .as_deref()
        .unwrap_or("")
        .contains("id_ed25519"));
    assert_eq!(h.proxy_jump.as_deref(), Some("bastion"));
}

#[test]
fn test_multiple_hosts() {
    let cfg = "\
Host web
    HostName 10.0.0.1
    User ubuntu

Host db
    HostName 10.0.0.2
    User postgres
    Port 5432
";
    let hosts = parse_ssh_config(cfg, "");
    assert_eq!(hosts.len(), 2);
    assert_eq!(hosts[0].name, "web");
    assert_eq!(hosts[1].name, "db");
    assert_eq!(hosts[1].port, 5432);
}

#[test]
fn test_wildcard_host_ignored() {
    let cfg = "\
Host *
    User ubuntu
    ServerAliveInterval 60

Host realhost
    HostName 10.0.0.1
";
    let hosts = parse_ssh_config(cfg, "");
    assert_eq!(hosts.len(), 1);
    assert_eq!(hosts[0].name, "realhost");
}

#[test]
fn test_proxy_jump() {
    let cfg = "\
Host bastion
    HostName jump.example.com
    User ops

Host internal
    HostName 192.168.100.50
    User admin
    ProxyJump bastion
";
    let hosts = parse_ssh_config(cfg, "");
    assert_eq!(hosts.len(), 2);
    let internal = hosts.iter().find(|h| h.name == "internal").unwrap();
    assert_eq!(internal.proxy_jump.as_deref(), Some("bastion"));
}

#[test]
fn test_nonstandard_port() {
    let cfg = "Host custom\n    HostName 1.2.3.4\n    Port 22022\n";
    let hosts = parse_ssh_config(cfg, "");
    assert_eq!(hosts[0].port, 22022);
}

#[test]
fn test_case_insensitive_keywords() {
    let cfg = "\
host server1
    hostname 10.0.0.1
    user admin
    port 2222
";
    let hosts = parse_ssh_config(cfg, "");
    assert_eq!(hosts.len(), 1);
    assert_eq!(hosts[0].hostname, "10.0.0.1");
    assert_eq!(hosts[0].user, "admin");
    assert_eq!(hosts[0].port, 2222);
}

#[test]
fn test_inline_comment() {
    let cfg = "Host srv # this is a comment\n    HostName 1.2.3.4\n";
    let hosts = parse_ssh_config(cfg, "");
    assert_eq!(hosts.len(), 1);
    assert_eq!(hosts[0].name, "srv");
}

#[test]
fn test_source_is_ssh_config() {
    let cfg = "Host test\n    HostName 1.2.3.4\n";
    let hosts = parse_ssh_config(cfg, "");
    assert_eq!(hosts[0].source, HostSource::SshConfig);
}

#[test]
fn test_equals_separator() {
    let cfg = "Host=myhost\n    HostName=10.0.0.1\n    User=admin\n";
    let hosts = parse_ssh_config(cfg, "");
    assert_eq!(hosts.len(), 1);
    assert_eq!(hosts[0].hostname, "10.0.0.1");
    assert_eq!(hosts[0].user, "admin");
}

#[test]
fn test_minimal_config() {
    let cfg = "\
Host myserver
    HostName 192.168.1.100
";
    // The login name ($USER / $LOGNAME / "root") is read by the caller and
    // handed in; a host without `User` takes it.
    let expected_user = "root";
    let hosts = parse_ssh_config(cfg, expected_user);
    assert_eq!(hosts.len(), 1);
    assert_eq!(hosts[0].name, "myserver");
    assert_eq!(hosts[0].hostname, "192.168.1.100");
    assert_eq!(hosts[0].user, expected_user);
    assert_eq!(hosts[0].port, 22); // default
}

#[test]
fn login_name_fills_only_hosts_without_user() {
    let hosts = parse_ssh_config("Host a\nHost b\n  User deploy\n", "alice");
    assert_eq!(hosts[0].user, "alice");
    assert_eq!(hosts[1].user, "deploy");
}

#[test]
fn identity_file_is_expanded_under_the_given_home() {
    let home = Some("/home/u".to_string());
    let hosts = parse_ssh_config_with(
        "Host web-prod-1\n    IdentityFile ~/.ssh/id_ed25519\nHost b\n  IdentityFile /k\n",
        &home,
        "",
    );
    assert_eq!(hosts[0].identity_file.as_deref(), Some("/home/u/.ssh/id_ed25519"));
    assert_eq!(hosts[1].identity_file.as_deref(), Some("/k"));
    let kept = parse_ssh_config_with("Host a\n  IdentityFile ~/k\n", &None, "");
    assert_eq!(kept[0].identity_file.as_deref(), Some("~/k"));
    assert_eq!(expand_tilde_under("~", &home), "/home/u");
    assert_eq!(expand_tilde_under("~/a/b", &home), "/home/u/a/b");
    assert_eq!(expand_tilde_under("~x", &home), "~x");
}

#[test]
fn invalid_port_is_ignored() {
    let hosts = parse_ssh_config("Host a\n  Port 70000\nHost b\n  Port abc\n", "");
    assert_eq!(hosts.len(), 2);
    assert_eq!(hosts[0].port, 22);
    assert_eq!(hosts[1].port, 22);
}

#[test]
fn question_mark_pattern_is_wildcard() {
    let hosts = parse_ssh_config("Host web?\n  User x\nHost ok\n", "");
    assert_eq!(hosts.len(), 1);
    assert_eq!(hosts[0].name, "ok");
    assert_eq!(hosts[0].user, "");
}

#[test]
fn directives_outside_a_host_are_ignored() {
    let hosts = parse_ssh_config("User root\nPort 2200\nHost a\n", "");
    assert_eq!(hosts.len(), 1);
    assert_eq!(hosts[0].user, "");
    assert_eq!(hosts[0].port, 22);
}

#[test]
fn keyword_without_value_is_ignored() {
    let hosts = parse_ssh_config("Host a\n  HostName\n  User =  \n", "");
    assert_eq!(hosts.len(), 1);
    assert_eq!(hosts[0].hostname, "a");
    assert_eq!(hosts[0].user, "");
}

#[test]
fn include_becomes_an_entry_and_ends_the_block() {
    let entries = parse_config_entries("Host a\nInclude ~/.ssh/conf.d/*\n  User ignored\nHost b\n", "");
    assert_eq!(entries.len(), 3);
    match &entries[1] {
        ConfigEntry::Include(p) => assert_eq!(p, "~/.ssh/conf.d/*"),
        _ => panic!("expected an include entry"),
    }
    match &entries[0] {
        ConfigEntry::Host(h) => assert_eq!(h.user, ""),
        _ => panic!("expected a host entry"),
    }
}

#[test]
fn assemble_splices_included_hosts_in_place() {
    let entries = parse_config_entries("Host a\nInclude x\nHost b\n", "");
    let mut inc = Host::named("inc".to_string(), HostSource::SshConfig);
    inc.hostname = String::new();
    let hosts = assemble_hosts(&entries, &vec![vec![inc]]);
    let names: Vec<&str> = hosts.iter().map(|h| h.name.as_str()).collect();
    assert_eq!(names, vec!["a", "inc", "b"]);
    // Fallback applies to included hosts too.
    assert_eq!(hosts[1].hostname, "inc");
    // Without resolved includes the include contributes nothing.
    assert_eq!(assemble_hosts(&entries, &Vec::new()).len(), 2);
}

#[test]
fn tilde_free_values_are_kept() {
    assert_eq!(expand_tilde("/etc/key"), "/etc/key");
    assert_eq!(expand_tilde("~user/key"), "~user/key");
    let expanded = expand_tilde("~/key");
    assert!(expanded.ends_with("key"));
}

#[test]
fn wide_separator_is_reported() {
    assert!(narrow_separators_in("Host a\n  User b\n"));
    assert!(!narrow_separators_in("Host\u{3000}a\n"));
}

#[test]
fn include_globs_split_and_match() {
    assert_eq!(split_glob("*.conf"), Some((String::new(), ".conf".to_string())));
    assert_eq!(split_glob("web-*"), Some(("web-".to_string(), String::new())));
    assert_eq!(split_glob("plain"), None);
    assert!(glob_matches("a.conf", "", ".conf"));
    assert!(!glob_matches("a.txt", "", ".conf"));
    assert!(glob_matches("web-1", "web-", ""));
    assert!(include_depth_ok(3));
    assert!(!include_depth_ok(4));
}
