use omnyssh::config::load_all_hosts;
use omnyssh::config::snippets::{Snippet, SnippetScope, SnippetsFile};
use omnyssh::ssh::client::{Host, HostSource};

fn host(name: &str, source: HostSource) -> Host {
    Host::named(name.to_string(), source)
}

#[test]
fn manual_hosts_take_priority() {
    let mut renamed = host("prod", HostSource::Manual);
    renamed.original_ssh_host = Some("old-prod".to_string());
    let manual = vec![host("web", HostSource::Manual), renamed];
    let imported = vec![
        host("web", HostSource::SshConfig),
        host("db", HostSource::SshConfig),
        host("old-prod", HostSource::SshConfig),
    ];
    let all = load_all_hosts(manual, imported);
    let names: Vec<(&str, HostSource)> = all.iter().map(|h| (h.name.as_str(), h.source)).collect();
    assert_eq!(
        names,
        vec![
            ("web", HostSource::Manual),
            ("prod", HostSource::Manual),
            ("db", HostSource::SshConfig)
        ]
    );
}

#[test]
fn merge_with_no_manual_hosts_keeps_imported() {
    let all = load_all_hosts(Vec::new(), vec![host("a", HostSource::SshConfig)]);
    assert_eq!(all.len(), 1);
    assert_eq!(all[0].name, "a");
}

#[test]
fn snippet_types() {
    let s = Snippet {
        name: "restart".to_string(),
        command: "systemctl restart nginx".to_string(),
        scope: SnippetScope::Host,
        host: Some("web".to_string()),
        tags: None,
        params: None,
    };
    assert_eq!(s.scope, SnippetScope::Host);
    assert!(SnippetsFile::default().snippets.is_empty());
}
