//! Host records.

use vstd::prelude::*;

use crate::event::opt_str_view;
use crate::text::string_views;

verus! {

/// Where a host entry came from.
#[derive(Debug, Clone, Copy, PartialEq, Eq, Structural)]
pub enum HostSource {
    /// Added by the user and stored in `hosts.toml`.
    Manual,
    /// Imported from `~/.ssh/config`.
    SshConfig,
}

/// Connection state shown for each host.
#[derive(Debug, Clone)]
pub enum ConnectionStatus {
    Unknown,
    Connecting,
    Connected,
    Failed(String),
}

/// A host the user can connect to.
///
/// An empty `user` stands for the local login name, which the application
/// fills in when it loads hosts.
#[derive(Debug)]
pub struct Host {
    pub name: String,
    pub hostname: String,
    pub user: String,
    pub port: u16,
    pub identity_file: Option<String>,
    pub proxy_jump: Option<String>,
    pub password: Option<String>,
    pub tags: Vec<String>,
    pub notes: Option<String>,
    pub source: HostSource,
    /// For a manual host that renames an `~/.ssh/config` entry: that entry's
    /// original alias.
    pub original_ssh_host: Option<String>,
}

/// The view of a [`Host`].
pub ghost struct HostView {
    pub name: Seq<char>,
    pub hostname: Seq<char>,
    pub user: Seq<char>,
    pub port: u16,
    pub identity_file: Option<Seq<char>>,
    pub proxy_jump: Option<Seq<char>>,
    pub password: Option<Seq<char>>,
    pub tags: Seq<Seq<char>>,
    pub notes: Option<Seq<char>>,
    pub source: HostSource,
    pub original_ssh_host: Option<Seq<char>>,
}

impl View for Host {
    type V = HostView;

    open spec fn view(&self) -> HostView {
        HostView {
            name: self.name@,
            hostname: self.hostname@,
            user: self.user@,
            port: self.port,
            identity_file: opt_str_view(self.identity_file),
            proxy_jump: opt_str_view(self.proxy_jump),
            password: opt_str_view(self.password),
            tags: string_views(self.tags@),
            notes: opt_str_view(self.notes),
            source: self.source,
            original_ssh_host: opt_str_view(self.original_ssh_host),
        }
    }
}

/// The views of a list of hosts.
pub open spec fn hosts_view(v: Seq<Host>) -> Seq<HostView> {
    Seq::new(v.len(), |i: int| v[i]@)
}

/// A host with the given alias and source and every other field at its
/// default.
pub open spec fn default_host(name: Seq<char>, source: HostSource) -> HostView {
    HostView {
        name,
        hostname: Seq::empty(),
        user: Seq::empty(),
        port: 22,
        identity_file: None,
        proxy_jump: None,
        password: None,
        tags: Seq::empty(),
        notes: None,
        source,
        original_ssh_host: None,
    }
}

impl Host {
    /// A host with the given alias and source and every other field at its
    /// default: no address yet, default user, port 22.
    pub fn named(name: String, source: HostSource) -> (h: Host)
        ensures
            h@ == default_host(name@, source),
    {
        let h = Host {
            name,
            hostname: String::new(),
            user: String::new(),
            port: 22,
            identity_file: None,
            proxy_jump: None,
            password: None,
            tags: Vec::new(),
            notes: None,
            source,
            original_ssh_host: None,
        };
        assert(h@.tags =~= Seq::<Seq<char>>::empty());
        h
    }
}


/// A copy of an optional string.
pub fn clone_opt(o: &Option<String>) -> (r: Option<String>)
    ensures
        r == *o,
{
    match o {
        Some(s) => Some(s.clone()),
        None => None,
    }
}

/// A copy of a list of strings.
pub fn clone_strings(v: &Vec<String>) -> (r: Vec<String>)
    ensures
        r@ == v@,
{
    let mut r: Vec<String> = Vec::new();
    let mut i: usize = 0;
    while i < v.len()
        invariant
            i <= v.len(),
            r.len() == i,
            forall|j: int| 0 <= j < i ==> #[trigger] r@[j] == v@[j],
        decreases v.len() - i,
    {
        r.push(v[i].clone());
        i = i + 1;
    }
    assert(r@ =~= v@);
    r
}

impl Clone for Host {
    fn clone(&self) -> (r: Self)
        ensures
            r@ == self@,
    {
        let r = Host {
            name: self.name.clone(),
            hostname: self.hostname.clone(),
            user: self.user.clone(),
            port: self.port,
            identity_file: clone_opt(&self.identity_file),
            proxy_jump: clone_opt(&self.proxy_jump),
            password: clone_opt(&self.password),
            tags: clone_strings(&self.tags),
            notes: clone_opt(&self.notes),
            source: self.source,
            original_ssh_host: clone_opt(&self.original_ssh_host),
        };
        assert(r@.tags =~= self@.tags);
        r
    }
}

} // verus!
