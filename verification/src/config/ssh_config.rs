//! Parser for `~/.ssh/config`.
//!
//! Supported directives: `Host`, `HostName`, `User`, `Port`,
//! `IdentityFile`, `ProxyJump`, `Include`. Keywords are matched without
//! regard to case; `Host` blocks whose pattern holds `*` or `?` are skipped
//! together with their directives; unknown directives are ignored.
//!
//! The parser reads text only. An `Include` directive becomes an entry of its
//! own, in place, for the caller to resolve; [`assemble_hosts`] splices the
//! hosts read from the included files back in that place.

use vstd::prelude::*;

use crate::ssh::client::{default_host, hosts_view, Host, HostSource, HostView};
use crate::text::{
    chars_of, contains, contains_lit, eq_str, find_char, find_char_in, is_whitespace, is_ws, lines, lines_of,
    lowercase, lowercase_chars, owned, parse_unsigned, parse_unsigned_in, slice, starts_with,
    starts_with_lit, ends_with, ends_with_lit, string_of, strip_leading, strip_leading_chars, trim, trim_chars, views,
};
use crate::utils::platform::{home_dir, joined, opt_text, path_join};

verus! {

// ---------------------------------------------------------------------------
// Lines
// ---------------------------------------------------------------------------

/// `line` up to its first `#`.
pub open spec fn without_comment(line: Seq<char>) -> Seq<char> {
    match find_char(line, '#') {
        Some(p) => line.take(p),
        None => line,
    }
}

/// A keyword/value separator: whitespace or `=`.
pub open spec fn is_sep(c: char) -> bool {
    is_ws(c) || c == '='
}

/// `i` is the first separator of `s`.
pub open spec fn is_first_sep(s: Seq<char>, i: int) -> bool {
    0 <= i < s.len() && is_sep(s[i]) && forall|j: int| 0 <= j < i ==> !is_sep(s[j])
}

/// The position of the first separator of `s`.
pub open spec fn first_sep(s: Seq<char>) -> Option<int> {
    if exists|i: int| is_first_sep(s, i) {
        Some(choose|i: int| is_first_sep(s, i))
    } else {
        None
    }
}

/// `"Keyword Value"` or `"Keyword=Value"` split at the first separator: the
/// keyword trimmed, the value with leading `=` removed and trimmed; `None`
/// when there is no separator or either part is empty.
pub open spec fn kv_split(line: Seq<char>) -> Option<(Seq<char>, Seq<char>)> {
    match first_sep(line) {
        None => None,
        Some(i) => {
            let k = trim(line.take(i));
            let v = trim(strip_leading(line.skip(i + 1), '='));
            if k.len() == 0 || v.len() == 0 {
                None
            } else {
                Some((k, v))
            }
        },
    }
}

/// The first separator of `line`, if any, is a one-byte (ASCII) character.
/// Byte offsets past a wider separator fall inside it, so the keyword/value
/// split is defined only for such lines.
pub open spec fn narrow_separator(line: Seq<char>) -> bool {
    match first_sep(line) {
        Some(i) => (line[i] as u32) < 0x80,
        None => true,
    }
}

/// The line of a config file as the parser reads it: without comment,
/// trimmed.
pub open spec fn prepared(raw: Seq<char>) -> Seq<char> {
    trim(without_comment(raw))
}

/// Every line of `content` can be split: see [`narrow_separator`].
pub open spec fn narrow_separators(content: Seq<char>) -> bool {
    forall|i: int|
        0 <= i < lines(content).len() ==> narrow_separator(#[trigger] prepared(lines(content)[i]))
}

// ---------------------------------------------------------------------------
// The parse
// ---------------------------------------------------------------------------

/// The view of a [`ConfigEntry`].
pub ghost enum EntryView {
    Host(HostView),
    Include(Seq<char>),
}

/// What has been read of a config file so far.
pub ghost struct ConfigScan {
    /// Finished entries, in order.
    pub entries: Seq<EntryView>,
    /// The host block being read, if it is not a wildcard block.
    pub current: Option<HostView>,
    /// Whether the block being read is a wildcard block.
    pub in_wildcard: bool,
}

/// The finished entries with the current host appended.
pub open spec fn flushed(st: ConfigScan) -> Seq<EntryView> {
    match st.current {
        Some(h) => st.entries.push(EntryView::Host(h)),
        None => st.entries,
    }
}

/// A `Host` pattern with `*` or `?` matches many hosts.
pub open spec fn is_wildcard(v: Seq<char>) -> bool {
    contains(v, "*"@) || contains(v, "?"@)
}

/// What the parse takes from its surroundings: the home directory (for
/// `IdentityFile ~/...`) and the user of hosts without a `User` line.
pub ghost struct ParseEnv {
    pub home: Option<Seq<char>>,
    pub user: Seq<char>,
}

/// `v` with a leading `~/` (or a lone `~`) replaced by the home directory
/// `home` (through [`joined`]); unchanged without a home directory.
pub open spec fn expanded(v: Seq<char>, home: Option<Seq<char>>) -> Seq<char> {
    match home {
        Some(h) => if starts_with(v, "~/"@) {
            joined(h, v.skip(2))
        } else if v == "~"@ {
            h
        } else {
            v
        },
        None => v,
    }
}

/// A host-block directive applied to the host being read.
pub open spec fn apply_directive(h: HostView, kw: Seq<char>, v: Seq<char>, home: Option<
    Seq<char>,
>) -> HostView {
    if kw == "hostname"@ {
        HostView { hostname: v, ..h }
    } else if kw == "user"@ {
        HostView { user: v, ..h }
    } else if kw == "port"@ {
        match parse_unsigned(v, 65535) {
            Some(p) => HostView { port: p as u16, ..h },
            None => h,
        }
    } else if kw == "identityfile"@ {
        HostView { identity_file: Some(expanded(v, home)), ..h }
    } else if kw == "proxyjump"@ {
        HostView { proxy_jump: Some(v), ..h }
    } else {
        h
    }
}

/// One directive, its keyword already lower-cased.
pub open spec fn directive_step(st: ConfigScan, kw: Seq<char>, v: Seq<char>, env: ParseEnv) -> ConfigScan {
    if kw == "host"@ {
        let wild = is_wildcard(v);
        ConfigScan {
            entries: flushed(st),
            current: if wild {
                None
            } else {
                Some(HostView { user: env.user, ..default_host(v, HostSource::SshConfig) })
            },
            in_wildcard: wild,
        }
    } else if kw == "include"@ {
        ConfigScan {
            entries: flushed(st).push(EntryView::Include(v)),
            current: None,
            in_wildcard: false,
        }
    } else if st.in_wildcard {
        st
    } else {
        match st.current {
            Some(h) => ConfigScan { current: Some(apply_directive(h, kw, v, env.home)), ..st },
            None => st,
        }
    }
}

/// One line of the file.
pub open spec fn config_step(st: ConfigScan, raw: Seq<char>, env: ParseEnv) -> ConfigScan {
    let line = prepared(raw);
    if line.len() == 0 {
        st
    } else {
        match kv_split(line) {
            None => st,
            Some(kv) => directive_step(st, lowercase(kv.0), kv.1, env),
        }
    }
}

pub open spec fn config_scan(ls: Seq<Seq<char>>, env: ParseEnv) -> ConfigScan
    decreases ls.len(),
{
    if ls.len() == 0 {
        ConfigScan { entries: Seq::empty(), current: None, in_wildcard: false }
    } else {
        config_step(config_scan(ls.drop_last(), env), ls.last(), env)
    }
}

/// The entries of a config file, in order.
pub open spec fn config_entries(content: Seq<char>, env: ParseEnv) -> Seq<EntryView> {
    flushed(config_scan(lines(content), env))
}

/// `v` has no `~` to expand: it is neither `~` nor starts with `~/`.
pub open spec fn tilde_free(v: Seq<char>) -> bool {
    !starts_with(v, "~/"@) && v != "~"@
}

// ---------------------------------------------------------------------------
// Entries
// ---------------------------------------------------------------------------

/// An entry of a config file: a host, or an `Include` pattern to resolve.
#[derive(Debug, Clone)]
pub enum ConfigEntry {
    Host(Host),
    Include(String),
}

impl View for ConfigEntry {
    type V = EntryView;

    open spec fn view(&self) -> EntryView {
        match self {
            ConfigEntry::Host(h) => EntryView::Host(h@),
            ConfigEntry::Include(p) => EntryView::Include(p@),
        }
    }
}

/// The views of a list of entries.
pub open spec fn entries_view(v: Seq<ConfigEntry>) -> Seq<EntryView> {
    Seq::new(v.len(), |i: int| v[i]@)
}

// ---------------------------------------------------------------------------
// Executable parts
// ---------------------------------------------------------------------------

/// `line` up to its first `#`.
fn strip_comment(line: &Vec<char>) -> (r: Vec<char>)
    ensures
        r@ == without_comment(line@),
{
    match find_char_in(line, '#') {
        Some(p) => {
            let r = slice(line, 0, p);
            assert(r@ == line@.take(p as int));
            r
        },
        None => slice(line, 0, line.len()),
    }
}

/// Splits a keyword/value line; see [`kv_split`].
fn split_kv(line: &Vec<char>) -> (r: Option<(Vec<char>, Vec<char>)>)
    requires
        narrow_separator(line@),
    ensures
        r matches Some(kv) ==> kv_split(line@) == Some((kv.0@, kv.1@)),
        r is None ==> kv_split(line@) is None,
{
    let mut i: usize = 0;
    while i < line.len() && !(is_whitespace(line[i]) || line[i] == '=')
        invariant
            i <= line.len(),
            forall|j: int| 0 <= j < i ==> !is_sep(line@[j]),
        decreases line.len() - i,
    {
        i = i + 1;
    }
    if i == line.len() {
        assert forall|k: int| !is_first_sep(line@, k) by {
            if 0 <= k < line.len() {
                assert(!is_sep(line@[k]));
            }
        }
        return None;
    }
    assert(is_first_sep(line@, i as int));
    let ghost f = choose|k: int| is_first_sep(line@, k);
    assert(f == i) by {
        if f < i {
            assert(!is_sep(line@[f]));
        } else if f > i {
            assert(!is_sep(line@[i as int]));
        }
    }
    let head = slice(line, 0, i);
    let rest = slice(line, i + 1, line.len());
    assert(head@ == line@.take(i as int));
    assert(rest@ == line@.skip(i + 1));
    let k = trim_chars(&head);
    let unprefixed = strip_leading_chars(&rest, '=');
    let v = trim_chars(&unprefixed);
    if k.len() == 0 || v.len() == 0 {
        None
    } else {
        Some((k, v))
    }
}

/// Expands a leading `~/` (or a lone `~`) to the home directory `home`;
/// see [`expanded`].
pub fn expand_tilde_under(s: &str, home: &Option<String>) -> (r: String)
    ensures
        r@ == expanded(s@, opt_text(*home)),
{
    let v = chars_of(s);
    proof {
        reveal_strlit("~/");
    }
    match home {
        Some(h) => {
            if starts_with_lit(&v, "~/") {
                let rest = slice(&v, 2, v.len());
                assert(rest@ == v@.skip(2));
                let rest = string_of(&rest);
                return path_join(h.as_str(), rest.as_str());
            }
            if eq_str(&v, "~") {
                return h.clone();
            }
        },
        None => {},
    }
    string_of(&v)
}

/// Expands a leading `~/` (or a lone `~`) to the user's home directory
/// (`dirs::home_dir`); other values, and any value when there is no home
/// directory, are returned unchanged.
pub fn expand_tilde(s: &str) -> (r: String)
    ensures
        exists|h: Option<Seq<char>>| r@ == expanded(s@, h),
        tilde_free(s@) ==> r@ == s@,
{
    let home = home_dir();
    expand_tilde_under(s, &home)
}

/// Whether a lower-cased keyword opens a host block, includes files, or
/// belongs to the host block being read.
#[derive(Debug, Clone, Copy, PartialEq, Eq, Structural)]
pub enum BlockKeyword {
    Host,
    Include,
    Directive,
}

/// The role of a lower-cased keyword: `host`, `include`, or a directive of
/// the current block.
pub fn block_keyword(kw: &Vec<char>) -> (r: BlockKeyword)
    ensures
        (r == BlockKeyword::Host) == (kw@ == "host"@),
        (r == BlockKeyword::Include) == (kw@ == "include"@),
{
    proof {
        reveal_strlit("host");
        reveal_strlit("include");
    }
    if eq_str(kw, "host") {
        assert("host"@ != "include"@) by {
            assert("host"@[0] != "include"@[0]);
        }
        BlockKeyword::Host
    } else if eq_str(kw, "include") {
        BlockKeyword::Include
    } else {
        BlockKeyword::Directive
    }
}

/// A host-block directive, its keyword `kw` already lower-cased, applied
/// to the host being read; see [`apply_directive`].
pub fn apply_directive_in(h: Host, kw: &Vec<char>, v: &Vec<char>, home: &Option<String>) -> (r: Host)
    ensures
        r@ == apply_directive(h@, kw@, v@, opt_text(*home)),
{
    let mut h = h;
    if eq_str(kw, "hostname") {
        h.hostname = string_of(v);
    } else if eq_str(kw, "user") {
        h.user = string_of(v);
    } else if eq_str(kw, "port") {
        match parse_unsigned_in(v, 65535) {
            Some(p) => {
                h.port = p as u16;
            },
            None => {},
        }
    } else if eq_str(kw, "identityfile") {
        let s = string_of(v);
        h.identity_file = Some(expand_tilde_under(s.as_str(), home));
    } else if eq_str(kw, "proxyjump") {
        h.proxy_jump = Some(string_of(v));
    }
    assert(h@.tags == apply_directive(h@, kw@, v@, opt_text(*home)).tags);
    h
}


proof fn lemma_entries_push(v: Seq<ConfigEntry>, e: ConfigEntry)
    ensures
        entries_view(v.push(e)) == entries_view(v).push(e@),
{
    assert(entries_view(v.push(e)) =~= entries_view(v).push(e@));
}

/// Appends the current host, if any, to the entries.
fn flush(entries: &mut Vec<ConfigEntry>, current: Option<Host>)
    ensures
        entries_view(final(entries)@) == (match current {
            Some(h) => entries_view(old(entries)@).push(EntryView::Host(h@)),
            None => entries_view(old(entries)@),
        }),
{
    match current {
        Some(h) => {
            let e = ConfigEntry::Host(h);
            proof {
                lemma_entries_push(entries@, e);
            }
            entries.push(e);
        },
        None => {},
    }
}

/// The view of an optional host.
pub open spec fn opt_host(o: Option<Host>) -> Option<HostView> {
    match o {
        Some(h) => Some(h@),
        None => None,
    }
}

/// The surroundings given as a home directory and a default user.
pub open spec fn env_of(home: Option<String>, user: Seq<char>) -> ParseEnv {
    ParseEnv { home: opt_text(home), user }
}

/// Reads a config file into its entries: non-wildcard hosts and `Include`
/// patterns, in order. `IdentityFile` values starting with `~` are expanded
/// to `home`; hosts start with `default_user` as their user.
pub fn parse_config_entries_with(content: &str, home: &Option<String>, default_user: &str) -> (r:
    Vec<ConfigEntry>)
    requires
        narrow_separators(content@),
    ensures
        entries_view(r@) == config_entries(content@, env_of(*home, default_user@)),
{
    let ghost env = env_of(*home, default_user@);
    let v = chars_of(content);
    let ls = lines_of(&v);
    let ghost lv = views(ls@);
    let mut entries: Vec<ConfigEntry> = Vec::new();
    let mut current: Option<Host> = None;
    let mut in_wildcard = false;
    let mut i: usize = 0;
    assert(lv.take(0) =~= Seq::<Seq<char>>::empty());
    assert(entries_view(entries@) =~= Seq::<EntryView>::empty());
    while i < ls.len()
        invariant
            i <= ls.len(),
            lv == views(ls@),
            lv == lines(content@),
            narrow_separators(content@),
            env == env_of(*home, default_user@),
            ({
                let st = config_scan(lv.take(i as int), env);
                &&& st.entries == entries_view(entries@)
                &&& st.in_wildcard == in_wildcard
                &&& st.current == opt_host(current)
            }),
        decreases ls.len() - i,
    {
        let ghost st = config_scan(lv.take(i as int), env);
        assert(lv.take(i + 1).drop_last() == lv.take(i as int));
        assert(lv.take(i + 1).last() == ls@[i as int]@);
        let sc = strip_comment(&ls[i]);
        let line = trim_chars(&sc);
        assert(line@ == prepared(lv[i as int]));
        if line.len() > 0 {
            assert(narrow_separator(prepared(lines(content@)[i as int])));
            match split_kv(&line) {
                None => {},
                Some(kv) => {
                    let (k, val) = kv;
                    let kw = lowercase_chars(&k);
                    let opens = block_keyword(&kw);
                    if opens == BlockKeyword::Host {
                        flush(&mut entries, current);
                        in_wildcard = contains_lit(&val, "*") || contains_lit(&val, "?");
                        current = if in_wildcard {
                            None
                        } else {
                            let mut h = Host::named(string_of(&val), HostSource::SshConfig);
                            h.user = owned(default_user);
                            assert(h@ == HostView {
                                user: default_user@,
                                ..default_host(val@, HostSource::SshConfig)
                            });
                            Some(h)
                        };
                    } else if opens == BlockKeyword::Include {
                        flush(&mut entries, current);
                        let e = ConfigEntry::Include(string_of(&val));
                        proof {
                            lemma_entries_push(entries@, e);
                        }
                        entries.push(e);
                        current = None;
                        in_wildcard = false;
                    } else if in_wildcard {
                    } else {
                        match current {
                            Some(h) => {
                                current = Some(apply_directive_in(h, &kw, &val, home));
                            },
                            None => {
                                current = None;
                            },
                        }
                    }
                },
            }
        }
        i = i + 1;
    }
    assert(lv.take(ls.len() as int) == lv);
    flush(&mut entries, current);
    entries
}

/// Reads a config file into its entries with the user's home directory
/// (`dirs::home_dir`) for `~`; see [`parse_config_entries_with`]. The
/// login name, which the environment holds, comes in as `default_user`.
pub fn parse_config_entries(content: &str, default_user: &str) -> (r: Vec<ConfigEntry>)
    requires
        narrow_separators(content@),
    ensures
        exists|h: Option<Seq<char>>|
            entries_view(r@) == config_entries(content@, ParseEnv { home: h, user: default_user@ }),
{
    let home = home_dir();
    parse_config_entries_with(content, &home, default_user)
}


// ---------------------------------------------------------------------------
// Hosts
// ---------------------------------------------------------------------------

/// A host without `HostName` is reached at its alias.
pub open spec fn with_fallback(h: HostView) -> HostView {
    if h.hostname.len() == 0 {
        HostView { hostname: h.name, ..h }
    } else {
        h
    }
}

/// [`with_fallback`] applied to every host.
pub open spec fn fallbacks(hs: Seq<HostView>) -> Seq<HostView> {
    Seq::new(hs.len(), |i: int| with_fallback(hs[i]))
}

/// The number of `Include` entries among `es`.
pub open spec fn include_count(es: Seq<EntryView>) -> nat
    decreases es.len(),
{
    if es.len() == 0 {
        0
    } else {
        include_count(es.drop_last()) + if es.last() is Include {
            1nat
        } else {
            0
        }
    }
}

/// The hosts of the entries, where the `k`-th `Include` entry stands for the
/// hosts `inc[k]` (none when `inc` has no such element).
pub open spec fn assembled(es: Seq<EntryView>, inc: Seq<Seq<HostView>>) -> Seq<HostView>
    decreases es.len(),
{
    if es.len() == 0 {
        Seq::empty()
    } else {
        let prev = assembled(es.drop_last(), inc);
        match es.last() {
            EntryView::Host(h) => prev.push(h),
            EntryView::Include(_) => {
                let k = include_count(es.drop_last());
                if k < inc.len() {
                    prev + inc[k as int]
                } else {
                    prev
                }
            },
        }
    }
}

/// The hosts a config file yields on its own, `Include` directives
/// contributing none, each without `HostName` reached at its alias.
pub open spec fn config_hosts(content: Seq<char>, env: ParseEnv) -> Seq<HostView> {
    fallbacks(assembled(config_entries(content, env), Seq::empty()))
}

/// The views of lists of hosts.
pub open spec fn host_lists_view(v: Seq<Vec<Host>>) -> Seq<Seq<HostView>> {
    Seq::new(v.len(), |i: int| hosts_view(v[i]@))
}

proof fn lemma_hosts_push(v: Seq<Host>, h: Host)
    ensures
        hosts_view(v.push(h)) == hosts_view(v).push(h@),
{
    assert(hosts_view(v.push(h)) =~= hosts_view(v).push(h@));
}

/// Puts the hosts of a config file together: each `Host` entry in place, the
/// `k`-th `Include` entry replaced by `included[k]` (the hosts read from the
/// files it names), and every host without `HostName` given its alias as
/// address.
pub fn assemble_hosts(entries: &Vec<ConfigEntry>, included: &Vec<Vec<Host>>) -> (r: Vec<Host>)
    ensures
        hosts_view(r@) == fallbacks(assembled(entries_view(entries@), host_lists_view(included@))),
{
    let ghost ev = entries_view(entries@);
    let ghost inc = host_lists_view(included@);
    let mut hosts: Vec<Host> = Vec::new();
    let mut k: usize = 0;
    let mut i: usize = 0;
    let n = entries.len();
    assert(hosts_view(hosts@) =~= Seq::<HostView>::empty());
    while i < n
        invariant
            i <= n,
            n == ev.len(),
            ev == entries_view(entries@),
            inc == host_lists_view(included@),
            k == include_count(ev.take(i as int)),
            k <= i,
            hosts_view(hosts@) == assembled(ev.take(i as int), inc),
        decreases n - i,
    {
        assert(ev.take(i + 1).drop_last() == ev.take(i as int));
        assert(ev.take(i + 1).last() == ev[i as int]);
        match &entries[i] {
            ConfigEntry::Host(h) => {
                let h = h.clone();
                proof {
                    lemma_hosts_push(hosts@, h);
                }
                hosts.push(h);
            },
            ConfigEntry::Include(_) => {
                if k < included.len() {
                    let mut j: usize = 0;
                    let ghost h0 = hosts_view(hosts@);
                    let ghost src = hosts_view(included@[k as int]@);
                    assert(src == inc[k as int]);
                    while j < included[k].len()
                        invariant
                            k < included.len(),
                            j <= included@[k as int]@.len(),
                            src == hosts_view(included@[k as int]@),
                            hosts_view(hosts@) == h0 + src.take(j as int),
                        decreases included@[k as int]@.len() - j,
                    {
                        let h = included[k][j].clone();
                        proof {
                            lemma_hosts_push(hosts@, h);
                        }
                        hosts.push(h);
                        assert(src.take(j + 1) == src.take(j as int).push(src[j as int]));
                        j = j + 1;
                    }
                    assert(src.take(j as int) == src);
                }
                k = k + 1;
            },
        }
        i = i + 1;
    }
    assert(ev.take(n as int) == ev);
    let ghost a = hosts_view(hosts@);
    let mut m: usize = 0;
    while m < hosts.len()
        invariant
            m <= hosts.len(),
            hosts@.len() == a.len(),
            forall|j: int| 0 <= j < m ==> #[trigger] hosts@[j]@ == with_fallback(a[j]),
            forall|j: int| m <= j < hosts@.len() ==> #[trigger] hosts@[j]@ == a[j],
        decreases hosts.len() - m,
    {
        if hosts[m].hostname.as_str().is_empty() {
            let mut h = hosts[m].clone();
            h.hostname = h.name.clone();
            assert(h@ == with_fallback(a[m as int]));
            hosts.set(m, h);
        } else {
            assert(hosts@[m as int]@ == with_fallback(a[m as int]));
        }
        m = m + 1;
    }
    assert(hosts_view(hosts@) =~= fallbacks(a));
    hosts
}


/// Parses the text of an SSH config file into its non-wildcard hosts, in
/// order, with `home` for `~` in `IdentityFile` values and `default_user`
/// as the user of hosts without a `User` line. `Include` directives
/// contribute no hosts here (see [`parse_config_entries_with`] and
/// [`assemble_hosts`]); a host without `HostName` is reached at its alias.
pub fn parse_ssh_config_with(content: &str, home: &Option<String>, default_user: &str) -> (r:
    Vec<Host>)
    requires
        narrow_separators(content@),
    ensures
        hosts_view(r@) == config_hosts(content@, env_of(*home, default_user@)),
{
    let entries = parse_config_entries_with(content, home, default_user);
    let none: Vec<Vec<Host>> = Vec::new();
    let r = assemble_hosts(&entries, &none);
    proof {
        assert(host_lists_view(none@) =~= Seq::<Seq<HostView>>::empty());
    }
    r
}

/// Parses the text of an SSH config file with the user's home directory
/// (`dirs::home_dir`) for `~`; see [`parse_ssh_config_with`]. The login
/// name, which the environment holds, comes in as `default_user`.
pub fn parse_ssh_config(content: &str, default_user: &str) -> (r: Vec<Host>)
    requires
        narrow_separators(content@),
    ensures
        exists|h: Option<Seq<char>>|
            hosts_view(r@) == config_hosts(content@, ParseEnv { home: h, user: default_user@ }),
{
    let home = home_dir();
    parse_ssh_config_with(content, &home, default_user)
}

/// An `Include` file-name pattern with a `*`: the text before its first
/// `*` and the text after it.
pub open spec fn glob_parts(name: Seq<char>) -> Option<(Seq<char>, Seq<char>)> {
    match find_char(name, '*') {
        Some(i) => Some((name.take(i), name.skip(i + 1))),
        None => None,
    }
}

/// Splits an `Include` file-name pattern at its first `*`; see
/// [`glob_parts`].
pub fn split_glob(name: &str) -> (r: Option<(String, String)>)
    ensures
        match r {
            Some((a, b)) => glob_parts(name@) == Some((a@, b@)),
            None => glob_parts(name@) is None,
        },
{
    let v = chars_of(name);
    match find_char_in(&v, '*') {
        Some(i) => {
            let a = slice(&v, 0, i);
            let b = slice(&v, i + 1, v.len());
            assert(a@ == v@.take(i as int));
            assert(b@ == v@.skip(i + 1));
            Some((string_of(&a), string_of(&b)))
        },
        None => None,
    }
}

/// Whether a file name matches an `Include` pattern split at its `*`: it
/// starts with the text before and ends with the text after.
pub fn glob_matches(name: &str, prefix: &str, suffix: &str) -> (r: bool)
    ensures
        r == (starts_with(name@, prefix@) && ends_with(name@, suffix@)),
{
    let v = chars_of(name);
    starts_with_lit(&v, prefix) && ends_with_lit(&v, suffix)
}

/// How deep `Include` files nest: a file included at a depth above three
/// yields no host.
pub const MAX_INCLUDE_DEPTH: usize = 3;

/// Whether a file at `depth` of `Include` nesting is still read.
pub fn include_depth_ok(depth: usize) -> (r: bool)
    ensures
        r == (depth <= MAX_INCLUDE_DEPTH),
{
    depth <= MAX_INCLUDE_DEPTH
}

/// Whether every line of `content` satisfies [`narrow_separator`], the
/// condition under which [`parse_ssh_config`] reads it.
pub fn narrow_separators_in(content: &str) -> (r: bool)
    ensures
        r == narrow_separators(content@),
{
    let v = chars_of(content);
    let ls = lines_of(&v);
    let ghost lv = views(ls@);
    let mut i: usize = 0;
    while i < ls.len()
        invariant
            i <= ls.len(),
            lv == views(ls@),
            lv == lines(content@),
            forall|j: int| 0 <= j < i ==> narrow_separator(#[trigger] prepared(lv[j])),
        decreases ls.len() - i,
    {
        let sc = strip_comment(&ls[i]);
        let line = trim_chars(&sc);
        assert(line@ == prepared(lv[i as int]));
        let mut k: usize = 0;
        while k < line.len() && !(is_whitespace(line[k]) || line[k] == '=')
            invariant
                k <= line.len(),
                forall|j: int| 0 <= j < k ==> !is_sep(line@[j]),
            decreases line.len() - k,
        {
            k = k + 1;
        }
        if k < line.len() {
            assert(is_first_sep(line@, k as int));
            let ghost f = choose|q: int| is_first_sep(line@, q);
            assert(f == k) by {
                if f < k {
                    assert(!is_sep(line@[f]));
                } else if f > k {
                    assert(!is_sep(line@[k as int]));
                }
            }
            if (line[k] as u32) >= 0x80 {
                assert(!narrow_separator(prepared(lines(content@)[i as int])));
                return false;
            }
        } else {
            assert forall|q: int| !is_first_sep(line@, q) by {
                if 0 <= q < line.len() {
                    assert(!is_sep(line@[q]));
                }
            }
        }
        i = i + 1;
    }
    true
}


// ---------------------------------------------------------------------------
// What every imported host satisfies
// ---------------------------------------------------------------------------

/// An imported host: a non-empty alias that is no wildcard pattern, from the
/// SSH config.
pub open spec fn imported_host(h: HostView) -> bool {
    &&& h.name.len() > 0
    &&& !is_wildcard(h.name)
    &&& h.source == HostSource::SshConfig
}

/// Every host entry is an imported host.
pub open spec fn entries_imported(es: Seq<EntryView>) -> bool {
    forall|i: int| 0 <= i < es.len() ==> (#[trigger] es[i] matches EntryView::Host(h) ==> imported_host(h))
}

proof fn lemma_entries_imported_push(es: Seq<EntryView>, e: EntryView)
    requires
        entries_imported(es),
        e matches EntryView::Host(h) ==> imported_host(h),
    ensures
        entries_imported(es.push(e)),
{
    assert forall|i: int| 0 <= i < es.push(e).len() implies (#[trigger] es.push(e)[i] matches EntryView::Host(h) ==> imported_host(h)) by {
        if i < es.len() {
            assert(es.push(e)[i] == es[i]);
        }
    }
}

proof fn lemma_scan_imported(ls: Seq<Seq<char>>, env: ParseEnv)
    ensures
        entries_imported(config_scan(ls, env).entries),
        config_scan(ls, env).current matches Some(h) ==> imported_host(h),
    decreases ls.len(),
{
    if ls.len() > 0 {
        let st = config_scan(ls.drop_last(), env);
        lemma_scan_imported(ls.drop_last(), env);
        let line = prepared(ls.last());
        if line.len() > 0 {
            match kv_split(line) {
                None => {},
                Some(kv) => {
                    match st.current {
                        Some(h) => lemma_entries_imported_push(st.entries, EntryView::Host(h)),
                        None => {},
                    }
                    if lowercase(kv.0) == "include"@ {
                        lemma_entries_imported_push(flushed(st), EntryView::Include(kv.1));
                    }
                },
            }
        }
    }
}

proof fn lemma_assembled_imported(es: Seq<EntryView>)
    requires
        entries_imported(es),
    ensures
        forall|i: int|
            0 <= i < assembled(es, Seq::empty()).len() ==> imported_host(
                #[trigger] assembled(es, Seq::empty())[i],
            ),
    decreases es.len(),
{
    if es.len() > 0 {
        let e0 = es.drop_last();
        assert(entries_imported(e0)) by {
            assert forall|i: int| 0 <= i < e0.len() implies (#[trigger] e0[i] matches EntryView::Host(h) ==> imported_host(h)) by {
                assert(e0[i] == es[i]);
            }
        }
        lemma_assembled_imported(e0);
        let a = assembled(e0, Seq::empty());
        match es.last() {
            EntryView::Host(h) => {
                assert(es[es.len() - 1] == es.last());
                assert forall|i: int| 0 <= i < a.push(h).len() implies imported_host(
                    #[trigger] a.push(h)[i],
                ) by {
                    if i < a.len() {
                        assert(a.push(h)[i] == a[i]);
                    }
                }
            },
            EntryView::Include(_) => {},
        }
    }
}

/// What every host parsed from a config file satisfies: a non-empty alias
/// that is no wildcard pattern (`Host *` blocks are skipped), imported from
/// the SSH config, and a non-empty address (the alias when `HostName` is
/// missing).
pub proof fn lemma_config_hosts_imported(content: Seq<char>, env: ParseEnv)
    ensures
        forall|i: int|
            0 <= i < config_hosts(content, env).len() ==> {
                let h = #[trigger] config_hosts(content, env)[i];
                imported_host(h) && h.hostname.len() > 0
            },
{
    let st = config_scan(lines(content), env);
    lemma_scan_imported(lines(content), env);
    match st.current {
        Some(h) => lemma_entries_imported_push(st.entries, EntryView::Host(h)),
        None => {},
    }
    lemma_assembled_imported(config_entries(content, env));
    let a = assembled(config_entries(content, env), Seq::empty());
    assert forall|i: int| 0 <= i < config_hosts(content, env).len() implies {
        let h = #[trigger] config_hosts(content, env)[i];
        imported_host(h) && h.hostname.len() > 0
    } by {
        assert(imported_host(a[i]));
    }
}


// ---------------------------------------------------------------------------
// Which hosts a config file yields
// ---------------------------------------------------------------------------

/// The alias a line opens a host block with, if it is a `Host` directive
/// (keyword in any case) whose value is no wildcard pattern.
pub open spec fn host_opened(raw: Seq<char>) -> Option<Seq<char>> {
    let line = prepared(raw);
    if line.len() == 0 {
        None
    } else {
        match kv_split(line) {
            Some(kv) => if lowercase(kv.0) == "host"@ && !is_wildcard(kv.1) {
                Some(kv.1)
            } else {
                None
            },
            None => None,
        }
    }
}

/// The aliases of the host blocks that the lines open, in order.
pub open spec fn opened_hosts(ls: Seq<Seq<char>>) -> Seq<Seq<char>>
    decreases ls.len(),
{
    if ls.len() == 0 {
        Seq::empty()
    } else {
        let prev = opened_hosts(ls.drop_last());
        match host_opened(ls.last()) {
            Some(v) => prev.push(v),
            None => prev,
        }
    }
}

/// The aliases of a list of hosts.
pub open spec fn host_names(hs: Seq<HostView>) -> Seq<Seq<char>> {
    Seq::new(hs.len(), |i: int| hs[i].name)
}

/// The aliases of the host entries, in order.
pub open spec fn entry_names(es: Seq<EntryView>) -> Seq<Seq<char>>
    decreases es.len(),
{
    if es.len() == 0 {
        Seq::empty()
    } else {
        let prev = entry_names(es.drop_last());
        match es.last() {
            EntryView::Host(h) => prev.push(h.name),
            EntryView::Include(_) => prev,
        }
    }
}

proof fn lemma_entry_names_push(es: Seq<EntryView>, e: EntryView)
    ensures
        entry_names(es.push(e)) == (match e {
            EntryView::Host(h) => entry_names(es).push(h.name),
            EntryView::Include(_) => entry_names(es),
        }),
{
    assert(es.push(e).drop_last() =~= es);
}

proof fn lemma_scan_names(ls: Seq<Seq<char>>, env: ParseEnv)
    ensures
        entry_names(flushed(config_scan(ls, env))) == opened_hosts(ls),
    decreases ls.len(),
{
    if ls.len() > 0 {
        let st = config_scan(ls.drop_last(), env);
        lemma_scan_names(ls.drop_last(), env);
        let line = prepared(ls.last());
        if line.len() > 0 {
            match kv_split(line) {
                None => {},
                Some(kv) => {
                    let kw = lowercase(kv.0);
                    let f = flushed(st);
                    let nst = config_scan(ls, env);
                    assert(nst == directive_step(st, kw, kv.1, env));
                    if kw == "host"@ {
                        if !is_wildcard(kv.1) {
                            let h = HostView { user: env.user, ..default_host(kv.1, HostSource::SshConfig) };
                            lemma_entry_names_push(f, EntryView::Host(h));
                            assert(flushed(nst) == f.push(EntryView::Host(h)));
                        } else {
                            assert(flushed(nst) == f);
                        }
                    } else if kw == "include"@ {
                        lemma_entry_names_push(f, EntryView::Include(kv.1));
                        assert(flushed(nst) == f.push(EntryView::Include(kv.1)));
                    } else if st.in_wildcard {
                    } else {
                        match st.current {
                            Some(h) => {
                                let h2 = apply_directive(h, kw, kv.1, env.home);
                                lemma_entry_names_push(st.entries, EntryView::Host(h));
                                lemma_entry_names_push(st.entries, EntryView::Host(h2));
                            },
                            None => {},
                        }
                    }
                },
            }
        }
    }
}

proof fn lemma_assembled_names(es: Seq<EntryView>)
    ensures
        host_names(assembled(es, Seq::empty())) == entry_names(es),
    decreases es.len(),
{
    if es.len() > 0 {
        lemma_assembled_names(es.drop_last());
        let a = assembled(es.drop_last(), Seq::empty());
        match es.last() {
            EntryView::Host(h) => {
                assert(host_names(a.push(h)) =~= host_names(a).push(h.name));
            },
            EntryView::Include(_) => {},
        }
    }
}

/// The hosts a config file yields are the host blocks it opens, in order:
/// their aliases are the values of its `Host` lines (keyword in any case,
/// after comments are cut and the line trimmed) that hold neither `*` nor
/// `?`. Wildcard blocks yield no host, and `Include` lines none here.
pub proof fn lemma_config_host_names(content: Seq<char>, env: ParseEnv)
    ensures
        host_names(config_hosts(content, env)) == opened_hosts(lines(content)),
        config_hosts(content, env).len() == opened_hosts(lines(content)).len(),
{
    lemma_scan_names(lines(content), env);
    lemma_assembled_names(config_entries(content, env));
    let a = assembled(config_entries(content, env), Seq::empty());
    assert(host_names(fallbacks(a)) =~= host_names(a));
}

/// A file with no `Host` line for a non-wildcard pattern (empty, blank,
/// only comments, only wildcard blocks or global directives) yields no
/// host.
pub proof fn lemma_no_host_lines(content: Seq<char>, env: ParseEnv)
    requires
        forall|i: int| 0 <= i < lines(content).len() ==> #[trigger] host_opened(lines(content)[i]) is None,
    ensures
        config_hosts(content, env).len() == 0,
{
    lemma_config_host_names(content, env);
    lemma_none_opened(lines(content));
}

proof fn lemma_none_opened(ls: Seq<Seq<char>>)
    requires
        forall|i: int| 0 <= i < ls.len() ==> #[trigger] host_opened(ls[i]) is None,
    ensures
        opened_hosts(ls).len() == 0,
    decreases ls.len(),
{
    if ls.len() > 0 {
        let l0 = ls.drop_last();
        assert forall|i: int| 0 <= i < l0.len() implies #[trigger] host_opened(l0[i]) is None by {
            assert(l0[i] == ls[i]);
        }
        lemma_none_opened(l0);
        assert(host_opened(ls[ls.len() - 1]) is None);
    }
}

/// Keywords are read without regard to case, and a `#` starts a comment:
/// two lines whose text before `#` splits into keywords with the same
/// lower-case form and the same value have the same effect.
pub proof fn lemma_keyword_case_and_comments(st: ConfigScan, a: Seq<char>, b: Seq<char>, env: ParseEnv)
    requires
        prepared(a).len() > 0,
        prepared(b).len() > 0,
        kv_split(prepared(a)) matches Some(ka) && kv_split(prepared(b)) matches Some(kb) && lowercase(
            ka.0,
        ) == lowercase(kb.0) && ka.1 == kb.1,
    ensures
        config_step(st, a, env) == config_step(st, b, env),
{
}

/// Inside a `Host` block for a wildcard pattern, directives other than
/// `Host` and `Include` change nothing: they set no field of any host.
pub proof fn lemma_wildcard_directives_ignored(st: ConfigScan, kw: Seq<char>, v: Seq<char>, env: ParseEnv)
    requires
        st.in_wildcard,
        kw != "host"@,
        kw != "include"@,
    ensures
        directive_step(st, kw, v, env) == st,
{
}

/// A line that is blank or only a comment changes nothing.
pub proof fn lemma_blank_lines_ignored(st: ConfigScan, raw: Seq<char>, env: ParseEnv)
    requires
        prepared(raw).len() == 0,
    ensures
        config_step(st, raw, env) == st,
{
}

} // verus!
