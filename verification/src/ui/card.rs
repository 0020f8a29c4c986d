//! Server card helpers: text fitting and the one-line service summaries.

use vstd::prelude::*;

use crate::event::{
    alerts_view, first_int_above, first_int_above_in, last_int, last_int_in, metrics_view, Alert,
    AlertSeverity, AlertView, DetectedService, MetricView, ServiceKind,
};
use crate::ssh::client::ConnectionStatus;
use crate::text::{
    chars_of, fmt_i64, fmt_u64, int_text, join, join_strings, owned, push_char, push_str, slice,
    string_of,
    string_views,
};

verus! {

/// Minimum card width in columns, borders included.
pub const CARD_MIN_WIDTH: u16 = 34;

/// Card height in lines, borders included.
pub const CARD_HEIGHT: u16 = 10;

/// What a card shows of a host.
pub struct CardData<'a> {
    pub host_name: &'a str,
    pub hostname: &'a str,
    pub user: &'a str,
    pub port: u16,
    pub tags: &'a [String],
    pub status: Option<&'a ConnectionStatus>,
    /// Detected services.
    pub services: Option<&'a [DetectedService]>,
    /// Active alerts.
    pub alerts: Option<&'a [Alert]>,
}

/// `s` fitted into `max` characters: unchanged when it fits, otherwise its
/// first `max - 1` characters and `…`.
pub open spec fn fitted(s: Seq<char>, max: nat) -> Seq<char> {
    if max == 0 {
        Seq::empty()
    } else if s.len() <= max {
        s
    } else {
        s.take(max - 1).push('…')
    }
}

/// Fits a string into `max_chars` characters; see [`fitted`].
pub fn truncate(s: &str, max_chars: usize) -> (r: String)
    ensures
        r@ == fitted(s@, max_chars as nat),
        r@.len() <= max_chars,
{
    if max_chars == 0 {
        return String::new();
    }
    let v = chars_of(s);
    if v.len() <= max_chars {
        return string_of(&v);
    }
    let t = slice(&v, 0, max_chars - 1);
    assert(t@ == v@.take(max_chars - 1));
    let mut r = string_of(&t);
    push_char(&mut r, '…');
    r
}

/// The short name of a service on a card.
pub open spec fn short_name(k: ServiceKind) -> Seq<char> {
    match k {
        ServiceKind::Docker => "Docker"@,
        ServiceKind::Nginx => "Nginx"@,
        ServiceKind::PostgreSQL => "PG"@,
        ServiceKind::Redis => "Redis"@,
        ServiceKind::NodeJS => "Node"@,
    }
}

/// The short name of a service on a card.
pub fn service_name_short(kind: &ServiceKind) -> (r: &'static str)
    ensures
        r@ == short_name(*kind),
{
    match kind {
        ServiceKind::Docker => "Docker",
        ServiceKind::Nginx => "Nginx",
        ServiceKind::PostgreSQL => "PG",
        ServiceKind::Redis => "Redis",
        ServiceKind::NodeJS => "Node",
    }
}

/// The integer of the last metric named `name`, 0 when there is none.
pub open spec fn int_or_zero(ms: Seq<MetricView>, name: Seq<char>) -> int {
    match last_int(ms, name) {
        Some(x) => x,
        None => 0,
    }
}

/// The non-zero container counts, as `N running`, `N stopped`,
/// `N restarting`.
pub open spec fn container_parts(running: int, stopped: int, restarting: int) -> Seq<Seq<char>> {
    (if running > 0 {
        seq![int_text(running) + " running"@]
    } else {
        Seq::empty()
    }) + (if stopped > 0 {
        seq![int_text(stopped) + " stopped"@]
    } else {
        Seq::empty()
    }) + (if restarting > 0 {
        seq![int_text(restarting) + " restarting"@]
    } else {
        Seq::empty()
    })
}

/// The container counts of a Docker service fit an `i64` when added.
pub open spec fn docker_counts_fit(ms: Seq<MetricView>) -> bool {
    let t = int_or_zero(ms, "containers_running"@) + int_or_zero(ms, "containers_stopped"@)
        + int_or_zero(ms, "containers_restarting"@);
    i64::MIN <= t <= i64::MAX
}

/// The card summary of a service: container counts for Docker (nothing
/// before the deep probe ran), replication lag for PostgreSQL, recent
/// 502/504 errors for Nginx (a count of zero included: "0 errors/5min"), memory for Redis, process count for Node.js.
pub open spec fn service_summary(kind: ServiceKind, ms: Seq<MetricView>) -> Seq<char> {
    match kind {
        ServiceKind::Docker => if ms.len() == 0 {
            Seq::empty()
        } else {
            let r = int_or_zero(ms, "containers_running"@);
            let s = int_or_zero(ms, "containers_stopped"@);
            let x = int_or_zero(ms, "containers_restarting"@);
            if r + s + x == 0 {
                "no containers"@
            } else {
                join(container_parts(r, s, x), ", "@)
            }
        },
        ServiceKind::PostgreSQL => match first_int_above(ms, "replication_lag_seconds"@, Some(0)) {
            Some(lag) => "repl lag "@ + int_text(lag) + "s"@,
            None => "ok"@,
        },
        ServiceKind::Nginx => match first_int_above(ms, "recent_502_504_errors"@, Some(-1)) {
            Some(e) => int_text(e) + " errors/5min"@,
            None => "ok"@,
        },
        ServiceKind::Redis => {
            let m = int_or_zero(ms, "memory_used_mb"@);
            if m > 0 {
                int_text(m) + "MB used"@
            } else {
                "ok"@
            }
        },
        ServiceKind::NodeJS => {
            let n = int_or_zero(ms, "node_processes"@);
            if n > 0 {
                int_text(n) + " process(es)"@
            } else {
                "no processes"@
            }
        },
    }
}

/// The integer of the last metric named `name`, 0 when there is none.
pub fn int_or_zero_in(ms: &Vec<crate::event::ServiceMetric>, name: &str) -> (r: i64)
    ensures
        r == int_or_zero(metrics_view(ms@), name@),
{
    match last_int_in(ms, name) {
        Some(x) => x,
        None => 0,
    }
}

/// `n` followed by `suffix`.
fn count_text(n: i64, suffix: &str) -> (r: String)
    ensures
        r@ == int_text(n as int) + suffix@,
{
    let mut s = fmt_i64(n);
    push_str(&mut s, suffix);
    s
}

/// The card summary of a service; see [`service_summary`].
pub fn service_info(service: &DetectedService) -> (r: String)
    requires
        service.kind == ServiceKind::Docker ==> docker_counts_fit(metrics_view(service.metrics@)),
    ensures
        r@ == service_summary(service.kind, metrics_view(service.metrics@)),
{
    let ms = &service.metrics;
    match service.kind {
        ServiceKind::Docker => {
            if ms.len() == 0 {
                return String::new();
            }
            let running = int_or_zero_in(ms, "containers_running");
            let stopped = int_or_zero_in(ms, "containers_stopped");
            let restarting = int_or_zero_in(ms, "containers_restarting");
            let total = running as i128 + stopped as i128 + restarting as i128;
            if total == 0 {
                return owned("no containers");
            }
            let mut parts: Vec<String> = Vec::new();
            if running > 0 {
                parts.push(count_text(running, " running"));
            }
            let ghost p1 = string_views(parts@);
            if stopped > 0 {
                parts.push(count_text(stopped, " stopped"));
            }
            let ghost p2 = string_views(parts@);
            if restarting > 0 {
                parts.push(count_text(restarting, " restarting"));
            }
            assert(string_views(parts@) =~= container_parts(
                running as int,
                stopped as int,
                restarting as int,
            ));
            join_strings(&parts, ", ")
        },
        ServiceKind::PostgreSQL => {
            match first_int_above_in(ms, "replication_lag_seconds", Some(0)) {
                Some(lag) => {
                    let mut s = owned("repl lag ");
                    push_str(&mut s, fmt_i64(lag).as_str());
                    push_str(&mut s, "s");
                    s
                },
                None => owned("ok"),
            }
        },
        ServiceKind::Nginx => {
            match first_int_above_in(ms, "recent_502_504_errors", Some(-1)) {
                Some(e) => count_text(e, " errors/5min"),
                None => owned("ok"),
            }
        },
        ServiceKind::Redis => {
            let m = int_or_zero_in(ms, "memory_used_mb");
            if m > 0 {
                count_text(m, "MB used")
            } else {
                owned("ok")
            }
        },
        ServiceKind::NodeJS => {
            let n = int_or_zero_in(ms, "node_processes");
            if n > 0 {
                count_text(n, " process(es)")
            } else {
                owned("no processes")
            }
        },
    }
}


// ---------------------------------------------------------------------------
// Card contents
// ---------------------------------------------------------------------------

/// The status dot in a card's corner.
pub open spec fn dot_of(status: Option<ConnectionStatus>) -> Seq<char> {
    match status {
        Some(ConnectionStatus::Connected) => "●"@,
        Some(ConnectionStatus::Connecting) => "◐"@,
        Some(ConnectionStatus::Failed(_)) => "✗"@,
        _ => "?"@,
    }
}

/// The status dot of a card; see [`dot_of`].
pub fn status_dot(status: Option<&ConnectionStatus>) -> (r: &'static str)
    ensures
        r@ == dot_of(match status {
            Some(c) => Some(*c),
            None => None,
        }),
{
    match status {
        Some(ConnectionStatus::Connected) => "●",
        Some(ConnectionStatus::Connecting) => "◐",
        Some(ConnectionStatus::Failed(_)) => "✗",
        _ => "?",
    }
}

/// `a - b`, or 0 below zero.
pub open spec fn minus(a: int, b: int) -> nat {
    if a > b {
        (a - b) as nat
    } else {
        0
    }
}

/// A card's title: the host name fitted into the card's width less six
/// columns, between spaces.
pub fn card_title(host_name: &str, width: u16) -> (r: String)
    ensures
        r@ == " "@ + fitted(host_name@, minus(width as int, 6)) + " "@,
{
    let mut r = owned(" ");
    let t = truncate(host_name, width.saturating_sub(6) as usize);
    push_str(&mut r, t.as_str());
    push_str(&mut r, " ");
    r
}

/// `user:port`.
pub open spec fn user_port_of(user: Seq<char>, port: u16) -> Seq<char> {
    user + ":"@ + int_text(port as int)
}

/// A card's address row: the address, fitted into the inner width less
/// `user:port` and a space, and `user:port`. The width of `user:port` is
/// its length in bytes taken modulo 65536, as a 16-bit count.
pub fn card_address(hostname: &str, user: &str, port: u16, inner_width: u16) -> (r: (
    String,
    String,
))
    requires
        vstd::utf8::encode_utf8(user_port_of(user@, port)).len() <= usize::MAX,
        vstd::utf8::encode_utf8(user_port_of(user@, port)).len() % 65536 != 65535,
    ensures
        r.1@ == user_port_of(user@, port),
        r.0@ == fitted(
            hostname@,
            minus(
                inner_width as int,
                (vstd::utf8::encode_utf8(user_port_of(user@, port)).len() % 65536) + 1int,
            ),
        ),
{
    let mut up = owned(user);
    push_str(&mut up, ":");
    push_str(&mut up, fmt_u64(port as u64).as_str());
    let n = (up.as_str().len() % 65536) as u16;
    let w = inner_width.saturating_sub(n + 1);
    (truncate(hostname, w as usize), up)
}

/// A card shows "offline" for a host that failed, is unknown or has no
/// status yet, and has no metrics.
pub open spec fn offline_of(status: Option<ConnectionStatus>, has_metrics: bool) -> bool {
    !has_metrics && !(status matches Some(ConnectionStatus::Connected)) && !(status matches Some(
        ConnectionStatus::Connecting,
    ))
}

/// Whether a card shows "offline"; see [`offline_of`].
pub fn card_offline(status: Option<&ConnectionStatus>, has_metrics: bool) -> (r: bool)
    ensures
        r == offline_of(
            match status {
                Some(c) => Some(*c),
                None => None,
            },
            has_metrics,
        ),
{
    let connected = match status {
        Some(ConnectionStatus::Connected) => true,
        Some(ConnectionStatus::Connecting) => true,
        _ => false,
    };
    !has_metrics && !connected
}

/// The icon of a service kind on a card.
pub open spec fn icon_of(k: ServiceKind) -> Seq<char> {
    match k {
        ServiceKind::Docker => "🐳"@,
        ServiceKind::Nginx => "🌐"@,
        ServiceKind::PostgreSQL => "🐘"@,
        ServiceKind::Redis => "📦"@,
        ServiceKind::NodeJS => "🟢"@,
    }
}

/// The icon of a service kind; see [`icon_of`].
pub fn service_icon(kind: &ServiceKind) -> (r: &'static str)
    ensures
        r@ == icon_of(*kind),
{
    match kind {
        ServiceKind::Docker => "🐳",
        ServiceKind::Nginx => "🌐",
        ServiceKind::PostgreSQL => "🐘",
        ServiceKind::Redis => "📦",
        ServiceKind::NodeJS => "🟢",
    }
}

/// A service's card line, fitted into `w` columns: "icon Name: summary";
/// none when the summary is empty.
pub open spec fn service_line_of(k: ServiceKind, ms: Seq<MetricView>, w: nat) -> Option<Seq<char>> {
    let info = service_summary(k, ms);
    if info.len() == 0 {
        None
    } else {
        Some(fitted(icon_of(k) + " "@ + short_name(k) + ": "@ + info, w))
    }
}

/// The card line of the `j`-th service, if there is one with a summary.
pub open spec fn line_at(ss: Seq<DetectedService>, j: int, width: int) -> Seq<Seq<char>> {
    if 0 <= j < ss.len() {
        match service_line_of(ss[j].kind, metrics_view(ss[j].metrics@), minus(width, 1)) {
            Some(l) => seq![l],
            None => Seq::empty(),
        }
    } else {
        Seq::empty()
    }
}

/// The service lines of a card: of its first two services, those with a
/// summary, each fitted into the width less one.
pub open spec fn service_lines_of(ss: Seq<DetectedService>, width: int) -> Seq<Seq<char>> {
    line_at(ss, 0, width) + line_at(ss, 1, width)
}

/// The service lines of a card; see [`service_lines_of`].
pub fn card_service_lines(services: &Vec<DetectedService>, width: u16) -> (r: Vec<String>)
    requires
        forall|i: int|
            0 <= i < 2 && i < services@.len() && services@[i].kind == ServiceKind::Docker
                ==> docker_counts_fit(metrics_view(#[trigger] services@[i].metrics@)),
    ensures
        string_views(r@) == service_lines_of(services@, width as int),
{
    let w = width.saturating_sub(1) as usize;
    let mut r: Vec<String> = Vec::new();
    let mut i: usize = 0;
    let ghost ss = services@;
    while i < services.len() && i < 2
        invariant
            i <= 2,
            i <= services@.len(),
            ss == services@,
            w == minus(width as int, 1),
            forall|j: int|
                0 <= j < 2 && j < services@.len() && services@[j].kind == ServiceKind::Docker
                    ==> docker_counts_fit(metrics_view(#[trigger] services@[j].metrics@)),
            string_views(r@) == (if i == 0 {
                Seq::empty()
            } else if i == 1 {
                line_at(ss, 0, width as int)
            } else {
                line_at(ss, 0, width as int) + line_at(ss, 1, width as int)
            }),
        decreases 2 - i,
    {
        let svc = &services[i];
        let info = service_info(svc);
        let ghost prev = string_views(r@);
        let iv = chars_of(info.as_str());
        if iv.len() > 0 {
            let mut text = owned(service_icon(&svc.kind));
            push_str(&mut text, " ");
            push_str(&mut text, service_name_short(&svc.kind));
            push_str(&mut text, ": ");
            push_str(&mut text, info.as_str());
            let line = truncate(text.as_str(), w);
            proof {
                assert(ss[i as int] == *svc);
                assert(line_at(ss, i as int, width as int) == seq![line@]);
            }
            r.push(line);
            assert(string_views(r@) =~= prev + line_at(ss, i as int, width as int));
        } else {
            assert(ss[i as int] == *svc);
            assert(line_at(ss, i as int, width as int) =~= Seq::<Seq<char>>::empty());
            assert(string_views(r@) =~= prev + line_at(ss, i as int, width as int));
        }
        proof {
            if i == 0 {
                assert(prev =~= Seq::<Seq<char>>::empty());
                assert(string_views(r@) =~= line_at(ss, 0, width as int));
            }
        }
        i = i + 1;
    }
    assert(string_views(r@) =~= service_lines_of(ss, width as int));
    r
}

/// An alert's card line: its severity and message fitted into `w`.
pub open spec fn alert_line_of(a: AlertView, w: nat) -> (AlertSeverity, Seq<char>) {
    (a.severity, fitted(a.message, w))
}

/// The card lines of the alerts of one severity, in order.
pub open spec fn severity_lines(a: Seq<AlertView>, s: AlertSeverity, w: nat) -> Seq<
    (AlertSeverity, Seq<char>),
>
    decreases a.len(),
{
    if a.len() == 0 {
        Seq::empty()
    } else {
        let prev = severity_lines(a.drop_last(), s, w);
        if a.last().severity == s {
            prev.push(alert_line_of(a.last(), w))
        } else {
            prev
        }
    }
}

/// The alert lines of a card: critical alerts first, then warnings, then
/// information, each group in its order; the first two, each message
/// fitted into the width less three.
pub open spec fn alert_lines_of(a: Seq<AlertView>, width: int) -> Seq<(AlertSeverity, Seq<char>)> {
    let w = minus(width, 3);
    let all = severity_lines(a, AlertSeverity::Critical, w) + severity_lines(
        a,
        AlertSeverity::Warning,
        w,
    ) + severity_lines(a, AlertSeverity::Info, w);
    all.take(if all.len() < 2 {
        all.len() as int
    } else {
        2
    })
}

/// Alert lines as text.
pub open spec fn alert_lines_view(v: Seq<(AlertSeverity, String)>) -> Seq<(AlertSeverity, Seq<char>)> {
    Seq::new(v.len(), |i: int| (v[i].0, v[i].1@))
}

/// Appends the card lines of the alerts of severity `sev`.
fn push_severity_lines(
    alerts: &Vec<Alert>,
    sev: AlertSeverity,
    w: usize,
    out: &mut Vec<(AlertSeverity, String)>,
)
    ensures
        alert_lines_view(final(out)@) == alert_lines_view(old(out)@) + severity_lines(
            alerts_view(alerts@),
            sev,
            w as nat,
        ),
{
    let ghost av = alerts_view(alerts@);
    let ghost base = alert_lines_view(out@);
    let mut i: usize = 0;
    assert(av.take(0) =~= Seq::<AlertView>::empty());
    assert(alert_lines_view(out@) =~= base + Seq::<(AlertSeverity, Seq<char>)>::empty());
    while i < alerts.len()
        invariant
            i <= alerts@.len(),
            av == alerts_view(alerts@),
            alert_lines_view(out@) == base + severity_lines(av.take(i as int), sev, w as nat),
        decreases alerts@.len() - i,
    {
        assert(av.take(i + 1).drop_last() == av.take(i as int));
        assert(av.take(i + 1).last() == alerts@[i as int]@);
        if alerts[i].severity == sev {
            let m = truncate(alerts[i].message.as_str(), w);
            let ghost before = alert_lines_view(out@);
            out.push((sev, m));
            assert(alert_lines_view(out@) =~= before.push((sev, m@)));
        }
        i = i + 1;
    }
    assert(av.take(alerts@.len() as int) == av);
}

/// The alert lines of a card; see [`alert_lines_of`].
pub fn card_alert_lines(alerts: &Vec<Alert>, width: u16) -> (r: Vec<(AlertSeverity, String)>)
    ensures
        alert_lines_view(r@) == alert_lines_of(alerts_view(alerts@), width as int),
{
    let w = width.saturating_sub(3) as usize;
    let mut all: Vec<(AlertSeverity, String)> = Vec::new();
    assert(alert_lines_view(all@) =~= Seq::<(AlertSeverity, Seq<char>)>::empty());
    push_severity_lines(alerts, AlertSeverity::Critical, w, &mut all);
    push_severity_lines(alerts, AlertSeverity::Warning, w, &mut all);
    push_severity_lines(alerts, AlertSeverity::Info, w, &mut all);
    let ghost whole = alert_lines_view(all@);
    let n: usize = if all.len() < 2 {
        all.len()
    } else {
        2
    };
    let mut r: Vec<(AlertSeverity, String)> = Vec::new();
    let mut i: usize = 0;
    while i < n
        invariant
            i <= n <= all@.len(),
            whole == alert_lines_view(all@),
            alert_lines_view(r@) == whole.take(i as int),
        decreases n - i,
    {
        let sev = all[i].0;
        let text = all[i].1.clone();
        assert(text@ == all@[i as int].1@);
        assert(whole[i as int] == (sev, text@));
        let ghost before = alert_lines_view(r@);
        r.push((sev, text));
        assert(alert_lines_view(r@) =~= before.push((sev, text@)));
        assert(whole.take(i + 1) =~= whole.take(i as int).push(whole[i as int]));
        i = i + 1;
    }
    r
}

/// How many alert lines fit on a card below `service_rows` service lines:
/// alerts start on the row after the services (the fifth row without
/// any) and stop before the tags row, the eighth.
pub open spec fn alert_rows_of(service_rows: int, alert_lines: int) -> int {
    let start = 4 + service_rows;
    if start >= 7 {
        0
    } else if alert_lines < 7 - start {
        alert_lines
    } else {
        7 - start
    }
}

/// How many alert lines a card shows; see [`alert_rows_of`].
pub fn card_alert_rows(service_rows: usize, alert_lines: usize) -> (r: usize)
    ensures
        r as int == alert_rows_of(service_rows as int, alert_lines as int),
{
    if service_rows >= 3 {
        0
    } else if alert_lines < 3 - service_rows {
        alert_lines
    } else {
        3 - service_rows
    }
}

/// The tags row of a card: `[tag] ` for each tag.
pub open spec fn tags_text(ts: Seq<Seq<char>>) -> Seq<char>
    decreases ts.len(),
{
    if ts.len() == 0 {
        Seq::empty()
    } else {
        tags_text(ts.drop_last()) + "["@ + ts.last() + "] "@
    }
}

/// The tags row of a card; see [`tags_text`].
pub fn card_tags(tags: &Vec<String>) -> (r: String)
    ensures
        r@ == tags_text(string_views(tags@)),
{
    let ghost tv = string_views(tags@);
    let mut r = String::new();
    let mut i: usize = 0;
    assert(tv.take(0) =~= Seq::<Seq<char>>::empty());
    while i < tags.len()
        invariant
            i <= tags@.len(),
            tv == string_views(tags@),
            r@ == tags_text(tv.take(i as int)),
        decreases tags@.len() - i,
    {
        assert(tv.take(i + 1).drop_last() == tv.take(i as int));
        assert(tv.take(i + 1).last() == tags@[i as int]@);
        push_str(&mut r, "[");
        push_str(&mut r, tags[i].as_str());
        push_str(&mut r, "] ");
        i = i + 1;
    }
    assert(tv.take(tags@.len() as int) == tv);
    r
}

/// The separator row of a card: `─` across the inner width.
pub fn card_separator(width: u16) -> (r: String)
    ensures
        r@ == Seq::new(width as nat, |i: int| '─'),
{
    let mut r = String::new();
    let mut i: u16 = 0;
    while i < width
        invariant
            i <= width,
            r@ == Seq::new(i as nat, |j: int| '─'),
        decreases width - i,
    {
        push_char(&mut r, '─');
        i = i + 1;
        assert(r@ =~= Seq::new(i as nat, |j: int| '─'));
    }
    r
}


/// The parts of a Docker summary: each positive count appears as its own
/// part (`N running`, `N stopped`, `N restarting`), and only those.
pub proof fn lemma_container_parts_shown(running: int, stopped: int, restarting: int)
    ensures
        running > 0 ==> container_parts(running, stopped, restarting).contains(int_text(running)
            + " running"@),
        stopped > 0 ==> container_parts(running, stopped, restarting).contains(int_text(stopped)
            + " stopped"@),
        restarting > 0 ==> container_parts(running, stopped, restarting).contains(int_text(
            restarting,
        ) + " restarting"@),
        container_parts(running, stopped, restarting).len() == (if running > 0 {
            1int
        } else {
            0
        }) + (if stopped > 0 {
            1int
        } else {
            0
        }) + (if restarting > 0 {
            1int
        } else {
            0
        }),
{
    let p = container_parts(running, stopped, restarting);
    let a: Seq<Seq<char>> = if running > 0 {
        seq![int_text(running) + " running"@]
    } else {
        Seq::empty()
    };
    let b: Seq<Seq<char>> = if stopped > 0 {
        seq![int_text(stopped) + " stopped"@]
    } else {
        Seq::empty()
    };
    let c: Seq<Seq<char>> = if restarting > 0 {
        seq![int_text(restarting) + " restarting"@]
    } else {
        Seq::empty()
    };
    assert(p == a + b + c);
    if running > 0 {
        assert(p[0] == int_text(running) + " running"@);
    }
    if stopped > 0 {
        assert(p[a.len() as int] == int_text(stopped) + " stopped"@);
    }
    if restarting > 0 {
        assert(p[(a.len() + b.len()) as int] == int_text(restarting) + " restarting"@);
    }
}


/// Fitting keeps the text's beginning and never exceeds the room: the
/// result has `min(len, max)` characters, agrees with the text on all of
/// them but a final `…`, which marks a cut.
pub proof fn lemma_fitted_shape(s: Seq<char>, max: nat)
    ensures
        fitted(s, max).len() == (if s.len() < max {
            s.len()
        } else {
            max
        }),
        forall|i: int| 0 <= i < fitted(s, max).len() - 1 ==> #[trigger] fitted(s, max)[i] == s[i],
        s.len() <= max ==> fitted(s, max) == s,
        s.len() > max > 0 ==> fitted(s, max).last() == '…',
{
}

} // verus!
