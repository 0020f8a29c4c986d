//! Redis provider: responsiveness, memory use against `maxmemory`, evictions
//! and client count.

use vstd::prelude::*;

use super::{alert, metric_int};
use crate::event::{
    alert_of, alerts_view, has_critical, int_metric, lemma_alerts_push, metrics_view, Alert,
    AlertSeverity, AlertView, DetectedService, MetricView, ServiceKind, ServiceMetric,
    ServiceStatus, StatusView,
};
use crate::ssh::probe::ProbeOutput;
use crate::text::{
    chars_of, contains, contains_lit, fmt_i64, int_text, join, join_strings, lines, lines_of,
    owned, parse_u64, parse_unsigned, push_char, push_str, slice, starts_with, starts_with_lit,
    string_views, trim, trim_chars, views,
};

verus! {

/// Redis service provider.
pub struct RedisProvider;

/// The part of the Redis output being read.
#[derive(Debug, Clone, Copy, PartialEq, Eq, Structural)]
pub enum RedisSection {
    Ping,
    Info,
    Clients,
    Stats,
}

/// What has been read so far.
pub ghost struct RedisScan {
    pub section: Option<RedisSection>,
    pub responding: bool,
    /// Used memory in MiB.
    pub used: int,
    /// `maxmemory` in MiB.
    pub max: int,
    pub clients: int,
    pub evicted: int,
}

/// The value of an INFO line `key:value` with an unsigned integer value.
pub open spec fn redis_kv(t: Seq<char>, key: Seq<char>) -> Option<int> {
    if starts_with(t, key) {
        parse_unsigned(trim(t.subrange(key.len() as int, t.len() as int)), u64::MAX as int)
    } else {
        None
    }
}

/// Bytes to whole MiB, kept in an `i64`.
pub open spec fn mib(v: int) -> int {
    ((v / 1048576) as i64) as int
}

pub open spec fn redis_step(st: RedisScan, line: Seq<char>) -> RedisScan {
    let t = trim(line);
    if starts_with(t, "===REDIS_"@) {
        let sec = if contains(t, "PING"@) {
            Some(RedisSection::Ping)
        } else if contains(t, "INFO"@) {
            Some(RedisSection::Info)
        } else if contains(t, "CLIENTS"@) {
            Some(RedisSection::Clients)
        } else if contains(t, "STATS"@) {
            Some(RedisSection::Stats)
        } else {
            None
        };
        RedisScan { section: sec, ..st }
    } else if t.len() == 0 {
        st
    } else if st.section == Some(RedisSection::Ping) && contains(t, "PONG"@) {
        RedisScan { responding: true, ..st }
    } else if st.section == Some(RedisSection::Info) {
        if redis_kv(t, "used_memory:"@) is Some {
            RedisScan { used: mib(redis_kv(t, "used_memory:"@)->0), ..st }
        } else if redis_kv(t, "maxmemory:"@) is Some {
            RedisScan { max: mib(redis_kv(t, "maxmemory:"@)->0), ..st }
        } else if redis_kv(t, "evicted_keys:"@) is Some {
            RedisScan { evicted: ((redis_kv(t, "evicted_keys:"@)->0) as i64) as int, ..st }
        } else {
            st
        }
    } else if st.section == Some(RedisSection::Clients) && redis_kv(t, "connected_clients:"@) is Some {
        RedisScan { clients: ((redis_kv(t, "connected_clients:"@)->0) as i64) as int, ..st }
    } else {
        st
    }
}

pub open spec fn redis_scan(ls: Seq<Seq<char>>) -> RedisScan
    decreases ls.len(),
{
    if ls.len() == 0 {
        RedisScan {
            section: None,
            responding: false,
            used: 0,
            max: 0,
            clients: 0,
            evicted: 0,
        }
    } else {
        redis_step(redis_scan(ls.drop_last()), ls.last())
    }
}

/// Memory use above 90% of `maxmemory`.
pub open spec fn mem_critical(s: RedisScan) -> bool {
    s.max > 0 && 10 * s.used > 9 * s.max
}

/// Memory use above 80% of `maxmemory`.
pub open spec fn mem_high(s: RedisScan) -> bool {
    s.max > 0 && 5 * s.used > 4 * s.max
}

/// `used / max` in tenths of a percent, rounded to nearest, ties to even.
pub open spec fn tenths_pct(used: int, max: int) -> int {
    let q = (1000 * used) / max;
    let r = (1000 * used) % max;
    if 2 * r > max || (2 * r == max && q % 2 == 1) {
        q + 1
    } else {
        q
    }
}

/// A non-negative number of tenths written with one decimal.
pub open spec fn one_decimal(t: int) -> Seq<char> {
    int_text(t / 10) + seq!['.'] + int_text(t % 10)
}

/// `pct% (used/maxMB)`.
pub open spec fn mem_detail(s: RedisScan) -> Seq<char> {
    one_decimal(tenths_pct(s.used, s.max)) + "% ("@ + int_text(s.used) + seq!['/'] + int_text(
        s.max,
    ) + "MB)"@
}

pub open spec fn redis_metrics(s: RedisScan) -> Seq<MetricView> {
    seq![int_metric("memory_used_mb"@, s.used, "MB"@)] + (if s.max > 0 {
        seq![int_metric("memory_max_mb"@, s.max, "MB"@)]
    } else {
        Seq::empty()
    }) + seq![
        int_metric("connected_clients"@, s.clients, ""@),
        int_metric("evicted_keys"@, s.evicted, ""@),
    ]
}

pub open spec fn redis_alerts(s: RedisScan) -> Seq<AlertView> {
    (if !s.responding {
        seq![
            alert_of(
                AlertSeverity::Critical,
                ServiceKind::Redis,
                "Redis not responding to PING"@,
                Some("Check Redis service: sudo systemctl status redis"@),
            ),
        ]
    } else {
        Seq::empty()
    }) + (if mem_critical(s) {
        seq![
            alert_of(
                AlertSeverity::Critical,
                ServiceKind::Redis,
                "Memory usage critical: "@ + mem_detail(s),
                Some("Consider increasing maxmemory or reviewing eviction policy"@),
            ),
        ]
    } else if mem_high(s) {
        seq![
            alert_of(
                AlertSeverity::Warning,
                ServiceKind::Redis,
                "Memory usage high: "@ + mem_detail(s),
                None,
            ),
        ]
    } else {
        Seq::empty()
    }) + (if s.evicted > 100 {
        seq![
            alert_of(
                AlertSeverity::Warning,
                ServiceKind::Redis,
                int_text(s.evicted) + " keys evicted (memory pressure)"@,
                Some("Review maxmemory-policy setting"@),
            ),
        ]
    } else {
        Seq::empty()
    }) + (if s.clients > 1000 {
        seq![
            alert_of(
                AlertSeverity::Warning,
                ServiceKind::Redis,
                int_text(s.clients) + " connected clients (high)"@,
                Some("Check for connection leaks"@),
            ),
        ]
    } else {
        Seq::empty()
    })
}

pub open spec fn redis_issues(s: RedisScan) -> Seq<Seq<char>> {
    (if !s.responding {
        seq!["not responding"@]
    } else {
        Seq::empty()
    }) + (if mem_critical(s) {
        seq!["memory critical"@]
    } else {
        Seq::empty()
    })
}

pub open spec fn redis_status(s: RedisScan) -> StatusView {
    let issues = redis_issues(s);
    if issues.len() > 0 {
        StatusView::Critical(join(issues, ", "@))
    } else if s.evicted > 100 || mem_high(s) {
        StatusView::Degraded("memory pressure"@)
    } else if s.responding {
        StatusView::Healthy
    } else {
        StatusView::Unknown
    }
}

/// The value of a Redis INFO line `key:value`, if the line starts with `key`
/// and the rest is an unsigned integer.
fn parse_redis_kv(t: &Vec<char>, key: &str) -> (r: Option<u64>)
    ensures
        r matches Some(x) ==> redis_kv(t@, key@) == Some(x as int),
        r is None ==> redis_kv(t@, key@) is None,
{
    if starts_with_lit(t, key) {
        let k = chars_of(key);
        let rest = slice(t, k.len(), t.len());
        let rt = trim_chars(&rest);
        parse_u64(&rt)
    } else {
        None
    }
}

/// `used / max` as a percentage with one decimal.
fn mem_detail_exec(used: i64, max: i64) -> (r: String)
    requires
        0 <= used < 0x1000_0000_0000,
        0 < max < 0x1000_0000_0000,
    ensures
        r@ == one_decimal(tenths_pct(used as int, max as int)) + "% ("@ + int_text(used as int)
            + seq!['/'] + int_text(max as int) + "MB)"@,
{
    let n = 1000 * used;
    let q = n / max;
    let rem = n % max;
    let t = if 2 * rem > max || (2 * rem == max && q % 2 == 1) {
        q + 1
    } else {
        q
    };
    assert(t >= 0);
    let mut s = fmt_i64(t / 10);
    push_char(&mut s, '.');
    push_str(&mut s, fmt_i64(t % 10).as_str());
    push_str(&mut s, "% (");
    push_str(&mut s, fmt_i64(used).as_str());
    push_char(&mut s, '/');
    push_str(&mut s, fmt_i64(max).as_str());
    push_str(&mut s, "MB)");
    s
}

/// Analyses the Redis output (`===REDIS_PING===`, `===REDIS_INFO===`,
/// `===REDIS_CLIENTS===`, `===REDIS_STATS===`) into metrics, alerts and a
/// status.
pub fn parse_redis_output(output: &str) -> (r: (Vec<ServiceMetric>, Vec<Alert>, ServiceStatus))
    ensures
        ({
            let s = redis_scan(lines(output@));
            &&& metrics_view(r.0@) == redis_metrics(s)
            &&& alerts_view(r.1@) == redis_alerts(s)
            &&& r.2@ == redis_status(s)
            &&& !(r.2@ is Unknown)
            &&& (r.2@ is Critical) <==> (!s.responding || mem_critical(s))
            &&& !(r.2@ is Critical) && (s.evicted > 100 || mem_high(s)) ==> r.2@
                == StatusView::Degraded("memory pressure"@)
        }),
{
    proof {
        lemma_redis_status_cases(redis_scan(lines(output@)));
    }
    let v = chars_of(output);
    let ls = lines_of(&v);
    let mut section: Option<RedisSection> = None;
    let mut responding = false;
    let mut used: i64 = 0;
    let mut max: i64 = 0;
    let mut clients: i64 = 0;
    let mut evicted: i64 = 0;
    let mut i: usize = 0;
    while i < ls.len()
        invariant
            i <= ls.len(),
            views(ls@) == lines(output@),
            0 <= used < 0x1000_0000_0000,
            0 <= max < 0x1000_0000_0000,
            redis_scan(views(ls@).take(i as int)) == (RedisScan {
                section,
                responding,
                used: used as int,
                max: max as int,
                clients: clients as int,
                evicted: evicted as int,
            }),
        decreases ls.len() - i,
    {
        let ghost lv = views(ls@);
        assert(lv.take(i + 1).drop_last() == lv.take(i as int));
        assert(lv.take(i + 1).last() == ls@[i as int]@);
        let t = trim_chars(&ls[i]);
        if starts_with_lit(&t, "===REDIS_") {
            section = if contains_lit(&t, "PING") {
                Some(RedisSection::Ping)
            } else if contains_lit(&t, "INFO") {
                Some(RedisSection::Info)
            } else if contains_lit(&t, "CLIENTS") {
                Some(RedisSection::Clients)
            } else if contains_lit(&t, "STATS") {
                Some(RedisSection::Stats)
            } else {
                None
            };
        } else if t.len() == 0 {
        } else if section == Some(RedisSection::Ping) && contains_lit(&t, "PONG") {
            responding = true;
        } else if section == Some(RedisSection::Info) {
            match parse_redis_kv(&t, "used_memory:") {
                Some(x) => {
                    used = (x / 1048576) as i64;
                },
                None => match parse_redis_kv(&t, "maxmemory:") {
                    Some(x) => {
                        max = (x / 1048576) as i64;
                    },
                    None => match parse_redis_kv(&t, "evicted_keys:") {
                        Some(x) => {
                            evicted = x as i64;
                        },
                        None => {},
                    },
                },
            }
        } else if section == Some(RedisSection::Clients) {
            match parse_redis_kv(&t, "connected_clients:") {
                Some(x) => {
                    clients = x as i64;
                },
                None => {},
            }
        }
        i = i + 1;
    }
    assert(views(ls@).take(ls.len() as int) == views(ls@));
    let ghost s = redis_scan(lines(output@));

    let mut metrics: Vec<ServiceMetric> = Vec::new();
    metrics.push(metric_int("memory_used_mb", used, "MB"));
    if max > 0 {
        metrics.push(metric_int("memory_max_mb", max, "MB"));
    }
    metrics.push(metric_int("connected_clients", clients, ""));
    metrics.push(metric_int("evicted_keys", evicted, ""));
    assert(metrics_view(metrics@) =~= redis_metrics(s));

    let mut alerts: Vec<Alert> = Vec::new();
    let mut issues: Vec<String> = Vec::new();
    if !responding {
        let a = alert(
            AlertSeverity::Critical,
            ServiceKind::Redis,
            owned("Redis not responding to PING"),
            Some(owned("Check Redis service: sudo systemctl status redis")),
        );
        proof {
            lemma_alerts_push(alerts@, a);
        }
        alerts.push(a);
        issues.push(owned("not responding"));
    }
    if max > 0 {
        if 10 * used > 9 * max {
            let mut msg = owned("Memory usage critical: ");
            push_str(&mut msg, mem_detail_exec(used, max).as_str());
            let a = alert(
                AlertSeverity::Critical,
                ServiceKind::Redis,
                msg,
                Some(owned("Consider increasing maxmemory or reviewing eviction policy")),
            );
            proof {
                lemma_alerts_push(alerts@, a);
            }
            alerts.push(a);
            let ghost i0 = issues@;
            issues.push(owned("memory critical"));
            assert(string_views(issues@) =~= string_views(i0).push("memory critical"@));
        } else if 5 * used > 4 * max {
            let mut msg = owned("Memory usage high: ");
            push_str(&mut msg, mem_detail_exec(used, max).as_str());
            let a = alert(AlertSeverity::Warning, ServiceKind::Redis, msg, None);
            proof {
                lemma_alerts_push(alerts@, a);
            }
            alerts.push(a);
        }
    }
    if evicted > 100 {
        let mut msg = fmt_i64(evicted);
        push_str(&mut msg, " keys evicted (memory pressure)");
        let a = alert(
            AlertSeverity::Warning,
            ServiceKind::Redis,
            msg,
            Some(owned("Review maxmemory-policy setting")),
        );
        proof {
            lemma_alerts_push(alerts@, a);
        }
        alerts.push(a);
    }
    if clients > 1000 {
        let mut msg = fmt_i64(clients);
        push_str(&mut msg, " connected clients (high)");
        let a = alert(
            AlertSeverity::Warning,
            ServiceKind::Redis,
            msg,
            Some(owned("Check for connection leaks")),
        );
        proof {
            lemma_alerts_push(alerts@, a);
        }
        alerts.push(a);
    }
    assert(alerts_view(alerts@) =~= redis_alerts(s));
    assert(string_views(issues@) =~= redis_issues(s));

    let status = if issues.len() > 0 {
        ServiceStatus::Critical(join_strings(&issues, ", "))
    } else if evicted > 100 || (max > 0 && 5 * used > 4 * max) {
        ServiceStatus::Degraded(owned("memory pressure"))
    } else if responding {
        ServiceStatus::Healthy
    } else {
        ServiceStatus::Unknown
    };
    (metrics, alerts, status)
}

/// Commands suggested for Redis.
pub open spec fn redis_snippets() -> Seq<Seq<char>> {
    seq!["redis-cli info"@, "redis-cli ping"@, "redis-cli client list"@, "redis-cli info memory"@]
}

impl RedisProvider {
    /// The service this provider handles.
    pub fn kind(&self) -> (k: ServiceKind)
        ensures
            k == ServiceKind::Redis,
    {
        ServiceKind::Redis
    }

    /// Redis is present when the `LISTEN` section mentions port 6379 or the
    /// `PROCESS` section mentions `redis`.
    pub fn detect(&self, probe_output: &ProbeOutput) -> (r: bool)
        ensures
            r == ((probe_output@.contains_key("LISTEN"@) && (contains(
                probe_output@["LISTEN"@],
                ":6379"@,
            ) || contains(probe_output@["LISTEN"@], "6379"@))) || (probe_output@.contains_key(
                "PROCESS"@,
            ) && (contains(probe_output@["PROCESS"@], "redis-server"@) || contains(
                probe_output@["PROCESS"@],
                "redis"@,
            )))),
    {
        match probe_output.get_section("LISTEN") {
            Some(s) => {
                let v = chars_of(s);
                if contains_lit(&v, ":6379") || contains_lit(&v, "6379") {
                    return true;
                }
            },
            None => {},
        }
        match probe_output.get_section("PROCESS") {
            Some(s) => {
                let v = chars_of(s);
                if contains_lit(&v, "redis-server") || contains_lit(&v, "redis") {
                    return true;
                }
            },
            None => {},
        }
        false
    }

    /// The service record built from the output of [`REDIS_COMMAND`].
    pub fn service_from_output(&self, output: &str) -> (r: DetectedService)
        ensures
            ({
                let s = redis_scan(lines(output@));
                &&& r.kind == ServiceKind::Redis
                &&& r.version is None
                &&& metrics_view(r.metrics@) == redis_metrics(s)
                &&& alerts_view(r.alerts@) == redis_alerts(s)
                &&& r.status@ == redis_status(s)
                &&& string_views(r.suggested_snippets@) == redis_snippets()
            }),
    {
        let (metrics, alerts, status) = parse_redis_output(output);
        let snippets = vec![
            owned("redis-cli info"),
            owned("redis-cli ping"),
            owned("redis-cli client list"),
            owned("redis-cli info memory"),
        ];
        assert(string_views(snippets@) =~= redis_snippets());
        DetectedService {
            kind: ServiceKind::Redis,
            version: None,
            status,
            metrics,
            alerts,
            suggested_snippets: snippets,
        }
    }
}

/// The deep-probe command whose output [`RedisProvider::service_from_output`]
/// reads.
pub const REDIS_COMMAND: &'static str = r#"
echo "===REDIS_PING==="
redis-cli ping 2>/dev/null || echo "ERROR"
echo "===REDIS_INFO==="
redis-cli info memory 2>/dev/null | grep -E 'used_memory:|used_memory_peak:|maxmemory:|evicted_keys:' 2>/dev/null
echo "===REDIS_CLIENTS==="
redis-cli info clients 2>/dev/null | grep -E 'connected_clients:|blocked_clients:|maxclients:' 2>/dev/null
echo "===REDIS_STATS==="
redis-cli info stats 2>/dev/null | grep -E 'total_connections_received:|keyspace_hits:|keyspace_misses:' 2>/dev/null
"#;


/// The overall status is critical exactly when some alert is critical.
pub proof fn lemma_redis_critical_status(s: RedisScan)
    ensures
        (redis_status(s) is Critical) <==> has_critical(redis_alerts(s)),
{
    let a = redis_alerts(s);
    if !s.responding {
        assert(a[0].severity == AlertSeverity::Critical);
    } else if mem_critical(s) {
        assert(a[0].severity == AlertSeverity::Critical);
    } else {
        assert forall|i: int| 0 <= i < a.len() implies (#[trigger] a[i]).severity
            != AlertSeverity::Critical by {}
    }
}


/// The Redis status is never unknown: critical when Redis did not answer
/// `PING` or memory is above 90% of `maxmemory`; otherwise degraded with
/// "memory pressure" when more than 100 keys were evicted or memory is
/// above 80%; otherwise healthy.
pub proof fn lemma_redis_status_cases(s: RedisScan)
    ensures
        !(redis_status(s) is Unknown),
        (redis_status(s) is Critical) <==> (!s.responding || mem_critical(s)),
        !(redis_status(s) is Critical) && (s.evicted > 100 || mem_high(s)) ==> redis_status(s)
            == StatusView::Degraded("memory pressure"@),
        (redis_status(s) is Healthy) <==> (s.responding && !mem_critical(s) && !mem_high(s)
            && s.evicted <= 100),
{
}


/// The client count that line `i` of the output reports: a non-blank,
/// non-header line `connected_clients:N` read while in the
/// `REDIS_CLIENTS` section.
pub open spec fn clients_line(ls: Seq<Seq<char>>, i: int) -> Option<int> {
    let t = trim(ls[i]);
    if redis_scan(ls.take(i)).section == Some(RedisSection::Clients) && !starts_with(
        t,
        "===REDIS_"@,
    ) && t.len() > 0 {
        redis_kv(t, "connected_clients:"@)
    } else {
        None
    }
}

/// The connected clients reported are the `N` of the last
/// `connected_clients:N` line of the clients section (as an `i64`), and
/// 0 when there is none.
pub proof fn lemma_redis_clients_from_output(ls: Seq<Seq<char>>)
    ensures
        forall|i: int|
            0 <= i < ls.len() && #[trigger] clients_line(ls, i) is Some && (forall|j: int|
                i < j < ls.len() ==> clients_line(ls, j) is None) ==> redis_scan(ls).clients == ((
            clients_line(ls, i)->0) as i64) as int,
        (forall|i: int| 0 <= i < ls.len() ==> #[trigger] clients_line(ls, i) is None) ==> redis_scan(
            ls,
        ).clients == 0,
    decreases ls.len(),
{
    if ls.len() > 0 {
        let l0 = ls.drop_last();
        lemma_redis_clients_from_output(l0);
        assert forall|i: int| 0 <= i < l0.len() implies #[trigger] clients_line(ls, i)
            == clients_line(l0, i) by {
            assert(ls.take(i) == l0.take(i));
            assert(ls[i] == l0[i]);
        }
        let last = ls.len() - 1;
        assert(ls.take(last) == l0);
        assert(ls[last] == ls.last());
        if clients_line(ls, last) is None {
            assert(redis_scan(ls).clients == redis_scan(l0).clients);
            assert forall|i: int|
                0 <= i < ls.len() && #[trigger] clients_line(ls, i) is Some && (forall|j: int|
                    i < j < ls.len() ==> clients_line(ls, j) is None) implies redis_scan(ls).clients
                == ((clients_line(ls, i)->0) as i64) as int by {
                assert(i < last);
                assert forall|j: int| i < j < l0.len() implies clients_line(l0, j) is None by {
                    assert(clients_line(ls, j) is None);
                }
            }
            if forall|i: int| 0 <= i < ls.len() ==> #[trigger] clients_line(ls, i) is None {
                assert forall|i: int| 0 <= i < l0.len() implies #[trigger] clients_line(l0, i) is None by {
                    assert(clients_line(ls, i) is None);
                }
            }
        } else {
            assert forall|i: int|
                0 <= i < ls.len() && #[trigger] clients_line(ls, i) is Some && (forall|j: int|
                    i < j < ls.len() ==> clients_line(ls, j) is None) implies redis_scan(ls).clients
                == ((clients_line(ls, i)->0) as i64) as int by {
                if i < last {
                    assert(clients_line(ls, last) is None);
                }
            }
        }
    }
}

/// More than a thousand connected clients raise a warning that names the
/// count, and the count is reported as the `connected_clients` metric.
pub proof fn lemma_redis_many_clients_warned(s: RedisScan)
    ensures
        redis_metrics(s).contains(int_metric("connected_clients"@, s.clients, ""@)),
        s.clients > 1000 ==> exists|i: int|
            0 <= i < redis_alerts(s).len() && (#[trigger] redis_alerts(s)[i]).severity
                == AlertSeverity::Warning && redis_alerts(s)[i].message == int_text(s.clients)
                + " connected clients (high)"@,
{
    let m = redis_metrics(s);
    let k = m.len() - 2;
    assert(m[k] == int_metric("connected_clients"@, s.clients, ""@));
    if s.clients > 1000 {
        let a = redis_alerts(s);
        assert(a[a.len() - 1].message == int_text(s.clients) + " connected clients (high)"@);
    }
}


/// Line `i` is a non-blank, non-header line read in section `sec`.
pub open spec fn plain_line_in(ls: Seq<Seq<char>>, i: int, sec: RedisSection) -> bool {
    let t = trim(ls[i]);
    redis_scan(ls.take(i)).section == Some(sec) && !starts_with(t, "===REDIS_"@) && t.len() > 0
}

/// The bytes of used memory that line `i` of the INFO section reports.
pub open spec fn used_line(ls: Seq<Seq<char>>, i: int) -> Option<int> {
    if plain_line_in(ls, i, RedisSection::Info) {
        redis_kv(trim(ls[i]), "used_memory:"@)
    } else {
        None
    }
}

/// The bytes of `maxmemory` that line `i` of the INFO section reports.
pub open spec fn max_line(ls: Seq<Seq<char>>, i: int) -> Option<int> {
    if plain_line_in(ls, i, RedisSection::Info) && redis_kv(trim(ls[i]), "used_memory:"@) is None {
        redis_kv(trim(ls[i]), "maxmemory:"@)
    } else {
        None
    }
}

/// The evicted keys that line `i` of the INFO section reports.
pub open spec fn evicted_line(ls: Seq<Seq<char>>, i: int) -> Option<int> {
    if plain_line_in(ls, i, RedisSection::Info) && redis_kv(trim(ls[i]), "used_memory:"@) is None
        && redis_kv(trim(ls[i]), "maxmemory:"@) is None {
        redis_kv(trim(ls[i]), "evicted_keys:"@)
    } else {
        None
    }
}

/// Line `i` is a `PONG` answer in the PING section.
pub open spec fn pong_line(ls: Seq<Seq<char>>, i: int) -> bool {
    plain_line_in(ls, i, RedisSection::Ping) && contains(trim(ls[i]), "PONG"@)
}

proof fn lemma_redis_step_parts(st: RedisScan, line: Seq<char>)
    ensures
        ({
            let t = trim(line);
            let plain = !starts_with(t, "===REDIS_"@) && t.len() > 0;
            let info = plain && st.section == Some(RedisSection::Info);
            let u = redis_kv(t, "used_memory:"@);
            let m = redis_kv(t, "maxmemory:"@);
            let e = redis_kv(t, "evicted_keys:"@);
            &&& redis_step(st, line).responding == (st.responding || (plain && st.section == Some(
                RedisSection::Ping,
            ) && contains(t, "PONG"@)))
            &&& redis_step(st, line).used == if info && u is Some {
                mib(u->0)
            } else {
                st.used
            }
            &&& redis_step(st, line).max == if info && u is None && m is Some {
                mib(m->0)
            } else {
                st.max
            }
            &&& redis_step(st, line).evicted == if info && u is None && m is None && e is Some {
                ((e->0) as i64) as int
            } else {
                st.evicted
            }
        }),
{
}

proof fn lemma_redis_lines_agree(ls: Seq<Seq<char>>)
    requires
        ls.len() > 0,
    ensures
        forall|i: int| 0 <= i < ls.len() - 1 ==> #[trigger] used_line(ls, i) == used_line(
            ls.drop_last(),
            i,
        ),
        forall|i: int| 0 <= i < ls.len() - 1 ==> #[trigger] max_line(ls, i) == max_line(
            ls.drop_last(),
            i,
        ),
        forall|i: int| 0 <= i < ls.len() - 1 ==> #[trigger] evicted_line(ls, i) == evicted_line(
            ls.drop_last(),
            i,
        ),
        forall|i: int| 0 <= i < ls.len() - 1 ==> #[trigger] pong_line(ls, i) == pong_line(
            ls.drop_last(),
            i,
        ),
        ls.take(ls.len() - 1) == ls.drop_last(),
        redis_scan(ls) == redis_step(redis_scan(ls.drop_last()), ls[ls.len() - 1]),
{
    let l0 = ls.drop_last();
    assert forall|i: int| 0 <= i < l0.len() implies ls.take(i) == l0.take(i) && ls[i] == l0[i] by {
        assert(ls.take(i) =~= l0.take(i));
    }
    assert forall|i: int| 0 <= i < l0.len() implies #[trigger] used_line(ls, i) == used_line(l0, i) by {
        assert(ls.take(i) == l0.take(i) && ls[i] == l0[i]);
    }
    assert forall|i: int| 0 <= i < l0.len() implies #[trigger] max_line(ls, i) == max_line(l0, i) by {
        assert(ls.take(i) == l0.take(i) && ls[i] == l0[i]);
    }
    assert forall|i: int| 0 <= i < l0.len() implies #[trigger] evicted_line(ls, i) == evicted_line(
        l0,
        i,
    ) by {
        assert(ls.take(i) == l0.take(i) && ls[i] == l0[i]);
    }
    assert forall|i: int| 0 <= i < l0.len() implies #[trigger] pong_line(ls, i) == pong_line(l0, i) by {
        assert(ls.take(i) == l0.take(i) && ls[i] == l0[i]);
    }
    assert(ls.take(ls.len() - 1) == l0);
}

/// Redis is reported responding exactly when some line of the PING
/// section holds `PONG`.
pub proof fn lemma_redis_responding_from_output(ls: Seq<Seq<char>>)
    ensures
        redis_scan(ls).responding <==> exists|i: int| 0 <= i < ls.len() && #[trigger] pong_line(ls, i),
    decreases ls.len(),
{
    if ls.len() > 0 {
        let l0 = ls.drop_last();
        let last = ls.len() - 1;
        lemma_redis_responding_from_output(l0);
        lemma_redis_lines_agree(ls);
        lemma_redis_step_parts(redis_scan(l0), ls[last]);
        if exists|i: int| 0 <= i < l0.len() && #[trigger] pong_line(l0, i) {
            let i = choose|i: int| 0 <= i < l0.len() && #[trigger] pong_line(l0, i);
            assert(pong_line(ls, i));
        }
        if exists|i: int| 0 <= i < ls.len() && #[trigger] pong_line(ls, i) {
            let i = choose|i: int| 0 <= i < ls.len() && #[trigger] pong_line(ls, i);
            if i < last {
                assert(pong_line(l0, i));
            }
        }
        if pong_line(ls, last) {
            assert(0 <= last < ls.len() && pong_line(ls, last));
        }
    }
}

/// The used memory reported is the last `used_memory:` value of the INFO
/// section in whole MiB, 0 without one.
pub proof fn lemma_redis_used_from_output(ls: Seq<Seq<char>>)
    ensures
        forall|i: int|
            0 <= i < ls.len() && #[trigger] used_line(ls, i) is Some && (forall|j: int|
                i < j < ls.len() ==> used_line(ls, j) is None) ==> redis_scan(ls).used
                == mib(used_line(ls, i)->0),
        (forall|i: int| 0 <= i < ls.len() ==> #[trigger] used_line(ls, i) is None) ==> redis_scan(
            ls,
        ).used == 0,
    decreases ls.len(),
{
    if ls.len() > 0 {
        let l0 = ls.drop_last();
        let last = ls.len() - 1;
        lemma_redis_used_from_output(l0);
        lemma_redis_lines_agree(ls);
        lemma_redis_step_parts(redis_scan(l0), ls[last]);
        if used_line(ls, last) is None {
            assert forall|i: int|
                0 <= i < ls.len() && #[trigger] used_line(ls, i) is Some && (forall|j: int|
                    i < j < ls.len() ==> used_line(ls, j) is None) implies redis_scan(ls).used
                == mib(used_line(ls, i)->0) by {
                assert forall|j: int| i < j < l0.len() implies used_line(l0, j) is None by {
                    assert(used_line(ls, j) is None);
                }
            }
            if forall|i: int| 0 <= i < ls.len() ==> #[trigger] used_line(ls, i) is None {
                assert forall|i: int| 0 <= i < l0.len() implies #[trigger] used_line(l0, i) is None by {
                    assert(used_line(ls, i) is None);
                }
            }
        } else {
            assert forall|i: int|
                0 <= i < ls.len() && #[trigger] used_line(ls, i) is Some && (forall|j: int|
                    i < j < ls.len() ==> used_line(ls, j) is None) implies redis_scan(ls).used
                == mib(used_line(ls, i)->0) by {
                if i < last {
                    assert(used_line(ls, last) is None);
                }
            }
        }
    }
}

/// The `maxmemory` reported is the last `maxmemory:` value of the INFO
/// section in whole MiB, 0 without one.
pub proof fn lemma_redis_max_from_output(ls: Seq<Seq<char>>)
    ensures
        forall|i: int|
            0 <= i < ls.len() && #[trigger] max_line(ls, i) is Some && (forall|j: int|
                i < j < ls.len() ==> max_line(ls, j) is None) ==> redis_scan(ls).max
                == mib(max_line(ls, i)->0),
        (forall|i: int| 0 <= i < ls.len() ==> #[trigger] max_line(ls, i) is None) ==> redis_scan(
            ls,
        ).max == 0,
    decreases ls.len(),
{
    if ls.len() > 0 {
        let l0 = ls.drop_last();
        let last = ls.len() - 1;
        lemma_redis_max_from_output(l0);
        lemma_redis_lines_agree(ls);
        lemma_redis_step_parts(redis_scan(l0), ls[last]);
        if max_line(ls, last) is None {
            assert forall|i: int|
                0 <= i < ls.len() && #[trigger] max_line(ls, i) is Some && (forall|j: int|
                    i < j < ls.len() ==> max_line(ls, j) is None) implies redis_scan(ls).max
                == mib(max_line(ls, i)->0) by {
                assert forall|j: int| i < j < l0.len() implies max_line(l0, j) is None by {
                    assert(max_line(ls, j) is None);
                }
            }
            if forall|i: int| 0 <= i < ls.len() ==> #[trigger] max_line(ls, i) is None {
                assert forall|i: int| 0 <= i < l0.len() implies #[trigger] max_line(l0, i) is None by {
                    assert(max_line(ls, i) is None);
                }
            }
        } else {
            assert forall|i: int|
                0 <= i < ls.len() && #[trigger] max_line(ls, i) is Some && (forall|j: int|
                    i < j < ls.len() ==> max_line(ls, j) is None) implies redis_scan(ls).max
                == mib(max_line(ls, i)->0) by {
                if i < last {
                    assert(max_line(ls, last) is None);
                }
            }
        }
    }
}

/// The evicted keys reported are the last `evicted_keys:` value of the INFO
/// section (as an `i64`), 0 without one.
pub proof fn lemma_redis_evicted_from_output(ls: Seq<Seq<char>>)
    ensures
        forall|i: int|
            0 <= i < ls.len() && #[trigger] evicted_line(ls, i) is Some && (forall|j: int|
                i < j < ls.len() ==> evicted_line(ls, j) is None) ==> redis_scan(ls).evicted
                == ((evicted_line(ls, i)->0) as i64) as int,
        (forall|i: int| 0 <= i < ls.len() ==> #[trigger] evicted_line(ls, i) is None) ==> redis_scan(
            ls,
        ).evicted == 0,
    decreases ls.len(),
{
    if ls.len() > 0 {
        let l0 = ls.drop_last();
        let last = ls.len() - 1;
        lemma_redis_evicted_from_output(l0);
        lemma_redis_lines_agree(ls);
        lemma_redis_step_parts(redis_scan(l0), ls[last]);
        if evicted_line(ls, last) is None {
            assert forall|i: int|
                0 <= i < ls.len() && #[trigger] evicted_line(ls, i) is Some && (forall|j: int|
                    i < j < ls.len() ==> evicted_line(ls, j) is None) implies redis_scan(ls).evicted
                == ((evicted_line(ls, i)->0) as i64) as int by {
                assert forall|j: int| i < j < l0.len() implies evicted_line(l0, j) is None by {
                    assert(evicted_line(ls, j) is None);
                }
            }
            if forall|i: int| 0 <= i < ls.len() ==> #[trigger] evicted_line(ls, i) is None {
                assert forall|i: int| 0 <= i < l0.len() implies #[trigger] evicted_line(l0, i) is None by {
                    assert(evicted_line(ls, i) is None);
                }
            }
        } else {
            assert forall|i: int|
                0 <= i < ls.len() && #[trigger] evicted_line(ls, i) is Some && (forall|j: int|
                    i < j < ls.len() ==> evicted_line(ls, j) is None) implies redis_scan(ls).evicted
                == ((evicted_line(ls, i)->0) as i64) as int by {
                if i < last {
                    assert(evicted_line(ls, last) is None);
                }
            }
        }
    }
}
} // verus!
