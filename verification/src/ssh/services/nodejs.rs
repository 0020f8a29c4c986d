//! Node.js provider: Node processes from `ps aux` and PM2-managed
//! applications, their resource use and health.

use vstd::prelude::*;

use super::{alert, metric_int};
use crate::event::{
    alert_of, alerts_view, has_critical, int_metric, lemma_alerts_push, metrics_view, Alert,
    AlertSeverity, AlertView, DetectedService, MetricView, ServiceKind, ServiceMetric,
    ServiceStatus, StatusView,
};
use crate::float_text::{float_exceeds, float_exceeds_in};
use crate::ssh::probe::ProbeOutput;
use crate::text::{
    chars_of, contains, contains_lit, find_char, is_first_occ,
    find_char_in, find_lit, find_str, fmt_i64, int_text, join, join_strings, lines, lines_of,
    owned, parse_i64, parse_i64_in, push_str, slice, split_ws, split_ws_in, starts_with,
    starts_with_lit, string_views, trim, trim_chars, views,
};

verus! {

/// Node.js service provider.
pub struct NodeJSProvider;

/// The part of the combined Node.js output being read.
#[derive(Debug, Clone, Copy, PartialEq, Eq, Structural)]
pub enum NodeSection {
    Processes,
    Pm2,
}

/// What has been read of the combined Node.js output so far.
pub ghost struct NodeScan {
    pub section: Option<NodeSection>,
    /// Node processes whose `%CPU` and `%MEM` fields are numbers.
    pub processes: int,
    /// Of those, the ones above 90% CPU.
    pub high_cpu: int,
    /// Of those, the ones above 50% memory.
    pub high_mem: int,
    /// PM2 lines reporting an online application.
    pub online: int,
    /// PM2 lines reporting an errored or stopped application.
    pub errored: int,
    /// Restart counts above ten, in order.
    pub restarts: Seq<int>,
}

/// The restart count on a PM2 line: the text after the first `"restart":`
/// up to the next `,` (else `}`, else the end), trimmed and read as an `i64`.
pub open spec fn restart_value(t: Seq<char>) -> Option<int> {
    match find_str(t, "\"restart\":"@) {
        None => None,
        Some(p) => {
            let after = t.skip(p + 10);
            let end = match find_char(after, ',') {
                Some(e) => e,
                None => match find_char(after, '}') {
                    Some(e) => e,
                    None => after.len() as int,
                },
            };
            parse_i64(trim(after.take(end)))
        },
    }
}

/// One `ps aux` line: `user pid %cpu %mem ...`; it counts when both
/// percentages read as `f64` numbers (see [`float_exceeds`]: exponents,
/// `inf` and `NaN` included), and is high when above 90 and 50.
pub open spec fn process_step(st: NodeScan, t: Seq<char>) -> NodeScan {
    let p = split_ws(t);
    if p.len() >= 4 && float_exceeds(p[2], 90) is Some && float_exceeds(p[3], 50) is Some {
        NodeScan {
            processes: st.processes + 1,
            high_cpu: st.high_cpu + if float_exceeds(p[2], 90)->0 {
                1int
            } else {
                0
            },
            high_mem: st.high_mem + if float_exceeds(p[3], 50)->0 {
                1int
            } else {
                0
            },
            ..st
        }
    } else {
        st
    }
}

/// One line of `pm2 jlist` output: status and restart count.
pub open spec fn pm2_step(st: NodeScan, t: Seq<char>) -> NodeScan {
    let st1 = if contains(t, "\"status\":"@) {
        if contains(t, "\"status\":\"errored\""@) || contains(t, "\"status\":\"stopped\""@) {
            NodeScan { errored: st.errored + 1, ..st }
        } else if contains(t, "\"status\":\"online\""@) {
            NodeScan { online: st.online + 1, ..st }
        } else {
            st
        }
    } else {
        st
    };
    match restart_value(t) {
        Some(r) => if r > 10 {
            NodeScan { restarts: st1.restarts.push(r), ..st1 }
        } else {
            st1
        },
        None => st1,
    }
}

/// One line of the combined output: `===NODE_...` and `===PM2_...` headers
/// switch section; blank lines are skipped.
pub open spec fn node_step(st: NodeScan, line: Seq<char>) -> NodeScan {
    let t = trim(line);
    if starts_with(t, "===NODE_"@) {
        NodeScan {
            section: if contains(t, "PROCESSES"@) {
                Some(NodeSection::Processes)
            } else {
                None
            },
            ..st
        }
    } else if starts_with(t, "===PM2_"@) {
        NodeScan {
            section: if contains(t, "STATUS"@) {
                Some(NodeSection::Pm2)
            } else {
                None
            },
            ..st
        }
    } else if t.len() == 0 {
        st
    } else if st.section == Some(NodeSection::Processes) {
        process_step(st, t)
    } else if st.section == Some(NodeSection::Pm2) {
        pm2_step(st, t)
    } else {
        st
    }
}

pub open spec fn node_scan(ls: Seq<Seq<char>>) -> NodeScan
    decreases ls.len(),
{
    if ls.len() == 0 {
        NodeScan {
            section: None,
            processes: 0,
            high_cpu: 0,
            high_mem: 0,
            online: 0,
            errored: 0,
            restarts: Seq::empty(),
        }
    } else {
        node_step(node_scan(ls.drop_last()), ls.last())
    }
}

/// A count as the report holds it, in an `i64`.
pub open spec fn tally(n: int) -> int {
    (n as i64) as int
}

/// The largest element of a sequence (0 for the empty one).
pub open spec fn seq_max(s: Seq<int>) -> int
    decreases s.len(),
{
    if s.len() == 0 {
        0
    } else if s.len() == 1 {
        s[0]
    } else {
        let m = seq_max(s.drop_last());
        if s.last() > m {
            s.last()
        } else {
            m
        }
    }
}

/// The metrics of a scan: process count, online and errored PM2 apps, and
/// the highest restart count when one is above ten.
pub open spec fn node_metrics(s: NodeScan) -> Seq<MetricView> {
    seq![
        int_metric("node_processes"@, tally(s.processes), ""@),
        int_metric("pm2_apps_online"@, tally(s.online), ""@),
        int_metric("pm2_apps_errored"@, tally(s.errored), ""@),
    ] + if s.restarts.len() > 0 {
        seq![int_metric("max_pm2_restarts"@, seq_max(s.restarts), ""@)]
    } else {
        Seq::empty()
    }
}

/// The alerts of a scan, in report order.
pub open spec fn node_alerts(s: NodeScan) -> Seq<AlertView> {
    (if tally(s.errored) > 0 {
        seq![
            alert_of(
                AlertSeverity::Critical,
                ServiceKind::NodeJS,
                int_text(tally(s.errored)) + " PM2 app(s) in errored state"@,
                Some("Check PM2 logs: pm2 logs"@),
            ),
        ]
    } else {
        Seq::empty()
    }) + (if tally(s.high_cpu) > 0 {
        seq![
            alert_of(
                AlertSeverity::Critical,
                ServiceKind::NodeJS,
                int_text(tally(s.high_cpu)) + " Node process(es) with >90% CPU"@,
                Some("Check process: ps aux | grep node"@),
            ),
        ]
    } else {
        Seq::empty()
    }) + (if tally(s.high_mem) > 0 {
        seq![
            alert_of(
                AlertSeverity::Warning,
                ServiceKind::NodeJS,
                int_text(tally(s.high_mem)) + " Node process(es) with >50% memory"@,
                None,
            ),
        ]
    } else {
        Seq::empty()
    }) + (if s.restarts.len() > 0 {
        seq![
            alert_of(
                AlertSeverity::Warning,
                ServiceKind::NodeJS,
                "PM2 app restarted "@ + int_text(seq_max(s.restarts)) + " times (high)"@,
                Some("Review PM2 logs for errors"@),
            ),
        ]
    } else {
        Seq::empty()
    })
}

/// The critical issues of a scan.
pub open spec fn node_issues(s: NodeScan) -> Seq<Seq<char>> {
    (if tally(s.errored) > 0 {
        seq!["PM2 apps errored"@]
    } else {
        Seq::empty()
    }) + (if tally(s.high_cpu) > 0 {
        seq!["high CPU"@]
    } else {
        Seq::empty()
    })
}

/// Overall status: critical issues first, then restarts or memory pressure,
/// then healthy if any Node process or online PM2 app was seen.
pub open spec fn node_status(s: NodeScan) -> StatusView {
    if node_issues(s).len() > 0 {
        StatusView::Critical(join(node_issues(s), ", "@))
    } else if s.restarts.len() > 0 || tally(s.high_mem) > 0 {
        StatusView::Degraded("performance issues"@)
    } else if tally(s.processes) > 0 || tally(s.online) > 0 {
        StatusView::Healthy
    } else {
        StatusView::Unknown
    }
}

/// The counts of a scan as the exec code holds them.
pub struct NodeCounts {
    pub processes: i64,
    pub high_cpu: i64,
    pub high_mem: i64,
    pub online: i64,
    pub errored: i64,
}

/// [`restart_value`] on a trimmed line.
fn restart_value_in(t: &Vec<char>) -> (r: Option<i64>)
    ensures
        r matches Some(x) ==> restart_value(t@) == Some(x as int),
        r is None ==> restart_value(t@) is None,
{
    let n = t.len();
    match find_lit(t, "\"restart\":") {
        None => None,
        Some(p) => {
            proof {
                reveal_strlit("\"restart\":");
                let pat = "\"restart\":"@;
                assert(exists|i: int| is_first_occ(t@, pat, i));
                assert(is_first_occ(t@, pat, p as int));
                assert(p + 10 <= n);
            }
            let after = slice(t, p + 10, n);
            assert(after@ == t@.skip(p + 10));
            let end = match find_char_in(&after, ',') {
                Some(e) => e,
                None => match find_char_in(&after, '}') {
                    Some(e) => e,
                    None => after.len(),
                },
            };
            let piece = slice(&after, 0, end);
            assert(piece@ == after@.take(end as int));
            let v = trim_chars(&piece);
            parse_i64_in(&v)
        },
    }
}

/// Reads the combined Node.js output into counts and restart counts above
/// ten.
fn scan_nodejs(output: &str) -> (r: (NodeCounts, Vec<i64>))
    ensures
        ({
            let s = node_scan(lines(output@));
            &&& r.0.processes == tally(s.processes)
            &&& r.0.high_cpu == tally(s.high_cpu)
            &&& r.0.high_mem == tally(s.high_mem)
            &&& r.0.online == tally(s.online)
            &&& r.0.errored == tally(s.errored)
            &&& r.1@.map_values(|x: i64| x as int) == s.restarts
        }),
{
    let v = chars_of(output);
    let ls = lines_of(&v);
    let ghost lv = views(ls@);
    let mut section: Option<NodeSection> = None;
    let mut processes: usize = 0;
    let mut high_cpu: usize = 0;
    let mut high_mem: usize = 0;
    let mut online: usize = 0;
    let mut errored: usize = 0;
    let mut restarts: Vec<i64> = Vec::new();
    let mut i: usize = 0;
    assert(lv.take(0) =~= Seq::<Seq<char>>::empty());
    assert(restarts@.map_values(|x: i64| x as int) =~= Seq::<int>::empty());
    while i < ls.len()
        invariant
            i <= ls.len(),
            lv == views(ls@),
            lv == lines(output@),
            processes <= i && high_cpu <= i && high_mem <= i && online <= i && errored <= i,
            ({
                let st = node_scan(lv.take(i as int));
                &&& st.section == section
                &&& st.processes == processes
                &&& st.high_cpu == high_cpu
                &&& st.high_mem == high_mem
                &&& st.online == online
                &&& st.errored == errored
                &&& st.restarts == restarts@.map_values(|x: i64| x as int)
            }),
        decreases ls.len() - i,
    {
        assert(lv.take(i + 1).drop_last() == lv.take(i as int));
        assert(lv.take(i + 1).last() == ls@[i as int]@);
        let t = trim_chars(&ls[i]);
        if starts_with_lit(&t, "===NODE_") {
            section = if contains_lit(&t, "PROCESSES") {
                Some(NodeSection::Processes)
            } else {
                None
            };
        } else if starts_with_lit(&t, "===PM2_") {
            section = if contains_lit(&t, "STATUS") {
                Some(NodeSection::Pm2)
            } else {
                None
            };
        } else if t.len() == 0 {
        } else if section == Some(NodeSection::Processes) {
            let p = split_ws_in(&t);
            if p.len() >= 4 {
                let cpu = float_exceeds_in(&p[2], 90);
                let mem = float_exceeds_in(&p[3], 50);
                match (cpu, mem) {
                    (Some(c), Some(m)) => {
                        processes = processes + 1;
                        if c {
                            high_cpu = high_cpu + 1;
                        }
                        if m {
                            high_mem = high_mem + 1;
                        }
                    },
                    _ => {},
                }
            }
        } else if section == Some(NodeSection::Pm2) {
            if contains_lit(&t, "\"status\":") {
                if contains_lit(&t, "\"status\":\"errored\"") || contains_lit(
                    &t,
                    "\"status\":\"stopped\"",
                ) {
                    errored = errored + 1;
                } else if contains_lit(&t, "\"status\":\"online\"") {
                    online = online + 1;
                }
            }
            match restart_value_in(&t) {
                Some(r) => {
                    if r > 10 {
                        let ghost r0 = restarts@;
                        restarts.push(r);
                        assert(restarts@.map_values(|x: i64| x as int) =~= r0.map_values(
                            |x: i64| x as int,
                        ).push(r as int));
                    }
                },
                None => {},
            }
        }
        i = i + 1;
    }
    assert(lv.take(ls.len() as int) == lv);
    let counts = NodeCounts {
        processes: processes as i64,
        high_cpu: high_cpu as i64,
        high_mem: high_mem as i64,
        online: online as i64,
        errored: errored as i64,
    };
    (counts, restarts)
}


/// The largest of a non-empty list of restart counts.
fn max_restarts(rs: &Vec<i64>) -> (m: i64)
    requires
        rs.len() > 0,
    ensures
        m == seq_max(rs@.map_values(|x: i64| x as int)),
{
    let ghost rv = rs@.map_values(|x: i64| x as int);
    let mut m = rs[0];
    let mut i: usize = 1;
    assert(rv.take(1).len() == 1);
    while i < rs.len()
        invariant
            1 <= i <= rs.len(),
            rv == rs@.map_values(|x: i64| x as int),
            m == seq_max(rv.take(i as int)),
        decreases rs.len() - i,
    {
        assert(rv.take(i + 1).drop_last() == rv.take(i as int));
        assert(rv.take(i + 1).last() == rs@[i as int] as int);
        if rs[i] > m {
            m = rs[i];
        }
        i = i + 1;
    }
    assert(rv.take(rs.len() as int) == rv);
    m
}

/// Analyses the combined Node.js output (`===NODE_PROCESSES===` with
/// `ps aux` lines, `===PM2_STATUS===` with `pm2 jlist` output) into metrics,
/// alerts and an overall status. The `%CPU` and `%MEM` fields are read as
/// `f64::from_str` reads them (see [`float_exceeds`]) and compared with 90
/// and 50 by their exact decimal value: infinity is above both, NaN above
/// neither. Only a value within an `f64` rounding step of a limit (such as
/// `90.00000000000000001`, which an `f64` rounds to 90) is decided
/// differently from a comparison of `f64` values.
pub fn parse_nodejs_output(output: &str) -> (r: (Vec<ServiceMetric>, Vec<Alert>, ServiceStatus))
    ensures
        ({
            let s = node_scan(lines(output@));
            &&& metrics_view(r.0@) == node_metrics(s)
            &&& alerts_view(r.1@) == node_alerts(s)
            &&& r.2@ == node_status(s)
        }),
{
    let (c, rs) = scan_nodejs(output);
    let ghost s = node_scan(lines(output@));
    let ghost rv = rs@.map_values(|x: i64| x as int);
    let has_restarts = rs.len() > 0;
    let max = if has_restarts {
        max_restarts(&rs)
    } else {
        0
    };

    let mut metrics: Vec<ServiceMetric> = Vec::new();
    metrics.push(metric_int("node_processes", c.processes, ""));
    metrics.push(metric_int("pm2_apps_online", c.online, ""));
    metrics.push(metric_int("pm2_apps_errored", c.errored, ""));
    if has_restarts {
        metrics.push(metric_int("max_pm2_restarts", max, ""));
    }
    assert(metrics_view(metrics@) =~= node_metrics(s));

    let mut alerts: Vec<Alert> = Vec::new();
    let mut issues: Vec<String> = Vec::new();
    if c.errored > 0 {
        let mut msg = fmt_i64(c.errored);
        push_str(&mut msg, " PM2 app(s) in errored state");
        alerts.push(
            alert(
                AlertSeverity::Critical,
                ServiceKind::NodeJS,
                msg,
                Some(owned("Check PM2 logs: pm2 logs")),
            ),
        );
        issues.push(owned("PM2 apps errored"));
    }
    let ghost a1 = alerts_view(alerts@);
    let ghost i1 = string_views(issues@);
    if c.high_cpu > 0 {
        let mut msg = fmt_i64(c.high_cpu);
        push_str(&mut msg, " Node process(es) with >90% CPU");
        let a = alert(
            AlertSeverity::Critical,
            ServiceKind::NodeJS,
            msg,
            Some(owned("Check process: ps aux | grep node")),
        );
        proof {
            lemma_alerts_push(alerts@, a);
        }
        alerts.push(a);
        let ghost i0 = issues@;
        issues.push(owned("high CPU"));
        assert(string_views(issues@) =~= string_views(i0).push("high CPU"@));
    }
    assert(string_views(issues@) =~= node_issues(s));
    let ghost a2 = alerts_view(alerts@);
    if c.high_mem > 0 {
        let mut msg = fmt_i64(c.high_mem);
        push_str(&mut msg, " Node process(es) with >50% memory");
        let a = alert(AlertSeverity::Warning, ServiceKind::NodeJS, msg, None);
        proof {
            lemma_alerts_push(alerts@, a);
        }
        alerts.push(a);
    }
    if has_restarts {
        let mut msg = owned("PM2 app restarted ");
        push_str(&mut msg, fmt_i64(max).as_str());
        push_str(&mut msg, " times (high)");
        let a = alert(
            AlertSeverity::Warning,
            ServiceKind::NodeJS,
            msg,
            Some(owned("Review PM2 logs for errors")),
        );
        proof {
            lemma_alerts_push(alerts@, a);
        }
        alerts.push(a);
    }
    assert(alerts_view(alerts@) =~= node_alerts(s));

    let status = if issues.len() > 0 {
        ServiceStatus::Critical(join_strings(&issues, ", "))
    } else if has_restarts || c.high_mem > 0 {
        ServiceStatus::Degraded(owned("performance issues"))
    } else if c.processes > 0 || c.online > 0 {
        ServiceStatus::Healthy
    } else {
        ServiceStatus::Unknown
    };
    (metrics, alerts, status)
}

/// Commands suggested for Node.js.
pub open spec fn nodejs_snippets() -> Seq<Seq<char>> {
    seq!["pm2 status"@, "pm2 logs"@, "pm2 monit"@, "ps aux | grep node"@]
}

impl NodeJSProvider {
    /// The service this provider handles.
    pub fn kind(&self) -> (k: ServiceKind)
        ensures
            k == ServiceKind::NodeJS,
    {
        ServiceKind::NodeJS
    }

    /// Node.js is present when the probe's `PROCESS` section mentions
    /// `node ` or `/node`.
    pub fn detect(&self, probe_output: &ProbeOutput) -> (r: bool)
        ensures
            r == (probe_output@.contains_key("PROCESS"@) && (contains(
                probe_output@["PROCESS"@],
                "node "@,
            ) || contains(probe_output@["PROCESS"@], "/node"@))),
    {
        match probe_output.get_section("PROCESS") {
            Some(s) => {
                let v = chars_of(s);
                contains_lit(&v, "node ") || contains_lit(&v, "/node")
            },
            None => false,
        }
    }

    /// The service record built from the output of the Node.js deep-probe
    /// command ([`NODEJS_COMMAND`]).
    pub fn service_from_output(&self, output: &str) -> (r: DetectedService)
        ensures
            ({
                let s = node_scan(lines(output@));
                &&& r.kind == ServiceKind::NodeJS
                &&& r.version is None
                &&& metrics_view(r.metrics@) == node_metrics(s)
                &&& alerts_view(r.alerts@) == node_alerts(s)
                &&& r.status@ == node_status(s)
                &&& string_views(r.suggested_snippets@) == nodejs_snippets()
            }),
    {
        let (metrics, alerts, status) = parse_nodejs_output(output);
        let snippets = vec![
            owned("pm2 status"),
            owned("pm2 logs"),
            owned("pm2 monit"),
            owned("ps aux | grep node"),
        ];
        assert(string_views(snippets@) =~= nodejs_snippets());
        DetectedService {
            kind: ServiceKind::NodeJS,
            version: None,
            status,
            metrics,
            alerts,
            suggested_snippets: snippets,
        }
    }
}

/// The deep-probe command whose output
/// [`NodeJSProvider::service_from_output`] reads.
pub const NODEJS_COMMAND: &'static str = r#"
echo "===NODE_PROCESSES==="
ps aux 2>/dev/null | grep -E '[n]ode ' | head -20
echo "===PM2_STATUS==="
pm2 jlist 2>/dev/null || echo "[]"
"#;


/// The overall status is critical exactly when some alert is critical.
pub proof fn lemma_node_critical_status(s: NodeScan)
    ensures
        (node_status(s) is Critical) <==> has_critical(node_alerts(s)),
{
    let a = node_alerts(s);
    if tally(s.errored) > 0 {
        assert(a[0].severity == AlertSeverity::Critical);
    } else if tally(s.high_cpu) > 0 {
        assert(a[0].severity == AlertSeverity::Critical);
    } else {
        assert forall|i: int| 0 <= i < a.len() implies (#[trigger] a[i]).severity
            != AlertSeverity::Critical by {}
    }
}


/// `seq_max` is the largest element: at least every element, and one of
/// them, for a non-empty sequence, whatever the order.
pub proof fn lemma_seq_max_is_largest(s: Seq<int>)
    ensures
        s.len() > 0 ==> (forall|i: int| 0 <= i < s.len() ==> s[i] <= seq_max(s)),
        s.len() > 0 ==> exists|i: int| 0 <= i < s.len() && s[i] == seq_max(s),
    decreases s.len(),
{
    if s.len() > 1 {
        let s0 = s.drop_last();
        lemma_seq_max_is_largest(s0);
        assert forall|i: int| 0 <= i < s.len() implies s[i] <= seq_max(s) by {
            if i < s0.len() {
                assert(s[i] == s0[i]);
            }
        }
        if seq_max(s) == s.last() {
            assert(s[s.len() - 1] == seq_max(s));
        } else {
            let i = choose|i: int| 0 <= i < s0.len() && s0[i] == seq_max(s0);
            assert(s[i] == s0[i]);
        }
    } else if s.len() == 1 {
        assert(s[0] == seq_max(s));
    }
}


/// What every scan of Node.js output satisfies: the processes above 90%
/// CPU and above 50% memory are among the processes counted, the counts
/// are not negative, and every restart count kept is above ten.
pub proof fn lemma_node_scan_bounds(ls: Seq<Seq<char>>)
    ensures
        0 <= node_scan(ls).high_cpu <= node_scan(ls).processes,
        0 <= node_scan(ls).high_mem <= node_scan(ls).processes,
        node_scan(ls).online >= 0,
        node_scan(ls).errored >= 0,
        forall|i: int| 0 <= i < node_scan(ls).restarts.len() ==> #[trigger] node_scan(ls).restarts[i]
            > 10,
    decreases ls.len(),
{
    if ls.len() > 0 {
        let l0 = ls.drop_last();
        lemma_node_scan_bounds(l0);
        let st = node_scan(l0);
        let t = trim(ls.last());
        let r = node_scan(ls);
        assert(r == node_step(st, ls.last()));
        if st.section == Some(NodeSection::Pm2) && !starts_with(t, "===NODE_"@) && !starts_with(
            t,
            "===PM2_"@,
        ) && t.len() > 0 {
            assert forall|i: int| 0 <= i < r.restarts.len() implies #[trigger] r.restarts[i] > 10 by {
                if i < st.restarts.len() {
                    assert(r.restarts[i] == st.restarts[i]);
                }
            }
        }
    }
}

/// How many of the positions `0..n` satisfy `p`.
pub open spec fn count_where(n: nat, p: spec_fn(int) -> bool) -> nat
    decreases n,
{
    if n == 0 {
        0
    } else {
        count_where((n - 1) as nat, p) + if p(n - 1) {
            1nat
        } else {
            0
        }
    }
}

proof fn lemma_count_where_agree(n: nat, p: spec_fn(int) -> bool, q: spec_fn(int) -> bool)
    requires
        forall|i: int| 0 <= i < n ==> #[trigger] p(i) == q(i),
    ensures
        count_where(n, p) == count_where(n, q),
    decreases n,
{
    if n > 0 {
        lemma_count_where_agree((n - 1) as nat, p, q);
    }
}

/// Line `i` of the output, trimmed, is content (neither blank nor a
/// header) read in section `sec`.
pub open spec fn node_content(ls: Seq<Seq<char>>, i: int, sec: NodeSection) -> bool {
    let t = trim(ls[i]);
    node_scan(ls.take(i)).section == Some(sec) && !starts_with(t, "===NODE_"@) && !starts_with(
        t,
        "===PM2_"@,
    ) && t.len() > 0
}

/// Line `i` is a `ps` line counted as a Node process: both percentages
/// read as numbers.
pub open spec fn process_line(ls: Seq<Seq<char>>, i: int) -> bool {
    let p = split_ws(trim(ls[i]));
    node_content(ls, i, NodeSection::Processes) && p.len() >= 4 && float_exceeds(p[2], 90) is Some
        && float_exceeds(p[3], 50) is Some
}

/// Line `i` is a counted process above 90% CPU.
pub open spec fn high_cpu_line(ls: Seq<Seq<char>>, i: int) -> bool {
    process_line(ls, i) && float_exceeds(split_ws(trim(ls[i]))[2], 90)->0
}

/// Line `i` is a counted process above 50% memory.
pub open spec fn high_mem_line(ls: Seq<Seq<char>>, i: int) -> bool {
    process_line(ls, i) && float_exceeds(split_ws(trim(ls[i]))[3], 50)->0
}

/// Line `i` is a PM2 line reporting an errored or stopped application.
pub open spec fn errored_line(ls: Seq<Seq<char>>, i: int) -> bool {
    let t = trim(ls[i]);
    node_content(ls, i, NodeSection::Pm2) && contains(t, "\"status\":"@) && (contains(
        t,
        "\"status\":\"errored\""@,
    ) || contains(t, "\"status\":\"stopped\""@))
}

/// Line `i` is a PM2 line reporting an online application.
pub open spec fn online_line(ls: Seq<Seq<char>>, i: int) -> bool {
    let t = trim(ls[i]);
    node_content(ls, i, NodeSection::Pm2) && contains(t, "\"status\":"@) && !(contains(
        t,
        "\"status\":\"errored\""@,
    ) || contains(t, "\"status\":\"stopped\""@)) && contains(t, "\"status\":\"online\""@)
}

proof fn lemma_node_prefix(ls: Seq<Seq<char>>, i: int)
    requires
        0 <= i < ls.len() - 1,
    ensures
        ls.take(i) == ls.drop_last().take(i),
        ls[i] == ls.drop_last()[i],
{
    assert(ls.take(i) =~= ls.drop_last().take(i));
}

/// The counts of a Node.js output are counts of its lines: the processes
/// counted are the `ps` lines of the processes section whose `%CPU` and
/// `%MEM` read as numbers, those above 90% CPU and above 50% memory are
/// among them, and the PM2 online and errored counts are the PM2 lines
/// reporting those states.
pub proof fn lemma_node_counts_from_output(ls: Seq<Seq<char>>)
    ensures
        node_scan(ls).processes == count_where(ls.len(), |i: int| process_line(ls, i)),
        node_scan(ls).high_cpu == count_where(ls.len(), |i: int| high_cpu_line(ls, i)),
        node_scan(ls).high_mem == count_where(ls.len(), |i: int| high_mem_line(ls, i)),
        node_scan(ls).errored == count_where(ls.len(), |i: int| errored_line(ls, i)),
        node_scan(ls).online == count_where(ls.len(), |i: int| online_line(ls, i)),
    decreases ls.len(),
{
    if ls.len() > 0 {
        let l0 = ls.drop_last();
        let n0 = l0.len();
        lemma_node_counts_from_output(l0);
        assert forall|i: int| 0 <= i < n0 implies process_line(ls, i) == process_line(l0, i)
            && high_cpu_line(ls, i) == high_cpu_line(l0, i) && high_mem_line(ls, i)
            == high_mem_line(l0, i) && errored_line(ls, i) == errored_line(l0, i) && online_line(
            ls,
            i,
        ) == online_line(l0, i) by {
            lemma_node_prefix(ls, i);
        }
        lemma_count_where_agree(n0, |i: int| process_line(ls, i), |i: int| process_line(l0, i));
        lemma_count_where_agree(n0, |i: int| high_cpu_line(ls, i), |i: int| high_cpu_line(l0, i));
        lemma_count_where_agree(n0, |i: int| high_mem_line(ls, i), |i: int| high_mem_line(l0, i));
        lemma_count_where_agree(n0, |i: int| errored_line(ls, i), |i: int| errored_line(l0, i));
        lemma_count_where_agree(n0, |i: int| online_line(ls, i), |i: int| online_line(l0, i));
        assert(ls.take(n0 as int) == l0);
        assert(ls[n0 as int] == ls.last());
        assert(node_scan(ls) == node_step(node_scan(l0), ls.last()));
    }
}
} // verus!
