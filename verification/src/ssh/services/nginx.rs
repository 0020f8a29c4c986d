//! Nginx provider: configuration test result and recent 502/504 errors.

use vstd::prelude::*;

use super::{alert, metric_int};
use crate::event::{
    alert_of, alerts_view, int_metric, lemma_alerts_push, metrics_view, Alert, AlertSeverity,
    AlertView, DetectedService, MetricView, ServiceKind, ServiceMetric, ServiceStatus, StatusView,
};
use crate::ssh::probe::ProbeOutput;
use crate::text::{
    chars_of, contains, contains_lit, fmt_i64, int_text, lines, lines_of, owned, parse_i64,
    parse_i64_in, push_str, starts_with, starts_with_lit, string_views, trim, trim_chars, views,
};

verus! {

/// Nginx service provider.
pub struct NginxProvider;

/// The part of the Nginx output being read.
#[derive(Debug, Clone, Copy, PartialEq, Eq, Structural)]
pub enum NginxSection {
    Config,
    Errors,
}

/// What has been read so far: (section, configuration ok, error count).
pub type NginxScan = (Option<NginxSection>, bool, int);

/// One line: `===NGINX_...===` headers switch section; in the config section
/// a line mentioning `test failed` or `error` marks the configuration bad; in
/// the errors section an integer line sets the error count.
pub open spec fn nginx_step(st: NginxScan, line: Seq<char>) -> NginxScan {
    let t = trim(line);
    if starts_with(t, "===NGINX_"@) {
        let sec = if contains(t, "CONFIG"@) {
            Some(NginxSection::Config)
        } else if contains(t, "ERRORS"@) {
            Some(NginxSection::Errors)
        } else {
            None
        };
        (sec, st.1, st.2)
    } else if st.0 == Some(NginxSection::Config) && (contains(t, "test failed"@) || contains(
        t,
        "error"@,
    )) {
        (st.0, false, st.2)
    } else if st.0 == Some(NginxSection::Errors) && parse_i64(trim(t)) is Some {
        (st.0, st.1, parse_i64(trim(t))->0)
    } else {
        st
    }
}

pub open spec fn nginx_scan(ls: Seq<Seq<char>>) -> NginxScan
    decreases ls.len(),
{
    if ls.len() == 0 {
        (None, true, 0)
    } else {
        nginx_step(nginx_scan(ls.drop_last()), ls.last())
    }
}

pub open spec fn nginx_metrics(errors: int) -> Seq<MetricView> {
    seq![int_metric("recent_502_504_errors"@, errors, ""@)]
}

pub open spec fn nginx_alerts(config_ok: bool, errors: int) -> Seq<AlertView> {
    (if !config_ok {
        seq![
            alert_of(
                AlertSeverity::Warning,
                ServiceKind::Nginx,
                "Nginx configuration has errors"@,
                Some("sudo nginx -t"@),
            ),
        ]
    } else {
        Seq::empty()
    }) + (if errors > 0 {
        seq![
            alert_of(
                AlertSeverity::Critical,
                ServiceKind::Nginx,
                int_text(errors) + " 502/504 errors in recent logs"@,
                Some("Check upstream services"@),
            ),
        ]
    } else {
        Seq::empty()
    })
}

pub open spec fn nginx_status(config_ok: bool, errors: int) -> StatusView {
    if !config_ok || errors > 0 {
        StatusView::Degraded("errors detected"@)
    } else {
        StatusView::Healthy
    }
}

/// Analyses the Nginx output (`===NGINX_CONFIG===` with `nginx -t` output,
/// `===NGINX_ERRORS===` with a count) into metrics, alerts and a status.
pub fn parse_nginx_output(output: &str) -> (r: (Vec<ServiceMetric>, Vec<Alert>, ServiceStatus))
    ensures
        ({
            let s = nginx_scan(lines(output@));
            &&& metrics_view(r.0@) == nginx_metrics(s.2)
            &&& alerts_view(r.1@) == nginx_alerts(s.1, s.2)
            &&& r.2@ == nginx_status(s.1, s.2)
            &&& !(r.2@ is Critical) && !(r.2@ is Unknown)
            &&& (r.2@ == StatusView::Degraded("errors detected"@)) <==> (!s.1 || s.2 > 0)
            &&& r.1@.len() == (if s.1 {
                0int
            } else {
                1int
            }) + (if s.2 > 0 {
                1int
            } else {
                0int
            })
        }),
{
    proof {
        let s = nginx_scan(lines(output@));
        lemma_nginx_status_cases(s.1, s.2);
    }
    let v = chars_of(output);
    let ls = lines_of(&v);
    let mut section: Option<NginxSection> = None;
    let mut config_ok = true;
    let mut error_count: i64 = 0;
    let mut i: usize = 0;
    while i < ls.len()
        invariant
            i <= ls.len(),
            views(ls@) == lines(output@),
            nginx_scan(views(ls@).take(i as int)) == (section, config_ok, error_count as int),
        decreases ls.len() - i,
    {
        let ghost lv = views(ls@);
        assert(lv.take(i + 1).drop_last() == lv.take(i as int));
        assert(lv.take(i + 1).last() == ls@[i as int]@);
        let t = trim_chars(&ls[i]);
        if starts_with_lit(&t, "===NGINX_") {
            section = if contains_lit(&t, "CONFIG") {
                Some(NginxSection::Config)
            } else if contains_lit(&t, "ERRORS") {
                Some(NginxSection::Errors)
            } else {
                None
            };
        } else if section == Some(NginxSection::Config) && (contains_lit(&t, "test failed")
            || contains_lit(&t, "error")) {
            config_ok = false;
        } else if section == Some(NginxSection::Errors) {
            let tt = trim_chars(&t);
            match parse_i64_in(&tt) {
                Some(n) => {
                    error_count = n;
                },
                None => {},
            }
        }
        i = i + 1;
    }
    assert(views(ls@).take(ls.len() as int) == views(ls@));

    let mut metrics: Vec<ServiceMetric> = Vec::new();
    metrics.push(metric_int("recent_502_504_errors", error_count, ""));
    assert(metrics_view(metrics@) =~= nginx_metrics(error_count as int));

    let mut alerts: Vec<Alert> = Vec::new();
    if !config_ok {
        let a = alert(
            AlertSeverity::Warning,
            ServiceKind::Nginx,
            owned("Nginx configuration has errors"),
            Some(owned("sudo nginx -t")),
        );
        proof {
            lemma_alerts_push(alerts@, a);
        }
        alerts.push(a);
    }
    if error_count > 0 {
        let mut msg = fmt_i64(error_count);
        push_str(&mut msg, " 502/504 errors in recent logs");
        let a = alert(
            AlertSeverity::Critical,
            ServiceKind::Nginx,
            msg,
            Some(owned("Check upstream services")),
        );
        proof {
            lemma_alerts_push(alerts@, a);
        }
        alerts.push(a);
    }
    assert(alerts_view(alerts@) =~= nginx_alerts(config_ok, error_count as int));

    let status = if !config_ok || error_count > 0 {
        ServiceStatus::Degraded(owned("errors detected"))
    } else {
        ServiceStatus::Healthy
    };
    (metrics, alerts, status)
}

/// Commands suggested for Nginx.
pub open spec fn nginx_snippets() -> Seq<Seq<char>> {
    seq![
        "sudo nginx -t"@,
        "sudo systemctl reload nginx"@,
        "sudo tail -f /var/log/nginx/error.log"@,
    ]
}

impl NginxProvider {
    /// The service this provider handles.
    pub fn kind(&self) -> (k: ServiceKind)
        ensures
            k == ServiceKind::Nginx,
    {
        ServiceKind::Nginx
    }

    /// Nginx is present when the `SERVICES` or the `PROCESS` section of the
    /// probe mentions `nginx`.
    pub fn detect(&self, probe_output: &ProbeOutput) -> (r: bool)
        ensures
            r == ((probe_output@.contains_key("SERVICES"@) && contains(
                probe_output@["SERVICES"@],
                "nginx"@,
            )) || (probe_output@.contains_key("PROCESS"@) && contains(
                probe_output@["PROCESS"@],
                "nginx"@,
            ))),
    {
        match probe_output.get_section("SERVICES") {
            Some(s) => {
                let v = chars_of(s);
                if contains_lit(&v, "nginx") {
                    return true;
                }
            },
            None => {},
        }
        match probe_output.get_section("PROCESS") {
            Some(s) => {
                let v = chars_of(s);
                if contains_lit(&v, "nginx") {
                    return true;
                }
            },
            None => {},
        }
        false
    }

    /// The service record built from the output of [`NGINX_COMMAND`].
    pub fn service_from_output(&self, output: &str) -> (r: DetectedService)
        ensures
            ({
                let s = nginx_scan(lines(output@));
                &&& r.kind == ServiceKind::Nginx
                &&& r.version is None
                &&& metrics_view(r.metrics@) == nginx_metrics(s.2)
                &&& alerts_view(r.alerts@) == nginx_alerts(s.1, s.2)
                &&& r.status@ == nginx_status(s.1, s.2)
                &&& string_views(r.suggested_snippets@) == nginx_snippets()
            }),
    {
        let (metrics, alerts, status) = parse_nginx_output(output);
        let snippets = vec![
            owned("sudo nginx -t"),
            owned("sudo systemctl reload nginx"),
            owned("sudo tail -f /var/log/nginx/error.log"),
        ];
        assert(string_views(snippets@) =~= nginx_snippets());
        DetectedService {
            kind: ServiceKind::Nginx,
            version: None,
            status,
            metrics,
            alerts,
            suggested_snippets: snippets,
        }
    }
}

/// The deep-probe command whose output [`NginxProvider::service_from_output`]
/// reads.
pub const NGINX_COMMAND: &'static str = r#"
echo "===NGINX_CONFIG==="
nginx -t 2>&1
echo "===NGINX_ERRORS==="
tail -20 /var/log/nginx/error.log 2>/dev/null | grep -E '502|504' 2>/dev/null | wc -l
"#;


/// The Nginx status is never critical and never unknown: degraded with
/// "errors detected" exactly when the configuration test failed or some
/// 502/504 errors were counted, healthy otherwise; the alerts are a warning
/// for a failed configuration test and a critical alert for counted errors.
pub proof fn lemma_nginx_status_cases(config_ok: bool, errors: int)
    ensures
        !(nginx_status(config_ok, errors) is Critical),
        !(nginx_status(config_ok, errors) is Unknown),
        (nginx_status(config_ok, errors) == StatusView::Degraded("errors detected"@)) <==> (
        !config_ok || errors > 0),
        nginx_alerts(config_ok, errors).len() == (if config_ok {
            0int
        } else {
            1int
        }) + (if errors > 0 {
            1int
        } else {
            0int
        }),
        !config_ok ==> nginx_alerts(config_ok, errors)[0].severity == AlertSeverity::Warning,
        errors > 0 ==> nginx_alerts(config_ok, errors).last().severity == AlertSeverity::Critical,
{
}


/// The 502/504 count that line `i` reports: a non-header line of the
/// `NGINX_ERRORS` section that reads as an integer.
pub open spec fn error_count_line(ls: Seq<Seq<char>>, i: int) -> Option<int> {
    let t = trim(ls[i]);
    if nginx_scan(ls.take(i)).0 == Some(NginxSection::Errors) && !starts_with(t, "===NGINX_"@) {
        parse_i64(trim(t))
    } else {
        None
    }
}

/// Line `i` reports a failed configuration test: a non-header line of the
/// `NGINX_CONFIG` section mentioning `test failed` or `error`.
pub open spec fn config_failure_line(ls: Seq<Seq<char>>, i: int) -> bool {
    let t = trim(ls[i]);
    nginx_scan(ls.take(i)).0 == Some(NginxSection::Config) && !starts_with(t, "===NGINX_"@) && (
    contains(t, "test failed"@) || contains(t, "error"@))
}

proof fn lemma_nginx_step_parts(st: NginxScan, line: Seq<char>)
    ensures
        ({
            let t = trim(line);
            let fail = st.0 == Some(NginxSection::Config) && !starts_with(t, "===NGINX_"@) && (
            contains(t, "test failed"@) || contains(t, "error"@));
            let count = if st.0 == Some(NginxSection::Errors) && !starts_with(t, "===NGINX_"@) {
                parse_i64(trim(t))
            } else {
                None
            };
            &&& nginx_step(st, line).1 == (st.1 && !fail)
            &&& nginx_step(st, line).2 == match count {
                Some(n) => n,
                None => st.2,
            }
        }),
{
}

proof fn lemma_lines_agree(ls: Seq<Seq<char>>)
    requires
        ls.len() > 0,
    ensures
        forall|i: int| 0 <= i < ls.len() - 1 ==> #[trigger] error_count_line(ls, i)
            == error_count_line(ls.drop_last(), i),
        forall|i: int| 0 <= i < ls.len() - 1 ==> #[trigger] config_failure_line(ls, i)
            == config_failure_line(ls.drop_last(), i),
        ls.take(ls.len() - 1) == ls.drop_last(),
        nginx_scan(ls) == nginx_step(nginx_scan(ls.drop_last()), ls[ls.len() - 1]),
{
    let l0 = ls.drop_last();
    assert forall|i: int| 0 <= i < l0.len() implies #[trigger] error_count_line(ls, i)
        == error_count_line(l0, i) by {
        assert(ls.take(i) == l0.take(i));
        assert(ls[i] == l0[i]);
    }
    assert forall|i: int| 0 <= i < l0.len() implies #[trigger] config_failure_line(ls, i)
        == config_failure_line(l0, i) by {
        assert(ls.take(i) == l0.take(i));
        assert(ls[i] == l0[i]);
    }
    assert(ls.take(ls.len() - 1) == l0);
}

/// The configuration is reported bad exactly when some line of the config
/// section says the test failed or names an error.
pub proof fn lemma_nginx_config_from_output(ls: Seq<Seq<char>>)
    ensures
        nginx_scan(ls).1 <==> !(exists|i: int| 0 <= i < ls.len() && #[trigger] config_failure_line(ls, i)),
    decreases ls.len(),
{
    if ls.len() > 0 {
        let l0 = ls.drop_last();
        let last = ls.len() - 1;
        lemma_nginx_config_from_output(l0);
        lemma_lines_agree(ls);
        lemma_nginx_step_parts(nginx_scan(l0), ls[last]);
        if config_failure_line(ls, last) {
            assert(0 <= last < ls.len() && config_failure_line(ls, last));
        }
        if exists|i: int| 0 <= i < l0.len() && #[trigger] config_failure_line(l0, i) {
            let i = choose|i: int| 0 <= i < l0.len() && #[trigger] config_failure_line(l0, i);
            assert(config_failure_line(ls, i));
        }
        if exists|i: int| 0 <= i < ls.len() && #[trigger] config_failure_line(ls, i) {
            let i = choose|i: int| 0 <= i < ls.len() && #[trigger] config_failure_line(ls, i);
            if i < last {
                assert(config_failure_line(l0, i));
            }
        }
    }
}

/// The error count is the integer on the last integer line of the errors
/// section, 0 without one.
pub proof fn lemma_nginx_errors_from_output(ls: Seq<Seq<char>>)
    ensures
        forall|i: int|
            0 <= i < ls.len() && #[trigger] error_count_line(ls, i) is Some && (forall|j: int|
                i < j < ls.len() ==> error_count_line(ls, j) is None) ==> nginx_scan(ls).2
                == error_count_line(ls, i)->0,
        (forall|i: int| 0 <= i < ls.len() ==> #[trigger] error_count_line(ls, i) is None)
            ==> nginx_scan(ls).2 == 0,
    decreases ls.len(),
{
    if ls.len() > 0 {
        let l0 = ls.drop_last();
        let last = ls.len() - 1;
        lemma_nginx_errors_from_output(l0);
        lemma_lines_agree(ls);
        lemma_nginx_step_parts(nginx_scan(l0), ls[last]);
        if error_count_line(ls, last) is None {
            assert forall|i: int|
                0 <= i < ls.len() && #[trigger] error_count_line(ls, i) is Some && (forall|j: int|
                    i < j < ls.len() ==> error_count_line(ls, j) is None) implies nginx_scan(ls).2
                == error_count_line(ls, i)->0 by {
                assert forall|j: int| i < j < l0.len() implies error_count_line(l0, j) is None by {
                    assert(error_count_line(ls, j) is None);
                }
            }
            if forall|i: int| 0 <= i < ls.len() ==> #[trigger] error_count_line(ls, i) is None {
                assert forall|i: int| 0 <= i < l0.len() implies #[trigger] error_count_line(l0, i)
                    is None by {
                    assert(error_count_line(ls, i) is None);
                }
            }
        } else {
            assert forall|i: int|
                0 <= i < ls.len() && #[trigger] error_count_line(ls, i) is Some && (forall|j: int|
                    i < j < ls.len() ==> error_count_line(ls, j) is None) implies nginx_scan(ls).2
                == error_count_line(ls, i)->0 by {
                if i < last {
                    assert(error_count_line(ls, last) is None);
                }
            }
        }
    }
}

} // verus!
