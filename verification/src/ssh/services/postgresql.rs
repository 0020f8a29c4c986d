//! PostgreSQL provider: readiness, replication lag and waiting locks.

use vstd::prelude::*;

use super::{alert, metric_int};
use crate::event::{
    alert_of, alerts_view, has_critical, int_metric, lemma_alerts_push, metrics_view, Alert, AlertSeverity,
    AlertView, DetectedService, MetricView, ServiceKind, ServiceMetric, ServiceStatus, StatusView,
};
use crate::ssh::probe::ProbeOutput;
use crate::text::{
    chars_of, contains, contains_lit, fmt_i64, int_text, join, join_strings, lines, lines_of,
    owned, parse_i64, parse_i64_in, push_str, split_char, split_char_in, starts_with,
    starts_with_lit, string_views, trim, trim_chars, views,
};

verus! {

/// PostgreSQL service provider.
pub struct PostgreSQLProvider;

/// The part of the PostgreSQL output being read.
#[derive(Debug, Clone, Copy, PartialEq, Eq, Structural)]
pub enum PgSection {
    Status,
    Replication,
    Locks,
}

/// What has been read so far: (section, ready, largest lag, waiting locks).
pub type PgScan = (Option<PgSection>, bool, int, int);

/// The lag of a replication row: the integer in its last `|` field.
pub open spec fn repl_lag(t: Seq<char>) -> Option<int> {
    let p = split_char(t, '|');
    parse_i64(trim(p.last()))
}

/// One line: `===PG_...===` headers switch section; blank lines are skipped;
/// `accepting connections` in the status section marks the server ready; each
/// replication row may raise the largest lag; an integer in the locks section
/// sets the number of waiting locks.
pub open spec fn pg_step(st: PgScan, line: Seq<char>) -> PgScan {
    let t = trim(line);
    if starts_with(t, "===PG_"@) {
        let sec = if contains(t, "STATUS"@) {
            Some(PgSection::Status)
        } else if contains(t, "REPLICATION"@) {
            Some(PgSection::Replication)
        } else if contains(t, "LOCKS"@) {
            Some(PgSection::Locks)
        } else {
            None
        };
        (sec, st.1, st.2, st.3)
    } else if t.len() == 0 {
        st
    } else if st.0 == Some(PgSection::Status) && contains(t, "accepting connections"@) {
        (st.0, true, st.2, st.3)
    } else if st.0 == Some(PgSection::Replication) && repl_lag(t) is Some {
        let lag = repl_lag(t)->0;
        (st.0, st.1, if lag > st.2 {
            lag
        } else {
            st.2
        }, st.3)
    } else if st.0 == Some(PgSection::Locks) && parse_i64(trim(t)) is Some {
        (st.0, st.1, st.2, parse_i64(trim(t))->0)
    } else {
        st
    }
}

pub open spec fn pg_scan(ls: Seq<Seq<char>>) -> PgScan
    decreases ls.len(),
{
    if ls.len() == 0 {
        (None, false, 0, 0)
    } else {
        pg_step(pg_scan(ls.drop_last()), ls.last())
    }
}

pub open spec fn pg_metrics(lag: int, locks: int) -> Seq<MetricView> {
    seq![int_metric("replication_lag_seconds"@, lag, "s"@), int_metric("waiting_locks"@, locks, ""@)]
}

pub open spec fn pg_alerts(ready: bool, lag: int, locks: int) -> Seq<AlertView> {
    (if !ready {
        seq![
            alert_of(
                AlertSeverity::Critical,
                ServiceKind::PostgreSQL,
                "PostgreSQL not accepting connections"@,
                Some("sudo systemctl status postgresql"@),
            ),
        ]
    } else {
        Seq::empty()
    }) + (if lag > 10 {
        seq![
            alert_of(
                AlertSeverity::Critical,
                ServiceKind::PostgreSQL,
                "Replication lag > 10s: "@ + int_text(lag) + "s"@,
                Some("Check replication status"@),
            ),
        ]
    } else {
        Seq::empty()
    }) + (if locks > 5 {
        seq![
            alert_of(
                AlertSeverity::Warning,
                ServiceKind::PostgreSQL,
                int_text(locks) + " waiting locks detected"@,
                Some("sudo -u postgres psql -c 'SELECT * FROM pg_locks WHERE NOT granted;'"@),
            ),
        ]
    } else {
        Seq::empty()
    })
}

pub open spec fn pg_issues(ready: bool, lag: int) -> Seq<Seq<char>> {
    (if !ready {
        seq!["not ready"@]
    } else {
        Seq::empty()
    }) + (if lag > 10 {
        seq!["replication lag"@]
    } else {
        Seq::empty()
    })
}

pub open spec fn pg_status(ready: bool, lag: int, locks: int) -> StatusView {
    let issues = pg_issues(ready, lag);
    if issues.len() > 0 {
        StatusView::Critical(join(issues, ", "@))
    } else if locks > 0 {
        StatusView::Degraded(int_text(locks) + " waiting locks"@)
    } else if ready {
        StatusView::Healthy
    } else {
        StatusView::Unknown
    }
}

/// The lag of a replication row, if its last `|` field is an integer.
fn repl_lag_exec(t: &Vec<char>) -> (r: Option<i64>)
    ensures
        r matches Some(x) ==> repl_lag(t@) == Some(x as int),
        r is None ==> repl_lag(t@) is None,
{
    let p = split_char_in(t, '|');
    proof {
        crate::text::lemma_split_char_nonempty(t@, '|');
    }
    let last = trim_chars(&p[p.len() - 1]);
    parse_i64_in(&last)
}

/// Analyses the PostgreSQL output (`===PG_STATUS===`,
/// `===PG_REPLICATION===`, `===PG_CONNECTIONS===`, `===PG_LOCKS===`) into
/// metrics, alerts and a status.
pub fn parse_pg_output(output: &str) -> (r: (Vec<ServiceMetric>, Vec<Alert>, ServiceStatus))
    ensures
        ({
            let s = pg_scan(lines(output@));
            &&& metrics_view(r.0@) == pg_metrics(s.2, s.3)
            &&& alerts_view(r.1@) == pg_alerts(s.1, s.2, s.3)
            &&& r.2@ == pg_status(s.1, s.2, s.3)
            &&& !(r.2@ is Unknown)
            &&& (r.2@ is Critical) <==> (!s.1 || s.2 > 10)
            &&& (r.1@.len() == 0) <==> (s.1 && s.2 <= 10 && s.3 <= 5)
        }),
{
    proof {
        let s = pg_scan(lines(output@));
        lemma_pg_status_cases(s.1, s.2, s.3);
    }
    let v = chars_of(output);
    let ls = lines_of(&v);
    let mut section: Option<PgSection> = None;
    let mut ready = false;
    let mut max_lag: i64 = 0;
    let mut locks: i64 = 0;
    let mut i: usize = 0;
    while i < ls.len()
        invariant
            i <= ls.len(),
            views(ls@) == lines(output@),
            pg_scan(views(ls@).take(i as int)) == (section, ready, max_lag as int, locks as int),
        decreases ls.len() - i,
    {
        let ghost lv = views(ls@);
        assert(lv.take(i + 1).drop_last() == lv.take(i as int));
        assert(lv.take(i + 1).last() == ls@[i as int]@);
        let t = trim_chars(&ls[i]);
        if starts_with_lit(&t, "===PG_") {
            section = if contains_lit(&t, "STATUS") {
                Some(PgSection::Status)
            } else if contains_lit(&t, "REPLICATION") {
                Some(PgSection::Replication)
            } else if contains_lit(&t, "LOCKS") {
                Some(PgSection::Locks)
            } else {
                None
            };
        } else if t.len() == 0 {
        } else if section == Some(PgSection::Status) && contains_lit(&t, "accepting connections") {
            ready = true;
        } else if section == Some(PgSection::Replication) {
            match repl_lag_exec(&t) {
                Some(lag) => {
                    if lag > max_lag {
                        max_lag = lag;
                    }
                },
                None => {},
            }
        } else if section == Some(PgSection::Locks) {
            let tt = trim_chars(&t);
            match parse_i64_in(&tt) {
                Some(n) => {
                    locks = n;
                },
                None => {},
            }
        }
        i = i + 1;
    }
    assert(views(ls@).take(ls.len() as int) == views(ls@));

    let mut metrics: Vec<ServiceMetric> = Vec::new();
    metrics.push(metric_int("replication_lag_seconds", max_lag, "s"));
    metrics.push(metric_int("waiting_locks", locks, ""));
    assert(metrics_view(metrics@) =~= pg_metrics(max_lag as int, locks as int));

    let mut alerts: Vec<Alert> = Vec::new();
    let mut issues: Vec<String> = Vec::new();
    if !ready {
        let a = alert(
            AlertSeverity::Critical,
            ServiceKind::PostgreSQL,
            owned("PostgreSQL not accepting connections"),
            Some(owned("sudo systemctl status postgresql")),
        );
        proof {
            lemma_alerts_push(alerts@, a);
        }
        alerts.push(a);
        issues.push(owned("not ready"));
    }
    if max_lag > 10 {
        let mut msg = owned("Replication lag > 10s: ");
        push_str(&mut msg, fmt_i64(max_lag).as_str());
        push_str(&mut msg, "s");
        let a = alert(
            AlertSeverity::Critical,
            ServiceKind::PostgreSQL,
            msg,
            Some(owned("Check replication status")),
        );
        proof {
            lemma_alerts_push(alerts@, a);
        }
        alerts.push(a);
        let ghost i0 = issues@;
        issues.push(owned("replication lag"));
        assert(string_views(issues@) =~= string_views(i0).push("replication lag"@));
    }
    if locks > 5 {
        let mut msg = fmt_i64(locks);
        push_str(&mut msg, " waiting locks detected");
        let a = alert(
            AlertSeverity::Warning,
            ServiceKind::PostgreSQL,
            msg,
            Some(owned("sudo -u postgres psql -c 'SELECT * FROM pg_locks WHERE NOT granted;'")),
        );
        proof {
            lemma_alerts_push(alerts@, a);
        }
        alerts.push(a);
    }
    assert(alerts_view(alerts@) =~= pg_alerts(ready, max_lag as int, locks as int));
    assert(string_views(issues@) =~= pg_issues(ready, max_lag as int));

    let status = if issues.len() > 0 {
        ServiceStatus::Critical(join_strings(&issues, ", "))
    } else if locks > 0 {
        let mut m = fmt_i64(locks);
        push_str(&mut m, " waiting locks");
        ServiceStatus::Degraded(m)
    } else if ready {
        ServiceStatus::Healthy
    } else {
        ServiceStatus::Unknown
    };
    (metrics, alerts, status)
}

/// Commands suggested for PostgreSQL.
pub open spec fn pg_snippets() -> Seq<Seq<char>> {
    seq![
        "sudo -u postgres pg_isready"@,
        "sudo -u postgres psql -c 'SELECT * FROM pg_stat_replication;'"@,
        "sudo -u postgres psql -c 'SELECT count(*), state FROM pg_stat_activity GROUP BY state;'"@,
    ]
}

impl PostgreSQLProvider {
    /// The service this provider handles.
    pub fn kind(&self) -> (k: ServiceKind)
        ensures
            k == ServiceKind::PostgreSQL,
    {
        ServiceKind::PostgreSQL
    }

    /// PostgreSQL is present when the `SERVICES` section mentions
    /// `postgresql` or the `LISTEN` section mentions port 5432.
    pub fn detect(&self, probe_output: &ProbeOutput) -> (r: bool)
        ensures
            r == ((probe_output@.contains_key("SERVICES"@) && contains(
                probe_output@["SERVICES"@],
                "postgresql"@,
            )) || (probe_output@.contains_key("LISTEN"@) && (contains(
                probe_output@["LISTEN"@],
                ":5432"@,
            ) || contains(probe_output@["LISTEN"@], "5432"@)))),
    {
        match probe_output.get_section("SERVICES") {
            Some(s) => {
                let v = chars_of(s);
                if contains_lit(&v, "postgresql") {
                    return true;
                }
            },
            None => {},
        }
        match probe_output.get_section("LISTEN") {
            Some(s) => {
                let v = chars_of(s);
                if contains_lit(&v, ":5432") || contains_lit(&v, "5432") {
                    return true;
                }
            },
            None => {},
        }
        false
    }

    /// The service record built from the output of [`PG_COMMAND`].
    pub fn service_from_output(&self, output: &str) -> (r: DetectedService)
        ensures
            ({
                let s = pg_scan(lines(output@));
                &&& r.kind == ServiceKind::PostgreSQL
                &&& r.version is None
                &&& metrics_view(r.metrics@) == pg_metrics(s.2, s.3)
                &&& alerts_view(r.alerts@) == pg_alerts(s.1, s.2, s.3)
                &&& r.status@ == pg_status(s.1, s.2, s.3)
                &&& string_views(r.suggested_snippets@) == pg_snippets()
            }),
    {
        let (metrics, alerts, status) = parse_pg_output(output);
        let snippets = vec![
            owned("sudo -u postgres pg_isready"),
            owned("sudo -u postgres psql -c 'SELECT * FROM pg_stat_replication;'"),
            owned(
                "sudo -u postgres psql -c 'SELECT count(*), state FROM pg_stat_activity GROUP BY state;'",
            ),
        ];
        assert(string_views(snippets@) =~= pg_snippets());
        DetectedService {
            kind: ServiceKind::PostgreSQL,
            version: None,
            status,
            metrics,
            alerts,
            suggested_snippets: snippets,
        }
    }
}

/// The deep-probe command whose output
/// [`PostgreSQLProvider::service_from_output`] reads.
pub const PG_COMMAND: &'static str = r#"
echo "===PG_STATUS==="
sudo -u postgres pg_isready 2>/dev/null || echo "not available"
echo "===PG_REPLICATION==="
sudo -u postgres psql -t -c "SELECT client_addr, state, sent_lsn, write_lsn, replay_lsn, COALESCE(extract(epoch from replay_lag), 0)::int as lag_seconds FROM pg_stat_replication;" 2>/dev/null
echo "===PG_CONNECTIONS==="
sudo -u postgres psql -t -c "SELECT count(*), state FROM pg_stat_activity GROUP BY state;" 2>/dev/null
echo "===PG_LOCKS==="
sudo -u postgres psql -t -c "SELECT count(*) FROM pg_locks WHERE NOT granted;" 2>/dev/null
"#;


/// The overall status is critical exactly when some alert is critical.
pub proof fn lemma_pg_critical_status(ready: bool, lag: int, locks: int)
    ensures
        (pg_status(ready, lag, locks) is Critical) <==> has_critical(pg_alerts(ready, lag, locks)),
{
    let a = pg_alerts(ready, lag, locks);
    if !ready || lag > 10 {
        assert(a[0].severity == AlertSeverity::Critical);
    } else {
        assert forall|i: int| 0 <= i < a.len() implies (#[trigger] a[i]).severity
            != AlertSeverity::Critical by {}
    }
}


/// The PostgreSQL status is never unknown: critical when the server does
/// not accept connections or replication lags more than 10 seconds;
/// otherwise degraded when locks are waited on, healthy otherwise. There
/// are no alerts exactly when the server is ready, the lag is at most 10
/// seconds and at most 5 locks are waited on.
pub proof fn lemma_pg_status_cases(ready: bool, lag: int, locks: int)
    ensures
        !(pg_status(ready, lag, locks) is Unknown),
        (pg_status(ready, lag, locks) is Critical) <==> (!ready || lag > 10),
        ready && lag <= 10 && locks > 0 ==> pg_status(ready, lag, locks) == StatusView::Degraded(
            int_text(locks) + " waiting locks"@,
        ),
        (pg_status(ready, lag, locks) is Healthy) <==> (ready && lag <= 10 && locks <= 0),
        (pg_alerts(ready, lag, locks).len() == 0) <==> (ready && lag <= 10 && locks <= 5),
{
}


/// The lag that line `i` of the output reports as a replication row: a
/// non-blank, non-header line read while in the `PG_REPLICATION` section,
/// whose last `|` field is an integer.
pub open spec fn row_lag(ls: Seq<Seq<char>>, i: int) -> Option<int> {
    let t = trim(ls[i]);
    if pg_scan(ls.take(i)).0 == Some(PgSection::Replication) && !starts_with(t, "===PG_"@)
        && t.len() > 0 {
        repl_lag(t)
    } else {
        None
    }
}

proof fn lemma_pg_step_lag(st: PgScan, line: Seq<char>)
    ensures
        ({
            let t = trim(line);
            let row = st.0 == Some(PgSection::Replication) && !starts_with(t, "===PG_"@) && t.len()
                > 0 && repl_lag(t) is Some;
            pg_step(st, line).2 == if row && repl_lag(t)->0 > st.2 {
                repl_lag(t)->0
            } else {
                st.2
            }
        }),
{
}

/// The replication lag reported is the largest lag of all replication
/// rows, whatever their order: at least every row's lag, and the lag of
/// one of them (0 when there is no row, or no row lags more than 0).
#[verifier::rlimit(40)]
pub proof fn lemma_pg_lag_is_largest(ls: Seq<Seq<char>>)
    ensures
        pg_scan(ls).2 >= 0,
        forall|i: int| 0 <= i < ls.len() && #[trigger] row_lag(ls, i) is Some ==> row_lag(ls, i)->0
            <= pg_scan(ls).2,
        pg_scan(ls).2 == 0 || exists|i: int| 0 <= i < ls.len() && #[trigger] row_lag(ls, i) == Some(
            pg_scan(ls).2,
        ),
    decreases ls.len(),
{
    if ls.len() > 0 {
        let l0 = ls.drop_last();
        lemma_pg_lag_is_largest(l0);
        assert forall|i: int| 0 <= i < l0.len() implies #[trigger] row_lag(ls, i) == row_lag(l0, i) by {
            assert(ls.take(i) == l0.take(i));
            assert(ls[i] == l0[i]);
        }
        let last = ls.len() - 1;
        assert(ls.take(last) == l0);
        assert(ls[last] == ls.last());
        lemma_pg_step_lag(pg_scan(l0), ls.last());
        assert(pg_scan(ls) == pg_step(pg_scan(l0), ls.last()));
        let old_lag = pg_scan(l0).2;
        if pg_scan(ls).2 != old_lag {
            assert(row_lag(ls, last) == Some(pg_scan(ls).2));
        }
        if pg_scan(l0).2 != 0 && pg_scan(ls).2 == old_lag {
            let i = choose|i: int| 0 <= i < l0.len() && #[trigger] row_lag(l0, i) == Some(old_lag);
            assert(row_lag(ls, i) == Some(old_lag));
        }
    }
}


/// The waiting-lock count that line `i` reports: a non-blank, non-header
/// line of the `PG_LOCKS` section that reads as an integer.
pub open spec fn locks_line(ls: Seq<Seq<char>>, i: int) -> Option<int> {
    let t = trim(ls[i]);
    if pg_scan(ls.take(i)).0 == Some(PgSection::Locks) && !starts_with(t, "===PG_"@) && t.len()
        > 0 {
        parse_i64(trim(t))
    } else {
        None
    }
}

/// Line `i` reports the server ready: a non-header line of the
/// `PG_STATUS` section mentioning `accepting connections`.
pub open spec fn ready_line(ls: Seq<Seq<char>>, i: int) -> bool {
    let t = trim(ls[i]);
    pg_scan(ls.take(i)).0 == Some(PgSection::Status) && !starts_with(t, "===PG_"@) && t.len() > 0
        && contains(t, "accepting connections"@)
}

proof fn lemma_pg_step_parts(st: PgScan, line: Seq<char>)
    ensures
        ({
            let t = trim(line);
            let plain = !starts_with(t, "===PG_"@) && t.len() > 0;
            let ready = st.0 == Some(PgSection::Status) && plain && contains(
                t,
                "accepting connections"@,
            );
            let locks = if st.0 == Some(PgSection::Locks) && plain {
                parse_i64(trim(t))
            } else {
                None
            };
            &&& pg_step(st, line).1 == (st.1 || ready)
            &&& pg_step(st, line).3 == match locks {
                Some(n) => n,
                None => st.3,
            }
        }),
{
}

proof fn lemma_pg_lines_agree(ls: Seq<Seq<char>>)
    requires
        ls.len() > 0,
    ensures
        forall|i: int| 0 <= i < ls.len() - 1 ==> #[trigger] locks_line(ls, i) == locks_line(
            ls.drop_last(),
            i,
        ),
        forall|i: int| 0 <= i < ls.len() - 1 ==> #[trigger] ready_line(ls, i) == ready_line(
            ls.drop_last(),
            i,
        ),
        ls.take(ls.len() - 1) == ls.drop_last(),
        pg_scan(ls) == pg_step(pg_scan(ls.drop_last()), ls[ls.len() - 1]),
{
    let l0 = ls.drop_last();
    assert forall|i: int| 0 <= i < l0.len() implies #[trigger] locks_line(ls, i) == locks_line(l0, i) by {
        assert(ls.take(i) == l0.take(i));
        assert(ls[i] == l0[i]);
    }
    assert forall|i: int| 0 <= i < l0.len() implies #[trigger] ready_line(ls, i) == ready_line(l0, i) by {
        assert(ls.take(i) == l0.take(i));
        assert(ls[i] == l0[i]);
    }
    assert(ls.take(ls.len() - 1) == l0);
}

/// The server is reported ready exactly when some line of the status
/// section says it is accepting connections.
pub proof fn lemma_pg_ready_from_output(ls: Seq<Seq<char>>)
    ensures
        pg_scan(ls).1 <==> exists|i: int| 0 <= i < ls.len() && #[trigger] ready_line(ls, i),
    decreases ls.len(),
{
    if ls.len() > 0 {
        let l0 = ls.drop_last();
        let last = ls.len() - 1;
        lemma_pg_ready_from_output(l0);
        lemma_pg_lines_agree(ls);
        lemma_pg_step_parts(pg_scan(l0), ls[last]);
        if exists|i: int| 0 <= i < l0.len() && #[trigger] ready_line(l0, i) {
            let i = choose|i: int| 0 <= i < l0.len() && #[trigger] ready_line(l0, i);
            assert(ready_line(ls, i));
        }
        if exists|i: int| 0 <= i < ls.len() && #[trigger] ready_line(ls, i) {
            let i = choose|i: int| 0 <= i < ls.len() && #[trigger] ready_line(ls, i);
            if i < last {
                assert(ready_line(l0, i));
            }
        }
        if ready_line(ls, last) {
            assert(0 <= last < ls.len() && ready_line(ls, last));
        }
    }
}

/// The waiting locks reported are the integer on the last integer line of
/// the locks section, 0 without one.
pub proof fn lemma_pg_locks_from_output(ls: Seq<Seq<char>>)
    ensures
        forall|i: int|
            0 <= i < ls.len() && #[trigger] locks_line(ls, i) is Some && (forall|j: int|
                i < j < ls.len() ==> locks_line(ls, j) is None) ==> pg_scan(ls).3 == locks_line(
                ls,
                i,
            )->0,
        (forall|i: int| 0 <= i < ls.len() ==> #[trigger] locks_line(ls, i) is None) ==> pg_scan(
            ls,
        ).3 == 0,
    decreases ls.len(),
{
    if ls.len() > 0 {
        let l0 = ls.drop_last();
        let last = ls.len() - 1;
        lemma_pg_locks_from_output(l0);
        lemma_pg_lines_agree(ls);
        lemma_pg_step_parts(pg_scan(l0), ls[last]);
        if locks_line(ls, last) is None {
            assert forall|i: int|
                0 <= i < ls.len() && #[trigger] locks_line(ls, i) is Some && (forall|j: int|
                    i < j < ls.len() ==> locks_line(ls, j) is None) implies pg_scan(ls).3
                == locks_line(ls, i)->0 by {
                assert forall|j: int| i < j < l0.len() implies locks_line(l0, j) is None by {
                    assert(locks_line(ls, j) is None);
                }
            }
            if forall|i: int| 0 <= i < ls.len() ==> #[trigger] locks_line(ls, i) is None {
                assert forall|i: int| 0 <= i < l0.len() implies #[trigger] locks_line(l0, i) is None by {
                    assert(locks_line(ls, i) is None);
                }
            }
        } else {
            assert forall|i: int|
                0 <= i < ls.len() && #[trigger] locks_line(ls, i) is Some && (forall|j: int|
                    i < j < ls.len() ==> locks_line(ls, j) is None) implies pg_scan(ls).3
                == locks_line(ls, i)->0 by {
                if i < last {
                    assert(locks_line(ls, last) is None);
                }
            }
        }
    }
}
} // verus!
