//! Docker provider: container counts, restart loops and stopped containers.

use vstd::prelude::*;

use super::{alert, metric_int};
use crate::event::{
    alert_of, alerts_view, has_critical, int_metric, lemma_alerts_push, metrics_view, Alert,
    AlertSeverity, AlertView, DetectedService, MetricView, ServiceKind, ServiceMetric,
    ServiceStatus, StatusView,
};
use crate::ssh::probe::ProbeOutput;
use crate::text::{
    chars_of, contains, contains_lit, eq_str, fmt_i64, int_text, join, join_strings, lines,
    lines_of, lowercase, lowercase_chars, owned, parse_i64, parse_i64_in, push_all, push_str,
    split_char, split_char_in, starts_with, starts_with_lit, string_of, string_views,
    strip_leading, strip_leading_chars, trim, trim_chars, views,
};

verus! {

/// Docker service provider.
pub struct DockerProvider;

/// The part of the combined Docker output being read.
#[derive(Debug, Clone, Copy, PartialEq, Eq, Structural)]
pub enum DockerSection {
    Containers,
    Stats,
    Restarts,
}

/// A container line: (name, status, state).
pub type ContainerView = (Seq<char>, Seq<char>, Seq<char>);

/// What has been read of the combined Docker output so far.
pub ghost struct DockerScan {
    pub section: Option<DockerSection>,
    pub containers: Seq<ContainerView>,
    pub restarts: Seq<(Seq<char>, int)>,
}

/// The section a `===...===` header line opens.
pub open spec fn docker_header(t: Seq<char>) -> Option<DockerSection> {
    if contains(t, "CONTAINERS"@) {
        Some(DockerSection::Containers)
    } else if contains(t, "STATS"@) {
        Some(DockerSection::Stats)
    } else if contains(t, "RESTARTS"@) {
        Some(DockerSection::Restarts)
    } else {
        None
    }
}

/// One line of the combined output. Container lines are
/// `ID\tName\tStatus\tState\tImage` (at least four fields); restart lines are
/// `/name\tcount` with an integer count.
pub open spec fn docker_step(st: DockerScan, line: Seq<char>) -> DockerScan {
    let t = trim(line);
    if starts_with(t, "==="@) {
        DockerScan { section: docker_header(t), ..st }
    } else if t.len() == 0 {
        st
    } else if st.section == Some(DockerSection::Containers) {
        let p = split_char(t, '\t');
        if p.len() >= 4 {
            DockerScan { containers: st.containers.push((p[1], p[2], p[3])), ..st }
        } else {
            st
        }
    } else if st.section == Some(DockerSection::Restarts) {
        let p = split_char(t, '\t');
        if p.len() >= 2 && parse_i64(p[1]) is Some {
            DockerScan {
                restarts: st.restarts.push((strip_leading(p[0], '/'), parse_i64(p[1])->0)),
                ..st
            }
        } else {
            st
        }
    } else {
        st
    }
}

pub open spec fn docker_scan(ls: Seq<Seq<char>>) -> DockerScan
    decreases ls.len(),
{
    if ls.len() == 0 {
        DockerScan { section: None, containers: Seq::empty(), restarts: Seq::empty() }
    } else {
        docker_step(docker_scan(ls.drop_last()), ls.last())
    }
}

/// Containers whose state is `running` (any case).
pub open spec fn count_running(cs: Seq<ContainerView>) -> int
    decreases cs.len(),
{
    if cs.len() == 0 {
        0
    } else {
        count_running(cs.drop_last()) + if lowercase(cs.last().2) == "running"@ {
            1int
        } else {
            0
        }
    }
}

/// Containers whose state is `exited` (any case).
pub open spec fn count_exited(cs: Seq<ContainerView>) -> int
    decreases cs.len(),
{
    if cs.len() == 0 {
        0
    } else {
        count_exited(cs.drop_last()) + if lowercase(cs.last().2) == "exited"@ {
            1int
        } else {
            0
        }
    }
}

/// Containers whose status mentions `restarting` (any case).
pub open spec fn count_restarting(cs: Seq<ContainerView>) -> int
    decreases cs.len(),
{
    if cs.len() == 0 {
        0
    } else {
        count_restarting(cs.drop_last()) + if contains(lowercase(cs.last().1), "restarting"@) {
            1int
        } else {
            0
        }
    }
}

/// Alerts for containers restarted more than three times.
pub open spec fn restart_alerts(rs: Seq<(Seq<char>, int)>) -> Seq<AlertView>
    decreases rs.len(),
{
    if rs.len() == 0 {
        Seq::empty()
    } else {
        let r = rs.last();
        let prev = restart_alerts(rs.drop_last());
        if r.1 > 3 {
            prev.push(
                alert_of(
                    AlertSeverity::Critical,
                    ServiceKind::Docker,
                    "Container "@ + r.0 + " in restart loop ("@ + int_text(r.1) + " restarts)"@,
                    Some("docker logs "@ + r.0 + " --tail 100"@),
                ),
            )
        } else {
            prev
        }
    }
}

/// The critical issues named for containers in a restart loop.
pub open spec fn restart_issues(rs: Seq<(Seq<char>, int)>) -> Seq<Seq<char>>
    decreases rs.len(),
{
    if rs.len() == 0 {
        Seq::empty()
    } else {
        let r = rs.last();
        let prev = restart_issues(rs.drop_last());
        if r.1 > 3 {
            prev.push(r.0 + " restarting"@)
        } else {
            prev
        }
    }
}

/// Alerts for containers that exited with a status other than `Exited (0)`.
pub open spec fn exited_alerts(cs: Seq<ContainerView>) -> Seq<AlertView>
    decreases cs.len(),
{
    if cs.len() == 0 {
        Seq::empty()
    } else {
        let c = cs.last();
        let prev = exited_alerts(cs.drop_last());
        if lowercase(c.2) == "exited"@ && !contains(lowercase(c.1), "exited (0)"@) {
            prev.push(
                alert_of(
                    AlertSeverity::Warning,
                    ServiceKind::Docker,
                    "Container "@ + c.0 + " stopped unexpectedly: "@ + c.1,
                    Some("docker start "@ + c.0),
                ),
            )
        } else {
            prev
        }
    }
}

/// The metrics reported for a scan: total, running, stopped, restarting.
pub open spec fn docker_metrics(cs: Seq<ContainerView>) -> Seq<MetricView> {
    seq![
        int_metric("containers_total"@, (cs.len() as i64) as int, ""@),
        int_metric("containers_running"@, (count_running(cs) as i64) as int, ""@),
        int_metric("containers_stopped"@, (count_exited(cs) as i64) as int, ""@),
        int_metric("containers_restarting"@, (count_restarting(cs) as i64) as int, ""@),
    ]
}

/// All alerts for a scan, in report order.
pub open spec fn docker_alerts(cs: Seq<ContainerView>, rs: Seq<(Seq<char>, int)>) -> Seq<
    AlertView,
> {
    let n = (count_restarting(cs) as i64) as int;
    restart_alerts(rs) + exited_alerts(cs) + if n > 0 {
        seq![
            alert_of(
                AlertSeverity::Critical,
                ServiceKind::Docker,
                int_text(n) + " container(s) in restarting state"@,
                Some("docker compose restart"@),
            ),
        ]
    } else {
        Seq::empty()
    }
}

/// The critical issues of a scan.
pub open spec fn docker_issues(cs: Seq<ContainerView>, rs: Seq<(Seq<char>, int)>) -> Seq<
    Seq<char>,
> {
    restart_issues(rs) + if (count_restarting(cs) as i64) > 0 {
        seq!["containers restarting"@]
    } else {
        Seq::empty()
    }
}

/// Overall status: critical issues first, then stopped containers, then
/// healthy if there is any container.
pub open spec fn docker_status(cs: Seq<ContainerView>, rs: Seq<(Seq<char>, int)>) -> StatusView {
    let issues = docker_issues(cs, rs);
    let stopped = (count_exited(cs) as i64) as int;
    if issues.len() > 0 {
        StatusView::Critical(join(issues, ", "@))
    } else if stopped > 0 {
        StatusView::Degraded(int_text(stopped) + " container(s) stopped"@)
    } else if (cs.len() as i64) > 0 {
        StatusView::Healthy
    } else {
        StatusView::Unknown
    }
}

pub open spec fn containers_view(v: Seq<(Vec<char>, Vec<char>, Vec<char>)>) -> Seq<ContainerView> {
    Seq::new(v.len(), |i: int| (v[i].0@, v[i].1@, v[i].2@))
}

pub open spec fn restarts_view(v: Seq<(Vec<char>, i64)>) -> Seq<(Seq<char>, int)> {
    Seq::new(v.len(), |i: int| (v[i].0@, v[i].1 as int))
}

/// Reads the combined Docker output into container and restart records.
fn scan_docker(output: &str) -> (r: (Vec<(Vec<char>, Vec<char>, Vec<char>)>, Vec<(Vec<char>, i64)>))
    ensures
        containers_view(r.0@) == docker_scan(lines(output@)).containers,
        restarts_view(r.1@) == docker_scan(lines(output@)).restarts,
{
    let v = chars_of(output);
    let ls = lines_of(&v);
    let mut section: Option<DockerSection> = None;
    let mut cs: Vec<(Vec<char>, Vec<char>, Vec<char>)> = Vec::new();
    let mut rs: Vec<(Vec<char>, i64)> = Vec::new();
    let mut i: usize = 0;
    while i < ls.len()
        invariant
            i <= ls.len(),
            views(ls@) == lines(output@),
            ({
                let st = docker_scan(views(ls@).take(i as int));
                &&& st.section == section
                &&& st.containers == containers_view(cs@)
                &&& st.restarts == restarts_view(rs@)
            }),
        decreases ls.len() - i,
    {
        let ghost lv = views(ls@);
        assert(lv.take(i + 1).drop_last() == lv.take(i as int));
        assert(lv.take(i + 1).last() == ls@[i as int]@);
        let t = trim_chars(&ls[i]);
        if starts_with_lit(&t, "===") {
            section = if contains_lit(&t, "CONTAINERS") {
                Some(DockerSection::Containers)
            } else if contains_lit(&t, "STATS") {
                Some(DockerSection::Stats)
            } else if contains_lit(&t, "RESTARTS") {
                Some(DockerSection::Restarts)
            } else {
                None
            };
        } else if t.len() == 0 {
        } else if section == Some(DockerSection::Containers) {
            let p = split_char_in(&t, '\t');
            if p.len() >= 4 {
                let ghost c0 = cs@;
                cs.push((p[1].clone(), p[2].clone(), p[3].clone()));
                assert(containers_view(cs@) =~= containers_view(c0).push(
                    (p@[1]@, p@[2]@, p@[3]@),
                ));
            }
        } else if section == Some(DockerSection::Restarts) {
            let p = split_char_in(&t, '\t');
            if p.len() >= 2 {
                match parse_i64_in(&p[1]) {
                    Some(count) => {
                        let name = strip_leading_chars(&p[0], '/');
                        let ghost r0 = rs@;
                        rs.push((name, count));
                        assert(restarts_view(rs@) =~= restarts_view(r0).push(
                            (strip_leading(p@[0]@, '/'), count as int),
                        ));
                    },
                    None => {},
                }
            }
        }
        i = i + 1;
    }
    assert(views(ls@).take(ls.len() as int) == views(ls@));
    (cs, rs)
}


/// Counts of running, exited and restarting containers.
fn count_states(cs: &Vec<(Vec<char>, Vec<char>, Vec<char>)>) -> (r: (usize, usize, usize))
    ensures
        r.0 == count_running(containers_view(cs@)),
        r.1 == count_exited(containers_view(cs@)),
        r.2 == count_restarting(containers_view(cs@)),
{
    let ghost cv = containers_view(cs@);
    let mut running: usize = 0;
    let mut exited: usize = 0;
    let mut restarting: usize = 0;
    let mut i: usize = 0;
    while i < cs.len()
        invariant
            i <= cs.len(),
            cv == containers_view(cs@),
            running <= i && exited <= i && restarting <= i,
            running == count_running(cv.take(i as int)),
            exited == count_exited(cv.take(i as int)),
            restarting == count_restarting(cv.take(i as int)),
        decreases cs.len() - i,
    {
        assert(cv.take(i + 1).drop_last() == cv.take(i as int));
        assert(cv.take(i + 1).last() == cv[i as int]);
        let state = lowercase_chars(&cs[i].2);
        let status = lowercase_chars(&cs[i].1);
        let f = container_flags(&state, &status);
        if f.running {
            running = running + 1;
        }
        if f.exited {
            exited = exited + 1;
        }
        if f.restarting {
            restarting = restarting + 1;
        }
        i = i + 1;
    }
    assert(cv.take(cs.len() as int) == cv);
    (running, exited, restarting)
}

/// What a container's lower-cased state and status say of it.
#[derive(Debug, Clone, Copy, PartialEq, Eq, Structural)]
pub struct ContainerFlags {
    /// The state is `running`.
    pub running: bool,
    /// The state is `exited`.
    pub exited: bool,
    /// The status mentions `restarting`.
    pub restarting: bool,
    /// The status mentions `exited (0)`.
    pub exited_cleanly: bool,
}

/// Reads a container's lower-cased state (`docker ps` `.State`) and status
/// (`.Status`); see [`ContainerFlags`].
pub fn container_flags(state: &Vec<char>, status: &Vec<char>) -> (r: ContainerFlags)
    ensures
        r.running == (state@ == "running"@),
        r.exited == (state@ == "exited"@),
        r.restarting == contains(status@, "restarting"@),
        r.exited_cleanly == contains(status@, "exited (0)"@),
{
    ContainerFlags {
        running: eq_str(state, "running"),
        exited: eq_str(state, "exited"),
        restarting: contains_lit(status, "restarting"),
        exited_cleanly: contains_lit(status, "exited (0)"),
    }
}

/// Analyses the combined Docker output (`===CONTAINERS===`, `===STATS===`,
/// `===RESTARTS===` sections) into metrics, alerts and an overall status.
pub fn parse_docker_output(output: &str) -> (r: (Vec<ServiceMetric>, Vec<Alert>, ServiceStatus))
    ensures
        ({
            let s = docker_scan(lines(output@));
            &&& metrics_view(r.0@) == docker_metrics(s.containers)
            &&& alerts_view(r.1@) == docker_alerts(s.containers, s.restarts)
            &&& r.2@ == docker_status(s.containers, s.restarts)
            &&& s.containers.len() <= i64::MAX ==> {
                &&& (r.2@ is Critical) <==> ((exists|i: int|
                    0 <= i < s.restarts.len() && (#[trigger] s.restarts[i]).1 > 3) || count_restarting(
                    s.containers,
                ) > 0)
                &&& (r.2@ is Unknown) <==> (!(r.2@ is Critical) && s.containers.len() == 0)
            }
        }),
{
    proof {
        let s = docker_scan(lines(output@));
        if s.containers.len() <= i64::MAX {
            lemma_docker_status_cases(s.containers, s.restarts);
        }
    }
    let (cs, rs) = scan_docker(output);
    let ghost cv = containers_view(cs@);
    let ghost rv = restarts_view(rs@);
    let (running, exited, restarting) = count_states(&cs);
    let total = cs.len() as i64;
    let running = running as i64;
    let stopped = exited as i64;
    let restarting = restarting as i64;

    let mut metrics: Vec<ServiceMetric> = Vec::new();
    metrics.push(metric_int("containers_total", total, ""));
    metrics.push(metric_int("containers_running", running, ""));
    metrics.push(metric_int("containers_stopped", stopped, ""));
    metrics.push(metric_int("containers_restarting", restarting, ""));
    assert(metrics_view(metrics@) =~= docker_metrics(cv));

    let mut alerts: Vec<Alert> = Vec::new();
    let mut issues: Vec<String> = Vec::new();
    let mut i: usize = 0;
    while i < rs.len()
        invariant
            i <= rs.len(),
            rv == restarts_view(rs@),
            alerts_view(alerts@) == restart_alerts(rv.take(i as int)),
            string_views(issues@) == restart_issues(rv.take(i as int)),
        decreases rs.len() - i,
    {
        assert(rv.take(i + 1).drop_last() == rv.take(i as int));
        assert(rv.take(i + 1).last() == rv[i as int]);
        let name = &rs[i].0;
        let count = rs[i].1;
        if count > 3 {
            let mut msg = owned("Container ");
            push_all(&mut msg, name);
            push_str(&mut msg, " in restart loop (");
            push_str(&mut msg, fmt_i64(count).as_str());
            push_str(&mut msg, " restarts)");
            let mut act = owned("docker logs ");
            push_all(&mut act, name);
            push_str(&mut act, " --tail 100");
            let a = alert(AlertSeverity::Critical, ServiceKind::Docker, msg, Some(act));
            proof {
                lemma_alerts_push(alerts@, a);
            }
            alerts.push(a);
            let mut issue = string_of(name);
            push_str(&mut issue, " restarting");
            let ghost i0 = issues@;
            issues.push(issue);
            assert(string_views(issues@) =~= string_views(i0).push(issue@));
        }
        i = i + 1;
    }
    assert(rv.take(rs.len() as int) == rv);

    let ghost a0 = alerts_view(alerts@);
    let mut j: usize = 0;
    while j < cs.len()
        invariant
            j <= cs.len(),
            cv == containers_view(cs@),
            alerts_view(alerts@) == a0 + exited_alerts(cv.take(j as int)),
        decreases cs.len() - j,
    {
        assert(cv.take(j + 1).drop_last() == cv.take(j as int));
        assert(cv.take(j + 1).last() == cv[j as int]);
        let state = lowercase_chars(&cs[j].2);
        let status = lowercase_chars(&cs[j].1);
        let f = container_flags(&state, &status);
        if f.exited && !f.exited_cleanly {
            let mut msg = owned("Container ");
            push_all(&mut msg, &cs[j].0);
            push_str(&mut msg, " stopped unexpectedly: ");
            push_all(&mut msg, &cs[j].1);
            let mut act = owned("docker start ");
            push_all(&mut act, &cs[j].0);
            let a = alert(AlertSeverity::Warning, ServiceKind::Docker, msg, Some(act));
            proof {
                lemma_alerts_push(alerts@, a);
            }
            alerts.push(a);
        }
        j = j + 1;
    }
    assert(cv.take(cs.len() as int) == cv);

    if restarting > 0 {
        let mut msg = fmt_i64(restarting);
        push_str(&mut msg, " container(s) in restarting state");
        let a = alert(
            AlertSeverity::Critical,
            ServiceKind::Docker,
            msg,
            Some(owned("docker compose restart")),
        );
        proof {
            lemma_alerts_push(alerts@, a);
        }
        alerts.push(a);
        let ghost i0 = issues@;
        issues.push(owned("containers restarting"));
        assert(string_views(issues@) =~= string_views(i0).push("containers restarting"@));
    }
    assert(alerts_view(alerts@) =~= docker_alerts(cv, rv));
    assert(string_views(issues@) =~= docker_issues(cv, rv));

    let status = if issues.len() > 0 {
        ServiceStatus::Critical(join_strings(&issues, ", "))
    } else if stopped > 0 {
        let mut m = fmt_i64(stopped);
        push_str(&mut m, " container(s) stopped");
        ServiceStatus::Degraded(m)
    } else if total > 0 {
        ServiceStatus::Healthy
    } else {
        ServiceStatus::Unknown
    };
    (metrics, alerts, status)
}


/// Lines of a `docker ps` listing (`ID\tNames\tStatus\tImage`) whose status
/// field says `Up`.
pub open spec fn count_up(ls: Seq<Seq<char>>) -> int
    decreases ls.len(),
{
    if ls.len() == 0 {
        0
    } else {
        let p = split_char(ls.last(), '\t');
        count_up(ls.drop_last()) + if p.len() >= 3 && contains(p[2], "Up"@) {
            1int
        } else {
            0
        }
    }
}

/// Metrics read from the probe's `DOCKER` section: total and running
/// containers; none without that section.
pub open spec fn docker_quick_metrics(probe: Map<Seq<char>, Seq<char>>) -> Seq<MetricView> {
    if probe.contains_key("DOCKER"@) {
        let ls = lines(probe["DOCKER"@]);
        seq![
            int_metric("containers_total"@, (ls.len() as i64) as int, ""@),
            int_metric("containers_running"@, (count_up(ls) as i64) as int, ""@),
        ]
    } else {
        Seq::empty()
    }
}

/// Commands suggested for Docker.
pub open spec fn docker_snippets() -> Seq<Seq<char>> {
    seq![
        "docker ps -a"@,
        "docker compose restart"@,
        "docker logs <container>"@,
        "docker system prune"@,
    ]
}

impl DockerProvider {
    /// The service this provider handles.
    pub fn kind(&self) -> (k: ServiceKind)
        ensures
            k == ServiceKind::Docker,
    {
        ServiceKind::Docker
    }

    /// Docker is present when the probe's `DOCKER` section has content.
    pub fn detect(&self, probe_output: &ProbeOutput) -> (r: bool)
        ensures
            r == (probe_output@.contains_key("DOCKER"@) && probe_output@["DOCKER"@].len() > 0),
    {
        probe_output.has_section("DOCKER")
    }

    /// Container counts read from the Quick Scan `docker ps` listing, so that
    /// they can be shown before the Deep Probe runs.
    pub fn quick_metrics(&self, probe_output: &ProbeOutput) -> (r: Vec<ServiceMetric>)
        ensures
            metrics_view(r@) == docker_quick_metrics(probe_output@),
    {
        let mut metrics: Vec<ServiceMetric> = Vec::new();
        match probe_output.get_section("DOCKER") {
            Some(out) => {
                let v = chars_of(out);
                let ls = lines_of(&v);
                let ghost lv = views(ls@);
                let mut running: usize = 0;
                let mut i: usize = 0;
                while i < ls.len()
                    invariant
                        i <= ls.len(),
                        lv == views(ls@),
                        running <= i,
                        running == count_up(lv.take(i as int)),
                    decreases ls.len() - i,
                {
                    assert(lv.take(i + 1).drop_last() == lv.take(i as int));
                    assert(lv.take(i + 1).last() == ls@[i as int]@);
                    let p = split_char_in(&ls[i], '\t');
                    if p.len() >= 3 && contains_lit(&p[2], "Up") {
                        running = running + 1;
                    }
                    i = i + 1;
                }
                assert(lv.take(ls.len() as int) == lv);
                metrics.push(metric_int("containers_total", ls.len() as i64, ""));
                metrics.push(metric_int("containers_running", running as i64, ""));
                assert(metrics_view(metrics@) =~= docker_quick_metrics(probe_output@));
            },
            None => {
                assert(metrics_view(metrics@) =~= Seq::<MetricView>::empty());
            },
        }
        metrics
    }

    /// Version from the probe output: Docker's is not read there.
    pub fn extract_version(&self, probe_output: &ProbeOutput) -> (r: Option<String>)
        ensures
            r is None,
    {
        None
    }

    /// The service record built from the output of the Docker deep-probe
    /// command ([`DOCKER_COMMAND`]).
    pub fn service_from_output(&self, output: &str) -> (r: DetectedService)
        ensures
            ({
                let s = docker_scan(lines(output@));
                &&& r.kind == ServiceKind::Docker
                &&& r.version is None
                &&& metrics_view(r.metrics@) == docker_metrics(s.containers)
                &&& alerts_view(r.alerts@) == docker_alerts(s.containers, s.restarts)
                &&& r.status@ == docker_status(s.containers, s.restarts)
                &&& string_views(r.suggested_snippets@) == docker_snippets()
            }),
    {
        let (metrics, alerts, status) = parse_docker_output(output);
        let snippets = vec![
            owned("docker ps -a"),
            owned("docker compose restart"),
            owned("docker logs <container>"),
            owned("docker system prune"),
        ];
        assert(string_views(snippets@) =~= docker_snippets());
        DetectedService {
            kind: ServiceKind::Docker,
            version: None,
            status,
            metrics,
            alerts,
            suggested_snippets: snippets,
        }
    }
}

/// The deep-probe command whose output [`DockerProvider::service_from_output`]
/// reads.
pub const DOCKER_COMMAND: &'static str = r#"
echo "===CONTAINERS==="
docker ps -a --format '{{.ID}}\t{{.Names}}\t{{.Status}}\t{{.State}}\t{{.Image}}' 2>/dev/null
echo "===STATS==="
docker stats --no-stream --format '{{.Name}}\t{{.CPUPerc}}\t{{.MemUsage}}' 2>/dev/null | head -20
echo "===COMPOSE==="
docker compose ls --format json 2>/dev/null || echo "[]"
echo "===RESTARTS==="
docker inspect --format '{{.Name}}\t{{.RestartCount}}' $(docker ps -aq) 2>/dev/null
"#;


proof fn lemma_restart_alerts(rs: Seq<(Seq<char>, int)>)
    ensures
        restart_issues(rs).len() == restart_alerts(rs).len(),
        forall|i: int|
            0 <= i < restart_alerts(rs).len() ==> (#[trigger] restart_alerts(rs)[i]).severity
                == AlertSeverity::Critical,
    decreases rs.len(),
{
    if rs.len() > 0 {
        lemma_restart_alerts(rs.drop_last());
    }
}

proof fn lemma_exited_alerts(cs: Seq<ContainerView>)
    ensures
        forall|i: int|
            0 <= i < exited_alerts(cs).len() ==> (#[trigger] exited_alerts(cs)[i]).severity
                == AlertSeverity::Warning,
    decreases cs.len(),
{
    if cs.len() > 0 {
        lemma_exited_alerts(cs.drop_last());
    }
}

/// The overall status is critical exactly when some alert is critical.
pub proof fn lemma_docker_critical_status(cs: Seq<ContainerView>, rs: Seq<(Seq<char>, int)>)
    ensures
        (docker_status(cs, rs) is Critical) <==> has_critical(docker_alerts(cs, rs)),
{
    lemma_restart_alerts(rs);
    lemma_exited_alerts(cs);
    let ra = restart_alerts(rs);
    let ea = exited_alerts(cs);
    let a = docker_alerts(cs, rs);
    let n = (count_restarting(cs) as i64) as int;
    let tail: Seq<AlertView> = if n > 0 {
        seq![
            alert_of(
                AlertSeverity::Critical,
                ServiceKind::Docker,
                int_text(n) + " container(s) in restarting state"@,
                Some("docker compose restart"@),
            ),
        ]
    } else {
        Seq::empty()
    };
    assert(a == ra + ea + tail);
    if ra.len() > 0 {
        assert(a[0] == ra[0]);
        assert(a[0].severity == AlertSeverity::Critical);
    } else if n > 0 {
        assert(a[(ra.len() + ea.len()) as int] == tail[0]);
    } else {
        assert forall|i: int| 0 <= i < a.len() implies (#[trigger] a[i]).severity
            != AlertSeverity::Critical by {
            assert(a[i] == ea[i - ra.len()]);
        }
    }
}


proof fn lemma_restart_issues_empty(rs: Seq<(Seq<char>, int)>)
    ensures
        (restart_issues(rs).len() == 0) <==> (forall|i: int| 0 <= i < rs.len() ==> (#[trigger] rs[i]).1 <= 3),
    decreases rs.len(),
{
    if rs.len() > 0 {
        let r0 = rs.drop_last();
        lemma_restart_issues_empty(r0);
        if forall|i: int| 0 <= i < rs.len() ==> (#[trigger] rs[i]).1 <= 3 {
            assert forall|i: int| 0 <= i < r0.len() implies (#[trigger] r0[i]).1 <= 3 by {
                assert(r0[i] == rs[i]);
            }
            assert(rs[rs.len() - 1] == rs.last());
        } else if restart_issues(r0).len() == 0 && rs.last().1 <= 3 {
            assert forall|i: int| 0 <= i < rs.len() implies (#[trigger] rs[i]).1 <= 3 by {
                if i < r0.len() {
                    assert(r0[i] == rs[i]);
                }
            }
        }
    }
}

proof fn lemma_counts_bounded(cs: Seq<ContainerView>)
    ensures
        0 <= count_running(cs) <= cs.len(),
        0 <= count_exited(cs) <= cs.len(),
        0 <= count_restarting(cs) <= cs.len(),
    decreases cs.len(),
{
    if cs.len() > 0 {
        lemma_counts_bounded(cs.drop_last());
    }
}

/// The Docker status: critical exactly when some container restarted more
/// than three times or some container is restarting; otherwise degraded
/// with "N container(s) stopped" when N containers exited; otherwise
/// healthy when there is any container, and unknown when there is none.
pub proof fn lemma_docker_status_cases(cs: Seq<ContainerView>, rs: Seq<(Seq<char>, int)>)
    requires
        cs.len() <= i64::MAX,
    ensures
        (docker_status(cs, rs) is Critical) <==> ((exists|i: int|
            0 <= i < rs.len() && (#[trigger] rs[i]).1 > 3) || count_restarting(cs) > 0),
        !(docker_status(cs, rs) is Critical) && count_exited(cs) > 0 ==> docker_status(cs, rs)
            == StatusView::Degraded(int_text(count_exited(cs)) + " container(s) stopped"@),
        !(docker_status(cs, rs) is Critical) && count_exited(cs) == 0 ==> ((docker_status(cs, rs)
            is Healthy) <==> cs.len() > 0),
        (docker_status(cs, rs) is Unknown) <==> (!(docker_status(cs, rs) is Critical)
            && cs.len() == 0),
{
    lemma_restart_issues_empty(rs);
    lemma_counts_bounded(cs);
}


/// The container counts: running and exited count the containers whose
/// state, lower-cased, is exactly `running` or `exited`, restarting those
/// whose status mentions `restarting`; a container is never both running
/// and exited, so the two together are at most the containers listed.
pub proof fn lemma_docker_counts(cs: Seq<ContainerView>)
    ensures
        count_running(cs) == cs.filter(|c: ContainerView| lowercase(c.2) == "running"@).len(),
        count_exited(cs) == cs.filter(|c: ContainerView| lowercase(c.2) == "exited"@).len(),
        count_restarting(cs) == cs.filter(
            |c: ContainerView| contains(lowercase(c.1), "restarting"@),
        ).len(),
        count_running(cs) + count_exited(cs) <= cs.len(),
    decreases cs.len(),
{
    reveal(Seq::filter);
    if cs.len() > 0 {
        lemma_docker_counts(cs.drop_last());
        reveal_strlit("running");
        reveal_strlit("exited");
        assert("running"@ != "exited"@) by {
            assert("running"@.len() != "exited"@.len());
        }
    }
}


/// A restart-loop alert (critical, naming the container and its count) is
/// raised for exactly the containers restarted more than three times, in
/// order; an unexpected-stop warning for exactly the exited containers
/// whose status is not `Exited (0)`.
pub proof fn lemma_docker_alert_counts(cs: Seq<ContainerView>, rs: Seq<(Seq<char>, int)>)
    ensures
        restart_alerts(rs).len() == rs.filter(|r: (Seq<char>, int)| r.1 > 3).len(),
        restart_issues(rs).len() == restart_alerts(rs).len(),
        exited_alerts(cs).len() == cs.filter(
            |c: ContainerView| lowercase(c.2) == "exited"@ && !contains(lowercase(c.1), "exited (0)"@),
        ).len(),
    decreases cs.len() + rs.len(),
{
    reveal(Seq::filter);
    lemma_restart_alerts(rs);
    if rs.len() > 0 {
        lemma_docker_alert_counts(cs.take(0), rs.drop_last());
    }
    if cs.len() > 0 {
        lemma_docker_alert_counts(cs.drop_last(), Seq::empty());
    }
}
} // verus!
