//! Service providers: detection from probe output and analysis of each
//! service's command output into metrics, alerts and an overall status.

use vstd::prelude::*;

use crate::event::{
    alert_of, int_metric, opt_str_view, Alert, AlertSeverity,
    MetricValue, MetricView, ServiceKind, ServiceMetric, ValueView,
};
use crate::ssh::probe::ProbeOutput;
use crate::text::{contains, owned};

pub mod docker;
pub mod nginx;
pub mod postgresql;
pub mod nodejs;
pub mod redis;

verus! {

/// An integer metric with the given name and unit.
pub fn metric_int(name: &str, value: i64, unit: &str) -> (m: ServiceMetric)
    ensures
        m@ == int_metric(name@, value as int, unit@),
{
    ServiceMetric {
        name: owned(name),
        value: MetricValue::Integer(value),
        unit: owned(unit),
        threshold: None,
    }
}

/// A text metric with the given name and no unit.
pub fn metric_string(name: &str, value: &str) -> (m: ServiceMetric)
    ensures
        m@ == (MetricView {
            name: name@,
            value: ValueView::Text(value@),
            unit: Seq::empty(),
            threshold: None,
        }),
{
    ServiceMetric {
        name: owned(name),
        value: MetricValue::String(owned(value)),
        unit: String::new(),
        threshold: None,
    }
}

/// An alert about `service`.
pub fn alert(
    severity: AlertSeverity,
    service: ServiceKind,
    message: String,
    suggested_action: Option<String>,
) -> (a: Alert)
    ensures
        a@ == alert_of(severity, service, message@, opt_str_view(suggested_action)),
{
    Alert { severity, message, service, suggested_action }
}


/// The services with a provider, in the order they are checked.
pub open spec fn provider_order() -> Seq<ServiceKind> {
    seq![
        ServiceKind::Docker,
        ServiceKind::Nginx,
        ServiceKind::PostgreSQL,
        ServiceKind::Redis,
        ServiceKind::NodeJS,
    ]
}

/// Whether the provider for `kind` detects its service in probe sections `m`.
pub open spec fn detected(kind: ServiceKind, m: Map<Seq<char>, Seq<char>>) -> bool {
    match kind {
        ServiceKind::Docker => m.contains_key("DOCKER"@) && m["DOCKER"@].len() > 0,
        ServiceKind::Nginx => (m.contains_key("SERVICES"@) && contains(m["SERVICES"@], "nginx"@))
            || (m.contains_key("PROCESS"@) && contains(m["PROCESS"@], "nginx"@)),
        ServiceKind::PostgreSQL => (m.contains_key("SERVICES"@) && contains(
            m["SERVICES"@],
            "postgresql"@,
        )) || (m.contains_key("LISTEN"@) && (contains(m["LISTEN"@], ":5432"@) || contains(
            m["LISTEN"@],
            "5432"@,
        ))),
        ServiceKind::Redis => (m.contains_key("LISTEN"@) && (contains(m["LISTEN"@], ":6379"@)
            || contains(m["LISTEN"@], "6379"@))) || (m.contains_key("PROCESS"@) && (contains(
            m["PROCESS"@],
            "redis-server"@,
        ) || contains(m["PROCESS"@], "redis"@))),
        ServiceKind::NodeJS => m.contains_key("PROCESS"@) && (contains(m["PROCESS"@], "node "@)
            || contains(m["PROCESS"@], "/node"@)),
    }
}

/// The kinds of `ks` whose provider detects its service, in order.
pub open spec fn detected_kinds(ks: Seq<ServiceKind>, m: Map<Seq<char>, Seq<char>>) -> Seq<
    ServiceKind,
>
    decreases ks.len(),
{
    if ks.len() == 0 {
        Seq::empty()
    } else {
        let prev = detected_kinds(ks.drop_last(), m);
        if detected(ks.last(), m) {
            prev.push(ks.last())
        } else {
            prev
        }
    }
}

/// The registry of the built-in service providers.
pub struct ServiceRegistry {
    pub providers: Vec<ServiceKind>,
}

impl View for ServiceRegistry {
    type V = Seq<ServiceKind>;

    closed spec fn view(&self) -> Seq<ServiceKind> {
        self.providers@
    }
}

impl ServiceRegistry {
    /// A registry of the five built-in providers: Docker, Nginx, PostgreSQL,
    /// Redis and Node.js, in that order.
    pub fn new() -> (r: Self)
        ensures
            r@ == provider_order(),
    {
        let r = ServiceRegistry {
            providers: vec![
                ServiceKind::Docker,
                ServiceKind::Nginx,
                ServiceKind::PostgreSQL,
                ServiceKind::Redis,
                ServiceKind::NodeJS,
            ],
        };
        assert(r@ =~= provider_order());
        r
    }

    /// The services whose provider detects them in the probe output, in
    /// registry order.
    pub fn detect_services(&self, probe_output: &ProbeOutput) -> (r: Vec<ServiceKind>)
        ensures
            r@ == detected_kinds(self@, probe_output@),
    {
        let mut r: Vec<ServiceKind> = Vec::new();
        let mut i: usize = 0;
        while i < self.providers.len()
            invariant
                i <= self.providers.len(),
                r@ == detected_kinds(self@.take(i as int), probe_output@),
            decreases self.providers.len() - i,
        {
            assert(self@.take(i + 1).drop_last() == self@.take(i as int));
            let kind = self.providers[i];
            if provider_detects(kind, probe_output) {
                r.push(kind);
            }
            i = i + 1;
        }
        assert(self@.take(self.providers.len() as int) == self@);
        r
    }

    /// The provider for `kind`, if the registry has one.
    pub fn get_provider(&self, kind: &ServiceKind) -> (r: Option<ServiceKind>)
        ensures
            r is Some <==> self@.contains(*kind),
            r matches Some(k) ==> k == *kind,
    {
        let mut i: usize = 0;
        while i < self.providers.len()
            invariant
                i <= self.providers.len(),
                forall|j: int| 0 <= j < i ==> self@[j] != *kind,
            decreases self.providers.len() - i,
        {
            if self.providers[i] == *kind {
                return Some(*kind);
            }
            i = i + 1;
        }
        None
    }
}

/// Runs the detection of the provider for `kind`.
pub fn provider_detects(kind: ServiceKind, probe_output: &ProbeOutput) -> (r: bool)
    ensures
        r == detected(kind, probe_output@),
{
    match kind {
        ServiceKind::Docker => docker::DockerProvider.detect(probe_output),
        ServiceKind::Nginx => nginx::NginxProvider.detect(probe_output),
        ServiceKind::PostgreSQL => postgresql::PostgreSQLProvider.detect(probe_output),
        ServiceKind::Redis => redis::RedisProvider.detect(probe_output),
        ServiceKind::NodeJS => nodejs::NodeJSProvider.detect(probe_output),
    }
}

} // verus!
