//! Data exchanged between service discovery and the display layer.

use vstd::prelude::*;

verus! {

/// The services the discovery layer knows how to recognise.
#[derive(Debug, Clone, Copy, PartialEq, Eq, Hash, Structural)]
pub enum ServiceKind {
    Docker,
    Nginx,
    PostgreSQL,
    Redis,
    NodeJS,
}

/// Overall health of a detected service.
#[derive(Debug, Clone)]
pub enum ServiceStatus {
    Healthy,
    Degraded(String),
    Critical(String),
    Unknown,
}

/// Severity of an alert; `Critical` ranks highest.
#[derive(Debug, Clone, Copy, PartialEq, Eq, PartialOrd, Ord, Hash, Structural)]
pub enum AlertSeverity {
    Info,
    Warning,
    Critical,
}

/// A problem found on a service, with an optional remedy.
#[derive(Debug, Clone)]
pub struct Alert {
    pub severity: AlertSeverity,
    pub message: String,
    pub service: ServiceKind,
    pub suggested_action: Option<String>,
}

/// The value of a service metric.
#[derive(Debug, Clone)]
pub enum MetricValue {
    Integer(i64),
    String(String),
}

/// A named metric reported for a service.
#[derive(Debug, Clone)]
pub struct ServiceMetric {
    pub name: String,
    pub value: MetricValue,
    pub unit: String,
    pub threshold: Option<i64>,
}

/// Everything known about one service on one host.
#[derive(Debug, Clone)]
pub struct DetectedService {
    pub kind: ServiceKind,
    pub version: Option<String>,
    pub status: ServiceStatus,
    pub metrics: Vec<ServiceMetric>,
    pub alerts: Vec<Alert>,
    pub suggested_snippets: Vec<String>,
}

// ---------------------------------------------------------------------------
// Mathematical views
// ---------------------------------------------------------------------------

/// The view of a [`ServiceStatus`].
pub ghost enum StatusView {
    Healthy,
    Degraded(Seq<char>),
    Critical(Seq<char>),
    Unknown,
}

impl View for ServiceStatus {
    type V = StatusView;

    open spec fn view(&self) -> StatusView {
        match self {
            ServiceStatus::Healthy => StatusView::Healthy,
            ServiceStatus::Degraded(s) => StatusView::Degraded(s@),
            ServiceStatus::Critical(s) => StatusView::Critical(s@),
            ServiceStatus::Unknown => StatusView::Unknown,
        }
    }
}

/// The view of an [`Alert`].
pub ghost struct AlertView {
    pub severity: AlertSeverity,
    pub message: Seq<char>,
    pub service: ServiceKind,
    pub suggested_action: Option<Seq<char>>,
}

/// The view of an optional string.
pub open spec fn opt_str_view(o: Option<String>) -> Option<Seq<char>> {
    match o {
        Some(s) => Some(s@),
        None => None,
    }
}

impl View for Alert {
    type V = AlertView;

    open spec fn view(&self) -> AlertView {
        AlertView {
            severity: self.severity,
            message: self.message@,
            service: self.service,
            suggested_action: opt_str_view(self.suggested_action),
        }
    }
}

/// The view of a [`MetricValue`].
pub ghost enum ValueView {
    Integer(int),
    Text(Seq<char>),
}

/// The view of a [`ServiceMetric`].
pub ghost struct MetricView {
    pub name: Seq<char>,
    pub value: ValueView,
    pub unit: Seq<char>,
    pub threshold: Option<i64>,
}

impl View for ServiceMetric {
    type V = MetricView;

    open spec fn view(&self) -> MetricView {
        MetricView {
            name: self.name@,
            value: match self.value {
                MetricValue::Integer(i) => ValueView::Integer(i as int),
                MetricValue::String(s) => ValueView::Text(s@),
            },
            unit: self.unit@,
            threshold: self.threshold,
        }
    }
}

/// The views of a list of alerts.
pub open spec fn alerts_view(v: Seq<Alert>) -> Seq<AlertView> {
    Seq::new(v.len(), |i: int| v[i]@)
}

/// The views of a list of metrics.
pub open spec fn metrics_view(v: Seq<ServiceMetric>) -> Seq<MetricView> {
    Seq::new(v.len(), |i: int| v[i]@)
}

/// The view of an integer metric without threshold.
pub open spec fn int_metric(name: Seq<char>, value: int, unit: Seq<char>) -> MetricView {
    MetricView { name, value: ValueView::Integer(value), unit, threshold: None }
}

/// The view of an alert.
pub open spec fn alert_of(
    severity: AlertSeverity,
    service: ServiceKind,
    message: Seq<char>,
    suggested_action: Option<Seq<char>>,
) -> AlertView {
    AlertView { severity, message, service, suggested_action }
}

pub proof fn lemma_alerts_push(v: Seq<Alert>, a: Alert)
    ensures
        alerts_view(v.push(a)) == alerts_view(v).push(a@),
{
    assert(alerts_view(v.push(a)) =~= alerts_view(v).push(a@));
}

// ---------------------------------------------------------------------------
// Metric lookup
// ---------------------------------------------------------------------------

/// The value of the last metric named `name` that holds an integer.
pub open spec fn last_int(ms: Seq<MetricView>, name: Seq<char>) -> Option<int>
    decreases ms.len(),
{
    if ms.len() == 0 {
        None
    } else if ms.last().name == name && ms.last().value is Integer {
        Some(ms.last().value->Integer_0)
    } else {
        last_int(ms.drop_last(), name)
    }
}

/// The value of the first metric named `name` that holds an integer above
/// `floor`.
pub open spec fn first_int_above(ms: Seq<MetricView>, name: Seq<char>, floor: Option<int>) -> Option<
    int,
>
    decreases ms.len(),
{
    if ms.len() == 0 {
        None
    } else {
        match first_int_above(ms.drop_last(), name, floor) {
            Some(x) => Some(x),
            None => {
                let m = ms.last();
                if m.name == name && m.value is Integer && (match floor {
                    Some(f) => m.value->Integer_0 > f,
                    None => true,
                }) {
                    Some(m.value->Integer_0)
                } else {
                    None
                }
            },
        }
    }
}

/// [`last_int`] on a list of metrics.
pub fn last_int_in(ms: &Vec<ServiceMetric>, name: &str) -> (r: Option<i64>)
    ensures
        r matches Some(x) ==> last_int(metrics_view(ms@), name@) == Some(x as int),
        r is None ==> last_int(metrics_view(ms@), name@) is None,
{
    let ghost mv = metrics_view(ms@);
    let mut r: Option<i64> = None;
    let mut i: usize = 0;
    assert(mv.take(0) =~= Seq::<MetricView>::empty());
    while i < ms.len()
        invariant
            i <= ms.len(),
            mv == metrics_view(ms@),
            r matches Some(x) ==> last_int(mv.take(i as int), name@) == Some(x as int),
            r is None ==> last_int(mv.take(i as int), name@) is None,
        decreases ms.len() - i,
    {
        assert(mv.take(i + 1).drop_last() == mv.take(i as int));
        assert(mv.take(i + 1).last() == ms@[i as int]@);
        if crate::text::str_eq(ms[i].name.as_str(), name) {
            match ms[i].value {
                MetricValue::Integer(n) => {
                    r = Some(n);
                },
                _ => {},
            }
        }
        i = i + 1;
    }
    assert(mv.take(ms.len() as int) == mv);
    r
}

/// [`first_int_above`] on a list of metrics.
pub fn first_int_above_in(ms: &Vec<ServiceMetric>, name: &str, floor: Option<i64>) -> (r: Option<
    i64,
>)
    ensures
        r matches Some(x) ==> first_int_above(metrics_view(ms@), name@, opt_int(floor)) == Some(
            x as int,
        ),
        r is None ==> first_int_above(metrics_view(ms@), name@, opt_int(floor)) is None,
{
    let ghost mv = metrics_view(ms@);
    let ghost f = opt_int(floor);
    let mut i: usize = 0;
    assert(mv.take(0) =~= Seq::<MetricView>::empty());
    while i < ms.len()
        invariant
            i <= ms.len(),
            mv == metrics_view(ms@),
            f == opt_int(floor),
            first_int_above(mv.take(i as int), name@, f) is None,
        decreases ms.len() - i,
    {
        assert(mv.take(i + 1).drop_last() == mv.take(i as int));
        assert(mv.take(i + 1).last() == ms@[i as int]@);
        if crate::text::str_eq(ms[i].name.as_str(), name) {
            match ms[i].value {
                MetricValue::Integer(n) => {
                    let above = match floor {
                        Some(fl) => n > fl,
                        None => true,
                    };
                    if above {
                        proof {
                            lemma_first_int_above_prefix(mv, name@, f, i + 1);
                        }
                        return Some(n);
                    }
                },
                _ => {},
            }
        }
        i = i + 1;
    }
    assert(mv.take(ms.len() as int) == mv);
    None
}

/// An optional `i64` as an optional integer.
pub open spec fn opt_int(o: Option<i64>) -> Option<int> {
    match o {
        Some(x) => Some(x as int),
        None => None,
    }
}

/// A value found in a prefix is the value of the whole list.
pub proof fn lemma_first_int_above_prefix(
    ms: Seq<MetricView>,
    name: Seq<char>,
    floor: Option<int>,
    k: int,
)
    requires
        0 <= k <= ms.len(),
        first_int_above(ms.take(k), name, floor) is Some,
    ensures
        first_int_above(ms, name, floor) == first_int_above(ms.take(k), name, floor),
    decreases ms.len() - k,
{
    if k < ms.len() {
        let k1 = k + 1;
        assert(ms.take(k1).drop_last() == ms.take(k));
        lemma_first_int_above_prefix(ms, name, floor, k1);
    } else {
        assert(ms.take(k) == ms);
    }
}


/// Some alert of the list is critical.
pub open spec fn has_critical(alerts: Seq<AlertView>) -> bool {
    exists|i: int| 0 <= i < alerts.len() && (#[trigger] alerts[i]).severity == AlertSeverity::Critical
}

} // verus!
