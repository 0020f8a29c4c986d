//! Service discovery: what the Quick Scan reports before the deep probe.

use vstd::prelude::*;

use crate::event::{metrics_view, DetectedService, MetricView, ServiceKind, ServiceStatus};
use crate::ssh::probe::ProbeOutput;
use crate::ssh::services::docker::{docker_quick_metrics, DockerProvider};
use crate::ssh::services::{detected_kinds, ServiceRegistry};

verus! {

/// The metrics a provider reads from the probe output alone: container
/// counts for Docker, none for the others.
pub open spec fn quick_metrics_of(kind: ServiceKind, probe: Map<Seq<char>, Seq<char>>) -> Seq<
    MetricView,
> {
    match kind {
        ServiceKind::Docker => docker_quick_metrics(probe),
        _ => Seq::empty(),
    }
}

/// The services the Quick Scan reports: one per detected kind, in registry
/// order, with the metrics readable from the probe output, status unknown,
/// and no version, alerts or snippets yet.
pub fn quick_scan_services(registry: &ServiceRegistry, probe_output: &ProbeOutput) -> (r: Vec<
    DetectedService,
>)
    ensures
        r@.len() == detected_kinds(registry@, probe_output@).len(),
        forall|i: int|
            0 <= i < r@.len() ==> {
                let s = #[trigger] r@[i];
                &&& s.kind == detected_kinds(registry@, probe_output@)[i]
                &&& s.version is None
                &&& s.status is Unknown
                &&& metrics_view(s.metrics@) == quick_metrics_of(s.kind, probe_output@)
                &&& s.alerts@.len() == 0
                &&& s.suggested_snippets@.len() == 0
            },
{
    let kinds = registry.detect_services(probe_output);
    let mut r: Vec<DetectedService> = Vec::new();
    let mut i: usize = 0;
    while i < kinds.len()
        invariant
            i <= kinds.len(),
            kinds@ == detected_kinds(registry@, probe_output@),
            r@.len() == i,
            forall|j: int|
                0 <= j < i ==> {
                    let s = #[trigger] r@[j];
                    &&& s.kind == kinds@[j]
                    &&& s.version is None
                    &&& s.status is Unknown
                    &&& metrics_view(s.metrics@) == quick_metrics_of(s.kind, probe_output@)
                    &&& s.alerts@.len() == 0
                    &&& s.suggested_snippets@.len() == 0
                },
        decreases kinds.len() - i,
    {
        let kind = kinds[i];
        let metrics = match kind {
            ServiceKind::Docker => DockerProvider.quick_metrics(probe_output),
            _ => {
                let m = Vec::new();
                assert(metrics_view(m@) =~= Seq::<MetricView>::empty());
                m
            },
        };
        r.push(
            DetectedService {
                kind,
                version: None,
                status: ServiceStatus::Unknown,
                metrics,
                alerts: Vec::new(),
                suggested_snippets: Vec::new(),
            },
        );
        i = i + 1;
    }
    r
}

} // verus!
