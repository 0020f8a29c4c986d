//! Detail view helpers: service names, hotkeys and status lines.

use vstd::prelude::*;

use crate::event::{first_int_above, first_int_above_in, metrics_view, DetectedService, ServiceKind};
use crate::text::{fmt_i64, int_text, owned, push_str};
use super::card::{int_or_zero, int_or_zero_in};

verus! {

/// The full name of a service.
pub open spec fn display_name(k: ServiceKind) -> Seq<char> {
    match k {
        ServiceKind::Docker => "Docker"@,
        ServiceKind::Nginx => "Nginx"@,
        ServiceKind::PostgreSQL => "PostgreSQL"@,
        ServiceKind::Redis => "Redis"@,
        ServiceKind::NodeJS => "Node.js"@,
    }
}

/// The full name of a service.
pub fn service_name_display(kind: &ServiceKind) -> (r: String)
    ensures
        r@ == display_name(*kind),
{
    match kind {
        ServiceKind::Docker => owned("Docker"),
        ServiceKind::Nginx => owned("Nginx"),
        ServiceKind::PostgreSQL => owned("PostgreSQL"),
        ServiceKind::Redis => owned("Redis"),
        ServiceKind::NodeJS => owned("Node.js"),
    }
}

/// The key that opens a service's detail, by kind: 4 for Docker, 5 Nginx,
/// 6 PostgreSQL, 7 Redis, 8 Node.js.
pub open spec fn hotkey_digit(k: ServiceKind) -> char {
    match k {
        ServiceKind::Docker => '4',
        ServiceKind::Nginx => '5',
        ServiceKind::PostgreSQL => '6',
        ServiceKind::Redis => '7',
        ServiceKind::NodeJS => '8',
    }
}

/// The hotkey label of a service, e.g. `[4]`, fixed by its kind whatever
/// order the services are listed in.
pub fn service_hotkey(kind: &ServiceKind) -> (r: String)
    ensures
        r@ == seq!['[', hotkey_digit(*kind), ']'],
{
    let mut s = owned("[");
    crate::text::push_char(
        &mut s,
        match kind {
            ServiceKind::Docker => '4',
            ServiceKind::Nginx => '5',
            ServiceKind::PostgreSQL => '6',
            ServiceKind::Redis => '7',
            ServiceKind::NodeJS => '8',
        },
    );
    crate::text::push_char(&mut s, ']');
    proof {
        reveal_strlit("[");
    }
    assert(s@ =~= seq!['[', hotkey_digit(*kind), ']']);
    s
}

/// The status line of a service in the detail view.
pub open spec fn status_line(kind: ServiceKind, ms: Seq<crate::event::MetricView>) -> Seq<char> {
    match kind {
        ServiceKind::Docker => {
            let r = int_or_zero(ms, "containers_running"@);
            let s = int_or_zero(ms, "containers_stopped"@);
            if s > 0 {
                int_text(r) + " running, "@ + int_text(s) + " stopped"@
            } else {
                int_text(r) + " containers running"@
            }
        },
        ServiceKind::PostgreSQL => match first_int_above(ms, "replication_lag_seconds"@, Some(0)) {
            Some(lag) => "repl lag: "@ + int_text(lag) + "s"@,
            None => "active, no replication lag"@,
        },
        ServiceKind::Nginx => match first_int_above(ms, "recent_502_504_errors"@, None) {
            Some(e) => "active, "@ + int_text(e) + " errors/5min"@,
            None => "active, 0 errors/5min"@,
        },
        ServiceKind::Redis => {
            let m = int_or_zero(ms, "memory_used_mb"@);
            if m > 0 {
                "active, "@ + int_text(m) + "MB mem"@
            } else {
                "active"@
            }
        },
        ServiceKind::NodeJS => {
            let n = int_or_zero(ms, "node_processes"@);
            if n > 0 {
                int_text(n) + " process(es) running"@
            } else {
                "no processes"@
            }
        },
    }
}

/// The status line of a service; see [`status_line`].
pub fn service_status_display(service: &DetectedService) -> (r: String)
    ensures
        r@ == status_line(service.kind, metrics_view(service.metrics@)),
{
    let ms = &service.metrics;
    match service.kind {
        ServiceKind::Docker => {
            let running = int_or_zero_in(ms, "containers_running");
            let stopped = int_or_zero_in(ms, "containers_stopped");
            let mut s = fmt_i64(running);
            if stopped > 0 {
                push_str(&mut s, " running, ");
                push_str(&mut s, fmt_i64(stopped).as_str());
                push_str(&mut s, " stopped");
            } else {
                push_str(&mut s, " containers running");
            }
            s
        },
        ServiceKind::PostgreSQL => {
            match first_int_above_in(ms, "replication_lag_seconds", Some(0)) {
                Some(lag) => {
                    let mut s = owned("repl lag: ");
                    push_str(&mut s, fmt_i64(lag).as_str());
                    push_str(&mut s, "s");
                    s
                },
                None => owned("active, no replication lag"),
            }
        },
        ServiceKind::Nginx => {
            match first_int_above_in(ms, "recent_502_504_errors", None) {
                Some(e) => {
                    let mut s = owned("active, ");
                    push_str(&mut s, fmt_i64(e).as_str());
                    push_str(&mut s, " errors/5min");
                    s
                },
                None => owned("active, 0 errors/5min"),
            }
        },
        ServiceKind::Redis => {
            let m = int_or_zero_in(ms, "memory_used_mb");
            if m > 0 {
                let mut s = owned("active, ");
                push_str(&mut s, fmt_i64(m).as_str());
                push_str(&mut s, "MB mem");
                s
            } else {
                owned("active")
            }
        },
        ServiceKind::NodeJS => {
            let n = int_or_zero_in(ms, "node_processes");
            if n > 0 {
                let mut s = fmt_i64(n);
                push_str(&mut s, " process(es) running");
                s
            } else {
                owned("no processes")
            }
        },
    }
}

} // verus!
