//! The health monitor: which backend is probed next, and what is reported
//! about it.
//!
//! The monitor only observes. What it learns is reported and nothing else:
//! a backend found down stays on the hash ring and keeps receiving the
//! requests that are routed to it.

use vstd::prelude::*;
use vstd::string::StringExecFns;
use crate::scheduling::{next_index, RoundRobin};

verus! {

/// Seconds to wait between two probes.
pub const PROBE_INTERVAL_SECS: u64 = 10;

/// What a probe found.
#[derive(Debug, Clone, Copy, PartialEq, Eq)]
pub enum HealthStatus {
    /// The backend accepted a connection.
    Up,
    /// The backend did not accept a connection.
    Down,
}

/// The finding of one probe.
#[derive(Debug)]
pub struct HealthReport {
    /// The address that was probed.
    pub worker: String,
    /// What the probe found.
    pub status: HealthStatus,
}

impl HealthReport {
    /// The name of the log event for this report.
    pub open spec fn event_text(&self) -> Seq<char> {
        match self.status {
            HealthStatus::Up => "[WORKER UP]"@,
            HealthStatus::Down => "[WORKER DOWN]"@,
        }
    }

    /// The log line for this report.
    pub open spec fn message_text(&self) -> Seq<char> {
        match self.status {
            HealthStatus::Up => "Worker node "@ + self.worker@ + " is up!"@,
            HealthStatus::Down => "Worker node "@ + self.worker@ + " is down"@,
        }
    }

    /// Whether the report is a warning rather than a piece of information.
    pub fn is_warning(&self) -> (warning: bool)
        ensures
            warning == (self.status == HealthStatus::Down),
    {
        match self.status {
            HealthStatus::Up => false,
            HealthStatus::Down => true,
        }
    }

    /// The name of the log event for this report.
    pub fn event_name(&self) -> (name: &'static str)
        ensures
            name@ == self.event_text(),
    {
        match self.status {
            HealthStatus::Up => "[WORKER UP]",
            HealthStatus::Down => "[WORKER DOWN]",
        }
    }

    /// The log line for this report.
    pub fn message(&self) -> (text: String)
        ensures
            text@ == self.message_text(),
    {
        let mut text: String = "Worker node ".to_owned();
        text.append(self.worker.as_str());
        match self.status {
            HealthStatus::Up => text.append(" is up!"),
            HealthStatus::Down => text.append(" is down"),
        }
        text
    }
}

/// Probes the configured backends one after another, forever.
#[derive(Debug)]
pub struct HealthChecker {
    rotation: RoundRobin,
}

impl HealthChecker {
    /// The backends that are probed, in order.
    pub closed spec fn workers(&self) -> Seq<String> {
        self.rotation.workers()
    }

    /// The index of the backend that is probed next.
    pub closed spec fn index(&self) -> nat {
        self.rotation.index()
    }

    /// The monitor's invariant: there is a backend to probe next.
    pub open spec fn wf(&self) -> bool {
        self.index() < self.workers().len()
    }

    /// The address to probe next.
    pub fn target(&self) -> (worker: &String)
        requires
            self.wf(),
        ensures
            *worker == self.workers()[self.index() as int],
    {
        self.rotation.current()
    }

    /// Takes the outcome of the probe of the current target and reports
    /// it: up if the backend was reachable, down if not. The turn then
    /// passes to the next backend.
    pub fn record(&mut self, reachable: bool) -> (report: HealthReport)
        requires
            old(self).wf(),
        ensures
            final(self).wf(),
            final(self).workers() == old(self).workers(),
            final(self).index() == next_index(old(self).index(), old(self).workers().len()),
            report.worker == old(self).workers()[old(self).index() as int],
            report.status == (if reachable {
                HealthStatus::Up
            } else {
                HealthStatus::Down
            }),
    {
        let worker: String = self.rotation.current().clone();
        self.rotation.advance();
        let status: HealthStatus = if reachable {
            HealthStatus::Up
        } else {
            HealthStatus::Down
        };
        HealthReport { worker, status }
    }
}

/// Sets up the monitoring of `workers`, beginning with the first of them.
/// Without backends there is nothing to monitor.
pub fn check_health(workers: Vec<String>) -> (checker: Option<HealthChecker>)
    ensures
        match checker {
            Some(checker) => workers@.len() > 0 && checker.wf() && checker.workers() == workers@
                && checker.index() == 0,
            None => workers@.len() == 0,
        },
{
    match RoundRobin::new(workers) {
        Some(rotation) => Some(HealthChecker { rotation }),
        None => None,
    }
}

} // verus!
