//! Cumulative statistics of one monitored endpoint.

use vstd::prelude::*;

verus! {

/// The health of an endpoint as seen by one check.
#[derive(Clone, Copy, Debug, PartialEq, Eq, Structural)]
pub enum Status {
    Up,
    Down,
}

impl Status {
    /// The status that a check outcome stands for.
    pub open spec fn of(success: bool) -> Status {
        if success {
            Status::Up
        } else {
            Status::Down
        }
    }

    pub fn from_success(success: bool) -> (r: Status)
        ensures
            r == Status::of(success),
    {
        if success {
            Status::Up
        } else {
            Status::Down
        }
    }

    /// The word under which the status is persisted.
    pub fn label(&self) -> (r: &'static str)
        ensures
            r@ == (if *self == Status::Up { "up"@ } else { "down"@ }),
    {
        match self {
            Status::Up => "up",
            Status::Down => "down",
        }
    }
}

/// An instant in UTC: seconds since the Unix epoch and the nanoseconds within
/// that second.
#[derive(Clone, Copy, Debug, PartialEq, Eq, Structural)]
pub struct Timestamp {
    pub secs: i64,
    pub nanos: u32,
}

/// One check of an endpoint: whether it succeeded, how long the response took
/// in microseconds (zero for a failed check), and when it was recorded.
#[derive(Clone, Copy, Debug, PartialEq, Eq, Structural)]
pub struct Observation {
    pub success: bool,
    pub elapsed_micros: u64,
    pub at: Timestamp,
}

/// The mathematical content of a [`Metrics`] record.
pub struct MetricsView {
    pub endpoint: Seq<char>,
    pub total_checks: nat,
    pub successful_checks: nat,
    pub failed_checks: nat,
    /// Seconds charged to failed checks.
    pub total_downtime: nat,
    pub last_check: Option<Timestamp>,
    pub last_status: Option<Status>,
    /// Sum of the response times of the successful checks, in microseconds.
    pub response_micros: nat,
}

impl MetricsView {
    /// The record of an endpoint that has not been checked yet.
    pub open spec fn fresh(endpoint: Seq<char>) -> MetricsView {
        MetricsView {
            endpoint,
            total_checks: 0,
            successful_checks: 0,
            failed_checks: 0,
            total_downtime: 0,
            last_check: None,
            last_status: None,
            response_micros: 0,
        }
    }

    /// The record after one more observation, with `interval` seconds
    /// between checks.
    pub open spec fn observe(self, o: Observation, interval: u64) -> MetricsView {
        if o.success {
            MetricsView {
                total_checks: self.total_checks + 1,
                successful_checks: self.successful_checks + 1,
                response_micros: self.response_micros + o.elapsed_micros as nat,
                last_check: Some(o.at),
                last_status: Some(Status::Up),
                ..self
            }
        } else {
            MetricsView {
                total_checks: self.total_checks + 1,
                failed_checks: self.failed_checks + 1,
                total_downtime: self.total_downtime + interval as nat,
                last_check: Some(o.at),
                last_status: Some(Status::Down),
                ..self
            }
        }
    }

    /// The record after a sequence of observations, oldest first.
    pub open spec fn replay(self, history: Seq<Observation>, interval: u64) -> MetricsView
        decreases history.len(),
    {
        if history.len() == 0 {
            self
        } else {
            self.replay(history.drop_last(), interval).observe(history.last(), interval)
        }
    }

    /// Mean response time of the successful checks in whole microseconds,
    /// rounded down; zero while there is none.
    pub open spec fn average_response_micros(self) -> nat {
        if self.successful_checks == 0 {
            0
        } else {
            self.response_micros / self.successful_checks
        }
    }

    /// Share of successful checks in hundredths of a percent, rounded down.
    pub open spec fn success_rate(self) -> Option<nat> {
        if self.total_checks == 0 {
            None
        } else {
            Some(self.successful_checks * 10000 / self.total_checks)
        }
    }

    /// Every check is counted once, as a success or as a failure.
    pub open spec fn balanced(self) -> bool {
        self.total_checks == self.successful_checks + self.failed_checks
    }

    /// The counts are balanced, and counts and sums stay within what the
    /// counters of a record can hold.
    pub open spec fn consistent(self) -> bool {
        &&& self.balanced()
        &&& self.total_checks <= 0xffff_ffff_ffff_ffff
        &&& self.response_micros <= self.successful_checks * 0xffff_ffff_ffff_ffff
        &&& self.total_downtime <= self.failed_checks * 0xffff_ffff_ffff_ffff
    }
}

/// Statistics of one endpoint, accumulated over all of its checks.
#[derive(Debug)]
pub struct Metrics {
    endpoint: String,
    total_checks: u64,
    successful_checks: u64,
    failed_checks: u64,
    total_downtime: u128,
    last_check: Option<Timestamp>,
    last_status: Option<Status>,
    response_micros: u128,
}

impl View for Metrics {
    type V = MetricsView;

    closed spec fn view(&self) -> MetricsView {
        MetricsView {
            endpoint: self.endpoint@,
            total_checks: self.total_checks as nat,
            successful_checks: self.successful_checks as nat,
            failed_checks: self.failed_checks as nat,
            total_downtime: self.total_downtime as nat,
            last_check: self.last_check,
            last_status: self.last_status,
            response_micros: self.response_micros as nat,
        }
    }
}

impl Metrics {
    /// The invariant of a record.
    pub open spec fn wf(&self) -> bool {
        self@.consistent()
    }

    /// Whether one more observation fits the counters.
    pub open spec fn has_room(&self) -> bool {
        self@.total_checks < 0xffff_ffff_ffff_ffff
    }

    pub fn new(endpoint: String) -> (m: Metrics)
        ensures
            m.wf(),
            m@ == MetricsView::fresh(endpoint@),
    {
        Metrics {
            endpoint,
            total_checks: 0,
            successful_checks: 0,
            failed_checks: 0,
            total_downtime: 0,
            last_check: None,
            last_status: None,
            response_micros: 0,
        }
    }

    /// Applies one observation: counts it, adds its response time to the mean
    /// or charges one interval of downtime, and notes time and status.
    pub fn record_at(&mut self, o: Observation, interval: u64)
        requires
            old(self).wf(),
            old(self).has_room(),
        ensures
            final(self).wf(),
            final(self)@ == old(self)@.observe(o, interval),
    {
        self.total_checks = self.total_checks + 1;
        self.last_check = Some(o.at);
        if o.success {
            self.successful_checks = self.successful_checks + 1;
            self.response_micros = self.response_micros + o.elapsed_micros as u128;
            self.last_status = Some(Status::Up);
        } else {
            self.failed_checks = self.failed_checks + 1;
            self.total_downtime = self.total_downtime + interval as u128;
            self.last_status = Some(Status::Down);
        }
    }

    pub fn can_record(&self) -> (r: bool)
        ensures
            r == self.has_room(),
    {
        self.total_checks < u64::MAX
    }

    pub fn endpoint(&self) -> (r: &String)
        ensures
            r@ == self@.endpoint,
    {
        &self.endpoint
    }

    pub fn total_checks(&self) -> (r: u64)
        ensures
            r == self@.total_checks,
    {
        self.total_checks
    }

    pub fn successful_checks(&self) -> (r: u64)
        ensures
            r == self@.successful_checks,
    {
        self.successful_checks
    }

    pub fn failed_checks(&self) -> (r: u64)
        ensures
            r == self@.failed_checks,
    {
        self.failed_checks
    }

    /// Seconds of downtime: one check interval for every failed check.
    pub fn total_downtime(&self) -> (r: u128)
        ensures
            r == self@.total_downtime,
    {
        self.total_downtime
    }

    pub fn last_check(&self) -> (r: Option<Timestamp>)
        ensures
            r == self@.last_check,
    {
        self.last_check
    }

    pub fn last_status(&self) -> (r: Option<Status>)
        ensures
            r == self@.last_status,
    {
        self.last_status
    }

    /// Sum of the response times of all successful checks, in microseconds.
    pub fn response_micros(&self) -> (r: u128)
        ensures
            r == self@.response_micros,
    {
        self.response_micros
    }

    /// Mean response time of the successful checks, in microseconds.
    pub fn average_response_time(&self) -> (r: u64)
        requires
            self.wf(),
        ensures
            r == self@.average_response_micros(),
    {
        if self.successful_checks == 0 {
            0
        } else {
            let n: u128 = self.successful_checks as u128;
            let mean: u128 = self.response_micros / n;
            assert(mean <= 0xffff_ffff_ffff_ffff) by (nonlinear_arith)
                requires
                    mean == (self.response_micros as int) / (n as int),
                    n > 0,
                    self.response_micros <= n * 0xffff_ffff_ffff_ffff,
            ;
            mean as u64
        }
    }

    /// Share of successful checks in hundredths of a percent; `None` before
    /// the first check.
    pub fn success_rate(&self) -> (r: Option<u64>)
        requires
            self.wf(),
        ensures
            r.is_some() == self@.success_rate().is_some(),
            r matches Some(p) ==> self@.success_rate() == Some(p as nat) && p <= 10000,
    {
        if self.total_checks == 0 {
            None
        } else {
            let s: u128 = self.successful_checks as u128;
            let t: u128 = self.total_checks as u128;
            let p: u128 = s * 10000 / t;
            assert(p <= 10000) by (nonlinear_arith)
                requires
                    p == (s as int * 10000) / (t as int),
                    t > 0,
                    s <= t,
            ;
            Some(p as u64)
        }
    }
}

} // verus!
