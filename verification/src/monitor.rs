//! The decisions of the monitoring loop: which endpoint to probe next, when
//! to notify, and what to record.
//!
//! The loop itself belongs to the caller. It asks [`Monitor::next_action`]
//! what to do, does it, and reports back: a finished probe with
//! [`Monitor::on_probe`], which decides on the notification from the status
//! recorded before; the notification done with [`Monitor::record`], which
//! only then writes the new status; a finished wait with
//! [`Monitor::on_wake`].

use crate::clock::utc_now;
use crate::metrics::{MetricsView, Observation, Status, Timestamp};
use crate::notifier::{notice_text, time_label, Delivery, Notifier};
use crate::probe::Check;
use crate::store::{
    distinct, fresh_records, holds, lemma_fresh_records, lemma_observed_keeps_names,
    lemma_position_unique, observed, position, views, MetricsStore,
};
use vstd::prelude::*;

verus! {

/// Where the loop stands: in the first pass over the endpoints, in which
/// every check is announced, or in the passes after it, in which only a
/// change of status is.
#[derive(Clone, Copy, Debug, PartialEq, Eq, Structural)]
pub enum Phase {
    Startup,
    Steady,
}

/// What the caller does next.
#[derive(Debug)]
pub enum Action {
    /// Send one GET request to the endpoint and report the result.
    Probe { endpoint: String },
    /// Deliver what the last outcome asked for, then have the check recorded.
    Settle,
    /// Wait for the check interval, then report back.
    Sleep { seconds: u64 },
}

impl Action {
    /// Whether the action is a probe of `endpoint`.
    pub open spec fn probes(&self, endpoint: Seq<char>) -> bool {
        match self {
            Action::Probe { endpoint: e } => e@ == endpoint,
            _ => false,
        }
    }

    /// Whether the action is a wait of `seconds`.
    pub open spec fn sleeps(&self, seconds: u64) -> bool {
        match self {
            Action::Sleep { seconds: s } => *s == seconds,
            _ => false,
        }
    }
}

/// What one finished probe calls for.
#[derive(Debug)]
pub struct Outcome {
    pub endpoint: String,
    /// The phase in which the probe was made.
    pub phase: Phase,
    pub status: Status,
    /// Whether the check calls for a notification.
    pub notify: bool,
    /// The message to deliver: present where the check calls for a
    /// notification and a channel is configured.
    pub delivery: Option<Delivery>,
}

/// What one recorded check left behind, for the status line.
#[derive(Debug)]
pub struct Summary {
    pub endpoint: String,
    /// The phase in which the probe was made.
    pub phase: Phase,
    pub status: Status,
    pub elapsed_micros: u64,
    /// Share of successful checks after this one, in hundredths of a percent.
    pub success_rate: u64,
}

/// Whether a check is announced: always during startup, afterwards only
/// where the status seen differs from the one recorded last.
pub open spec fn should_notify(phase: Phase, last: Option<Status>, success: bool) -> bool {
    phase == Phase::Startup || (last matches Some(s) && s != Status::of(success))
}

/// The mathematical content of a [`Monitor`].
pub struct MonitorView {
    pub endpoints: Seq<Seq<char>>,
    pub check_interval: u64,
    pub timeout: u64,
    pub records: Seq<MetricsView>,
    pub target: Option<Seq<char>>,
    pub phase: Phase,
    /// The place of the endpoint whose turn it is; the number of endpoints
    /// once the pass is over.
    pub cursor: nat,
    /// The check that was decided on and is not recorded yet.
    pub pending: Option<Check>,
}

impl MonitorView {
    /// The state in which monitoring starts.
    pub open spec fn initial(
        endpoints: Seq<Seq<char>>,
        check_interval: u64,
        timeout: u64,
        target: Option<Seq<char>>,
    ) -> MonitorView {
        MonitorView {
            endpoints,
            check_interval,
            timeout,
            records: fresh_records(endpoints),
            target,
            phase: Phase::Startup,
            cursor: 0,
            pending: None,
        }
    }

    /// Whether the pass is still under way.
    pub open spec fn awaiting(self) -> bool {
        self.cursor < self.endpoints.len()
    }

    /// The endpoint whose turn it is.
    pub open spec fn current(self) -> Seq<char> {
        self.endpoints[self.cursor as int]
    }

    /// The record of the endpoint whose turn it is.
    pub open spec fn current_record(self) -> MetricsView {
        self.records[position(self.records, self.current())]
    }

    /// Whether a probe is awaited: the pass is under way and no check is
    /// pending.
    pub open spec fn ready(self) -> bool {
        self.awaiting() && self.pending.is_none()
    }

    /// Whether a probe is awaited and the counters of its record can still
    /// take it.
    pub open spec fn can_count(self) -> bool {
        self.ready() && self.current_record().total_checks < 0xffff_ffff_ffff_ffff
    }

    /// The state after the awaited probe was decided on: the check is kept
    /// for recording, and no record has changed yet.
    pub open spec fn after_probe(self, check: Check) -> MonitorView {
        MonitorView { pending: Some(check), ..self }
    }

    /// The observation that the pending check becomes when recorded at `at`.
    pub open spec fn pending_observation(self, at: Timestamp) -> Observation {
        Observation {
            success: self.pending.unwrap().success,
            elapsed_micros: self.pending.unwrap().elapsed_micros,
            at,
        }
    }

    /// The state after the pending check was recorded at `at`: the record of
    /// the endpoint takes the observation, and the turn passes on.
    pub open spec fn after_record(self, at: Timestamp) -> MonitorView {
        MonitorView {
            records: observed(
                self.records,
                self.current(),
                self.pending_observation(at),
                self.check_interval,
            ),
            cursor: self.cursor + 1,
            pending: None,
            ..self
        }
    }

    /// The state after a wait: once a pass is over the next one begins, in
    /// the steady phase; in the middle of a pass nothing changes.
    pub open spec fn after_wake(self) -> MonitorView {
        if self.awaiting() {
            self
        } else {
            MonitorView { phase: Phase::Steady, cursor: 0, ..self }
        }
    }

    /// The state after one whole check of the endpoint whose turn it is:
    /// decided on, then recorded. Where no probe is awaited, nothing
    /// changes.
    pub open spec fn after_check(self, o: Observation) -> MonitorView {
        if self.ready() {
            self.after_probe((Check { success: o.success, elapsed_micros: o.elapsed_micros })).after_record(
                o.at,
            )
        } else {
            self
        }
    }

    /// The state after some checks in turn, oldest first.
    pub open spec fn after_checks(self, checks: Seq<Observation>) -> MonitorView
        decreases checks.len(),
    {
        if checks.len() == 0 {
            self
        } else {
            self.after_checks(checks.drop_last()).after_check(checks.last())
        }
    }

    /// The state after a pass with these checks and the wait that follows.
    pub open spec fn after_pass(self, checks: Seq<Observation>) -> MonitorView {
        self.after_checks(checks).after_wake()
    }

    /// The state after several passes and their waits, oldest first.
    pub open spec fn after_passes(self, passes: Seq<Seq<Observation>>) -> MonitorView
        decreases passes.len(),
    {
        if passes.len() == 0 {
            self
        } else {
            self.after_passes(passes.drop_last()).after_pass(passes.last())
        }
    }

    /// Whether a pass starts here: the turn is the first endpoint's, and no
    /// check is pending.
    pub open spec fn at_start(self) -> bool {
        self.cursor == 0 && self.pending.is_none()
    }

    /// Whether the endpoint of the record at place `i` is among the first
    /// `k` endpoints.
    pub open spec fn checked(self, k: int, i: int) -> bool {
        exists|j: int| 0 <= j < k && #[trigger] self.endpoints[j] == self.records[i].endpoint
    }

    /// The number of checks that the first `k` endpoints of a pass add to
    /// the record at place `i`, where every endpoint is named once.
    pub open spec fn added(self, k: int, i: int) -> nat {
        if self.checked(k, i) {
            1
        } else {
            0
        }
    }

    /// Every record counts `n` checks, each as a success or as a failure.
    pub open spec fn counts(self, n: nat) -> bool {
        forall|i: int|
            0 <= i < self.records.len() ==> (#[trigger] self.records[i]).total_checks == n
                && self.records[i].total_checks == self.records[i].successful_checks
                + self.records[i].failed_checks
    }

    /// What the awaited probe calls for: the check is announced during
    /// startup and on a change of status, and there is a message exactly
    /// where it is announced and a channel is configured.
    pub open spec fn yields(self, check: Check, at: Timestamp, out: Outcome) -> bool {
        &&& out.endpoint@ == self.current()
        &&& out.phase == self.phase
        &&& out.status == Status::of(check.success)
        &&& out.notify == should_notify(self.phase, self.current_record().last_status, check.success)
        &&& out.delivery.is_some() == (out.notify && self.target.is_some())
        &&& out.delivery matches Some(d) ==> Some(d.url@) == self.target && d.text@ == notice_text(
            self.current(),
            !check.success,
            time_label(at.secs),
            check.elapsed_micros,
        )
    }

    /// What recording the pending check at `at` reports: the check itself
    /// and the success rate of the record after it.
    pub open spec fn reports(self, at: Timestamp, sum: Summary) -> bool {
        &&& sum.endpoint@ == self.current()
        &&& sum.phase == self.phase
        &&& sum.status == Status::of(self.pending.unwrap().success)
        &&& sum.elapsed_micros == self.pending.unwrap().elapsed_micros
        &&& Some(sum.success_rate as nat) == self.current_record().observe(
            self.pending_observation(at),
            self.check_interval,
        ).success_rate()
    }

    /// Every record has been checked at least once.
    pub open spec fn all_known(self) -> bool {
        forall|i: int| 0 <= i < self.records.len() ==> (#[trigger] self.records[i]).last_status.is_some()
    }

    /// The invariant of the loop's state, whatever the size of the counts:
    /// every endpoint has its one record, every record is balanced, and the
    /// status of every endpoint that was checked is known.
    pub open spec fn inv(self) -> bool {
        &&& distinct(self.records)
        &&& forall|i: int| 0 <= i < self.records.len() ==> (#[trigger] self.records[i]).balanced()
        &&& forall|j: int| 0 <= j < self.endpoints.len() ==> holds(self.records, #[trigger] self.endpoints[j])
        &&& forall|i: int|
            0 <= i < self.records.len() ==> self.endpoints.contains((#[trigger] self.records[i]).endpoint)
        &&& self.cursor <= self.endpoints.len()
        &&& self.pending.is_some() ==> self.awaiting()
        &&& self.phase == Phase::Steady ==> self.all_known()
        &&& self.phase == Phase::Startup ==> forall|j: int|
            0 <= j < self.cursor ==> self.records[position(
                self.records,
                #[trigger] self.endpoints[j],
            )].last_status.is_some()
    }

    /// The invariant of a state that a [`Monitor`] holds: that of the loop,
    /// with counts and sums that fit the counters.
    pub open spec fn wf(self) -> bool {
        &&& self.inv()
        &&& forall|i: int| 0 <= i < self.records.len() ==> (#[trigger] self.records[i]).consistent()
        &&& self.pending.is_some() ==> self.current_record().total_checks < 0xffff_ffff_ffff_ffff
    }
}

/// In every state that the loop reaches, a check is announced exactly when it
/// belongs to the startup pass or its status differs from the one recorded
/// last for the endpoint.
pub proof fn lemma_notify_on_startup_or_change(v: MonitorView, success: bool)
    requires
        v.inv(),
        v.awaiting(),
    ensures
        should_notify(v.phase, v.current_record().last_status, success) == (v.phase == Phase::Startup
            || v.current_record().last_status != Some(Status::of(success))),
{
    assert(holds(v.records, v.endpoints[v.cursor as int]));
    let p = position(v.records, v.current());
    assert(0 <= p < v.records.len());
    if v.phase == Phase::Steady {
        assert(v.records[p].last_status.is_some());
    }
}

/// Recording the pending check keeps the invariant and changes one record
/// only: that of the endpoint whose turn it is.
pub proof fn lemma_after_record(v: MonitorView, at: Timestamp)
    requires
        v.inv(),
        v.pending.is_some(),
    ensures
        v.after_record(at).inv(),
        v.after_record(at).records.len() == v.records.len(),
        0 <= position(v.records, v.current()) < v.records.len(),
        v.records[position(v.records, v.current())].endpoint == v.current(),
        v.after_record(at).records[position(v.records, v.current())] == v.current_record().observe(
            v.pending_observation(at),
            v.check_interval,
        ),
        forall|i: int|
            0 <= i < v.records.len() && i != position(v.records, v.current()) ==> #[trigger] v.after_record(
                at,
            ).records[i] == v.records[i],
{
    let after = v.after_record(at);
    let o = v.pending_observation(at);
    assert(holds(v.records, v.endpoints[v.cursor as int]));
    let i = position(v.records, v.current());
    lemma_observed_keeps_names(v.records, v.current(), o, v.check_interval);
    assert(after.records[i].last_status.is_some());
    assert(v.records[i].balanced());
    assert forall|k: int| 0 <= k < after.records.len() implies (#[trigger] after.records[k]).balanced() by {
        if k != i {
            assert(after.records[k] == v.records[k]);
            assert(v.records[k].balanced());
        }
    }
    assert forall|k: int| 0 <= k < after.records.len() implies (
    #[trigger] after.records[k]).last_status.is_some() || !v.records[k].last_status.is_some() by {
        if k != i {
            assert(after.records[k] == v.records[k]);
        }
    }
    assert forall|k: int| 0 <= k < after.records.len() implies after.endpoints.contains(
        (#[trigger] after.records[k]).endpoint,
    ) by {
        assert(after.records[k].endpoint == v.records[k].endpoint);
    }
    assert forall|j: int| 0 <= j < after.endpoints.len() implies holds(
        after.records,
        #[trigger] after.endpoints[j],
    ) by {
        assert(holds(v.records, v.endpoints[j]));
    }
    if after.phase == Phase::Startup {
        assert forall|j: int| 0 <= j < after.cursor implies after.records[position(
            after.records,
            #[trigger] after.endpoints[j],
        )].last_status.is_some() by {
            assert(holds(v.records, v.endpoints[j]));
            let p = position(v.records, v.endpoints[j]);
            assert(position(after.records, after.endpoints[j]) == p);
            assert(0 <= p < v.records.len());
            if j == v.cursor {
                assert(p == i);
            }
        }
    } else {
        assert forall|k: int| 0 <= k < after.records.len() implies (
        #[trigger] after.records[k]).last_status.is_some() by {
            assert(v.records[k].last_status.is_some());
        }
    }
}

/// The state of the monitoring loop: the endpoints in configured order, the
/// interval and timeout in seconds, the records, and the notifier.
#[derive(Debug)]
pub struct Monitor {
    endpoints: Vec<String>,
    check_interval: u64,
    timeout: u64,
    store: MetricsStore,
    notifier: Notifier,
    phase: Phase,
    cursor: usize,
    pending: Option<Check>,
}

impl View for Monitor {
    type V = MonitorView;

    closed spec fn view(&self) -> MonitorView {
        MonitorView {
            endpoints: views(self.endpoints@),
            check_interval: self.check_interval,
            timeout: self.timeout,
            records: self.store@,
            target: self.notifier.target(),
            phase: self.phase,
            cursor: self.cursor as nat,
            pending: self.pending,
        }
    }
}

impl Monitor {
    pub open spec fn wf(&self) -> bool {
        self@.wf()
    }

    /// A monitor for the endpoints, with the check interval and the request
    /// timeout in seconds and, if there is one, the webhook to notify.
    pub fn new(endpoints: Vec<String>, check_interval: u64, timeout: u64, webhook: Option<String>) -> (m:
        Monitor)
        ensures
            m.wf(),
            m@ == MonitorView::initial(
                views(endpoints@),
                check_interval,
                timeout,
                crate::clock::text_view(webhook),
            ),
    {
        let store = MetricsStore::new(&endpoints);
        let notifier = Notifier::from_target(webhook);
        proof {
            lemma_fresh_records(views(endpoints@));
        }
        Monitor {
            endpoints,
            check_interval,
            timeout,
            store,
            notifier,
            phase: Phase::Startup,
            cursor: 0,
            pending: None,
        }
    }

    /// What the loop does next: settle a check that was decided on, probe
    /// the endpoint whose turn it is, or wait for the interval once the pass
    /// is over.
    pub fn next_action(&self) -> (a: Action)
        requires
            self.wf(),
        ensures
            self@.pending.is_some() ==> a == Action::Settle,
            self@.pending.is_none() && self@.awaiting() ==> a.probes(self@.current()),
            self@.pending.is_none() && !self@.awaiting() ==> a.sleeps(self@.check_interval),
    {
        if self.pending.is_some() {
            Action::Settle
        } else if self.cursor < self.endpoints.len() {
            Action::Probe { endpoint: self.endpoints[self.cursor].clone() }
        } else {
            Action::Sleep { seconds: self.check_interval }
        }
    }

    /// Takes the result of the awaited probe, seen at `at`: decides on the
    /// notification from the status recorded before, and keeps the check for
    /// recording. No record changes. Without an awaited probe, or with the
    /// endpoint's counters full, nothing happens.
    pub fn on_probe_at(&mut self, success: bool, elapsed_micros: u64, at: Timestamp) -> (r: Option<Outcome>)
        requires
            old(self).wf(),
        ensures
            final(self).wf(),
            r.is_some() == old(self)@.can_count(),
            r.is_none() ==> final(self)@ == old(self)@,
            r matches Some(out) ==> final(self)@ == old(self)@.after_probe((Check { success, elapsed_micros }))
                && old(self)@.yields((Check { success, elapsed_micros }), at, out),
    {
        if self.pending.is_some() || self.cursor >= self.endpoints.len() {
            return None;
        }
        let endpoint = self.endpoints[self.cursor].clone();
        assert(endpoint@ == self@.endpoints[self.cursor as int]);
        let found = self.store.find(endpoint.as_str());
        let i = found.unwrap();
        let record = self.store.entry(i);
        if !record.can_record() {
            return None;
        }
        let status = Status::from_success(success);
        let notify = match self.phase {
            Phase::Startup => true,
            Phase::Steady => match record.last_status() {
                Some(last) => last != status,
                None => false,
            },
        };
        let delivery = if notify {
            self.notifier.prepare(endpoint.as_str(), !success, at, elapsed_micros)
        } else {
            None
        };
        self.pending = Some(Check { success, elapsed_micros });
        Some(Outcome { endpoint, phase: self.phase, status, notify, delivery })
    }

    /// Takes the result of the awaited probe, seen now. Where the clock
    /// gives no time, nothing happens, as without an awaited probe.
    pub fn on_probe(&mut self, success: bool, elapsed_micros: u64) -> (r: Option<Outcome>)
        requires
            old(self).wf(),
        ensures
            final(self).wf(),
            r.is_some() ==> old(self)@.can_count(),
            r.is_none() ==> final(self)@ == old(self)@,
            r matches Some(out) ==> final(self)@ == old(self)@.after_probe((Check { success, elapsed_micros }))
                && exists|at: Timestamp| #[trigger]
                old(self)@.yields((Check { success, elapsed_micros }), at, out),
    {
        match utc_now() {
            Some(at) => self.on_probe_at(success, elapsed_micros, at),
            None => None,
        }
    }

    /// Records the pending check as observed at `at` and passes the turn on.
    /// Without a pending check nothing happens.
    pub fn record_at(&mut self, at: Timestamp) -> (r: Option<Summary>)
        requires
            old(self).wf(),
        ensures
            final(self).wf(),
            r.is_some() == old(self)@.pending.is_some(),
            r.is_none() ==> final(self)@ == old(self)@,
            r matches Some(sum) ==> final(self)@ == old(self)@.after_record(at) && old(self)@.reports(at, sum),
    {
        let check = match self.pending {
            Some(check) => check,
            None => {
                return None;
            },
        };
        let endpoint = self.endpoints[self.cursor].clone();
        assert(endpoint@ == self@.endpoints[self.cursor as int]);
        let found = self.store.find(endpoint.as_str());
        let i = found.unwrap();
        let o = Observation { success: check.success, elapsed_micros: check.elapsed_micros, at };
        let ghost before = self@;
        proof {
            lemma_after_record(before, at);
        }
        self.store.record_at(endpoint.as_str(), o, self.check_interval);
        let rate = self.store.entry(i).success_rate();
        assert(self.cursor < self.endpoints.len());
        self.cursor = self.cursor + 1;
        self.pending = None;
        assert(self@ == before.after_record(at));
        Some(
            Summary {
                endpoint,
                phase: self.phase,
                status: Status::from_success(check.success),
                elapsed_micros: check.elapsed_micros,
                success_rate: rate.unwrap(),
            },
        )
    }

    /// Records the pending check as observed now. Where the clock gives no
    /// time, nothing happens, as without a pending check.
    pub fn record(&mut self) -> (r: Option<Summary>)
        requires
            old(self).wf(),
        ensures
            final(self).wf(),
            r.is_some() ==> old(self)@.pending.is_some(),
            r.is_none() ==> final(self)@ == old(self)@,
            r matches Some(sum) ==> exists|at: Timestamp|
                final(self)@ == old(self)@.after_record(at) && #[trigger] old(self)@.reports(at, sum),
    {
        match utc_now() {
            Some(at) => self.record_at(at),
            None => None,
        }
    }

    /// Takes the end of a wait: after a finished pass the next one begins.
    pub fn on_wake(&mut self)
        requires
            old(self).wf(),
        ensures
            final(self).wf(),
            final(self)@ == old(self)@.after_wake(),
    {
        if self.cursor >= self.endpoints.len() {
            assert(self@.pending.is_none());
            proof {
                let v = self@;
                if v.phase == Phase::Startup {
                    assert forall|i: int| 0 <= i < v.records.len() implies (
                    #[trigger] v.records[i]).last_status.is_some() by {
                        let name = v.records[i].endpoint;
                        assert(v.endpoints.contains(name));
                        let j = choose|j: int| 0 <= j < v.endpoints.len() && v.endpoints[j] == name;
                        lemma_position_unique(v.records, i);
                        assert(position(v.records, v.endpoints[j]) == i);
                    }
                }
            }
            self.phase = Phase::Steady;
            self.cursor = 0;
        }
    }

    pub fn endpoints(&self) -> (r: &Vec<String>)
        ensures
            views(r@) == self@.endpoints,
    {
        &self.endpoints
    }

    /// Seconds between two passes.
    pub fn check_interval(&self) -> (r: u64)
        ensures
            r == self@.check_interval,
    {
        self.check_interval
    }

    /// Seconds after which a request is given up.
    pub fn timeout(&self) -> (r: u64)
        ensures
            r == self@.timeout,
    {
        self.timeout
    }

    pub fn metrics(&self) -> (r: &MetricsStore)
        ensures
            r@ == self@.records,
    {
        &self.store
    }

    pub fn notifier(&self) -> (r: &Notifier)
        ensures
            r.target() == self@.target,
    {
        &self.notifier
    }

    pub fn phase(&self) -> (r: Phase)
        ensures
            r == self@.phase,
    {
        self.phase
    }

    /// The check that was decided on and is not recorded yet.
    pub fn pending(&self) -> (r: Option<Check>)
        ensures
            r == self@.pending,
    {
        self.pending
    }
}

} // verus!
