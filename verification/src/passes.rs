//! What holds of the monitoring loop over whole passes: every endpoint is
//! checked once per pass, and its record is the replay of its own checks.

use crate::history::{
    failures, lemma_average_is_mean_of_successes, lemma_downtime_is_failures_times_interval,
    lemma_every_check_counted, mean_elapsed, successes,
};
use crate::metrics::{MetricsView, Observation};
use crate::monitor::{lemma_after_record, MonitorView, Phase};
use crate::probe::Check;
use crate::store::{
    fresh_records, holds, lemma_fresh_records, lemma_position_unique, lemma_same_names_same_position,
    lookup, position,
};
use vstd::prelude::*;

verus! {

/// The observations of the endpoint at place `j` over several passes, oldest
/// first.
pub open spec fn column(passes: Seq<Seq<Observation>>, j: int) -> Seq<Observation> {
    Seq::new(passes.len(), |n: int| passes[n][j])
}

/// Whether a channel is configured bears on the delivery alone: a check
/// leads to the same state, but for the channel, with or without one.
pub proof fn lemma_channel_leaves_checks_alone(v: MonitorView, target: Option<Seq<char>>, o: Observation)
    ensures
        (MonitorView { target, ..v }).after_check(o) == (MonitorView { target, ..v.after_check(o) }),
        (MonitorView { target, ..v }).after_wake() == (MonitorView { target, ..v.after_wake() }),
        (MonitorView { target, ..v }).inv() == v.inv(),
        (MonitorView { target, ..v }).wf() == v.wf(),
{
}

/// The checks of a pass so far have each added one check to the record of
/// their endpoint, and left the other records alone.
pub proof fn lemma_checks_so_far(v: MonitorView, checks: Seq<Observation>)
    requires
        v.inv(),
        v.at_start(),
        v.endpoints.no_duplicates(),
        checks.len() <= v.endpoints.len(),
    ensures
        v.after_checks(checks).inv(),
        v.after_checks(checks).cursor == checks.len(),
        v.after_checks(checks).pending.is_none(),
        v.after_checks(checks).phase == v.phase,
        v.after_checks(checks).endpoints == v.endpoints,
        v.after_checks(checks).check_interval == v.check_interval,
        v.after_checks(checks).records.len() == v.records.len(),
        forall|i: int|
            0 <= i < v.records.len() ==> (#[trigger] v.after_checks(checks).records[i]).endpoint
                == v.records[i].endpoint,
        forall|i: int|
            0 <= i < v.records.len() ==> (#[trigger] v.after_checks(checks).records[i]).total_checks
                == v.records[i].total_checks + v.added(checks.len() as int, i),
        forall|j: int|
            0 <= j < checks.len() ==> v.after_checks(checks).records[position(
                v.records,
                #[trigger] v.endpoints[j],
            )] == v.records[position(v.records, v.endpoints[j])].observe(checks[j], v.check_interval),
        forall|j: int|
            checks.len() <= j < v.endpoints.len() ==> v.after_checks(checks).records[position(
                v.records,
                #[trigger] v.endpoints[j],
            )] == v.records[position(v.records, v.endpoints[j])],
    decreases checks.len(),
{
    if checks.len() > 0 {
        let k = checks.len() - 1;
        let o = checks.last();
        lemma_checks_so_far(v, checks.drop_last());
        let u = v.after_checks(checks.drop_last());
        let w = v.after_checks(checks);
        assert(holds(u.records, u.endpoints[k]));
        let p = position(u.records, u.current());
        assert(0 <= p < u.records.len() && u.records[p].endpoint == v.endpoints[k]);
        assert(!v.checked(k, p)) by {
            if v.checked(k, p) {
                let j = choose|j: int| 0 <= j < k && #[trigger] v.endpoints[j] == v.records[p].endpoint;
                assert(v.endpoints[j] == v.endpoints[k]);
            }
        }
        assert(u.ready());
        let c = Check { success: o.success, elapsed_micros: o.elapsed_micros };
        let d = u.after_probe(c);
        assert(d.inv());
        lemma_after_record(d, o.at);
        assert(w == d.after_record(o.at));
        assert forall|i: int| 0 <= i < v.records.len() implies (#[trigger] w.records[i]).endpoint
            == v.records[i].endpoint by {
            assert(u.records[i].endpoint == v.records[i].endpoint);
        }
        assert(holds(v.records, v.endpoints[k]));
        lemma_same_names_same_position(v.records, u.records, v.endpoints[k]);
        assert(p == position(v.records, v.endpoints[k]));
        assert(d.pending_observation(o.at) == o);
        assert forall|j: int| 0 <= j < v.endpoints.len() implies w.records[position(
            v.records,
            #[trigger] v.endpoints[j],
        )] == (if j < checks.len() {
            v.records[position(v.records, v.endpoints[j])].observe(checks[j], v.check_interval)
        } else {
            v.records[position(v.records, v.endpoints[j])]
        }) by {
            assert(holds(v.records, v.endpoints[j]));
            let q = position(v.records, v.endpoints[j]);
            assert(0 <= q < v.records.len() && v.records[q].endpoint == v.endpoints[j]);
            if j == k {
                assert(u.records[q] == v.records[q]);
            } else {
                assert(v.endpoints[j] != v.endpoints[k]);
                assert(q != p);
                assert(w.records[q] == u.records[q]);
                if j < k {
                    assert(checks.drop_last()[j] == checks[j]);
                }
            }
        }
        assert forall|i: int| 0 <= i < v.records.len() implies (#[trigger] w.records[i]).total_checks
            == v.records[i].total_checks + v.added(checks.len() as int, i) by {
            assert(u.records[i].endpoint == v.records[i].endpoint);
            if i == p {
                assert(v.endpoints[k] == v.records[i].endpoint);
                assert(v.checked(k + 1, i));
            } else {
                assert(w.records[i] == u.records[i]);
                if v.checked(k + 1, i) {
                    let j = choose|j: int| 0 <= j < k + 1 && #[trigger] v.endpoints[j] == v.records[i].endpoint;
                    if j == k {
                        lemma_position_unique(u.records, i);
                    }
                    assert(v.checked(k, i));
                } else if v.checked(k, i) {
                    let j = choose|j: int| 0 <= j < k && #[trigger] v.endpoints[j] == v.records[i].endpoint;
                    assert(0 <= j < k + 1 && v.endpoints[j] == v.records[i].endpoint);
                }
            }
        }
    } else {
        assert forall|i: int| 0 <= i < v.records.len() implies !v.checked(0, i) by {}
    }
}

/// One pass over endpoints that are named once each adds exactly one check
/// to every record, and the next pass then starts in the steady phase.
pub proof fn lemma_pass_checks_each_endpoint_once(v: MonitorView, checks: Seq<Observation>)
    requires
        v.inv(),
        v.at_start(),
        v.endpoints.no_duplicates(),
        checks.len() == v.endpoints.len(),
    ensures
        v.after_pass(checks).inv(),
        v.after_pass(checks).at_start(),
        v.after_pass(checks).phase == Phase::Steady,
        v.after_pass(checks).endpoints == v.endpoints,
        v.after_pass(checks).check_interval == v.check_interval,
        v.after_pass(checks).records.len() == v.records.len(),
        forall|i: int|
            0 <= i < v.records.len() ==> (#[trigger] v.after_pass(checks).records[i]).endpoint
                == v.records[i].endpoint,
        forall|i: int|
            0 <= i < v.records.len() ==> (#[trigger] v.after_pass(checks).records[i]).total_checks
                == v.records[i].total_checks + 1,
        forall|j: int|
            0 <= j < v.endpoints.len() ==> v.after_pass(checks).records[position(
                v.records,
                #[trigger] v.endpoints[j],
            )] == v.records[position(v.records, v.endpoints[j])].observe(checks[j], v.check_interval),
{
    lemma_checks_so_far(v, checks);
    let u = v.after_checks(checks);
    let w = v.after_pass(checks);
    assert forall|i: int| 0 <= i < u.records.len() implies (#[trigger] u.records[i]).last_status.is_some() by {
        assert(v.endpoints.contains(v.records[i].endpoint));
        let j = choose|j: int| 0 <= j < v.endpoints.len() && v.endpoints[j] == v.records[i].endpoint;
        assert(v.checked(checks.len() as int, i));
        assert(u.records[i].total_checks >= 1);
        if u.phase == Phase::Startup {
            assert(u.endpoints[j] == u.records[i].endpoint);
            lemma_position_unique(u.records, i);
        }
    }
    assert forall|i: int| 0 <= i < v.records.len() implies (#[trigger] w.records[i]).total_checks
        == v.records[i].total_checks + 1 by {
        assert(v.endpoints.contains(v.records[i].endpoint));
        let j = choose|j: int| 0 <= j < v.endpoints.len() && v.endpoints[j] == v.records[i].endpoint;
        assert(v.checked(checks.len() as int, i));
        assert(w.records[i] == u.records[i]);
    }
}

/// Passes over endpoints that are named once each add one check apiece to
/// every record, whatever state they start from.
pub proof fn lemma_passes_add_one_check_each(v: MonitorView, n: nat, passes: Seq<Seq<Observation>>)
    requires
        v.inv(),
        v.at_start(),
        v.endpoints.no_duplicates(),
        v.counts(n),
        forall|k: int| 0 <= k < passes.len() ==> (#[trigger] passes[k]).len() == v.endpoints.len(),
    ensures
        v.after_passes(passes).inv(),
        v.after_passes(passes).at_start(),
        v.after_passes(passes).endpoints == v.endpoints,
        v.after_passes(passes).records.len() == v.records.len(),
        v.after_passes(passes).counts(n + passes.len()),
    decreases passes.len(),
{
    if passes.len() > 0 {
        lemma_passes_add_one_check_each(v, n, passes.drop_last());
        let u = v.after_passes(passes.drop_last());
        lemma_pass_checks_each_endpoint_once(u, passes.last());
        let w = v.after_passes(passes);
        assert(w == u.after_pass(passes.last()));
        assert forall|i: int| 0 <= i < w.records.len() implies (#[trigger] w.records[i]).total_checks == n
            + passes.len() && w.records[i].total_checks == w.records[i].successful_checks
            + w.records[i].failed_checks by {
            assert(u.records[i].total_checks == n + passes.len() - 1);
            assert(w.records[i].balanced());
        }
    }
}

/// The startup check counts as a check, for every endpoint alike: after the
/// startup pass and any number of steady passes over endpoints that are
/// named once each, every endpoint counts one check more than there were
/// steady passes, each as a success or as a failure.
pub proof fn lemma_startup_and_steady_passes(
    endpoints: Seq<Seq<char>>,
    check_interval: u64,
    timeout: u64,
    target: Option<Seq<char>>,
    startup: Seq<Observation>,
    steady: Seq<Seq<Observation>>,
    j: int,
)
    requires
        endpoints.no_duplicates(),
        startup.len() == endpoints.len(),
        forall|k: int| 0 <= k < steady.len() ==> (#[trigger] steady[k]).len() == endpoints.len(),
        0 <= j < endpoints.len(),
    ensures
        lookup(
            MonitorView::initial(endpoints, check_interval, timeout, target).after_pass(startup).after_passes(
                steady,
            ).records,
            endpoints[j],
        ).is_some(),
        lookup(
            MonitorView::initial(endpoints, check_interval, timeout, target).after_pass(startup).after_passes(
                steady,
            ).records,
            endpoints[j],
        ).unwrap().total_checks == steady.len() + 1,
        lookup(
            MonitorView::initial(endpoints, check_interval, timeout, target).after_pass(startup).after_passes(
                steady,
            ).records,
            endpoints[j],
        ).unwrap().balanced(),
{
    let start = MonitorView::initial(endpoints, check_interval, timeout, target);
    lemma_one_check_per_pass(endpoints, check_interval, timeout, target, Seq::empty());
    assert(start.after_passes(Seq::empty()) == start);
    lemma_pass_checks_each_endpoint_once(start, startup);
    let first = start.after_pass(startup);
    assert forall|i: int| 0 <= i < first.records.len() implies (#[trigger] first.records[i]).total_checks
        == 1 && first.records[i].total_checks == first.records[i].successful_checks
        + first.records[i].failed_checks by {
        assert(start.records[i].total_checks == 0);
        assert(first.records[i].balanced());
    }
    lemma_passes_add_one_check_each(first, 1, steady);
    let w = first.after_passes(steady);
    assert(holds(w.records, w.endpoints[j]));
    let p = position(w.records, endpoints[j]);
    assert(0 <= p < w.records.len());
    assert(w.records[p].total_checks == 1 + steady.len());
}

/// After any number of passes over endpoints that are named once each, the
/// startup pass counted as the first, every endpoint has been checked once
/// per pass, and each of its checks is counted as a success or as a failure.
pub proof fn lemma_one_check_per_pass(
    endpoints: Seq<Seq<char>>,
    check_interval: u64,
    timeout: u64,
    target: Option<Seq<char>>,
    passes: Seq<Seq<Observation>>,
)
    requires
        endpoints.no_duplicates(),
        forall|n: int| 0 <= n < passes.len() ==> (#[trigger] passes[n]).len() == endpoints.len(),
    ensures
        MonitorView::initial(endpoints, check_interval, timeout, target).after_passes(passes).inv(),
        MonitorView::initial(endpoints, check_interval, timeout, target).after_passes(passes).at_start(),
        MonitorView::initial(endpoints, check_interval, timeout, target).after_passes(passes).endpoints
            == endpoints,
        forall|j: int|
            0 <= j < endpoints.len() ==> holds(
                MonitorView::initial(endpoints, check_interval, timeout, target).after_passes(passes).records,
                #[trigger] endpoints[j],
            ),
        MonitorView::initial(endpoints, check_interval, timeout, target).after_passes(passes).counts(
            passes.len(),
        ),
    decreases passes.len(),
{
    let start = MonitorView::initial(endpoints, check_interval, timeout, target);
    lemma_fresh_records(endpoints);
    if passes.len() > 0 {
        lemma_one_check_per_pass(endpoints, check_interval, timeout, target, passes.drop_last());
        let v = start.after_passes(passes.drop_last());
        lemma_pass_checks_each_endpoint_once(v, passes.last());
        let w = start.after_passes(passes);
        assert(w == v.after_pass(passes.last()));
        assert forall|i: int| 0 <= i < w.records.len() implies (#[trigger] w.records[i]).total_checks
            == passes.len() && w.records[i].total_checks == w.records[i].successful_checks
            + w.records[i].failed_checks by {
            assert(v.records[i].total_checks == passes.len() - 1);
            assert(w.records[i].balanced());
        }
    } else {
        assert(start.inv()) by {
            assert forall|i: int| 0 <= i < start.records.len() implies (
            #[trigger] start.records[i]).balanced() by {
                assert(start.records[i] == MetricsView::fresh(start.records[i].endpoint));
            }
        }
        assert forall|i: int| 0 <= i < start.records.len() implies (#[trigger] start.records[i]).total_checks
            == 0 by {
            assert(start.records[i] == MetricsView::fresh(start.records[i].endpoint));
        }
    }
}

/// After any number of passes over endpoints that are named once each, the
/// record of every endpoint is what its own observations, replayed in order
/// on a fresh record, give: no other endpoint's checks bear on it.
pub proof fn lemma_record_is_replay_of_own_checks(
    endpoints: Seq<Seq<char>>,
    check_interval: u64,
    timeout: u64,
    target: Option<Seq<char>>,
    passes: Seq<Seq<Observation>>,
    j: int,
)
    requires
        endpoints.no_duplicates(),
        forall|n: int| 0 <= n < passes.len() ==> (#[trigger] passes[n]).len() == endpoints.len(),
        0 <= j < endpoints.len(),
    ensures
        lookup(
            MonitorView::initial(endpoints, check_interval, timeout, target).after_passes(passes).records,
            endpoints[j],
        ) == Some(MetricsView::fresh(endpoints[j]).replay(column(passes, j), check_interval)),
        forall|i: int|
            0 <= i < fresh_records(endpoints).len() ==> (#[trigger] MonitorView::initial(
                endpoints,
                check_interval,
                timeout,
                target,
            ).after_passes(passes).records[i]).endpoint == fresh_records(endpoints)[i].endpoint,
        MonitorView::initial(endpoints, check_interval, timeout, target).after_passes(passes).records.len()
            == fresh_records(endpoints).len(),
        MonitorView::initial(endpoints, check_interval, timeout, target).after_passes(passes).check_interval
            == check_interval,
    decreases passes.len(),
{
    let start = MonitorView::initial(endpoints, check_interval, timeout, target);
    lemma_fresh_records(endpoints);
    lemma_one_check_per_pass(endpoints, check_interval, timeout, target, passes);
    let w = start.after_passes(passes);
    assert(holds(start.records, endpoints[j]));
    let q = position(start.records, endpoints[j]);
    assert(0 <= q < start.records.len() && start.records[q].endpoint == endpoints[j]);
    if passes.len() > 0 {
        let earlier = passes.drop_last();
        lemma_record_is_replay_of_own_checks(endpoints, check_interval, timeout, target, earlier, j);
        lemma_one_check_per_pass(endpoints, check_interval, timeout, target, earlier);
        let v = start.after_passes(earlier);
        lemma_pass_checks_each_endpoint_once(v, passes.last());
        assert(w == v.after_pass(passes.last()));
        lemma_same_names_same_position(start.records, v.records, endpoints[j]);
        assert(v.endpoints[j] == endpoints[j]);
        assert(w.records[q] == v.records[q].observe(passes.last()[j], check_interval));
        assert forall|i: int| 0 <= i < start.records.len() implies (#[trigger] w.records[i]).endpoint
            == start.records[i].endpoint by {
            assert(v.records[i].endpoint == start.records[i].endpoint);
        }
        lemma_same_names_same_position(start.records, w.records, endpoints[j]);
        assert(column(passes, j).drop_last() =~= column(earlier, j));
        assert(column(passes, j).last() == passes.last()[j]);
    } else {
        assert(start.records[q] == MetricsView::fresh(start.records[q].endpoint));
        assert(column(passes, j) =~= Seq::empty());
    }
}

/// After any number of passes over endpoints that are named once each, the
/// average response time of an endpoint is the mean over its own successful
/// checks, and its downtime is one interval for each of its failed checks.
pub proof fn lemma_statistics_after_passes(
    endpoints: Seq<Seq<char>>,
    check_interval: u64,
    timeout: u64,
    target: Option<Seq<char>>,
    passes: Seq<Seq<Observation>>,
    j: int,
)
    requires
        endpoints.no_duplicates(),
        forall|n: int| 0 <= n < passes.len() ==> (#[trigger] passes[n]).len() == endpoints.len(),
        0 <= j < endpoints.len(),
    ensures
        lookup(
            MonitorView::initial(endpoints, check_interval, timeout, target).after_passes(passes).records,
            endpoints[j],
        ).is_some(),
        lookup(
            MonitorView::initial(endpoints, check_interval, timeout, target).after_passes(passes).records,
            endpoints[j],
        ).unwrap().average_response_micros() == mean_elapsed(successes(column(passes, j))),
        lookup(
            MonitorView::initial(endpoints, check_interval, timeout, target).after_passes(passes).records,
            endpoints[j],
        ).unwrap().total_downtime == failures(column(passes, j)) * check_interval,
        lookup(
            MonitorView::initial(endpoints, check_interval, timeout, target).after_passes(passes).records,
            endpoints[j],
        ).unwrap().successful_checks == successes(column(passes, j)).len(),
        lookup(
            MonitorView::initial(endpoints, check_interval, timeout, target).after_passes(passes).records,
            endpoints[j],
        ).unwrap().failed_checks == failures(column(passes, j)),
{
    lemma_record_is_replay_of_own_checks(endpoints, check_interval, timeout, target, passes, j);
    lemma_every_check_counted(endpoints[j], column(passes, j), check_interval);
    lemma_average_is_mean_of_successes(endpoints[j], column(passes, j), check_interval);
    lemma_downtime_is_failures_times_interval(endpoints[j], column(passes, j), check_interval);
}

} // verus!
