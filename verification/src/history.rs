//! What holds of a record after any history of observations.

use crate::metrics::{MetricsView, Observation};
use vstd::prelude::*;

verus! {

/// The successful observations of a history, in order.
pub open spec fn successes(history: Seq<Observation>) -> Seq<Observation>
    decreases history.len(),
{
    if history.len() == 0 {
        Seq::empty()
    } else if history.last().success {
        successes(history.drop_last()).push(history.last())
    } else {
        successes(history.drop_last())
    }
}

/// The number of failed observations in a history.
pub open spec fn failures(history: Seq<Observation>) -> nat
    decreases history.len(),
{
    if history.len() == 0 {
        0
    } else if history.last().success {
        failures(history.drop_last())
    } else {
        failures(history.drop_last()) + 1
    }
}

/// The sum of the response times of a history, in microseconds.
pub open spec fn total_elapsed(history: Seq<Observation>) -> nat
    decreases history.len(),
{
    if history.len() == 0 {
        0
    } else {
        total_elapsed(history.drop_last()) + history.last().elapsed_micros as nat
    }
}

/// The arithmetic mean of the response times of a history in whole
/// microseconds, rounded down; zero for an empty history.
pub open spec fn mean_elapsed(history: Seq<Observation>) -> nat {
    if history.len() == 0 {
        0
    } else {
        total_elapsed(history) / history.len()
    }
}

/// A record that starts fresh counts every observation once, the first one
/// included: the total is the length of the history, and it is the sum of
/// the successes and the failures.
pub proof fn lemma_every_check_counted(endpoint: Seq<char>, history: Seq<Observation>, interval: u64)
    ensures
        MetricsView::fresh(endpoint).replay(history, interval).total_checks == history.len(),
        MetricsView::fresh(endpoint).replay(history, interval).successful_checks == successes(
            history,
        ).len(),
        MetricsView::fresh(endpoint).replay(history, interval).failed_checks == failures(history),
        MetricsView::fresh(endpoint).replay(history, interval).total_checks == MetricsView::fresh(
            endpoint,
        ).replay(history, interval).successful_checks + MetricsView::fresh(endpoint).replay(
            history,
            interval,
        ).failed_checks,
        MetricsView::fresh(endpoint).replay(history, interval).endpoint == endpoint,
    decreases history.len(),
{
    if history.len() > 0 {
        lemma_every_check_counted(endpoint, history.drop_last(), interval);
    }
}

/// One observation leaves the counts balanced: the total stays the sum of
/// the successes and the failures.
pub proof fn lemma_observe_keeps_balance(m: MetricsView, o: Observation, interval: u64)
    requires
        m.total_checks == m.successful_checks + m.failed_checks,
    ensures
        m.observe(o, interval).total_checks == m.observe(o, interval).successful_checks + m.observe(
            o,
            interval,
        ).failed_checks,
        m.observe(o, interval).total_checks == m.total_checks + 1,
{
}

/// The average response time of a record that starts fresh is the
/// arithmetic mean of the response times of the successful observations.
pub proof fn lemma_average_is_mean_of_successes(
    endpoint: Seq<char>,
    history: Seq<Observation>,
    interval: u64,
)
    ensures
        MetricsView::fresh(endpoint).replay(history, interval).response_micros == total_elapsed(
            successes(history),
        ),
        MetricsView::fresh(endpoint).replay(history, interval).average_response_micros()
            == mean_elapsed(successes(history)),
    decreases history.len(),
{
    lemma_every_check_counted(endpoint, history, interval);
    if history.len() > 0 {
        lemma_average_is_mean_of_successes(endpoint, history.drop_last(), interval);
        if history.last().success {
            let s = successes(history);
            assert(s.drop_last() =~= successes(history.drop_last()));
        }
    }
}

/// Failed observations do not move the average: a history and its
/// successful observations alone give the same average response time,
/// wherever the failures stood among them.
pub proof fn lemma_average_ignores_failures(endpoint: Seq<char>, history: Seq<Observation>, interval: u64)
    ensures
        MetricsView::fresh(endpoint).replay(history, interval).average_response_micros()
            == MetricsView::fresh(endpoint).replay(successes(history), interval).average_response_micros(),
{
    lemma_average_is_mean_of_successes(endpoint, history, interval);
    lemma_average_is_mean_of_successes(endpoint, successes(history), interval);
    lemma_successes_of_successes(history);
}

/// Taking the successful observations twice is taking them once.
pub proof fn lemma_successes_of_successes(history: Seq<Observation>)
    ensures
        successes(successes(history)) == successes(history),
    decreases history.len(),
{
    if history.len() > 0 {
        lemma_successes_of_successes(history.drop_last());
        if history.last().success {
            let s = successes(history);
            assert(s.drop_last() =~= successes(history.drop_last()));
        }
    }
}

/// One observation charges exactly one interval of downtime if it failed,
/// and none if it succeeded.
pub proof fn lemma_downtime_step(m: MetricsView, o: Observation, interval: u64)
    ensures
        !o.success ==> m.observe(o, interval).total_downtime == m.total_downtime + interval,
        o.success ==> m.observe(o, interval).total_downtime == m.total_downtime,
{
}

/// The downtime of a record that starts fresh is one interval for every
/// failed observation.
pub proof fn lemma_downtime_is_failures_times_interval(
    endpoint: Seq<char>,
    history: Seq<Observation>,
    interval: u64,
)
    ensures
        MetricsView::fresh(endpoint).replay(history, interval).total_downtime == failures(history)
            * interval,
    decreases history.len(),
{
    if history.len() > 0 {
        lemma_downtime_is_failures_times_interval(endpoint, history.drop_last(), interval);
        let f = failures(history.drop_last());
        assert((f + 1) * interval == f * interval + interval) by (nonlinear_arith);
    } else {
        assert(failures(history) * interval == 0) by (nonlinear_arith)
            requires
                failures(history) == 0,
        ;
    }
}

} // verus!
