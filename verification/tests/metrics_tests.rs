use uptime_monitor::metrics::{Metrics, Observation, Status, Timestamp};
use uptime_monitor::store::MetricsStore;

fn at(secs: i64) -> Timestamp {
    Timestamp { secs, nanos: 0 }
}

fn seen(success: bool, elapsed_micros: u64, secs: i64) -> Observation {
    Observation { success, elapsed_micros, at: at(secs) }
}

#[test]
fn fresh_record_is_empty() {
    let m = Metrics::new(String::from("http://a"));
    assert_eq!(m.endpoint(), "http://a");
    assert_eq!(m.total_checks(), 0);
    assert_eq!(m.successful_checks(), 0);
    assert_eq!(m.failed_checks(), 0);
    assert_eq!(m.total_downtime(), 0);
    assert_eq!(m.last_check(), None);
    assert_eq!(m.last_status(), None);
    assert_eq!(m.response_micros(), 0);
    assert_eq!(m.average_response_time(), 0);
    assert_eq!(m.success_rate(), None);
    assert!(m.can_record());
}

#[test]
fn success_updates_average_and_leaves_downtime() {
    let mut m = Metrics::new(String::from("http://a"));
    m.record_at(seen(true, 200_000, 100), 60);
    assert_eq!(m.total_checks(), 1);
    assert_eq!(m.successful_checks(), 1);
    assert_eq!(m.failed_checks(), 0);
    assert_eq!(m.total_downtime(), 0);
    assert_eq!(m.last_check(), Some(at(100)));
    assert_eq!(m.last_status(), Some(Status::Up));
    assert_eq!(m.average_response_time(), 200_000);
    assert_eq!(m.success_rate(), Some(10000));
}

#[test]
fn failure_charges_one_interval() {
    let mut m = Metrics::new(String::from("http://a"));
    m.record_at(seen(false, 0, 100), 60);
    assert_eq!(m.total_checks(), 1);
    assert_eq!(m.successful_checks(), 0);
    assert_eq!(m.failed_checks(), 1);
    assert_eq!(m.total_downtime(), 60);
    assert_eq!(m.last_status(), Some(Status::Down));
    assert_eq!(m.average_response_time(), 0);
    assert_eq!(m.success_rate(), Some(0));
    m.record_at(seen(false, 0, 160), 60);
    assert_eq!(m.total_downtime(), 120);
    m.record_at(seen(true, 10, 220), 60);
    assert_eq!(m.total_downtime(), 120);
}

#[test]
fn counts_add_up_after_a_mixed_history() {
    let mut m = Metrics::new(String::from("http://a"));
    let history = [true, false, true, true, false, false, true];
    let mut n: u64 = 0;
    for &ok in history.iter() {
        m.record_at(seen(ok, if ok { 1_000 } else { 0 }, 0), 30);
        n += 1;
        assert_eq!(m.total_checks(), n);
        assert_eq!(m.total_checks(), m.successful_checks() + m.failed_checks());
    }
    assert_eq!(m.successful_checks(), 4);
    assert_eq!(m.failed_checks(), 3);
    assert_eq!(m.total_downtime(), 90);
}

#[test]
fn average_is_the_mean_of_the_successes() {
    let mut mixed = Metrics::new(String::from("http://a"));
    mixed.record_at(seen(true, 100_000, 1), 60);
    mixed.record_at(seen(false, 0, 2), 60);
    mixed.record_at(seen(true, 200_000, 3), 60);
    mixed.record_at(seen(false, 0, 4), 60);
    mixed.record_at(seen(true, 400_000, 5), 60);
    assert_eq!(mixed.response_micros(), 700_000);
    assert_eq!(mixed.average_response_time(), 233_333);

    let mut plain = Metrics::new(String::from("http://a"));
    plain.record_at(seen(true, 100_000, 1), 60);
    plain.record_at(seen(true, 200_000, 3), 60);
    plain.record_at(seen(true, 400_000, 5), 60);
    assert_eq!(plain.average_response_time(), mixed.average_response_time());
}

#[test]
fn average_does_not_overflow_on_large_times() {
    let mut m = Metrics::new(String::from("http://a"));
    m.record_at(seen(true, u64::MAX, 1), 60);
    m.record_at(seen(true, u64::MAX, 2), 60);
    m.record_at(seen(true, u64::MAX - 3, 3), 60);
    assert_eq!(m.average_response_time(), u64::MAX - 1);
    m.record_at(seen(false, 0, 4), u64::MAX);
    m.record_at(seen(false, 0, 5), u64::MAX);
    assert_eq!(m.total_downtime(), 2 * (u64::MAX as u128));
}

#[test]
fn success_rate_rounds_down() {
    let mut m = Metrics::new(String::from("http://a"));
    m.record_at(seen(true, 1, 1), 60);
    m.record_at(seen(false, 0, 2), 60);
    assert_eq!(m.success_rate(), Some(5000));
    m.record_at(seen(true, 1, 3), 60);
    assert_eq!(m.success_rate(), Some(6666));
}

#[test]
fn status_from_outcome_and_label() {
    assert_eq!(Status::from_success(true), Status::Up);
    assert_eq!(Status::from_success(false), Status::Down);
    assert_eq!(Status::Up.label(), "up");
    assert_eq!(Status::Down.label(), "down");
}

#[test]
fn store_keeps_one_record_per_endpoint_in_first_order() {
    let names = vec![String::from("http://a"), String::from("http://b"), String::from("http://a")];
    let store = MetricsStore::new(&names);
    assert_eq!(store.len(), 2);
    assert_eq!(store.entry(0).endpoint(), "http://a");
    assert_eq!(store.entry(1).endpoint(), "http://b");
    assert_eq!(store.find("http://b"), Some(1));
    assert_eq!(store.find("http://c"), None);
    assert!(store.get("http://c").is_none());
    assert_eq!(store.get("http://a").unwrap().total_checks(), 0);
}

#[test]
fn store_of_nothing_is_empty() {
    let store = MetricsStore::new(&Vec::new());
    assert_eq!(store.len(), 0);
    assert_eq!(store.find("http://a"), None);
}

#[test]
fn store_records_only_the_named_endpoint() {
    let names = vec![String::from("http://a"), String::from("http://b")];
    let mut store = MetricsStore::new(&names);
    store.record_at("http://b", seen(false, 0, 7), 45);
    let a = store.get("http://a").unwrap();
    assert_eq!(a.total_checks(), 0);
    assert_eq!(a.last_status(), None);
    let b = store.get("http://b").unwrap();
    assert_eq!(b.total_checks(), 1);
    assert_eq!(b.failed_checks(), 1);
    assert_eq!(b.total_downtime(), 45);
    assert_eq!(b.last_check(), Some(at(7)));
    assert_eq!(b.last_status(), Some(Status::Down));
}

#[test]
fn store_records_at_the_current_time() {
    let names = vec![String::from("http://a")];
    let mut store = MetricsStore::new(&names);
    assert!(store.record("http://a", true, 1_500, 60));
    let a = store.get("http://a").unwrap();
    assert_eq!(a.successful_checks(), 1);
    assert_eq!(a.average_response_time(), 1_500);
    let when = a.last_check().unwrap();
    assert!(when.secs > 1_600_000_000);
    assert!(when.nanos < 2_000_000_000);
}
