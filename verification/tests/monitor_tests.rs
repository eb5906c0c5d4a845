use uptime_monitor::metrics::{Status, Timestamp};
use uptime_monitor::monitor::{Action, Monitor, Outcome, Phase, Summary};
use uptime_monitor::probe::{judge, Check, ProbeReply};

fn at(secs: i64) -> Timestamp {
    Timestamp { secs, nanos: 0 }
}

fn single(webhook: Option<String>) -> Monitor {
    Monitor::new(vec![String::from("http://a")], 60, 10, webhook)
}

fn probe_target(m: &Monitor) -> String {
    match m.next_action() {
        Action::Probe { endpoint } => endpoint,
        other => panic!("a probe was expected, not {:?}", other),
    }
}

fn sleep_seconds(m: &Monitor) -> u64 {
    match m.next_action() {
        Action::Sleep { seconds } => seconds,
        other => panic!("a wait was expected, not {:?}", other),
    }
}

fn one_check(m: &mut Monitor, success: bool, elapsed: u64, secs: i64) -> (Outcome, Summary) {
    assert_eq!(probe_target(m), "http://a");
    let out = m.on_probe_at(success, elapsed, at(secs)).unwrap();
    assert!(matches!(m.next_action(), Action::Settle));
    let sum = m.record_at(at(secs + 1)).unwrap();
    assert_eq!(sleep_seconds(m), 60);
    m.on_wake();
    (out, sum)
}

#[test]
fn new_monitor_starts_with_fresh_records() {
    let m = Monitor::new(vec![String::from("http://a"), String::from("http://b")], 30, 5, None);
    assert_eq!(m.endpoints().len(), 2);
    assert_eq!(m.check_interval(), 30);
    assert_eq!(m.timeout(), 5);
    assert_eq!(m.phase(), Phase::Startup);
    assert_eq!(m.pending(), None);
    assert!(!m.notifier().is_configured());
    assert_eq!(m.metrics().len(), 2);
    assert_eq!(m.metrics().get("http://b").unwrap().total_checks(), 0);
    assert_eq!(probe_target(&m), "http://a");
}

#[test]
fn up_down_up_notifies_on_the_edges() {
    let mut m = single(Some(String::from("http://hook")));
    let results = [true, true, true, false, false, true];
    let announced = [true, false, false, true, false, true];
    for k in 0..6 {
        let (out, sum) = one_check(&mut m, results[k], if results[k] { 100_000 } else { 0 }, 1_431_648_000);
        assert_eq!(out.notify, announced[k]);
        assert_eq!(out.delivery.is_some(), announced[k]);
        assert_eq!(out.status, Status::from_success(results[k]));
        assert_eq!(sum.status, out.status);
        assert_eq!(out.phase, if k == 0 { Phase::Startup } else { Phase::Steady });
        if k == 3 {
            assert_eq!(out.delivery.unwrap().text, "http://a is DOWN! (Time: 2015-05-15 00:00:00 UTC)");
        } else if k == 5 {
            assert_eq!(
                out.delivery.unwrap().text,
                "http://a is back UP! (Time: 2015-05-15 00:00:00 UTC, Response Time: 0.10s)"
            );
            assert_eq!(sum.success_rate, 6666);
        }
    }
    let a = m.metrics().get("http://a").unwrap();
    assert_eq!(a.successful_checks(), 4);
    assert_eq!(a.failed_checks(), 2);
    assert_eq!(a.total_checks(), 6);
    assert_eq!(a.total_downtime(), 120);
    assert_eq!(a.average_response_time(), 100_000);
    assert_eq!(a.last_status(), Some(Status::Up));
    assert_eq!(a.last_check(), Some(at(1_431_648_001)));
}

#[test]
fn startup_check_is_announced_whatever_it_finds() {
    let mut down = single(Some(String::from("http://hook")));
    let out = down.on_probe_at(false, 0, at(0)).unwrap();
    assert!(out.notify);
    assert_eq!(out.delivery.unwrap().text, "http://a is DOWN! (Time: 1970-01-01 00:00:00 UTC)");

    let mut up = single(Some(String::from("http://hook")));
    let out = up.on_probe_at(true, 20_000, at(0)).unwrap();
    assert!(out.notify);
    let d = out.delivery.unwrap();
    assert_eq!(d.url, "http://hook");
    assert_eq!(d.text, "http://a is back UP! (Time: 1970-01-01 00:00:00 UTC, Response Time: 0.02s)");
}

#[test]
fn decision_reads_the_status_before_it_is_written() {
    let mut m = single(None);
    one_check(&mut m, true, 1_000, 1);
    let out = m.on_probe_at(false, 0, at(5)).unwrap();
    assert!(out.notify);
    assert_eq!(m.pending(), Some(Check { success: false, elapsed_micros: 0 }));
    let a = m.metrics().get("http://a").unwrap();
    assert_eq!(a.total_checks(), 1);
    assert_eq!(a.last_status(), Some(Status::Up));
    assert_eq!(a.last_check(), Some(at(2)));
    let sum = m.record_at(at(6)).unwrap();
    assert_eq!(sum.endpoint, "http://a");
    assert_eq!(sum.elapsed_micros, 0);
    assert_eq!(sum.success_rate, 5000);
    assert_eq!(m.pending(), None);
    let a = m.metrics().get("http://a").unwrap();
    assert_eq!(a.total_checks(), 2);
    assert_eq!(a.last_status(), Some(Status::Down));
    assert_eq!(a.last_check(), Some(at(6)));
}

#[test]
fn unconfigured_notifier_changes_only_the_delivery() {
    let mut with = single(Some(String::from("http://hook")));
    let mut without = single(None);
    let results = [true, false, false, true, true, false];
    for k in 0..6 {
        let elapsed = if results[k] { 40_000 + k as u64 } else { 0 };
        let (a, sa) = one_check(&mut with, results[k], elapsed, 10 * k as i64);
        let (b, sb) = one_check(&mut without, results[k], elapsed, 10 * k as i64);
        assert_eq!(a.notify, b.notify);
        assert_eq!(a.status, b.status);
        assert_eq!(sa.success_rate, sb.success_rate);
        assert_eq!(a.delivery.is_some(), a.notify);
        assert!(b.delivery.is_none());
        let ra = with.metrics().get("http://a").unwrap();
        let rb = without.metrics().get("http://a").unwrap();
        assert_eq!(ra.total_checks(), rb.total_checks());
        assert_eq!(ra.successful_checks(), rb.successful_checks());
        assert_eq!(ra.failed_checks(), rb.failed_checks());
        assert_eq!(ra.total_downtime(), rb.total_downtime());
        assert_eq!(ra.last_check(), rb.last_check());
        assert_eq!(ra.last_status(), rb.last_status());
        assert_eq!(ra.response_micros(), rb.response_micros());
    }
}

#[test]
fn timed_out_probe_counts_as_a_failure() {
    let mut m = single(None);
    one_check(&mut m, true, 300_000, 1);
    let check = judge(ProbeReply::Failed);
    assert_eq!(check, Check { success: false, elapsed_micros: 0 });
    let (out, sum) = one_check(&mut m, check.success, check.elapsed_micros, 2);
    assert_eq!(out.status, Status::Down);
    assert!(out.notify);
    assert_eq!(sum.success_rate, 5000);
    assert_eq!(sum.elapsed_micros, 0);
    let a = m.metrics().get("http://a").unwrap();
    assert_eq!(a.total_checks(), 2);
    assert_eq!(a.failed_checks(), 1);
    assert_eq!(a.total_downtime(), 60);
    assert_eq!(a.average_response_time(), 300_000);
    assert_eq!(a.last_check(), Some(at(3)));
    assert_eq!(a.last_status(), Some(Status::Down));
}

#[test]
fn replies_fold_into_checks() {
    assert_eq!(
        judge(ProbeReply::Response { status: 200, elapsed_micros: 1_500 }),
        Check { success: true, elapsed_micros: 1_500 }
    );
    assert_eq!(
        judge(ProbeReply::Response { status: 299, elapsed_micros: 7 }),
        Check { success: true, elapsed_micros: 7 }
    );
    assert_eq!(
        judge(ProbeReply::Response { status: 199, elapsed_micros: 7 }),
        Check { success: false, elapsed_micros: 7 }
    );
    assert_eq!(
        judge(ProbeReply::Response { status: 300, elapsed_micros: 7 }),
        Check { success: false, elapsed_micros: 7 }
    );
    assert_eq!(
        judge(ProbeReply::Response { status: 503, elapsed_micros: 90_000 }),
        Check { success: false, elapsed_micros: 90_000 }
    );
    assert_eq!(judge(ProbeReply::Failed), Check { success: false, elapsed_micros: 0 });
}

#[test]
fn endpoints_are_probed_in_configured_order() {
    let names = vec![String::from("http://a"), String::from("http://b"), String::from("http://c")];
    let mut m = Monitor::new(names, 15, 10, None);
    for pass in 0..3 {
        for name in ["http://a", "http://b", "http://c"] {
            assert_eq!(probe_target(&m), name);
            let out = m.on_probe_at(true, 1_000, at(pass)).unwrap();
            assert_eq!(out.endpoint, name);
            assert_eq!(out.phase, if pass == 0 { Phase::Startup } else { Phase::Steady });
            assert_eq!(m.record_at(at(pass)).unwrap().endpoint, name);
        }
        assert_eq!(sleep_seconds(&m), 15);
        m.on_wake();
    }
    for name in ["http://a", "http://b", "http://c"] {
        let r = m.metrics().get(name).unwrap();
        assert_eq!(r.total_checks(), 3);
        assert_eq!(r.total_checks(), r.successful_checks() + r.failed_checks());
    }
}

#[test]
fn result_without_an_awaited_probe_is_ignored() {
    let mut m = single(None);
    assert!(m.record_at(at(0)).is_none());
    assert!(m.on_probe_at(true, 1, at(1)).is_some());
    assert!(m.on_probe_at(false, 0, at(2)).is_none());
    assert_eq!(m.pending(), Some(Check { success: true, elapsed_micros: 1 }));
    assert!(m.record_at(at(2)).is_some());
    assert!(m.record_at(at(3)).is_none());
    assert!(m.on_probe_at(true, 1, at(3)).is_none());
    assert_eq!(m.metrics().get("http://a").unwrap().total_checks(), 1);
    assert_eq!(m.phase(), Phase::Startup);
    assert_eq!(sleep_seconds(&m), 60);
}

#[test]
fn wake_in_the_middle_of_a_pass_changes_nothing() {
    let mut m = Monitor::new(vec![String::from("http://a"), String::from("http://b")], 60, 10, None);
    m.on_probe_at(true, 1, at(1)).unwrap();
    m.on_wake();
    assert!(matches!(m.next_action(), Action::Settle));
    m.record_at(at(1)).unwrap();
    m.on_wake();
    assert_eq!(m.phase(), Phase::Startup);
    assert_eq!(probe_target(&m), "http://b");
}

#[test]
fn monitor_without_endpoints_only_waits() {
    let mut m = Monitor::new(Vec::new(), 60, 10, None);
    assert_eq!(sleep_seconds(&m), 60);
    assert!(m.on_probe_at(true, 1, at(1)).is_none());
    m.on_wake();
    assert_eq!(m.phase(), Phase::Steady);
    assert_eq!(sleep_seconds(&m), 60);
}

#[test]
fn endpoint_named_twice_shares_one_record() {
    let mut m = Monitor::new(vec![String::from("http://a"), String::from("http://a")], 60, 10, None);
    assert_eq!(m.metrics().len(), 1);
    assert!(m.on_probe_at(true, 1_000, at(1)).unwrap().notify);
    m.record_at(at(1)).unwrap();
    assert!(m.on_probe_at(false, 0, at(2)).unwrap().notify);
    m.record_at(at(2)).unwrap();
    let a = m.metrics().get("http://a").unwrap();
    assert_eq!(a.total_checks(), 2);
    assert_eq!(a.last_status(), Some(Status::Down));
    m.on_wake();
    assert!(m.on_probe_at(true, 1_000, at(3)).unwrap().notify);
    m.record_at(at(3)).unwrap();
    assert!(!m.on_probe_at(true, 1_000, at(4)).unwrap().notify);
}

#[test]
fn probe_seen_now_is_announced_and_recorded() {
    let mut m = single(Some(String::from("http://hook")));
    let out = m.on_probe(false, 0).unwrap();
    assert!(out.notify);
    let text = out.delivery.unwrap().text;
    assert!(text.starts_with("http://a is DOWN! (Time: 20"));
    assert!(text.ends_with(" UTC)"));
    let sum = m.record().unwrap();
    assert_eq!(sum.status, Status::Down);
    assert_eq!(sum.success_rate, 0);
    let a = m.metrics().get("http://a").unwrap();
    assert_eq!(a.failed_checks(), 1);
    assert_eq!(a.total_downtime(), 60);
    assert!(a.last_check().unwrap().secs > 1_600_000_000);
}
