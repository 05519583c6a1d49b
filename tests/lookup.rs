use digit_cache::lookup::LookupResult;
use digit_cache::records::load_mock_data;
use digit_cache::service::CacheGrpcService;
use digit_cache::store::Store;

fn s(x: &str) -> String {
    x.to_string()
}

fn keys(xs: &[&str]) -> Vec<String> {
    xs.iter().map(|x| x.to_string()).collect()
}

fn pairs(xs: &[(&str, &str)]) -> Vec<(String, String)> {
    xs.iter().map(|(k, v)| (k.to_string(), v.to_string())).collect()
}

fn service_with(lines: &[&str]) -> CacheGrpcService {
    CacheGrpcService::new(load_mock_data(&keys(lines)))
}

fn check(r: &LookupResult, found: &[(&str, &str)], missing: &[&str]) {
    assert_eq!(r.found, pairs(found));
    assert_eq!(r.missing, keys(missing));
}

#[test]
fn concrete_scenario_from_store() {
    let mut svc = service_with(&["12345:99999999999111"]);
    let r = svc.lookup(&keys(&["12345", "999999", "abc123"]), Some(Vec::new()));
    check(&r, &[("12345", "99999999999111")], &["999999", "abc123"]);
}

#[test]
fn malformed_key_is_missing_and_not_fetched() {
    let mut svc = service_with(&["12345:1"]);
    for k in ["abc123", "12a", "", " 1", "\u{0661}"] {
        let batch = keys(&[k]);
        let fetch = svc.begin(&batch);
        assert!(fetch.is_empty());
        svc.complete(&fetch, Some(pairs(&[(k, "5")])));
        check(&svc.finish(&batch), &[], &[k]);
    }
    assert_eq!(svc.size(), 1);
}

#[test]
fn stored_key_is_found() {
    let mut svc = service_with(&["42:4242", "7:70"]);
    let batch = keys(&["42"]);
    assert!(svc.begin(&batch).is_empty());
    let r = svc.lookup(&batch, None);
    check(&r, &[("42", "4242")], &[]);
}

#[test]
fn put_twice_is_put_once() {
    let mut store = Store::new();
    store.put(s("10"), s("20"));
    store.put(s("10"), s("20"));
    assert_eq!(store.get("10"), Some(s("20")));
    assert_eq!(store.size(), 1);
    let mut svc = CacheGrpcService::new(store);
    check(&svc.lookup(&keys(&["10"]), None), &[("10", "20")], &[]);
}

#[test]
fn overlapping_lookups_fetch_once() {
    let mut svc = service_with(&[]);
    let first = keys(&["555", "1"]);
    let second = keys(&["555"]);
    let third = keys(&["2", "555"]);
    let f1 = svc.begin(&first);
    let f2 = svc.begin(&second);
    let f3 = svc.begin(&third);
    assert_eq!(f1, keys(&["555", "1"]));
    assert!(f2.is_empty());
    assert_eq!(f3, keys(&["2"]));
    assert!(svc.waiting_on(&second));
    svc.complete(&f1, Some(pairs(&[("555", "777")])));
    assert!(!svc.waiting_on(&second));
    assert!(svc.waiting_on(&third));
    svc.complete(&f3, None);
    check(&svc.finish(&first), &[("555", "777")], &["1"]);
    check(&svc.finish(&second), &[("555", "777")], &[]);
    check(&svc.finish(&third), &[("555", "777")], &["2"]);
    assert!(svc.begin(&second).is_empty());
}

#[test]
fn partial_resolution() {
    let mut svc = service_with(&["111:1"]);
    let r = svc.lookup(&keys(&["111", "222", "333", "x9"]), Some(pairs(&[("222", "2")])));
    check(&r, &[("111", "1"), ("222", "2")], &["333", "x9"]);
    assert_eq!(svc.size(), 2);
}

#[test]
fn upstream_failure_is_contained() {
    let mut svc = service_with(&["111:1"]);
    let r = svc.lookup(&keys(&["222", "111", "333"]), None);
    check(&r, &[("111", "1")], &["222", "333"]);
    assert_eq!(svc.size(), 1);
    let again = svc.begin(&keys(&["222"]));
    assert_eq!(again, keys(&["222"]));
}

#[test]
fn bad_upstream_values_are_not_written() {
    let mut svc = service_with(&[]);
    let reply = pairs(&[("1", "12x"), ("9", "9"), ("2", ""), ("3", "33"), ("3", "34")]);
    let r = svc.lookup(&keys(&["1", "2", "3"]), Some(reply));
    check(&r, &[("3", "34")], &["1", "2"]);
    assert_eq!(svc.size(), 1);
}

#[test]
fn repeated_keys_are_reported_once() {
    let mut svc = service_with(&["5:50"]);
    let r = svc.lookup(&keys(&["5", "6", "5", "6", "a", "a"]), Some(Vec::new()));
    check(&r, &[("5", "50")], &["6", "a"]);
}

#[test]
fn keys_resolved_elsewhere_stay_missing_while_in_flight() {
    let mut svc = service_with(&[]);
    let f = svc.begin(&keys(&["8"]));
    let r = svc.lookup(&keys(&["8"]), Some(pairs(&[("8", "88")])));
    check(&r, &[], &["8"]);
    svc.complete(&f, Some(pairs(&[("8", "80")])));
    check(&svc.finish(&keys(&["8"])), &[("8", "80")], &[]);
}

#[test]
fn update_checks_both_sides() {
    let mut svc = service_with(&[]);
    assert!(svc.update(s("12"), s("34")));
    assert!(!svc.update(s("12"), s("3a")));
    assert!(!svc.update(s("x"), s("1")));
    assert!(!svc.update(s(""), s("1")));
    check(&svc.finish(&keys(&["12", "x"])), &[("12", "34")], &["x"]);
}
