use digit_cache::key::{contains_key, is_valid_key};
use digit_cache::mock::{generate_random_number, mock_record};
use digit_cache::records::{format_record, load_mock_data, parse_record};
use digit_cache::store::{update_cache, Store};

fn owned(xs: &[&str]) -> Vec<String> {
    xs.iter().map(|x| x.to_string()).collect()
}

#[test]
fn validator_accepts_digit_strings_only() {
    assert!(is_valid_key("0"));
    assert!(is_valid_key("0123456789"));
    assert!(!is_valid_key(""));
    assert!(!is_valid_key("12a"));
    assert!(!is_valid_key("-1"));
    assert!(!is_valid_key("1 2"));
    assert!(!is_valid_key("\u{0663}"));
}

#[test]
fn contains_key_compares_contents() {
    let v = owned(&["1", "22"]);
    assert!(contains_key(&v, &"22".to_string()));
    assert!(!contains_key(&v, &"2".to_string()));
    assert!(!contains_key(&Vec::new(), &"1".to_string()));
}

#[test]
fn parse_splits_at_first_colon() {
    assert_eq!(parse_record("12:34"), Some(("12".to_string(), "34".to_string())));
    assert_eq!(parse_record("1:2:3"), None);
    assert_eq!(parse_record(":5"), None);
    assert_eq!(parse_record("12:"), None);
    assert_eq!(parse_record("1234"), None);
    assert_eq!(parse_record("a1:2"), None);
    assert_eq!(parse_record(""), None);
}

#[test]
fn format_then_parse_round_trips() {
    let line = format_record("3615581", "12345678901234");
    assert_eq!(line, "3615581:12345678901234");
    assert_eq!(
        parse_record(&line),
        Some(("3615581".to_string(), "12345678901234".to_string()))
    );
}

#[test]
fn bootstrap_round_trip() {
    let lines = owned(&["1:2", "bad line", "3:x", "1:5", "77:88"]);
    let store = load_mock_data(&lines);
    assert_eq!(store.size(), 2);
    assert_eq!(store.get("1"), Some("5".to_string()));
    assert_eq!(store.get("77"), Some("88".to_string()));
    assert_eq!(store.get("3"), None);
}

#[test]
fn update_cache_rejects_non_digits() {
    let mut store = Store::new();
    assert!(update_cache(&mut store, "5".to_string(), "6".to_string()));
    assert!(!update_cache(&mut store, "5".to_string(), "6.0".to_string()));
    assert_eq!(store.get("5"), Some("6".to_string()));
    assert_eq!(store.size(), 1);
}

#[test]
fn random_numbers_are_digit_strings() {
    for n in [0usize, 1, 14] {
        let r = generate_random_number(n);
        assert_eq!(r.len(), n);
        assert!(r.chars().all(|c| c.is_ascii_digit()));
    }
}

#[test]
fn mock_records_load() {
    for _ in 0..20 {
        let line = mock_record();
        let (k, v) = parse_record(&line).expect("well-formed");
        assert!((5..=11).contains(&k.len()));
        assert_eq!(v.len(), 14);
        let store = load_mock_data(&vec![line]);
        assert_eq!(store.get(&k), Some(v));
    }
}
