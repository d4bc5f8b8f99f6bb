use job_queue::models::{priority_weight, JobPriority};
use job_queue::text::{push_decimal, same_text, second_field_of, starts_with};
use job_queue::time::Timestamp;

fn decimal(n: u64) -> String {
    let mut out = String::new();
    push_decimal(&mut out, n);
    out
}

#[test]
fn decimal_numerals() {
    assert_eq!(decimal(0), "0");
    assert_eq!(decimal(7), "7");
    assert_eq!(decimal(10), "10");
    assert_eq!(decimal(109), "109");
    assert_eq!(decimal(1234567890), "1234567890");
    assert_eq!(decimal(u64::MAX), "18446744073709551615");
    let mut out = "n=".to_string();
    push_decimal(&mut out, 42);
    assert_eq!(out, "n=42");
}

#[test]
fn prefixes() {
    assert!(starts_with("send_email:x", "send_email:"));
    assert!(starts_with("abc", ""));
    assert!(starts_with("", ""));
    assert!(starts_with("abc", "abc"));
    assert!(!starts_with("ab", "abc"));
    assert!(!starts_with("abd", "abc"));
    assert!(!starts_with("", "a"));
    assert!(starts_with("épée", "ép"));
    assert!(!starts_with("epée", "ép"));
}

#[test]
fn equal_texts() {
    assert!(same_text("fail", "fail"));
    assert!(same_text("", ""));
    assert!(!same_text("fail", "fai"));
    assert!(!same_text("fai", "fail"));
    assert!(!same_text("fail", "fall"));
}

#[test]
fn second_fields() {
    assert_eq!(second_field_of("a:b:c"), Some("b"));
    assert_eq!(second_field_of("a:b"), Some("b"));
    assert_eq!(second_field_of("a:"), Some(""));
    assert_eq!(second_field_of(":"), Some(""));
    assert_eq!(second_field_of("::"), Some(""));
    assert_eq!(second_field_of(":b"), Some("b"));
    assert_eq!(second_field_of("a::c"), Some(""));
    assert_eq!(second_field_of("abc"), None);
    assert_eq!(second_field_of(""), None);
    assert_eq!(second_field_of("ä:öü:ß"), Some("öü"));
}

#[test]
fn timestamps_compare_by_seconds_then_nanoseconds() {
    let t = Timestamp::new(10, 5);
    assert_eq!(t, Timestamp { secs: 10, nanos: 5 });
    assert!(t.is_before(&Timestamp::new(11, 0)));
    assert!(t.is_before(&Timestamp::new(10, 6)));
    assert!(!t.is_before(&t));
    assert!(!t.is_before(&Timestamp::new(10, 4)));
    assert!(!t.is_before(&Timestamp::new(9, 999_999_999)));
    assert!(Timestamp::new(-1, 0).is_before(&Timestamp::new(0, 0)));
}

#[test]
fn seconds_are_added_within_range() {
    let t = Timestamp::new(10, 5);
    assert_eq!(t.add_seconds(0), t);
    assert_eq!(t.add_seconds(90), Timestamp::new(100, 5));
    assert_eq!(t.add_seconds(-90), Timestamp::new(-80, 5));
    assert_eq!(t.add_seconds(i64::MAX), Timestamp::new(i64::MAX, 5));
    assert_eq!(t.add_seconds(i64::MAX - 10), Timestamp::new(i64::MAX, 5));
    assert_eq!(t.add_seconds(i64::MAX - 11), Timestamp::new(i64::MAX - 1, 5));
    assert_eq!(Timestamp::new(-10, 5).add_seconds(i64::MIN), Timestamp::new(i64::MIN, 5));
    assert_eq!(Timestamp::new(-1, 0).add_seconds(i64::MIN + 1), Timestamp::new(i64::MIN, 0));
    assert_eq!(Timestamp::new(0, 0).add_seconds(i64::MIN), Timestamp::new(i64::MIN, 0));
}

#[test]
fn priorities_weigh_low_to_high() {
    assert_eq!(JobPriority::Low.weight(), 0);
    assert_eq!(JobPriority::Medium.weight(), 1);
    assert_eq!(JobPriority::High.weight(), 2);
    assert_eq!(priority_weight(&None), 1);
    assert_eq!(priority_weight(&Some(JobPriority::High)), 2);
    assert!(JobPriority::Low < JobPriority::Medium && JobPriority::Medium < JobPriority::High);
}

#[test]
fn prefixes_and_fields_agree_with_the_standard_library() {
    let samples = [
        "",
        ":",
        "::",
        "a",
        "a:b",
        "a:b:c",
        "fail",
        "send_email:x@y.z",
        "send_email",
        "generate_report_for_user:17:rest",
        "naïve:façade:café",
        ":leading",
        "trailing:",
    ];
    for s in samples {
        assert_eq!(second_field_of(s), s.split(':').nth(1), "second field of {:?}", s);
        for p in samples {
            assert_eq!(starts_with(s, p), s.starts_with(p), "{:?} starts with {:?}", s, p);
            assert_eq!(same_text(s, p), s == p, "{:?} equals {:?}", s, p);
        }
    }
}

#[test]
fn timestamps_agree_with_the_calendar() {
    let points = [
        (0_i64, 0_u32),
        (1, 999_999_999),
        (-1, 0),
        (-1, 1),
        (1_700_000_000, 123_456_789),
        (1_700_000_000, 123_456_790),
        (1_700_000_001, 0),
        (4_102_444_800, 5),
    ];
    for (secs, nanos) in points {
        let date = chrono::DateTime::from_timestamp(secs, nanos).unwrap();
        let stamp = Timestamp::new(secs, nanos);
        for ttl in [0_i64, 1, -1, 59, 3_600, -86_400, 31_536_000, -1_700_000_000, 1_000_000_000_000] {
            let later = date + chrono::Duration::seconds(ttl);
            assert_eq!(
                stamp.add_seconds(ttl),
                Timestamp::new(later.timestamp(), later.timestamp_subsec_nanos())
            );
        }
        for (other_secs, other_nanos) in points {
            let other_date = chrono::DateTime::from_timestamp(other_secs, other_nanos).unwrap();
            assert_eq!(
                stamp.is_before(&Timestamp::new(other_secs, other_nanos)),
                date < other_date
            );
        }
    }
}
