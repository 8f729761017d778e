use blog_pipeline::timestamp::Timestamp;

#[test]
fn rfc3339_text_is_read_into_seconds_and_offset() {
    let at = Timestamp::parse("2024-03-01T09:30:00+01:00").unwrap();
    assert_eq!(at.seconds, 1_709_281_800);
    assert_eq!(at.nanos, 0);
    assert_eq!(at.offset, 3600);
}

#[test]
fn text_that_is_no_timestamp_is_declined() {
    assert_eq!(Timestamp::parse("2024-03-01"), None);
    assert_eq!(Timestamp::parse("yesterday"), None);
    assert_eq!(Timestamp::parse(""), None);
}

#[test]
fn rfc2822_text_is_written_under_the_offset() {
    let at = Timestamp { seconds: 1_709_281_800, nanos: 0, offset: 3600 };
    assert_eq!(at.to_rfc2822().unwrap(), "Fri, 1 Mar 2024 09:30:00 +0100");
}

#[test]
fn years_of_more_than_four_digits_have_no_rfc2822_form() {
    let last = Timestamp { seconds: 253_402_300_799, nanos: 0, offset: 0 };
    assert_eq!(last.to_rfc2822().unwrap(), "Fri, 31 Dec 9999 23:59:59 +0000");
    let past = Timestamp { seconds: 253_402_300_799, nanos: 0, offset: 1 };
    assert_eq!(past.to_rfc2822(), None);
    let first = Timestamp { seconds: -62_167_219_200, nanos: 0, offset: 0 };
    assert_eq!(first.to_rfc2822().unwrap(), "Sat, 1 Jan 0000 00:00:00 +0000");
    let before = Timestamp { seconds: -62_167_219_201, nanos: 0, offset: 0 };
    assert_eq!(before.to_rfc2822(), None);
}

#[test]
fn an_offset_of_a_day_or_more_has_no_rfc2822_form() {
    let at = Timestamp { seconds: 0, nanos: 0, offset: 86_400 };
    assert_eq!(at.to_rfc2822(), None);
}

#[test]
fn later_instants_are_later_whatever_the_offset() {
    let a = Timestamp { seconds: 10, nanos: 5, offset: 0 };
    let b = Timestamp { seconds: 10, nanos: 4, offset: 7200 };
    let c = Timestamp { seconds: 9, nanos: 900, offset: 0 };
    assert!(a.later_than(&b));
    assert!(!b.later_than(&a));
    assert!(b.later_than(&c));
    assert!(!a.later_than(&a));
}
