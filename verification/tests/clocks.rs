use contact_book::clock::Timestamp;

#[test]
fn timestamp_keeps_its_numbers() {
    let at = Timestamp::new(1431648000, 123456789).unwrap();
    assert_eq!(at.secs(), 1431648000);
    assert_eq!(at.nanos(), 123456789);
}

#[test]
fn timestamp_text_of_a_whole_second() {
    let at = Timestamp::new(1431648000, 0).unwrap();
    assert_eq!(at.text(), "2015-05-15 00:00:00 UTC");
}

#[test]
fn timestamp_text_with_nanoseconds() {
    let at = Timestamp::new(1705314600, 123456789).unwrap();
    assert_eq!(at.text(), "2024-01-15 10:30:00.123456789 UTC");
}

#[test]
fn timestamp_text_of_the_epoch_and_before() {
    assert_eq!(Timestamp::new(0, 0).unwrap().text(), "1970-01-01 00:00:00 UTC");
    assert_eq!(Timestamp::new(-1, 0).unwrap().text(), "1969-12-31 23:59:59 UTC");
}

#[test]
fn timestamp_refuses_what_is_no_instant() {
    assert_eq!(Timestamp::new(0, 2_000_000_000), None);
    assert_eq!(Timestamp::new(0, 1_000_000_000), None);
    assert_eq!(Timestamp::new(i64::MAX, 0), None);
    assert_eq!(Timestamp::new(i64::MIN, 0), None);
}

#[test]
fn timestamp_takes_a_leap_second() {
    let at = Timestamp::new(59, 1_500_000_000).unwrap();
    assert_eq!(at.secs(), 59);
    assert_eq!(at.nanos(), 1_500_000_000);
}

#[test]
fn timestamp_of_the_clock_can_be_shown_and_rebuilt() {
    let clock = chrono::Utc::now();
    let at = Timestamp::new(clock.timestamp(), clock.timestamp_subsec_nanos()).unwrap();
    assert!(at.secs() > 1_600_000_000);
    assert!(at.text().ends_with(" UTC"));
    assert_eq!(at.text(), clock.to_string());
    assert_eq!(Timestamp::new(at.secs(), at.nanos()), Some(at));
}

#[test]
fn timestamps_are_equal_by_their_numbers() {
    assert_eq!(Timestamp::new(5, 6), Timestamp::new(5, 6));
    assert_ne!(Timestamp::new(5, 6), Timestamp::new(5, 7));
    assert_ne!(Timestamp::new(5, 6), Timestamp::new(6, 6));
}
