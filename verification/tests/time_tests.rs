use ephemeral_file_share::time::Timestamp;

#[test]
fn epoch_in_rfc3339() {
    let t = Timestamp::from_parts(0, 0).unwrap();
    assert_eq!(t.to_rfc3339(), "1970-01-01T00:00:00+00:00");
}

#[test]
fn instant_with_fraction_in_rfc3339() {
    let t = Timestamp::from_parts(1_714_564_800, 500_000_000).unwrap();
    assert_eq!(t.to_rfc3339(), "2024-05-01T12:00:00.500+00:00");
}

#[test]
fn calendar_bounds() {
    assert!(Timestamp::from_parts(8_210_266_876_799, 999_999_999).is_some());
    assert!(Timestamp::from_parts(8_210_266_876_800, 0).is_none());
    assert!(Timestamp::from_parts(-8_334_601_228_800, 0).is_some());
    assert!(Timestamp::from_parts(-8_334_601_228_801, 0).is_none());
    assert!(Timestamp::from_parts(0, 1_000_000_000).is_none());
    let last = Timestamp::from_parts(8_210_266_876_799, 0).unwrap();
    assert_eq!(last.to_rfc3339(), "+262142-12-31T23:59:59+00:00");
    let first = Timestamp::from_parts(-8_334_601_228_800, 0).unwrap();
    assert_eq!(first.to_rfc3339(), "-262143-01-01T00:00:00+00:00");
}

#[test]
fn adding_minutes() {
    let t = Timestamp::from_parts(100, 7).unwrap();
    let later = t.plus_minutes(2).unwrap();
    assert_eq!(later.secs(), 220);
    assert_eq!(later.nanos(), 7);
    assert!(later.is_after(&t));
    assert!(!t.is_after(&later));
    assert!(!t.is_after(&t));
    let last = Timestamp::from_parts(8_210_266_876_799, 0).unwrap();
    assert!(last.plus_minutes(1).is_none());
}

#[test]
fn nanoseconds_order_within_a_second() {
    let a = Timestamp::from_parts(5, 1).unwrap();
    let b = Timestamp::from_parts(5, 2).unwrap();
    assert!(b.is_after(&a));
    assert!(!a.is_after(&b));
}

#[test]
fn clock_reads_after_2020() {
    let now = Timestamp::now();
    assert!(now.secs() > 1_577_836_800);
    assert!(now.nanos() < 1_000_000_000);
}
