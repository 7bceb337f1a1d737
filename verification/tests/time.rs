use calebhamilton_org::time::Timestamp;

#[test]
fn timestamp_in_and_out_of_range() {
    let t = Timestamp::from_seconds(1679084830).unwrap();
    assert_eq!(t.seconds(), 1679084830);
    assert!(Timestamp::from_seconds(0).is_some());
    assert!(Timestamp::from_seconds(-62167219200).is_some());
    assert!(Timestamp::from_seconds(253402300799).is_some());
    assert!(Timestamp::from_seconds(i64::MAX).is_none());
    assert!(Timestamp::from_seconds(i64::MIN).is_none());
}

#[test]
fn calendar_dates() {
    assert_eq!(Timestamp::from_seconds(1679084830).unwrap().calendar_date(), "Mar 17, 2023");
    assert_eq!(Timestamp::from_seconds(0).unwrap().calendar_date(), "Jan  1, 1970");
    assert_eq!(Timestamp::from_seconds(1708243198).unwrap().calendar_date(), "Feb 18, 2024");
}

#[test]
fn rfc_dates() {
    let t = Timestamp::from_seconds(1679084830).unwrap();
    assert_eq!(t.rfc2822(), "Fri, 17 Mar 2023 20:27:10 +0000");
    assert_eq!(t.rfc3339(), "2023-03-17T20:27:10+00:00");
    assert_eq!(Timestamp::from_seconds(0).unwrap().rfc2822(), "Thu, 1 Jan 1970 00:00:00 +0000");
}
