use glove_core::utils::Ticker;

#[test]
fn ticker_keeps_its_period() {
    let mut t = Ticker::every(10, 100);
    assert_eq!(t.next(101), Some(110));
    assert_eq!(t.next(110), Some(120));
    assert_eq!(t.next(130), Some(130));
    assert_eq!(t.next(131), Some(140));
}

#[test]
fn ticker_that_fell_behind_starts_anew() {
    let mut t = Ticker::every(10, 100);
    assert_eq!(t.next(111), None);
    assert_eq!(t.next(112), Some(121));
    assert_eq!(t.next(50), Some(131));
}

#[test]
fn ticker_stops_at_the_end_of_the_clock() {
    let mut t = Ticker::every(10, u64::MAX - 5);
    assert_eq!(t.try_next(u64::MAX - 4), None);
    let mut t = Ticker::every(10, u64::MAX - 10);
    assert_eq!(t.try_next(u64::MAX - 9), Some(Some(u64::MAX)));
}
