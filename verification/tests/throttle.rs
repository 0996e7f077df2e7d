use northstar::throttle::{Throttle, WINDOW_MS};

#[test]
fn frames_within_the_limit_pass_at_once() {
    let mut t = Throttle::new(3, WINDOW_MS);
    assert_eq!(t.pass(10), Some(10));
    assert_eq!(t.pass(10), Some(10));
    assert_eq!(t.pass(20), Some(20));
}

#[test]
fn a_frame_over_the_limit_waits_for_the_window() {
    let mut t = Throttle::new(3, 1000);
    assert_eq!(t.pass(10), Some(10));
    assert_eq!(t.pass(11), Some(11));
    assert_eq!(t.pass(12), Some(12));
    assert_eq!(t.pass(13), Some(1010));
    assert_eq!(t.pass(1010), Some(1011));
    assert_eq!(t.pass(1011), Some(1012));
    assert_eq!(t.pass(5000), Some(5000));
    assert_eq!(t.pass(5000), Some(5000));
    assert_eq!(t.pass(5000), Some(5000));
    assert_eq!(t.pass(5000), Some(6000));
}

#[test]
fn no_window_holds_more_than_the_limit() {
    let limit = 5;
    let mut t = Throttle::new(limit, 100);
    let mut times = vec![];
    let mut now = 0u64;
    for i in 0..200u64 {
        now += (i * 7919) % 13;
        let at = t.pass(now).unwrap();
        assert!(at >= now);
        now = at;
        times.push(at);
    }
    for i in 0..times.len() {
        assert!(i == 0 || times[i - 1] <= times[i]);
        if i + limit < times.len() {
            assert!(times[i] + 100 <= times[i + limit]);
        }
    }
}

#[test]
fn a_limit_of_zero_lets_nothing_through() {
    let mut t = Throttle::new(0, 1000);
    assert_eq!(t.pass(5), None);
    assert_eq!(t.pass(5000), None);
}

#[test]
fn time_does_not_run_past_the_end() {
    let mut t = Throttle::new(1, 1000);
    assert_eq!(t.pass(u64::MAX - 10), Some(u64::MAX - 10));
    assert_eq!(t.pass(u64::MAX - 10), None);
    let mut t = Throttle::new(1, 0);
    assert_eq!(t.pass(u64::MAX), Some(u64::MAX));
    assert_eq!(t.pass(u64::MAX), Some(u64::MAX));
    assert_eq!(t.pass(3), Some(u64::MAX));
}
