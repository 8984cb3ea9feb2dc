use ball_game::timer::SpawnTimer;

#[test]
fn timer_fires_once_when_crossing() {
    let mut t = SpawnTimer::new(1_000_000_000);
    t.tick(600_000_000);
    assert!(!t.finished());
    t.tick(500_000_000);
    assert!(t.finished());
    assert_eq!(t.elapsed, 100_000_000);
    t.tick(100_000_000);
    assert!(!t.finished());
}

#[test]
fn timer_fires_on_exact_interval() {
    let mut t = SpawnTimer::new(5_000_000_000);
    t.tick(4_999_999_999);
    assert!(!t.finished());
    t.tick(1);
    assert!(t.finished());
    assert_eq!(t.elapsed, 0);
}

#[test]
fn timer_fires_once_for_a_long_tick() {
    let mut t = SpawnTimer::new(1_000_000_000);
    t.tick(3_500_000_000);
    assert!(t.finished());
    assert_eq!(t.elapsed, 500_000_000);
}

#[test]
fn timer_with_largest_tick() {
    let mut t = SpawnTimer::new(1_000_000_000);
    t.tick(999_999_999);
    t.tick(u64::MAX);
    assert!(t.finished());
    assert_eq!(t.elapsed as u128, (999_999_999u128 + u64::MAX as u128) % 1_000_000_000);
}

#[test]
fn timer_zero_tick_does_not_fire() {
    let mut t = SpawnTimer::new(1_000_000_000);
    t.tick(0);
    assert!(!t.finished());
    assert_eq!(t.elapsed, 0);
}
