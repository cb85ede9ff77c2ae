use session_driver::clock::tick;
use session_driver::clock::Clock;

#[test]
fn tick_keeps_readings_below_the_wrap() {
    assert_eq!(tick(0), 0);
    assert_eq!(tick(1), 1);
    assert_eq!(tick(100), 100);
    assert_eq!(tick(86_400_000), 86_400_000);
    assert_eq!(tick(4_294_967_295), 4_294_967_295);
}

#[test]
fn tick_wraps_around_after_two_to_the_thirty_second() {
    assert_eq!(tick(4_294_967_296), 0);
    assert_eq!(tick(4_294_967_296 + 5), 5);
    assert_eq!(tick(3 * 4_294_967_296 + 77), 77);
    assert_eq!(tick(u128::MAX), u32::MAX);
}

#[test]
fn ticks_follow_readings_until_the_wrap() {
    let readings: [u128; 6] = [0, 0, 3, 99, 100, 4_294_967_295];
    let mut last = 0u32;
    for reading in readings {
        let now = tick(reading);
        assert!(last <= now);
        last = now;
    }
    // The one step at which a tick goes back.
    assert!(tick(4_294_967_296) < tick(4_294_967_295));
}

#[test]
fn clock_readings_do_not_go_back() {
    let clock = Clock::start();
    let mut last = clock.elapsed();
    for _ in 0..1000 {
        let reading = clock.elapsed();
        assert!(last <= reading);
        last = reading;
    }
}

#[test]
fn clock_measures_from_its_origin() {
    let clock = Clock::start();
    let early = clock.elapsed();
    assert!(early < 10_000);
    while clock.elapsed() < early + 3 {}
    let later = clock.elapsed();
    assert!(later >= early + 3);
    assert!(u128::from(clock.now()) >= later);
}

#[test]
fn copies_of_a_clock_share_the_origin() {
    let clock = Clock::start();
    while clock.elapsed() < 2 {}
    let copy = clock;
    assert!(copy.elapsed() >= 2);
    assert!(clock.elapsed() >= 2);
}
