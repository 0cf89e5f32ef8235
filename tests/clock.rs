use chip8::clock::{Clock, INSTRUCTION_HZ};

#[test]
fn clocks_fire_independently() {
    let mut clock = Clock::new(INSTRUCTION_HZ, 1000);
    assert_eq!(clock.step_period, 1666);
    assert_eq!(clock.timer_period, 16666);
    let a = clock.poll(2000);
    assert!(!a.step && !a.tick_timers);
    let a = clock.poll(2667);
    assert!(a.step && !a.tick_timers);
    assert_eq!(clock.last_step, 2667);
    let a = clock.poll(17667);
    assert!(a.step && a.tick_timers);
    // a long stall fires each trigger once
    let a = clock.poll(1_000_000);
    assert!(a.step && a.tick_timers);
    let a = clock.poll(1_000_001);
    assert!(!a.step && !a.tick_timers);
    let a = clock.poll(5);
    assert!(!a.step && !a.tick_timers);
}
