use swarm_arena::clock::{ClockError, SimulationClock, NANOS_PER_SECOND};
use swarm_arena::host::{game_logic, FrameCounter, WorldState};

#[test]
fn clock_runs_whole_periods_and_keeps_the_rest() {
    let mut clock = SimulationClock::new(33, 5).unwrap();
    assert_eq!(clock.period(), 33);
    assert_eq!(clock.debt(), 0);
    assert_eq!(clock.take_due(100), 3);
    assert_eq!(clock.debt(), 1);
    assert_eq!(clock.take_due(31), 0);
    assert_eq!(clock.debt(), 32);
    assert_eq!(clock.take_due(1), 1);
    assert_eq!(clock.debt(), 0);
}

#[test]
fn clock_holds_time_until_a_period_is_full() {
    let mut clock = SimulationClock::new(10, 4).unwrap();
    assert_eq!(clock.take_due(0), 0);
    assert_eq!(clock.take_due(9), 0);
    assert_eq!(clock.debt(), 9);
    assert_eq!(clock.take_due(1), 1);
    assert_eq!(clock.debt(), 0);
    assert_eq!(clock.take_due(39), 3);
    assert_eq!(clock.debt(), 9);
}

#[test]
fn clock_drops_time_beyond_the_cap() {
    let mut clock = SimulationClock::new(33, 5).unwrap();
    assert_eq!(clock.take_due(10_000), 5);
    assert_eq!(clock.debt(), 0);
    assert_eq!(clock.take_due(164), 4);
    assert_eq!(clock.debt(), 32);
    assert_eq!(clock.take_due(u64::MAX), 5);
    assert_eq!(clock.debt(), 0);
    assert_eq!(clock.take_due(165), 5);
    assert_eq!(clock.debt(), 0);
}

#[test]
fn many_small_calls_equal_one_large_call() {
    let mut small = SimulationClock::new(33, 5).unwrap();
    let mut small_ticks = 0;
    for _ in 0..160 {
        small_ticks += small.take_due(1);
    }
    let mut large = SimulationClock::new(33, 5).unwrap();
    let large_ticks = large.take_due(160);
    assert_eq!(small_ticks, 4);
    assert_eq!(large_ticks, 4);
    assert_eq!(small.debt(), 28);
    assert_eq!(large.debt(), 28);
}

#[test]
fn uneven_calls_do_not_drift() {
    let mut clock = SimulationClock::new(7, 100).unwrap();
    let steps = [3u64, 11, 0, 1, 20, 6, 6, 6, 13, 2];
    let mut ticks = 0;
    for step in steps {
        ticks += clock.take_due(step);
    }
    let sum: u64 = steps.iter().sum();
    assert_eq!(sum, 68);
    assert_eq!(ticks, 9);
    assert_eq!(clock.debt(), 5);
}

#[test]
fn clock_refuses_what_cannot_tick() {
    assert_eq!(SimulationClock::new(0, 5).err(), Some(ClockError::ZeroPeriod));
    assert_eq!(SimulationClock::new(0, 0).err(), Some(ClockError::ZeroPeriod));
    assert_eq!(SimulationClock::new(33, 0).err(), Some(ClockError::ZeroCatchUp));
    assert_eq!(SimulationClock::new(u64::MAX, 2).err(), Some(ClockError::CapTooLarge));
    assert!(SimulationClock::new(u64::MAX, 1).is_ok());
}

#[test]
fn clock_for_rate_counts_in_nanoseconds() {
    assert_eq!(NANOS_PER_SECOND, 1_000_000_000);
    let clock = SimulationClock::for_rate(30, 5).unwrap();
    assert_eq!(clock.period(), 33_333_333);
    assert_eq!(SimulationClock::for_rate(60, 5).unwrap().period(), 16_666_666);
    assert_eq!(SimulationClock::for_rate(1_000_000_000, 1).unwrap().period(), 1);
    assert_eq!(SimulationClock::for_rate(0, 5).err(), Some(ClockError::ZeroPeriod));
    assert_eq!(SimulationClock::for_rate(1_000_000_001, 5).err(), Some(ClockError::ZeroPeriod));
    assert_eq!(SimulationClock::for_rate(30, 0).err(), Some(ClockError::ZeroCatchUp));
}

#[test]
fn frame_counter_publishes_once_per_window() {
    let mut frames = FrameCounter::new(1000);
    for _ in 0..3 {
        frames.count(300);
    }
    assert_eq!(frames, FrameCounter { window: 1000, age: 900, frames: 3, reading: 0 });
    frames.count(100);
    assert_eq!(frames, FrameCounter { window: 1000, age: 0, frames: 0, reading: 4 });
    frames.count(5000);
    assert_eq!(frames.reading, 1);
    let mut full = FrameCounter { window: u64::MAX, age: u64::MAX - 1, frames: u32::MAX, reading: 7 };
    full.count(10);
    assert_eq!(full, FrameCounter { window: u64::MAX, age: 0, frames: 0, reading: u32::MAX });
}

#[test]
fn game_logic_leaves_the_state_alone() {
    let mut state = WorldState {
        clock: SimulationClock::new(10, 5).unwrap(),
        frames: FrameCounter { window: 9, age: 4, frames: 2, reading: 60 },
    };
    state.clock.take_due(7);
    game_logic(&mut state);
    assert_eq!(state.clock.debt(), 7);
    assert_eq!(state.clock.period(), 10);
    assert_eq!(state.frames, FrameCounter { window: 9, age: 4, frames: 2, reading: 60 });
}

#[test]
fn clock_faults_describe_themselves() {
    assert_eq!(ClockError::ZeroPeriod.describe(), "a tick must last for some time");
    assert_eq!(ClockError::ZeroCatchUp.describe(), "at least one tick per call must be allowed");
    assert_eq!(
        ClockError::CapTooLarge.describe(),
        "the catch-up limit holds more time than can be counted"
    );
}
