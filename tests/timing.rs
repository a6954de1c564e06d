use rchip8::chip8::{instruction_time_ns, Chip8};
use rchip8::constants::TIMER_PERIOD_NS;

const NO_KEYS: [bool; 16] = [false; 16];
const MS: u128 = 1_000_000;

fn looping(instruction_time: u128) -> Chip8 {
    // 0x200: JP 0x200
    Chip8::new(vec![0x12, 0x00], 0, instruction_time, false).unwrap()
}

#[test]
fn delay_timer_ticks_once_per_period_with_700_hz_clock() {
    let mut m = looping(instruction_time_ns(700));
    m.dt = 60;
    for k in 1..=16u128 {
        m.step(k * MS, &NO_KEYS, 0).unwrap();
    }
    assert_eq!(m.dt, 60);
    m.step(17 * MS, &NO_KEYS, 0).unwrap();
    assert_eq!(m.dt, 59);
    for k in 18..=100u128 {
        m.step(k * MS, &NO_KEYS, 0).unwrap();
    }
    assert_eq!(m.dt, 55);
}

#[test]
fn timer_tick_needs_more_than_one_period() {
    let mut m = looping(u128::MAX);
    m.dt = 3;
    m.step(TIMER_PERIOD_NS, &NO_KEYS, 0).unwrap();
    assert_eq!(m.dt, 3);
    m.step(TIMER_PERIOD_NS + 1, &NO_KEYS, 0).unwrap();
    assert_eq!(m.dt, 2);
    assert_eq!(m.last_timer_t, TIMER_PERIOD_NS + 1);
}

#[test]
fn timers_stop_at_zero() {
    let mut m = looping(u128::MAX);
    m.dt = 1;
    m.step(20 * MS, &NO_KEYS, 0).unwrap();
    assert_eq!(m.dt, 0);
    m.step(40 * MS, &NO_KEYS, 0).unwrap();
    assert_eq!(m.dt, 0);
    assert_eq!(m.st, 0);
}

#[test]
fn tone_follows_sound_timer_transitions() {
    let mut m = looping(u128::MAX);
    m.st = 3;
    m.step(17 * MS, &NO_KEYS, 0).unwrap();
    assert_eq!(m.st, 2);
    assert!(m.beep_flag);
    m.step(18 * MS, &NO_KEYS, 0).unwrap();
    assert!(!m.beep_flag);
    m.step(34 * MS, &NO_KEYS, 0).unwrap();
    assert_eq!(m.st, 1);
    assert!(m.beep_flag);
    m.step(51 * MS, &NO_KEYS, 0).unwrap();
    assert_eq!(m.st, 0);
    assert!(!m.beep_flag);
}

#[test]
fn at_most_one_instruction_per_step() {
    let mut m = Chip8::new(vec![0x60, 0x01, 0x61, 0x02, 0x62, 0x03], 0, MS, false).unwrap();
    assert_eq!(m.step(MS / 2, &NO_KEYS, 0), Ok(None));
    assert_eq!(m.pc, 0x200);
    assert_eq!(m.step(10 * MS, &NO_KEYS, 0), Ok(Some(0x6001)));
    assert_eq!(m.pc, 0x202);
    assert_eq!(m.step(10 * MS + 1, &NO_KEYS, 0), Ok(None));
    assert_eq!(m.pc, 0x202);
    assert_eq!(m.step(11 * MS + 1, &NO_KEYS, 0), Ok(Some(0x6102)));
    assert_eq!(m.registers[0..3], [1, 2, 0]);
}

#[test]
fn flags_reset_every_step() {
    let mut m = Chip8::new(vec![0xD0, 0x05, 0x00, 0xE0], 0, MS, false).unwrap();
    m.step(2 * MS, &NO_KEYS, 0).unwrap();
    assert!(m.display_update_flag);
    m.step(2 * MS + 1, &NO_KEYS, 0).unwrap();
    assert!(!m.display_update_flag);
    m.step(4 * MS, &NO_KEYS, 0).unwrap();
    assert!(m.display_clear_flag);
    m.step(4 * MS + 1, &NO_KEYS, 0).unwrap();
    assert!(!m.display_clear_flag);
}

#[test]
fn clock_going_back_runs_nothing() {
    let mut m = Chip8::new(vec![0x60, 0x01], 10 * MS, 0, false).unwrap();
    m.dt = 4;
    assert_eq!(m.step(MS, &NO_KEYS, 0), Ok(None));
    assert_eq!(m.dt, 4);
    assert_eq!(m.pc, 0x200);
}

#[test]
fn instruction_period_from_rate() {
    assert_eq!(instruction_time_ns(1000), 1_000_000);
    assert_eq!(instruction_time_ns(700), 1_428_571);
    assert_eq!(instruction_time_ns(1), 1_000_000_000);
}
