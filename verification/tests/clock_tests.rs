use pulse_sequencer::clock::{Divider, PeriodicTrigger, VoiceCycle};
use pulse_sequencer::error::BuildError;

#[test]
fn the_period_is_the_rounded_down_quotient() {
    assert_eq!(PeriodicTrigger::new(44100, 10).unwrap().period(), 4410);
    assert_eq!(PeriodicTrigger::new(10, 3).unwrap().period(), 3);
    assert_eq!(PeriodicTrigger::new(7, 7).unwrap().period(), 1);
}

#[test]
fn a_rate_of_zero_or_above_the_sample_rate_is_refused() {
    assert!(matches!(PeriodicTrigger::new(44100, 0), Err(BuildError::BadRate)));
    assert!(matches!(PeriodicTrigger::new(10, 11), Err(BuildError::BadRate)));
    assert!(matches!(PeriodicTrigger::new(0, 0), Err(BuildError::BadRate)));
    assert!(matches!(PeriodicTrigger::new(0, 1), Err(BuildError::BadRate)));
}

#[test]
fn the_clock_fires_on_multiples_of_its_period() {
    let clock = PeriodicTrigger::new(40, 10).unwrap();
    let fired: Vec<u64> = (0..20).filter(|t| clock.fires(*t)).collect();
    assert_eq!(fired, vec![0, 4, 8, 12, 16]);
    assert!(clock.fires(4_000_000_000_000));
    assert!(!clock.fires(u64::MAX));
}

#[test]
fn division_by_zero_is_refused() {
    assert!(matches!(Divider::new(0), Err(BuildError::ZeroDivisor)));
    assert_eq!(Divider::new(5).unwrap().divisor(), 5);
}

#[test]
fn the_divider_passes_every_third_firing() {
    let mut divider = Divider::new(3).unwrap();
    let out: Vec<bool> = (0..9).map(|_| divider.step(true)).collect();
    assert_eq!(out, vec![false, false, true, false, false, true, false, false, true]);
}

#[test]
fn samples_without_a_firing_do_not_count() {
    let mut divider = Divider::new(2).unwrap();
    let input = [false, true, false, false, true, false, true, true, false, true];
    let out: Vec<bool> = input.iter().map(|f| divider.step(*f)).collect();
    assert_eq!(
        out,
        vec![false, false, false, false, true, false, false, true, false, false]
    );
}

#[test]
fn the_kth_output_is_the_input_firing_k_times_n() {
    for n in 1u32..6 {
        let mut divider = Divider::new(n).unwrap();
        let mut outputs = 0u32;
        for firing in 1u32..=60 {
            let passed = divider.step(true);
            assert_eq!(passed, firing % n == 0);
            if passed {
                outputs += 1;
                assert_eq!(firing, outputs * n);
            }
        }
        assert_eq!(outputs, 60 / n);
    }
}

#[test]
fn division_by_one_is_the_identity() {
    let mut divider = Divider::new(1).unwrap();
    for fired in [true, false, true, true, false, false, true] {
        assert_eq!(divider.step(fired), fired);
    }
}

#[test]
fn a_cycle_without_voices_is_refused() {
    assert!(matches!(VoiceCycle::new(0), Err(BuildError::ZeroLength)));
    assert_eq!(VoiceCycle::new(2).unwrap().voices(), 2);
}

#[test]
fn the_voices_take_turns() {
    let mut cycle = VoiceCycle::new(3).unwrap();
    let input = [true, true, false, true, true, false, false, true];
    let out: Vec<Option<usize>> = input.iter().map(|f| cycle.route(*f)).collect();
    assert_eq!(
        out,
        vec![Some(0), Some(1), None, Some(2), Some(0), None, None, Some(1)]
    );
    let mut solo = VoiceCycle::new(1).unwrap();
    assert_eq!(solo.route(true), Some(0));
    assert_eq!(solo.route(true), Some(0));
}
