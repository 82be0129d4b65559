use pulse_sequencer::chance::{GeneratorSource, Probability, RandomSource, DRAW_SPAN};
use rand::rngs::StdRng;
use rand::{RngCore, SeedableRng};

#[test]
fn the_span_is_two_to_the_fifty_third() {
    assert_eq!(DRAW_SPAN, 1u64 << 53);
}

#[test]
fn thresholds_above_the_span_are_clamped() {
    assert_eq!(Probability::from_threshold(0).threshold(), 0);
    assert_eq!(Probability::from_threshold(17).threshold(), 17);
    assert_eq!(Probability::from_threshold(DRAW_SPAN).threshold(), DRAW_SPAN);
    assert_eq!(Probability::from_threshold(DRAW_SPAN + 1).threshold(), DRAW_SPAN);
    assert_eq!(Probability::from_threshold(u64::MAX).threshold(), DRAW_SPAN);
}

#[test]
fn ratios_round_up_to_the_next_outcome() {
    assert_eq!(Probability::from_ratio(1, 2).unwrap().threshold(), 1u64 << 52);
    assert_eq!(Probability::from_ratio(1, 10).unwrap().threshold(), 900_719_925_474_100);
    assert_eq!(Probability::from_ratio(0, 5).unwrap().threshold(), 0);
    assert_eq!(Probability::from_ratio(5, 5).unwrap().threshold(), DRAW_SPAN);
    assert_eq!(Probability::from_ratio(9, 5).unwrap().threshold(), DRAW_SPAN);
    assert_eq!(Probability::from_ratio(1, u64::MAX).unwrap().threshold(), 1);
    assert_eq!(
        Probability::from_ratio(u64::MAX - 1, u64::MAX).unwrap().threshold(),
        DRAW_SPAN
    );
    assert_eq!(Probability::from_ratio(1, 3).unwrap().threshold(), 3_002_399_751_580_331);
}

#[test]
fn a_ratio_over_zero_is_no_probability() {
    assert!(Probability::from_ratio(0, 0).is_none());
    assert!(Probability::from_ratio(7, 0).is_none());
}

#[test]
fn the_tenth_matches_the_float_tenth() {
    let float_threshold = (0.1f64 * (DRAW_SPAN as f64)).ceil() as u64;
    assert_eq!(Probability::from_ratio(1, 10).unwrap().threshold(), float_threshold);
}

#[test]
fn a_draw_decides_by_its_upper_bits() {
    let half = Probability::from_ratio(1, 2).unwrap();
    let last_hit = ((1u64 << 52) - 1) << 11;
    assert!(half.decides(0));
    assert!(half.decides(last_hit));
    assert!(half.decides(last_hit + 2047));
    assert!(!half.decides(1u64 << 63));
    assert!(!half.decides(u64::MAX));
    let one = Probability::from_threshold(1);
    assert!(one.decides(2047));
    assert!(!one.decides(2048));
}

#[test]
fn zero_never_succeeds_and_one_always_does() {
    for raw in [0u64, 1, 2047, 2048, 1 << 40, 1 << 63, u64::MAX] {
        assert!(!Probability::never().decides(raw));
        assert!(Probability::always().decides(raw));
    }
}

#[test]
fn a_decision_agrees_with_the_float_comparison() {
    let p = 0.1f64;
    let tenth = Probability::from_ratio(1, 10).unwrap();
    let mut rng = StdRng::seed_from_u64(99);
    for _ in 0..2000 {
        let raw = rng.next_u64();
        let unit = (raw >> 11) as f64 * (1.0 / ((1u64 << 53) as f64));
        assert_eq!(tenth.decides(raw), unit < p);
    }
}

#[test]
fn the_generator_source_hands_out_the_generators_draws() {
    let mut expected = StdRng::seed_from_u64(2024);
    let mut source = GeneratorSource::new(StdRng::seed_from_u64(2024));
    let mut seen = Vec::new();
    for _ in 0..16 {
        let raw = source.next_raw();
        assert_eq!(raw, expected.next_u64());
        seen.push(raw);
    }
    seen.dedup();
    assert!(seen.len() > 1);
}
