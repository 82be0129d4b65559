use pulse_sequencer::chance::RandomSource;
use pulse_sequencer::error::BuildError;
use pulse_sequencer::melody::PitchSource;
use pulse_sequencer::palette::{Band, NoisePalette};
use pulse_sequencer::scale::Scale;

struct Dice {
    raws: Vec<u64>,
    drawn: usize,
}

impl RandomSource for Dice {
    fn next_raw(&mut self) -> u64 {
        let raw = self.raws[self.drawn % self.raws.len()];
        self.drawn += 1;
        raw
    }
}

#[test]
fn a_scale_is_refused_for_each_defect() {
    assert!(matches!(Scale::new(vec![], 3), Err(BuildError::EmptyScale)));
    assert!(matches!(Scale::new(vec![], 0), Err(BuildError::EmptyScale)));
    assert!(matches!(Scale::new(vec![100], 0), Err(BuildError::NoOctaves)));
    assert!(matches!(Scale::new(vec![0, 0], 0), Err(BuildError::NoOctaves)));
    assert!(matches!(Scale::new(vec![100, 0], 2), Err(BuildError::ZeroFrequency)));
    assert!(matches!(Scale::new(vec![0, 0], 2), Err(BuildError::ZeroFrequency)));
    assert!(matches!(Scale::new(vec![100, 150, 100], 2), Err(BuildError::DuplicateDegree)));
    assert!(matches!(
        Scale::new(vec![1u64 << 63, 1u64 << 63], 2),
        Err(BuildError::DuplicateDegree)
    ));
    assert!(matches!(Scale::new(vec![100, 1u64 << 63], 2), Err(BuildError::FrequencyOverflow)));
    assert!(matches!(Scale::new(vec![1], 66), Err(BuildError::FrequencyOverflow)));
    assert!(matches!(Scale::new(vec![1], u32::MAX), Err(BuildError::FrequencyOverflow)));
}

#[test]
fn a_scale_may_reach_the_top_of_the_range() {
    let scale = Scale::new(vec![1, 3], 63).unwrap();
    assert_eq!((scale.degrees(), scale.octaves()), (2, 63));
    assert!(Scale::new(vec![1], 64).is_ok());
    assert!(Scale::new(vec![u64::MAX], 1).is_ok());
    assert_eq!(Scale::new(vec![1], 64).unwrap().quantize(u64::MAX), 1u64 << 63);
}

#[test]
fn a_frequency_snaps_to_the_nearest_note() {
    let scale = Scale::new(vec![100, 150], 3).unwrap();
    assert_eq!(scale.quantize(120), 100);
    assert_eq!(scale.quantize(130), 150);
    assert_eq!(scale.quantize(260), 300);
    assert_eq!(scale.quantize(340), 300);
    assert_eq!(scale.quantize(360), 400);
    assert_eq!(scale.quantize(520), 600);
    assert_eq!(scale.quantize(0), 100);
    assert_eq!(scale.quantize(99), 100);
    assert_eq!(scale.quantize(u64::MAX), 600);
}

#[test]
fn of_two_equally_near_notes_the_lower_is_taken() {
    let scale = Scale::new(vec![150, 100], 3).unwrap();
    assert_eq!(scale.quantize(125), 100);
    assert_eq!(scale.quantize(175), 150);
    assert_eq!(scale.quantize(250), 200);
    assert_eq!(scale.quantize(350), 300);
    assert_eq!(scale.quantize(500), 400);
}

#[test]
fn a_note_of_the_scale_is_returned_unchanged() {
    let scale = Scale::new(vec![275, 309, 327, 367, 412, 437, 490], 5).unwrap();
    for base in [275u64, 309, 327, 367, 412, 437, 490] {
        for octave in 0..5 {
            assert_eq!(scale.quantize(base << octave), base << octave);
        }
    }
}

#[test]
fn every_result_is_a_note_of_the_scale() {
    let bases = [275u64, 309, 327, 367, 412, 437, 490];
    let scale = Scale::new(bases.to_vec(), 4).unwrap();
    let mut notes = Vec::new();
    for base in bases {
        for octave in 0..4 {
            notes.push(base << octave);
        }
    }
    for frequency in (0..5000).step_by(7) {
        let q = scale.quantize(frequency);
        assert!(notes.contains(&q));
        let gap = q.abs_diff(frequency);
        for note in &notes {
            let other = note.abs_diff(frequency);
            assert!(gap < other || (gap == other && q <= *note));
        }
    }
}

#[test]
fn a_band_beyond_the_range_is_refused() {
    let scale = Scale::new(vec![100], 1).unwrap();
    assert!(matches!(Band::new(scale, u64::MAX, 1), Err(BuildError::FrequencyOverflow)));
    let scale = Scale::new(vec![100], 1).unwrap();
    assert!(Band::new(scale, u64::MAX, 0).is_ok());
    let scale = Scale::new(vec![100], 1).unwrap();
    assert!(Band::new(scale, 1, u64::MAX - 1).is_ok());
}

#[test]
fn a_draw_picks_its_share_of_the_band() {
    let scale = Scale::new((1..=400).collect(), 1).unwrap();
    let band = Band::new(scale, 50, 200).unwrap();
    assert_eq!(band.pick(0), 50);
    assert_eq!(band.pick(2047), 50);
    assert_eq!(band.pick(u64::MAX), 249);
    assert_eq!(band.pick(1u64 << 63), 150);
    assert_eq!(band.pick(1u64 << 62), 100);
    assert_eq!(band.pick((1u64 << 63) - 1), 149);
}

#[test]
fn a_picked_point_is_snapped_to_the_scale() {
    let scale = Scale::new(vec![60, 90], 3).unwrap();
    let band = Band::new(scale, 50, 200).unwrap();
    assert_eq!(band.pick(0), 60);
    assert_eq!(band.pick(1u64 << 63), 120);
    assert_eq!(band.pick(u64::MAX), 240);
    assert_eq!(band.pick(1u64 << 62), 90);
}

#[test]
fn the_noise_palette_draws_once_for_each_pitch() {
    let scale = Scale::new(vec![60, 90], 3).unwrap();
    let band = Band::new(scale, 50, 200).unwrap();
    let chance = Dice { raws: vec![0, 1u64 << 63, u64::MAX], drawn: 0 };
    let mut palette = NoisePalette { band, chance };
    assert_eq!(palette.next_pitch(), 60);
    assert_eq!(palette.next_pitch(), 120);
    assert_eq!(palette.next_pitch(), 240);
    assert_eq!(palette.next_pitch(), 60);
    assert_eq!(palette.chance.drawn, 4);
}
