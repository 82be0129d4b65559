use pulse_sequencer::arrangement::{Arrangement, Frame, Settings};
use pulse_sequencer::chance::{GeneratorSource, Probability, RandomSource};
use pulse_sequencer::error::BuildError;
use pulse_sequencer::melody::{PitchSource, Steady};
use pulse_sequencer::palette::{Band, NoisePalette};
use pulse_sequencer::pattern::drum_pattern;
use pulse_sequencer::scale::Scale;
use pulse_sequencer::session::Session;
use rand::rngs::StdRng;
use rand::SeedableRng;

struct Script {
    pitches: Vec<u64>,
    drawn: usize,
}

impl PitchSource for Script {
    fn next_pitch(&mut self) -> u64 {
        let pitch = self.pitches[self.drawn];
        self.drawn += 1;
        pitch
    }
}

struct Dice {
    raws: Vec<u64>,
    drawn: usize,
}

impl RandomSource for Dice {
    fn next_raw(&mut self) -> u64 {
        let raw = self.raws[self.drawn % self.raws.len()];
        self.drawn += 1;
        raw
    }
}

fn small() -> Settings {
    Settings {
        sample_rate: 40,
        rate: 10,
        melody_divisor: 2,
        drum_divisor: 3,
        skip: Probability::never(),
        voices: 2,
        loop_length: 2,
        replace: Probability::never(),
        anchor: Probability::never(),
        pattern: vec![1, 2, 4],
        channels: 3,
    }
}

fn script() -> Script {
    Script { pitches: vec![300, 400, 500, 600, 700], drawn: 0 }
}

fn parts(frame: Frame) -> (bool, Option<usize>, Option<u64>, u8) {
    (frame.beat, frame.voice, frame.pitch, frame.drums)
}

#[test]
fn the_standard_settings_are_those_of_the_piece() {
    let s = Settings::standard(44100);
    assert_eq!((s.sample_rate, s.rate), (44100, 10));
    assert_eq!((s.melody_divisor, s.drum_divisor), (2, 3));
    assert_eq!((s.voices, s.loop_length, s.channels), (2, 8, 3));
    assert_eq!(s.skip.threshold(), Probability::from_ratio(1, 10).unwrap().threshold());
    assert_eq!(s.replace.threshold(), Probability::from_ratio(1, 10).unwrap().threshold());
    assert_eq!(s.anchor.threshold(), Probability::from_ratio(1, 2).unwrap().threshold());
    assert_eq!(s.pattern, drum_pattern());
    assert_eq!(Arrangement::new(s).unwrap().voices(), 2);
}

#[test]
fn settings_are_refused_for_each_defect_in_order() {
    let all_bad = Settings {
        sample_rate: 40,
        rate: 0,
        melody_divisor: 0,
        drum_divisor: 0,
        skip: Probability::never(),
        voices: 0,
        loop_length: 0,
        replace: Probability::never(),
        anchor: Probability::never(),
        pattern: vec![],
        channels: 9,
    };
    assert!(matches!(Arrangement::new(all_bad), Err(BuildError::BadRate)));
    assert!(matches!(
        Arrangement::new(Settings { rate: 41, ..small() }),
        Err(BuildError::BadRate)
    ));
    assert!(matches!(
        Arrangement::new(Settings { melody_divisor: 0, voices: 0, ..small() }),
        Err(BuildError::ZeroDivisor)
    ));
    assert!(matches!(
        Arrangement::new(Settings { drum_divisor: 0, channels: 9, ..small() }),
        Err(BuildError::ZeroDivisor)
    ));
    assert!(matches!(
        Arrangement::new(Settings { voices: 0, channels: 9, ..small() }),
        Err(BuildError::ZeroLength)
    ));
    assert!(matches!(
        Arrangement::new(Settings { loop_length: 0, pattern: vec![], ..small() }),
        Err(BuildError::ZeroLength)
    ));
    assert!(matches!(
        Arrangement::new(Settings { channels: 9, pattern: vec![], ..small() }),
        Err(BuildError::TooManyChannels)
    ));
    assert!(matches!(
        Arrangement::new(Settings { pattern: vec![], ..small() }),
        Err(BuildError::EmptyPattern)
    ));
    assert!(Arrangement::new(small()).is_ok());
}

#[test]
fn the_beats_are_shared_out_between_melody_and_drums() {
    let mut piece = Arrangement::new(small()).unwrap();
    let mut dice = Dice { raws: vec![u64::MAX], drawn: 0 };
    let mut anchor = Steady { pitch: 220 };
    let mut palette = script();
    let mut events = Vec::new();
    for tick in 0..56u64 {
        let frame = piece.advance(tick, &mut dice, &mut anchor, &mut palette);
        assert_eq!(frame.beat, tick % 4 == 0);
        assert_eq!(frame.voice.is_some(), frame.pitch.is_some());
        if frame.beat {
            events.push((tick, frame.voice, frame.pitch, frame.drums));
        } else {
            assert_eq!(parts(frame), (false, None, None, 0));
        }
    }
    assert_eq!(
        events,
        vec![
            (0, None, None, 0),
            (4, Some(0), Some(220), 0),
            (8, None, None, 1),
            (12, Some(1), Some(220), 0),
            (16, None, None, 0),
            (20, Some(0), Some(300), 2),
            (24, None, None, 0),
            (28, Some(1), Some(400), 0),
            (32, None, None, 4),
            (36, Some(0), Some(500), 0),
            (40, None, None, 0),
            (44, Some(1), Some(600), 1),
            (48, None, None, 0),
            (52, Some(0), Some(300), 0),
        ]
    );
    assert_eq!(piece.held_pitch(0), Some(300));
    assert_eq!(piece.held_pitch(1), Some(600));
    assert_eq!(piece.held_pitch(2), None);
}

#[test]
fn a_dropped_beat_triggers_no_voice_and_keeps_the_turn() {
    let settings = Settings { skip: Probability::from_ratio(1, 2).unwrap(), ..small() };
    let mut piece = Arrangement::new(settings).unwrap();
    let mut dice = Dice { raws: vec![0, u64::MAX, u64::MAX], drawn: 0 };
    let mut anchor = Steady { pitch: 220 };
    let mut palette = script();
    let mut onsets = Vec::new();
    for tick in 0..32u64 {
        let frame = piece.advance(tick, &mut dice, &mut anchor, &mut palette);
        if let Some(voice) = frame.voice {
            onsets.push((tick, voice));
        }
    }
    assert_eq!(onsets, vec![(12, 0), (20, 1), (28, 0)]);
}

#[test]
fn a_certain_skip_silences_the_melody() {
    let settings = Settings { skip: Probability::always(), ..small() };
    let mut piece = Arrangement::new(settings).unwrap();
    let mut dice = Dice { raws: vec![u64::MAX], drawn: 0 };
    let mut anchor = Steady { pitch: 220 };
    let mut palette = script();
    let mut drums = 0;
    for tick in 0..200u64 {
        let frame = piece.advance(tick, &mut dice, &mut anchor, &mut palette);
        assert_eq!(frame.voice, None);
        if frame.drums != 0 {
            drums += 1;
        }
    }
    assert_eq!(drums, 16);
    assert_eq!(piece.held_pitch(0), None);
}

#[test]
fn a_pause_keeps_the_place_in_the_piece() {
    let mut running = Session::new(Arrangement::new(small()).unwrap());
    let mut paused = Session::new(Arrangement::new(small()).unwrap());
    let mut dice_a = Dice { raws: vec![u64::MAX], drawn: 0 };
    let mut dice_b = Dice { raws: vec![u64::MAX], drawn: 0 };
    let mut anchor = Steady { pitch: 220 };
    let mut palette_a = script();
    let mut palette_b = script();
    assert!(paused.is_playing());
    for tick in 0..24u64 {
        let a = running.render(tick, &mut dice_a, &mut anchor, &mut palette_a).unwrap();
        let b = paused.render(tick, &mut dice_b, &mut anchor, &mut palette_b).unwrap();
        assert_eq!(parts(a), parts(b));
    }
    paused.stop();
    assert!(!paused.is_playing());
    for tick in 24..1000u64 {
        assert!(paused.render(tick, &mut dice_b, &mut anchor, &mut palette_b).is_none());
    }
    assert_eq!(dice_b.drawn, dice_a.drawn);
    assert_eq!(palette_b.drawn, 1);
    assert_eq!(paused.arrangement().held_pitch(0), Some(300));
    assert_eq!(paused.arrangement().held_pitch(1), Some(220));
    paused.start();
    assert!(paused.is_playing());
    for tick in 24..56u64 {
        let a = running.render(tick, &mut dice_a, &mut anchor, &mut palette_a).unwrap();
        let b = paused.render(tick, &mut dice_b, &mut anchor, &mut palette_b).unwrap();
        assert_eq!(parts(a), parts(b));
    }
    assert_eq!(paused.arrangement().held_pitch(1), Some(600));
}

#[test]
fn stopping_twice_and_starting_twice_change_nothing_more() {
    let mut session = Session::new(Arrangement::new(small()).unwrap());
    session.start();
    assert!(session.is_playing());
    session.stop();
    session.stop();
    assert!(!session.is_playing());
    session.start();
    session.start();
    assert!(session.is_playing());
}

#[test]
fn the_piece_runs_from_a_seeded_generator() {
    let notes = vec![275u64, 309, 164, 184, 206, 218, 245];
    let scale = Scale::new(notes.clone(), 9).unwrap();
    let band = Band::new(scale, 500, 2000).unwrap();
    let mut palette = NoisePalette { band, chance: GeneratorSource::new(StdRng::seed_from_u64(1)) };
    let mut chance = GeneratorSource::new(StdRng::seed_from_u64(2));
    let mut anchor = Steady { pitch: 550 };
    let mut piece = Arrangement::new(Settings::standard(1000)).unwrap();
    let (mut beats, mut onsets, mut hits) = (0, 0, 0);
    for tick in 0..100_000u64 {
        let frame = piece.advance(tick, &mut chance, &mut anchor, &mut palette);
        if frame.beat {
            beats += 1;
        }
        if frame.drums != 0 {
            hits += 1;
            assert_eq!(frame.drums & 1, 1);
            assert!(frame.drums < 8);
        }
        if let Some(pitch) = frame.pitch {
            onsets += 1;
            let member = notes.iter().any(|n| (0..9).any(|k| (n << k) == pitch));
            assert!(pitch == 550 || member);
            assert!(pitch == 550 || (400..=2800).contains(&pitch));
        }
    }
    assert_eq!(beats, 1000);
    assert_eq!(hits, 333);
    assert!(onsets > 350 && onsets < 500);
}
