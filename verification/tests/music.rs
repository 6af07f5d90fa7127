use orbit_engine::arrangement::tone;
use orbit_engine::arrangement::Arrangement;
use orbit_engine::arrangement::Channel;
use orbit_engine::arrangement::Frequency;
use orbit_engine::arrangement::Note;
use orbit_engine::arrangement::NoteLength;
use orbit_engine::arrangement::Sequence;
use orbit_engine::arrangement::Tone;
use orbit_engine::arrangement::Wave;
use orbit_engine::single::F32;

fn soft(x: f32) -> F32 {
    F32::from_bits(x.to_bits())
}

/// All the notes of a sequence, one for each tick.
fn notes_by_tick(sequence: &Sequence) -> Vec<Option<Note>> {
    (0..=sequence.length() + 1).map(|t| sequence.get_note(t)).collect()
}

#[test]
fn flags_name_the_channel_and_the_duty_cycle() {
    assert_eq!(Wave::Pulse1.flags(), 4);
    assert_eq!(Wave::Pulse2.flags(), 5);
    assert_eq!(Wave::Triangle.flags(), 2);
    assert_eq!(Wave::Noise.flags(), 3);
}

#[test]
fn lengths_in_ticks() {
    assert_eq!(NoteLength::Whole.value(), 8);
    assert_eq!(NoteLength::Half.value(), 4);
    assert_eq!(NoteLength::QuarterDot.value(), 3);
    assert_eq!(NoteLength::Quarter.value(), 2);
    assert_eq!(NoteLength::Eighth.value(), 1);
}

#[test]
fn a_note_is_its_pitch_and_its_length() {
    let note = Note::new(Frequency(Some(440)), NoteLength::Half);
    assert_eq!(note.frequency, Frequency(Some(440)));
    assert_eq!(note.length, NoteLength::Half);
    let rest = Note::new(Frequency(None), NoteLength::Eighth);
    assert_eq!(rest.frequency.0, None);
}

#[test]
fn a_tone_packs_its_frequencies_and_times() {
    let t = tone(440, Some(880), 30, Some(10), 25, Wave::Triangle);
    assert_eq!(t.frequency, 440 | (880 << 16));
    assert_eq!(t.duration, 30 | (10 << 8));
    assert_eq!(t.volume, 25);
    assert_eq!(t.flags, 2);
    let plain = tone(117, None, 14, None, 100, Wave::Pulse1);
    assert_eq!(plain, Tone { frequency: 117, duration: 14, volume: 100, flags: 4 });
    let top = tone(u16::MAX, Some(u16::MAX), 255, Some(255), u32::MAX, Wave::Noise);
    assert_eq!(top, Tone { frequency: u32::MAX, duration: 0xffff, volume: u32::MAX, flags: 3 });
}

#[test]
fn the_first_pattern_varies_by_tenths() {
    let lengths: Vec<u32> = [0.05f32, 0.15, 0.25, 0.35, 0.45, 0.55, 0.65, 0.75, 0.85, 0.99]
        .iter()
        .map(|&v| Sequence::gen_pattern(0, soft(v)).length())
        .collect();
    assert_eq!(lengths, vec![10, 6, 8, 12, 8, 11, 10, 12, 2, 2]);
    // The ends of the ranges belong to the range above.
    assert_eq!(Sequence::gen_pattern(0, soft(0.1)).length(), 6);
    assert_eq!(Sequence::gen_pattern(0, soft(0.8)).length(), 2);
    assert_eq!(Sequence::gen_pattern(0, soft(0.0)).length(), 10);
    assert_eq!(Sequence::gen_pattern(0, soft(-1.0)).length(), 10);
    assert_eq!(Sequence::gen_pattern(0, soft(f32::NAN)).length(), 2);
}

#[test]
fn the_notes_of_the_first_variation() {
    let sequence = Sequence::gen_pattern(0, soft(0.05));
    let first = Note::new(Frequency(Some(117)), NoteLength::Half);
    let second = Note::new(Frequency(Some(139)), NoteLength::Quarter);
    let third = Note::new(Frequency(Some(156)), NoteLength::Half);
    let want = vec![
        Some(first),
        Some(first),
        Some(first),
        Some(first),
        Some(first),
        Some(second),
        Some(second),
        Some(third),
        Some(third),
        Some(third),
        Some(third),
        None,
    ];
    assert_eq!(notes_by_tick(&sequence), want);
}

#[test]
fn the_other_patterns() {
    let click = Sequence::gen_pattern(10, soft(0.5));
    assert_eq!(click.length(), 2);
    assert_eq!(click.get_note(1), Some(Note::new(Frequency(Some(1000)), NoteLength::Quarter)));
    let run = Sequence::gen_pattern(11, soft(0.5));
    assert_eq!(run.length(), 8);
    let pitches: Vec<u16> = (1..=8).map(|t| run.get_note(t).unwrap().frequency.0.unwrap()).collect();
    assert_eq!(pitches, vec![831, 740, 622, 554, 466, 415, 370, 311]);
    assert_eq!(run.get_note(9), None);
    for variant in [1u8, 9, 12, 255] {
        let rest = Sequence::gen_pattern(variant, soft(0.5));
        assert_eq!(rest.length(), 4);
        assert_eq!(rest.get_note(0), Some(Note::new(Frequency(None), NoteLength::Half)));
        assert_eq!(rest.get_note(4), Some(Note::new(Frequency(None), NoteLength::Half)));
        assert_eq!(rest.get_note(5), None);
    }
}

#[test]
fn the_longest_variation_fills_the_sequence() {
    let sequence = Sequence::gen_pattern(0, soft(0.55));
    let pitches: Vec<u16> = [1u32, 2, 3, 5, 7, 8, 9, 11]
        .iter()
        .map(|&t| sequence.get_note(t).unwrap().frequency.0.unwrap())
        .collect();
    assert_eq!(pitches, vec![208, 233, 277, 311, 370, 311, 233, 208]);
    assert_eq!(sequence.get_note(12), None);
}

#[test]
fn a_channel_plays_its_pattern_note_by_note() {
    let mut channel = Channel::new(Wave::Pulse1);
    assert_eq!(channel.update(1), None);
    // Half 117, quarter 139, half 156: ten ticks.
    channel.try_set_pattern(Sequence::gen_pattern(0, soft(0.05)));
    let mut heard: Vec<Option<Tone>> = Vec::new();
    for _ in 0..12 {
        heard.push(channel.update(1));
    }
    // A half note is 28 frames: 14 held and 14 released.
    let half = |f: u32| Some(Tone { frequency: f, duration: 14 | (14 << 8), volume: 25, flags: 4 });
    let quarter = |f: u32| Some(Tone { frequency: f, duration: 7 | (7 << 8), volume: 25, flags: 4 });
    // A note that has begun sounds on while more than a tick of it is left,
    // so the next note begins a tick before the note's length is over.
    assert_eq!(
        heard,
        vec![half(117), None, None, None, quarter(139), None, half(156), None, None, None, None, None,]
    );
}

#[test]
fn a_busy_channel_drops_a_new_pattern() {
    let mut channel = Channel::new(Wave::Noise);
    channel.try_set_pattern(Sequence::gen_pattern(10, soft(0.0)));
    channel.try_set_pattern(Sequence::gen_pattern(11, soft(0.0)));
    let first = channel.update(1);
    assert_eq!(first, Some(Tone { frequency: 1000, duration: 7 | (7 << 8), volume: 25, flags: 3 }));
    // The click sounds on for a tick and is dropped at the next; only then
    // is the run taken.
    assert_eq!(channel.update(1), None);
    channel.try_set_pattern(Sequence::gen_pattern(11, soft(0.0)));
    assert_eq!(channel.update(1), None);
    channel.try_set_pattern(Sequence::gen_pattern(11, soft(0.0)));
    let next = channel.update(1);
    assert_eq!(next, Some(Tone { frequency: 831, duration: 3 | (3 << 8), volume: 25, flags: 3 }));
}

#[test]
fn a_rest_makes_no_tone() {
    let mut channel = Channel::new(Wave::Triangle);
    channel.try_set_pattern(Sequence::gen_pattern(0, soft(0.9)));
    assert_eq!(channel.update(1), None);
    assert_eq!(channel.update(1), None);
    let whole = channel.play_note(Frequency(Some(220)), NoteLength::Whole);
    assert_eq!(whole, Some(Tone { frequency: 220, duration: 28 | (28 << 8), volume: 25, flags: 2 }));
    assert_eq!(channel.play_note(Frequency(None), NoteLength::Whole), None);
}

#[test]
fn a_long_step_skips_notes() {
    let mut channel = Channel::new(Wave::Pulse2);
    channel.try_set_pattern(Sequence::gen_pattern(11, soft(0.0)));
    let first = channel.update(3);
    assert_eq!(first, Some(Tone { frequency: 622, duration: 3 | (3 << 8), volume: 25, flags: 5 }));
    let second = channel.update(3);
    assert_eq!(second, Some(Tone { frequency: 415, duration: 3 | (3 << 8), volume: 25, flags: 5 }));
    assert_eq!(channel.update(3), None);
    assert_eq!(channel.update(3), None);
}

#[test]
fn an_arrangement_steps_the_channels_it_has() {
    let mut music = Arrangement::new(
        None,
        Some(Channel::new(Wave::Pulse1)),
        Some(Channel::new(Wave::Pulse2)),
        Some(Channel::new(Wave::Noise)),
    );
    music.try_add_pattern(Wave::Triangle, Sequence::gen_pattern(11, soft(0.0)));
    music.try_add_pattern(Wave::Pulse1, Sequence::gen_pattern(0, soft(0.15)));
    music.try_add_pattern(Wave::Noise, Sequence::gen_pattern(10, soft(0.0)));
    assert!(music.can_update(1));
    let tones = music.update(1);
    assert_eq!(tones[0], None);
    assert_eq!(tones[1], Some(Tone { frequency: 139, duration: 7 | (7 << 8), volume: 25, flags: 4 }));
    assert_eq!(tones[2], None);
    assert_eq!(tones[3], Some(Tone { frequency: 1000, duration: 7 | (7 << 8), volume: 25, flags: 3 }));
    let tones = music.update(1);
    assert_eq!(tones, [None, None, None, None]);
    let tones = music.update(1);
    assert_eq!(tones[1], Some(Tone { frequency: 185, duration: 14 | (14 << 8), volume: 25, flags: 4 }));
    assert_eq!(tones[3], None);
}

#[test]
fn an_arrangement_knows_when_its_clock_would_run_over() {
    let mut music = Arrangement::new(None, None, None, None);
    assert!(music.can_update(u32::MAX));
    music.update(u32::MAX - 1);
    assert!(music.can_update(1));
    assert!(!music.can_update(2));
    music.update(1);
    assert!(!music.can_update(1));
    assert!(music.can_update(0));
}

#[test]
fn a_channel_knows_when_its_clock_would_run_over() {
    let mut channel = Channel::new(Wave::Pulse1);
    assert!(channel.can_update(u32::MAX));
    channel.try_set_pattern(Sequence::gen_pattern(11, soft(0.0)));
    assert!(channel.can_update(u32::MAX));
    channel.update(3);
    assert!(channel.can_update(u32::MAX - 3));
    assert!(!channel.can_update(u32::MAX - 2));
}

#[test]
fn a_copy_of_a_sequence_has_the_same_notes() {
    let sequence = Sequence::gen_pattern(0, soft(0.35));
    let copy = sequence.clone();
    assert_eq!(copy.length(), 12);
    assert_eq!(notes_by_tick(&copy), notes_by_tick(&sequence));
}
