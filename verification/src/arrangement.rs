//! The music sequencer: short note patterns, one channel for each voice of
//! the console, and the arrangement that steps them.
//!
//! Nothing here makes a sound. Stepping a channel returns the tone that is
//! due, if one is, as the four words that the console's tone call takes.

use vstd::prelude::*;
use crate::console::TONE_PULSE1;
use crate::console::TONE_PULSE2;
use crate::console::TONE_TRIANGLE;
use crate::console::TONE_NOISE;
use crate::console::TONE_MODE2;
use crate::console::FRAMES_PER_TICK;
use crate::single::F32;
use crate::common::lit;
use crate::storage::note_items;
use crate::storage::notes_new;
use crate::storage::notes_extend;
use crate::storage::notes_as_slice;

verus! {

/// A voice of the console.
#[derive(Clone, Copy, Debug, PartialEq, Eq, Structural)]
pub enum Wave {
    Pulse1,
    Pulse2,
    Triangle,
    Noise,
}

impl Wave {
    /// The flags word of a tone request for this voice: the channel in the
    /// two low bits, and for the two pulse voices the half duty cycle in the
    /// next two.
    pub open spec fn spec_flags(self) -> u32 {
        match self {
            Wave::Pulse1 => 4,
            Wave::Pulse2 => 5,
            Wave::Triangle => 2,
            Wave::Noise => 3,
        }
    }

    #[verifier::when_used_as_spec(spec_flags)]
    pub fn flags(self) -> (r: u32)
        ensures
            r == self.spec_flags(),
    {
        assert(TONE_PULSE1 | TONE_MODE2 == 4) by (bit_vector);
        assert(TONE_PULSE2 | TONE_MODE2 == 5) by (bit_vector);
        match self {
            Wave::Pulse1 => TONE_PULSE1 | TONE_MODE2,
            Wave::Pulse2 => TONE_PULSE2 | TONE_MODE2,
            Wave::Triangle => TONE_TRIANGLE,
            Wave::Noise => TONE_NOISE,
        }
    }
}

/// How long a note sounds.
#[derive(Clone, Copy, Debug, PartialEq, Eq, Structural)]
pub enum NoteLength {
    Whole,
    Half,
    Quarter,
    QuarterDot,
    Eighth,
}

impl NoteLength {
    /// The length in ticks.
    pub open spec fn spec_value(self) -> u32 {
        match self {
            NoteLength::Whole => 8,
            NoteLength::Half => 4,
            NoteLength::QuarterDot => 3,
            NoteLength::Quarter => 2,
            NoteLength::Eighth => 1,
        }
    }

    #[verifier::when_used_as_spec(spec_value)]
    pub fn value(self) -> (r: u32)
        ensures
            r == self.spec_value(),
    {
        match self {
            NoteLength::Whole => 8,
            NoteLength::Half => 4,
            NoteLength::QuarterDot => 3,
            NoteLength::Quarter => 2,
            NoteLength::Eighth => 1,
        }
    }
}

/// A pitch in hertz, or a rest.
#[derive(Clone, Copy, Debug, PartialEq, Eq, Structural)]
pub struct Frequency(pub Option<u16>);

/// A pitch, or a rest, and its length.
#[derive(Clone, Copy, Debug, PartialEq, Eq, Structural)]
pub struct Note {
    pub frequency: Frequency,
    pub length: NoteLength,
}

impl Note {
    pub fn new(frequency: Frequency, length: NoteLength) -> (r: Note)
        ensures
            r.frequency == frequency,
            r.length == length,
    {
        Note { frequency, length }
    }
}

/// The four words of a tone request.
#[derive(Clone, Copy, Debug, PartialEq, Eq, Structural)]
pub struct Tone {
    /// The first frequency in the low half, the last in the high half.
    pub frequency: u32,
    /// The sustain time in the low byte, the release time in the next.
    pub duration: u32,
    pub volume: u32,
    pub flags: u32,
}

/// Packs a tone request: a slide from `freq_first` to `freq_last`, held for
/// `duration` frames and released over `release` frames, on the voice
/// `instrument`. A missing `freq_last` or `release` counts as 0.
pub fn tone(
    freq_first: u16,
    freq_last: Option<u16>,
    duration: u8,
    release: Option<u8>,
    volume: u32,
    instrument: Wave,
) -> (r: Tone)
    ensures
        r.frequency == freq_first + 0x1_0000 * (match freq_last {
            Some(f) => f,
            None => 0u16,
        }),
        r.duration == duration + 0x100 * (match release {
            Some(t) => t,
            None => 0u8,
        }),
        r.volume == volume,
        r.flags == instrument.spec_flags(),
{
    let last: u32 = match freq_last {
        Some(f) => f as u32,
        None => 0,
    };
    let rel: u32 = match release {
        Some(t) => t as u32,
        None => 0,
    };
    let first: u32 = freq_first as u32;
    let hold: u32 = duration as u32;
    assert(first | (last << 16) == first + 0x1_0000 * last) by (bit_vector)
        requires
            first < 0x1_0000,
            last < 0x1_0000,
    ;
    assert(hold | (rel << 8) == hold + 0x100 * rel) by (bit_vector)
        requires
            hold < 0x100,
            rel < 0x100,
    ;
    Tone {
        frequency: first | (last << 16),
        duration: hold | (rel << 8),
        volume,
        flags: instrument.flags(),
    }
}

/// 0.1, and so on to 0.8: the ends of the ranges of the first pattern's
/// variations.
pub const TENTH_1: u32 = 0x3dcc_cccd;

pub const TENTH_2: u32 = 0x3e4c_cccd;

pub const TENTH_3: u32 = 0x3e99_999a;

pub const TENTH_4: u32 = 0x3ecc_cccd;

pub const TENTH_5: u32 = 0x3f00_0000;

pub const TENTH_6: u32 = 0x3f19_999a;

pub const TENTH_7: u32 = 0x3f33_3333;

pub const TENTH_8: u32 = 0x3f4c_cccd;

/// The note of `frequency` hertz and of the length `length`.
pub open spec fn note(frequency: u16, length: NoteLength) -> Note {
    Note { frequency: Frequency(Some(frequency)), length }
}

/// The rest of the length `length`.
pub open spec fn rest(length: NoteLength) -> Note {
    Note { frequency: Frequency(None), length }
}

/// The ticks that the first `n` of `notes` take.
pub open spec fn ticks(notes: Seq<Note>, n: nat) -> nat
    decreases n,
{
    if n == 0 {
        0
    } else {
        ticks(notes, (n - 1) as nat) + notes[n - 1].length.spec_value() as nat
    }
}

/// The notes of the pattern `variant`. Pattern 0 has nine variations, one
/// for each tenth that `random_value` falls in and one for all above 0.8;
/// patterns 10 and 11 are a click and a falling run; every other pattern is
/// a rest.
pub open spec fn pattern(variant: u8, random_value: F32) -> Seq<Note> {
    if variant == 0 {
        if random_value < lit(TENTH_1) {
            seq![
                note(117, NoteLength::Half),
                note(139, NoteLength::Quarter),
                note(156, NoteLength::Half),
            ]
        } else if random_value < lit(TENTH_2) {
            seq![note(139, NoteLength::Quarter), note(185, NoteLength::Half)]
        } else if random_value < lit(TENTH_3) {
            seq![
                note(185, NoteLength::Quarter),
                note(208, NoteLength::Quarter),
                note(156, NoteLength::Half),
            ]
        } else if random_value < lit(TENTH_4) {
            seq![
                note(139, NoteLength::Quarter),
                note(117, NoteLength::Half),
                note(117, NoteLength::Quarter),
                rest(NoteLength::Quarter),
                note(157, NoteLength::Quarter),
            ]
        } else if random_value < lit(TENTH_5) {
            seq![
                rest(NoteLength::Quarter),
                note(156, NoteLength::Quarter),
                note(139, NoteLength::Half),
            ]
        } else if random_value < lit(TENTH_6) {
            seq![
                note(208, NoteLength::Eighth),
                note(233, NoteLength::Eighth),
                note(277, NoteLength::Quarter),
                note(311, NoteLength::Quarter),
                note(370, NoteLength::Eighth),
                note(311, NoteLength::Eighth),
                note(233, NoteLength::Quarter),
                note(208, NoteLength::Eighth),
            ]
        } else if random_value < lit(TENTH_7) {
            seq![
                note(208, NoteLength::Quarter),
                note(156, NoteLength::Quarter),
                note(185, NoteLength::Quarter),
                note(139, NoteLength::Half),
            ]
        } else if random_value < lit(TENTH_8) {
            seq![
                note(117, NoteLength::Quarter),
                note(139, NoteLength::Half),
                note(156, NoteLength::Quarter),
                note(185, NoteLength::Half),
            ]
        } else {
            seq![rest(NoteLength::Quarter)]
        }
    } else if variant == 10 {
        seq![note(1000, NoteLength::Quarter)]
    } else if variant == 11 {
        seq![
            note(831, NoteLength::Eighth),
            note(740, NoteLength::Eighth),
            note(622, NoteLength::Eighth),
            note(554, NoteLength::Eighth),
            note(466, NoteLength::Eighth),
            note(415, NoteLength::Eighth),
            note(370, NoteLength::Eighth),
            note(311, NoteLength::Eighth),
        ]
    } else {
        seq![rest(NoteLength::Half)]
    }
}

/// The place in `notes` of the note that sounds when `time` ticks have
/// passed: the first by whose end `time` ticks have passed, and the first of
/// all at the time 0.
pub open spec fn sounds_at(notes: Seq<Note>, time: u32, i: int) -> bool {
    0 <= i < notes.len() && ticks(notes, i as nat) < (if time == 0 {
        1u32
    } else {
        time
    }) <= ticks(notes, (i + 1) as nat)
}

/// The note that sounds when `time` ticks of `notes` have passed.
pub open spec fn sounding(notes: Seq<Note>, time: u32) -> Note
    recommends
        notes.len() > 0,
        time <= ticks(notes, notes.len()),
{
    notes[choose|i: int| sounds_at(notes, time, i)]
}

/// The note that sounds when `time` ticks of `notes` have passed, if they
/// are not over by then.
pub open spec fn note_at(notes: Seq<Note>, time: u32) -> Option<Note> {
    if notes.len() > 0 && time <= ticks(notes, notes.len()) {
        Some(sounding(notes, time))
    } else {
        None
    }
}

/// The ticks of more notes are more.
pub proof fn lemma_ticks_grow(notes: Seq<Note>, a: nat, b: nat)
    requires
        a <= b,
    ensures
        ticks(notes, a) <= ticks(notes, b),
        a < b ==> ticks(notes, a) < ticks(notes, b),
    decreases b,
{
    if a < b {
        lemma_ticks_grow(notes, a, (b - 1) as nat);
    }
}

/// At any time one note sounds at most.
pub proof fn lemma_one_note_sounds(notes: Seq<Note>, time: u32, i: int)
    requires
        sounds_at(notes, time, i),
    ensures
        sounding(notes, time) == notes[i],
{
    let j = choose|j: int| sounds_at(notes, time, j);
    if i < j {
        lemma_ticks_grow(notes, (i + 1) as nat, j as nat);
    }
    if j < i {
        lemma_ticks_grow(notes, (j + 1) as nat, i as nat);
    }
}

/// Up to eight notes to be played one after the other.
pub struct Sequence {
    notes: heapless::Vec<Note, 8>,
}

impl View for Sequence {
    type V = Seq<Note>;

    closed spec fn view(&self) -> Seq<Note> {
        note_items(self.notes)
    }
}

impl Clone for Sequence {
    /// A sequence of the same notes.
    fn clone(&self) -> (r: Sequence)
        ensures
            r@ == self@,
    {
        Sequence::of(notes_as_slice(&self.notes))
    }
}

fn pitch(frequency: u16, length: NoteLength) -> (r: Note)
    ensures
        r == note(frequency, length),
{
    Note::new(Frequency(Some(frequency)), length)
}

fn pause(length: NoteLength) -> (r: Note)
    ensures
        r == rest(length),
{
    Note::new(Frequency(None), length)
}

impl Sequence {
    /// The sequence of the notes of `other`, which are eight at most.
    fn of(other: &[Note]) -> (r: Sequence)
        requires
            other@.len() <= 8,
        ensures
            r@ == other@,
    {
        let mut notes = notes_new();
        let _ = notes_extend(&mut notes, other);
        assert(Seq::<Note>::empty() + other@ =~= other@);
        Sequence { notes }
    }

    /// The ticks that the whole sequence takes.
    pub fn length(&self) -> (r: u32)
        ensures
            r == ticks(self@, self@.len()),
    {
        let notes = notes_as_slice(&self.notes);
        let mut total: u32 = 0;
        let mut i: usize = 0;
        while i < notes.len()
            invariant
                i <= notes@.len() <= 8,
                total == ticks(notes@, i as nat),
                total <= 8 * i,
            decreases notes@.len() - i,
        {
            total = total + notes[i].length.value();
            i = i + 1;
        }
        total
    }

    /// The note that sounds when `time` ticks of the sequence have passed:
    /// the first note by whose end `time` ticks have passed, and the first
    /// note of all at the time 0. There is none once the sequence is over.
    pub fn get_note(&self, time: u32) -> (r: Option<Note>)
        ensures
            r == note_at(self@, time),
    {
        let notes = notes_as_slice(&self.notes);
        if time == 0 {
            if notes.len() > 0 {
                proof {
                    assert(ticks(notes@, 0) == 0);
                    assert(ticks(notes@, 1) == ticks(notes@, 0) + notes@[0].length.spec_value());
                    lemma_one_note_sounds(notes@, time, 0);
                }
                return Some(notes[0]);
            }
            return None;
        }
        let mut counter: u32 = 0;
        let mut i: usize = 0;
        while i < notes.len()
            invariant
                i <= notes@.len() <= 8,
                counter == ticks(notes@, i as nat),
                counter <= 8 * i,
                counter < time,
                notes@ == self@,
            decreases notes@.len() - i,
        {
            counter = counter + notes[i].length.value();
            if counter >= time {
                proof {
                    lemma_ticks_grow(notes@, (i + 1) as nat, notes@.len());
                    lemma_one_note_sounds(notes@, time, i as int);
                }
                return Some(notes[i]);
            }
            i = i + 1;
        }
        None
    }

    /// The pattern `variant`, in the variation that `random_value` picks.
    pub fn gen_pattern(variant: u8, random_value: F32) -> (r: Sequence)
        ensures
            r@ == pattern(variant, random_value),
    {
        if variant == 0 {
            if random_value < lit(TENTH_1) {
                let notes = [
                    pitch(117, NoteLength::Half),
                    pitch(139, NoteLength::Quarter),
                    pitch(156, NoteLength::Half),
                ];
                assert(notes@ =~= pattern(variant, random_value));
                Sequence::of(notes.as_slice())
            } else if random_value < lit(TENTH_2) {
                let notes = [pitch(139, NoteLength::Quarter), pitch(185, NoteLength::Half)];
                assert(notes@ =~= pattern(variant, random_value));
                Sequence::of(notes.as_slice())
            } else if random_value < lit(TENTH_3) {
                let notes = [
                    pitch(185, NoteLength::Quarter),
                    pitch(208, NoteLength::Quarter),
                    pitch(156, NoteLength::Half),
                ];
                assert(notes@ =~= pattern(variant, random_value));
                Sequence::of(notes.as_slice())
            } else if random_value < lit(TENTH_4) {
                let notes = [
                    pitch(139, NoteLength::Quarter),
                    pitch(117, NoteLength::Half),
                    pitch(117, NoteLength::Quarter),
                    pause(NoteLength::Quarter),
                    pitch(157, NoteLength::Quarter),
                ];
                assert(notes@ =~= pattern(variant, random_value));
                Sequence::of(notes.as_slice())
            } else if random_value < lit(TENTH_5) {
                let notes = [
                    pause(NoteLength::Quarter),
                    pitch(156, NoteLength::Quarter),
                    pitch(139, NoteLength::Half),
                ];
                assert(notes@ =~= pattern(variant, random_value));
                Sequence::of(notes.as_slice())
            } else if random_value < lit(TENTH_6) {
                let notes = [
                    pitch(208, NoteLength::Eighth),
                    pitch(233, NoteLength::Eighth),
                    pitch(277, NoteLength::Quarter),
                    pitch(311, NoteLength::Quarter),
                    pitch(370, NoteLength::Eighth),
                    pitch(311, NoteLength::Eighth),
                    pitch(233, NoteLength::Quarter),
                    pitch(208, NoteLength::Eighth),
                ];
                assert(notes@ =~= pattern(variant, random_value));
                Sequence::of(notes.as_slice())
            } else if random_value < lit(TENTH_7) {
                let notes = [
                    pitch(208, NoteLength::Quarter),
                    pitch(156, NoteLength::Quarter),
                    pitch(185, NoteLength::Quarter),
                    pitch(139, NoteLength::Half),
                ];
                assert(notes@ =~= pattern(variant, random_value));
                Sequence::of(notes.as_slice())
            } else if random_value < lit(TENTH_8) {
                let notes = [
                    pitch(117, NoteLength::Quarter),
                    pitch(139, NoteLength::Half),
                    pitch(156, NoteLength::Quarter),
                    pitch(185, NoteLength::Half),
                ];
                assert(notes@ =~= pattern(variant, random_value));
                Sequence::of(notes.as_slice())
            } else {
                let notes = [pause(NoteLength::Quarter)];
                assert(notes@ =~= pattern(variant, random_value));
                Sequence::of(notes.as_slice())
            }
        } else if variant == 10 {
            let notes = [pitch(1000, NoteLength::Quarter)];
            assert(notes@ =~= pattern(variant, random_value));
            Sequence::of(notes.as_slice())
        } else if variant == 11 {
            let notes = [
                pitch(831, NoteLength::Eighth),
                pitch(740, NoteLength::Eighth),
                pitch(622, NoteLength::Eighth),
                pitch(554, NoteLength::Eighth),
                pitch(466, NoteLength::Eighth),
                pitch(415, NoteLength::Eighth),
                pitch(370, NoteLength::Eighth),
                pitch(311, NoteLength::Eighth),
            ];
            assert(notes@ =~= pattern(variant, random_value));
            Sequence::of(notes.as_slice())
        } else {
            let notes = [pause(NoteLength::Half)];
            assert(notes@ =~= pattern(variant, random_value));
            Sequence::of(notes.as_slice())
        }
    }
}

/// The volume that every note is played at.
pub const VOLUME: u32 = 25;

/// A voice and the pattern that it is playing, if any.
pub struct Channel {
    time: u32,
    wait_time: u32,
    pattern: Option<Sequence>,
    instrument: Wave,
}

/// What a `Channel` holds.
pub struct ChannelView {
    /// The ticks that have passed of the pattern.
    pub time: u32,
    /// The ticks that the sounding note has left.
    pub wait_time: u32,
    pub pattern: Option<Seq<Note>>,
    pub instrument: Wave,
}

impl View for Channel {
    type V = ChannelView;

    closed spec fn view(&self) -> ChannelView {
        ChannelView {
            time: self.time,
            wait_time: self.wait_time,
            pattern: match self.pattern {
                Some(sequence) => Some(sequence@),
                None => None,
            },
            instrument: self.instrument,
        }
    }
}

/// The tone that plays `note` on the voice `instrument`, if it is no rest:
/// it is held for half of the note's frames, released over the other half,
/// and never longer than 255 frames in all.
pub open spec fn played(note: Note, instrument: Wave) -> Option<Tone> {
    let frames = if FRAMES_PER_TICK * note.length.spec_value() < 255 {
        FRAMES_PER_TICK * note.length.spec_value()
    } else {
        255
    };
    match note.frequency.0 {
        Some(frequency) => Some(
            Tone {
                frequency: frequency as u32,
                duration: (frames / 2 + 0x100 * (frames / 2)) as u32,
                volume: VOLUME,
                flags: instrument.spec_flags(),
            },
        ),
        None => None,
    }
}

impl ChannelView {
    /// The channel `delta_time` ticks later. A channel without a pattern
    /// stays as it is. With one, the time goes on; while the sounding note
    /// has more than `delta_time` left, it goes on sounding; at the end of
    /// the pattern, the pattern is dropped; and else the next note begins.
    pub open spec fn stepped(self, delta_time: u32) -> ChannelView {
        match self.pattern {
            None => self,
            Some(notes) => {
                let time = (self.time + delta_time) as u32;
                if self.wait_time > delta_time {
                    ChannelView { time, wait_time: (self.wait_time - delta_time) as u32, ..self }
                } else if time >= ticks(notes, notes.len()) {
                    ChannelView { time: 0, wait_time: 0, pattern: None, ..self }
                } else {
                    ChannelView {
                        time,
                        wait_time: sounding(notes, time).length.spec_value(),
                        ..self
                    }
                }
            },
        }
    }

    /// The tone that begins as the channel goes on by `delta_time` ticks.
    pub open spec fn begun(self, delta_time: u32) -> Option<Tone> {
        match self.pattern {
            None => None,
            Some(notes) => {
                let time = (self.time + delta_time) as u32;
                if self.wait_time <= delta_time && time < ticks(notes, notes.len()) {
                    played(sounding(notes, time), self.instrument)
                } else {
                    None
                }
            },
        }
    }

    /// The clock of a channel that is playing can go on by `delta_time`
    /// ticks without running over.
    pub open spec fn can_step(self, delta_time: u32) -> bool {
        self.pattern.is_some() ==> self.time + delta_time <= u32::MAX
    }

    /// The channel after `pattern` has been offered to it: it takes the
    /// pattern where it has none, from the beginning.
    pub open spec fn offered(self, pattern: Seq<Note>) -> ChannelView {
        match self.pattern {
            None => ChannelView { pattern: Some(pattern), ..self },
            Some(_) => self,
        }
    }
}

impl Channel {
    pub fn new(instrument: Wave) -> (r: Channel)
        ensures
            r@ == (ChannelView { time: 0, wait_time: 0, pattern: None, instrument }),
    {
        Channel { time: 0, wait_time: 0, pattern: None, instrument }
    }

    /// Offers a pattern, which is dropped where the channel is busy.
    pub fn try_set_pattern(&mut self, pattern: Sequence)
        ensures
            final(self)@ == old(self)@.offered(pattern@),
    {
        if self.pattern.is_none() {
            self.pattern = Some(pattern);
        }
    }

    /// Whether `update` can go on by `delta_time` ticks.
    pub fn can_update(&self, delta_time: u32) -> (r: bool)
        ensures
            r == self@.can_step(delta_time),
    {
        self.pattern.is_none() || self.time <= u32::MAX - delta_time
    }

    /// Goes on by `delta_time` ticks and returns the tone to play, where a
    /// note begins that is no rest.
    pub fn update(&mut self, delta_time: u32) -> (r: Option<Tone>)
        requires
            old(self)@.can_step(delta_time),
        ensures
            final(self)@ == old(self)@.stepped(delta_time),
            r == old(self)@.begun(delta_time),
    {
        let mut tone: Option<Tone> = None;
        let mut over = false;
        if let Some(pattern) = &self.pattern {
            self.time += delta_time;
            if self.wait_time > delta_time {
                self.wait_time -= delta_time;
            } else if self.time >= pattern.length() {
                over = true;
            } else {
                match pattern.get_note(self.time) {
                    Some(note) => {
                        self.wait_time = note.length.value();
                        tone = self.play_note(note.frequency, note.length);
                    },
                    None => {},
                }
            }
        }
        if over {
            self.pattern = None;
            self.time = 0;
            self.wait_time = 0;
        }
        tone
    }

    /// The tone that plays a note of the pitch `frequency` and of the
    /// length `length` on this channel's voice; none for a rest.
    pub fn play_note(&self, frequency: Frequency, length: NoteLength) -> (r: Option<Tone>)
        ensures
            r == played(Note { frequency, length }, self@.instrument),
    {
        let frames: u32 = (FRAMES_PER_TICK as u32) * length.value();
        let len: u8 = if frames < 255 {
            frames as u8
        } else {
            255
        };
        if let Some(frequency) = frequency.0 {
            Some(tone(frequency, None, len / 2, Some(len / 2), VOLUME, self.instrument))
        } else {
            None
        }
    }
}

/// The four voices of the console, each with a channel or without.
pub struct Arrangement {
    time: u32,
    triangle: Option<Channel>,
    square1: Option<Channel>,
    square2: Option<Channel>,
    noise: Option<Channel>,
}

/// What an `Arrangement` holds.
pub struct ArrangementView {
    pub time: u32,
    pub triangle: Option<ChannelView>,
    pub square1: Option<ChannelView>,
    pub square2: Option<ChannelView>,
    pub noise: Option<ChannelView>,
}

/// What a channel that may be missing holds.
pub open spec fn seen(channel: Option<Channel>) -> Option<ChannelView> {
    match channel {
        Some(channel) => Some(channel@),
        None => None,
    }
}

/// A channel that may be missing, after `pattern` has been offered to it.
pub open spec fn slot_offered(channel: Option<ChannelView>, pattern: Seq<Note>) -> Option<
    ChannelView,
> {
    match channel {
        Some(channel) => Some(channel.offered(pattern)),
        None => None,
    }
}

/// A channel that may be missing, `delta_time` ticks later.
pub open spec fn slot_stepped(channel: Option<ChannelView>, delta_time: u32) -> Option<
    ChannelView,
> {
    match channel {
        Some(channel) => Some(channel.stepped(delta_time)),
        None => None,
    }
}

/// The tone that begins on a channel that may be missing.
pub open spec fn slot_begun(channel: Option<ChannelView>, delta_time: u32) -> Option<Tone> {
    match channel {
        Some(channel) => channel.begun(delta_time),
        None => None,
    }
}

/// The time of a channel that is playing, and 0 for every other.
pub open spec fn slot_time(channel: Option<ChannelView>) -> int {
    match channel {
        Some(channel) => if channel.pattern.is_some() {
            channel.time as int
        } else {
            0
        },
        None => 0,
    }
}

impl View for Arrangement {
    type V = ArrangementView;

    closed spec fn view(&self) -> ArrangementView {
        ArrangementView {
            time: self.time,
            triangle: seen(self.triangle),
            square1: seen(self.square1),
            square2: seen(self.square2),
            noise: seen(self.noise),
        }
    }
}

impl ArrangementView {
    /// The arrangement after `pattern` has been offered to the channel of
    /// the voice `channel`.
    pub open spec fn offered(self, channel: Wave, pattern: Seq<Note>) -> ArrangementView {
        match channel {
            Wave::Triangle => ArrangementView {
                triangle: slot_offered(self.triangle, pattern),
                ..self
            },
            Wave::Pulse1 => ArrangementView {
                square1: slot_offered(self.square1, pattern),
                ..self
            },
            Wave::Pulse2 => ArrangementView {
                square2: slot_offered(self.square2, pattern),
                ..self
            },
            Wave::Noise => ArrangementView { noise: slot_offered(self.noise, pattern), ..self },
        }
    }

    /// The arrangement `delta_time` ticks later.
    pub open spec fn stepped(self, delta_time: u32) -> ArrangementView {
        ArrangementView {
            time: (self.time + delta_time) as u32,
            triangle: slot_stepped(self.triangle, delta_time),
            square1: slot_stepped(self.square1, delta_time),
            square2: slot_stepped(self.square2, delta_time),
            noise: slot_stepped(self.noise, delta_time),
        }
    }

    /// The tones that begin as the arrangement goes on by `delta_time`
    /// ticks: that of the triangle, of the two pulses, and of the noise.
    pub open spec fn begun(self, delta_time: u32) -> Seq<Option<Tone>> {
        seq![
            slot_begun(self.triangle, delta_time),
            slot_begun(self.square1, delta_time),
            slot_begun(self.square2, delta_time),
            slot_begun(self.noise, delta_time),
        ]
    }

    /// The arrangement and each of its playing channels can go on by
    /// `delta_time` ticks without their clocks running over.
    pub open spec fn can_step(self, delta_time: u32) -> bool {
        &&& self.time + delta_time <= u32::MAX
        &&& slot_time(self.triangle) + delta_time <= u32::MAX
        &&& slot_time(self.square1) + delta_time <= u32::MAX
        &&& slot_time(self.square2) + delta_time <= u32::MAX
        &&& slot_time(self.noise) + delta_time <= u32::MAX
    }
}

impl Arrangement {
    pub fn new(
        triangle: Option<Channel>,
        square1: Option<Channel>,
        square2: Option<Channel>,
        noise: Option<Channel>,
    ) -> (r: Arrangement)
        ensures
            r@ == (ArrangementView {
                time: 0,
                triangle: seen(triangle),
                square1: seen(square1),
                square2: seen(square2),
                noise: seen(noise),
            }),
    {
        Arrangement { time: 0, triangle, square1, square2, noise }
    }

    /// Offers a pattern to the channel of the voice `channel`. It is
    /// dropped where that channel is missing or busy.
    pub fn try_add_pattern(&mut self, channel: Wave, pattern: Sequence)
        ensures
            final(self)@ == old(self)@.offered(channel, pattern@),
    {
        match channel {
            Wave::Triangle => {
                if let Some(triangle) = &mut self.triangle {
                    triangle.try_set_pattern(pattern);
                }
            },
            Wave::Pulse1 => {
                if let Some(square1) = &mut self.square1 {
                    square1.try_set_pattern(pattern);
                }
            },
            Wave::Pulse2 => {
                if let Some(square2) = &mut self.square2 {
                    square2.try_set_pattern(pattern);
                }
            },
            Wave::Noise => {
                if let Some(noise) = &mut self.noise {
                    noise.try_set_pattern(pattern);
                }
            },
        }
    }

    /// Whether `update` can go on by `delta_time` ticks.
    pub fn can_update(&self, delta_time: u32) -> (r: bool)
        ensures
            r == self@.can_step(delta_time),
    {
        let room = u32::MAX - delta_time;
        self.time <= room && Arrangement::has_room(&self.triangle, room) && Arrangement::has_room(
            &self.square1,
            room,
        ) && Arrangement::has_room(&self.square2, room) && Arrangement::has_room(&self.noise, room)
    }

    fn has_room(channel: &Option<Channel>, room: u32) -> (r: bool)
        ensures
            r == (slot_time(seen(*channel)) <= room),
    {
        match channel {
            Some(channel) => channel.pattern.is_none() || channel.time <= room,
            None => true,
        }
    }

    /// Goes on by `delta_time` ticks and returns the tones to play: that of
    /// the triangle, of the two pulses, and of the noise.
    pub fn update(&mut self, delta_time: u32) -> (r: [Option<Tone>; 4])
        requires
            old(self)@.can_step(delta_time),
        ensures
            final(self)@ == old(self)@.stepped(delta_time),
            r@ == old(self)@.begun(delta_time),
    {
        self.time += delta_time;
        let mut first: Option<Tone> = None;
        let mut second: Option<Tone> = None;
        let mut third: Option<Tone> = None;
        let mut fourth: Option<Tone> = None;
        if let Some(triangle) = &mut self.triangle {
            first = triangle.update(delta_time);
        }
        if let Some(square1) = &mut self.square1 {
            second = square1.update(delta_time);
        }
        if let Some(square2) = &mut self.square2 {
            third = square2.update(delta_time);
        }
        if let Some(noise) = &mut self.noise {
            fourth = noise.update(delta_time);
        }
        let r = [first, second, third, fourth];
        assert(r@ =~= old(self)@.begun(delta_time));
        r
    }
}

} // verus!
