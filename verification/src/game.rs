//! One frame of the game: the music goes on, the pointer and the gamepad are
//! read, the world takes a tick and is drawn.

use vstd::prelude::*;
use crate::arrangement::Arrangement;
use crate::arrangement::ArrangementView;
use crate::arrangement::Channel;
use crate::arrangement::ChannelView;
use crate::arrangement::Sequence;
use crate::arrangement::Tone;
use crate::arrangement::Wave;
use crate::arrangement::pattern;
use crate::console::FRAMES_PER_TICK;
use crate::console::MOUSE_LEFT;
use crate::common::lit;
use crate::gfx::Screen;
use crate::player::Line;
use crate::player::RESTITUTION;
use crate::random::seeded;
use crate::random::next_word;
use crate::random::spec_unit;
use crate::random::unit;
use crate::world::COUPLING;
use crate::world::Draws;
use crate::world::World;
use crate::world::WorldView;

verus! {

/// The frames in a second.
pub const FRAMES_PER_SECOND: u32 = 60;

/// The world, the music, and the number of frames that have passed.
pub struct Game {
    world: World,
    music: Arrangement,
    frame_count: u32,
}

/// What a `Game` holds.
pub struct GameView {
    pub world: WorldView,
    pub music: ArrangementView,
    pub frame_count: u32,
}

impl View for Game {
    type V = GameView;

    closed spec fn view(&self) -> GameView {
        GameView { world: self.world@, music: self.music@, frame_count: self.frame_count }
    }
}

/// What a frame hands to the console beside the screen.
pub struct Frame {
    /// The tones to play: that of the triangle, of the two pulses, and of
    /// the noise.
    pub tones: [Option<Tone>; 4],
    /// The lines of the ship, to be drawn over the screen.
    pub ship: [Line; 4],
}

impl GameView {
    /// A new game: a new world, silent channels for the two pulses and the
    /// noise, none for the triangle, and no frame played.
    pub open spec fn fresh() -> GameView {
        GameView {
            world: WorldView::fresh(lit(COUPLING), lit(RESTITUTION)),
            music: ArrangementView {
                time: 0,
                triangle: None,
                square1: Some(
                    ChannelView { time: 0, wait_time: 0, pattern: None, instrument: Wave::Pulse1 },
                ),
                square2: Some(
                    ChannelView { time: 0, wait_time: 0, pattern: None, instrument: Wave::Pulse2 },
                ),
                noise: Some(
                    ChannelView { time: 0, wait_time: 0, pattern: None, instrument: Wave::Noise },
                ),
            },
            frame_count: 0,
        }
    }

    /// The music after this frame: the melody is offered to the first
    /// pulse, every `FRAMES_PER_TICK` frames the music goes on by a tick
    /// where its clocks have room for it, and a pressed pointer offers a
    /// click to the noise.
    pub open spec fn music_after(self, buttons: u8, word: u32) -> ArrangementView {
        let offered = self.music.offered(Wave::Pulse1, pattern(0, spec_unit(word)));
        let stepped = if self.frame_count % (FRAMES_PER_TICK as u32) == 0 && offered.can_step(1) {
            offered.stepped(1)
        } else {
            offered
        };
        if buttons & MOUSE_LEFT == 0 {
            stepped
        } else {
            stepped.offered(Wave::Noise, pattern(10, spec_unit(word)))
        }
    }

    /// The tones that this frame begins.
    pub open spec fn tones(self, word: u32) -> Seq<Option<Tone>> {
        let offered = self.music.offered(Wave::Pulse1, pattern(0, spec_unit(word)));
        if self.frame_count % (FRAMES_PER_TICK as u32) == 0 && offered.can_step(1) {
            offered.begun(1)
        } else {
            seq![None, None, None, None]
        }
    }

    /// The world after the pointer has been read: a released pointer is
    /// forgotten, a pressed one is a click where it is new.
    pub open spec fn pointed(self, mouse: (i16, i16), buttons: u8) -> WorldView {
        if buttons & MOUSE_LEFT == 0 {
            WorldView { mouse_clicked: false, ..self.world }
        } else {
            self.world.clicked(mouse)
        }
    }

    /// The world after this frame.
    pub open spec fn world_after(
        self,
        gamepad: u8,
        mouse: (i16, i16),
        buttons: u8,
        draws: Draws,
    ) -> WorldView {
        self.pointed(mouse, buttons).ticked(self.frame_count / FRAMES_PER_SECOND, gamepad, draws)
    }
}

impl Game {
    /// A new game: a new world, and music for the two pulses and the noise.
    pub fn new() -> (r: Game)
        ensures
            r@ == GameView::fresh(),
            r@.world.wf(),
    {
        Game {
            world: World::new(),
            music: Arrangement::new(
                None,
                Some(Channel::new(Wave::Pulse1)),
                Some(Channel::new(Wave::Pulse2)),
                Some(Channel::new(Wave::Noise)),
            ),
            frame_count: 0,
        }
    }

    /// Plays one frame with the gamepad byte `gamepad`, the pointer at
    /// `mouse` and the byte `buttons` of its buttons, and draws the world
    /// onto `screen`. The frame counter starts over after its last value.
    pub fn frame(
        &mut self,
        gamepad: u8,
        mouse: (i16, i16),
        buttons: u8,
        screen: &mut Screen,
    ) -> (r: Frame)
        ensures
            final(self)@.world.wf(),
            final(self)@.frame_count == if old(self)@.frame_count == u32::MAX {
                0
            } else {
                old(self)@.frame_count + 1
            },
            exists|word: u32|
                final(self)@.music == #[trigger] old(self)@.music_after(buttons, word) && r.tones@
                    == old(self)@.tones(word),
            exists|draws: Draws|
                final(self)@.world == #[trigger] old(self)@.world_after(
                    gamepad,
                    mouse,
                    buttons,
                    draws,
                ),
            final(screen)@ == final(self)@.world.rendered(old(screen)@),
            r.ship@ == final(self)@.world.player.flag(&final(self)@.world.view),
    {
        let time = self.frame_count / FRAMES_PER_SECOND;
        let mut random = seeded(self.frame_count as u64);
        let word = next_word(&mut random);
        self.music.try_add_pattern(Wave::Pulse1, Sequence::gen_pattern(0, unit(word)));
        let mut tones: [Option<Tone>; 4] = [None, None, None, None];
        if self.frame_count % (FRAMES_PER_TICK as u32) == 0 && self.music.can_update(1) {
            tones = self.music.update(1);
        }
        assert(tones@ =~= old(self)@.tones(word));
        if buttons & MOUSE_LEFT == 0 {
            self.world.mouse_release();
        } else {
            self.world.mouse_click(mouse);
            let again = next_word(&mut random);
            self.music.try_add_pattern(Wave::Noise, Sequence::gen_pattern(10, unit(again)));
            assert(pattern(10, spec_unit(again)) == pattern(10, spec_unit(word)));
        }
        assert(self.world@ == old(self)@.pointed(mouse, buttons));
        assert(self.music@ == old(self)@.music_after(buttons, word));
        self.world.update(time, gamepad, self.frame_count);
        let ship = self.world.draw(screen);
        self.frame_count = self.frame_count.wrapping_add(1);
        proof {
            let draws = choose|draws: Draws|
                self.world@ == old(self)@.pointed(mouse, buttons).ticked(time, gamepad, draws);
            assert(self.world@ == old(self)@.world_after(gamepad, mouse, buttons, draws));
            assert(self.music@ == old(self)@.music_after(buttons, word));
        }
        Frame { tones, ship }
    }

    /// The number of frames that have passed.
    pub fn frame_count(&self) -> (r: u32)
        ensures
            r == self@.frame_count,
    {
        self.frame_count
    }

    /// The world.
    pub fn world(&self) -> (r: &World)
        ensures
            r@ == self@.world,
    {
        &self.world
    }
}

} // verus!
