//! The dithering rasterizer: brightness to one of four palette entries by
//! an ordered dither, and the entry into the packed framebuffer.

use vstd::prelude::*;
use crate::single::F32;
use crate::common::Vec2;
use crate::common::ZERO;
use crate::common::lit;
use crate::common::spec_map;

verus! {

/// The display: the register that selects the palette entry of the next
/// pixel, and the framebuffer, four pixels of two bits in each byte.
pub struct Screen {
    pub draw_colors: u16,
    pub framebuffer: [u8; 6400],
}

/// What a `Screen` holds.
pub struct ScreenView {
    pub draw_colors: u16,
    pub framebuffer: Seq<u8>,
}

impl View for Screen {
    type V = ScreenView;

    open spec fn view(&self) -> ScreenView {
        ScreenView { draw_colors: self.draw_colors, framebuffer: self.framebuffer@ }
    }
}

/// The order in which the nine places of the dither pattern are lit.
pub open spec fn dispersed(i: int) -> int {
    if i == 0 {
        1
    } else if i == 1 {
        7
    } else if i == 2 {
        4
    } else if i == 3 {
        5
    } else if i == 4 {
        8
    } else if i == 5 {
        3
    } else if i == 6 {
        6
    } else if i == 7 {
        2
    } else {
        9
    }
}

/// The brightness, within its band, from which the pixel at `(x, y)` takes
/// the next band's colour.
pub open spec fn threshold(x: int, y: int) -> int {
    dispersed((x - 3 * y) % 9) * 9
}

/// The colour band, 0 to 3, that `brightness` takes at `(x, y)`: three bands
/// are 85 wide, and a pixel goes one band up where what is left over of the
/// brightness reaches the pixel's threshold.
pub open spec fn band(x: int, y: int, brightness: int) -> int {
    brightness / 85 + if brightness % 85 >= threshold(x, y) {
        1int
    } else {
        0int
    }
}

/// The colour of the pixel `slot` of `byte`.
pub open spec fn pixel_of(byte: int, slot: int) -> int {
    if slot == 0 {
        byte % 4
    } else if slot == 1 {
        (byte / 4) % 4
    } else if slot == 2 {
        (byte / 16) % 4
    } else {
        (byte / 64) % 4
    }
}

/// `byte` with the pixel `slot` set to `color` and the other three kept.
pub open spec fn with_pixel(byte: int, slot: int, color: int) -> int {
    if slot == 0 {
        byte + (color - pixel_of(byte, 0))
    } else if slot == 1 {
        byte + 4 * (color - pixel_of(byte, 1))
    } else if slot == 2 {
        byte + 16 * (color - pixel_of(byte, 2))
    } else {
        byte + 64 * (color - pixel_of(byte, 3))
    }
}

/// The framebuffer with the pixel at `(x, y)` set to `color`. Pixels are
/// counted row by row, 160 to a row; a position past the last byte changes
/// nothing.
pub open spec fn plotted(framebuffer: Seq<u8>, x: int, y: int, color: int) -> Seq<u8> {
    let idx = (y * 160 + x) / 4;
    if idx < framebuffer.len() {
        framebuffer.update(idx, with_pixel(framebuffer[idx] as int, x % 4, color) as u8)
    } else {
        framebuffer
    }
}

/// The screen after `screen_pixel`: with palette entry 0 selected nothing is
/// drawn; entry `n` draws colour `n - 1`, of which the two low bits count.
pub open spec fn stamped(s: ScreenView, x: int, y: int) -> ScreenView {
    let palette = s.draw_colors % 16;
    if palette == 0 {
        s
    } else {
        ScreenView {
            draw_colors: s.draw_colors,
            framebuffer: plotted(s.framebuffer, x, y, (palette - 1) % 4),
        }
    }
}

/// The screen after `draw_pixel`: beyond 160 in either coordinate nothing
/// happens; elsewhere the register selects the entry of the brightness's
/// band and the pixel is stamped.
pub open spec fn drawn(s: ScreenView, x: int, y: int, brightness: int) -> ScreenView {
    if x > 160 || y > 160 {
        s
    } else {
        stamped(
            ScreenView {
                draw_colors: (1 + band(x, y, brightness)) as u16,
                framebuffer: s.framebuffer,
            },
            x,
            y,
        )
    }
}

/// A band is one of four, the darkest for brightness 0 and the lightest for
/// brightness 255, whatever the pixel.
pub proof fn lemma_band_range(x: int, y: int, brightness: int)
    requires
        0 <= brightness <= 255,
    ensures
        0 <= band(x, y, brightness) <= 3,
        brightness == 0 ==> band(x, y, brightness) == 0,
        brightness == 255 ==> band(x, y, brightness) == 3,
{
}

/// Setting a pixel gives a byte, in which that pixel has the colour and the
/// other three are as they were.
pub proof fn lemma_with_pixel(byte: int, slot: int, color: int, other: int)
    requires
        0 <= byte < 256,
        0 <= slot < 4,
        0 <= color < 4,
        0 <= other < 4,
    ensures
        0 <= with_pixel(byte, slot, color) < 256,
        pixel_of(with_pixel(byte, slot, color), slot) == color,
        other != slot ==> pixel_of(with_pixel(byte, slot, color), other) == pixel_of(byte, other),
        with_pixel(with_pixel(byte, slot, color), slot, color) == with_pixel(byte, slot, color),
{
    let b = byte as u32;
    let c = color as u32;
    let set = with_pixel(byte, slot, color);
    if slot == 0 {
        assert(set == byte - (byte % 4) + color);
        lemma_slot_0(b, c, set as u32);
    } else if slot == 1 {
        assert(set == byte - ((byte / 4) % 4) * 4 + color * 4);
        lemma_slot_1(b, c, set as u32);
    } else if slot == 2 {
        assert(set == byte - ((byte / 16) % 4) * 16 + color * 16);
        lemma_slot_2(b, c, set as u32);
    } else {
        assert(set == byte - ((byte / 64) % 4) * 64 + color * 64);
        lemma_slot_3(b, c, set as u32);
    }
}

proof fn lemma_slot_0(b: u32, c: u32, set: u32)
    by (bit_vector)
    requires
        b < 256,
        c < 4,
        set + (b % 4) * 1 == b + c * 1,
    ensures
        set < 256,
        set % 4 == c,
        (set / 4) % 4 == (b / 4) % 4,
        (set / 16) % 4 == (b / 16) % 4,
        (set / 64) % 4 == (b / 64) % 4,
{
}

proof fn lemma_slot_1(b: u32, c: u32, set: u32)
    by (bit_vector)
    requires
        b < 256,
        c < 4,
        set + ((b / 4) % 4) * 4 == b + c * 4,
    ensures
        set < 256,
        set % 4 == b % 4,
        (set / 4) % 4 == c,
        (set / 16) % 4 == (b / 16) % 4,
        (set / 64) % 4 == (b / 64) % 4,
{
}

proof fn lemma_slot_2(b: u32, c: u32, set: u32)
    by (bit_vector)
    requires
        b < 256,
        c < 4,
        set + ((b / 16) % 4) * 16 == b + c * 16,
    ensures
        set < 256,
        set % 4 == b % 4,
        (set / 4) % 4 == (b / 4) % 4,
        (set / 16) % 4 == c,
        (set / 64) % 4 == (b / 64) % 4,
{
}

proof fn lemma_slot_3(b: u32, c: u32, set: u32)
    by (bit_vector)
    requires
        b < 256,
        c < 4,
        set + ((b / 64) % 4) * 64 == b + c * 64,
    ensures
        set < 256,
        set % 4 == b % 4,
        (set / 4) % 4 == (b / 4) % 4,
        (set / 16) % 4 == (b / 16) % 4,
        (set / 64) % 4 == c,
{
}

/// Drawing the same pixel with the same brightness a second time changes
/// nothing.
pub proof fn lemma_draw_twice(s: ScreenView, x: int, y: int, brightness: int)
    requires
        0 <= x,
        0 <= y,
        0 <= brightness <= 255,
    ensures
        drawn(drawn(s, x, y, brightness), x, y, brightness) == drawn(s, x, y, brightness),
{
    lemma_band_range(x, y, brightness);
    let once = drawn(s, x, y, brightness);
    let twice = drawn(once, x, y, brightness);
    if x <= 160 && y <= 160 {
        let idx = (y * 160 + x) / 4;
        let color = band(x, y, brightness);
        if idx < s.framebuffer.len() {
            lemma_with_pixel(s.framebuffer[idx] as int, x % 4, color, 0);
            assert(twice.framebuffer =~= once.framebuffer);
        }
    }
}

impl Screen {
    /// A dark screen with the first palette entry selected.
    pub fn new() -> (r: Screen)
        ensures
            r.draw_colors == 1,
            r@.framebuffer.len() == 6400,
            forall|i: int| 0 <= i < 6400 ==> r@.framebuffer[i] == 0,
    {
        Screen { draw_colors: 1, framebuffer: [0u8; 6400] }
    }

    /// The colour, 0 to 3, of the pixel at `(x, y)`.
    pub fn pixel(&self, x: u8, y: u8) -> (r: u8)
        requires
            x < 160,
            y < 160,
        ensures
            r == pixel_of(self@.framebuffer[(y * 160 + x) / 4] as int, (x % 4) as int),
    {
        let i: usize = (y as usize) * 160 + (x as usize);
        let byte: u8 = self.framebuffer[i / 4];
        let slot: usize = i % 4;
        if slot == 0 {
            byte % 4
        } else if slot == 1 {
            (byte / 4) % 4
        } else if slot == 2 {
            (byte / 16) % 4
        } else {
            (byte / 64) % 4
        }
    }
}

/// Writes the colour that the register selects into the two bits of the
/// pixel at `(x, y)`.
pub fn screen_pixel(screen: &mut Screen, x: u32, y: u32)
    ensures
        final(screen)@ == stamped(old(screen)@, x as int, y as int),
{
    let position: u64 = (y as u64) * 160 + (x as u64);
    let idx: u64 = position / 4;
    let slot: u8 = (x % 4) as u8;
    let shift: u8 = slot * 2;
    let palette_color: u8 = (screen.draw_colors % 16) as u8;
    if palette_color == 0 {
        return ;
    }
    let color: u8 = (palette_color - 1) % 4;
    if idx < 6400 {
        let i: usize = idx as usize;
        let byte: u8 = screen.framebuffer[i];
        let mask: u8 = 3u8 << shift;
        let merged: u8 = (color << shift) | (byte & !mask);
        proof {
            assert(slot == 0 ==> (color << 0u8) | (byte & !(3u8 << 0u8)) == byte - (byte % 4)
                + color) by (bit_vector)
                requires
                    color < 4,
            ;
            assert(slot == 1 ==> (color << 2u8) | (byte & !(3u8 << 2u8)) == byte - ((byte / 4) % 4)
                * 4 + color * 4) by (bit_vector)
                requires
                    color < 4,
            ;
            assert(slot == 2 ==> (color << 4u8) | (byte & !(3u8 << 4u8)) == byte - ((byte / 16) % 4)
                * 16 + color * 16) by (bit_vector)
                requires
                    color < 4,
            ;
            assert(slot == 3 ==> (color << 6u8) | (byte & !(3u8 << 6u8)) == byte - ((byte / 64) % 4)
                * 64 + color * 64) by (bit_vector)
                requires
                    color < 4,
            ;
            assert(merged == with_pixel(byte as int, slot as int, color as int));
        }
        screen.framebuffer[i] = merged;
        proof {
            assert(screen@.framebuffer =~= stamped(old(screen)@, x as int, y as int).framebuffer);
        }
    }
}

/// Draws the pixel at `(x, y)` with the brightness `brightness`, dithered
/// to one of the four colours.
pub fn draw_pixel(screen: &mut Screen, x: u32, y: u32, brightness: u8)
    ensures
        final(screen)@ == drawn(old(screen)@, x as int, y as int, brightness as int),
        x <= 160 && y <= 160 ==> 1 <= final(screen).draw_colors <= 4,
        x <= 160 && y <= 160 && brightness == 0 ==> final(screen).draw_colors == 1,
        x <= 160 && y <= 160 && brightness == 255 ==> final(screen).draw_colors == 4,
{
    if x > 160 || y > 160 {
        return ;
    }
    let step: u8 = 85;
    let color_base: u8 = brightness / step;
    let idx: u32 = (x + 6 * y) % 9;
    let order: u8 = if idx == 0 {
        1
    } else if idx == 1 {
        7
    } else if idx == 2 {
        4
    } else if idx == 3 {
        5
    } else if idx == 4 {
        8
    } else if idx == 5 {
        3
    } else if idx == 6 {
        6
    } else if idx == 7 {
        2
    } else {
        9
    };
    let threshhold: u8 = order * (step / 9);
    let diff: u8 = brightness % step;
    let add_color: u8 = if diff >= threshhold {
        1
    } else {
        0
    };
    let draw_color: u8 = color_base + add_color;
    proof {
        assert(idx == (x - 3 * y) % 9);
        lemma_band_range(x as int, y as int, brightness as int);
    }
    screen.draw_colors = 1 + (draw_color as u16);
    screen_pixel(screen, x, y);
}

/// How a disc is shaded.
#[derive(Clone, Copy, Debug)]
pub enum Shade {
    /// The same brightness all over.
    Flat { brightness: u8 },
    /// From black in the middle to `brightness` at `radius` from it.
    Radial { radius: F32, brightness: u8 },
}

impl Shade {
    /// The brightness at `distance` from the middle.
    pub open spec fn spec_at(self, distance: F32) -> u8 {
        match self {
            Shade::Flat { brightness } => brightness,
            Shade::Radial { radius, brightness } => spec_map(
                distance,
                lit(ZERO),
                radius,
                lit(ZERO),
                F32::of_int(brightness as int),
            ).to_u8(),
        }
    }

    #[verifier::when_used_as_spec(spec_at)]
    pub fn at(self, distance: F32) -> (r: u8)
        ensures
            r == self.spec_at(distance),
    {
        match self {
            Shade::Flat { brightness } => brightness,
            Shade::Radial { radius, brightness } => crate::common::map(
                distance,
                lit(ZERO),
                radius,
                lit(ZERO),
                F32::from_u8(brightness),
            ).to_u8(),
        }
    }
}

/// The point of the plane that the pixel `(x, y)` shows where the screen's
/// first pixel shows `origin`.
pub open spec fn pixel_point(origin: Vec2, x: int, y: int) -> Vec2 {
    Vec2 { x: F32::of_int(x) + origin.x, y: F32::of_int(y) + origin.y }
}

/// The screen after pixel number `k`, counted row by row, has had its turn:
/// it is drawn, in the disc's shade, unless it lies farther than `limit`
/// from `center`.
pub open spec fn disc_step(
    s: ScreenView,
    center: Vec2,
    origin: Vec2,
    limit: F32,
    shade: Shade,
    k: int,
) -> ScreenView {
    let distance = center.distance(pixel_point(origin, k % 160, k / 160));
    if distance > limit {
        s
    } else {
        drawn(s, k % 160, k / 160, shade.spec_at(distance) as int)
    }
}

/// The screen after the first `n` pixels have had their turn.
pub open spec fn disc_filled(
    s: ScreenView,
    center: Vec2,
    origin: Vec2,
    limit: F32,
    shade: Shade,
    n: nat,
) -> ScreenView
    decreases n,
{
    if n == 0 {
        s
    } else {
        disc_step(
            disc_filled(s, center, origin, limit, shade, (n - 1) as nat),
            center,
            origin,
            limit,
            shade,
            n - 1,
        )
    }
}

/// Draws the disc of radius `limit` around `center` onto the screen whose
/// first pixel shows `origin`: every pixel of the 160 rows of 160, top row
/// first, that lies no farther than `limit` from `center`.
pub fn fill_disc(screen: &mut Screen, center: Vec2, origin: Vec2, limit: F32, shade: Shade)
    ensures
        final(screen)@ == disc_filled(old(screen)@, center, origin, limit, shade, 25600),
{
    let ghost start = screen@;
    let mut screen_y: u8 = 0;
    while screen_y < 160
        invariant
            screen_y <= 160,
            screen@ == disc_filled(start, center, origin, limit, shade, (screen_y * 160) as nat),
        decreases 160 - screen_y,
    {
        let mut screen_x: u8 = 0;
        while screen_x < 160
            invariant
                screen_y < 160,
                screen_x <= 160,
                screen@ == disc_filled(
                    start,
                    center,
                    origin,
                    limit,
                    shade,
                    (screen_y * 160 + screen_x) as nat,
                ),
            decreases 160 - screen_x,
        {
            let ghost k: int = screen_y * 160 + screen_x;
            let screen_point = Vec2::new(
                F32::from_u8(screen_x) + origin.x,
                F32::from_u8(screen_y) + origin.y,
            );
            let distance = center.distance(screen_point);
            proof {
                assert(k % 160 == screen_x && k / 160 == screen_y);
                assert(screen_point == pixel_point(origin, k % 160, k / 160));
            }
            if !(distance > limit) {
                draw_pixel(screen, screen_x as u32, screen_y as u32, shade.at(distance));
            }
            screen_x = screen_x + 1;
        }
        screen_y = screen_y + 1;
    }
}

} // verus!
