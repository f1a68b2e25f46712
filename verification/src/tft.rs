//! Colours and lines of the TFT panel.

use embedded_graphics::pixelcolor::raw::RawU16;
use embedded_graphics::pixelcolor::Rgb565 as PanelColor;
use embedded_graphics::pixelcolor::RgbColor;
use vstd::prelude::*;

verus! {

/// A colour as the panel stores it: five bits of red, six of green, five of blue.
#[derive(Clone, Copy, Debug, PartialEq, Eq, Structural)]
pub struct Rgb565 {
    pub r: u8,
    pub g: u8,
    pub b: u8,
}

impl Rgb565 {
    /// Each channel fits the bits that the panel has for it.
    pub open spec fn wf(self) -> bool {
        self.r < 32 && self.g < 64 && self.b < 32
    }
}

// ---------------------------------------------------------------------------
// The colour wheel
// ---------------------------------------------------------------------------

/// `Rgb565::new` of `embedded-graphics`, read back through `r`, `g` and `b`:
/// every channel keeps its low bits, five of red, six of green, five of blue,
/// and loses the higher ones.
#[verifier::external_body]
fn panel_color(r: u8, g: u8, b: u8) -> (c: (u8, u8, u8))
    ensures
        c == (r % 32u8, g % 64u8, b % 32u8),
{
    let color = PanelColor::new(r, g, b);
    (color.r(), color.g(), color.b())
}

/// The place of a hue on the wheel, which is turned backwards.
pub open spec fn wheel_place(hue: u8) -> int {
    255 - hue
}

/// The red, green and blue of a hue, of 255 each. Along the wheel red gives way
/// to blue, blue to green and green to red.
pub open spec fn wheel(hue: u8) -> (int, int, int) {
    let at = wheel_place(hue);
    if at < 85 {
        (255 - 3 * at, 0, 3 * at)
    } else if at < 170 {
        (0, 3 * (at - 85), 255 - 3 * (at - 85))
    } else {
        (3 * (at - 170), 255 - 3 * (at - 170), 0)
    }
}

/// The colour of a hue: of the red, green and blue of the wheel the bits that
/// the panel's channels have room for.
pub fn color_wheel(hue: u8) -> (c: Rgb565)
    ensures
        c.wf(),
        c.r == wheel(hue).0 % 32,
        c.g == wheel(hue).1 % 64,
        c.b == wheel(hue).2 % 32,
{
    let at = 255u16 - hue as u16;
    let (r, g, b) = if at < 85 {
        ((255 - at * 3) as u8, 0u8, (at * 3) as u8)
    } else if at < 170 {
        let at = at - 85;
        (0u8, (at * 3) as u8, (255 - at * 3) as u8)
    } else {
        let at = at - 170;
        ((at * 3) as u8, (255 - at * 3) as u8, 0u8)
    };
    let (r, g, b) = panel_color(r, g, b);
    Rgb565 { r, g, b }
}

// ---------------------------------------------------------------------------
// Drawing a line
// ---------------------------------------------------------------------------

/// The colour that a stored pixel stands for: five bits of red, six of green,
/// five of blue, from the highest bit down.
pub open spec fn pixel_color(raw: u16) -> Rgb565 {
    Rgb565 {
        r: (raw as int / 2048) as u8,
        g: (raw as int / 32 % 64) as u8,
        b: (raw as int % 32) as u8,
    }
}

/// `Rgb565::from` of a `RawU16` of `embedded-graphics`, read back through `r`,
/// `g` and `b`: red from the five highest bits, green from the next six, blue
/// from the five lowest.
#[verifier::external_body]
fn stored_color(raw: u16) -> (c: (u8, u8, u8))
    ensures
        c.0 == raw as int / 2048,
        c.1 == raw as int / 32 % 64,
        c.2 == raw as int % 32,
{
    let color = PanelColor::from(RawU16::new(raw));
    (color.r(), color.g(), color.b())
}

/// What is written to the panel for one line: the corners of the area, both
/// within it, and its pixels.
#[derive(Debug)]
pub struct LineUpdate {
    pub x_start: u16,
    pub y_start: u16,
    pub x_end: u16,
    pub y_end: u16,
    pub pixels: Vec<Rgb565>,
}

fn low_word(n: usize) -> (r: u16)
    ensures
        r == n as int % 0x1_0000,
{
    assert(n as u16 == n % 0x1_0000) by (bit_vector);
    n as u16
}

/// `u` writes the pixels `start..end` of a line that has been rendered into
/// `buffer`. Coordinates are the low sixteen bits of what is given.
pub open spec fn is_update(u: LineUpdate, line: int, start: int, end: int, buffer: Seq<u16>) -> bool {
    &&& u.x_start == start % 0x1_0000
    &&& u.x_end == (end - 1) % 0x1_0000
    &&& u.y_start == line % 0x1_0000
    &&& u.y_end == line % 0x1_0000
    &&& u.pixels@ == buffer.subrange(start, end).map_values(|raw: u16| pixel_color(raw))
}

/// What to write for the pixels `start..end` of a line that has been rendered
/// into `buffer`.
pub fn process_line(line: usize, start: usize, end: usize, buffer: &Vec<u16>) -> (u: LineUpdate)
    requires
        start <= end <= buffer@.len(),
        0 < end,
    ensures
        is_update(u, line as int, start as int, end as int, buffer@),
{
    let mut pixels: Vec<Rgb565> = Vec::new();
    let mut i = start;
    while i < end
        invariant
            start <= i <= end <= buffer@.len(),
            pixels@ == buffer@.subrange(start as int, i as int).map_values(
                |raw: u16| pixel_color(raw),
            ),
        decreases end - i,
    {
        let (r, g, b) = stored_color(buffer[i]);
        pixels.push(Rgb565 { r, g, b });
        i += 1;
        assert(pixels@ == buffer@.subrange(start as int, i as int).map_values(
            |raw: u16| pixel_color(raw),
        ));
    }
    LineUpdate {
        x_start: low_word(start),
        y_start: low_word(line),
        x_end: low_word(end - 1),
        y_end: low_word(line),
        pixels,
    }
}

// ---------------------------------------------------------------------------
// Laws
// ---------------------------------------------------------------------------

/// The wheel is as bright at every hue, and turns from one hue to the next by
/// three in each of two colours.
pub proof fn law_wheel(hue: u8)
    ensures
        ({
            let (r, g, b) = wheel(hue);
            &&& r + g + b == 255
            &&& 0 <= r <= 255 && 0 <= g <= 255 && 0 <= b <= 255
            &&& r == 0 || g == 0 || b == 0
        }),
        hue < 255 ==> ({
            let (r, g, b) = wheel(hue);
            let (r2, g2, b2) = wheel((hue + 1) as u8);
            -3 <= r2 - r <= 3 && -3 <= g2 - g <= 3 && -3 <= b2 - b <= 3
        }),
{
}

/// On a panel of no more than 65536 columns and lines the area is one line
/// high, starts where the pixels do, and has as many columns as there are
/// pixels.
pub proof fn law_area_matches_pixels(
    u: LineUpdate,
    line: int,
    start: int,
    end: int,
    buffer: Seq<u16>,
)
    requires
        is_update(u, line, start, end, buffer),
        0 <= start < end <= 0x1_0000,
        end <= buffer.len(),
        0 <= line < 0x1_0000,
    ensures
        u.y_start == line && u.y_end == line,
        u.x_start == start,
        u.x_end - u.x_start + 1 == u.pixels@.len(),
        forall|i: int| 0 <= i < u.pixels@.len() ==> u.pixels@[i] == pixel_color(buffer[start + i]),
{
}

/// The bits of a stored pixel are those of its colour: five of red, six of
/// green, five of blue, from the highest down.
pub proof fn law_pixel_color(raw: u16)
    ensures
        ({
            let c = pixel_color(raw);
            &&& c.wf()
            &&& c.r < 32 && c.g < 64 && c.b < 32
            &&& c.r * 2048 + c.g * 32 + c.b == raw
        }),
{
}

/// The area goes from the first to the last of the pixels, on its one line, by
/// the low sixteen bits of each, and holds one colour for each pixel, in their
/// order.
pub proof fn law_update(
    u: LineUpdate,
    line: int,
    start: int,
    end: int,
    buffer: Seq<u16>,
)
    requires
        0 <= start <= end <= buffer.len(),
        0 < end,
        0 <= line,
        is_update(u, line, start, end, buffer),
    ensures
        u.x_start == start % 65536,
        u.x_end == (end - 1) % 65536,
        u.y_start == line % 65536,
        u.y_end == line % 65536,
        u.pixels@.len() == end - start,
        forall|i: int|
            0 <= i < end - start ==> (#[trigger] u.pixels@[i]).r * 2048 + u.pixels@[i].g * 32
                + u.pixels@[i].b == buffer[start + i] && u.pixels@[i].wf(),
{
    assert forall|i: int| 0 <= i < end - start implies (#[trigger] u.pixels@[i]).r * 2048
        + u.pixels@[i].g * 32 + u.pixels@[i].b == buffer[start + i] && u.pixels@[i].wf() by {
        law_pixel_color(buffer[start + i]);
        assert(u.pixels@[i] == pixel_color(buffer[start + i]));
    }
}

/// Red is full at both ends of the wheel, blue a third of the way from its end
/// and green two thirds; between two of them each gives way to the other, three
/// at a time, and the third colour is missing.
pub proof fn law_wheel_turns(hue: u8)
    ensures
        ({
            let (r, g, b) = wheel(hue);
            &&& 170 < hue ==> (r, g, b) == (3 * (hue - 170), 0int, 3 * (255 - hue))
            &&& 85 < hue <= 170 ==> (r, g, b) == (0int, 3 * (170 - hue), 3 * (hue - 85))
            &&& hue <= 85 ==> (r, g, b) == (3 * (85 - hue), 3 * (hue as int), 0int)
        }),
{
}

} // verus!
