//! The frame that is written to the framebuffer device.
//!
//! The panel is mounted upside down: a pixel drawn at `(x, y)` is stored at
//! the place that lies opposite to it through the middle of the screen. Each
//! place holds one 16-bit colour word, low byte first, row by row.
use embedded_graphics::pixelcolor::raw::RawU16;
use embedded_graphics::pixelcolor::Rgb565;
use embedded_graphics::prelude::RawData;
use vstd::prelude::*;

verus! {

/// A colour with five bits of red, six of green and five of blue.
///
/// Bits of a channel beyond its width do not count.
#[derive(Clone, Copy, Debug, PartialEq, Eq, Structural)]
pub struct Color {
    pub r: u8,
    pub g: u8,
    pub b: u8,
}

impl Color {
    /// The colour word: red in the upper five bits, then green, then blue.
    pub open spec fn word(self) -> int {
        (self.r % 32) * 2048 + (self.g % 64) * 32 + self.b % 32
    }
}

/// A colour and the place on the screen where it is to appear.
#[derive(Clone, Copy, Debug, PartialEq, Eq, Structural)]
pub struct Pixel {
    pub x: i32,
    pub y: i32,
    pub color: Color,
}

/// The area that can be drawn on: its upper left corner and its size.
#[derive(Clone, Copy, Debug, PartialEq, Eq, Structural)]
pub struct Area {
    pub x: i32,
    pub y: i32,
    pub width: u32,
    pub height: u32,
}

/// The colour word of the given channels, by `RawU16::from` of an `Rgb565`.
///
/// `Rgb565::new` drops the bits of a channel beyond its width and packs the
/// rest as red, green, blue from the top of the word down, and
/// `RawU16::into_inner` hands that word out.
#[verifier::external_body]
fn raw_color(r: u8, g: u8, b: u8) -> (raw: u16)
    ensures
        raw == (Color { r, g, b }).word(),
{
    RawU16::from(Rgb565::new(r, g, b)).into_inner()
}

/// A coordinate read as an unsigned 32-bit number: what lies left of or above
/// the screen counts as far right of or below it.
pub open spec fn unsigned(coordinate: i32) -> int {
    if coordinate < 0 {
        coordinate + 0x1_0000_0000
    } else {
        coordinate as int
    }
}

/// The place opposite to `i` among `len` places.
pub open spec fn opposite(len: int, i: int) -> int {
    len - 1 - i
}

/// A frame of colour words, as the device takes it.
pub struct Frame {
    pub width: int,
    pub height: int,
    pub bytes: Seq<u8>,
}

impl Frame {
    /// There are two bytes for each place.
    pub open spec fn wf(self) -> bool {
        &&& 0 <= self.width
        &&& 0 <= self.height
        &&& self.bytes.len() == self.width * self.height * 2
    }

    pub open spec fn on_screen(self, x: int, y: int) -> bool {
        0 <= x < self.width && 0 <= y < self.height
    }

    /// Where the colour word of the pixel drawn at `(x, y)` begins.
    pub open spec fn offset(self, x: int, y: int) -> int {
        (opposite(self.width, x) + opposite(self.height, y) * self.width) * 2
    }

    /// The colour word that the frame holds for the pixel drawn at `(x, y)`.
    pub open spec fn word_at(self, x: int, y: int) -> int {
        self.bytes[self.offset(x, y)] + self.bytes[self.offset(x, y) + 1] * 256
    }

    /// The frame after drawing one pixel: its two bytes are set, low byte
    /// first, or nothing is where it lies outside the screen.
    pub open spec fn with_pixel(self, pixel: Pixel) -> Frame {
        let x = unsigned(pixel.x);
        let y = unsigned(pixel.y);
        if self.on_screen(x, y) {
            Frame {
                bytes: self.bytes.update(
                    self.offset(x, y),
                    (pixel.color.word() % 256) as u8,
                ).update(self.offset(x, y) + 1, (pixel.color.word() / 256) as u8),
                ..self
            }
        } else {
            self
        }
    }

    /// The frame after drawing pixels one after another.
    pub open spec fn with_pixels(self, pixels: Seq<Pixel>) -> Frame
        decreases pixels.len(),
    {
        if pixels.len() == 0 {
            self
        } else {
            self.with_pixels(pixels.drop_last()).with_pixel(pixels.last())
        }
    }
}

/// The screen of a framebuffer device: the frame that is drawn on, in memory,
/// until it is handed to the device.
pub struct FbdevDisplay {
    framebuffer: Vec<u8>,
    xres: u32,
    yres: u32,
}

impl View for FbdevDisplay {
    type V = Frame;

    closed spec fn view(&self) -> Frame {
        Frame { width: self.xres as int, height: self.yres as int, bytes: self.framebuffer@ }
    }
}

impl FbdevDisplay {
    /// A black screen of the device's resolution.
    ///
    /// A frame larger than an allocation can be is ruled out.
    pub fn new(xres: u32, yres: u32) -> (display: Self)
        requires
            xres * yres * 2 <= isize::MAX,
        ensures
            display@.wf(),
            display@.width == xres,
            display@.height == yres,
            display@.bytes.len() == xres * yres * 2,
            forall|i: int| 0 <= i < display@.bytes.len() ==> display@.bytes[i] == 0,
    {
        assert(xres * yres >= 0) by (nonlinear_arith);
        let framebuffer: Vec<u8> = vec![0u8; xres as usize * yres as usize * 2];
        FbdevDisplay { framebuffer, xres, yres }
    }

    /// The bytes that make the device show what was drawn.
    pub fn update(&self) -> (frame: &Vec<u8>)
        ensures
            frame@ == self@.bytes,
    {
        &self.framebuffer
    }

    /// Draws one pixel, or nothing where it lies outside the screen.
    fn draw_pixel(&mut self, pixel: Pixel)
        requires
            old(self)@.wf(),
        ensures
            final(self)@.wf(),
            final(self)@ == old(self)@.with_pixel(pixel),
    {
        let x: u32 = #[verifier::truncate] (pixel.x as u32);
        let y: u32 = #[verifier::truncate] (pixel.y as u32);
        proof {
            let px = pixel.x;
            let py = pixel.y;
            assert(px < 0 ==> px as u32 == px + 0x1_0000_0000) by (bit_vector);
            assert(py < 0 ==> py as u32 == py + 0x1_0000_0000) by (bit_vector);
            assert(x == unsigned(pixel.x) && y == unsigned(pixel.y));
        }
        // Off the screen these wrap to places that are off it on the other side.
        let x: u32 = self.xres.wrapping_sub(x).wrapping_sub(1);
        let y: u32 = self.yres.wrapping_sub(y).wrapping_sub(1);
        let raw: u16 = raw_color(pixel.color.r, pixel.color.g, pixel.color.b);
        if x < self.xres && y < self.yres {
            proof {
                lemma_place_fits(self.xres as int, self.yres as int, x as int, y as int);
                assert(self.framebuffer.len() == self.xres * self.yres * 2);
                assert((raw & 0xff) as u8 == raw % 256) by (bit_vector);
                assert((raw >> 8) as u8 == raw / 256) by (bit_vector);
            }
            let index: usize = (x as usize + y as usize * self.xres as usize) * 2;
            self.framebuffer[index] = (raw & 0xff) as u8;
            self.framebuffer[index + 1] = (raw >> 8) as u8;
        }
    }

    /// Draws pixels in their order: where two fall on one place the later one
    /// stays, and those outside the screen are left out.
    pub fn draw_iter(&mut self, pixels: &Vec<Pixel>)
        requires
            old(self)@.wf(),
        ensures
            final(self)@.wf(),
            final(self)@ == old(self)@.with_pixels(pixels@),
            final(self)@.width == old(self)@.width,
            final(self)@.height == old(self)@.height,
            final(self)@.bytes.len() == old(self)@.bytes.len(),
            forall|i: int|
                0 <= i < pixels@.len() && is_last_on_screen(
                    pixels@,
                    i,
                    old(self)@.width,
                    old(self)@.height,
                ) ==> {
                    let color = (#[trigger] pixels@[i]).color;
                    let word = color.r % 32 * 2048 + color.g % 64 * 32 + color.b % 32;
                    let k = 2 * ((old(self)@.width - 1 - pixels@[i].x) + (old(self)@.height - 1
                        - pixels@[i].y) * old(self)@.width);
                    &&& 0 <= k && k + 1 < final(self)@.bytes.len()
                    &&& final(self)@.bytes[k] == word % 256
                    &&& final(self)@.bytes[k + 1] == word / 256
                },
    {
        for i in 0..pixels.len()
            invariant
                self@.wf(),
                self@ == old(self)@.with_pixels(pixels@.take(i as int)),
        {
            proof {
                assert(pixels@.take(i + 1).drop_last() =~= pixels@.take(i as int));
                assert(pixels@.take(i + 1).last() == pixels@[i as int]);
            }
            self.draw_pixel(pixels[i]);
        }
        assert(pixels@.take(pixels@.len() as int) =~= pixels@);
        proof {
            let before = old(self)@;
            drawing_keeps_the_size(before, pixels@);
            assert forall|i: int|
                0 <= i < pixels@.len() && is_last_on_screen(
                    pixels@,
                    i,
                    before.width,
                    before.height,
                ) implies {
                let color = (#[trigger] pixels@[i]).color;
                let word = color.r % 32 * 2048 + color.g % 64 * 32 + color.b % 32;
                let k = 2 * ((before.width - 1 - pixels@[i].x) + (before.height - 1 - pixels@[i].y)
                    * before.width);
                &&& 0 <= k && k + 1 < self@.bytes.len()
                &&& self@.bytes[k] == word % 256
                &&& self@.bytes[k + 1] == word / 256
            } by {
                drawing_sets_the_bytes_of_a_pixel(before, pixels@, i);
            }
        }
    }

    /// The whole screen, from its upper left corner.
    pub fn bounding_box(&self) -> (area: Area)
        ensures
            area.x == 0,
            area.y == 0,
            area.width == self@.width,
            area.height == self@.height,
    {
        Area { x: 0, y: 0, width: self.xres, height: self.yres }
    }
}

/// A place in the rectangle has room for its word in the frame.
proof fn lemma_place_fits(width: int, height: int, x: int, y: int)
    requires
        0 <= x < width,
        0 <= y < height,
    ensures
        0 <= y * width,
        0 <= (x + y * width) * 2,
        (x + y * width) * 2 + 1 < width * height * 2,
{
    assert(y * width + width <= width * height) by (nonlinear_arith)
        requires
            0 <= y < height,
            0 < width,
    ;
    assert(0 <= y * width) by (nonlinear_arith)
        requires
            0 <= y,
            0 < width,
    ;
}

/// Whether the pixel at `i` lies on a screen of the given size, and none behind
/// it falls on its place.
pub open spec fn is_last_on_screen(pixels: Seq<Pixel>, i: int, width: int, height: int) -> bool {
    &&& 0 <= pixels[i].x < width
    &&& 0 <= pixels[i].y < height
    &&& forall|j: int|
        i < j < pixels.len() ==> (#[trigger] pixels[j]).x != pixels[i].x || pixels[j].y
            != pixels[i].y
}

/// The colour of the last of the pixels that falls on `(x, y)`, if one does.
pub open spec fn last_drawn(pixels: Seq<Pixel>, x: int, y: int) -> Option<Color>
    decreases pixels.len(),
{
    if pixels.len() == 0 {
        None
    } else if unsigned(pixels.last().x) == x && unsigned(pixels.last().y) == y {
        Some(pixels.last().color)
    } else {
        last_drawn(pixels.drop_last(), x, y)
    }
}

/// Turning the picture upside down moves every place to the far side: as far
/// from the end as it was from the beginning. Doing so twice gives the picture,
/// and turns the screen onto itself.
pub proof fn turning_twice_restores(len: int, i: int)
    requires
        0 <= i < len,
    ensures
        0 <= opposite(len, i) < len,
        opposite(len, i) + i == len - 1,
        opposite(len, opposite(len, i)) == i,
{
}

/// Every pixel of the screen has its own two bytes within the frame.
pub proof fn places_are_apart(frame: Frame, x: int, y: int, u: int, v: int)
    requires
        frame.wf(),
        frame.on_screen(x, y),
        frame.on_screen(u, v),
    ensures
        0 <= frame.offset(x, y),
        frame.offset(x, y) + 1 < frame.bytes.len(),
        (x, y) != (u, v) ==> frame.offset(x, y) + 1 < frame.offset(u, v) || frame.offset(u, v) + 1
            < frame.offset(x, y),
{
    let w = frame.width;
    let h = frame.height;
    lemma_place_fits(w, h, opposite(w, x), opposite(h, y));
    if y < v {
        assert(opposite(h, y) * w >= opposite(h, v) * w + w) by (nonlinear_arith)
            requires
                opposite(h, y) >= opposite(h, v) + 1,
                w >= 0,
        ;
    } else if v < y {
        assert(opposite(h, v) * w >= opposite(h, y) * w + w) by (nonlinear_arith)
            requires
                opposite(h, v) >= opposite(h, y) + 1,
                w >= 0,
        ;
    }
}

/// Drawing keeps the screen's size and the length of its frame.
pub proof fn drawing_keeps_the_size(frame: Frame, pixels: Seq<Pixel>)
    requires
        frame.wf(),
    ensures
        frame.with_pixels(pixels).wf(),
        frame.with_pixels(pixels).width == frame.width,
        frame.with_pixels(pixels).height == frame.height,
    decreases pixels.len(),
{
    if pixels.len() > 0 {
        drawing_keeps_the_size(frame, pixels.drop_last());
        let before = frame.with_pixels(pixels.drop_last());
        let x = unsigned(pixels.last().x);
        let y = unsigned(pixels.last().y);
        if before.on_screen(x, y) {
            places_are_apart(before, x, y, x, y);
        }
    }
}

/// After drawing one pixel the screen shows its colour at its place, and at
/// every other place what it showed before.
pub proof fn pixel_reads_back(frame: Frame, pixel: Pixel, x: int, y: int)
    requires
        frame.wf(),
        frame.on_screen(x, y),
    ensures
        (unsigned(pixel.x), unsigned(pixel.y)) == (x, y) ==> frame.with_pixel(pixel).word_at(x, y)
            == pixel.color.word(),
        (unsigned(pixel.x), unsigned(pixel.y)) != (x, y) ==> frame.with_pixel(pixel).word_at(x, y)
            == frame.word_at(x, y),
{
    let px = unsigned(pixel.x);
    let py = unsigned(pixel.y);
    places_are_apart(frame, x, y, x, y);
    if frame.on_screen(px, py) {
        places_are_apart(frame, x, y, px, py);
        places_are_apart(frame, px, py, px, py);
    }
}

/// After drawing, each place of the screen shows the last pixel that fell on
/// it, and what it showed before where none did.
pub proof fn last_pixel_stays(frame: Frame, pixels: Seq<Pixel>, x: int, y: int)
    requires
        frame.wf(),
        frame.on_screen(x, y),
    ensures
        frame.with_pixels(pixels).word_at(x, y) == match last_drawn(pixels, x, y) {
            Some(color) => color.word(),
            None => frame.word_at(x, y),
        },
    decreases pixels.len(),
{
    if pixels.len() > 0 {
        drawing_keeps_the_size(frame, pixels.drop_last());
        last_pixel_stays(frame, pixels.drop_last(), x, y);
        pixel_reads_back(frame.with_pixels(pixels.drop_last()), pixels.last(), x, y);
    }
}

/// Pixels outside the screen leave every byte of the frame as it was.
pub proof fn pixels_off_screen_change_nothing(frame: Frame, pixels: Seq<Pixel>)
    requires
        forall|i: int|
            0 <= i < pixels.len() ==> !frame.on_screen(
                unsigned((#[trigger] pixels[i]).x),
                unsigned(pixels[i].y),
            ),
    ensures
        frame.with_pixels(pixels) == frame,
    decreases pixels.len(),
{
    if pixels.len() > 0 {
        pixels_off_screen_change_nothing(frame, pixels.drop_last());
        assert(pixels.last() == pixels[pixels.len() - 1]);
    }
}

/// Drawing a picture in two parts is drawing it at once.
pub proof fn drawing_in_parts(frame: Frame, first: Seq<Pixel>, second: Seq<Pixel>)
    ensures
        frame.with_pixels(first + second) == frame.with_pixels(first).with_pixels(second),
    decreases second.len(),
{
    if second.len() == 0 {
        assert(first + second =~= first);
    } else {
        assert((first + second).drop_last() =~= first + second.drop_last());
        drawing_in_parts(frame, first, second.drop_last());
    }
}

/// Two words are equal only if their two bytes are.
proof fn lemma_bytes_of_word(low: u8, high: u8, other_low: u8, other_high: u8)
    requires
        low + high * 256 == other_low + other_high * 256,
    ensures
        low == other_low,
        high == other_high,
{
}

/// Every byte of the frame belongs to a pixel of the screen.
proof fn lemma_place_of_byte(frame: Frame, i: int) -> (place: (int, int))
    requires
        frame.wf(),
        0 <= i < frame.bytes.len(),
    ensures
        frame.on_screen(place.0, place.1),
        i == frame.offset(place.0, place.1) || i == frame.offset(place.0, place.1) + 1,
{
    let w = frame.width;
    let h = frame.height;
    let k = i / 2;
    assert(0 < w && k < w * h) by (nonlinear_arith)
        requires
            0 <= w,
            0 <= h,
            0 <= i < w * h * 2,
            k == i / 2,
    ;
    let column = k % w;
    let row = k / w;
    assert(k == column + row * w && 0 <= column < w && 0 <= row < h) by (nonlinear_arith)
        requires
            0 < w,
            0 <= k < w * h,
            column == k % w,
            row == k / w,
    ;
    let place = (opposite(w, column), opposite(h, row));
    turning_twice_restores(w, column);
    turning_twice_restores(h, row);
    place
}

/// A picture that covers the whole screen leaves nothing of what was there.
pub proof fn covering_picture_hides_the_rest(one: Frame, other: Frame, pixels: Seq<Pixel>)
    requires
        one.wf(),
        other.wf(),
        one.width == other.width,
        one.height == other.height,
        forall|x: int, y: int| one.on_screen(x, y) ==> (#[trigger] last_drawn(pixels, x, y)) is Some,
    ensures
        one.with_pixels(pixels) == other.with_pixels(pixels),
{
    let a = one.with_pixels(pixels);
    let b = other.with_pixels(pixels);
    drawing_keeps_the_size(one, pixels);
    drawing_keeps_the_size(other, pixels);
    assert forall|i: int| 0 <= i < a.bytes.len() implies a.bytes[i] == b.bytes[i] by {
        let (x, y) = lemma_place_of_byte(a, i);
        last_pixel_stays(one, pixels, x, y);
        last_pixel_stays(other, pixels, x, y);
        assert(last_drawn(pixels, x, y) is Some);
        let at = a.offset(x, y);
        lemma_bytes_of_word(a.bytes[at], a.bytes[at + 1], b.bytes[at], b.bytes[at + 1]);
    }
    assert(a.bytes =~= b.bytes);
}

/// Of a screen that is not wider or higher than coordinates reach, what lies
/// left of it or above it is not on it, and what is on it is where its
/// coordinates say.
pub proof fn coordinates_say_where(frame: Frame, pixel: Pixel)
    requires
        0 <= frame.width <= 0x8000_0000,
        0 <= frame.height <= 0x8000_0000,
    ensures
        frame.on_screen(unsigned(pixel.x), unsigned(pixel.y)) <==> 0 <= pixel.x < frame.width && 0
            <= pixel.y < frame.height,
        pixel.x >= 0 ==> unsigned(pixel.x) == pixel.x,
        pixel.y >= 0 ==> unsigned(pixel.y) == pixel.y,
{
}

/// The bytes of one pixel are set by drawing it, and are left alone by drawing
/// a pixel elsewhere.
proof fn lemma_bytes_of_pixel(frame: Frame, pixel: Pixel, x: int, y: int)
    requires
        frame.wf(),
        frame.on_screen(x, y),
    ensures
        0 <= frame.offset(x, y),
        frame.offset(x, y) + 1 < frame.bytes.len(),
        (unsigned(pixel.x), unsigned(pixel.y)) == (x, y) ==> {
            &&& frame.with_pixel(pixel).bytes[frame.offset(x, y)] == pixel.color.word() % 256
            &&& frame.with_pixel(pixel).bytes[frame.offset(x, y) + 1] == pixel.color.word() / 256
        },
        (unsigned(pixel.x), unsigned(pixel.y)) != (x, y) ==> {
            &&& frame.with_pixel(pixel).bytes[frame.offset(x, y)] == frame.bytes[frame.offset(x, y)]
            &&& frame.with_pixel(pixel).bytes[frame.offset(x, y) + 1] == frame.bytes[frame.offset(
                x,
                y,
            ) + 1]
        },
{
    let px = unsigned(pixel.x);
    let py = unsigned(pixel.y);
    places_are_apart(frame, x, y, x, y);
    if frame.on_screen(px, py) {
        places_are_apart(frame, x, y, px, py);
        places_are_apart(frame, px, py, px, py);
    }
}

/// On a screen of any width `w` and height `h`, the last pixel drawn at
/// `(x, y)` sets the two bytes that begin at `2 * ((w-1-x) + (h-1-y) * w)`: the
/// low and the high half of five bits of red, six of green and five of blue.
pub proof fn drawing_sets_the_bytes_of_a_pixel(frame: Frame, pixels: Seq<Pixel>, i: int)
    requires
        0 <= frame.width,
        0 <= frame.height,
        frame.bytes.len() == frame.width * frame.height * 2,
        0 <= i < pixels.len(),
        0 <= pixels[i].x < frame.width,
        0 <= pixels[i].y < frame.height,
        forall|j: int|
            i < j < pixels.len() ==> (#[trigger] pixels[j]).x != pixels[i].x || pixels[j].y
                != pixels[i].y,
    ensures
        ({
            let color = pixels[i].color;
            let word = color.r % 32 * 2048 + color.g % 64 * 32 + color.b % 32;
            let k = 2 * ((frame.width - 1 - pixels[i].x) + (frame.height - 1 - pixels[i].y)
                * frame.width);
            &&& 0 <= k && k + 1 < frame.bytes.len()
            &&& frame.with_pixels(pixels).bytes[k] == word % 256
            &&& frame.with_pixels(pixels).bytes[k + 1] == word / 256
        }),
    decreases pixels.len(),
{
    let x = pixels[i].x as int;
    let y = pixels[i].y as int;
    let shorter = pixels.drop_last();
    let before = frame.with_pixels(shorter);
    drawing_keeps_the_size(frame, shorter);
    lemma_bytes_of_pixel(before, pixels.last(), x, y);
    assert(pixels.last() == pixels[pixels.len() - 1]);
    if i < pixels.len() - 1 {
        assert(shorter[i] == pixels[i]);
        drawing_sets_the_bytes_of_a_pixel(frame, shorter, i);
    }
}

/// Drawing changes no byte but those of the pixels that lie on the screen.
pub proof fn drawing_leaves_the_other_bytes(frame: Frame, pixels: Seq<Pixel>, k: int)
    requires
        0 <= frame.width <= 0x8000_0000,
        0 <= frame.height <= 0x8000_0000,
        frame.bytes.len() == frame.width * frame.height * 2,
        0 <= k < frame.bytes.len(),
        forall|i: int|
            0 <= i < pixels.len() && 0 <= (#[trigger] pixels[i]).x < frame.width && 0 <= pixels[i].y
                < frame.height ==> k / 2 != (frame.width - 1 - pixels[i].x) + (frame.height - 1
                - pixels[i].y) * frame.width,
    ensures
        frame.with_pixels(pixels).bytes.len() == frame.bytes.len(),
        frame.with_pixels(pixels).bytes[k] == frame.bytes[k],
    decreases pixels.len(),
{
    drawing_keeps_the_size(frame, pixels);
    if pixels.len() > 0 {
        let shorter = pixels.drop_last();
        let before = frame.with_pixels(shorter);
        drawing_keeps_the_size(frame, shorter);
        assert forall|i: int|
            0 <= i < shorter.len() && 0 <= (#[trigger] shorter[i]).x < frame.width && 0
                <= shorter[i].y < frame.height implies k / 2 != (frame.width - 1 - shorter[i].x) + (
        frame.height - 1 - shorter[i].y) * frame.width by {
            assert(shorter[i] == pixels[i]);
        }
        drawing_leaves_the_other_bytes(frame, shorter, k);
        coordinates_say_where(before, pixels.last());
        let (x, y) = lemma_place_of_byte(before, k);
        assert(pixels.last() == pixels[pixels.len() - 1]);
        lemma_bytes_of_pixel(before, pixels.last(), x, y);
    }
}

} // verus!
