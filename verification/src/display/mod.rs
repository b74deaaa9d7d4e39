//! Frame buffer and pixel pipeline for the 32x8 WS2812B LED matrix.
//!
//! The chain is wired in a row-major zig-zag: pixel (0,0) is the top-left
//! corner, pixels go left-to-right on even rows and right-to-left on odd rows.
//! The data line is GPIO32 and is driven via the ESP32 RMT peripheral; the
//! pulse timing and bit order are computed here, the peripheral is driven by
//! the firmware.

use vstd::prelude::*;

pub mod ws2812;

verus! {

pub const MATRIX_WIDTH: usize = 32;

pub const MATRIX_HEIGHT: usize = 8;

pub const MATRIX_LED_COUNT: usize = 256;

pub const MATRIX_DATA_GPIO: u8 = 32;

#[derive(Clone, Copy, Debug, PartialEq, Eq, Default)]
pub struct RgbColor {
    pub r: u8,
    pub g: u8,
    pub b: u8,
}

/// One channel value dimmed to `brightness` out of 255, rounded to nearest.
pub open spec fn scale_channel(value: u8, brightness: u8) -> u8 {
    ((value * brightness + 127) / 255) as u8
}

/// A color dimmed to `brightness` out of 255; full brightness keeps it.
pub open spec fn scale_spec(c: RgbColor, brightness: u8) -> RgbColor {
    if brightness >= 255 {
        c
    } else {
        RgbColor {
            r: scale_channel(c.r, brightness),
            g: scale_channel(c.g, brightness),
            b: scale_channel(c.b, brightness),
        }
    }
}

fn scale_ch(value: u8, brightness: u8) -> (r: u8)
    ensures
        r == scale_channel(value, brightness),
        r <= value,
{
    assert(value * brightness <= 255 * 255) by (nonlinear_arith)
        requires
            value <= 255,
            brightness <= 255,
    ;
    assert((value * brightness + 127) / 255 <= value) by (nonlinear_arith)
        requires
            value <= 255,
            brightness <= 255,
    ;
    ((value as u16 * brightness as u16 + 127) / 255) as u8
}

/// Unlit.
pub open spec fn black() -> RgbColor {
    RgbColor { r: 0, g: 0, b: 0 }
}

impl RgbColor {
    pub fn black() -> (c: Self)
        ensures
            c == black(),
    {
        Self { r: 0, g: 0, b: 0 }
    }

    pub fn white() -> (c: Self)
        ensures
            c == (RgbColor { r: 255, g: 255, b: 255 }),
    {
        Self { r: 255, g: 255, b: 255 }
    }

    pub fn red() -> (c: Self)
        ensures
            c == (RgbColor { r: 255, g: 0, b: 0 }),
    {
        Self { r: 255, g: 0, b: 0 }
    }

    pub fn green() -> (c: Self)
        ensures
            c == (RgbColor { r: 0, g: 255, b: 0 }),
    {
        Self { r: 0, g: 255, b: 0 }
    }

    pub fn blue() -> (c: Self)
        ensures
            c == (RgbColor { r: 0, g: 0, b: 255 }),
    {
        Self { r: 0, g: 0, b: 255 }
    }

    pub fn yellow() -> (c: Self)
        ensures
            c == (RgbColor { r: 255, g: 200, b: 0 }),
    {
        Self { r: 255, g: 200, b: 0 }
    }

    pub fn new(r: u8, g: u8, b: u8) -> (c: Self)
        ensures
            c == (RgbColor { r, g, b }),
    {
        Self { r, g, b }
    }

    pub fn scale(self, brightness: u8) -> (c: Self)
        ensures
            c == scale_spec(self, brightness),
    {
        if brightness >= 255 {
            return self;
        }
        Self {
            r: scale_ch(self.r, brightness),
            g: scale_ch(self.g, brightness),
            b: scale_ch(self.b, brightness),
        }
    }
}

#[derive(Clone, Copy, Debug, PartialEq, Eq)]
pub enum PixelMapping {
    RowZigZag,
}

/// The LED index that pixel `(x, y)` drives, if the pixel is on the matrix.
pub open spec fn map_xy_spec(mapping: PixelMapping, x: int, y: int) -> Option<int> {
    if x < 0 || y < 0 || x >= MATRIX_WIDTH || y >= MATRIX_HEIGHT {
        None
    } else {
        match mapping {
            PixelMapping::RowZigZag => Some(
                if y % 2 == 0 {
                    y * MATRIX_WIDTH + x
                } else {
                    y * MATRIX_WIDTH + (MATRIX_WIDTH - 1 - x)
                },
            ),
        }
    }
}

/// Every on-matrix pixel drives an LED of the chain, and no two pixels
/// drive the same LED.
pub proof fn lemma_map_xy_injective(mapping: PixelMapping, x1: int, y1: int, x2: int, y2: int)
    requires
        map_xy_spec(mapping, x1, y1) is Some,
        map_xy_spec(mapping, x2, y2) is Some,
        map_xy_spec(mapping, x1, y1) == map_xy_spec(mapping, x2, y2),
    ensures
        x1 == x2,
        y1 == y2,
        0 <= map_xy_spec(mapping, x1, y1).unwrap() < MATRIX_LED_COUNT,
{
}

/// Abstract value of a [`FrameBuffer`]: the colors in chain order and the
/// wiring of the chain.
pub struct FrameView {
    pub pixels: Seq<RgbColor>,
    pub mapping: PixelMapping,
}

/// The color of pixel `(x, y)`, if it is on the matrix.
pub open spec fn pixel_spec(f: FrameView, x: int, y: int) -> Option<RgbColor> {
    match map_xy_spec(f.mapping, x, y) {
        Some(i) => Some(f.pixels[i]),
        None => None,
    }
}

/// The frame after setting pixel `(x, y)`; off-matrix pixels are ignored.
pub open spec fn set_pixel_spec(f: FrameView, x: int, y: int, color: RgbColor) -> FrameView {
    match map_xy_spec(f.mapping, x, y) {
        Some(i) => FrameView { pixels: f.pixels.update(i, color), mapping: f.mapping },
        None => f,
    }
}

/// `n` pixels of one color.
pub open spec fn solid(n: nat, color: RgbColor) -> Seq<RgbColor> {
    Seq::new(n, |i: int| color)
}

#[derive(Clone)]
pub struct FrameBuffer {
    pixels: [RgbColor; MATRIX_LED_COUNT],
    mapping: PixelMapping,
}

impl View for FrameBuffer {
    type V = FrameView;

    closed spec fn view(&self) -> FrameView {
        FrameView { pixels: self.pixels@, mapping: self.mapping }
    }
}

impl FrameBuffer {
    /// The chain always holds one color per LED.
    pub proof fn lemma_len(&self)
        ensures
            self@.pixels.len() == MATRIX_LED_COUNT,
    {
    }

    pub fn new(mapping: PixelMapping) -> (fb: Self)
        ensures
            fb@.pixels == solid(MATRIX_LED_COUNT as nat, black()),
            fb@.mapping == mapping,
    {
        let fb = Self { pixels: [RgbColor { r: 0, g: 0, b: 0 }; MATRIX_LED_COUNT], mapping };
        assert(fb@.pixels =~= solid(MATRIX_LED_COUNT as nat, black()));
        fb
    }

    pub fn clear(&mut self)
        ensures
            final(self)@.pixels == solid(MATRIX_LED_COUNT as nat, black()),
            final(self)@.mapping == old(self)@.mapping,
    {
        self.fill(RgbColor::black());
    }

    pub fn fill(&mut self, color: RgbColor)
        ensures
            final(self)@.pixels == solid(MATRIX_LED_COUNT as nat, color),
            final(self)@.mapping == old(self)@.mapping,
    {
        let mut i: usize = 0;
        while i < MATRIX_LED_COUNT
            invariant
                i <= MATRIX_LED_COUNT,
                self.mapping == old(self).mapping,
                forall|j: int| 0 <= j < i ==> #[trigger] self.pixels@[j] == color,
            decreases MATRIX_LED_COUNT - i,
        {
            self.pixels[i] = color;
            assert(self.pixels@[i as int] == color);
            i = i + 1;
        }
        assert(self@.pixels =~= solid(MATRIX_LED_COUNT as nat, color));
    }

    pub fn set_pixel(&mut self, x: usize, y: usize, color: RgbColor)
        ensures
            final(self)@ == set_pixel_spec(old(self)@, x as int, y as int, color),
    {
        if let Some(idx) = self.map_xy(x, y) {
            self.pixels[idx] = color;
        }
    }

    /// Set a pixel given by signed coordinates, the way drawing primitives
    /// address it: negative coordinates are skipped, coordinates beyond the
    /// matrix are ignored.
    pub fn draw_point(&mut self, x: i32, y: i32, color: RgbColor)
        ensures
            final(self)@ == set_pixel_spec(old(self)@, x as int, y as int, color),
    {
        if x < 0 || y < 0 {
            return;
        }
        self.set_pixel(x as usize, y as usize, color);
    }

    pub fn pixel(&self, x: usize, y: usize) -> (c: Option<RgbColor>)
        ensures
            c == pixel_spec(self@, x as int, y as int),
    {
        match self.map_xy(x, y) {
            Some(idx) => Some(self.pixels[idx]),
            None => None,
        }
    }

    pub fn pixels(&self) -> (p: &[RgbColor; MATRIX_LED_COUNT])
        ensures
            p@ == self@.pixels,
    {
        &self.pixels
    }

    fn map_xy(&self, x: usize, y: usize) -> (idx: Option<usize>)
        ensures
            match map_xy_spec(self@.mapping, x as int, y as int) {
                Some(i) => idx == Some(i as usize) && i < MATRIX_LED_COUNT,
                None => idx is None,
            },
    {
        if x >= MATRIX_WIDTH || y >= MATRIX_HEIGHT {
            return None;
        }
        match self.mapping {
            PixelMapping::RowZigZag => {
                let row_start = y * MATRIX_WIDTH;
                Some(
                    if y % 2 == 0 {
                        row_start + x
                    } else {
                        row_start + (MATRIX_WIDTH - 1 - x)
                    },
                )
            },
        }
    }
}

impl Default for FrameBuffer {
    fn default() -> (fb: Self)
        ensures
            fb@.pixels == solid(MATRIX_LED_COUNT as nat, black()),
            fb@.mapping == PixelMapping::RowZigZag,
    {
        Self::new(PixelMapping::RowZigZag)
    }
}

/// Reading a pixel gives back the color last written to it; writing a
/// pixel leaves every other pixel as it was.
pub proof fn lemma_set_then_get(f: FrameView, x: int, y: int, color: RgbColor, qx: int, qy: int)
    requires
        f.pixels.len() == MATRIX_LED_COUNT,
    ensures
        map_xy_spec(f.mapping, x, y) is Some ==> pixel_spec(set_pixel_spec(f, x, y, color), x, y)
            == Some(color),
        (qx != x || qy != y) ==> pixel_spec(set_pixel_spec(f, x, y, color), qx, qy) == pixel_spec(
            f,
            qx,
            qy,
        ),
{
    if (qx != x || qy != y) && map_xy_spec(f.mapping, x, y) is Some && map_xy_spec(
        f.mapping,
        qx,
        qy,
    ) is Some {
        if map_xy_spec(f.mapping, x, y) == map_xy_spec(f.mapping, qx, qy) {
            lemma_map_xy_injective(f.mapping, x, y, qx, qy);
        }
    }
}

/// `(x, y)` is a pixel of the matrix.
pub open spec fn on_matrix(x: int, y: int) -> bool {
    0 <= x < MATRIX_WIDTH && 0 <= y < MATRIX_HEIGHT
}

/// Setting one pixel, seen pixel by pixel.
pub proof fn lemma_set_pixel_frame(f: FrameView, x: int, y: int, color: RgbColor)
    requires
        f.pixels.len() == MATRIX_LED_COUNT,
    ensures
        set_pixel_spec(f, x, y, color).pixels.len() == MATRIX_LED_COUNT,
        set_pixel_spec(f, x, y, color).mapping == f.mapping,
        forall|qx: int, qy: int|
            #![trigger pixel_spec(set_pixel_spec(f, x, y, color), qx, qy)]
            pixel_spec(set_pixel_spec(f, x, y, color), qx, qy) == if qx == x && qy == y
                && on_matrix(x, y) {
                Some(color)
            } else {
                pixel_spec(f, qx, qy)
            },
{
    assert forall|qx: int, qy: int|
        #![trigger pixel_spec(set_pixel_spec(f, x, y, color), qx, qy)]
        pixel_spec(set_pixel_spec(f, x, y, color), qx, qy) == if qx == x && qy == y && on_matrix(
            x,
            y,
        ) {
            Some(color)
        } else {
            pixel_spec(f, qx, qy)
        } by {
        lemma_set_then_get(f, x, y, color, qx, qy);
    }
}

/// Something the frame can be pushed to: the LED chain, or a stand-in.
///
/// A sink that states its behaviour overrides `obeys_sink_spec` to be true
/// and says, through `frames` and `outcome`, what it was handed and what it
/// answers; `send` then records the frame it is handed and answers with
/// `outcome`. A sink that states nothing keeps the defaults, and nothing is
/// claimed of it.
pub trait PixelSink: Sized {
    type Error;

    /// Whether this sink keeps the contract of `send`.
    open spec fn obeys_sink_spec() -> bool {
        false
    }

    /// The frames handed to the sink so far, oldest first.
    open spec fn frames(&self) -> Seq<Seq<RgbColor>> {
        Seq::empty()
    }

    /// What the sink, in its present state, answers to being handed
    /// `pixels`.
    open spec fn outcome(&self, pixels: Seq<RgbColor>) -> Result<(), Self::Error> {
        Ok(())
    }

    fn send(&mut self, pixels: &[RgbColor]) -> (r: Result<(), Self::Error>)
        ensures
            Self::obeys_sink_spec() ==> final(self).frames() == old(self).frames().push(pixels@),
            Self::obeys_sink_spec() ==> r == old(self).outcome(pixels@),
    ;
}

#[derive(Debug)]
pub enum DisplayError<SinkError> {
    Sink(SinkError),
}

/// The colors handed to the sink for a frame at `brightness`.
pub open spec fn frame_spec(pixels: Seq<RgbColor>, brightness: u8) -> Seq<RgbColor> {
    Seq::new(pixels.len(), |i: int| scale_spec(pixels[i], brightness))
}

/// Abstract value of a [`MatrixDisplay`]: the frame being drawn, the
/// brightness, and the sink the frames go to.
pub struct DisplayView<SINK> {
    pub buffer: FrameView,
    pub brightness: u8,
    pub sink: SINK,
}

/// What `flush` answers when the sink answers `sink_result`.
pub open spec fn flush_result<E>(sink_result: Result<(), E>) -> Result<(), DisplayError<E>> {
    match sink_result {
        Ok(()) => Ok(()),
        Err(e) => Err(DisplayError::Sink(e)),
    }
}

pub struct MatrixDisplay<SINK: PixelSink> {
    sink: SINK,
    buffer: FrameBuffer,
    brightness: u8,
    scaled: Vec<RgbColor>,
}

impl<SINK: PixelSink> View for MatrixDisplay<SINK> {
    type V = DisplayView<SINK>;

    closed spec fn view(&self) -> DisplayView<SINK> {
        DisplayView { buffer: self.buffer@, brightness: self.brightness, sink: self.sink }
    }
}

impl<SINK: PixelSink> MatrixDisplay<SINK> {
    pub fn new(sink: SINK, mapping: PixelMapping, brightness: u8) -> (d: Self)
        ensures
            d@.buffer.pixels == solid(MATRIX_LED_COUNT as nat, black()),
            d@.buffer.mapping == mapping,
            d@.brightness == brightness,
            d@.sink == sink,
    {
        Self {
            sink,
            buffer: FrameBuffer::new(mapping),
            brightness,
            scaled: Vec::with_capacity(MATRIX_LED_COUNT),
        }
    }

    pub fn dims(&self) -> (d: (usize, usize))
        ensures
            d == (MATRIX_WIDTH, MATRIX_HEIGHT),
    {
        (MATRIX_WIDTH, MATRIX_HEIGHT)
    }

    pub fn framebuffer(&self) -> (fb: &FrameBuffer)
        ensures
            fb@ == self@.buffer,
    {
        &self.buffer
    }

    pub fn framebuffer_mut(&mut self) -> (fb: &mut FrameBuffer)
        ensures
            fb@ == old(self)@.buffer,
            final(self)@.buffer == final(fb)@,
            final(self)@.brightness == old(self)@.brightness,
            final(self)@.sink == old(self)@.sink,
    {
        &mut self.buffer
    }

    pub fn set_brightness(&mut self, brightness: u8)
        ensures
            final(self)@.brightness == brightness,
            final(self)@.buffer == old(self)@.buffer,
            final(self)@.sink == old(self)@.sink,
    {
        self.brightness = brightness;
    }

    pub fn brightness(&self) -> (b: u8)
        ensures
            b == self@.brightness,
    {
        self.brightness
    }

    pub fn set_pixel(&mut self, x: usize, y: usize, color: RgbColor)
        ensures
            final(self)@.buffer == set_pixel_spec(old(self)@.buffer, x as int, y as int, color),
            final(self)@.brightness == old(self)@.brightness,
            final(self)@.sink == old(self)@.sink,
    {
        self.buffer.set_pixel(x, y, color);
    }

    pub fn fill(&mut self, color: RgbColor)
        ensures
            final(self)@.buffer.pixels == solid(MATRIX_LED_COUNT as nat, color),
            final(self)@.buffer.mapping == old(self)@.buffer.mapping,
            final(self)@.brightness == old(self)@.brightness,
            final(self)@.sink == old(self)@.sink,
    {
        self.buffer.fill(color);
    }

    pub fn clear(&mut self)
        ensures
            final(self)@.buffer.pixels == solid(MATRIX_LED_COUNT as nat, black()),
            final(self)@.buffer.mapping == old(self)@.buffer.mapping,
            final(self)@.brightness == old(self)@.brightness,
            final(self)@.sink == old(self)@.sink,
    {
        self.buffer.clear();
    }

    /// Hand the frame, dimmed to the current brightness, to the sink once,
    /// and pass on what the sink answers.
    pub fn flush(&mut self) -> (r: Result<(), DisplayError<SINK::Error>>)
        ensures
            SINK::obeys_sink_spec() ==> final(self)@.sink.frames() == old(self)@.sink.frames().push(
                frame_spec(old(self)@.buffer.pixels, old(self)@.brightness),
            ),
            SINK::obeys_sink_spec() ==> r == flush_result(
                old(self)@.sink.outcome(frame_spec(old(self)@.buffer.pixels, old(self)@.brightness)),
            ),
            final(self)@.buffer == old(self)@.buffer,
            final(self)@.brightness == old(self)@.brightness,
    {
        self.scaled.clear();
        let mut i: usize = 0;
        while i < MATRIX_LED_COUNT
            invariant
                i <= MATRIX_LED_COUNT,
                self.buffer@ == old(self).buffer@,
                self.brightness == old(self).brightness,
                self.buffer@.pixels.len() == MATRIX_LED_COUNT,
                self.sink == old(self).sink,
                self.scaled@ == frame_spec(self.buffer@.pixels, self.brightness).take(i as int),
            decreases MATRIX_LED_COUNT - i,
        {
            let color = self.buffer.pixels[i];
            self.scaled.push(color.scale(self.brightness));
            i = i + 1;
            assert(self.scaled@ =~= frame_spec(self.buffer@.pixels, self.brightness).take(
                i as int,
            ));
        }
        assert(self.scaled@ =~= frame_spec(self.buffer@.pixels, self.brightness));
        match self.sink.send(self.scaled.as_slice()) {
            Ok(()) => Ok(()),
            Err(e) => Err(DisplayError::Sink(e)),
        }
    }
}

} // verus!
