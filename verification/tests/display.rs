use ulanzi_pomodoro::display::ws2812::{encode_pixel_bits, ticks, Ws2812Timing};
use ulanzi_pomodoro::display::{
    DisplayError, FrameBuffer, MatrixDisplay, PixelMapping, PixelSink, RgbColor, MATRIX_LED_COUNT,
};

use std::cell::RefCell;
use std::rc::Rc;

struct Recorder {
    frames: Rc<RefCell<Vec<Vec<RgbColor>>>>,
    fail: bool,
}

impl PixelSink for Recorder {
    type Error = u8;

    fn send(&mut self, pixels: &[RgbColor]) -> Result<(), u8> {
        self.frames.borrow_mut().push(pixels.to_vec());
        if self.fail {
            Err(7)
        } else {
            Ok(())
        }
    }
}

#[test]
fn scale_rounds_to_nearest_and_keeps_full_brightness() {
    let c = RgbColor::new(255, 128, 1);
    assert_eq!(c.scale(255), c);
    assert_eq!(c.scale(0), RgbColor::new(0, 0, 0));
    assert_eq!(c.scale(128), RgbColor::new(128, 64, 1));
    assert_eq!(RgbColor::new(10, 10, 10).scale(64), RgbColor::new(3, 3, 3));
}

#[test]
fn zigzag_mapping() {
    let mut fb = FrameBuffer::new(PixelMapping::RowZigZag);
    fb.set_pixel(0, 0, RgbColor::red());
    fb.set_pixel(0, 1, RgbColor::green());
    fb.set_pixel(31, 1, RgbColor::blue());
    assert_eq!(fb.pixels()[0], RgbColor::red());
    assert_eq!(fb.pixels()[63], RgbColor::green());
    assert_eq!(fb.pixels()[32], RgbColor::blue());
    assert_eq!(fb.pixel(0, 1), Some(RgbColor::green()));
    assert_eq!(fb.pixel(32, 0), None);
    assert_eq!(fb.pixel(0, 8), None);
    // Off-matrix writes are ignored.
    fb.set_pixel(40, 2, RgbColor::white());
    fb.draw_point(-1, 3, RgbColor::white());
    assert!(fb.pixels().iter().filter(|c| **c == RgbColor::white()).count() == 0);
    fb.draw_point(2, 3, RgbColor::yellow());
    assert_eq!(fb.pixel(2, 3), Some(RgbColor::yellow()));
    fb.fill(RgbColor::white());
    assert!(fb.pixels().iter().all(|c| *c == RgbColor::white()));
    fb.clear();
    assert!(fb.pixels().iter().all(|c| *c == RgbColor::black()));
}

#[test]
fn flush_sends_scaled_frame() {
    let frames = Rc::new(RefCell::new(Vec::new()));
    let sink = Recorder { frames: frames.clone(), fail: false };
    let mut d = MatrixDisplay::new(sink, PixelMapping::RowZigZag, 128);
    assert_eq!(d.dims(), (32, 8));
    d.set_pixel(1, 0, RgbColor::new(255, 255, 255));
    assert!(d.flush().is_ok());
    d.set_brightness(255);
    assert_eq!(d.brightness(), 255);
    assert!(d.flush().is_ok());
    {
        let f = frames.borrow();
        assert_eq!(f.len(), 2);
        assert_eq!(f[0].len(), MATRIX_LED_COUNT);
        assert_eq!(f[0][1], RgbColor::new(128, 128, 128));
        assert_eq!(f[1][1], RgbColor::new(255, 255, 255));
        assert_eq!(f[0][0], RgbColor::black());
    }
    d.fill(RgbColor::red());
    d.clear();
    assert_eq!(d.framebuffer().pixel(1, 0), Some(RgbColor::black()));
    d.framebuffer_mut().set_pixel(2, 0, RgbColor::green());
    assert_eq!(d.framebuffer().pixel(2, 0), Some(RgbColor::green()));

    let failing = Recorder { frames: Rc::new(RefCell::new(Vec::new())), fail: true };
    let mut d2 = MatrixDisplay::new(failing, PixelMapping::RowZigZag, 10);
    assert!(matches!(d2.flush(), Err(DisplayError::Sink(7))));
}

#[test]
fn ws2812_timing_and_ticks() {
    let t = Ws2812Timing::ws2812_800khz();
    assert_eq!((t.t0h_ns, t.t0l_ns, t.t1h_ns, t.t1l_ns, t.reset_ns), (350, 900, 700, 600, 300_000));
    // 80 MHz: 12.5 ns per tick, rounded up.
    assert_eq!(ticks(80_000_000, 350, 32_767), 28);
    assert_eq!(ticks(80_000_000, 351, 32_767), 29);
    assert_eq!(ticks(80_000_000, 300_000, 32_767), 24_000);
    assert_eq!(ticks(80_000_000, 1_000_000, 32_767), 32_767);
}

#[test]
fn ws2812_bits_are_grb_msb_first() {
    let bits = encode_pixel_bits(&[RgbColor::new(0x01, 0x80, 0x00)]);
    assert_eq!(bits.len(), 24);
    // Green first: 0x80.
    assert!(bits[0]);
    assert!(bits[1..8].iter().all(|b| !*b));
    // Then red: 0x01.
    assert!(bits[8..15].iter().all(|b| !*b));
    assert!(bits[15]);
    // Then blue: 0x00.
    assert!(bits[16..].iter().all(|b| !*b));
    assert!(encode_pixel_bits(&[]).is_empty());
}
