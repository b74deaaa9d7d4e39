//! WS2812B line coding: pulse lengths in clock ticks and the order in which
//! the color bits go out on the wire.

use vstd::prelude::*;

use super::RgbColor;

verus! {

#[derive(Clone, Copy, Debug)]
pub struct Ws2812Timing {
    pub t0h_ns: u16,
    pub t0l_ns: u16,
    pub t1h_ns: u16,
    pub t1l_ns: u16,
    pub reset_ns: u32,
}

impl Ws2812Timing {
    pub fn ws2812_800khz() -> (t: Self)
        ensures
            t.t0h_ns == 350,
            t.t0l_ns == 900,
            t.t1h_ns == 700,
            t.t1l_ns == 600,
            t.reset_ns == 300_000,
    {
        Self { t0h_ns: 350, t0l_ns: 900, t1h_ns: 700, t1l_ns: 600, reset_ns: 300_000 }
    }
}

/// Number of ticks of a `clock_hz` clock that cover `ns` nanoseconds
/// (rounded up), capped at `max_ticks`, the longest pulse the peripheral
/// can produce.
pub open spec fn ticks_spec(clock_hz: u32, ns: u32, max_ticks: u16) -> u16 {
    let t = (clock_hz * ns + 999_999_999) / 1_000_000_000;
    if t > max_ticks {
        max_ticks
    } else {
        t as u16
    }
}

pub fn ticks(clock_hz: u32, ns: u32, max_ticks: u16) -> (t: u16)
    ensures
        t == ticks_spec(clock_hz, ns, max_ticks),
{
    assert(clock_hz * ns <= u32::MAX * u32::MAX) by (nonlinear_arith)
        requires
            clock_hz <= u32::MAX,
            ns <= u32::MAX,
    ;
    let numerator = clock_hz as u64 * ns as u64;
    let ticks = (numerator + 999_999_999) / 1_000_000_000;
    if ticks > max_ticks as u64 {
        max_ticks
    } else {
        ticks as u16
    }
}

/// The 8 bits of a byte, most significant first.
pub open spec fn byte_bits(v: u8) -> Seq<bool> {
    Seq::new(8, |i: int| (v >> ((7 - i) as u8)) & 1u8 == 1u8)
}

/// The 24 bits sent for one color: green, red, blue, each most significant
/// bit first (the WS2812B byte order is G, R, B).
pub open spec fn color_bits(c: RgbColor) -> Seq<bool> {
    byte_bits(c.g) + byte_bits(c.r) + byte_bits(c.b)
}

/// The bits sent for a run of pixels, in chain order.
pub open spec fn pixels_bits(pixels: Seq<RgbColor>) -> Seq<bool>
    decreases pixels.len(),
{
    if pixels.len() == 0 {
        Seq::empty()
    } else {
        pixels_bits(pixels.drop_last()) + color_bits(pixels.last())
    }
}

fn push_byte_bits(out: &mut Vec<bool>, v: u8)
    ensures
        final(out)@ == old(out)@ + byte_bits(v),
{
    let mut bit: u8 = 8;
    while bit > 0
        invariant
            bit <= 8,
            out@ == old(out)@ + byte_bits(v).take(8 - bit),
        decreases bit,
    {
        bit = bit - 1;
        out.push((v >> bit) & 1 == 1);
        assert(out@ =~= old(out)@ + byte_bits(v).take(8 - bit));
    }
    assert(byte_bits(v).take(8) =~= byte_bits(v));
}

/// The bit stream for `pixels`: one entry per bit, `true` for a one-bit.
pub fn encode_pixel_bits(pixels: &[RgbColor]) -> (bits: Vec<bool>)
    ensures
        bits@ == pixels_bits(pixels@),
{
    let mut bits: Vec<bool> = Vec::new();
    let n = pixels.len();
    let mut i: usize = 0;
    while i < n
        invariant
            n == pixels@.len(),
            i <= n,
            bits@ == pixels_bits(pixels@.take(i as int)),
        decreases n - i,
    {
        let c = pixels[i];
        push_byte_bits(&mut bits, c.g);
        push_byte_bits(&mut bits, c.r);
        push_byte_bits(&mut bits, c.b);
        proof {
            let t = pixels@.take(i + 1);
            assert(t.drop_last() =~= pixels@.take(i as int));
            assert(t.last() == c);
        }
        i = i + 1;
        assert(bits@ =~= pixels_bits(pixels@.take(i as int)));
    }
    assert(pixels@.take(n as int) =~= pixels@);
    bits
}

/// Every pixel is sent as exactly 24 bits, in chain order: the bits of
/// pixel `i` are bits `24 * i .. 24 * i + 24` of the stream.
pub proof fn lemma_pixels_bits_layout(pixels: Seq<RgbColor>)
    ensures
        pixels_bits(pixels).len() == 24 * pixels.len(),
        forall|i: int|
            0 <= i < pixels.len() ==> #[trigger] pixels_bits(pixels).subrange(24 * i, 24 * i + 24)
                == color_bits(pixels[i]),
    decreases pixels.len(),
{
    if pixels.len() > 0 {
        let pre = pixels.drop_last();
        lemma_pixels_bits_layout(pre);
        let b = pixels_bits(pixels);
        assert forall|i: int| 0 <= i < pixels.len() implies #[trigger] b.subrange(24 * i, 24 * i + 24)
            == color_bits(pixels[i]) by {
            if i < pixels.len() - 1 {
                assert(b.subrange(24 * i, 24 * i + 24) =~= pixels_bits(pre).subrange(24 * i, 24 * i + 24));
                assert(pre[i] == pixels[i]);
            } else {
                assert(b.subrange(24 * i, 24 * i + 24) =~= color_bits(pixels.last()));
            }
        }
    }
}

} // verus!
