//! The wire encodings of the two pixel formats.
use crate::rgb111::Rgb111;
use embedded_graphics_core::pixelcolor::RgbColor;
use vstd::prelude::*;

verus! {

/// An 18-bit colour: three 6-bit channels.
#[derive(Copy, Clone, PartialEq, Eq, Structural, Debug)]
pub struct Rgb666 {
    r: u8,
    g: u8,
    b: u8,
}

impl Rgb666 {
    /// Every channel fits in 6 bits.
    #[verifier::type_invariant]
    pub closed spec fn wf(self) -> bool {
        self.r < 64 && self.g < 64 && self.b < 64
    }

    /// Red channel, 0 to 63.
    pub closed spec fn red(self) -> u8 {
        self.r
    }

    /// Green channel, 0 to 63.
    pub closed spec fn green(self) -> u8 {
        self.g
    }

    /// Blue channel, 0 to 63.
    pub closed spec fn blue(self) -> u8 {
        self.b
    }

    /// Creates a colour; bits above the sixth of each channel are dropped.
    pub fn new(r: u8, g: u8, b: u8) -> (c: Rgb666)
        ensures
            c.red() == r % 64,
            c.green() == g % 64,
            c.blue() == b % 64,
    {
        assert(r & 0x3f == r % 64) by (bit_vector);
        assert(g & 0x3f == g % 64) by (bit_vector);
        assert(b & 0x3f == b % 64) by (bit_vector);
        Rgb666 { r: r & 0x3f, g: g & 0x3f, b: b & 0x3f }
    }

    /// Red channel, 0 to 63.
    pub fn r(&self) -> (v: u8)
        ensures
            v == self.red(),
            v < 64,
    {
        proof {
            use_type_invariant(self);
        }
        self.r
    }

    /// Green channel, 0 to 63.
    pub fn g(&self) -> (v: u8)
        ensures
            v == self.green(),
            v < 64,
    {
        proof {
            use_type_invariant(self);
        }
        self.g
    }

    /// Blue channel, 0 to 63.
    pub fn b(&self) -> (v: u8)
        ensures
            v == self.blue(),
            v < 64,
    {
        proof {
            use_type_invariant(self);
        }
        self.b
    }
}

/// A 6-bit channel placed in the high bits of its wire byte.
pub open spec fn wide_channel(v: u8) -> u8 {
    (v * 4) as u8
}

/// The three wire bytes of a channel triple in the wide format.
pub open spec fn wide_triple(r: u8, g: u8, b: u8) -> Seq<u8> {
    seq![wide_channel(r), wide_channel(g), wide_channel(b)]
}

/// The three wire bytes of a colour in the wide format.
pub open spec fn wide_bytes(c: Rgb666) -> Seq<u8> {
    wide_triple(c.red(), c.green(), c.blue())
}

/// The channel triple read back from three wire bytes, padding bits dropped.
pub open spec fn wide_decode(bytes: Seq<u8>) -> (u8, u8, u8) {
    ((bytes[0] / 4) as u8, (bytes[1] / 4) as u8, (bytes[2] / 4) as u8)
}

/// Encodes one colour for the wide format: each channel shifted into the
/// top six bits of its byte.
pub fn encode_wide(c: &Rgb666) -> (bytes: [u8; 3])
    ensures
        bytes@ == wide_bytes(*c),
{
    let r = c.r();
    let g = c.g();
    let b = c.b();
    assert(r < 64 ==> r << 2 == r * 4) by (bit_vector);
    assert(g < 64 ==> g << 2 == g * 4) by (bit_vector);
    assert(b < 64 ==> b << 2 == b * 4) by (bit_vector);
    let bytes = [r << 2, g << 2, b << 2];
    assert(bytes@ =~= wide_bytes(*c));
    bytes
}

/// Decoding the wire bytes of a colour gives back its channels exactly.
pub proof fn lemma_wide_round_trip(c: Rgb666)
    requires
        c.wf(),
    ensures
        wide_decode(wide_bytes(c)) == (c.red(), c.green(), c.blue()),
{
}

/// Two 3-bit codes packed into one byte: the first in bits 5..3, the
/// second in bits 2..0.
pub open spec fn pack_pair(first: u8, second: u8) -> u8 {
    (first * 8 + second) as u8
}

/// The packed wire bytes of a pixel sequence: one byte per pair, the last
/// pixel of an odd-length sequence paired with the black code 0.
pub open spec fn packed_bytes(pixels: Seq<Rgb111>) -> Seq<u8> {
    Seq::new(
        ((pixels.len() + 1) / 2) as nat,
        |i: int|
            pack_pair(
                pixels[2 * i].code(),
                if 2 * i + 1 < pixels.len() {
                    pixels[2 * i + 1].code()
                } else {
                    0u8
                },
            ),
    )
}

/// `(first << 3) | second` for two 3-bit codes.
pub(crate) fn pack_codes(first: u8, second: u8) -> (r: u8)
    requires
        first < 8,
        second < 8,
    ensures
        r == pack_pair(first, second),
{
    assert(first < 8 && second < 8 ==> (first << 3) | second == first * 8 + second) by (bit_vector);
    (first << 3) | second
}

/// Encodes a pixel sequence for the packed format.
pub fn encode_packed(pixels: &[Rgb111]) -> (bytes: Vec<u8>)
    ensures
        bytes@ == packed_bytes(pixels@),
{
    let n = pixels.len();
    let mut bytes: Vec<u8> = Vec::new();
    let mut i: usize = 0;
    while i < n
        invariant
            n == pixels@.len(),
            i <= n,
            i % 2 == 0 || i == n,
            bytes@.len() == (i + 1) / 2,
            forall|k: int| 0 <= k < bytes@.len() ==> #[trigger] bytes@[k] == packed_bytes(pixels@)[k],
        decreases n - i,
    {
        let first = pixels[i].raw();
        if i + 1 < n {
            let second = pixels[i + 1].raw();
            bytes.push(pack_codes(first, second));
            i = i + 2;
        } else {
            bytes.push(pack_codes(first, 0));
            i = i + 1;
        }
    }
    assert(bytes@ =~= packed_bytes(pixels@));
    bytes
}

/// The packed format sends one byte per two pixels, rounding up, and for an
/// even count byte `i` packs pixels `2i` and `2i + 1`.
pub proof fn lemma_packed_length(pixels: Seq<Rgb111>)
    ensures
        packed_bytes(pixels).len() == (pixels.len() + 1) / 2,
        pixels.len() % 2 == 0 ==> forall|i: int|
            0 <= i < pixels.len() / 2 ==> #[trigger] packed_bytes(pixels)[i] == pack_pair(
                pixels[2 * i].code(),
                pixels[2 * i + 1].code(),
            ),
{
}

/// The last byte of an odd-length packed sequence holds the black code in
/// its low three bits, whatever the pixels.
pub proof fn lemma_packed_odd_tail(pixels: Seq<Rgb111>)
    requires
        pixels.len() % 2 == 1,
    ensures
        packed_bytes(pixels).last() % 8 == 0,
{
    let n = packed_bytes(pixels).len();
    let c = pixels[2 * (n - 1)].code();
    assert(2 * (n - 1) + 1 >= pixels.len());
    assert(c < 8);
    assert(packed_bytes(pixels).last() == pack_pair(c, 0));
}

/// Red and blue of a 5-6-5 colour widened to 6 bits by
/// embedded_graphics_core's fixed-point rounding: `v * 63 / 31` rounded,
/// computed as `(v * ((63 << 24) / 31) + (1 << 23)) >> 24`.
pub open spec fn widen_5_to_6(v: u8) -> u8 {
    ((v as int * 34095632 + 8388608) / 16777216) as u8
}

/// Relies on embedded_graphics_core's `Rgb666::from(Rgb565::new(r, g, b))`:
/// `Rgb565::new` keeps channels that fit (5, 6, 5 bits); the conversion
/// widens red and blue by the fixed-point rounding of `widen_5_to_6` and
/// keeps green, whose depth is already 6 bits.
#[verifier::external_body]
fn rgb565_to_rgb666(r: u8, g: u8, b: u8) -> (c: Rgb666)
    requires
        r < 32,
        g < 64,
        b < 32,
    ensures
        c.red() == widen_5_to_6(r),
        c.green() == g,
        c.blue() == widen_5_to_6(b),
{
    let c = embedded_graphics_core::pixelcolor::Rgb666::from(
        embedded_graphics_core::pixelcolor::Rgb565::new(r, g, b),
    );
    Rgb666 { r: c.r(), g: c.g(), b: c.b() }
}

/// The 5-bit red field of a 5-6-5 word.
pub open spec fn rgb565_red(word: u16) -> u8 {
    (word / 2048) as u8
}

/// The 6-bit green field of a 5-6-5 word.
pub open spec fn rgb565_green(word: u16) -> u8 {
    ((word / 32) % 64) as u8
}

/// The 5-bit blue field of a 5-6-5 word.
pub open spec fn rgb565_blue(word: u16) -> u8 {
    (word % 32) as u8
}

/// The wide-format wire bytes of a 5-6-5 word.
pub open spec fn rgb565_wide_bytes(word: u16) -> Seq<u8> {
    wide_triple(widen_5_to_6(rgb565_red(word)), rgb565_green(word), widen_5_to_6(rgb565_blue(word)))
}

/// Converts a 5-6-5 word (red in the top five bits) to an 18-bit colour.
pub fn rgb565_word_to_rgb666(word: u16) -> (c: Rgb666)
    ensures
        wide_bytes(c) == rgb565_wide_bytes(word),
{
    assert((word & (0x1fu16 << 11u16)) >> 11u16 == word / 2048) by (bit_vector);
    assert((word & (0x3fu16 << 5u16)) >> 5u16 == (word / 32) % 64) by (bit_vector);
    assert(word & 0x1f == word % 32) by (bit_vector);
    let r = ((word & (0b11111u16 << 11u16)) >> 11u16) as u8;
    let g = ((word & (0b111111u16 << 5u16)) >> 5u16) as u8;
    let b = (word & 0b11111) as u8;
    rgb565_to_rgb666(r, g, b)
}

} // verus!
