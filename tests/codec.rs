use ili9488::codec::{encode_packed, encode_wide, rgb565_word_to_rgb666};
use ili9488::{Rgb111, Rgb666};

const ALL: [Rgb111; 8] = [
    Rgb111::BLACK,
    Rgb111::RED,
    Rgb111::GREEN,
    Rgb111::BLUE,
    Rgb111::YELLOW,
    Rgb111::MAGENTA,
    Rgb111::CYAN,
    Rgb111::WHITE,
];

#[test]
fn rgb111_codes() {
    let codes: Vec<u8> = ALL.iter().map(|c| c.raw()).collect();
    assert_eq!(codes, vec![0b000, 0b100, 0b010, 0b001, 0b110, 0b101, 0b011, 0b111]);
    for c in ALL {
        assert_eq!(c.into_storage(), c.raw());
        assert_eq!(c.raw(), (c.r() << 2) | (c.g() << 1) | c.b());
    }
}

#[test]
fn packed_even_length_pairs() {
    let pixels = [Rgb111::RED, Rgb111::GREEN, Rgb111::WHITE, Rgb111::BLUE];
    let bytes = encode_packed(&pixels);
    assert_eq!(bytes, vec![(0b100 << 3) | 0b010, (0b111 << 3) | 0b001]);
}

#[test]
fn packed_length_is_half_rounded_up() {
    for n in 0..9 {
        let pixels: Vec<Rgb111> = (0..n).map(|i| ALL[i % 8]).collect();
        assert_eq!(encode_packed(&pixels).len(), (n + 1) / 2);
    }
}

#[test]
fn packed_odd_tail_is_black() {
    for last in ALL {
        let pixels = [Rgb111::WHITE, Rgb111::WHITE, last];
        let bytes = encode_packed(&pixels);
        assert_eq!(bytes.len(), 2);
        assert_eq!(bytes[1] & 0b111, 0);
        assert_eq!(bytes[1], last.raw() << 3);
    }
}

#[test]
fn packed_empty() {
    assert!(encode_packed(&[]).is_empty());
}

#[test]
fn wide_encoding_shifts_channels() {
    assert_eq!(encode_wide(&Rgb666::new(1, 2, 3)), [4, 8, 12]);
    assert_eq!(encode_wide(&Rgb666::new(63, 63, 63)), [252, 252, 252]);
    assert_eq!(encode_wide(&Rgb666::new(0, 0, 0)), [0, 0, 0]);
}

#[test]
fn wide_round_trip_exact() {
    for r in 0..64u8 {
        let c = Rgb666::new(r, 63 - r, r / 2);
        let bytes = encode_wide(&c);
        assert_eq!((bytes[0] >> 2, bytes[1] >> 2, bytes[2] >> 2), (c.r(), c.g(), c.b()));
        assert_eq!(bytes.iter().map(|b| b & 0b11).sum::<u8>(), 0);
    }
}

#[test]
fn rgb666_new_drops_high_bits() {
    let c = Rgb666::new(64 + 5, 255, 128);
    assert_eq!((c.r(), c.g(), c.b()), (5, 63, 0));
}

#[test]
fn rgb565_conversion_widens_red_and_blue() {
    let white = rgb565_word_to_rgb666(0xFFFF);
    assert_eq!((white.r(), white.g(), white.b()), (63, 63, 63));
    let c = rgb565_word_to_rgb666(0x0800 | 0x0020 | 0x0001);
    assert_eq!((c.r(), c.g(), c.b()), (2, 1, 2));
    let mid = rgb565_word_to_rgb666(0x8000 | 0x0010);
    assert_eq!((mid.r(), mid.g(), mid.b()), (33, 0, 33));
}
