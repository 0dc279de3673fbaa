use std::cell::RefCell;
use std::rc::Rc;

use display_interface::DisplayError;
use ili9488::{
    AdaptiveBrightness, Bus, Delay, FrameRate, FrameRateClockDivision, Ili9488, ModeState, Orientation, ResetPin,
    Rgb111, Rgb111Mode, Rgb666, Rgb666Mode,
};

#[derive(Debug, Clone, PartialEq)]
enum Tx {
    Cmd(Vec<u8>),
    Data(Vec<u8>),
    High,
    Low,
    Wait(u32),
}

type Log = Rc<RefCell<Vec<Tx>>>;

type Countdown = Rc<RefCell<Option<usize>>>;

/// Records every transaction; when the countdown reaches zero, that bus
/// call fails.
struct Wire {
    log: Log,
    fail_in: Countdown,
}

impl Wire {
    fn step(&self) -> Result<(), DisplayError> {
        let mut fail_in = self.fail_in.borrow_mut();
        match *fail_in {
            Some(0) => {
                *fail_in = None;
                Err(DisplayError::BusWriteError)
            }
            Some(k) => {
                *fail_in = Some(k - 1);
                Ok(())
            }
            None => Ok(()),
        }
    }
}

impl Bus for Wire {
    fn send_commands(&mut self, cmd: &[u8]) -> Result<(), DisplayError> {
        self.log.borrow_mut().push(Tx::Cmd(cmd.to_vec()));
        self.step()
    }

    fn send_data(&mut self, data: &[u8]) -> Result<(), DisplayError> {
        self.log.borrow_mut().push(Tx::Data(data.to_vec()));
        self.step()
    }

    fn send_data_repeated(&mut self, byte: u8, count: usize) -> Result<(), DisplayError> {
        self.log.borrow_mut().push(Tx::Data(vec![byte; count]));
        self.step()
    }
}

struct Pin {
    log: Log,
    fail: bool,
}

impl ResetPin for Pin {
    fn set_high(&mut self) -> Result<(), DisplayError> {
        self.log.borrow_mut().push(Tx::High);
        Ok(())
    }

    fn set_low(&mut self) -> Result<(), DisplayError> {
        self.log.borrow_mut().push(Tx::Low);
        if self.fail {
            Err(DisplayError::RSError)
        } else {
            Ok(())
        }
    }
}

struct Wait {
    log: Log,
}

impl Delay for Wait {
    fn delay_ms(&mut self, ms: u32) {
        self.log.borrow_mut().push(Tx::Wait(ms));
    }
}

fn parts(fail_in: Option<usize>) -> (Wire, Pin, Wait, Log) {
    let log: Log = Rc::new(RefCell::new(Vec::new()));
    let wire = Wire { log: log.clone(), fail_in: Rc::new(RefCell::new(fail_in)) };
    let pin = Pin { log: log.clone(), fail: false };
    let wait = Wait { log: log.clone() };
    (wire, pin, wait, log)
}

fn wide(orientation: Orientation) -> (Ili9488<Wire, Pin, Rgb666Mode>, Log) {
    let (display, log, _fail_in) = wide_failing(orientation);
    (display, log)
}

fn wide_failing(orientation: Orientation) -> (Ili9488<Wire, Pin, Rgb666Mode>, Log, Countdown) {
    let (wire, pin, mut wait, log) = parts(None);
    let fail_in = wire.fail_in.clone();
    let display = Ili9488::new(wire, pin, &mut wait, orientation, Rgb666Mode).unwrap();
    log.borrow_mut().clear();
    (display, log, fail_in)
}

fn packed(orientation: Orientation) -> (Ili9488<Wire, Pin, Rgb111Mode>, Log) {
    let (wire, pin, mut wait, log) = parts(None);
    let display = Ili9488::new(wire, pin, &mut wait, orientation, Rgb111Mode).unwrap();
    log.borrow_mut().clear();
    (display, log)
}

fn taken(log: &Log) -> Vec<Tx> {
    std::mem::take(&mut *log.borrow_mut())
}

fn cmd(op: u8) -> Tx {
    Tx::Cmd(vec![op])
}

fn data(bytes: &[u8]) -> Tx {
    Tx::Data(bytes.to_vec())
}

#[test]
fn init_sequence_in_order() {
    let (wire, pin, mut wait, log) = parts(None);
    let display = Ili9488::new(wire, pin, &mut wait, Orientation::Portrait, Rgb666Mode).unwrap();
    let got = taken(&log);
    let expected = vec![
        cmd(0x00),
        data(&[]),
        Tx::High,
        Tx::Wait(5),
        Tx::Low,
        Tx::Wait(20),
        Tx::High,
        Tx::Wait(150),
        cmd(0x01),
        data(&[]),
        Tx::Wait(150),
        cmd(0xe0),
        data(&[0x00, 0x03, 0x09, 0x08, 0x16, 0x0A, 0x3F, 0x78, 0x4C, 0x09, 0x0A, 0x08, 0x16, 0x1A, 0x0F]),
        cmd(0xe1),
        data(&[0x00, 0x16, 0x19, 0x03, 0x0F, 0x05, 0x32, 0x45, 0x46, 0x04, 0x0E, 0x0D, 0x35, 0x37, 0x0F]),
        cmd(0xc0),
        data(&[0x17, 0x15]),
        cmd(0xc1),
        data(&[0x41]),
        cmd(0xc5),
        data(&[0x00, 0x12, 0x80]),
        cmd(0x36),
        data(&[0x48]),
        cmd(0x3a),
        data(&[0x66]),
        cmd(0xb0),
        data(&[0x00]),
        cmd(0xb1),
        data(&[0xA0]),
        cmd(0xb4),
        data(&[0x02]),
        cmd(0xb6),
        data(&[0x02, 0x02, 0x3B]),
        cmd(0xb7),
        data(&[0xC6]),
        cmd(0xf7),
        data(&[0xA9, 0x51, 0x2C, 0x82]),
        cmd(0x11),
        data(&[]),
        cmd(0x36),
        data(&[0x48]),
        cmd(0x29),
        data(&[]),
    ];
    assert_eq!(got, expected);
    assert_eq!(display.width(), 320);
    assert_eq!(display.height(), 480);
}

#[test]
fn init_packed_format_code() {
    let (wire, pin, mut wait, log) = parts(None);
    let _display = Ili9488::new(wire, pin, &mut wait, Orientation::Landscape, Rgb111Mode).unwrap();
    let got = taken(&log);
    assert_eq!(got[23], cmd(0x3a));
    assert_eq!(got[24], data(&[0x01]));
    assert_eq!(got[got.len() - 3], data(&[0x28]));
}

#[test]
fn init_landscape_swaps_size() {
    let (display, _log) = wide(Orientation::Landscape);
    assert_eq!(display.width(), 480);
    assert_eq!(display.height(), 320);
}

#[test]
fn init_stops_on_reset_line_failure() {
    let (wire, mut pin, mut wait, log) = parts(None);
    pin.fail = true;
    let r = Ili9488::new(wire, pin, &mut wait, Orientation::Portrait, Rgb666Mode);
    assert!(matches!(r, Err(DisplayError::RSError)));
    assert_eq!(taken(&log), vec![cmd(0x00), data(&[]), Tx::High, Tx::Wait(5), Tx::Low]);
}

#[test]
fn init_stops_on_bus_failure() {
    let (wire, pin, mut wait, log) = parts(Some(2));
    let r = Ili9488::new(wire, pin, &mut wait, Orientation::Portrait, Rgb666Mode);
    assert!(matches!(r, Err(DisplayError::BusWriteError)));
    assert_eq!(taken(&log).last(), Some(&cmd(0x01)));
}

#[test]
fn set_window_parameters() {
    let (mut display, log) = wide(Orientation::Portrait);
    display.set_window(10, 20, 110, 220).unwrap();
    assert_eq!(
        taken(&log),
        vec![cmd(0x2a), data(&[0x00, 0x0A, 0x00, 0x6E]), cmd(0x2b), data(&[0x00, 0x14, 0x00, 0xDC])]
    );
}

#[test]
fn set_window_large_bounds_big_endian() {
    let (mut display, log) = wide(Orientation::Portrait);
    display.set_window(0x0102, 0x0304, 0xA0B0, 0xFFFF).unwrap();
    assert_eq!(
        taken(&log),
        vec![cmd(0x2a), data(&[0x01, 0x02, 0xA0, 0xB0]), cmd(0x2b), data(&[0x03, 0x04, 0xFF, 0xFF])]
    );
}

#[test]
fn failed_command_phase_sends_no_data() {
    let (mut display, log, fail_in) = wide_failing(Orientation::Portrait);
    *fail_in.borrow_mut() = Some(0);
    let r = display.set_window(1, 2, 3, 4);
    assert!(matches!(r, Err(DisplayError::BusWriteError)));
    assert_eq!(taken(&log), vec![cmd(0x2a)]);
}

#[test]
fn set_window_failure_is_first_error() {
    let (mut display, log, fail_in) = wide_failing(Orientation::Portrait);
    *fail_in.borrow_mut() = Some(1);
    let r = display.set_window(1, 2, 3, 4);
    assert!(matches!(r, Err(DisplayError::BusWriteError)));
    assert_eq!(taken(&log), vec![cmd(0x2a), data(&[0, 1, 0, 3])]);
}

#[test]
fn failed_orientation_keeps_size() {
    let (mut display, log, fail_in) = wide_failing(Orientation::Portrait);
    *fail_in.borrow_mut() = Some(1);
    let r = display.set_orientation(Orientation::Landscape);
    assert!(matches!(r, Err(DisplayError::BusWriteError)));
    assert_eq!((display.width(), display.height()), (320, 480));
    assert_eq!(taken(&log), vec![cmd(0x36), data(&[0x28])]);
}

#[test]
fn configure_vertical_scroll_portrait() {
    let (mut display, log) = wide(Orientation::Portrait);
    let scroller = display.configure_vertical_scroll(10, 5).unwrap();
    assert_eq!(scroller.top_offset(), 10);
    // 465 scroll lines
    assert_eq!(taken(&log), vec![cmd(0x33), data(&[0x00, 0x0A, 0x01, 0xD1, 0x00, 0x05])]);
}

#[test]
fn configure_vertical_scroll_landscape_uses_logical_height() {
    let (mut display, log) = wide(Orientation::Landscape);
    let scroller = display.configure_vertical_scroll(0, 0).unwrap();
    assert_eq!(scroller.top_offset(), 0);
    assert_eq!(taken(&log), vec![cmd(0x33), data(&[0x00, 0x00, 0x01, 0x40, 0x00, 0x00])]);
}

#[test]
fn scroll_steps_and_wraps() {
    let (mut display, log) = wide(Orientation::Portrait);
    let mut scroller = display.configure_vertical_scroll(10, 5).unwrap();
    taken(&log);
    for expected in 11u16..=475 {
        display.scroll_vertically(&mut scroller, 1).unwrap();
        assert_eq!(scroller.top_offset(), expected);
    }
    let got = taken(&log);
    assert_eq!(got.len(), 2 * 465);
    assert_eq!(got[got.len() - 2], cmd(0x37));
    assert_eq!(got[got.len() - 1], data(&[0x01, 0xDB]));
    display.scroll_vertically(&mut scroller, 1).unwrap();
    assert_eq!(scroller.top_offset(), 11);
    assert_eq!(taken(&log), vec![cmd(0x37), data(&[0x00, 0x0B])]);
}

#[test]
fn scroll_wrap_is_anchored_at_fixed_top() {
    let (mut display, _log) = wide(Orientation::Portrait);
    let mut scroller = display.configure_vertical_scroll(10, 5).unwrap();
    display.scroll_vertically(&mut scroller, 470).unwrap();
    // 480 > 475: 10 + (480 + 5 - 480)
    assert_eq!(scroller.top_offset(), 15);
}

#[test]
fn orientation_toggles_swap_dimensions() {
    let (mut display, log) = wide(Orientation::Portrait);
    display.set_orientation(Orientation::Landscape).unwrap();
    assert_eq!((display.width(), display.height()), (480, 320));
    display.set_orientation(Orientation::LandscapeFlipped).unwrap();
    assert_eq!((display.width(), display.height()), (480, 320));
    display.set_orientation(Orientation::Portrait).unwrap();
    assert_eq!((display.width(), display.height()), (320, 480));
    display.set_orientation(Orientation::PortraitFlipped).unwrap();
    assert_eq!((display.width(), display.height()), (320, 480));
    display.set_orientation(Orientation::PortraitFlipped).unwrap();
    assert_eq!((display.width(), display.height()), (320, 480));
    assert_eq!(
        taken(&log),
        vec![
            cmd(0x36),
            data(&[0x28]),
            cmd(0x36),
            data(&[0xE8]),
            cmd(0x36),
            data(&[0x48]),
            cmd(0x36),
            data(&[0x88]),
            cmd(0x36),
            data(&[0x88]),
        ]
    );
}

#[test]
fn clear_screen_fast_from_wide_brackets_format() {
    let (mut display, log) = wide(Orientation::Portrait);
    display.clear_screen_fast(Rgb111::RED).unwrap();
    let got = taken(&log);
    assert_eq!(
        got,
        vec![
            cmd(0x3a),
            data(&[0x01]),
            cmd(0x2a),
            data(&[0x00, 0x00, 0x01, 0x3F]),
            cmd(0x2b),
            data(&[0x00, 0x00, 0x01, 0xDF]),
            cmd(0x2c),
            data(&[]),
            Tx::Data(vec![0x24; 320 * 480 / 2]),
            cmd(0x3a),
            data(&[0x66]),
        ]
    );
    assert_eq!(got.iter().filter(|t| **t == cmd(0x3a)).count(), 2);
}

#[test]
fn clear_screen_fast_in_packed_sends_no_format() {
    let (mut display, log) = packed(Orientation::Landscape);
    display.clear_screen_fast(Rgb111::WHITE).unwrap();
    assert_eq!(
        taken(&log),
        vec![
            cmd(0x2a),
            data(&[0x00, 0x00, 0x01, 0xDF]),
            cmd(0x2b),
            data(&[0x00, 0x00, 0x01, 0x3F]),
            cmd(0x2c),
            data(&[]),
            Tx::Data(vec![0x3F; 320 * 480 / 2]),
        ]
    );
}

#[test]
fn clear_screen_wide_streams_every_pixel() {
    let (mut display, log) = wide(Orientation::Portrait);
    display.clear_screen(Rgb666::new(63, 1, 0)).unwrap();
    let got = taken(&log);
    assert_eq!(got.len(), 6 + 320 * 480);
    assert_eq!(got[1], data(&[0x00, 0x00, 0x01, 0x3F]));
    assert_eq!(got[4], cmd(0x2c));
    assert!(got[6..].iter().all(|t| *t == data(&[252, 4, 0])));
}

#[test]
fn clear_screen_packed_doubles_code() {
    let (mut display, log) = packed(Orientation::Portrait);
    display.clear_screen(Rgb111::CYAN).unwrap();
    let got = taken(&log);
    assert_eq!(got.len(), 7);
    assert_eq!(got[6], Tx::Data(vec![0x1B; 320 * 480 / 2]));
}

#[test]
fn draw_raw_slice_packed_pairs_pixels() {
    let (mut display, log) = packed(Orientation::Portrait);
    display.draw_raw_slice(0, 0, 2, 0, &[Rgb111::RED, Rgb111::GREEN, Rgb111::BLUE]).unwrap();
    assert_eq!(
        taken(&log),
        vec![
            cmd(0x2a),
            data(&[0, 0, 0, 2]),
            cmd(0x2b),
            data(&[0, 0, 0, 0]),
            cmd(0x2c),
            data(&[]),
            data(&[0x22, 0x08]),
        ]
    );
}

#[test]
fn draw_raw_slice_wide_three_bytes_per_pixel() {
    let (mut display, log) = wide(Orientation::Portrait);
    display.draw_raw_slice(1, 2, 2, 2, &[Rgb666::new(1, 2, 3), Rgb666::new(63, 62, 61)]).unwrap();
    assert_eq!(
        taken(&log),
        vec![
            cmd(0x2a),
            data(&[0, 1, 0, 2]),
            cmd(0x2b),
            data(&[0, 2, 0, 2]),
            cmd(0x2c),
            data(&[]),
            data(&[4, 8, 12]),
            data(&[252, 248, 244]),
        ]
    );
}

#[test]
fn draw_raw_slice_stops_at_failed_pixel() {
    let (mut display, log, fail_in) = wide_failing(Orientation::Portrait);
    *fail_in.borrow_mut() = Some(7);
    let pixels = [Rgb666::new(1, 1, 1), Rgb666::new(2, 2, 2), Rgb666::new(3, 3, 3)];
    let r = display.draw_raw_slice(0, 0, 2, 0, &pixels);
    assert!(matches!(r, Err(DisplayError::BusWriteError)));
    let got = taken(&log);
    assert_eq!(got.len(), 8);
    assert_eq!(got[7], data(&[8, 8, 8]));
}

#[test]
fn clear_screen_fast_failure_skips_switch_back() {
    let (mut display, log, fail_in) = wide_failing(Orientation::Portrait);
    *fail_in.borrow_mut() = Some(8);
    let r = display.clear_screen_fast(Rgb111::BLUE);
    assert!(matches!(r, Err(DisplayError::BusWriteError)));
    let got = taken(&log);
    assert_eq!(got.len(), 9);
    assert_eq!(got.iter().filter(|t| **t == cmd(0x3a)).count(), 1);
}

#[test]
fn draw_rgb565_image_widens_channels() {
    let (mut display, log) = wide(Orientation::Portrait);
    display.draw_rgb565_image(0, 0, 4, 0, &[0xF800, 0x0800, 0x8000, 0x07E0, 0x001F]).unwrap();
    assert_eq!(
        taken(&log),
        vec![
            cmd(0x2a),
            data(&[0, 0, 0, 4]),
            cmd(0x2b),
            data(&[0, 0, 0, 0]),
            cmd(0x2c),
            data(&[]),
            data(&[252, 0, 0]),
            data(&[8, 0, 0]),
            data(&[132, 0, 0]),
            data(&[0, 252, 0]),
            data(&[0, 0, 252]),
        ]
    );
}

#[test]
fn change_pixel_format_sends_code_and_keeps_size() {
    let (display, log) = wide(Orientation::Landscape);
    let display = display.change_pixel_format(Rgb111Mode).unwrap();
    assert_eq!(taken(&log), vec![cmd(0x3a), data(&[0x01])]);
    assert_eq!((display.width(), display.height()), (480, 320));
    let display = display.change_pixel_format(Rgb666Mode).unwrap();
    assert_eq!(taken(&log), vec![cmd(0x3a), data(&[0x66])]);
    assert_eq!((display.width(), display.height()), (480, 320));
}

#[test]
fn mode_toggles() {
    let (mut display, log) = wide(Orientation::Portrait);
    display.sleep_mode(ModeState::On).unwrap();
    display.sleep_mode(ModeState::Off).unwrap();
    display.display_mode(ModeState::Off).unwrap();
    display.display_mode(ModeState::On).unwrap();
    display.invert_mode(ModeState::On).unwrap();
    display.invert_mode(ModeState::Off).unwrap();
    display.idle_mode(ModeState::On).unwrap();
    display.idle_mode(ModeState::Off).unwrap();
    let ops: Vec<Tx> = taken(&log).into_iter().filter(|t| matches!(t, Tx::Cmd(_))).collect();
    assert_eq!(
        ops,
        vec![cmd(0x10), cmd(0x11), cmd(0x28), cmd(0x29), cmd(0x21), cmd(0x20), cmd(0x39), cmd(0x38)]
    );
}

#[test]
fn brightness_and_frame_rates() {
    let (mut display, log) = wide(Orientation::Portrait);
    display.brightness(200).unwrap();
    display.content_adaptive_brightness(AdaptiveBrightness::StillPicture).unwrap();
    display.normal_mode_frame_rate(FrameRateClockDivision::FoscDiv2, FrameRate::FrameRate61).unwrap();
    display.idle_mode_frame_rate(FrameRateClockDivision::FoscDiv8, FrameRate::FrameRate119).unwrap();
    assert_eq!(
        taken(&log),
        vec![
            cmd(0x51),
            data(&[200]),
            cmd(0x55),
            data(&[0x02]),
            cmd(0xb1),
            data(&[0x01, 0x1f]),
            cmd(0xb2),
            data(&[0x03, 0x10]),
        ]
    );
}

#[test]
fn release_returns_handles() {
    let (display, log) = wide(Orientation::Portrait);
    let (wire, pin) = display.release();
    assert!(Rc::ptr_eq(&wire.log, &log));
    assert!(Rc::ptr_eq(&pin.log, &log));
}
