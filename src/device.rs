//! The device state machine: orientation, logical size, pixel format, and
//! the command sequences of each operation.
use crate::bus::{frame, performed, repeated, Bus, Delay, Event, Op, ResetPin};
use crate::bus::{
    lemma_performed_empty, lemma_performed_failed, lemma_performed_failed_prefix, lemma_performed_one,
    lemma_performed_then,
};
use crate::codec::{
    encode_packed, encode_wide, pack_codes, pack_pair, packed_bytes, rgb565_wide_bytes, rgb565_word_to_rgb666,
    wide_bytes, Rgb666,
};
use crate::command::{AdaptiveBrightness, Command, FrameRate, FrameRateClockDivision, ModeState};
use crate::orientation::Mode;
use crate::rgb111::Rgb111;
use crate::scroll::{next_offset, Scroller};
use display_interface::DisplayError;
use vstd::prelude::*;

verus! {

/// Trait that defines display size information
pub trait DisplaySize {
    /// Width in pixels
    const WIDTH: usize;
    /// Height in pixels
    const HEIGHT: usize;
}

/// Generic display size of 320x480 pixels
pub struct DisplaySize320x480;

impl DisplaySize for DisplaySize320x480 {
    const WIDTH: usize = 320;
    const HEIGHT: usize = 480;
}

/// Trait for Valid Pixel Formats for the ILI9488
/// Implemented by [Rgb111Mode] & [Rgb666Mode]
pub trait Ili9488PixelFormat: Copy + Clone {
    /// The data used for the PixelFormatSet command
    const DATA: u8;
}

/// 3 bpp
#[derive(Copy, Clone)]
pub struct Rgb111Mode;

impl Ili9488PixelFormat for Rgb111Mode {
    const DATA: u8 = 0x1;
}

/// 18 bpp
#[derive(Copy, Clone)]
pub struct Rgb666Mode;

impl Ili9488PixelFormat for Rgb666Mode {
    const DATA: u8 = 0x66;
}

/// A 16-bit value as two bytes, most significant first.
pub open spec fn be16(v: u16) -> Seq<u8> {
    seq![(v / 256) as u8, (v % 256) as u8]
}

/// The transactions of the address window (x0, y0)-(x1, y1), bounds
/// inclusive: the column range, then the page range.
pub open spec fn window_plan(x0: u16, y0: u16, x1: u16, y1: u16) -> Seq<Op> {
    frame(Command::ColumnAddressSet.spec_opcode(), be16(x0) + be16(x1))
        + frame(Command::PageAddressSet.spec_opcode(), be16(y0) + be16(y1))
}

/// The transactions of a mode toggle: `on` when the mode is on, else `off`.
pub open spec fn toggle_plan(mode: ModeState, on: Command, off: Command) -> Seq<Op> {
    if mode == ModeState::On {
        frame(on.spec_opcode(), seq![])
    } else {
        frame(off.spec_opcode(), seq![])
    }
}

/// Splits a 16-bit value into two bytes, most significant first.
fn split_u16(v: u16) -> (r: (u8, u8))
    ensures
        seq![r.0, r.1] == be16(v),
{
    assert(v >> 8u16 == v / 256) by (bit_vector);
    assert(v & 0xffu16 == v % 256) by (bit_vector);
    ((v >> 8) as u8, (v & 0xff) as u8)
}

/// The ILI9488 driver. `PixelFormat` is the format that the controller was
/// last told to expect; the pixel writes encode for it.
pub struct Ili9488<IFACE, RESET, PixelFormat> {
    interface: IFACE,
    reset: RESET,
    width: usize,
    height: usize,
    landscape: bool,
    _pixel_format: PixelFormat,
    log: Ghost<Seq<Event>>,
}

impl<IFACE, RESET, PixelFormat> Ili9488<IFACE, RESET, PixelFormat> {
    /// The logical (post-rotation) width.
    pub closed spec fn spec_width(&self) -> nat {
        self.width as nat
    }

    /// The logical (post-rotation) height.
    pub closed spec fn spec_height(&self) -> nat {
        self.height as nat
    }

    /// Whether the current orientation is a landscape one.
    pub closed spec fn spec_landscape(&self) -> bool {
        self.landscape
    }

    /// The bus handle the driver holds.
    pub closed spec fn bus_handle(&self) -> IFACE {
        self.interface
    }

    /// The reset-line handle the driver holds.
    pub closed spec fn reset_handle(&self) -> RESET {
        self.reset
    }

    /// Every transaction issued so far, in order, with its outcome.
    pub closed spec fn events(&self) -> Seq<Event> {
        self.log@
    }

    /// The logical size is the panel's, rotated exactly when the orientation
    /// is a landscape one.
    pub open spec fn wf(&self) -> bool {
        if self.spec_landscape() {
            self.spec_width() == 480 && self.spec_height() == 320
        } else {
            self.spec_width() == 320 && self.spec_height() == 480
        }
    }

    /// Size and orientation are those of `other`.
    pub open spec fn same_state<P2>(&self, other: &Ili9488<IFACE, RESET, P2>) -> bool {
        &&& self.spec_width() == other.spec_width()
        &&& self.spec_height() == other.spec_height()
        &&& self.spec_landscape() == other.spec_landscape()
    }

    /// Get the current screen width. It can change based on the current orientation
    pub fn width(&self) -> (w: usize)
        ensures
            w == self.spec_width(),
    {
        self.width
    }

    /// Get the current screen heighth. It can change based on the current orientation
    pub fn height(&self) -> (h: usize)
        ensures
            h == self.spec_height(),
    {
        self.height
    }

    /// Consumes the ILI9488, gives back the interface and reset peripherals
    pub fn release(self) -> (r: (IFACE, RESET))
        ensures
            r == (self.bus_handle(), self.reset_handle()),
    {
        (self.interface, self.reset)
    }
}

impl<IFACE: Bus, RESET, PixelFormat: Ili9488PixelFormat> Ili9488<IFACE, RESET, PixelFormat> {
    fn send_commands_logged(&mut self, cmd: &[u8]) -> (r: Result<(), DisplayError>)
        ensures
            final(self).reset_handle() == old(self).reset_handle(),
            final(self).same_state(old(self)),
            performed(old(self).events(), final(self).events(), seq![Op::Command(cmd@)], r is Ok),
    {
        let r = self.interface.send_commands(cmd);
        proof {
            lemma_performed_one(self.log@, Op::Command(cmd@), r is Ok);
        }
        self.log = Ghost(self.log@.push(Event { op: Op::Command(cmd@), ok: r is Ok }));
        r
    }

    fn send_data_logged(&mut self, data: &[u8]) -> (r: Result<(), DisplayError>)
        ensures
            final(self).reset_handle() == old(self).reset_handle(),
            final(self).same_state(old(self)),
            performed(old(self).events(), final(self).events(), seq![Op::Data(data@)], r is Ok),
    {
        let r = self.interface.send_data(data);
        proof {
            lemma_performed_one(self.log@, Op::Data(data@), r is Ok);
        }
        self.log = Ghost(self.log@.push(Event { op: Op::Data(data@), ok: r is Ok }));
        r
    }

    fn send_repeated_logged(&mut self, byte: u8, count: usize) -> (r: Result<(), DisplayError>)
        ensures
            final(self).same_state(old(self)),
            performed(
                old(self).events(),
                final(self).events(),
                seq![Op::Data(repeated(byte, count as nat))],
                r is Ok,
            ),
    {
        let r = self.interface.send_data_repeated(byte, count);
        let ghost op = Op::Data(repeated(byte, count as nat));
        proof {
            lemma_performed_one(self.log@, op, r is Ok);
        }
        self.log = Ghost(self.log@.push(Event { op, ok: r is Ok }));
        r
    }

    fn command(&mut self, cmd: Command, args: &[u8]) -> (r: Result<(), DisplayError>)
        ensures
            final(self).reset_handle() == old(self).reset_handle(),
            final(self).same_state(old(self)),
            performed(old(self).events(), final(self).events(), frame(cmd.spec_opcode(), args@), r is Ok),
    {
        let ghost start = self.log@;
        let op = [cmd.opcode()];
        assert(op@ =~= seq![cmd.spec_opcode()]);
        let sent = self.send_commands_logged(&op);
        let ghost mid = self.log@;
        if sent.is_err() {
            proof {
                lemma_performed_failed(start, mid, seq![Op::Command(op@)], seq![Op::Data(args@)]);
                assert(seq![Op::Command(op@)] + seq![Op::Data(args@)] =~= frame(cmd.spec_opcode(), args@));
            }
            return sent;
        }
        let r = self.send_data_logged(args);
        proof {
            lemma_performed_then(start, mid, self.log@, seq![Op::Command(op@)], seq![Op::Data(args@)], r is Ok);
            assert(seq![Op::Command(op@)] + seq![Op::Data(args@)] =~= frame(cmd.spec_opcode(), args@));
        }
        r
    }

    /// Sets the address window (x0, y0)-(x1, y1), bounds inclusive, for the
    /// next memory write. The bounds are sent as given.
    pub fn set_window(&mut self, x0: u16, y0: u16, x1: u16, y1: u16) -> (r: Result<(), DisplayError>)
        ensures
            final(self).same_state(old(self)),
            performed(old(self).events(), final(self).events(), window_plan(x0, y0, x1, y1), r is Ok),
    {
        let ghost start = self.log@;
        let (x0h, x0l) = split_u16(x0);
        let (x1h, x1l) = split_u16(x1);
        let cols = [x0h, x0l, x1h, x1l];
        assert(cols@ =~= be16(x0) + be16(x1));
        let r = self.command(Command::ColumnAddressSet, &cols);
        let ghost mid = self.log@;
        let ghost p = frame(Command::ColumnAddressSet.spec_opcode(), be16(x0) + be16(x1));
        let ghost q = frame(Command::PageAddressSet.spec_opcode(), be16(y0) + be16(y1));
        if r.is_err() {
            proof {
                lemma_performed_failed(start, mid, p, q);
            }
            return r;
        }
        let (y0h, y0l) = split_u16(y0);
        let (y1h, y1l) = split_u16(y1);
        let pages = [y0h, y0l, y1h, y1l];
        assert(pages@ =~= be16(y0) + be16(y1));
        let r = self.command(Command::PageAddressSet, &pages);
        proof {
            lemma_performed_then(start, mid, self.log@, p, q, r is Ok);
        }
        r
    }
}

impl<IFACE: Bus, RESET, PixelFormat: Ili9488PixelFormat> Ili9488<IFACE, RESET, PixelFormat> {
    /// Tells the controller to expect `P` and hands back the driver typed
    /// with it.
    pub fn change_pixel_format<P: Ili9488PixelFormat>(self, pixel_format: P) -> (r: Result<Ili9488<IFACE, RESET, P>, DisplayError>)
        ensures
            r is Ok ==> r->Ok_0.same_state(&self) && performed(
                self.events(),
                r->Ok_0.events(),
                frame(Command::PixelFormatSet.spec_opcode(), seq![P::DATA]),
                true,
            ),
            r is Ok ==> r->Ok_0.reset_handle() == self.reset_handle(),
    {
        let mut device = self;
        let data = [P::DATA];
        assert(data@ =~= seq![P::DATA]);
        match device.command(Command::PixelFormatSet, &data) {
            Ok(()) => Ok(Ili9488 {
                interface: device.interface,
                reset: device.reset,
                width: device.width,
                height: device.height,
                landscape: device.landscape,
                _pixel_format: pixel_format,
                log: device.log,
            }),
            Err(e) => Err(e),
        }
    }

    /// Configures the screen for hardware-accelerated vertical scrolling.
    /// The scroll area is what the fixed top and bottom areas leave of the
    /// logical height.
    pub fn configure_vertical_scroll(&mut self, fixed_top_lines: u16, fixed_bottom_lines: u16) -> (r: Result<Scroller, DisplayError>)
        requires
            old(self).wf(),
            fixed_top_lines + fixed_bottom_lines <= old(self).spec_height(),
        ensures
            final(self).same_state(old(self)),
            performed(
                old(self).events(),
                final(self).events(),
                frame(
                    Command::VerticalScrollDefine.spec_opcode(),
                    be16(fixed_top_lines) + be16((old(self).spec_height() - fixed_top_lines - fixed_bottom_lines) as u16)
                        + be16(fixed_bottom_lines),
                ),
                r is Ok,
            ),
            r is Ok ==> {
                let s = r->Ok_0;
                &&& s.offset() == fixed_top_lines
                &&& s.fixed_top() == fixed_top_lines
                &&& s.fixed_bottom() == fixed_bottom_lines
                &&& s.screen_height() == old(self).spec_height()
                &&& s.wf()
            },
    {
        let height = self.height as u16;
        let scroll_lines = height - fixed_top_lines - fixed_bottom_lines;
        let (t0, t1) = split_u16(fixed_top_lines);
        let (s0, s1) = split_u16(scroll_lines);
        let (b0, b1) = split_u16(fixed_bottom_lines);
        let params = [t0, t1, s0, s1, b0, b1];
        assert(params@ =~= be16(fixed_top_lines) + be16(scroll_lines) + be16(fixed_bottom_lines));
        match self.command(Command::VerticalScrollDefine, &params) {
            Ok(()) => Ok(Scroller::new(fixed_top_lines, fixed_bottom_lines, height)),
            Err(e) => Err(e),
        }
    }

    /// Scrolls by `num_lines`: advances the scroller's offset, wrapping back
    /// to the fixed top area once past the scroll area, and sends the new
    /// offset.
    pub fn scroll_vertically(&mut self, scroller: &mut Scroller, num_lines: u16) -> (r: Result<(), DisplayError>)
        requires
            old(scroller).wf(),
            old(scroller).can_scroll(num_lines),
        ensures
            final(self).same_state(old(self)),
            final(scroller).offset() == next_offset(
                old(scroller).offset(),
                num_lines as int,
                old(scroller).fixed_top(),
                old(scroller).fixed_bottom(),
                old(scroller).screen_height(),
            ),
            final(scroller).fixed_top() == old(scroller).fixed_top(),
            final(scroller).fixed_bottom() == old(scroller).fixed_bottom(),
            final(scroller).screen_height() == old(scroller).screen_height(),
            final(scroller).wf(),
            performed(
                old(self).events(),
                final(self).events(),
                frame(Command::VerticalScrollAddr.spec_opcode(), be16(final(scroller).offset() as u16)),
                r is Ok,
            ),
    {
        let offset = scroller.advance(num_lines);
        let (o0, o1) = split_u16(offset);
        let params = [o0, o1];
        assert(params@ =~= be16(offset));
        self.command(Command::VerticalScrollAddr, &params)
    }

    /// Change the orientation of the screen. Width and height swap exactly
    /// when the new orientation's landscape-ness differs from the current one.
    pub fn set_orientation<MODE: Mode>(&mut self, orientation: MODE) -> (r: Result<(), DisplayError>)
        requires
            old(self).wf(),
        ensures
            final(self).wf(),
            performed(
                old(self).events(),
                final(self).events(),
                frame(Command::MemoryAccessControl.spec_opcode(), seq![orientation.spec_mode()]),
                r is Ok,
            ),
            r is Ok ==> final(self).spec_landscape() == orientation.spec_is_landscape(),
            r is Ok && old(self).spec_landscape() != orientation.spec_is_landscape() ==> final(self).spec_width()
                == old(self).spec_height() && final(self).spec_height() == old(self).spec_width(),
            r is Ok && old(self).spec_landscape() == orientation.spec_is_landscape() ==> final(self).spec_width()
                == old(self).spec_width() && final(self).spec_height() == old(self).spec_height(),
            r is Err ==> final(self).same_state(old(self)),
    {
        let mode = [orientation.mode()];
        assert(mode@ =~= seq![orientation.spec_mode()]);
        let r = self.command(Command::MemoryAccessControl, &mode);
        if r.is_err() {
            return r;
        }
        let landscape = orientation.is_landscape();
        if self.landscape != landscape {
            let width = self.width;
            self.width = self.height;
            self.height = width;
        }
        self.landscape = landscape;
        Ok(())
    }

    /// Control the screen sleep mode:
    pub fn sleep_mode(&mut self, mode: ModeState) -> (r: Result<(), DisplayError>)
        ensures
            final(self).same_state(old(self)),
            performed(old(self).events(), final(self).events(), toggle_plan(mode, Command::SleepModeOn, Command::SleepModeOff), r is Ok),
    {
        let none: [u8; 0] = [];
        assert(none@ =~= seq![]);
        match mode {
            ModeState::On => self.command(Command::SleepModeOn, &none),
            ModeState::Off => self.command(Command::SleepModeOff, &none),
        }
    }

    /// Control the screen display mode
    pub fn display_mode(&mut self, mode: ModeState) -> (r: Result<(), DisplayError>)
        ensures
            final(self).same_state(old(self)),
            performed(old(self).events(), final(self).events(), toggle_plan(mode, Command::DisplayOn, Command::DisplayOff), r is Ok),
    {
        let none: [u8; 0] = [];
        assert(none@ =~= seq![]);
        match mode {
            ModeState::On => self.command(Command::DisplayOn, &none),
            ModeState::Off => self.command(Command::DisplayOff, &none),
        }
    }

    /// Invert the pixel color on screen
    pub fn invert_mode(&mut self, mode: ModeState) -> (r: Result<(), DisplayError>)
        ensures
            final(self).same_state(old(self)),
            performed(old(self).events(), final(self).events(), toggle_plan(mode, Command::InvertOn, Command::InvertOff), r is Ok),
    {
        let none: [u8; 0] = [];
        assert(none@ =~= seq![]);
        match mode {
            ModeState::On => self.command(Command::InvertOn, &none),
            ModeState::Off => self.command(Command::InvertOff, &none),
        }
    }

    /// Idle mode reduces the number of colors to 8
    pub fn idle_mode(&mut self, mode: ModeState) -> (r: Result<(), DisplayError>)
        ensures
            final(self).same_state(old(self)),
            performed(old(self).events(), final(self).events(), toggle_plan(mode, Command::IdleModeOn, Command::IdleModeOff), r is Ok),
    {
        let none: [u8; 0] = [];
        assert(none@ =~= seq![]);
        match mode {
            ModeState::On => self.command(Command::IdleModeOn, &none),
            ModeState::Off => self.command(Command::IdleModeOff, &none),
        }
    }

    /// Set display brightness to the value between 0 and 255
    pub fn brightness(&mut self, brightness: u8) -> (r: Result<(), DisplayError>)
        ensures
            final(self).same_state(old(self)),
            performed(old(self).events(), final(self).events(), frame(Command::SetBrightness.spec_opcode(), seq![brightness]), r is Ok),
    {
        let params = [brightness];
        assert(params@ =~= seq![brightness]);
        self.command(Command::SetBrightness, &params)
    }

    /// Set adaptive brightness value equal to [AdaptiveBrightness]
    pub fn content_adaptive_brightness(&mut self, value: AdaptiveBrightness) -> (r: Result<(), DisplayError>)
        ensures
            final(self).same_state(old(self)),
            performed(
                old(self).events(),
                final(self).events(),
                frame(Command::ContentAdaptiveBrightness.spec_opcode(), seq![value.spec_value()]),
                r is Ok,
            ),
    {
        let params = [value.value()];
        assert(params@ =~= seq![value.spec_value()]);
        self.command(Command::ContentAdaptiveBrightness, &params)
    }

    /// Configure [FrameRateClockDivision] and [FrameRate] in normal mode
    pub fn normal_mode_frame_rate(&mut self, clk_div: FrameRateClockDivision, frame_rate: FrameRate) -> (r: Result<(), DisplayError>)
        ensures
            final(self).same_state(old(self)),
            performed(
                old(self).events(),
                final(self).events(),
                frame(Command::NormalModeFrameRate.spec_opcode(), seq![clk_div.spec_value(), frame_rate.spec_value()]),
                r is Ok,
            ),
    {
        let params = [clk_div.value(), frame_rate.value()];
        assert(params@ =~= seq![clk_div.spec_value(), frame_rate.spec_value()]);
        self.command(Command::NormalModeFrameRate, &params)
    }

    /// Configure [FrameRateClockDivision] and [FrameRate] in idle mode
    pub fn idle_mode_frame_rate(&mut self, clk_div: FrameRateClockDivision, frame_rate: FrameRate) -> (r: Result<(), DisplayError>)
        ensures
            final(self).same_state(old(self)),
            performed(
                old(self).events(),
                final(self).events(),
                frame(Command::IdleModeFrameRate.spec_opcode(), seq![clk_div.spec_value(), frame_rate.spec_value()]),
                r is Ok,
            ),
    {
        let params = [clk_div.value(), frame_rate.value()];
        assert(params@ =~= seq![clk_div.spec_value(), frame_rate.spec_value()]);
        self.command(Command::IdleModeFrameRate, &params)
    }
}

/// The opening of the start-up sequence: a no-op to settle the bus, the
/// hardware reset pulse with its waits, and the software reset with its
/// wait.
pub open spec fn reset_plan() -> Seq<Op> {
    frame(Command::NOP.spec_opcode(), seq![]) + seq![
        Op::ResetHigh,
        Op::DelayMs(5),
        Op::ResetLow,
        Op::DelayMs(20),
        Op::ResetHigh,
        Op::DelayMs(150),
    ] + frame(Command::SoftwareReset.spec_opcode(), seq![]) + seq![Op::DelayMs(150)]
}

/// The register set-up of the start-up sequence, with `format` as the
/// pixel format.
pub open spec fn register_plan(format: u8) -> Seq<Op> {
    frame(Command::PositiveGammaControl.spec_opcode(), seq![0x00u8, 0x03u8, 0x09u8, 0x08u8, 0x16u8, 0x0Au8, 0x3Fu8, 0x78u8, 0x4Cu8, 0x09u8, 0x0Au8, 0x08u8, 0x16u8, 0x1Au8, 0x0Fu8])
        + frame(Command::NegativeGammaControl.spec_opcode(), seq![0x00u8, 0x16u8, 0x19u8, 0x03u8, 0x0Fu8, 0x05u8, 0x32u8, 0x45u8, 0x46u8, 0x04u8, 0x0Eu8, 0x0Du8, 0x35u8, 0x37u8, 0x0Fu8])
        + frame(Command::PowerControl1.spec_opcode(), seq![0x17u8, 0x15u8])
        + frame(Command::PowerControl2.spec_opcode(), seq![0x41u8])
        + frame(Command::VCOMControl.spec_opcode(), seq![0x00u8, 0x12u8, 0x80u8])
        + frame(Command::MemoryAccessControl.spec_opcode(), seq![0x48u8])
        + frame(Command::PixelFormatSet.spec_opcode(), seq![format])
        + frame(Command::InterfaceModeControl.spec_opcode(), seq![0x00u8])
        + frame(Command::NormalModeFrameRate.spec_opcode(), seq![0xA0u8])
        + frame(Command::DisplayInversionControl.spec_opcode(), seq![0x02u8])
        + frame(Command::DisplayFunctionControl.spec_opcode(), seq![0x02u8, 0x02u8, 0x3Bu8])
        + frame(Command::EntryModeSet.spec_opcode(), seq![0xC6u8])
        + frame(Command::AdjustControl3.spec_opcode(), seq![0xA9u8, 0x51u8, 0x2Cu8, 0x82u8])
}

/// The whole start-up sequence: reset, register set-up, sleep out, the
/// orientation `mode`, display on.
pub open spec fn init_plan(mode: u8, format: u8) -> Seq<Op> {
    reset_plan() + register_plan(format) + frame(Command::SleepModeOff.spec_opcode(), seq![])
        + frame(Command::MemoryAccessControl.spec_opcode(), seq![mode]) + frame(Command::DisplayOn.spec_opcode(), seq![])
}

/// The memory-write command that starts a pixel stream.
pub open spec fn memory_write() -> Seq<Op> {
    frame(Command::MemoryWrite.spec_opcode(), seq![])
}

/// A wide-format pixel stream: one data transaction of three bytes per pixel.
pub open spec fn wide_stream(colors: Seq<Rgb666>) -> Seq<Op> {
    Seq::new(colors.len(), |i: int| Op::Data(wide_bytes(colors[i])))
}

/// A stream of 5-6-5 words in the wide format: one data transaction of three
/// bytes per word.
pub open spec fn rgb565_stream(words: Seq<u16>) -> Seq<Op> {
    Seq::new(words.len(), |i: int| Op::Data(rgb565_wide_bytes(words[i])))
}

/// A packed-format pixel stream: one data transaction holding every pair.
pub open spec fn packed_stream(pixels: Seq<Rgb111>) -> Seq<Op> {
    seq![Op::Data(packed_bytes(pixels))]
}

/// An even count of one colour packs into bytes that hold the colour twice.
proof fn lemma_packed_repeated(color: Rgb111, n: nat)
    requires
        n % 2 == 0,
    ensures
        packed_bytes(repeated(color, n)) == repeated(pack_pair(color.code(), color.code()), n / 2),
{
    assert(packed_bytes(repeated(color, n)) =~= repeated(pack_pair(color.code(), color.code()), n / 2));
}

/// The address window of the whole logical screen.
pub open spec fn full_window(width: nat, height: nat) -> Seq<Op> {
    window_plan(0, 0, (width - 1) as u16, (height - 1) as u16)
}

/// The pixel-format-set command for the format `code`.
pub open spec fn format_set(code: u8) -> Seq<Op> {
    frame(Command::PixelFormatSet.spec_opcode(), seq![code])
}

/// The transactions of the fast clear from a device in the format `code`:
/// unless already packed, switch to the packed format; set the whole
/// screen's window; stream `width * height / 2` bytes that each hold the
/// colour twice; switch back.
pub open spec fn fast_clear_plan(code: u8, width: nat, height: nat, color: Rgb111) -> Seq<Op> {
    let switch_in = if code != Rgb111Mode::DATA { format_set(Rgb111Mode::DATA) } else { seq![] };
    let switch_back = if code != Rgb111Mode::DATA { format_set(code) } else { seq![] };
    switch_in + full_window(width, height) + memory_write()
        + seq![Op::Data(repeated(pack_pair(color.code(), color.code()), width * height / 2))]
        + switch_back
}

/// On a device in the wide format, the fast clear issues exactly two
/// pixel-format-set commands, the first and the last command, around exactly
/// one memory write, whose data is `width * height / 2` bytes.
pub proof fn lemma_fast_clear_from_wide(width: nat, height: nat, color: Rgb111)
    ensures
        ({
            let plan = fast_clear_plan(Rgb666Mode::DATA, width, height, color);
            let format_set_cmd = Op::Command(seq![Command::PixelFormatSet.spec_opcode()]);
            let memory_write_cmd = Op::Command(seq![Command::MemoryWrite.spec_opcode()]);
            &&& plan.len() == 11
            &&& plan[0] == format_set_cmd && plan[1] == Op::Data(seq![Rgb111Mode::DATA])
            &&& plan[9] == format_set_cmd && plan[10] == Op::Data(seq![Rgb666Mode::DATA])
            &&& forall|i: int| 0 <= i < plan.len() && plan[i] == format_set_cmd ==> i == 0 || i == 9
            &&& forall|i: int| 0 <= i < plan.len() && plan[i] == memory_write_cmd ==> i == 6
            &&& plan[6] == memory_write_cmd
            &&& plan[8] == Op::Data(repeated(pack_pair(color.code(), color.code()), width * height / 2))
            &&& repeated(pack_pair(color.code(), color.code()), width * height / 2).len() == width * height / 2
        }),
{
    let plan = fast_clear_plan(Rgb666Mode::DATA, width, height, color);
    let w = full_window(width, height);
    let data = Op::Data(repeated(pack_pair(color.code(), color.code()), width * height / 2));
    let format_set_cmd = Op::Command(seq![Command::PixelFormatSet.spec_opcode()]);
    let memory_write_cmd = Op::Command(seq![Command::MemoryWrite.spec_opcode()]);
    let column_cmd = Op::Command(seq![0x2au8]);
    let page_cmd = Op::Command(seq![0x2bu8]);
    assert(w[0] == column_cmd);
    assert(w[2] == page_cmd);
    assert(plan =~= seq![
        format_set_cmd,
        Op::Data(seq![0x01u8]),
        column_cmd,
        w[1],
        page_cmd,
        w[3],
        memory_write_cmd,
        Op::Data(seq![]),
        data,
        format_set_cmd,
        Op::Data(seq![0x66u8]),
    ]);
    assert(column_cmd->Command_0[0] != format_set_cmd->Command_0[0]);
    assert(page_cmd->Command_0[0] != format_set_cmd->Command_0[0]);
    assert(memory_write_cmd->Command_0[0] != format_set_cmd->Command_0[0]);
    assert(column_cmd->Command_0[0] != memory_write_cmd->Command_0[0]);
    assert(page_cmd->Command_0[0] != memory_write_cmd->Command_0[0]);
}

impl<IFACE: Bus, RESET> Ili9488<IFACE, RESET, Rgb666Mode> {
    fn send_wide(&mut self, data: &[Rgb666]) -> (r: Result<(), DisplayError>)
        ensures
            final(self).same_state(old(self)),
            performed(old(self).events(), final(self).events(), wide_stream(data@), r is Ok),
    {
        let ghost start = self.log@;
        let ghost plan = wide_stream(data@);
        proof {
            lemma_performed_empty(start);
            assert(plan.take(0) =~= seq![]);
        }
        let mut i: usize = 0;
        while i < data.len()
            invariant
                i <= data@.len(),
                plan == wide_stream(data@),
                self.same_state(old(self)),
                start == old(self).events(),
                performed(start, self.events(), plan.take(i as int), true),
            decreases data@.len() - i,
        {
            let bytes = encode_wide(&data[i]);
            let ghost mid = self.log@;
            let r = self.send_data_logged(&bytes);
            proof {
                assert(plan.take(i + 1) =~= plan.take(i as int) + seq![Op::Data(bytes@)]);
                lemma_performed_then(start, mid, self.log@, plan.take(i as int), seq![Op::Data(bytes@)], r is Ok);
            }
            if r.is_err() {
                proof {
                    lemma_performed_failed(start, self.log@, plan.take(i + 1), plan.skip(i + 1));
                    assert(plan.take(i + 1) + plan.skip(i + 1) =~= plan);
                }
                return r;
            }
            i = i + 1;
        }
        proof {
            assert(plan.take(i as int) =~= plan);
        }
        Ok(())
    }

    /// Writes pixels at the window's cursor: the memory-write command, then
    /// three bytes per pixel.
    pub fn write_slice(&mut self, data: &[Rgb666]) -> (r: Result<(), DisplayError>)
        ensures
            final(self).same_state(old(self)),
            performed(old(self).events(), final(self).events(), memory_write() + wide_stream(data@), r is Ok),
    {
        let ghost start = self.log@;
        let none: [u8; 0] = [];
        assert(none@ =~= seq![]);
        let r = self.command(Command::MemoryWrite, &none);
        let ghost mid = self.log@;
        if r.is_err() {
            proof {
                lemma_performed_failed(start, mid, memory_write(), wide_stream(data@));
            }
            return r;
        }
        let r = self.send_wide(data);
        proof {
            lemma_performed_then(start, mid, self.log@, memory_write(), wide_stream(data@), r is Ok);
        }
        r
    }

    /// Draw a rectangle on the screen, represented by top-left corner (x0, y0)
    /// and bottom-right corner (x1, y1).
    ///
    /// The border is included.
    pub fn draw_raw_slice(&mut self, x0: u16, y0: u16, x1: u16, y1: u16, data: &[Rgb666]) -> (r: Result<(), DisplayError>)
        ensures
            final(self).same_state(old(self)),
            performed(
                old(self).events(),
                final(self).events(),
                window_plan(x0, y0, x1, y1) + (memory_write() + wide_stream(data@)),
                r is Ok,
            ),
    {
        let ghost start = self.log@;
        let r = self.set_window(x0, y0, x1, y1);
        let ghost mid = self.log@;
        if r.is_err() {
            proof {
                lemma_performed_failed(start, mid, window_plan(x0, y0, x1, y1), memory_write() + wide_stream(data@));
            }
            return r;
        }
        let r = self.write_slice(data);
        proof {
            lemma_performed_then(start, mid, self.log@, window_plan(x0, y0, x1, y1), memory_write() + wide_stream(data@), r is Ok);
        }
        r
    }

    /// Fill entire screen with specfied color: the whole screen's window,
    /// then `width * height` pixels of the colour.
    pub fn clear_screen(&mut self, color: Rgb666) -> (r: Result<(), DisplayError>)
        requires
            old(self).wf(),
        ensures
            final(self).same_state(old(self)),
            performed(
                old(self).events(),
                final(self).events(),
                full_window(old(self).spec_width(), old(self).spec_height()) + (memory_write() + wide_stream(
                    repeated(color, old(self).spec_width() * old(self).spec_height()),
                )),
                r is Ok,
            ),
    {
        let ghost start = self.log@;
        let ghost pixels = repeated(color, self.spec_width() * self.spec_height());
        let ghost window = full_window(self.spec_width(), self.spec_height());
        let r = self.set_window(0, 0, (self.width - 1) as u16, (self.height - 1) as u16);
        let ghost mid = self.log@;
        if r.is_err() {
            proof {
                lemma_performed_failed(start, mid, window, memory_write() + wide_stream(pixels));
            }
            return r;
        }
        let none: [u8; 0] = [];
        assert(none@ =~= seq![]);
        let r = self.command(Command::MemoryWrite, &none);
        let ghost mid2 = self.log@;
        if r.is_err() {
            proof {
                lemma_performed_failed(mid, mid2, memory_write(), wide_stream(pixels));
                lemma_performed_then(start, mid, mid2, window, memory_write() + wide_stream(pixels), false);
            }
            return r;
        }
        let bytes = encode_wide(&color);
        let count = self.width * self.height;
        let ghost plan = wide_stream(pixels);
        proof {
            lemma_performed_empty(mid2);
            assert(plan.take(0) =~= seq![]);
        }
        let mut i: usize = 0;
        while i < count
            invariant
                count == pixels.len(),
                i <= count,
                plan == wide_stream(pixels),
                bytes@ == wide_bytes(color),
                pixels == repeated(color, old(self).spec_width() * old(self).spec_height()),
                performed(start, mid, window, true),
                performed(mid, mid2, memory_write(), true),
                self.same_state(old(self)),
                start == old(self).events(),
                window == full_window(old(self).spec_width(), old(self).spec_height()),
                performed(mid2, self.events(), plan.take(i as int), true),
            decreases count - i,
        {
            let ghost before = self.log@;
            let r = self.send_data_logged(&bytes);
            proof {
                assert(plan.take(i + 1) =~= plan.take(i as int) + seq![Op::Data(bytes@)]);
                lemma_performed_then(mid2, before, self.log@, plan.take(i as int), seq![Op::Data(bytes@)], r is Ok);
            }
            if r.is_err() {
                proof {
                    lemma_performed_failed(mid2, self.log@, plan.take(i + 1), plan.skip(i + 1));
                    assert(plan.take(i + 1) + plan.skip(i + 1) =~= plan);
                    lemma_performed_then(mid, mid2, self.log@, memory_write(), plan, false);
                    lemma_performed_then(start, mid, self.log@, window, memory_write() + plan, false);
                }
                return r;
            }
            i = i + 1;
        }
        proof {
            assert(plan.take(i as int) =~= plan);
            lemma_performed_then(mid, mid2, self.log@, memory_write(), plan, true);
            lemma_performed_then(start, mid, self.log@, window, memory_write() + plan, true);
        }
        Ok(())
    }
}

impl<IFACE: Bus, RESET> Ili9488<IFACE, RESET, Rgb666Mode> {
    fn send_rgb565(&mut self, data: &[u16]) -> (r: Result<(), DisplayError>)
        ensures
            final(self).same_state(old(self)),
            performed(old(self).events(), final(self).events(), rgb565_stream(data@), r is Ok),
    {
        let ghost start = self.log@;
        let ghost plan = rgb565_stream(data@);
        proof {
            lemma_performed_empty(start);
            assert(plan.take(0) =~= seq![]);
        }
        let mut i: usize = 0;
        while i < data.len()
            invariant
                i <= data@.len(),
                plan == rgb565_stream(data@),
                self.same_state(old(self)),
                start == old(self).events(),
                performed(start, self.events(), plan.take(i as int), true),
            decreases data@.len() - i,
        {
            let color = rgb565_word_to_rgb666(data[i]);
            let bytes = encode_wide(&color);
            let ghost mid = self.log@;
            let r = self.send_data_logged(&bytes);
            proof {
                assert(plan.take(i + 1) =~= plan.take(i as int) + seq![Op::Data(bytes@)]);
                lemma_performed_then(start, mid, self.log@, plan.take(i as int), seq![Op::Data(bytes@)], r is Ok);
            }
            if r.is_err() {
                proof {
                    lemma_performed_failed_prefix(start, self.log@, plan.take(i + 1), plan);
                }
                return r;
            }
            i = i + 1;
        }
        proof {
            assert(plan.take(i as int) =~= plan);
        }
        Ok(())
    }

    /// Draw a raw RGB565 image buffer to the display in RGB666 mode.
    /// `data` should be a slice of u16 values in RGB565 format.
    /// The window is (x0, y0)-(x0 + width, y0 + height), bounds inclusive.
    pub fn draw_rgb565_image(&mut self, x0: u16, y0: u16, width: u16, height: u16, data: &[u16]) -> (r: Result<(), DisplayError>)
        requires
            x0 + width <= u16::MAX,
            y0 + height <= u16::MAX,
        ensures
            final(self).same_state(old(self)),
            performed(
                old(self).events(),
                final(self).events(),
                window_plan(x0, y0, (x0 + width) as u16, (y0 + height) as u16) + (memory_write() + rgb565_stream(data@)),
                r is Ok,
            ),
    {
        let ghost start = self.log@;
        let ghost window = window_plan(x0, y0, (x0 + width) as u16, (y0 + height) as u16);
        let ghost plan = window + (memory_write() + rgb565_stream(data@));
        let r = self.set_window(x0, y0, x0 + width, y0 + height);
        let ghost mid = self.log@;
        if r.is_err() {
            proof {
                lemma_performed_failed(start, mid, window, memory_write() + rgb565_stream(data@));
            }
            return r;
        }
        let none: [u8; 0] = [];
        assert(none@ =~= seq![]);
        let r = self.command(Command::MemoryWrite, &none);
        let ghost mid2 = self.log@;
        proof {
            lemma_performed_then(start, mid, mid2, window, memory_write(), r is Ok);
            assert(plan =~= (window + memory_write()) + rgb565_stream(data@));
        }
        if r.is_err() {
            proof {
                lemma_performed_failed(start, mid2, window + memory_write(), rgb565_stream(data@));
            }
            return r;
        }
        let r = self.send_rgb565(data);
        proof {
            lemma_performed_then(start, mid2, self.log@, window + memory_write(), rgb565_stream(data@), r is Ok);
        }
        r
    }
}

impl<IFACE: Bus, RESET> Ili9488<IFACE, RESET, Rgb111Mode> {
    /// Writes pixels at the window's cursor: the memory-write command, then
    /// the pixels packed two to a byte in one data transaction.
    pub fn write_slice(&mut self, data: &[Rgb111]) -> (r: Result<(), DisplayError>)
        ensures
            final(self).same_state(old(self)),
            performed(old(self).events(), final(self).events(), memory_write() + packed_stream(data@), r is Ok),
    {
        let ghost start = self.log@;
        let none: [u8; 0] = [];
        assert(none@ =~= seq![]);
        let r = self.command(Command::MemoryWrite, &none);
        let ghost mid = self.log@;
        if r.is_err() {
            proof {
                lemma_performed_failed(start, mid, memory_write(), packed_stream(data@));
            }
            return r;
        }
        let bytes = encode_packed(data);
        let r = self.send_data_logged(bytes.as_slice());
        proof {
            lemma_performed_then(start, mid, self.log@, memory_write(), packed_stream(data@), r is Ok);
        }
        r
    }

    /// Draw a rectangle on the screen, represented by top-left corner (x0, y0)
    /// and bottom-right corner (x1, y1).
    ///
    /// The border is included.
    pub fn draw_raw_slice(&mut self, x0: u16, y0: u16, x1: u16, y1: u16, data: &[Rgb111]) -> (r: Result<(), DisplayError>)
        ensures
            final(self).same_state(old(self)),
            performed(
                old(self).events(),
                final(self).events(),
                window_plan(x0, y0, x1, y1) + (memory_write() + packed_stream(data@)),
                r is Ok,
            ),
    {
        let ghost start = self.log@;
        let r = self.set_window(x0, y0, x1, y1);
        let ghost mid = self.log@;
        if r.is_err() {
            proof {
                lemma_performed_failed(start, mid, window_plan(x0, y0, x1, y1), memory_write() + packed_stream(data@));
            }
            return r;
        }
        let r = self.write_slice(data);
        proof {
            lemma_performed_then(start, mid, self.log@, window_plan(x0, y0, x1, y1), memory_write() + packed_stream(data@), r is Ok);
        }
        r
    }

    /// Fill entire screen with specfied color: the whole screen's window,
    /// then `width * height` pixels of the colour, packed.
    pub fn clear_screen(&mut self, color: Rgb111) -> (r: Result<(), DisplayError>)
        requires
            old(self).wf(),
        ensures
            final(self).same_state(old(self)),
            performed(
                old(self).events(),
                final(self).events(),
                full_window(old(self).spec_width(), old(self).spec_height()) + (memory_write() + packed_stream(
                    repeated(color, old(self).spec_width() * old(self).spec_height()),
                )),
                r is Ok,
            ),
    {
        let ghost start = self.log@;
        let ghost n = self.spec_width() * self.spec_height();
        let ghost window = full_window(self.spec_width(), self.spec_height());
        let ghost rest = memory_write() + packed_stream(repeated(color, n));
        let r = self.set_window(0, 0, (self.width - 1) as u16, (self.height - 1) as u16);
        let ghost mid = self.log@;
        if r.is_err() {
            proof {
                lemma_performed_failed(start, mid, window, rest);
            }
            return r;
        }
        let none: [u8; 0] = [];
        assert(none@ =~= seq![]);
        let r = self.command(Command::MemoryWrite, &none);
        let ghost mid2 = self.log@;
        if r.is_err() {
            proof {
                lemma_performed_failed(mid, mid2, memory_write(), packed_stream(repeated(color, n)));
                lemma_performed_then(start, mid, mid2, window, rest, false);
            }
            return r;
        }
        let code = color.raw();
        let byte = pack_codes(code, code);
        let r = self.send_repeated_logged(byte, self.width * self.height / 2);
        proof {
            lemma_packed_repeated(color, n);
            lemma_performed_then(mid, mid2, self.log@, memory_write(), packed_stream(repeated(color, n)), r is Ok);
            lemma_performed_then(start, mid, self.log@, window, rest, r is Ok);
        }
        r
    }
}

impl<IFACE: Bus, RESET, PixelFormat: Ili9488PixelFormat> Ili9488<IFACE, RESET, PixelFormat> {
    /// Fast way to fill entire screen, only uses 3 bits per pixel (bpp).
    /// Unless the device is already in the packed format, it is switched to
    /// it for the clear and back afterwards.
    pub fn clear_screen_fast(&mut self, color: Rgb111) -> (r: Result<(), DisplayError>)
        requires
            old(self).wf(),
        ensures
            final(self).same_state(old(self)),
            performed(
                old(self).events(),
                final(self).events(),
                fast_clear_plan(PixelFormat::DATA, old(self).spec_width(), old(self).spec_height(), color),
                r is Ok,
            ),
    {
        let ghost start = self.log@;
        let ghost plan = fast_clear_plan(PixelFormat::DATA, self.spec_width(), self.spec_height(), color);
        let switch = PixelFormat::DATA != Rgb111Mode::DATA;
        let ghost switch_in = if switch { format_set(Rgb111Mode::DATA) } else { seq![] };
        let ghost switch_back = if switch { format_set(PixelFormat::DATA) } else { seq![] };
        let ghost window = full_window(self.spec_width(), self.spec_height());
        let ghost data = seq![Op::Data(repeated(pack_pair(color.code(), color.code()), self.spec_width() * self.spec_height() / 2))];
        assert(plan == switch_in + window + memory_write() + data + switch_back);
        if switch {
            let packed = [Rgb111Mode::DATA];
            assert(packed@ =~= seq![Rgb111Mode::DATA]);
            let r = self.command(Command::PixelFormatSet, &packed);
            if r.is_err() {
                proof {
                    assert(switch_in =~= plan.take((switch_in).len() as int));
                    lemma_performed_failed_prefix(start, self.log@, switch_in, plan);
                }
                return r;
            }
        } else {
            proof {
                lemma_performed_empty(start);
            }
        }
        let ghost mid = self.log@;
        let r = self.set_window(0, 0, (self.width - 1) as u16, (self.height - 1) as u16);
        proof {
            lemma_performed_then(start, mid, self.log@, switch_in, window, r is Ok);
        }
        if r.is_err() {
            proof {
                assert(switch_in + window =~= plan.take((switch_in + window).len() as int));
                lemma_performed_failed_prefix(start, self.log@, switch_in + window, plan);
            }
            return r;
        }
        let ghost mid = self.log@;
        let none: [u8; 0] = [];
        assert(none@ =~= seq![]);
        let r = self.command(Command::MemoryWrite, &none);
        proof {
            lemma_performed_then(start, mid, self.log@, switch_in + window, memory_write(), r is Ok);
        }
        if r.is_err() {
            proof {
                assert(switch_in + window + memory_write() =~= plan.take((switch_in + window + memory_write()).len() as int));
                lemma_performed_failed_prefix(start, self.log@, switch_in + window + memory_write(), plan);
            }
            return r;
        }
        let ghost mid = self.log@;
        let code = color.raw();
        let byte = pack_codes(code, code);
        assert(self.same_state(old(self)));
        assert(self.wf());
        assert(self.width == self.spec_width() && self.height == self.spec_height());
        assert(self.width * self.height == 153600) by (nonlinear_arith)
            requires
                (self.width == 320 && self.height == 480) || (self.width == 480 && self.height == 320),
        ;
        let r = self.send_repeated_logged(byte, self.width * self.height / 2);
        proof {
            lemma_performed_then(start, mid, self.log@, switch_in + window + memory_write(), data, r is Ok);
        }
        if r.is_err() {
            proof {
                assert(switch_in + window + memory_write() + data =~= plan.take((switch_in + window + memory_write() + data).len() as int));
                lemma_performed_failed_prefix(start, self.log@, switch_in + window + memory_write() + data, plan);
            }
            return r;
        }
        let ghost mid = self.log@;
        if switch {
            let original = [PixelFormat::DATA];
            assert(original@ =~= seq![PixelFormat::DATA]);
            let r = self.command(Command::PixelFormatSet, &original);
            proof {
                lemma_performed_then(start, mid, self.log@, switch_in + window + memory_write() + data, switch_back, r is Ok);
            }
            r
        } else {
            proof {
                assert(plan =~= switch_in + window + memory_write() + data);
            }
            Ok(())
        }
    }
}

impl<IFACE: Bus, RESET: ResetPin, PixelFormat: Ili9488PixelFormat> Ili9488<IFACE, RESET, PixelFormat> {
    fn delay_logged<DELAY: Delay>(&mut self, delay: &mut DELAY, ms: u32)
        ensures
            final(self).same_state(old(self)),
            performed(old(self).events(), final(self).events(), seq![Op::DelayMs(ms)], true),
    {
        delay.delay_ms(ms);
        proof {
            lemma_performed_one(self.log@, Op::DelayMs(ms), true);
        }
        self.log = Ghost(self.log@.push(Event { op: Op::DelayMs(ms), ok: true }));
    }

    fn reset_logged(&mut self, high: bool) -> (r: Result<(), DisplayError>)
        ensures
            final(self).same_state(old(self)),
            performed(
                old(self).events(),
                final(self).events(),
                seq![if high { Op::ResetHigh } else { Op::ResetLow }],
                r is Ok,
            ),
    {
        let r = if high {
            self.reset.set_high()
        } else {
            self.reset.set_low()
        };
        let ghost op = if high { Op::ResetHigh } else { Op::ResetLow };
        proof {
            lemma_performed_one(self.log@, op, r is Ok);
        }
        self.log = Ghost(self.log@.push(Event { op, ok: r is Ok }));
        r
    }

    fn reset_sequence<DELAY: Delay>(&mut self, delay: &mut DELAY) -> (r: Result<(), DisplayError>)
        ensures
            final(self).same_state(old(self)),
            r is Ok ==> performed(old(self).events(), final(self).events(), reset_plan(), true),
    {
        let ghost start = self.log@;
        let none: [u8; 0] = [];
        assert(none@ =~= seq![]);
        // Put SPI bus in known state for TFT with CS tied low
        let r = self.command(Command::NOP, &none);
        if r.is_err() {
            return r;
        }
        let ghost mut done = frame(Command::NOP.spec_opcode(), seq![]);
        let ghost before = self.log@;
        let r = self.reset_logged(true);
        if r.is_err() {
            return r;
        }
        proof {
            lemma_performed_then(start, before, self.log@, done, seq![Op::ResetHigh], true);
            done = done + seq![Op::ResetHigh];
        }
        let ghost before = self.log@;
        self.delay_logged(delay, 5);
        proof {
            lemma_performed_then(start, before, self.log@, done, seq![Op::DelayMs(5)], true);
            done = done + seq![Op::DelayMs(5)];
        }
        // Do hardware reset by holding reset low for at least 10us
        let ghost before = self.log@;
        let r = self.reset_logged(false);
        if r.is_err() {
            return r;
        }
        proof {
            lemma_performed_then(start, before, self.log@, done, seq![Op::ResetLow], true);
            done = done + seq![Op::ResetLow];
        }
        let ghost before = self.log@;
        self.delay_logged(delay, 20);
        proof {
            lemma_performed_then(start, before, self.log@, done, seq![Op::DelayMs(20)], true);
            done = done + seq![Op::DelayMs(20)];
        }
        // Set high for normal operation
        let ghost before = self.log@;
        let r = self.reset_logged(true);
        if r.is_err() {
            return r;
        }
        proof {
            lemma_performed_then(start, before, self.log@, done, seq![Op::ResetHigh], true);
            done = done + seq![Op::ResetHigh];
        }
        // Wait for reset to complete
        let ghost before = self.log@;
        self.delay_logged(delay, 150);
        proof {
            lemma_performed_then(start, before, self.log@, done, seq![Op::DelayMs(150)], true);
            done = done + seq![Op::DelayMs(150)];
        }
        // Do software reset
        let ghost before = self.log@;
        let r = self.command(Command::SoftwareReset, &none);
        if r.is_err() {
            return r;
        }
        proof {
            lemma_performed_then(start, before, self.log@, done, frame(Command::SoftwareReset.spec_opcode(), seq![]), true);
            done = done + frame(Command::SoftwareReset.spec_opcode(), seq![]);
        }
        // Wait 5ms after reset before sending commands
        // and 120ms before sending Sleep Out
        let ghost before = self.log@;
        self.delay_logged(delay, 150);
        proof {
            lemma_performed_then(start, before, self.log@, done, seq![Op::DelayMs(150)], true);
            done = done + seq![Op::DelayMs(150)];
            assert(done =~= reset_plan());
        }
        Ok(())
    }

    fn init_registers(&mut self) -> (r: Result<(), DisplayError>)
        ensures
            final(self).same_state(old(self)),
            r is Ok ==> performed(old(self).events(), final(self).events(), register_plan(PixelFormat::DATA), true),
    {
        let ghost start = self.log@;
        let ghost mut done: Seq<Op> = seq![];
        proof {
            lemma_performed_empty(start);
        }
        let params = [0x00u8, 0x03u8, 0x09u8, 0x08u8, 0x16u8, 0x0Au8, 0x3Fu8, 0x78u8, 0x4Cu8, 0x09u8, 0x0Au8, 0x08u8, 0x16u8, 0x1Au8, 0x0Fu8];
        assert(params@ =~= seq![0x00u8, 0x03u8, 0x09u8, 0x08u8, 0x16u8, 0x0Au8, 0x3Fu8, 0x78u8, 0x4Cu8, 0x09u8, 0x0Au8, 0x08u8, 0x16u8, 0x1Au8, 0x0Fu8]);
        let ghost before = self.log@;
        let r = self.command(Command::PositiveGammaControl, &params);
        if r.is_err() {
            return r;
        }
        proof {
            lemma_performed_then(start, before, self.log@, done, frame(Command::PositiveGammaControl.spec_opcode(), params@), true);
            done = done + frame(Command::PositiveGammaControl.spec_opcode(), params@);
        }
        let params = [0x00u8, 0x16u8, 0x19u8, 0x03u8, 0x0Fu8, 0x05u8, 0x32u8, 0x45u8, 0x46u8, 0x04u8, 0x0Eu8, 0x0Du8, 0x35u8, 0x37u8, 0x0Fu8];
        assert(params@ =~= seq![0x00u8, 0x16u8, 0x19u8, 0x03u8, 0x0Fu8, 0x05u8, 0x32u8, 0x45u8, 0x46u8, 0x04u8, 0x0Eu8, 0x0Du8, 0x35u8, 0x37u8, 0x0Fu8]);
        let ghost before = self.log@;
        let r = self.command(Command::NegativeGammaControl, &params);
        if r.is_err() {
            return r;
        }
        proof {
            lemma_performed_then(start, before, self.log@, done, frame(Command::NegativeGammaControl.spec_opcode(), params@), true);
            done = done + frame(Command::NegativeGammaControl.spec_opcode(), params@);
        }
        let params = [0x17u8, 0x15u8];
        assert(params@ =~= seq![0x17u8, 0x15u8]);
        let ghost before = self.log@;
        let r = self.command(Command::PowerControl1, &params);
        if r.is_err() {
            return r;
        }
        proof {
            lemma_performed_then(start, before, self.log@, done, frame(Command::PowerControl1.spec_opcode(), params@), true);
            done = done + frame(Command::PowerControl1.spec_opcode(), params@);
        }
        let params = [0x41u8];
        assert(params@ =~= seq![0x41u8]);
        let ghost before = self.log@;
        let r = self.command(Command::PowerControl2, &params);
        if r.is_err() {
            return r;
        }
        proof {
            lemma_performed_then(start, before, self.log@, done, frame(Command::PowerControl2.spec_opcode(), params@), true);
            done = done + frame(Command::PowerControl2.spec_opcode(), params@);
        }
        let params = [0x00u8, 0x12u8, 0x80u8];
        assert(params@ =~= seq![0x00u8, 0x12u8, 0x80u8]);
        let ghost before = self.log@;
        let r = self.command(Command::VCOMControl, &params);
        if r.is_err() {
            return r;
        }
        proof {
            lemma_performed_then(start, before, self.log@, done, frame(Command::VCOMControl.spec_opcode(), params@), true);
            done = done + frame(Command::VCOMControl.spec_opcode(), params@);
        }
        let params = [0x48u8];
        assert(params@ =~= seq![0x48u8]);
        let ghost before = self.log@;
        let r = self.command(Command::MemoryAccessControl, &params);
        if r.is_err() {
            return r;
        }
        proof {
            lemma_performed_then(start, before, self.log@, done, frame(Command::MemoryAccessControl.spec_opcode(), params@), true);
            done = done + frame(Command::MemoryAccessControl.spec_opcode(), params@);
        }
        let params = [PixelFormat::DATA];
        assert(params@ =~= seq![PixelFormat::DATA]);
        let ghost before = self.log@;
        let r = self.command(Command::PixelFormatSet, &params);
        if r.is_err() {
            return r;
        }
        proof {
            lemma_performed_then(start, before, self.log@, done, frame(Command::PixelFormatSet.spec_opcode(), params@), true);
            done = done + frame(Command::PixelFormatSet.spec_opcode(), params@);
        }
        let params = [0x00u8];
        assert(params@ =~= seq![0x00u8]);
        let ghost before = self.log@;
        let r = self.command(Command::InterfaceModeControl, &params);
        if r.is_err() {
            return r;
        }
        proof {
            lemma_performed_then(start, before, self.log@, done, frame(Command::InterfaceModeControl.spec_opcode(), params@), true);
            done = done + frame(Command::InterfaceModeControl.spec_opcode(), params@);
        }
        let params = [0xA0u8];
        assert(params@ =~= seq![0xA0u8]);
        let ghost before = self.log@;
        let r = self.command(Command::NormalModeFrameRate, &params);
        if r.is_err() {
            return r;
        }
        proof {
            lemma_performed_then(start, before, self.log@, done, frame(Command::NormalModeFrameRate.spec_opcode(), params@), true);
            done = done + frame(Command::NormalModeFrameRate.spec_opcode(), params@);
        }
        let params = [0x02u8];
        assert(params@ =~= seq![0x02u8]);
        let ghost before = self.log@;
        let r = self.command(Command::DisplayInversionControl, &params);
        if r.is_err() {
            return r;
        }
        proof {
            lemma_performed_then(start, before, self.log@, done, frame(Command::DisplayInversionControl.spec_opcode(), params@), true);
            done = done + frame(Command::DisplayInversionControl.spec_opcode(), params@);
        }
        let params = [0x02u8, 0x02u8, 0x3Bu8];
        assert(params@ =~= seq![0x02u8, 0x02u8, 0x3Bu8]);
        let ghost before = self.log@;
        let r = self.command(Command::DisplayFunctionControl, &params);
        if r.is_err() {
            return r;
        }
        proof {
            lemma_performed_then(start, before, self.log@, done, frame(Command::DisplayFunctionControl.spec_opcode(), params@), true);
            done = done + frame(Command::DisplayFunctionControl.spec_opcode(), params@);
        }
        let params = [0xC6u8];
        assert(params@ =~= seq![0xC6u8]);
        let ghost before = self.log@;
        let r = self.command(Command::EntryModeSet, &params);
        if r.is_err() {
            return r;
        }
        proof {
            lemma_performed_then(start, before, self.log@, done, frame(Command::EntryModeSet.spec_opcode(), params@), true);
            done = done + frame(Command::EntryModeSet.spec_opcode(), params@);
        }
        let params = [0xA9u8, 0x51u8, 0x2Cu8, 0x82u8];
        assert(params@ =~= seq![0xA9u8, 0x51u8, 0x2Cu8, 0x82u8]);
        let ghost before = self.log@;
        let r = self.command(Command::AdjustControl3, &params);
        if r.is_err() {
            return r;
        }
        proof {
            lemma_performed_then(start, before, self.log@, done, frame(Command::AdjustControl3.spec_opcode(), params@), true);
            done = done + frame(Command::AdjustControl3.spec_opcode(), params@);
        }
        proof {
            assert(done =~= register_plan(PixelFormat::DATA));
        }
        Ok(())
    }

    /// Resets and initialises the controller: the hardware and software
    /// resets, the register set-up with `pixel_format`, sleep out, the
    /// orientation, display on. Any failure ends the sequence; the steps
    /// already issued stay issued.
    pub fn new<DELAY: Delay, MODE: Mode>(
        interface: IFACE,
        reset: RESET,
        delay: &mut DELAY,
        orientation: MODE,
        pixel_format: PixelFormat,
    ) -> (r: Result<Self, DisplayError>)
        ensures
            r is Ok ==> {
                let d = r->Ok_0;
                &&& d.wf()
                &&& d.spec_landscape() == orientation.spec_is_landscape()
                &&& performed(seq![], d.events(), init_plan(orientation.spec_mode(), PixelFormat::DATA), true)
            },
    {
        let mut ili9488 = Self {
            interface,
            reset,
            width: DisplaySize320x480::WIDTH,
            height: DisplaySize320x480::HEIGHT,
            landscape: false,
            _pixel_format: pixel_format,
            log: Ghost(Seq::empty()),
        };
        let r = ili9488.reset_sequence(delay);
        if r.is_err() {
            return Err(r.unwrap_err());
        }
        let ghost mid = ili9488.log@;
        let r = ili9488.init_registers();
        if r.is_err() {
            return Err(r.unwrap_err());
        }
        proof {
            lemma_performed_then(seq![], mid, ili9488.log@, reset_plan(), register_plan(PixelFormat::DATA), true);
        }
        let ghost mid = ili9488.log@;
        let r = ili9488.sleep_mode(ModeState::Off);
        if r.is_err() {
            return Err(r.unwrap_err());
        }
        proof {
            lemma_performed_then(
                seq![],
                mid,
                ili9488.log@,
                reset_plan() + register_plan(PixelFormat::DATA),
                frame(Command::SleepModeOff.spec_opcode(), seq![]),
                true,
            );
        }
        let ghost mid = ili9488.log@;
        let r = ili9488.set_orientation(orientation);
        if r.is_err() {
            return Err(r.unwrap_err());
        }
        proof {
            lemma_performed_then(
                seq![],
                mid,
                ili9488.log@,
                reset_plan() + register_plan(PixelFormat::DATA) + frame(Command::SleepModeOff.spec_opcode(), seq![]),
                frame(Command::MemoryAccessControl.spec_opcode(), seq![orientation.spec_mode()]),
                true,
            );
        }
        let ghost mid = ili9488.log@;
        let r = ili9488.display_mode(ModeState::On);
        if r.is_err() {
            return Err(r.unwrap_err());
        }
        proof {
            lemma_performed_then(
                seq![],
                mid,
                ili9488.log@,
                reset_plan() + register_plan(PixelFormat::DATA) + frame(Command::SleepModeOff.spec_opcode(), seq![])
                    + frame(Command::MemoryAccessControl.spec_opcode(), seq![orientation.spec_mode()]),
                frame(Command::DisplayOn.spec_opcode(), seq![]),
                true,
            );
        }
        Ok(ili9488)
    }
}

} // verus!
