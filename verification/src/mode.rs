//! One display mode: what it holds, when two modes are the same, how a mode
//! is classified, and its textual forms.

use crate::text::{append_numeral, append_padded, decimal_text, hex_text, numeral, pad_right};
use vstd::prelude::*;
use vstd::string::*;

verus! {

/// The position of a display among the active displays, as the platform
/// listed them.
pub type DisplayIndex = u8;

/// The shape of a screen.
#[derive(Clone, Copy, Debug, PartialEq, Eq, Structural)]
pub enum ScreenFormat {
    F16_9,
    F16_10,
    F4_3,
}

/// A refresh rate in thousandths of a hertz. Zero stands for a rate that is
/// not specified.
#[derive(Clone, Copy, Debug, PartialEq, Eq, Structural)]
pub struct RefreshRate {
    pub millihertz: u64,
}

/// One mode as the platform reports it for a display.
#[derive(Clone, Copy, Debug)]
pub struct ModeRecord {
    /// The token by which the platform's own record is found again.
    pub handle: usize,
    pub width: u64,
    pub height: u64,
    pub pixel_width: u64,
    pub pixel_height: u64,
    pub refresh_rate: RefreshRate,
    pub io_flags: u32,
    pub bit_depth: usize,
}

/// A display mode. One that was enumerated carries the handle of the
/// platform's record; one that was read from a specifier carries none, and
/// has to be resolved against a catalog before it can be applied.
#[derive(Clone, Copy, Debug)]
pub struct Mode {
    pub display: DisplayIndex,
    pub native_handle: Option<usize>,
    pub width: u64,
    pub height: u64,
    pub pixel_width: u64,
    pub pixel_height: u64,
    pub refresh_rate: RefreshRate,
    pub io_flags: u32,
    pub bit_depth: usize,
}

/// The digits after the decimal point of a rate with `f` thousandths beyond
/// the whole hertz, trailing zeros left out.
pub open spec fn fraction_text(f: nat) -> Seq<char> {
    if f % 10 != 0 {
        numeral(f, 10, 3)
    } else if f % 100 != 0 {
        numeral(f / 10, 10, 2)
    } else {
        numeral(f / 100, 10, 1)
    }
}

/// The text of a rate of `m` thousandths of a hertz: the whole hertz, and a
/// decimal point with the thousandths only where there are any.
pub open spec fn rate_text(m: nat) -> Seq<char> {
    if m % 1000 == 0 {
        decimal_text(m / 1000)
    } else {
        decimal_text(m / 1000).push('.') + fraction_text(m % 1000)
    }
}

/// The compact form: width, height and bit depth separated by `x`, then `@`
/// and the refresh rate.
pub open spec fn compact_text(width: nat, height: nat, bit_depth: nat, millihertz: nat) -> Seq<
    char,
> {
    decimal_text(width) + "x"@ + decimal_text(height) + "x"@ + decimal_text(bit_depth) + "@"@
        + rate_text(millihertz)
}

/// The shape of a screen of `width` by `height`: sixteen to nine or sixteen
/// to ten where the ratio is exactly that, four to three in every other case.
pub open spec fn format_of(width: nat, height: nat) -> ScreenFormat {
    if height != 0 && 9 * width == 16 * height {
        ScreenFormat::F16_9
    } else if height != 0 && 10 * width == 16 * height {
        ScreenFormat::F16_10
    } else {
        ScreenFormat::F4_3
    }
}

/// The label of a screen format.
pub open spec fn format_label(format: ScreenFormat) -> Seq<char> {
    match format {
        ScreenFormat::F16_9 => "16:9"@,
        ScreenFormat::F16_10 => "16:10"@,
        ScreenFormat::F4_3 => "4:3"@,
    }
}

/// The marker of a scaled mode, empty for a mode that is not scaled.
pub open spec fn hidpi_label(hidpi: bool) -> Seq<char> {
    if hidpi {
        "HiDPI"@
    } else {
        ""@
    }
}

impl RefreshRate {
    /// The rate of `hertz` whole hertz, where it can be held.
    pub fn from_hertz(hertz: u64) -> (r: Option<RefreshRate>)
        ensures
            r == (if hertz * 1000 <= u64::MAX {
                Some(RefreshRate { millihertz: (hertz * 1000) as u64 })
            } else {
                None
            }),
    {
        if hertz <= u64::MAX / 1000 {
            Some(RefreshRate { millihertz: hertz * 1000 })
        } else {
            None
        }
    }

    /// Appends the text of the rate to `out`.
    pub fn append_to(&self, out: &mut String)
        ensures
            final(out)@ == old(out)@ + rate_text(self.millihertz as nat),
    {
        let whole = self.millihertz / 1000;
        let f = self.millihertz % 1000;
        append_numeral(out, whole, 10, 1);
        if f != 0 {
            out.append(".");
            proof {
                reveal_strlit(".");
            }
            if f % 10 != 0 {
                append_numeral(out, f, 10, 3);
            } else if f % 100 != 0 {
                append_numeral(out, f / 10, 10, 2);
            } else {
                append_numeral(out, f / 100, 10, 1);
            }
            assert(final(out)@ =~= old(out)@ + rate_text(self.millihertz as nat));
        }
    }
}

impl Mode {
    /// The mode of `display` that the platform's record describes. It keeps
    /// the record's handle.
    pub fn from(display: DisplayIndex, record: ModeRecord) -> (mode: Mode)
        ensures
            mode == Mode::of_record(display, record),
    {
        Mode {
            display,
            native_handle: Some(record.handle),
            width: record.width,
            height: record.height,
            pixel_width: record.pixel_width,
            pixel_height: record.pixel_height,
            refresh_rate: record.refresh_rate,
            io_flags: record.io_flags,
            bit_depth: record.bit_depth,
        }
    }

    pub open spec fn of_record(display: DisplayIndex, record: ModeRecord) -> Mode {
        Mode {
            display,
            native_handle: Some(record.handle),
            width: record.width,
            height: record.height,
            pixel_width: record.pixel_width,
            pixel_height: record.pixel_height,
            refresh_rate: record.refresh_rate,
            io_flags: record.io_flags,
            bit_depth: record.bit_depth,
        }
    }

    /// Two modes are the same where display, width, height, bit depth and
    /// refresh rate agree, whatever their pixel sizes, flags and handles.
    pub open spec fn same_as(&self, other: &Mode) -> bool {
        self.display == other.display && self.width == other.width && self.height == other.height
            && self.bit_depth == other.bit_depth && self.refresh_rate == other.refresh_rate
    }

    /// Whether the mode is scaled: its size in points is not its size in
    /// pixels.
    pub open spec fn hidpi(&self) -> bool {
        self.width != self.pixel_width || self.height != self.pixel_height
    }

    pub fn is_hdpi(&self) -> (r: bool)
        ensures
            r == self.hidpi(),
    {
        self.width != self.pixel_width || self.height != self.pixel_height
    }

    /// The shape of the screen in this mode.
    pub fn screen_format(&self) -> (format: ScreenFormat)
        ensures
            format == format_of(self.width as nat, self.height as nat),
    {
        let w: u128 = self.width as u128;
        let h: u128 = self.height as u128;
        if h != 0 && 9 * w == 16 * h {
            ScreenFormat::F16_9
        } else if h != 0 && 10 * w == 16 * h {
            ScreenFormat::F16_10
        } else {
            ScreenFormat::F4_3
        }
    }

    /// The compact form of the mode in points.
    pub open spec fn select_text(&self) -> Seq<char> {
        compact_text(
            self.width as nat,
            self.height as nat,
            self.bit_depth as nat,
            self.refresh_rate.millihertz as nat,
        )
    }

    /// The compact form of the mode in pixels.
    pub open spec fn pixel_text(&self) -> Seq<char> {
        compact_text(
            self.pixel_width as nat,
            self.pixel_height as nat,
            self.bit_depth as nat,
            self.refresh_rate.millihertz as nat,
        )
    }

    /// The short form: the display, the compact forms in points and in
    /// pixels in columns of fifteen, the markers in columns of six.
    pub open spec fn short_text(&self) -> Seq<char> {
        "Display "@ + decimal_text(self.display as nat) + ": "@ + pad_right(self.select_text(), 15)
            + " - pixel "@ + pad_right(self.pixel_text(), 15) + " - "@ + pad_right(
            hidpi_label(self.hidpi()),
            6,
        ) + " - "@ + pad_right(
            format_label(format_of(self.width as nat, self.height as nat)),
            6,
        )
    }

    /// The long form: every attribute by name, the flags as seven
    /// hexadecimal digits.
    pub open spec fn long_text(&self) -> Seq<char> {
        "Display "@ + decimal_text(self.display as nat) + ": "@ + decimal_text(self.width as nat)
            + "x"@ + decimal_text(self.height as nat) + ", refresh rate: "@ + rate_text(
            self.refresh_rate.millihertz as nat,
        ) + ", bitDepth: "@ + decimal_text(self.bit_depth as nat) + ", flags: 0x"@ + hex_text(
            self.io_flags as nat,
            7,
        ) + ", "@ + hidpi_label(self.hidpi()) + ", "@ + format_label(
            format_of(self.width as nat, self.height as nat),
        )
    }

    /// The short or the long form.
    pub open spec fn mode_text(&self, long: bool) -> Seq<char> {
        if long {
            self.long_text()
        } else {
            self.short_text()
        }
    }

    fn hidpi_str(&self) -> (s: &'static str)
        ensures
            s@ == hidpi_label(self.hidpi()),
    {
        if self.is_hdpi() {
            "HiDPI"
        } else {
            ""
        }
    }

    fn format_str(&self) -> (s: &'static str)
        ensures
            s@ == format_label(format_of(self.width as nat, self.height as nat)),
    {
        match self.screen_format() {
            ScreenFormat::F16_9 => "16:9",
            ScreenFormat::F16_10 => "16:10",
            ScreenFormat::F4_3 => "4:3",
        }
    }

    fn compact(width: u64, height: u64, bit_depth: usize, rate: RefreshRate) -> (s: String)
        ensures
            s@ == compact_text(
                width as nat,
                height as nat,
                bit_depth as nat,
                rate.millihertz as nat,
            ),
    {
        let mut out = String::new();
        append_numeral(&mut out, width, 10, 1);
        out.append("x");
        append_numeral(&mut out, height, 10, 1);
        out.append("x");
        append_numeral(&mut out, bit_depth as u64, 10, 1);
        out.append("@");
        rate.append_to(&mut out);
        assert(out@ =~= compact_text(
            width as nat,
            height as nat,
            bit_depth as nat,
            rate.millihertz as nat,
        ));
        out
    }

    fn print_short(&self) -> (s: String)
        ensures
            s@ == self.short_text(),
    {
        let mode_str = Mode::compact(self.width, self.height, self.bit_depth, self.refresh_rate);
        let mode_pixel = Mode::compact(
            self.pixel_width,
            self.pixel_height,
            self.bit_depth,
            self.refresh_rate,
        );
        let mut out = String::new();
        out.append("Display ");
        append_numeral(&mut out, self.display as u64, 10, 1);
        out.append(": ");
        append_padded(&mut out, mode_str.as_str(), 15);
        out.append(" - pixel ");
        append_padded(&mut out, mode_pixel.as_str(), 15);
        out.append(" - ");
        append_padded(&mut out, self.hidpi_str(), 6);
        out.append(" - ");
        append_padded(&mut out, self.format_str(), 6);
        assert(out@ =~= self.short_text());
        out
    }

    fn print_long(&self) -> (s: String)
        ensures
            s@ == self.long_text(),
    {
        let mut out = String::new();
        out.append("Display ");
        append_numeral(&mut out, self.display as u64, 10, 1);
        out.append(": ");
        append_numeral(&mut out, self.width, 10, 1);
        out.append("x");
        append_numeral(&mut out, self.height, 10, 1);
        out.append(", refresh rate: ");
        self.refresh_rate.append_to(&mut out);
        out.append(", bitDepth: ");
        append_numeral(&mut out, self.bit_depth as u64, 10, 1);
        out.append(", flags: 0x");
        append_numeral(&mut out, self.io_flags as u64, 16, 7);
        out.append(", ");
        out.append(self.hidpi_str());
        out.append(", ");
        out.append(self.format_str());
        assert(out@ =~= self.long_text());
        out
    }

    /// The text of the mode for a listing, in the long or the short form.
    pub fn print_mode(&self, long: bool) -> (s: String)
        ensures
            s@ == self.mode_text(long),
    {
        if long {
            self.print_long()
        } else {
            self.print_short()
        }
    }

    /// The compact form of the mode, the one that a specifier is written in.
    pub fn for_select(&self) -> (s: String)
        ensures
            s@ == self.select_text(),
    {
        Mode::compact(self.width, self.height, self.bit_depth, self.refresh_rate)
    }
}

impl PartialEq for Mode {
    fn eq(&self, other: &Mode) -> (r: bool) {
        self.display == other.display && self.width == other.width && self.height == other.height
            && self.bit_depth == other.bit_depth && self.refresh_rate.millihertz
            == other.refresh_rate.millihertz
    }
}

impl vstd::std_specs::cmp::PartialEqSpecImpl for Mode {
    open spec fn obeys_eq_spec() -> bool {
        true
    }

    open spec fn eq_spec(&self, other: &Mode) -> bool {
        self.same_as(other)
    }
}

} // verus!
