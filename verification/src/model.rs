//! The display payload the bar accepts, held as plain values.
//!
//! These mirror the wire schema of `POST display/draw`: a payload names the
//! application that owns it, may carry a priority and an LED colour, and holds
//! any number of elements. Every string field holds the text that goes on the
//! wire; validating it is the job of `values`.

use vstd::prelude::*;
use vstd::string::*;

use crate::strings::push_char;

verus! {

/// An RGBA colour.
#[derive(Debug, Clone, Copy, PartialEq, Eq)]
pub struct Color {
    pub red: u8,
    pub green: u8,
    pub blue: u8,
    pub alpha: u8,
}

/// The upper-case hex digit for a nibble.
pub open spec fn hex_digit(n: int) -> char {
    if n < 10 {
        ((n + 48) as u8) as char
    } else {
        ((n - 10 + 65) as u8) as char
    }
}

/// Two upper-case hex digits for a byte.
pub open spec fn hex_byte(b: u8) -> Seq<char> {
    seq![hex_digit(b as int / 16), hex_digit(b as int % 16)]
}

/// `#RRGGBBAA`, upper case: how a colour is written on the wire.
pub open spec fn color_text(c: Color) -> Seq<char> {
    seq!['#'] + hex_byte(c.red) + hex_byte(c.green) + hex_byte(c.blue) + hex_byte(c.alpha)
}

fn push_hex_byte(s: &mut String, b: u8)
    ensures
        final(s)@ == old(s)@ + hex_byte(b),
{
    let high = b / 16;
    let low = b % 16;
    let high_char = if high < 10 { (high + 48) as char } else { (high - 10 + 65) as char };
    let low_char = if low < 10 { (low + 48) as char } else { (low - 10 + 65) as char };
    push_char(s, high_char);
    push_char(s, low_char);
}

impl Color {
    /// A colour with every channel given.
    pub fn rgba(red: u8, green: u8, blue: u8, alpha: u8) -> (c: Color)
        ensures
            c == (Color { red, green, blue, alpha }),
    {
        Color { red, green, blue, alpha }
    }

    /// An opaque colour.
    pub fn rgb(red: u8, green: u8, blue: u8) -> (c: Color)
        ensures
            c == (Color { red, green, blue, alpha: 0xff }),
    {
        Color { red, green, blue, alpha: 0xff }
    }

    /// `#RRGGBBAA` in upper case.
    pub fn to_hex_string(&self) -> (s: String)
        ensures
            s@ == color_text(*self),
    {
        let mut s = String::new();
        push_char(&mut s, '#');
        push_hex_byte(&mut s, self.red);
        push_hex_byte(&mut s, self.green);
        push_hex_byte(&mut s, self.blue);
        push_hex_byte(&mut s, self.alpha);
        s
    }
}

/// The bitmap fonts the bar offers.
#[derive(Debug, Clone, Copy, PartialEq, Eq)]
pub enum Font {
    Tiny,
    Small,
    Normal,
    Condensed,
    Bold,
    Large,
    ExtraLarge,
    Global,
}

/// Where an element sits relative to its anchor point.
#[derive(Debug, Clone, Copy, PartialEq, Eq)]
pub enum Align {
    TopLeft,
    TopMid,
    TopRight,
    MidLeft,
    Center,
    MidRight,
    BottomLeft,
    BottomMid,
    BottomRight,
}

/// The two displays: the 72x16 front and the 160x80 back.
#[derive(Debug, Clone, Copy, PartialEq, Eq)]
pub enum Screen {
    Front,
    Back,
}

/// How a rectangle is filled.
#[derive(Debug, Clone, Copy, PartialEq, Eq)]
pub enum Fill {
    NoFill,
    Solid,
    GradientH,
    GradientV,
}

/// Which way a countdown counts.
#[derive(Debug, Clone, Copy, PartialEq, Eq)]
pub enum CountdownDirection {
    TimeLeft,
    TimeSince,
}

/// When a countdown shows its hours.
#[derive(Debug, Clone, Copy, PartialEq, Eq)]
pub enum ShowHours {
    WhenNonZero,
    Always,
}

/// How long an element stays on screen.
#[derive(Debug, Clone, Copy, PartialEq, Eq)]
pub enum Lifetime {
    /// Seconds on screen; 0 is forever.
    Timeout { timeout: u32 },
    /// Hidden at this Unix time.
    DisplayUntil { display_until: u64 },
}

/// Where an image or animation comes from.
#[derive(Debug, Clone, PartialEq, Eq)]
pub enum ImageSource {
    /// A file in this application's asset directory.
    Asset { path: String },
    /// A device built-in under `shared/`.
    Stock { stock_path: String },
}

/// A line of text.
#[derive(Debug, Clone, PartialEq, Eq)]
pub struct TextElement {
    pub text: String,
    pub font: Font,
    pub color: Option<Color>,
    pub width: Option<u16>,
    pub scroll_rate: Option<u32>,
    pub scroll_start_delay: Option<u32>,
    pub scroll_repeat_delay: Option<u32>,
}

/// A still image.
#[derive(Debug, Clone, PartialEq, Eq)]
pub struct ImageElement {
    pub source: ImageSource,
    pub opacity: Option<u8>,
}

/// A `.anim` animation, played by the bar on its own clock.
#[derive(Debug, Clone, PartialEq, Eq)]
pub struct AnimationElement {
    pub source: ImageSource,
    pub repeat: Option<bool>,
    pub await_previous_end: Option<bool>,
    pub section: Option<String>,
    pub opacity: Option<u8>,
}

/// A countdown to, or count from, a Unix time.
#[derive(Debug, Clone, PartialEq, Eq)]
pub struct CountdownElement {
    pub timestamp: u64,
    pub color: Option<Color>,
    pub direction: CountdownDirection,
    pub show_hours: ShowHours,
}

/// A filled or outlined rectangle.
#[derive(Debug, Clone, PartialEq, Eq)]
pub struct RectangleElement {
    pub width: u16,
    pub height: u16,
    pub radius: Option<u16>,
    pub fill: Option<Fill>,
    pub fill_colors: Option<Vec<Color>>,
    pub border_width: Option<u16>,
    pub border_color: Option<Color>,
}

/// What an element draws.
#[derive(Debug, Clone, PartialEq, Eq)]
pub enum ElementKind {
    Text(TextElement),
    Image(ImageElement),
    Animation(AnimationElement),
    Countdown(CountdownElement),
    Rectangle(RectangleElement),
}

/// One element of a payload.
#[derive(Debug, Clone, PartialEq, Eq)]
pub struct DisplayElement {
    pub id: String,
    pub lifetime: Option<Lifetime>,
    pub x: Option<i16>,
    pub y: Option<i16>,
    pub display: Option<Screen>,
    pub align: Option<Align>,
    pub kind: ElementKind,
}

/// A whole `display/draw` request body.
#[derive(Debug, Clone, PartialEq, Eq)]
pub struct DisplayElements {
    pub application_name: String,
    pub priority: Option<u8>,
    pub led_notification_color: Option<Color>,
    pub elements: Vec<DisplayElement>,
}

/// How `Debug` spells an anchor, as the warnings quote it.
pub open spec fn align_debug(a: Align) -> Seq<char> {
    match a {
        Align::TopLeft => "TopLeft"@,
        Align::TopMid => "TopMid"@,
        Align::TopRight => "TopRight"@,
        Align::MidLeft => "MidLeft"@,
        Align::Center => "Center"@,
        Align::MidRight => "MidRight"@,
        Align::BottomLeft => "BottomLeft"@,
        Align::BottomMid => "BottomMid"@,
        Align::BottomRight => "BottomRight"@,
    }
}

/// How `Debug` spells a font, as the warnings quote it.
pub open spec fn font_debug(f: Font) -> Seq<char> {
    match f {
        Font::Tiny => "Tiny"@,
        Font::Small => "Small"@,
        Font::Normal => "Normal"@,
        Font::Condensed => "Condensed"@,
        Font::Bold => "Bold"@,
        Font::Large => "Large"@,
        Font::ExtraLarge => "ExtraLarge"@,
        Font::Global => "Global"@,
    }
}

/// The `Debug` spelling of an anchor.
pub fn align_debug_name(a: Align) -> (s: &'static str)
    ensures
        s@ == align_debug(a),
{
    match a {
        Align::TopLeft => "TopLeft",
        Align::TopMid => "TopMid",
        Align::TopRight => "TopRight",
        Align::MidLeft => "MidLeft",
        Align::Center => "Center",
        Align::MidRight => "MidRight",
        Align::BottomLeft => "BottomLeft",
        Align::BottomMid => "BottomMid",
        Align::BottomRight => "BottomRight",
    }
}

/// The `Debug` spelling of a font.
pub fn font_debug_name(f: Font) -> (s: &'static str)
    ensures
        s@ == font_debug(f),
{
    match f {
        Font::Tiny => "Tiny",
        Font::Small => "Small",
        Font::Normal => "Normal",
        Font::Condensed => "Condensed",
        Font::Bold => "Bold",
        Font::Large => "Large",
        Font::ExtraLarge => "ExtraLarge",
        Font::Global => "Global",
    }
}

} // verus!
