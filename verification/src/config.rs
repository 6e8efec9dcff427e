//! Layered configuration.
//!
//! Precedence, highest first: command-line flags, environment, config file,
//! built-in `Defaults`. `resolve` takes every layer as a value rather than
//! reading the process environment, which keeps it deterministic and leaves
//! one seam for the template layer.

use etcetera::BaseStrategy;
use vstd::prelude::*;
use vstd::string::*;

use crate::cli::{AlignArg, FontArg, GlobalArgs, PrefixArg, ScreenArg, StyleArgs};
use crate::color::{self, color_of_text, invalid_color_text};
use crate::model::{Align, Color, Font, Screen};
use crate::strings::{
    ascii_lower, decimal, decimal_string, octal, octal_string, join_path, join_strs, joined, path_join,
    same_text, to_ascii_lowercase, trimmed, unsigned_of_text, parse_unsigned,
};

verus! {

/// Built-in fallbacks. The single place a default value is written.
pub struct Defaults;

impl Defaults {
    pub const ADDR: &'static str = "http://10.0.4.20";

    pub const APP: &'static str = "busy";

    pub const HTTP_TIMEOUT_MS: u64 = 5000;

    /// 95 beats an active BUSY work session at 90. The device's own default
    /// is 50, which loses exactly when the user is at their desk.
    pub const PRIORITY: u8 = 95;

    pub const ELEMENT_ID: &'static str = "message";

    pub const IMAGE_ELEMENT_ID: &'static str = "image";

    /// The API prefix of a bar, `/api`.
    pub fn api_prefix() -> (p: PrefixArg)
        ensures
            p == PrefixArg::Device,
    {
        PrefixArg::Device
    }

    pub fn font() -> (f: Font)
        ensures
            f == Font::Large,
    {
        Font::Large
    }

    /// Opaque white.
    pub fn color() -> (c: Color)
        ensures
            c == default_color(),
    {
        Color::rgba(0xff, 0xff, 0xff, 0xff)
    }

    pub fn screen() -> (s: Screen)
        ensures
            s == Screen::Front,
    {
        Screen::Front
    }

    /// The device's own implicit anchor is `top_left`; centring on the middle
    /// of the display makes `busy text "hi"` look deliberate.
    pub fn align() -> (a: Align)
        ensures
            a == Align::Center,
    {
        Align::Center
    }

    /// Centre of a display, the default anchor position: (36, 8) on the 72x16
    /// front, (80, 40) on the 160x80 back.
    pub fn position(screen: Screen) -> (p: (i16, i16))
        ensures
            p == default_position(screen),
    {
        match screen {
            Screen::Front => (36, 8),
            Screen::Back => (80, 40),
        }
    }

    /// The size of the panel an image is fitted to.
    pub fn panel(screen: Screen) -> (p: (u32, u32))
        ensures
            screen == Screen::Front ==> p == (72u32, 16u32),
            screen == Screen::Back ==> p == (160u32, 80u32),
    {
        match screen {
            Screen::Front => (72, 16),
            Screen::Back => (160, 80),
        }
    }
}

pub open spec fn default_color() -> Color {
    Color { red: 0xff, green: 0xff, blue: 0xff, alpha: 0xff }
}

pub open spec fn default_position(screen: Screen) -> (i16, i16) {
    match screen {
        Screen::Front => (36i16, 8i16),
        Screen::Back => (80i16, 40i16),
    }
}

/// Values read from the environment.
#[derive(Debug, Clone, Default, PartialEq, Eq)]
pub struct Env {
    pub addr: Option<String>,
    pub token: Option<String>,
    pub app: Option<String>,
}

/// `~/.config/busy/config.toml`, as read.
#[derive(Debug, Clone, Default, PartialEq)]
pub struct FileConfig {
    pub addr: Option<String>,
    pub app: Option<String>,
    pub token: Option<String>,
    pub http_timeout: Option<u64>,
    pub defaults: FileDefaults,
}

/// The `[defaults]` table of the config file.
#[derive(Debug, Clone, Default, PartialEq)]
pub struct FileDefaults {
    pub font: Option<String>,
    pub align: Option<String>,
    pub color: Option<String>,
    pub screen: Option<String>,
    pub priority: Option<u8>,
}

/// The file-and-default layer for every setting a command needs. `screen`
/// and `priority` reflect only the config file and built-in defaults;
/// callers layer `--screen` and `--priority` on top themselves.
#[derive(Debug, Clone)]
pub struct Settings {
    pub addr: String,
    pub app: String,
    pub token: Option<String>,
    pub api_prefix: PrefixArg,
    pub http_timeout_ms: u64,
    pub font: Font,
    pub color: Color,
    pub screen: Screen,
    pub priority: u8,
}

/// A value named on the command line or in the config file, spelled as the
/// command line spells it.
pub trait FromArgName: Sized {
    /// The value `name` spells, if any.
    spec fn arg_named(name: Seq<char>) -> Option<Self>;

    /// Every accepted spelling, in order.
    spec fn accepted_names() -> Seq<Seq<char>>;

    fn from_arg_name(value: &str) -> (r: Option<Self>)
        ensures
            r == Self::arg_named(value@),
    ;

    fn accepted() -> (names: Vec<&'static str>)
        ensures
            names.deep_view() == Self::accepted_names(),
    ;
}

pub open spec fn font_named(name: Seq<char>) -> Option<Font> {
    if name == "tiny"@ {
        Some(Font::Tiny)
    } else if name == "small"@ {
        Some(Font::Small)
    } else if name == "normal"@ {
        Some(Font::Normal)
    } else if name == "condensed"@ {
        Some(Font::Condensed)
    } else if name == "bold"@ {
        Some(Font::Bold)
    } else if name == "large"@ {
        Some(Font::Large)
    } else if name == "extra_large"@ {
        Some(Font::ExtraLarge)
    } else if name == "global"@ {
        Some(Font::Global)
    } else {
        None
    }
}

pub open spec fn align_named(name: Seq<char>) -> Option<Align> {
    if name == "top_left"@ {
        Some(Align::TopLeft)
    } else if name == "top_mid"@ {
        Some(Align::TopMid)
    } else if name == "top_right"@ {
        Some(Align::TopRight)
    } else if name == "mid_left"@ {
        Some(Align::MidLeft)
    } else if name == "center"@ {
        Some(Align::Center)
    } else if name == "mid_right"@ {
        Some(Align::MidRight)
    } else if name == "bottom_left"@ {
        Some(Align::BottomLeft)
    } else if name == "bottom_mid"@ {
        Some(Align::BottomMid)
    } else if name == "bottom_right"@ {
        Some(Align::BottomRight)
    } else {
        None
    }
}

pub open spec fn screen_named(name: Seq<char>) -> Option<Screen> {
    if name == "front"@ {
        Some(Screen::Front)
    } else if name == "back"@ {
        Some(Screen::Back)
    } else {
        None
    }
}

impl FromArgName for Font {
    open spec fn arg_named(name: Seq<char>) -> Option<Font> {
        font_named(name)
    }

    open spec fn accepted_names() -> Seq<Seq<char>> {
        seq![
            "tiny"@,
            "small"@,
            "normal"@,
            "condensed"@,
            "bold"@,
            "large"@,
            "extra_large"@,
            "global"@,
        ]
    }

    fn from_arg_name(value: &str) -> (r: Option<Font>) {
        if same_text(value, "tiny") {
            Some(Font::Tiny)
        } else if same_text(value, "small") {
            Some(Font::Small)
        } else if same_text(value, "normal") {
            Some(Font::Normal)
        } else if same_text(value, "condensed") {
            Some(Font::Condensed)
        } else if same_text(value, "bold") {
            Some(Font::Bold)
        } else if same_text(value, "large") {
            Some(Font::Large)
        } else if same_text(value, "extra_large") {
            Some(Font::ExtraLarge)
        } else if same_text(value, "global") {
            Some(Font::Global)
        } else {
            None
        }
    }

    fn accepted() -> (names: Vec<&'static str>) {
        let names = vec!["tiny", "small", "normal", "condensed", "bold", "large", "extra_large", "global"];
        assert(names.deep_view() =~= Self::accepted_names());
        names
    }
}

impl FromArgName for Align {
    open spec fn arg_named(name: Seq<char>) -> Option<Align> {
        align_named(name)
    }

    open spec fn accepted_names() -> Seq<Seq<char>> {
        seq![
            "top_left"@,
            "top_mid"@,
            "top_right"@,
            "mid_left"@,
            "center"@,
            "mid_right"@,
            "bottom_left"@,
            "bottom_mid"@,
            "bottom_right"@,
        ]
    }

    fn from_arg_name(value: &str) -> (r: Option<Align>) {
        if same_text(value, "top_left") {
            Some(Align::TopLeft)
        } else if same_text(value, "top_mid") {
            Some(Align::TopMid)
        } else if same_text(value, "top_right") {
            Some(Align::TopRight)
        } else if same_text(value, "mid_left") {
            Some(Align::MidLeft)
        } else if same_text(value, "center") {
            Some(Align::Center)
        } else if same_text(value, "mid_right") {
            Some(Align::MidRight)
        } else if same_text(value, "bottom_left") {
            Some(Align::BottomLeft)
        } else if same_text(value, "bottom_mid") {
            Some(Align::BottomMid)
        } else if same_text(value, "bottom_right") {
            Some(Align::BottomRight)
        } else {
            None
        }
    }

    fn accepted() -> (names: Vec<&'static str>) {
        let names = vec![
            "top_left",
            "top_mid",
            "top_right",
            "mid_left",
            "center",
            "mid_right",
            "bottom_left",
            "bottom_mid",
            "bottom_right",
        ];
        assert(names.deep_view() =~= Self::accepted_names());
        names
    }
}

impl FromArgName for Screen {
    open spec fn arg_named(name: Seq<char>) -> Option<Screen> {
        screen_named(name)
    }

    open spec fn accepted_names() -> Seq<Seq<char>> {
        seq!["front"@, "back"@]
    }

    fn from_arg_name(value: &str) -> (r: Option<Screen>) {
        if same_text(value, "front") {
            Some(Screen::Front)
        } else if same_text(value, "back") {
            Some(Screen::Back)
        } else {
            None
        }
    }

    fn accepted() -> (names: Vec<&'static str>) {
        let names = vec!["front", "back"];
        assert(names.deep_view() =~= Self::accepted_names());
        names
    }
}

/// The text of a config-file value that names nothing.
pub open spec fn enum_error(label: Seq<char>, value: Seq<char>, accepted: Seq<Seq<char>>) -> Seq<
    char,
> {
    "invalid "@ + label + " `"@ + value + "` in the config file: expected one of "@ + joined(
        accepted,
        ", "@,
    )
}

/// Parse a snake_case value from the config file, using the spellings the
/// command line accepts so the two can never drift apart.
fn parse_enum<T: FromArgName>(value: &str, label: &str) -> (res: Result<T, String>)
    ensures
        match T::arg_named(value@) {
            Some(t) => res == Ok::<T, String>(t),
            None => res matches Err(m) && m@ == enum_error(label@, value@, T::accepted_names()),
        },
{
    match T::from_arg_name(value) {
        Some(t) => Ok(t),
        None => {
            let names = T::accepted();
            let list = join_strs(&names, ", ");
            let mut m = String::from_str("invalid ");
            m.append(label);
            m.append(" `");
            m.append(value);
            m.append("` in the config file: expected one of ");
            m.append(list.as_str());
            Err(m)
        },
    }
}

pub open spec fn spec_font_from_arg(arg: FontArg) -> Font {
    match arg {
        FontArg::Tiny => Font::Tiny,
        FontArg::Small => Font::Small,
        FontArg::Normal => Font::Normal,
        FontArg::Condensed => Font::Condensed,
        FontArg::Bold => Font::Bold,
        FontArg::Large => Font::Large,
        FontArg::ExtraLarge => Font::ExtraLarge,
        FontArg::Global => Font::Global,
    }
}

pub open spec fn spec_align_from_arg(arg: AlignArg) -> Align {
    match arg {
        AlignArg::TopLeft => Align::TopLeft,
        AlignArg::TopMid => Align::TopMid,
        AlignArg::TopRight => Align::TopRight,
        AlignArg::MidLeft => Align::MidLeft,
        AlignArg::Center => Align::Center,
        AlignArg::MidRight => Align::MidRight,
        AlignArg::BottomLeft => Align::BottomLeft,
        AlignArg::BottomMid => Align::BottomMid,
        AlignArg::BottomRight => Align::BottomRight,
    }
}

/// The value `--font` is given on the command line for each choice: the
/// variant's name in snake case.
pub open spec fn font_flag_name(arg: FontArg) -> Seq<char> {
    match arg {
        FontArg::Tiny => "tiny"@,
        FontArg::Small => "small"@,
        FontArg::Normal => "normal"@,
        FontArg::Condensed => "condensed"@,
        FontArg::Bold => "bold"@,
        FontArg::Large => "large"@,
        FontArg::ExtraLarge => "extra_large"@,
        FontArg::Global => "global"@,
    }
}

/// The value `--align` is given on the command line for each choice: the
/// variant's name in snake case.
pub open spec fn align_flag_name(arg: AlignArg) -> Seq<char> {
    match arg {
        AlignArg::TopLeft => "top_left"@,
        AlignArg::TopMid => "top_mid"@,
        AlignArg::TopRight => "top_right"@,
        AlignArg::MidLeft => "mid_left"@,
        AlignArg::Center => "center"@,
        AlignArg::MidRight => "mid_right"@,
        AlignArg::BottomLeft => "bottom_left"@,
        AlignArg::BottomMid => "bottom_mid"@,
        AlignArg::BottomRight => "bottom_right"@,
    }
}

/// Each `--font` value selects the font of the same name: its name, read
/// as a font name (as the config file reads one), gives the font; no two
/// values select the same font; and a font flag is what `resolve` settles
/// on, whatever the config file says.
pub proof fn lemma_font_flag_selects_its_namesake(
    a: FontArg,
    b: FontArg,
    style: StyleArgs,
    file: FileConfig,
)
    ensures
        font_named(font_flag_name(a)) == Some(spec_font_from_arg(a)),
        spec_font_from_arg(a) == spec_font_from_arg(b) ==> a == b,
        style.font == Some(a) ==> (resolved_font(style, file) matches Ok(f) && font_named(
            font_flag_name(a),
        ) == Some(f)),
{
    reveal_strlit("tiny");
    reveal_strlit("small");
    reveal_strlit("normal");
    reveal_strlit("condensed");
    reveal_strlit("bold");
    reveal_strlit("large");
    reveal_strlit("extra_large");
    reveal_strlit("global");
    assert("tiny"@.len() == 4 && "tiny"@[0] == 't');
    assert("small"@.len() == 5 && "small"@[0] == 's');
    assert("normal"@.len() == 6 && "normal"@[0] == 'n');
    assert("condensed"@.len() == 9 && "condensed"@[0] == 'c');
    assert("bold"@.len() == 4 && "bold"@[0] == 'b');
    assert("large"@.len() == 5 && "large"@[0] == 'l');
    assert("extra_large"@.len() == 11 && "extra_large"@[0] == 'e');
    assert("global"@.len() == 6 && "global"@[0] == 'g');
}

/// Each `--align` value anchors at the point of the same name: its name,
/// read as an anchor name (as the config file reads one), gives the anchor;
/// no two values give the same anchor; and an align flag is what the
/// element gets, whatever the config file says.
pub proof fn lemma_align_flag_selects_its_namesake(a: AlignArg, b: AlignArg, file: FileConfig)
    ensures
        align_named(align_flag_name(a)) == Some(spec_align_from_arg(a)),
        spec_align_from_arg(a) == spec_align_from_arg(b) ==> a == b,
        align_named(align_flag_name(a)) == Some(resolved_align(Some(a), file)),
{
    reveal_strlit("top_left");
    reveal_strlit("top_mid");
    reveal_strlit("top_right");
    reveal_strlit("mid_left");
    reveal_strlit("center");
    reveal_strlit("mid_right");
    reveal_strlit("bottom_left");
    reveal_strlit("bottom_mid");
    reveal_strlit("bottom_right");
    assert("top_left"@.len() == 8 && "top_left"@[0] == 't');
    assert("top_mid"@.len() == 7 && "top_mid"@[0] == 't');
    assert("top_right"@.len() == 9 && "top_right"@[0] == 't');
    assert("mid_left"@.len() == 8 && "mid_left"@[0] == 'm');
    assert("center"@.len() == 6 && "center"@[0] == 'c');
    assert("mid_right"@.len() == 9 && "mid_right"@[0] == 'm');
    assert("bottom_left"@.len() == 11 && "bottom_left"@[0] == 'b');
    assert("bottom_mid"@.len() == 10 && "bottom_mid"@[0] == 'b');
    assert("bottom_right"@.len() == 12 && "bottom_right"@[0] == 'b');
}

pub open spec fn spec_screen_from_arg(arg: ScreenArg) -> Screen {
    match arg {
        ScreenArg::Front => Screen::Front,
        ScreenArg::Back => Screen::Back,
    }
}

pub fn font_from_arg(arg: FontArg) -> (f: Font)
    ensures
        f == spec_font_from_arg(arg),
        font_named(font_flag_name(arg)) == Some(f),
{
    proof {
        lemma_font_flag_selects_its_namesake(arg, arg, StyleArgs { font: None, color: None }, vstd::pervasive::arbitrary());
    }
    match arg {
        FontArg::Tiny => Font::Tiny,
        FontArg::Small => Font::Small,
        FontArg::Normal => Font::Normal,
        FontArg::Condensed => Font::Condensed,
        FontArg::Bold => Font::Bold,
        FontArg::Large => Font::Large,
        FontArg::ExtraLarge => Font::ExtraLarge,
        FontArg::Global => Font::Global,
    }
}

pub fn align_from_arg(arg: AlignArg) -> (a: Align)
    ensures
        a == spec_align_from_arg(arg),
        align_named(align_flag_name(arg)) == Some(a),
{
    proof {
        lemma_align_flag_selects_its_namesake(arg, arg, vstd::pervasive::arbitrary());
    }
    match arg {
        AlignArg::TopLeft => Align::TopLeft,
        AlignArg::TopMid => Align::TopMid,
        AlignArg::TopRight => Align::TopRight,
        AlignArg::MidLeft => Align::MidLeft,
        AlignArg::Center => Align::Center,
        AlignArg::MidRight => Align::MidRight,
        AlignArg::BottomLeft => Align::BottomLeft,
        AlignArg::BottomMid => Align::BottomMid,
        AlignArg::BottomRight => Align::BottomRight,
    }
}

pub fn screen_from_arg(arg: ScreenArg) -> (s: Screen)
    ensures
        s == spec_screen_from_arg(arg),
{
    match arg {
        ScreenArg::Front => Screen::Front,
        ScreenArg::Back => Screen::Back,
    }
}

/// The first layer that sets a value, highest precedence first.
pub open spec fn first_set(a: Option<String>, b: Option<String>, c: Option<String>) -> Option<
    Seq<char>,
> {
    match a {
        Some(s) => Some(s@),
        None => match b {
            Some(s) => Some(s@),
            None => match c {
                Some(s) => Some(s@),
                None => None,
            },
        },
    }
}

fn first_of(a: &Option<String>, b: &Option<String>, c: &Option<String>) -> (r: Option<String>)
    ensures
        match r {
            Some(s) => first_set(*a, *b, *c) == Some(s@),
            None => first_set(*a, *b, *c) is None,
        },
{
    match a {
        Some(s) => Some(s.clone()),
        None => match b {
            Some(s) => Some(s.clone()),
            None => match c {
                Some(s) => Some(s.clone()),
                None => None,
            },
        },
    }
}

/// The font: the flag, else the config file, else `large`.
pub open spec fn resolved_font(style: StyleArgs, file: FileConfig) -> Result<Font, Seq<char>> {
    match style.font {
        Some(f) => Ok(spec_font_from_arg(f)),
        None => match file.defaults.font {
            Some(n) => match font_named(n@) {
                Some(f) => Ok(f),
                None => Err(enum_error("font"@, n@, <Font as FromArgName>::accepted_names())),
            },
            None => Ok(Font::Large),
        },
    }
}

/// A colour as the lenient parser reads it.
pub open spec fn parsed_color(input: Seq<char>) -> Result<Color, Seq<char>> {
    match color_of_text(trimmed(input)) {
        Some(c) => Ok(c),
        None => Err(invalid_color_text(input)),
    }
}

/// The colour: the flag, else the config file, else opaque white.
pub open spec fn resolved_color(style: StyleArgs, file: FileConfig) -> Result<Color, Seq<char>> {
    match style.color {
        Some(c) => parsed_color(c@),
        None => match file.defaults.color {
            Some(c) => parsed_color(c@),
            None => Ok(default_color()),
        },
    }
}

/// The screen: the config file, else the front.
pub open spec fn resolved_screen(file: FileConfig) -> Result<Screen, Seq<char>> {
    match file.defaults.screen {
        Some(n) => match screen_named(n@) {
            Some(s) => Ok(s),
            None => Err(enum_error("screen"@, n@, <Screen as FromArgName>::accepted_names())),
        },
        None => Ok(Screen::Front),
    }
}

/// The priority: the config file, which must say 1-100, else 95.
pub open spec fn resolved_priority(file: FileConfig) -> Result<u8, Seq<char>> {
    match file.defaults.priority {
        Some(p) => if 1 <= p <= 100 {
            Ok(p)
        } else {
            Err(
                "invalid priority `"@ + decimal(p as nat)
                    + "` in the config file: expected 1-100"@,
            )
        },
        None => Ok(95u8),
    }
}

/// The first problem `resolve` reports: font, then colour, then screen, then
/// priority.
pub open spec fn resolve_error(style: StyleArgs, file: FileConfig) -> Option<Seq<char>> {
    if resolved_font(style, file) is Err {
        Some(resolved_font(style, file)->Err_0)
    } else if resolved_color(style, file) is Err {
        Some(resolved_color(style, file)->Err_0)
    } else if resolved_screen(file) is Err {
        Some(resolved_screen(file)->Err_0)
    } else if resolved_priority(file) is Err {
        Some(resolved_priority(file)->Err_0)
    } else {
        None
    }
}

/// Whether `s` is what the layers resolve to: each setting from the highest
/// layer that sets it.
pub open spec fn resolved(
    s: Settings,
    global: GlobalArgs,
    style: StyleArgs,
    env: Env,
    file: FileConfig,
) -> bool {
    &&& s.addr@ == match first_set(global.addr, env.addr, file.addr) {
        Some(a) => a,
        None => "http://10.0.4.20"@,
    }
    &&& s.app@ == match first_set(global.app, env.app, file.app) {
        Some(a) => a,
        None => "busy"@,
    }
    &&& match s.token {
        Some(t) => first_set(global.token, env.token, file.token) == Some(t@),
        None => first_set(global.token, env.token, file.token) is None,
    }
    &&& s.http_timeout_ms == match global.http_timeout {
        Some(t) => t,
        None => match file.http_timeout {
            Some(t) => t,
            None => 5000u64,
        },
    }
    &&& s.api_prefix == match global.api_prefix {
        Some(p) => p,
        None => PrefixArg::Device,
    }
    &&& Ok::<Font, Seq<char>>(s.font) == resolved_font(style, file)
    &&& Ok::<Color, Seq<char>>(s.color) == resolved_color(style, file)
    &&& Ok::<Screen, Seq<char>>(s.screen) == resolved_screen(file)
    &&& Ok::<u8, Seq<char>>(s.priority) == resolved_priority(file)
}

fn parse_color_setting(input: &String) -> (res: Result<Color, String>)
    ensures
        match parsed_color(input@) {
            Ok(c) => res == Ok::<Color, String>(c),
            Err(m) => res matches Err(e) && e@ == m,
        },
{
    color::parse(input.as_str())
}

/// Resolve every setting a command needs from the flags, the environment,
/// the config file and the built-in defaults, highest first. A malformed
/// font, colour, screen or priority in the file, or a malformed `--color`,
/// is reported rather than ignored.
pub fn resolve(global: &GlobalArgs, style: &StyleArgs, env: &Env, file: &FileConfig) -> (res:
    Result<Settings, String>)
    ensures
        res is Err <==> resolve_error(*style, *file) is Some,
        res matches Err(m) ==> resolve_error(*style, *file) == Some(m@),
        res matches Ok(s) ==> resolved(s, *global, *style, *env, *file),
{
    let addr = match first_of(&global.addr, &env.addr, &file.addr) {
        Some(a) => a,
        None => String::from_str(Defaults::ADDR),
    };
    let app = match first_of(&global.app, &env.app, &file.app) {
        Some(a) => a,
        None => String::from_str(Defaults::APP),
    };
    let token = first_of(&global.token, &env.token, &file.token);
    let http_timeout_ms = match global.http_timeout {
        Some(t) => t,
        None => match file.http_timeout {
            Some(t) => t,
            None => Defaults::HTTP_TIMEOUT_MS,
        },
    };
    let font = match style.font {
        Some(f) => font_from_arg(f),
        None => match &file.defaults.font {
            Some(name) => {
                match parse_enum::<Font>(name.as_str(), "font") {
                    Ok(f) => f,
                    Err(m) => {
                        return Err(m);
                    },
                }
            },
            None => Defaults::font(),
        },
    };
    let color = match &style.color {
        Some(input) => match parse_color_setting(input) {
            Ok(c) => c,
            Err(m) => {
                return Err(m);
            },
        },
        None => match &file.defaults.color {
            Some(input) => match parse_color_setting(input) {
                Ok(c) => c,
                Err(m) => {
                    return Err(m);
                },
            },
            None => Defaults::color(),
        },
    };
    let screen = match &file.defaults.screen {
        Some(name) => match parse_enum::<Screen>(name.as_str(), "screen") {
            Ok(s) => s,
            Err(m) => {
                return Err(m);
            },
        },
        None => Defaults::screen(),
    };
    let priority = match file.defaults.priority {
        Some(value) => {
            if !(1 <= value && value <= 100) {
                let mut m = String::from_str("invalid priority `");
                let digits = decimal_string(value as u64);
                m.append(digits.as_str());
                m.append("` in the config file: expected 1-100");
                return Err(m);
            }
            value
        },
        None => Defaults::PRIORITY,
    };
    let api_prefix = match global.api_prefix {
        Some(p) => p,
        None => Defaults::api_prefix(),
    };
    Ok(
        Settings {
            addr,
            app,
            token,
            api_prefix,
            http_timeout_ms,
            font,
            color,
            screen,
            priority,
        },
    )
}

/// The anchor: the flag, else the config file's if it names one (a
/// malformed one is ignored), else the centre.
pub open spec fn resolved_align(flag: Option<AlignArg>, file: FileConfig) -> Align {
    match flag {
        Some(a) => spec_align_from_arg(a),
        None => match file.defaults.align {
            Some(n) => match align_named(n@) {
                Some(a) => a,
                None => Align::Center,
            },
            None => Align::Center,
        },
    }
}

/// Align is resolved separately because its flag lives with the placement
/// flags. The API defines no default, and the device's implicit anchor is
/// `top_left`; the CLI centres instead.
pub fn resolve_align(flag: Option<AlignArg>, file: &FileConfig) -> (a: Align)
    ensures
        a == resolved_align(flag, *file),
{
    if let Some(align) = flag {
        return align_from_arg(align);
    }
    match &file.defaults.align {
        Some(name) => match parse_enum::<Align>(name.as_str(), "align") {
            Ok(a) => a,
            Err(_) => Defaults::align(),
        },
        None => Defaults::align(),
    }
}

/// The named priorities, matched without regard to ASCII case.
pub open spec fn named_priority(lower: Seq<char>) -> Option<u8> {
    if lower == "low"@ {
        Some(10u8)
    } else if lower == "normal"@ {
        Some(50u8)
    } else if lower == "high"@ {
        Some(95u8)
    } else if lower == "urgent"@ {
        Some(100u8)
    } else {
        None
    }
}

/// The priority a flag spells: a name, else a number 1-100.
pub open spec fn priority_of_text(input: Seq<char>) -> Option<u8> {
    match named_priority(ascii_lower(input)) {
        Some(p) => Some(p),
        None => match unsigned_of_text(input, 255) {
            Some(v) => if 1 <= v <= 100 {
                Some(v as u8)
            } else {
                None
            },
            None => None,
        },
    }
}

/// Every priority `--priority` accepts, named or numbered, lies in the
/// range the bar accepts, 1 to 100.
pub proof fn lemma_accepted_priority_in_range(input: Seq<char>)
    ensures
        priority_of_text(input) matches Some(v) ==> 1 <= v <= 100,
{
}

/// The rejection text for a priority.
pub open spec fn invalid_priority_text(input: Seq<char>) -> Seq<char> {
    "invalid priority `"@ + input
        + "`: expected 1-100, or one of low, normal, high, urgent (10, 50, 95, 100)"@
}

/// Parse `--priority`: `low`, `normal`, `high`, `urgent` (10, 50, 95, 100)
/// in any ASCII case, or a number from 1 to 100.
pub fn parse_priority(input: &str) -> (res: Result<u8, String>)
    ensures
        match priority_of_text(input@) {
            Some(p) => res == Ok::<u8, String>(p),
            None => res matches Err(m) && m@ == invalid_priority_text(input@),
        },
{
    let lower = to_ascii_lowercase(input);
    if same_text(lower.as_str(), "low") {
        return Ok(10);
    }
    if same_text(lower.as_str(), "normal") {
        return Ok(50);
    }
    if same_text(lower.as_str(), "high") {
        return Ok(95);
    }
    if same_text(lower.as_str(), "urgent") {
        return Ok(100);
    }
    match parse_unsigned(input, 255) {
        Some(value) => {
            if 1 <= value && value <= 100 {
                Ok(value as u8)
            } else {
                Err(invalid_priority(input))
            }
        },
        None => Err(invalid_priority(input)),
    }
}

fn invalid_priority(input: &str) -> (m: String)
    ensures
        m@ == invalid_priority_text(input@),
{
    let mut m = String::from_str("invalid priority `");
    m.append(input);
    m.append("`: expected 1-100, or one of low, normal, high, urgent (10, 50, 95, 100)");
    m
}

/// `etcetera::choose_base_strategy()` and its `config_dir()`: the user's
/// configuration directory, when the platform gives one. Which directory
/// that is depends on the environment, so nothing is promised of it.
#[verifier::external_body]
pub(crate) fn config_home() -> (dir: Option<String>) {
    etcetera::choose_base_strategy().ok().map(|s| s.config_dir().to_string_lossy().into_owned())
}

/// The warning for a config file others can read: it may hold an access
/// key.
pub open spec fn world_readable_text(path: Seq<char>, mode: u32) -> Seq<char> {
    path + " is world-readable (mode "@ + octal((mode & 0o777u32) as nat)
        + "); it may hold an access key"@
}

/// A warning when the config file's permission bits let anyone read it.
pub fn world_readable_warning(path: &str, mode: u32) -> (w: Option<String>)
    ensures
        if mode & 4u32 != 0 {
            w matches Some(s) && s@ == world_readable_text(path@, mode)
        } else {
            w is None
        },
{
    if mode & 4u32 == 0 {
        return None;
    }
    let mut s = String::from_str(path);
    s.append(" is world-readable (mode ");
    s.append(octal_string(mode & 0o777u32).as_str());
    s.append("); it may hold an access key");
    Some(s)
}

/// The config file inside a configuration directory:
/// `<dir>/busy/config.toml`.
pub fn config_file_in(dir: &str) -> (path: String)
    ensures
        path@ == path_join(path_join(dir@, "busy"@), "config.toml"@),
{
    proof {
        reveal_strlit("busy");
        reveal_strlit("config.toml");
    }
    let busy = join_path(dir, "busy");
    join_path(busy.as_str(), "config.toml")
}

/// `<config dir>/busy/config.toml`, when there is a config directory.
/// Whether the platform has one depends on the environment, so success is
/// not promised; what the path is, given the directory, `config_file_in`
/// states.
pub fn config_path() -> (p: Option<String>)
    ensures
        p matches Some(path) ==> exists|dir: Seq<char>|
            path@ == path_join(path_join(dir, "busy"@), "config.toml"@),
{
    match config_home() {
        Some(dir) => Some(config_file_in(dir.as_str())),
        None => None,
    }
}

} // verus!
