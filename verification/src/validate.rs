//! Local checks that run before a request is sent.
//!
//! An element outside the display bounds renders nothing and the device
//! reports no error, so these are warnings the CLI raises itself. They never
//! block a send: the user may know something the CLI does not.

use vstd::prelude::*;
use vstd::string::*;

use crate::model::{
    Align, DisplayElement, DisplayElements, ElementKind, Font, Screen, align_debug,
    align_debug_name, font_debug, font_debug_name,
};
use crate::strings::{signed_decimal, signed_decimal_string};

verus! {

/// Width and height of a display: the front is 72x16, the back 160x80.
pub open spec fn dimensions(screen: Screen) -> (int, int) {
    match screen {
        Screen::Front => (72, 16),
        Screen::Back => (160, 80),
    }
}

/// How a warning names a display.
pub open spec fn screen_label(screen: Screen) -> Seq<char> {
    match screen {
        Screen::Front => "front"@,
        Screen::Back => "back"@,
    }
}

/// Approximate rendered width per character, in tenths of a pixel, measured
/// on real hardware: `large` inks "Hello, World!" (13 characters) 70px wide.
/// An estimate for a warning, never for layout.
pub open spec fn tenths_per_char(font: Font) -> int {
    match font {
        Font::Tiny => 26,
        Font::Small => 32,
        Font::Condensed => 40,
        Font::Normal => 46,
        Font::Global => 46,
        Font::Bold => 50,
        Font::Large => 54,
        Font::ExtraLarge => 72,
    }
}

/// Which way an element extends from its anchor, per axis: -1 toward
/// negative coordinates, 0 centred, +1 toward positive ones.
pub open spec fn anchor_direction(align: Align) -> (int, int) {
    match align {
        Align::TopLeft => (1, 1),
        Align::TopMid => (0, 1),
        Align::TopRight => (-1, 1),
        Align::MidLeft => (1, 0),
        Align::Center => (0, 0),
        Align::MidRight => (-1, 0),
        Align::BottomLeft => (1, -1),
        Align::BottomMid => (0, -1),
        Align::BottomRight => (-1, -1),
    }
}

/// The estimated width in pixels of `chars` characters: the nearest whole
/// pixel, capped at `i16::MAX`. No estimate ever lies exactly halfway between
/// two pixels, so rounding direction never matters.
pub open spec fn estimated_width(chars: int, font: Font) -> int {
    let rounded = (chars * tenths_per_char(font) + 5) / 10;
    if rounded > 32767 {
        32767
    } else {
        rounded
    }
}

/// The display an element is drawn on; the front when the payload says nothing.
pub open spec fn element_screen(e: DisplayElement) -> Screen {
    match e.display {
        Some(s) => s,
        None => Screen::Front,
    }
}

pub open spec fn coordinate(c: Option<i16>) -> int {
    match c {
        Some(v) => v as int,
        None => 0,
    }
}

pub open spec fn anchor_outside_text(id: Seq<char>, x: int, y: int, screen: Screen) -> Seq<char> {
    "element `"@ + id + "` is anchored at ("@ + signed_decimal(x) + ", "@ + signed_decimal(y)
        + "), outside the "@ + screen_label(screen) + " display's "@ + signed_decimal(
        dimensions(screen).0,
    ) + "x"@ + signed_decimal(dimensions(screen).1) + " bounds; it will render nothing"@
}

pub open spec fn off_left_text(id: Seq<char>, align: Align, x: int, screen: Screen) -> Seq<char> {
    "element `"@ + id + "` uses align `"@ + align_debug(align)
        + "`, which anchors its right edge at x="@ + signed_decimal(x)
        + ", so it extends off the left of the "@ + screen_label(screen)
        + " display and will render nothing"@
}

pub open spec fn off_top_text(id: Seq<char>, align: Align, y: int, screen: Screen) -> Seq<char> {
    "element `"@ + id + "` uses align `"@ + align_debug(align)
        + "`, which anchors its bottom edge at y="@ + signed_decimal(y)
        + ", so it extends off the top of the "@ + screen_label(screen)
        + " display and will render nothing"@
}

pub open spec fn too_wide_text(id: Seq<char>, estimated: int, font: Font, screen: Screen) -> Seq<
    char,
> {
    "element `"@ + id + "`'s text is about "@ + signed_decimal(estimated) + "px wide in font "@
        + font_debug(font) + ", which does not fit the "@ + screen_label(screen) + " display's "@
        + signed_decimal(dimensions(screen).0)
        + "px; the device clips silently. Use --width and --scroll-rate to scroll it, or a smaller --font."@
}

/// Whether an element whose anchor is on the display still renders nothing
/// because it extends off the left edge.
pub open spec fn extends_off_left(e: DisplayElement) -> bool {
    e.align matches Some(a) && anchor_direction(a).0 < 0 && coordinate(e.x) == 0
}

/// Whether it extends off the top edge.
pub open spec fn extends_off_top(e: DisplayElement) -> bool {
    e.align matches Some(a) && anchor_direction(a).1 < 0 && coordinate(e.y) == 0
}

/// Whether the anchor point itself is off the display.
pub open spec fn anchor_outside(e: DisplayElement) -> bool {
    let (w, h) = dimensions(element_screen(e));
    let x = coordinate(e.x);
    let y = coordinate(e.y);
    x < 0 || x >= w || y < 0 || y >= h
}

/// The warnings for one element, in the order they are raised. An animation
/// gets none: the firmware cuts a panel-sized window out of a larger one and
/// the anchor moves that window, so an anchor off the display is the
/// instruction there, not a slip. Otherwise an anchor off the display says
/// so and nothing else; an element that extends wholly off an edge says that
/// and nothing else; and text that does not scroll and is estimated wider
/// than the display says so.
pub open spec fn element_warnings(e: DisplayElement) -> Seq<Seq<char>> {
    let screen = element_screen(e);
    let x = coordinate(e.x);
    let y = coordinate(e.y);
    if e.kind is Animation {
        Seq::empty()
    } else if anchor_outside(e) {
        seq![anchor_outside_text(e.id@, x, y, screen)]
    } else if extends_off_left(e) || extends_off_top(e) {
        (if extends_off_left(e) {
            seq![off_left_text(e.id@, e.align->0, x, screen)]
        } else {
            Seq::empty()
        }) + (if extends_off_top(e) {
            seq![off_top_text(e.id@, e.align->0, y, screen)]
        } else {
            Seq::empty()
        })
    } else {
        match e.kind {
            ElementKind::Text(t) => {
                let estimated = estimated_width(t.text@.len() as int, t.font);
                if t.scroll_rate is None && estimated > dimensions(screen).0 {
                    seq![too_wide_text(e.id@, estimated, t.font, screen)]
                } else {
                    Seq::empty()
                }
            },
            _ => Seq::empty(),
        }
    }
}

/// The warnings for every element, element by element.
pub open spec fn payload_warnings(elements: Seq<DisplayElement>) -> Seq<Seq<char>>
    decreases elements.len(),
{
    if elements.len() == 0 {
        Seq::empty()
    } else {
        payload_warnings(elements.drop_last()) + element_warnings(elements.last())
    }
}

fn tenths(font: Font) -> (t: u64)
    ensures
        t == tenths_per_char(font),
{
    match font {
        Font::Tiny => 26,
        Font::Small => 32,
        Font::Condensed => 40,
        Font::Normal | Font::Global => 46,
        Font::Bold => 50,
        Font::Large => 54,
        Font::ExtraLarge => 72,
    }
}

fn estimate(chars: usize, font: Font) -> (w: i16)
    ensures
        w == estimated_width(chars as int, font),
{
    if chars >= 13000 {
        assert(chars * tenths_per_char(font) >= 13000 * 26) by (nonlinear_arith)
            requires
                chars >= 13000,
                tenths_per_char(font) >= 26,
        ;
        32767
    } else {
        let t = tenths(font);
        assert(chars * t <= 13000 * 72) by (nonlinear_arith)
            requires
                chars < 13000,
                t <= 72,
        ;
        let rounded = ((chars as u64) * t + 5) / 10;
        if rounded > 32767 {
            32767
        } else {
            rounded as i16
        }
    }
}

fn push_warning(out: &mut Vec<String>, s: String)
    ensures
        final(out).deep_view() == old(out).deep_view().push(s@),
{
    out.push(s);
    assert(final(out).deep_view() =~= old(out).deep_view().push(s@));
}

fn screen_name(screen: Screen) -> (s: &'static str)
    ensures
        s@ == screen_label(screen),
{
    match screen {
        Screen::Front => "front",
        Screen::Back => "back",
    }
}

fn append_number(s: &mut String, n: i64)
    ensures
        final(s)@ == old(s)@ + signed_decimal(n as int),
{
    let digits = signed_decimal_string(n);
    s.append(digits.as_str());
}

fn warn_element(e: &DisplayElement, out: &mut Vec<String>)
    ensures
        final(out).deep_view() == old(out).deep_view() + element_warnings(*e),
{
    if let ElementKind::Animation(_) = &e.kind {
        assert(out.deep_view() =~= out.deep_view() + element_warnings(*e));
        return;
    }
    let screen = match e.display {
        Some(s) => s,
        None => Screen::Front,
    };
    let (width, height): (i16, i16) = match screen {
        Screen::Front => (72, 16),
        Screen::Back => (160, 80),
    };
    let x: i16 = match e.x {
        Some(v) => v,
        None => 0,
    };
    let y: i16 = match e.y {
        Some(v) => v,
        None => 0,
    };
    let label = screen_name(screen);
    let ghost before = out.deep_view();
    if x < 0 || x >= width || y < 0 || y >= height {
        let mut m = String::from_str("element `");
        m.append(e.id.as_str());
        m.append("` is anchored at (");
        append_number(&mut m, x as i64);
        m.append(", ");
        append_number(&mut m, y as i64);
        m.append("), outside the ");
        m.append(label);
        m.append(" display's ");
        append_number(&mut m, width as i64);
        m.append("x");
        append_number(&mut m, height as i64);
        m.append(" bounds; it will render nothing");
        push_warning(out, m);
        assert(out.deep_view() =~= before + element_warnings(*e));
        return;
    }
    let mut left = false;
    let mut top = false;
    if let Some(align) = e.align {
        let (dx, dy): (i8, i8) = match align {
            Align::TopLeft => (1, 1),
            Align::TopMid => (0, 1),
            Align::TopRight => (-1, 1),
            Align::MidLeft => (1, 0),
            Align::Center => (0, 0),
            Align::MidRight => (-1, 0),
            Align::BottomLeft => (1, -1),
            Align::BottomMid => (0, -1),
            Align::BottomRight => (-1, -1),
        };
        let name = align_debug_name(align);
        if dx < 0 && x == 0 {
            let mut m = String::from_str("element `");
            m.append(e.id.as_str());
            m.append("` uses align `");
            m.append(name);
            m.append("`, which anchors its right edge at x=");
            append_number(&mut m, x as i64);
            m.append(", so it extends off the left of the ");
            m.append(label);
            m.append(" display and will render nothing");
            push_warning(out, m);
            left = true;
        }
        if dy < 0 && y == 0 {
            let mut m = String::from_str("element `");
            m.append(e.id.as_str());
            m.append("` uses align `");
            m.append(name);
            m.append("`, which anchors its bottom edge at y=");
            append_number(&mut m, y as i64);
            m.append(", so it extends off the top of the ");
            m.append(label);
            m.append(" display and will render nothing");
            push_warning(out, m);
            top = true;
        }
    }
    if left || top {
        assert(out.deep_view() =~= before + element_warnings(*e));
        return;
    }
    if let ElementKind::Text(text) = &e.kind {
        let chars = text.text.as_str().unicode_len();
        let estimated = estimate(chars, text.font);
        if text.scroll_rate.is_none() && estimated > width {
            let mut m = String::from_str("element `");
            m.append(e.id.as_str());
            m.append("`'s text is about ");
            append_number(&mut m, estimated as i64);
            m.append("px wide in font ");
            m.append(font_debug_name(text.font));
            m.append(", which does not fit the ");
            m.append(label);
            m.append(" display's ");
            append_number(&mut m, width as i64);
            m.append(
                "px; the device clips silently. Use --width and --scroll-rate to scroll it, or a smaller --font.",
            );
            push_warning(out, m);
        }
    }
    assert(out.deep_view() =~= before + element_warnings(*e));
}

/// Every warning the payload earns, element by element, in element order.
pub fn bounds_warnings(payload: &DisplayElements) -> (warnings: Vec<String>)
    ensures
        warnings.deep_view() == payload_warnings(payload.elements@),
{
    let mut warnings: Vec<String> = Vec::new();
    let n = payload.elements.len();
    let mut i: usize = 0;
    assert(warnings.deep_view() =~= payload_warnings(payload.elements@.take(0)));
    while i < n
        invariant
            n == payload.elements@.len(),
            0 <= i <= n,
            warnings.deep_view() == payload_warnings(payload.elements@.take(i as int)),
        decreases n - i,
    {
        let ghost before = warnings.deep_view();
        warn_element(&payload.elements[i], &mut warnings);
        proof {
            let next = payload.elements@.take(i + 1);
            assert(next.drop_last() =~= payload.elements@.take(i as int));
            assert(next.last() == payload.elements@[i as int]);
        }
        i = i + 1;
    }
    assert(payload.elements@.take(n as int) =~= payload.elements@);
    warnings
}

} // verus!
