//! Lenient colour parsing.
//!
//! The bar requires exactly `#RRGGBBAA`. Users type `red`, `0xff0000` and
//! `#f00`, so the CLI accepts those and builds the colour itself.

use vstd::prelude::*;
use vstd::string::*;

use crate::model::{Color, color_text, hex_digit, hex_byte};
use crate::strings::{
    ascii_lower, chars_of, is_graphic, trim, trimmed, to_ascii_lowercase, same_text,
};

verus! {

/// Whether `c` is a hex digit.
pub open spec fn is_hex(c: char) -> bool {
    ('0' <= c && c <= '9') || ('a' <= c && c <= 'f') || ('A' <= c && c <= 'F')
}

/// The value of a hex digit.
pub open spec fn hex_value(c: char) -> int {
    if '0' <= c && c <= '9' {
        c as int - 48
    } else if 'a' <= c && c <= 'f' {
        c as int - 87
    } else {
        c as int - 55
    }
}

/// The byte spelled by the two hex digits at `i`.
pub open spec fn hex_pair(h: Seq<char>, i: int) -> int {
    hex_value(h[i]) * 16 + hex_value(h[i + 1])
}

/// The named colours the CLI understands.
pub open spec fn named_color(name: Seq<char>) -> Option<Color> {
    if name == "red"@ {
        Some(Color { red: 0xff, green: 0x00, blue: 0x00, alpha: 0xff })
    } else if name == "green"@ {
        Some(Color { red: 0x00, green: 0xff, blue: 0x00, alpha: 0xff })
    } else if name == "blue"@ {
        Some(Color { red: 0x00, green: 0x00, blue: 0xff, alpha: 0xff })
    } else if name == "white"@ {
        Some(Color { red: 0xff, green: 0xff, blue: 0xff, alpha: 0xff })
    } else if name == "black"@ {
        Some(Color { red: 0x00, green: 0x00, blue: 0x00, alpha: 0xff })
    } else if name == "yellow"@ {
        Some(Color { red: 0xff, green: 0xff, blue: 0x00, alpha: 0xff })
    } else if name == "orange"@ {
        Some(Color { red: 0xff, green: 0xa5, blue: 0x00, alpha: 0xff })
    } else if name == "cyan"@ {
        Some(Color { red: 0x00, green: 0xff, blue: 0xff, alpha: 0xff })
    } else if name == "magenta"@ {
        Some(Color { red: 0xff, green: 0x00, blue: 0xff, alpha: 0xff })
    } else {
        None
    }
}

/// The digits after an optional `#`, `0x` or `0X` prefix.
pub open spec fn hex_digits_of(t: Seq<char>) -> Seq<char> {
    if t.len() >= 1 && t[0] == '#' {
        t.skip(1)
    } else if t.len() >= 2 && t[0] == '0' && t[1] == 'x' {
        t.skip(2)
    } else if t.len() >= 2 && t[0] == '0' && t[1] == 'X' {
        t.skip(2)
    } else {
        t
    }
}

/// The colour a trimmed input names: a colour name in any case, or three,
/// six or eight hex digits after an optional prefix. Three digits double
/// each nibble; six gain an opaque alpha.
pub open spec fn color_of_text(t: Seq<char>) -> Option<Color> {
    let h = hex_digits_of(t);
    if named_color(ascii_lower(t)) is Some {
        named_color(ascii_lower(t))
    } else if h.len() == 0 || !(forall|i: int| 0 <= i < h.len() ==> #[trigger] is_hex(h[i])) {
        None
    } else if h.len() == 3 {
        Some(
            Color {
                red: (hex_value(h[0]) * 17) as u8,
                green: (hex_value(h[1]) * 17) as u8,
                blue: (hex_value(h[2]) * 17) as u8,
                alpha: 0xff,
            },
        )
    } else if h.len() == 6 {
        Some(
            Color {
                red: hex_pair(h, 0) as u8,
                green: hex_pair(h, 2) as u8,
                blue: hex_pair(h, 4) as u8,
                alpha: 0xff,
            },
        )
    } else if h.len() == 8 {
        Some(
            Color {
                red: hex_pair(h, 0) as u8,
                green: hex_pair(h, 2) as u8,
                blue: hex_pair(h, 4) as u8,
                alpha: hex_pair(h, 6) as u8,
            },
        )
    } else {
        None
    }
}

/// The rejection text, quoting the input as given.
pub open spec fn invalid_color_text(input: Seq<char>) -> Seq<char> {
    "invalid colour `"@ + input
        + "`: expected #RRGGBBAA, #RRGGBB, #RGB, a 0x-prefixed or bare hex value, or one of red, green, blue, white, black, yellow, orange, cyan, magenta"@
}

/// Whether every character is graphic ASCII.
pub open spec fn all_graphic(s: Seq<char>) -> bool {
    forall|i: int| 0 <= i < s.len() ==> #[trigger] is_graphic(s[i])
}

fn invalid(input: &str) -> (m: String)
    ensures
        m@ == invalid_color_text(input@),
{
    let mut m = String::from_str("invalid colour `");
    m.append(input);
    m.append(
        "`: expected #RRGGBBAA, #RRGGBB, #RGB, a 0x-prefixed or bare hex value, or one of red, green, blue, white, black, yellow, orange, cyan, magenta",
    );
    m
}

fn named(lower: &str) -> (c: Option<Color>)
    ensures
        c == named_color(lower@),
{
    proof {
        reveal_strlit("red");
        reveal_strlit("green");
        reveal_strlit("blue");
        reveal_strlit("white");
        reveal_strlit("black");
        reveal_strlit("yellow");
        reveal_strlit("orange");
        reveal_strlit("cyan");
        reveal_strlit("magenta");
    }
    if same_text(lower, "red") {
        Some(Color::rgb(0xff, 0x00, 0x00))
    } else if same_text(lower, "green") {
        Some(Color::rgb(0x00, 0xff, 0x00))
    } else if same_text(lower, "blue") {
        Some(Color::rgb(0x00, 0x00, 0xff))
    } else if same_text(lower, "white") {
        Some(Color::rgb(0xff, 0xff, 0xff))
    } else if same_text(lower, "black") {
        Some(Color::rgb(0x00, 0x00, 0x00))
    } else if same_text(lower, "yellow") {
        Some(Color::rgb(0xff, 0xff, 0x00))
    } else if same_text(lower, "orange") {
        Some(Color::rgb(0xff, 0xa5, 0x00))
    } else if same_text(lower, "cyan") {
        Some(Color::rgb(0x00, 0xff, 0xff))
    } else if same_text(lower, "magenta") {
        Some(Color::rgb(0xff, 0x00, 0xff))
    } else {
        None
    }
}

fn value_of(c: char) -> (v: u8)
    requires
        is_hex(c),
    ensures
        v == hex_value(c),
        v < 16,
{
    if '0' <= c && c <= '9' {
        (c as u8) - 48
    } else if 'a' <= c && c <= 'f' {
        (c as u8) - 87
    } else {
        (c as u8) - 55
    }
}

fn pair_at(h: &Vec<char>, i: usize) -> (v: u8)
    requires
        i + 1 < h.len(),
        is_hex(h@[i as int]),
        is_hex(h@[i + 1]),
    ensures
        v == hex_pair(h@, i as int),
{
    let high = value_of(h[i]);
    let low = value_of(h[i + 1]);
    high * 16 + low
}

#[verifier::loop_isolation(false)]
/// Parse a colour the way users type it: a name in any case, or `#RGB`,
/// `#RRGGBB`, `#RRGGBBAA` with `#`, `0x`, `0X` or no prefix, surrounding
/// white space ignored. Anything else is refused with a message quoting the
/// input.
pub fn parse(input: &str) -> (res: Result<Color, String>)
    ensures
        match color_of_text(trimmed(input@)) {
            Some(c) => res == Ok::<Color, String>(c),
            None => res matches Err(m) && m@ == invalid_color_text(input@),
        },
        all_graphic(input@) ==> trimmed(input@) == input@,
{
    let trimmed_input = trim(input);
    proof {
        if all_graphic(input@) {
            crate::strings::lemma_graphic_text_untrimmed(input@);
        }
    }
    let lower = to_ascii_lowercase(trimmed_input);
    if let Some(c) = named(lower.as_str()) {
        return Ok(c);
    }
    let t = chars_of(trimmed_input);
    let start: usize = if t.len() >= 1 && t[0] == '#' {
        1
    } else if t.len() >= 2 && t[0] == '0' && (t[1] == 'x' || t[1] == 'X') {
        2
    } else {
        0
    };
    let mut h: Vec<char> = Vec::new();
    let mut i = start;
    while i < t.len()
        invariant
            start <= i <= t@.len(),
            h@ == t@.subrange(start as int, i as int),
        decreases t@.len() - i,
    {
        h.push(t[i]);
        i = i + 1;
        proof {
            assert(h@ =~= t@.subrange(start as int, i as int));
        }
    }
    proof {
        assert(h@ =~= hex_digits_of(t@));
    }
    if h.len() == 0 {
        return Err(invalid(input));
    }
    let mut k: usize = 0;
    while k < h.len()
        invariant
            0 <= k <= h@.len(),
            forall|j: int| 0 <= j < k ==> #[trigger] is_hex(h@[j]),
        decreases h@.len() - k,
    {
        let c = h[k];
        if !(('0' <= c && c <= '9') || ('a' <= c && c <= 'f') || ('A' <= c && c <= 'F')) {
            assert(!is_hex(h@[k as int]));
            assert(h@ == hex_digits_of(trimmed(input@)));
            return Err(invalid(input));
        }
        k = k + 1;
    }
    if h.len() == 3 {
        let r = value_of(h[0]) * 17;
        let g = value_of(h[1]) * 17;
        let b = value_of(h[2]) * 17;
        Ok(Color::rgb(r, g, b))
    } else if h.len() == 6 {
        Ok(Color::rgb(pair_at(&h, 0), pair_at(&h, 2), pair_at(&h, 4)))
    } else if h.len() == 8 {
        Ok(Color::rgba(pair_at(&h, 0), pair_at(&h, 2), pair_at(&h, 4), pair_at(&h, 6)))
    } else {
        Err(invalid(input))
    }
}

proof fn lemma_hex_digit_roundtrip(n: int)
    requires
        0 <= n < 16,
    ensures
        is_hex(hex_digit(n)),
        hex_value(hex_digit(n)) == n,
        is_graphic(hex_digit(n)),
        lower_or_upper_digit(hex_digit(n)),
{
}

/// Whether every character of `h` is a hex digit.
pub open spec fn all_hex(h: Seq<char>) -> bool {
    forall|i: int| 0 <= i < h.len() ==> #[trigger] is_hex(h[i])
}

/// The colour grammar. With surrounding white space trimmed, an input is
/// accepted exactly when it is one of the nine names in any ASCII case, or
/// three, six or eight hex digits after an optional `#`, `0x` or `0X`.
/// Every name and every three- or six-digit form is opaque; three digits
/// stand for doubled nibbles, and six or eight for one byte per pair, the
/// last pair of eight being the alpha. A refusal quotes the input as given
/// (`parse`'s contract).
pub proof fn lemma_colour_grammar(input: Seq<char>)
    ensures
        ({
            let t = trimmed(input);
            let h = hex_digits_of(t);
            let named = named_color(ascii_lower(t));
            &&& color_of_text(t) is Some <==> named is Some || ((h.len() == 3 || h.len() == 6
                || h.len() == 8) && all_hex(h))
            &&& named matches Some(c) ==> color_of_text(t) == named && c.alpha == 0xff
            &&& named is None && h.len() == 3 && all_hex(h) ==> (color_of_text(t) matches Some(c)
                && c.red == 17 * hex_value(h[0]) && c.green == 17 * hex_value(h[1]) && c.blue
                == 17 * hex_value(h[2]) && c.alpha == 0xff)
            &&& named is None && h.len() == 6 && all_hex(h) ==> (color_of_text(t) matches Some(c)
                && c.red == hex_pair(h, 0) && c.green == hex_pair(h, 2) && c.blue == hex_pair(h, 4)
                && c.alpha == 0xff)
            &&& named is None && h.len() == 8 && all_hex(h) ==> (color_of_text(t) matches Some(c)
                && c.red == hex_pair(h, 0) && c.green == hex_pair(h, 2) && c.blue == hex_pair(h, 4)
                && c.alpha == hex_pair(h, 6))
        }),
{
    let t = trimmed(input);
    let h = hex_digits_of(t);
    if all_hex(h) {
        assert forall|i: int| 0 <= i < h.len() implies 0 <= #[trigger] hex_value(h[i]) < 16 by {
            assert(is_hex(h[i]));
        }
        if h.len() >= 3 {
            assert(0 <= hex_value(h[0]) < 16 && 0 <= hex_value(h[1]) < 16 && 0 <= hex_value(h[2]) < 16);
        }
        if h.len() >= 6 {
            assert(0 <= hex_value(h[3]) < 16 && 0 <= hex_value(h[4]) < 16 && 0 <= hex_value(h[5]) < 16);
        }
        if h.len() >= 8 {
            assert(0 <= hex_value(h[6]) < 16 && 0 <= hex_value(h[7]) < 16);
        }
    }
    reveal_strlit("red");
    reveal_strlit("green");
    reveal_strlit("blue");
    reveal_strlit("white");
    reveal_strlit("black");
    reveal_strlit("yellow");
    reveal_strlit("orange");
    reveal_strlit("cyan");
    reveal_strlit("magenta");
}

/// A digit or an upper-case hex letter.
pub open spec fn lower_or_upper_digit(c: char) -> bool {
    ('0' <= c && c <= '9') || ('A' <= c && c <= 'F')
}

/// Writing a colour as `#RRGGBBAA` and parsing the text gives the colour
/// back: what the bar is sent can always be read again.
pub proof fn lemma_color_text_roundtrip(c: Color)
    ensures
        all_graphic(color_text(c)),
        color_of_text(color_text(c)) == Some(c),
{
    let t = color_text(c);
    lemma_hex_digit_roundtrip(c.red as int / 16);
    lemma_hex_digit_roundtrip(c.red as int % 16);
    lemma_hex_digit_roundtrip(c.green as int / 16);
    lemma_hex_digit_roundtrip(c.green as int % 16);
    lemma_hex_digit_roundtrip(c.blue as int / 16);
    lemma_hex_digit_roundtrip(c.blue as int % 16);
    lemma_hex_digit_roundtrip(c.alpha as int / 16);
    lemma_hex_digit_roundtrip(c.alpha as int % 16);
    assert(t.len() == 9);
    assert(t[0] == '#');
    let h = hex_digits_of(t);
    assert(h =~= hex_byte(c.red) + hex_byte(c.green) + hex_byte(c.blue) + hex_byte(c.alpha));
    assert(forall|i: int| 0 <= i < h.len() ==> #[trigger] is_hex(h[i]));
    assert forall|i: int| 0 <= i < t.len() implies #[trigger] is_graphic(t[i]) by {
        if i > 0 {
            assert(t[i] == h[i - 1]);
        }
    }
    reveal_strlit("red");
    reveal_strlit("green");
    reveal_strlit("blue");
    reveal_strlit("white");
    reveal_strlit("black");
    reveal_strlit("yellow");
    reveal_strlit("orange");
    reveal_strlit("cyan");
    reveal_strlit("magenta");
    assert(ascii_lower(t)[0] == '#');
    assert(named_color(ascii_lower(t)) is None) by {
        assert(ascii_lower(t).len() == 9);
    }
    assert(hex_pair(h, 0) == c.red as int);
    assert(hex_pair(h, 2) == c.green as int);
    assert(hex_pair(h, 4) == c.blue as int);
    assert(hex_pair(h, 6) == c.alpha as int);
}

} // verus!
