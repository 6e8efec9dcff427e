use busy::color::parse;
use busy::model::Color;

fn hex(input: &str) -> String {
    parse(input).expect("should parse").to_hex_string()
}

#[test]
fn accepted_forms_all_reach_rrggbbaa() {
    assert_eq!(hex("#FF0000FF"), "#FF0000FF");
    assert_eq!(hex("#ff0000ff"), "#FF0000FF");
    assert_eq!(hex("0xFF0000FF"), "#FF0000FF");
    assert_eq!(hex("FF0000FF"), "#FF0000FF");
    assert_eq!(hex("#FF0000"), "#FF0000FF", "6 digits gain an opaque alpha");
    assert_eq!(hex("0xFF0000"), "#FF0000FF");
    assert_eq!(hex("FF0000"), "#FF0000FF");
    assert_eq!(hex("#F00"), "#FF0000FF", "3-digit shorthand doubles each nibble");
    assert_eq!(hex("#abc"), "#AABBCCFF");
    assert_eq!(hex("red"), "#FF0000FF");
    assert_eq!(hex("GREEN"), "#00FF00FF", "names are case-insensitive");
    assert_eq!(hex("blue"), "#0000FFFF");
    assert_eq!(hex("white"), "#FFFFFFFF");
    assert_eq!(hex("black"), "#000000FF");
    assert_eq!(hex("yellow"), "#FFFF00FF");
    assert_eq!(hex("orange"), "#FFA500FF");
    assert_eq!(hex("cyan"), "#00FFFFFF");
    assert_eq!(hex("magenta"), "#FF00FFFF");
}

#[test]
fn alpha_is_preserved_when_given() {
    assert_eq!(hex("#FF000080"), "#FF000080");
}

#[test]
fn rejected_forms_explain_themselves() {
    for bad in ["", "#", "#FF", "#FFFFF", "nope", "#GGGGGG", "0x"] {
        let error = parse(bad).expect_err("should be rejected");
        assert!(
            error.contains(bad) || bad.is_empty(),
            "error for {bad:?} should quote the input, got {error:?}"
        );
    }
}

#[test]
fn surrounding_white_space_is_ignored_and_upper_0x_accepted() {
    assert_eq!(hex("  0X00ff00 \n"), "#00FF00FF");
    assert_eq!(hex("\tMagenta "), "#FF00FFFF");
}

#[test]
fn a_colour_written_out_parses_back_to_itself() {
    for color in [Color::rgba(0, 0, 0, 0), Color::rgba(0x12, 0xab, 0xcd, 0xef), Color::rgb(255, 165, 0)] {
        assert_eq!(parse(&color.to_hex_string()), Ok(color));
    }
}

#[test]
fn the_rejection_lists_every_accepted_form() {
    assert_eq!(
        parse("chartreuse").unwrap_err(),
        "invalid colour `chartreuse`: expected #RRGGBBAA, #RRGGBB, #RGB, a 0x-prefixed or bare \
         hex value, or one of red, green, blue, white, black, yellow, orange, cyan, magenta"
    );
}

#[test]
fn the_grammar_is_names_or_three_six_or_eight_hex_digits() {
    assert_eq!(parse("  #0F8 \n").expect("three digits"), Color { red: 0x00, green: 0xff, blue: 0x88, alpha: 0xff });
    assert_eq!(parse("0X11223344").expect("eight digits"), Color { red: 0x11, green: 0x22, blue: 0x33, alpha: 0x44 });
    assert_eq!(parse("MaGeNtA").expect("a name"), Color { red: 0xff, green: 0x00, blue: 0xff, alpha: 0xff });
    assert_eq!(parse("abcdef").expect("bare six"), Color { red: 0xab, green: 0xcd, blue: 0xef, alpha: 0xff });
    for bad in ["#12345", "#1234567", "0x", "#ggg", "purple", "##fff"] {
        let error = parse(bad).expect_err(bad);
        assert!(error.starts_with(&format!("invalid colour `{bad}`")), "got {error}");
    }
}
