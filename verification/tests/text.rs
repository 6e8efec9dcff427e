use busy::cli::{AlignArg, DeliveryArgs, FontArg, GlobalArgs, PlacementArgs, StyleArgs, TextArgs};
use busy::cmd::text::build_payload;
use busy::config::{resolve, Env, FileConfig, Settings};
use busy::error::CliError;
use busy::input::message_from;
use busy::model::{Align, Color, DisplayElements, ElementKind, Font, Lifetime, Screen};

fn settings_with(style: &StyleArgs) -> Settings {
    resolve(&GlobalArgs::default(), style, &Env::default(), &FileConfig::default()).expect("defaults resolve")
}

fn text(message: &str) -> TextArgs {
    TextArgs { message: message.to_owned(), ..TextArgs::default() }
}

fn build(args: &TextArgs) -> Result<DisplayElements, CliError> {
    build_payload(args, &settings_with(&StyleArgs::default()), &FileConfig::default(), &args.message)
}

fn the_text(p: &DisplayElements) -> &str {
    match &p.elements[0].kind {
        ElementKind::Text(t) => &t.text,
        other => panic!("expected a text element, got {other:?}"),
    }
}

#[test]
fn golden_payload_for_the_fully_specified_command() {
    let style = StyleArgs { font: Some(FontArg::Small), color: Some("0xFF0000FF".to_owned()) };
    let mut args = text("Goodbye, World!");
    args.style = style.clone();
    args.placement = PlacementArgs { x: Some(0), y: Some(8), align: Some(AlignArg::MidLeft), screen: None };
    let p = build_payload(&args, &settings_with(&style), &FileConfig::default(), &args.message).expect("builds");
    assert_eq!(p.application_name, "busy");
    assert_eq!(p.priority, Some(95));
    assert_eq!(p.led_notification_color, None);
    assert_eq!(p.elements.len(), 1);
    let e = &p.elements[0];
    assert_eq!(e.id, "message");
    assert_eq!(e.lifetime, None);
    assert_eq!((e.x, e.y), (Some(0), Some(8)));
    assert_eq!(e.display, Some(Screen::Front));
    assert_eq!(e.align, Some(Align::MidLeft));
    match &e.kind {
        ElementKind::Text(t) => {
            assert_eq!(t.text, "Goodbye, World!");
            assert_eq!(t.font, Font::Small);
            assert_eq!(t.color, Some(Color { red: 0xff, green: 0x00, blue: 0x00, alpha: 0xff }));
        }
        other => panic!("expected a text element, got {other:?}"),
    }
}

#[test]
fn golden_payload_for_the_minimal_command() {
    let p = build(&text("Hello, World!")).expect("builds");
    assert_eq!(p.application_name, "busy");
    assert_eq!(p.priority, Some(95));
    assert_eq!(p.led_notification_color, None);
    let e = &p.elements[0];
    assert_eq!(e.id, "message");
    assert_eq!(e.lifetime, None);
    assert_eq!((e.x, e.y), (Some(36), Some(8)));
    assert_eq!(e.display, Some(Screen::Front));
    assert_eq!(e.align, Some(Align::Center));
    assert_eq!(the_text(&p), "Hello, World!");
}

#[test]
fn golden_payload_with_a_lifetime_and_an_led() {
    let mut args = text("deploy done");
    args.delivery = DeliveryArgs {
        timeout: Some(30),
        led: Some("red".to_owned()),
        priority: Some("urgent".to_owned()),
        ..DeliveryArgs::default()
    };
    let p = build(&args).expect("builds");
    assert_eq!(p.priority, Some(100));
    assert_eq!(p.led_notification_color, Some(Color { red: 0xff, green: 0x00, blue: 0x00, alpha: 0xff }));
    assert_eq!(p.elements[0].lifetime, Some(Lifetime::Timeout { timeout: 30 }));
    assert_eq!(the_text(&p), "deploy done");
}

#[test]
fn smart_quotes_are_sanitized_into_the_payload() {
    let p = build(&text("don\u{2019}t \u{2014} really")).expect("builds");
    assert_eq!(the_text(&p), "don't - really");
}

#[test]
fn a_message_that_sanitizes_to_empty_is_a_clear_error() {
    let error = build(&text("\u{1f389}")).expect_err("nothing printable");
    assert_eq!(error.exit_code(), 2);
    assert!(error.message().contains("nothing printable"), "got {}", error.message());
}

#[test]
fn text_until_still_produces_a_display_until_field() {
    let mut args = text("hi");
    args.until = Some("2027-01-01T00:00:00Z".to_owned());
    let p = build(&args).expect("builds");
    assert_eq!(p.elements[0].lifetime, Some(Lifetime::DisplayUntil { display_until: 1_798_761_600 }));
}

#[test]
fn until_accepts_unix_seconds() {
    let mut args = text("hi");
    args.until = Some("1900000000".to_owned());
    let p = build(&args).expect("builds");
    assert_eq!(p.elements[0].lifetime, Some(Lifetime::DisplayUntil { display_until: 1_900_000_000 }));
}

#[test]
fn until_accepts_rfc_3339_and_agrees_with_the_equivalent_unix_seconds() {
    let mut from_seconds = text("hi");
    from_seconds.until = Some("1900000000".to_owned());
    let mut from_rfc_3339 = text("hi");
    from_rfc_3339.until = Some("2030-03-17T17:46:40Z".to_owned());
    let a = build(&from_seconds).expect("builds");
    let b = build(&from_rfc_3339).expect("builds");
    assert_eq!(a, b);
    assert_eq!(b.elements[0].lifetime, Some(Lifetime::DisplayUntil { display_until: 1_900_000_000 }));
}

#[test]
fn until_before_1970_is_rejected() {
    let mut args = text("hi");
    args.until = Some("1960-01-01T00:00:00Z".to_owned());
    let error = build(&args).expect_err("before the epoch");
    assert_eq!(error.exit_code(), 2);
    assert!(error.message().contains("--until") && error.message().contains("1970"), "got {}", error.message());
}

#[test]
fn a_malformed_until_names_the_flag_and_the_accepted_forms() {
    let mut args = text("hi");
    args.until = Some("nonsense".to_owned());
    let error = build(&args).expect_err("not a time");
    assert_eq!(error.exit_code(), 2);
    let m = error.message();
    assert!(m.contains("--until") && m.contains("RFC 3339") && m.contains("Unix"), "got {m}");
}

#[test]
fn the_default_element_id_is_message() {
    let p = build(&text("hi")).expect("builds");
    assert_eq!(p.elements[0].id, "message");
}

#[test]
fn the_element_id_is_overridable() {
    let mut args = text("hi");
    args.delivery.id = Some("status-line".to_owned());
    let p = build(&args).expect("builds");
    assert_eq!(p.elements[0].id, "status-line");
}

#[test]
fn an_element_id_with_a_space_is_rejected() {
    let mut args = text("hi");
    args.delivery.id = Some("status line".to_owned());
    let error = build(&args).expect_err("space in id");
    assert_eq!(error.exit_code(), 2);
    assert!(error.message().contains("--id"), "got {}", error.message());
}

#[test]
fn a_dash_reads_the_message_from_stdin() {
    let message = message_from("Build failed\n".to_owned()).expect("non-empty");
    assert_eq!(message, "Build failed");
    let p = build_payload(&text("-"), &settings_with(&StyleArgs::default()), &FileConfig::default(), &message)
        .expect("builds");
    assert_eq!(the_text(&p), "Build failed");
}

#[test]
fn only_the_final_newline_is_trimmed() {
    assert_eq!(message_from("a  b\n".to_owned()).expect("non-empty"), "a  b");
    assert_eq!(message_from("two\r\n".to_owned()).expect("non-empty"), "two");
    assert_eq!(message_from(" keep \n\n".to_owned()).expect("non-empty"), " keep \n");
}

#[test]
fn empty_stdin_is_a_clear_error() {
    let error = message_from(String::new()).expect_err("empty");
    assert_eq!(error.exit_code(), 2);
    assert!(error.message().contains("stdin"), "got {}", error.message());
    assert!(message_from("\n".to_owned()).is_err());
}

#[test]
fn a_message_starting_with_a_dash_is_reachable_after_a_double_dash() {
    let p = build(&text("-3 tests failing")).expect("builds");
    assert_eq!(the_text(&p), "-3 tests failing");
}
