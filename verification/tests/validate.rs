use busy::model::{Align, DisplayElement, DisplayElements, ElementKind, Font, Screen, TextElement};
use busy::validate::bounds_warnings;

fn text(message: &str, font: Font) -> TextElement {
    TextElement {
        text: message.to_owned(),
        font,
        color: None,
        width: None,
        scroll_rate: None,
        scroll_start_delay: None,
        scroll_repeat_delay: None,
    }
}

fn payload(element: DisplayElement) -> DisplayElements {
    DisplayElements {
        application_name: "busy".to_owned(),
        priority: None,
        led_notification_color: None,
        elements: vec![element],
    }
}

fn element(x: i16, y: i16, screen: Screen, align: Option<Align>, text: TextElement) -> DisplayElement {
    DisplayElement {
        id: "message".to_owned(),
        lifetime: None,
        x: Some(x),
        y: Some(y),
        display: Some(screen),
        align,
        kind: ElementKind::Text(text),
    }
}

/// A short, deliberately narrow message so width never triggers a warning
/// on its own: these cases are about position, not overflow.
fn at(x: i16, y: i16, screen: Screen, align: Align) -> DisplayElements {
    text_at("hi", Font::Tiny, x, y, screen, align)
}

fn text_at(message: &str, font: Font, x: i16, y: i16, screen: Screen, align: Align) -> DisplayElements {
    payload(element(x, y, screen, Some(align), text(message, font)))
}

#[test]
fn the_centred_default_position_is_quiet() {
    assert!(bounds_warnings(&at(36, 8, Screen::Front, Align::Center)).is_empty());
    assert!(bounds_warnings(&at(80, 40, Screen::Back, Align::Center)).is_empty());
}

#[test]
fn an_anchor_past_the_display_warns() {
    let warnings = bounds_warnings(&at(72, 0, Screen::Front, Align::TopLeft));
    assert_eq!(warnings.len(), 1);
    assert!(warnings[0].contains("message"), "should name the element id");
    assert!(warnings[0].contains("72x16"), "should state the bounds");
}

#[test]
fn a_negative_anchor_warns() {
    assert_eq!(bounds_warnings(&at(-1, 0, Screen::Front, Align::TopLeft)).len(), 1);
    assert_eq!(bounds_warnings(&at(0, -1, Screen::Front, Align::TopLeft)).len(), 1);
}

#[test]
fn the_back_display_is_larger() {
    assert!(bounds_warnings(&at(100, 40, Screen::Back, Align::TopLeft)).is_empty());
    assert_eq!(bounds_warnings(&at(100, 40, Screen::Front, Align::TopLeft)).len(), 1);
    assert_eq!(bounds_warnings(&at(160, 0, Screen::Back, Align::TopLeft)).len(), 1);
}

#[test]
fn a_right_anchor_at_x_zero_warns_even_though_the_point_is_in_bounds() {
    for align in [Align::TopRight, Align::MidRight, Align::BottomRight] {
        let warnings = bounds_warnings(&at(0, 8, Screen::Front, align));
        assert_eq!(warnings.len(), 1, "{align:?} at x=0 should warn exactly once, got {warnings:?}");
        assert!(warnings[0].contains("off the left"), "{align:?} at x=0 should warn, got {warnings:?}");
    }
}

#[test]
fn a_bottom_anchor_at_y_zero_warns_even_though_the_point_is_in_bounds() {
    for align in [Align::BottomLeft, Align::BottomMid, Align::BottomRight] {
        let warnings = bounds_warnings(&at(36, 0, Screen::Front, align));
        assert_eq!(warnings.len(), 1, "{align:?} at y=0 should warn exactly once, got {warnings:?}");
        assert!(warnings[0].contains("off the top"), "{align:?} at y=0 should warn, got {warnings:?}");
    }
}

#[test]
fn an_invisible_element_gets_one_warning_not_a_contradictory_second_one() {
    let warnings = bounds_warnings(&at(0, 8, Screen::Front, Align::TopRight));
    assert_eq!(warnings.len(), 1, "got {warnings:?}");
    assert!(warnings[0].contains("off the left"));
}

#[test]
fn a_left_anchor_at_x_zero_is_quiet() {
    assert!(bounds_warnings(&at(0, 0, Screen::Front, Align::TopLeft)).is_empty());
}

#[test]
fn text_too_wide_for_the_display_warns() {
    let warnings = bounds_warnings(&text_at(
        "Deployment completed OK",
        Font::Large,
        36,
        8,
        Screen::Front,
        Align::Center,
    ));
    assert_eq!(warnings.len(), 1, "got {warnings:?}");
    assert!(warnings[0].contains("clips silently"), "got {warnings:?}");
    assert!(warnings[0].contains("--scroll-rate"), "should point at the fix, got {warnings:?}");
}

#[test]
fn missing_align_does_not_suppress_the_width_warning() {
    let payload = payload(element(36, 8, Screen::Front, None, text("Deployment completed OK", Font::Large)));
    let warnings = bounds_warnings(&payload);
    assert_eq!(warnings.len(), 1, "got {warnings:?}");
    assert!(warnings[0].contains("clips silently"), "got {warnings:?}");
}

#[test]
fn text_that_fits_is_quiet() {
    assert!(bounds_warnings(&text_at("Hello, World!", Font::Large, 36, 8, Screen::Front, Align::Center)).is_empty());
}

#[test]
fn a_scrolling_element_is_never_warned_about_for_width() {
    let mut scrolling = text("Deployment completed OK", Font::Large);
    scrolling.scroll_rate = Some(600);
    let payload = payload(element(36, 8, Screen::Front, Some(Align::Center), scrolling));
    assert!(bounds_warnings(&payload).is_empty(), "scrolling is the intended fix for overflow, not a defect");
}

#[test]
fn the_width_estimate_is_stated_in_the_warning() {
    let warnings = bounds_warnings(&text_at("Deployment completed OK", Font::Large, 36, 8, Screen::Front, Align::Center));
    assert_eq!(
        warnings[0],
        "element `message`'s text is about 124px wide in font Large, which does not fit the front \
         display's 72px; the device clips silently. Use --width and --scroll-rate to scroll it, \
         or a smaller --font."
    );
}

#[test]
fn a_corner_anchor_at_the_origin_warns_for_both_edges() {
    let warnings = bounds_warnings(&at(0, 0, Screen::Back, Align::BottomRight));
    assert_eq!(
        warnings,
        vec![
            "element `message` uses align `BottomRight`, which anchors its right edge at x=0, so it \
             extends off the left of the back display and will render nothing"
                .to_owned(),
            "element `message` uses align `BottomRight`, which anchors its bottom edge at y=0, so it \
             extends off the top of the back display and will render nothing"
                .to_owned(),
        ]
    );
}

#[test]
fn the_anchor_warning_quotes_the_coordinates_and_bounds() {
    let warnings = bounds_warnings(&at(-5, 90, Screen::Back, Align::Center));
    assert_eq!(
        warnings,
        vec!["element `message` is anchored at (-5, 90), outside the back display's 160x80 bounds; \
              it will render nothing"
            .to_owned()]
    );
}

#[test]
fn an_element_without_position_or_screen_is_checked_at_the_front_origin() {
    let mut e = element(0, 0, Screen::Front, Some(Align::MidRight), text("hi", Font::Small));
    e.x = None;
    e.y = None;
    e.display = None;
    let warnings = bounds_warnings(&payload(e));
    assert_eq!(warnings.len(), 1);
    assert!(warnings[0].contains("off the left of the front display"));
}

#[test]
fn an_animation_panned_off_the_display_is_quiet() {
    let sheet = DisplayElement {
        id: "sheet".to_owned(),
        lifetime: None,
        x: Some(-144),
        y: Some(0),
        display: Some(Screen::Front),
        align: Some(Align::TopLeft),
        kind: ElementKind::Animation(busy::model::AnimationElement {
            source: busy::model::ImageSource::Asset { path: "sheet.anim".to_owned() },
            repeat: None,
            await_previous_end: None,
            section: None,
            opacity: None,
        }),
    };
    assert!(bounds_warnings(&payload(sheet)).is_empty());
}
