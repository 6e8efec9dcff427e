//! `busy text`: draw a single line of text.

use vstd::prelude::*;
use vstd::string::*;

use crate::cli::{DeliveryArgs, TextArgs};
use crate::color;
use crate::config::{
    default_position, invalid_priority_text, parse_priority, parsed_color, priority_of_text,
    resolve_align, resolved_align, screen_from_arg, spec_screen_from_arg, Defaults, FileConfig,
    Settings,
};
use crate::error::{is_usage, CliError};
use crate::model::{
    Color, DisplayElement, DisplayElements, ElementKind, Lifetime, Screen, TextElement,
};
use crate::sanitize::{ascii_text, lemma_output_is_printable, to_ascii};
use crate::strings::{debug_quoted, debug_str, parse_unsigned, unsigned_of_text};
use crate::values::{
    app_name_error, check_app_name, check_element_id, check_priority, check_text,
    element_id_error, name_ok, priority_error,
};

verus! {

/// Why a message that sanitizes to nothing is refused.
pub open spec fn nothing_printable_text(message: Seq<char>) -> Seq<char> {
    "the message contains nothing printable on this device: "@ + debug_quoted(message)
        + "\nThe bar's fonts are bitmap ASCII, so emoji and other non-ASCII characters are dropped. Supply at least one printable ASCII character."@
}

/// The element id: `--id`, else `message`.
pub open spec fn text_element_id(args: TextArgs) -> Seq<char> {
    match args.delivery.id {
        Some(id) => id@,
        None => "message"@,
    }
}

/// The whole seconds since the Unix epoch of the instant `jiff` reads from
/// a timestamp such as `2026-08-09T17:30:00Z`, or the text of its refusal.
pub uninterp spec fn rfc3339_seconds(text: Seq<char>) -> Result<i64, Seq<char>>;

/// `jiff::Timestamp`'s `FromStr`, then `Timestamp::as_second`. The contract
/// claims only that the outcome is `rfc3339_seconds` of the text: the seconds
/// on success, the text of jiff's error on refusal.
#[verifier::external_body]
fn parse_timestamp(text: &str) -> (r: Result<i64, String>)
    ensures
        match r {
            Ok(s) => rfc3339_seconds(text@) == Ok::<i64, Seq<char>>(s),
            Err(e) => rfc3339_seconds(text@) == Err::<i64, Seq<char>>(e@),
        },
{
    text.parse::<jiff::Timestamp>().map(|t| t.as_second()).map_err(|e| e.to_string())
}

/// Why an `--until` value is refused.
pub open spec fn invalid_until_text(input: Seq<char>, detail: Seq<char>) -> Seq<char> {
    "invalid --until `"@ + input
        + "`: expected Unix seconds or an RFC 3339 timestamp such as 2026-08-09T17:30:00Z ("@
        + detail + ")"@
}

/// Why an `--until` before the epoch is refused.
pub open spec fn predates_text(input: Seq<char>) -> Seq<char> {
    "invalid --until `"@ + input + "`: predates 1970"@
}

/// `--until` as Unix seconds: a plain unsigned number stands for itself;
/// otherwise `parsed`, the RFC 3339 reading, decides.
pub open spec fn until_seconds(input: Seq<char>, parsed: Result<i64, Seq<char>>) -> Result<
    u64,
    Seq<char>,
> {
    match unsigned_of_text(input, u64::MAX as int) {
        Some(v) => Ok(v as u64),
        None => match parsed {
            Ok(s) => if s >= 0 {
                Ok(s as u64)
            } else {
                Err(predates_text(input))
            },
            Err(e) => Err(invalid_until_text(input, e)),
        },
    }
}

/// Finish reading `--until` once the RFC 3339 reading is known: a plain
/// unsigned number wins, a timestamp before 1970 is refused, and jiff's
/// refusal is quoted.
pub fn until_from(input: &str, parsed: Result<i64, String>) -> (res: Result<u64, CliError>)
    ensures
        match until_seconds(
            input@,
            match parsed {
                Ok(s) => Ok::<i64, Seq<char>>(s),
                Err(e) => Err::<i64, Seq<char>>(e@),
            },
        ) {
            Ok(v) => res == Ok::<u64, CliError>(v),
            Err(m) => res matches Err(e) && is_usage(e, m),
        },
{
    if let Some(seconds) = parse_unsigned(input, u64::MAX) {
        return Ok(seconds);
    }
    match parsed {
        Ok(s) => {
            if s >= 0 {
                Ok(s as u64)
            } else {
                let mut m = String::from_str("invalid --until `");
                m.append(input);
                m.append("`: predates 1970");
                Err(CliError::Usage(m))
            }
        },
        Err(detail) => {
            let mut m = String::from_str("invalid --until `");
            m.append(input);
            m.append(
                "`: expected Unix seconds or an RFC 3339 timestamp such as 2026-08-09T17:30:00Z (",
            );
            m.append(detail.as_str());
            m.append(")");
            Err(CliError::Usage(m))
        },
    }
}

/// Accept Unix seconds or RFC 3339.
pub fn parse_until(input: &str) -> (res: Result<u64, CliError>)
    ensures
        match until_seconds(input@, rfc3339_seconds(input@)) {
            Ok(v) => res == Ok::<u64, CliError>(v),
            Err(m) => res matches Err(e) && is_usage(e, m),
        },
{
    if let Some(seconds) = parse_unsigned(input, u64::MAX) {
        return Ok(seconds);
    }
    let parsed = parse_timestamp(input);
    until_from(input, parsed)
}

/// How long the element stays: `--timeout`, else `--until`, else the
/// device's default.
pub open spec fn text_lifetime(args: TextArgs) -> Result<Option<Lifetime>, Seq<char>> {
    match args.delivery.timeout {
        Some(t) => Ok(Some(Lifetime::Timeout { timeout: t })),
        None => match args.until {
            Some(input) => match until_seconds(input@, rfc3339_seconds(input@)) {
                Ok(s) => Ok(Some(Lifetime::DisplayUntil { display_until: s })),
                Err(m) => Err(m),
            },
            None => Ok(None),
        },
    }
}

fn lifetime(args: &TextArgs) -> (res: Result<Option<Lifetime>, CliError>)
    ensures
        match text_lifetime(*args) {
            Ok(l) => res == Ok::<Option<Lifetime>, CliError>(l),
            Err(m) => res matches Err(e) && is_usage(e, m),
        },
{
    if let Some(seconds) = args.delivery.timeout {
        return Ok(Some(Lifetime::Timeout { timeout: seconds }));
    }
    match &args.until {
        Some(input) => match parse_until(input.as_str()) {
            Ok(s) => Ok(Some(Lifetime::DisplayUntil { display_until: s })),
            Err(e) => Err(e),
        },
        None => Ok(None),
    }
}

/// The priority: `--priority` read leniently, else the configured one.
pub open spec fn chosen_priority(d: DeliveryArgs, configured: u8) -> Result<u8, Seq<char>> {
    match d.priority {
        Some(input) => match priority_of_text(input@) {
            Some(v) => Ok(v),
            None => Err(invalid_priority_text(input@)),
        },
        None => Ok(configured),
    }
}

/// The LED colour, when `--led` is given.
pub open spec fn led_color(d: DeliveryArgs) -> Result<Option<Color>, Seq<char>> {
    match d.led {
        None => Ok(None),
        Some(input) => match parsed_color(input@) {
            Ok(c) => Ok(Some(c)),
            Err(m) => Err(m),
        },
    }
}

/// The screen: `--screen`, else the configured one.
pub open spec fn text_screen(args: TextArgs, settings: Settings) -> Screen {
    match args.placement.screen {
        Some(s) => spec_screen_from_arg(s),
        None => settings.screen,
    }
}

/// The first reason `build_payload` refuses, in the order it checks.
pub open spec fn text_failure(args: TextArgs, settings: Settings, message: Seq<char>) -> Option<
    Seq<char>,
> {
    let id = text_element_id(args);
    let priority = chosen_priority(args.delivery, settings.priority);
    if ascii_text(message).len() == 0 {
        Some(nothing_printable_text(message))
    } else if !name_ok(id) {
        Some("invalid --id: "@ + element_id_error(id))
    } else if text_lifetime(args) is Err {
        Some(text_lifetime(args)->Err_0)
    } else if priority is Err {
        Some(priority->Err_0)
    } else if !(1 <= priority->Ok_0 <= 100) {
        Some("invalid --priority: "@ + priority_error(priority->Ok_0))
    } else if !name_ok(settings.app@) {
        Some("invalid --app: "@ + app_name_error(settings.app@))
    } else if led_color(args.delivery) is Err {
        Some(led_color(args.delivery)->Err_0)
    } else {
        None
    }
}

/// Whether `p` is the payload for a message that passed every check: one
/// text element, placed by the flags over the centre of the chosen screen.
pub open spec fn is_text_payload(
    p: DisplayElements,
    args: TextArgs,
    settings: Settings,
    file: FileConfig,
    message: Seq<char>,
) -> bool {
    let screen = text_screen(args, settings);
    let centre = default_position(screen);
    &&& p.application_name@ == settings.app@
    &&& p.priority == Some(chosen_priority(args.delivery, settings.priority)->Ok_0)
    &&& p.led_notification_color == led_color(args.delivery)->Ok_0
    &&& p.elements@.len() == 1
    &&& p.elements@[0].id@ == text_element_id(args)
    &&& p.elements@[0].lifetime == text_lifetime(args)->Ok_0
    &&& p.elements@[0].x == Some(
        match args.placement.x {
            Some(x) => x,
            None => centre.0,
        },
    )
    &&& p.elements@[0].y == Some(
        match args.placement.y {
            Some(y) => y,
            None => centre.1,
        },
    )
    &&& p.elements@[0].display == Some(screen)
    &&& p.elements@[0].align == Some(resolved_align(args.placement.align, file))
    &&& p.elements@[0].kind matches ElementKind::Text(t) && t.text@ == ascii_text(message)
        && t.font == settings.font && t.color == Some(settings.color) && t.width
        == args.scroll.width && t.scroll_rate == args.scroll.scroll_rate && t.scroll_start_delay
        == args.scroll.scroll_start_delay && t.scroll_repeat_delay
        == args.scroll.scroll_repeat_delay
}

/// Build the wire payload for `busy text`. No I/O, so `--dry-run` and the
/// real send produce identical bytes. The message is sanitized to printable
/// ASCII first; one that sanitizes to nothing is refused.
pub fn build_payload(args: &TextArgs, settings: &Settings, file: &FileConfig, message: &str) -> (res:
    Result<DisplayElements, CliError>)
    ensures
        match text_failure(*args, *settings, message@) {
            Some(m) => res matches Err(e) && is_usage(e, m),
            None => res matches Ok(p) && is_text_payload(p, *args, *settings, *file, message@),
        },
{
    let sanitized = to_ascii(message);
    proof {
        lemma_output_is_printable(message@);
    }
    if sanitized.text.as_str().is_empty() {
        let quoted = debug_str(message);
        let mut m = String::from_str("the message contains nothing printable on this device: ");
        m.append(quoted.as_str());
        m.append(
            "\nThe bar's fonts are bitmap ASCII, so emoji and other non-ASCII characters are dropped. Supply at least one printable ASCII character.",
        );
        return Err(CliError::Usage(m));
    }
    if let Err(error) = check_text(sanitized.text.as_str()) {
        return Err(CliError::usage_with("invalid message: ", error.as_str()));
    }
    let id = match &args.delivery.id {
        Some(id) => id.clone(),
        None => String::from_str(Defaults::ELEMENT_ID),
    };
    proof {
        reveal_strlit("message");
    }
    if let Err(error) = check_element_id(id.as_str()) {
        return Err(CliError::usage_with("invalid --id: ", error.as_str()));
    }
    let screen = match args.placement.screen {
        Some(s) => screen_from_arg(s),
        None => settings.screen,
    };
    let (default_x, default_y) = Defaults::position(screen);
    let x = match args.placement.x {
        Some(x) => x,
        None => default_x,
    };
    let y = match args.placement.y {
        Some(y) => y,
        None => default_y,
    };
    let align = resolve_align(args.placement.align, file);
    let life = lifetime(args)?;
    let priority = match &args.delivery.priority {
        Some(input) => match parse_priority(input.as_str()) {
            Ok(v) => v,
            Err(m) => return Err(CliError::Usage(m)),
        },
        None => settings.priority,
    };
    if let Err(error) = check_priority(priority) {
        return Err(CliError::usage_with("invalid --priority: ", error.as_str()));
    }
    if let Err(error) = check_app_name(settings.app.as_str()) {
        return Err(CliError::usage_with("invalid --app: ", error.as_str()));
    }
    let led = match &args.delivery.led {
        Some(input) => match color::parse(input.as_str()) {
            Ok(c) => Some(c),
            Err(m) => return Err(CliError::Usage(m)),
        },
        None => None,
    };
    let element = DisplayElement {
        id,
        lifetime: life,
        x: Some(x),
        y: Some(y),
        display: Some(screen),
        align: Some(align),
        kind: ElementKind::Text(
            TextElement {
                text: sanitized.text,
                font: settings.font,
                color: Some(settings.color),
                width: args.scroll.width,
                scroll_rate: args.scroll.scroll_rate,
                scroll_start_delay: args.scroll.scroll_start_delay,
                scroll_repeat_delay: args.scroll.scroll_repeat_delay,
            },
        ),
    };
    let mut elements: Vec<DisplayElement> = Vec::new();
    elements.push(element);
    Ok(
        DisplayElements {
            application_name: settings.app.clone(),
            priority: Some(priority),
            led_notification_color: led,
            elements,
        },
    )
}

} // verus!
