//! Which flags apply to which kind of draw.
//!
//! A payload-level flag (`--priority`, `--led`) overrides, because a payload
//! has exactly one priority and one LED colour. A per-element flag is refused
//! whenever the payload may hold several elements, because there is no
//! principled way to pick which one it applies to.

use vstd::prelude::*;
use vstd::string::*;

use crate::cli::{DeliveryArgs, DrawArgs, DrawCommon};
use crate::color;
use crate::config::{invalid_priority_text, parse_priority, parsed_color, priority_of_text};
use crate::error::{is_usage, CliError};
use crate::model::DisplayElements;
use crate::values::check_priority;

verus! {

/// What a draw turned out to be drawing.
#[derive(Debug, Clone, Copy, PartialEq, Eq, Structural)]
pub enum Kind {
    Image,
    Stock,
    /// A `.anim`, from this app's assets or from `shared/…`: the only kind
    /// that can honour `--loop` and `--section`.
    Animation,
    Template,
    File,
}

/// Whether a kind arrives with its elements already decided rather than
/// building one element from the flags.
pub open spec fn prebuilt(kind: Kind) -> bool {
    kind == Kind::Template || kind == Kind::File
}

/// How a kind is named in messages.
pub open spec fn kind_description(kind: Kind) -> Seq<char> {
    match kind {
        Kind::Image | Kind::Stock => "an image draw"@,
        Kind::Animation => "an animation draw"@,
        Kind::Template => "a template"@,
        Kind::File => "a --file payload"@,
    }
}

impl Kind {
    fn is_prebuilt(self) -> (r: bool)
        ensures
            r == prebuilt(self),
    {
        match self {
            Kind::Template | Kind::File => true,
            _ => false,
        }
    }

    fn describe(self) -> (s: &'static str)
        ensures
            s@ == kind_description(self),
    {
        match self {
            Kind::Image | Kind::Stock => "an image draw",
            Kind::Animation => "an animation draw",
            Kind::Template => "a template",
            Kind::File => "a --file payload",
        }
    }
}

/// The first per-element flag given, in the order they are checked.
pub open spec fn first_element_flag(c: DrawCommon) -> Option<Seq<char>> {
    if c.placement.x is Some {
        Some("-x/--x"@)
    } else if c.placement.y is Some {
        Some("-y/--y"@)
    } else if c.placement.align is Some {
        Some("--align"@)
    } else if c.placement.screen is Some {
        Some("--screen"@)
    } else if c.delivery.timeout is Some {
        Some("--timeout"@)
    } else if c.opacity is Some {
        Some("--opacity"@)
    } else if c.delivery.id is Some {
        Some("--id"@)
    } else {
        None
    }
}

/// Why a per-element flag is refused for a prebuilt kind.
pub open spec fn rejected_text(flag: Seq<char>, kind: Kind) -> Seq<char> {
    flag + " cannot be used with "@ + kind_description(kind) + ": "@ + if kind == Kind::Template {
        "it applies to a single element, but a template may hold several. Edit the template, or expose the value as a `{{ variable }}`."@
    } else {
        "it applies to a single element, but a payload file may hold several. Edit the file's own fields instead."@
    }
}

/// `--priority` and `--led` laid over a payload; an unparsable value is
/// refused with the parser's message.
pub open spec fn delivery_overrides(payload: DisplayElements, d: DeliveryArgs) -> Result<
    DisplayElements,
    Seq<char>,
> {
    let with_priority = match d.priority {
        None => Ok(payload),
        Some(input) => match priority_of_text(input@) {
            Some(v) => Ok(DisplayElements { priority: Some(v), ..payload }),
            None => Err(invalid_priority_text(input@)),
        },
    };
    match with_priority {
        Err(m) => Err(m),
        Ok(p) => match d.led {
            None => Ok(p),
            Some(input) => match parsed_color(input@) {
                Ok(c) => Ok(DisplayElements { led_notification_color: Some(c), ..p }),
                Err(m) => Err(m),
            },
        },
    }
}

/// A flag that is absent leaves the payload's own value alone: with neither
/// `--priority` nor `--led`, the payload comes through unchanged, and with
/// only one of them the other field keeps the payload's value.
pub proof fn lemma_absent_flags_keep_payload(payload: DisplayElements, d: DeliveryArgs)
    ensures
        d.priority is None && d.led is None ==> delivery_overrides(payload, d) == Ok::<
            DisplayElements,
            Seq<char>,
        >(payload),
        delivery_overrides(payload, d) matches Ok(p) ==> p.application_name == payload.application_name
            && p.elements == payload.elements && (d.priority is None ==> p.priority
            == payload.priority) && (d.led is None ==> p.led_notification_color
            == payload.led_notification_color),
{
}

/// What `apply` gives for a payload, the draw flags and a kind.
pub open spec fn applied(payload: DisplayElements, args: DrawArgs, kind: Kind) -> Result<
    DisplayElements,
    Seq<char>,
> {
    if !prebuilt(kind) {
        Ok(payload)
    } else {
        match first_element_flag(args.common) {
            Some(flag) => Err(rejected_text(flag, kind)),
            None => delivery_overrides(payload, args.common.delivery),
        }
    }
}

/// Whether `res` is the usage-error form of `expected`.
pub open spec fn as_usage(res: Result<DisplayElements, CliError>, expected: Result<DisplayElements, Seq<char>>) -> bool {
    match expected {
        Ok(p) => res == Ok::<DisplayElements, CliError>(p),
        Err(m) => res matches Err(CliError::Usage(e)) && e@ == m,
    }
}

/// Lay `--priority` and `--led` over a payload, each only when given.
pub(crate) fn override_delivery(payload: DisplayElements, d: &DeliveryArgs) -> (res: Result<
    DisplayElements,
    CliError,
>)
    ensures
        as_usage(res, delivery_overrides(payload, *d)),
{
    let mut payload = payload;
    if let Some(input) = &d.priority {
        let value = match parse_priority(input.as_str()) {
            Ok(v) => v,
            Err(m) => return Err(CliError::Usage(m)),
        };
        if let Err(m) = check_priority(value) {
            let mut message = String::from_str("invalid --priority: ");
            message.append(m.as_str());
            return Err(CliError::Usage(message));
        }
        payload.priority = Some(value);
    }
    if let Some(input) = &d.led {
        match color::parse(input.as_str()) {
            Ok(c) => {
                payload.led_notification_color = Some(c);
            },
            Err(m) => return Err(CliError::Usage(m)),
        }
    }
    Ok(payload)
}

fn rejected(flag: &str, kind: Kind) -> (e: CliError)
    ensures
        is_usage(e, rejected_text(flag@, kind)),
{
    let mut m = String::from_str(flag);
    m.append(" cannot be used with ");
    m.append(kind.describe());
    m.append(": ");
    match kind {
        Kind::Template => m.append(
            "it applies to a single element, but a template may hold several. Edit the template, or expose the value as a `{{ variable }}`.",
        ),
        _ => m.append(
            "it applies to a single element, but a payload file may hold several. Edit the file's own fields instead.",
        ),
    }
    CliError::Usage(m)
}

/// Apply the flags that are well defined for `kind`, and refuse the rest: a
/// kind that builds its element from the flags passes through untouched; a
/// template or payload file refuses every per-element flag and takes
/// `--priority` and `--led` as overrides.
pub fn apply(payload: DisplayElements, args: &DrawArgs, kind: Kind) -> (res: Result<
    DisplayElements,
    CliError,
>)
    ensures
        as_usage(res, applied(payload, *args, kind)),
{
    if !kind.is_prebuilt() {
        return Ok(payload);
    }
    let c = &args.common;
    if c.placement.x.is_some() {
        return Err(rejected("-x/--x", kind));
    }
    if c.placement.y.is_some() {
        return Err(rejected("-y/--y", kind));
    }
    if c.placement.align.is_some() {
        return Err(rejected("--align", kind));
    }
    if c.placement.screen.is_some() {
        return Err(rejected("--screen", kind));
    }
    if c.delivery.timeout.is_some() {
        return Err(rejected("--timeout", kind));
    }
    if c.opacity.is_some() {
        return Err(rejected("--opacity", kind));
    }
    if c.delivery.id.is_some() {
        return Err(rejected("--id", kind));
    }
    override_delivery(payload, &c.delivery)
}

/// Why `--loop` or `--section` is refused for a kind other than an animation.
pub open spec fn animation_flag_text(flag: Seq<char>, kind: Kind) -> Seq<char> {
    flag + " cannot be used with "@ + kind_description(kind) + ": "@ + if prebuilt(kind) {
        "an animation element inside it carries its own, and this cannot say which element it meant."@
    } else {
        "only a `.anim` animation has frames to play."@
    }
}

/// The animation flag that `kind` refuses, if one was given.
pub open spec fn refused_animation_flag(c: DrawCommon, kind: Kind) -> Option<Seq<char>> {
    if kind == Kind::Animation {
        None
    } else if c.repeat {
        Some("--loop"@)
    } else if c.section is Some {
        Some("--section"@)
    } else {
        None
    }
}

/// `--loop` and `--section` only mean something for an animation: a
/// template or payload file may hold animations, but each carries its own
/// and the flag cannot say which it meant.
pub fn reject_animation_flags_unless_animation(args: &DrawArgs, kind: Kind) -> (res: Result<
    (),
    CliError,
>)
    ensures
        match refused_animation_flag(args.common, kind) {
            None => res is Ok,
            Some(flag) => res matches Err(e) && is_usage(e, animation_flag_text(flag, kind)),
        },
{
    if kind == Kind::Animation {
        return Ok(());
    }
    let flag = if args.common.repeat {
        "--loop"
    } else if args.common.section.is_some() {
        "--section"
    } else {
        return Ok(());
    };
    let mut m = String::from_str(flag);
    m.append(" cannot be used with ");
    m.append(kind.describe());
    m.append(": ");
    if kind.is_prebuilt() {
        m.append(
            "an animation element inside it carries its own, and this cannot say which element it meant.",
        );
    } else {
        m.append("only a `.anim` animation has frames to play.");
    }
    Err(CliError::Usage(m))
}

/// Why `--var` is refused outside a template.
pub open spec fn vars_text(kind: Kind) -> Seq<char> {
    "--var cannot be used with "@ + kind_description(kind)
        + ": variables are substituted into a template, and this is not one."@
}

/// `--var` only means something for a template.
pub fn reject_vars_unless_template(args: &DrawArgs, kind: Kind) -> (res: Result<(), CliError>)
    ensures
        if args.common.vars@.len() > 0 && kind != Kind::Template {
            res matches Err(e) && is_usage(e, vars_text(kind))
        } else {
            res is Ok
        },
{
    if args.common.vars.len() > 0 && kind != Kind::Template {
        let mut m = String::from_str("--var cannot be used with ");
        m.append(kind.describe());
        m.append(": variables are substituted into a template, and this is not one.");
        return Err(CliError::Usage(m));
    }
    Ok(())
}

} // verus!
