//! `busy draw`: put a named thing on the bar.
//!
//! A name expands to one element: `shared/…` is the reserved namespace for
//! device built-ins, anything else is an asset in this application's
//! directory, and a name ending in `.anim` is played as an animation.

use vstd::prelude::*;
use vstd::string::*;

use crate::cli::{AsArg, DrawArgs};
use crate::color;
use crate::cmd::text::{chosen_priority, led_color};
use crate::config::{
    default_position, parse_priority, resolve_align, resolved_align, screen_from_arg,
    spec_screen_from_arg, Defaults, FileConfig, Settings,
};
use crate::error::{is_usage, CliError};
use crate::model::{
    AnimationElement, DisplayElement, DisplayElements, ElementKind, ImageElement, ImageSource,
    Lifetime, Screen,
};
use crate::overrides::{as_usage, delivery_overrides, override_delivery, Kind};
use crate::template::discover::{template_name_ok, validate_name};
use crate::strings::{ends_with, has_prefix, has_suffix, starts_with};
use crate::values::{
    app_name_error, asset_path_error, asset_path_ok, check_app_name, check_asset_path,
    check_element_id, check_opacity, check_priority, check_stock_path, element_id_error, name_ok,
    opacity_error, priority_error, stock_path_error, stock_path_ok,
};

verus! {

/// What a `draw` name turned out to mean.
#[derive(Debug, Clone, PartialEq, Eq)]
pub enum Resolved {
    /// A file in this application's asset directory.
    Asset(String),
    /// A device built-in under `shared/`.
    Stock(String),
}

/// Whether a name is read as a stock path: `--as stock` forces it, `--as
/// image` forbids it, and otherwise the `shared/` prefix decides.
pub open spec fn reads_as_stock(name: Seq<char>, as_kind: Option<AsArg>) -> bool {
    match as_kind {
        Some(AsArg::Stock) => true,
        Some(AsArg::Image) => false,
        _ => has_prefix(name, "shared/"@),
    }
}

/// Why a missing name is refused.
pub open spec fn no_name_text() -> Seq<char> {
    "`busy draw` needs a name or --file; see `busy draw --help`"@
}

/// Why a name is refused as a stock path.
pub open spec fn bad_stock_text(name: Seq<char>) -> Seq<char> {
    "`"@ + name + "` is not a valid stock path: "@ + stock_path_error(name)
        + ". Device built-ins look like `shared/checkmark_front_8x8.image`."@
}

/// Why a name is refused as an asset path.
pub open spec fn bad_asset_text(name: Seq<char>) -> Seq<char> {
    "`"@ + name + "` is not a valid asset name: "@ + asset_path_error(name)
}

/// What `resolve` gives: the source a name stands for, or why it stands for
/// none.
pub open spec fn resolution(args: DrawArgs) -> Result<Resolved, Seq<char>> {
    match args.name {
        None => Err(no_name_text()),
        Some(name) => if reads_as_stock(name@, args.as_kind) {
            if stock_path_ok(name@) {
                Ok(Resolved::Stock(name))
            } else {
                Err(bad_stock_text(name@))
            }
        } else {
            if asset_path_ok(name@) {
                Ok(Resolved::Asset(name))
            } else {
                Err(bad_asset_text(name@))
            }
        },
    }
}

/// Resolve a draw name to a source. `--as template` is decided before this
/// is reached, so here it reads a name as no `--as` would.
pub fn resolve(args: &DrawArgs) -> (res: Result<Resolved, CliError>)
    ensures
        match resolution(*args) {
            Ok(r) => res == Ok::<Resolved, CliError>(r),
            Err(m) => res matches Err(e) && is_usage(e, m),
        },
{
    let name = match &args.name {
        Some(n) => n,
        None => {
            return Err(
                CliError::Usage(
                    String::from_str("`busy draw` needs a name or --file; see `busy draw --help`"),
                ),
            );
        },
    };
    let as_stock = match args.as_kind {
        Some(AsArg::Stock) => true,
        Some(AsArg::Image) => false,
        _ => starts_with(name.as_str(), "shared/"),
    };
    if as_stock {
        return match check_stock_path(name.as_str()) {
            Ok(()) => Ok(Resolved::Stock(name.clone())),
            Err(error) => {
                let mut m = String::from_str("`");
                m.append(name.as_str());
                m.append("` is not a valid stock path: ");
                m.append(error.as_str());
                m.append(". Device built-ins look like `shared/checkmark_front_8x8.image`.");
                Err(CliError::Usage(m))
            },
        };
    }
    match check_asset_path(name.as_str()) {
        Ok(()) => Ok(Resolved::Asset(name.clone())),
        Err(error) => {
            let mut m = String::from_str("`");
            m.append(name.as_str());
            m.append("` is not a valid asset name: ");
            m.append(error.as_str());
            Err(CliError::Usage(m))
        },
    }
}

/// The path a resolved source names.
pub open spec fn resolved_path(r: Resolved) -> Seq<char> {
    match r {
        Resolved::Asset(p) => p@,
        Resolved::Stock(p) => p@,
    }
}

/// Whether a resolved source is a `.anim`, played rather than shown.
pub open spec fn is_animation(r: Resolved) -> bool {
    has_suffix(resolved_path(r), ".anim"@)
}

/// Whether `src` is the wire form of a resolved source.
pub open spec fn source_is(src: ImageSource, r: Resolved) -> bool {
    match r {
        Resolved::Asset(p) => src matches ImageSource::Asset { path } && path@ == p@,
        Resolved::Stock(p) => src matches ImageSource::Stock { stock_path } && stock_path@ == p@,
    }
}

/// The element id: `--id`, else `image`.
pub open spec fn draw_element_id(args: DrawArgs) -> Seq<char> {
    match args.common.delivery.id {
        Some(id) => id@,
        None => "image"@,
    }
}

/// The screen: `--screen`, else the configured one.
pub open spec fn draw_screen(args: DrawArgs, settings: Settings) -> Screen {
    match args.common.placement.screen {
        Some(s) => spec_screen_from_arg(s),
        None => settings.screen,
    }
}

/// The first reason `build_payload` refuses, in the order it checks.
pub open spec fn draw_failure(args: DrawArgs, settings: Settings, r: Resolved) -> Option<
    Seq<char>,
> {
    let id = draw_element_id(args);
    let priority = chosen_priority(args.common.delivery, settings.priority);
    let source_error = match r {
        Resolved::Asset(p) => if asset_path_ok(p@) {
            None
        } else {
            Some(asset_path_error(p@))
        },
        Resolved::Stock(p) => if stock_path_ok(p@) {
            None
        } else {
            Some(stock_path_error(p@))
        },
    };
    if source_error is Some {
        source_error
    } else if args.common.opacity matches Some(o) && o > 100 {
        Some("invalid --opacity: "@ + opacity_error(args.common.opacity->0))
    } else if !name_ok(id) {
        Some("invalid --id: "@ + element_id_error(id))
    } else if priority is Err {
        Some(priority->Err_0)
    } else if !(1 <= priority->Ok_0 <= 100) {
        Some("invalid --priority: "@ + priority_error(priority->Ok_0))
    } else if !name_ok(settings.app@) {
        Some("invalid --app: "@ + app_name_error(settings.app@))
    } else if led_color(args.common.delivery) is Err {
        Some(led_color(args.common.delivery)->Err_0)
    } else {
        None
    }
}

/// Whether `kind` draws the resolved source as the flags ask: an animation,
/// played once unless `--loop`, for a `.anim`; an image otherwise.
pub open spec fn draws_source(kind: ElementKind, args: DrawArgs, r: Resolved) -> bool {
    if is_animation(r) {
        &&& kind matches ElementKind::Animation(a)
        &&& source_is(a.source, r)
        &&& a.repeat == (if args.common.repeat {
            Some(true)
        } else {
            None::<bool>
        })
        &&& a.await_previous_end is None
        &&& a.section == args.common.section
        &&& a.opacity == args.common.opacity
    } else {
        &&& kind matches ElementKind::Image(i)
        &&& source_is(i.source, r)
        &&& i.opacity == args.common.opacity
    }
}

/// Whether `p` is the payload for a draw that passed every check: one
/// element, placed by the flags over the centre of the chosen screen.
pub open spec fn is_draw_payload(
    p: DisplayElements,
    args: DrawArgs,
    settings: Settings,
    file: FileConfig,
    r: Resolved,
) -> bool {
    let screen = draw_screen(args, settings);
    let centre = default_position(screen);
    let placement = args.common.placement;
    &&& p.application_name@ == settings.app@
    &&& p.priority == Some(chosen_priority(args.common.delivery, settings.priority)->Ok_0)
    &&& p.led_notification_color == led_color(args.common.delivery)->Ok_0
    &&& p.elements@.len() == 1
    &&& p.elements@[0].id@ == draw_element_id(args)
    &&& p.elements@[0].lifetime == match args.common.delivery.timeout {
        Some(t) => Some(Lifetime::Timeout { timeout: t }),
        None => None,
    }
    &&& p.elements@[0].x == Some(
        match placement.x {
            Some(x) => x,
            None => centre.0,
        },
    )
    &&& p.elements@[0].y == Some(
        match placement.y {
            Some(y) => y,
            None => centre.1,
        },
    )
    &&& p.elements@[0].display == Some(screen)
    &&& p.elements@[0].align == Some(resolved_align(placement.align, file))
    &&& draws_source(p.elements@[0].kind, args, r)
}

fn source_of(resolved: &Resolved) -> (res: Result<ImageSource, CliError>)
    ensures
        match resolved {
            Resolved::Asset(p) => if asset_path_ok(p@) {
                res matches Ok(src) && source_is(src, *resolved)
            } else {
                res matches Err(e) && is_usage(e, asset_path_error(p@))
            },
            Resolved::Stock(p) => if stock_path_ok(p@) {
                res matches Ok(src) && source_is(src, *resolved)
            } else {
                res matches Err(e) && is_usage(e, stock_path_error(p@))
            },
        },
{
    match resolved {
        Resolved::Asset(path) => match check_asset_path(path.as_str()) {
            Ok(()) => Ok(ImageSource::Asset { path: path.clone() }),
            Err(error) => Err(CliError::Usage(error)),
        },
        Resolved::Stock(path) => match check_stock_path(path.as_str()) {
            Ok(()) => Ok(ImageSource::Stock { stock_path: path.clone() }),
            Err(error) => Err(CliError::Usage(error)),
        },
    }
}

/// Build the wire payload for a named draw. No I/O, so `--dry-run` and the
/// real send produce identical bytes.
pub fn build_payload(
    args: &DrawArgs,
    settings: &Settings,
    file: &FileConfig,
    resolved: &Resolved,
) -> (res: Result<DisplayElements, CliError>)
    ensures
        match draw_failure(*args, *settings, *resolved) {
            Some(m) => res matches Err(e) && is_usage(e, m),
            None => res matches Ok(p) && is_draw_payload(p, *args, *settings, *file, *resolved),
        },
{
    let source = source_of(resolved)?;
    let c = &args.common;
    if let Some(percent) = c.opacity {
        if let Err(error) = check_opacity(percent) {
            return Err(CliError::usage_with("invalid --opacity: ", error.as_str()));
        }
    }
    let screen = match c.placement.screen {
        Some(s) => screen_from_arg(s),
        None => settings.screen,
    };
    let (default_x, default_y) = Defaults::position(screen);
    let id = match &c.delivery.id {
        Some(id) => id.clone(),
        None => String::from_str(Defaults::IMAGE_ELEMENT_ID),
    };
    proof {
        reveal_strlit("image");
    }
    if let Err(error) = check_element_id(id.as_str()) {
        return Err(CliError::usage_with("invalid --id: ", error.as_str()));
    }
    let x = match c.placement.x {
        Some(x) => x,
        None => default_x,
    };
    let y = match c.placement.y {
        Some(y) => y,
        None => default_y,
    };
    let align = resolve_align(c.placement.align, file);
    let lifetime = match c.delivery.timeout {
        Some(seconds) => Some(Lifetime::Timeout { timeout: seconds }),
        None => None,
    };
    let priority = match &c.delivery.priority {
        Some(input) => match parse_priority(input.as_str()) {
            Ok(v) => v,
            Err(m) => return Err(CliError::Usage(m)),
        },
        None => settings.priority,
    };
    if let Err(error) = check_priority(priority) {
        return Err(CliError::usage_with("invalid --priority: ", error.as_str()));
    }
    if let Err(error) = check_app_name(settings.app.as_str()) {
        return Err(CliError::usage_with("invalid --app: ", error.as_str()));
    }
    let led = match &c.delivery.led {
        Some(input) => match color::parse(input.as_str()) {
            Ok(color) => Some(color),
            Err(m) => return Err(CliError::Usage(m)),
        },
        None => None,
    };
    let path = match resolved {
        Resolved::Asset(p) => p,
        Resolved::Stock(p) => p,
    };
    let kind = if ends_with(path.as_str(), ".anim") {
        let section = match &c.section {
            Some(s) => Some(s.clone()),
            None => None,
        };
        ElementKind::Animation(
            AnimationElement {
                source,
                repeat: if c.repeat {
                    Some(true)
                } else {
                    None
                },
                await_previous_end: None,
                section,
                opacity: c.opacity,
            },
        )
    } else {
        ElementKind::Image(ImageElement { source, opacity: c.opacity })
    };
    let element = DisplayElement {
        id,
        lifetime,
        x: Some(x),
        y: Some(y),
        display: Some(screen),
        align: Some(align),
        kind,
    };
    let mut elements: Vec<DisplayElement> = Vec::new();
    elements.push(element);
    Ok(
        DisplayElements {
            application_name: settings.app.clone(),
            priority: Some(priority),
            led_notification_color: led,
            elements,
        },
    )
}

/// The first per-element flag that `--file` refuses, in the order checked.
pub open spec fn first_file_flag(args: DrawArgs) -> Option<Seq<char>> {
    let c = args.common;
    if c.opacity is Some {
        Some("--opacity"@)
    } else if c.placement.x is Some {
        Some("-x/--x"@)
    } else if c.placement.y is Some {
        Some("-y/--y"@)
    } else if c.placement.align is Some {
        Some("--align"@)
    } else if c.placement.screen is Some {
        Some("--screen"@)
    } else if c.delivery.timeout is Some {
        Some("--timeout"@)
    } else {
        None
    }
}

/// Why a per-element flag is refused with `--file`.
pub open spec fn file_flag_text(flag: Seq<char>) -> Seq<char> {
    flag
        + " cannot be used with --file: it applies to a single element, but a payload file may hold several. Edit the file's own fields instead."@
}

fn file_override_rejected(flag: &str) -> (e: CliError)
    ensures
        is_usage(e, file_flag_text(flag@)),
{
    CliError::usage_with(
        flag,
        " cannot be used with --file: it applies to a single element, but a payload file may hold several. Edit the file's own fields instead.",
    )
}

/// Apply the `--file` overrides that are well defined against a loaded
/// payload: `--priority` and `--led` replace the file's own values when
/// given and leave them alone otherwise; a per-element flag is refused,
/// since a payload file may hold several elements.
pub fn apply_file_overrides(payload: DisplayElements, args: &DrawArgs) -> (res: Result<
    DisplayElements,
    CliError,
>)
    ensures
        match first_file_flag(*args) {
            Some(flag) => res matches Err(e) && is_usage(e, file_flag_text(flag)),
            None => as_usage(res, delivery_overrides(payload, args.common.delivery)),
        },
{
    let c = &args.common;
    if c.opacity.is_some() {
        return Err(file_override_rejected("--opacity"));
    }
    if c.placement.x.is_some() {
        return Err(file_override_rejected("-x/--x"));
    }
    if c.placement.y.is_some() {
        return Err(file_override_rejected("-y/--y"));
    }
    if c.placement.align.is_some() {
        return Err(file_override_rejected("--align"));
    }
    if c.placement.screen.is_some() {
        return Err(file_override_rejected("--screen"));
    }
    if c.delivery.timeout.is_some() {
        return Err(file_override_rejected("--timeout"));
    }
    override_delivery(payload, &c.delivery)
}

/// Whether a named draw renders a template: `--as template` always does;
/// with no `--as`, a name outside `shared/` that is a usable template name
/// does when its `template.toml` exists. A draw without a name never does.
pub open spec fn draws_template(args: DrawArgs, template_exists: bool) -> bool {
    match args.name {
        None => false,
        Some(n) => match args.as_kind {
            Some(AsArg::Template) => true,
            Some(_) => false,
            None => !has_prefix(n@, "shared/"@) && template_name_ok(n@) && template_exists,
        },
    }
}

/// Decide whether a named draw renders a template, given whether the
/// template directory holds a `template.toml` under that name.
pub fn wants_template(args: &DrawArgs, template_exists: bool) -> (r: bool)
    ensures
        r == draws_template(*args, template_exists),
{
    match &args.name {
        None => false,
        Some(n) => match args.as_kind {
            Some(AsArg::Template) => true,
            Some(_) => false,
            None => !starts_with(n.as_str(), "shared/") && validate_name(n.as_str()).is_ok()
                && template_exists,
        },
    }
}

/// The kind a resolved source is drawn as: a `.anim` is an animation
/// wherever it lives; otherwise an asset is an image and a built-in a stock
/// image.
pub open spec fn source_kind(r: Resolved) -> Kind {
    if is_animation(r) {
        Kind::Animation
    } else {
        match r {
            Resolved::Asset(_) => Kind::Image,
            Resolved::Stock(_) => Kind::Stock,
        }
    }
}

/// The kind a resolved source is drawn as.
pub fn kind_of(r: &Resolved) -> (k: Kind)
    ensures
        k == source_kind(*r),
{
    let path = match r {
        Resolved::Asset(p) => p,
        Resolved::Stock(p) => p,
    };
    if ends_with(path.as_str(), ".anim") {
        Kind::Animation
    } else {
        match r {
            Resolved::Asset(_) => Kind::Image,
            Resolved::Stock(_) => Kind::Stock,
        }
    }
}

} // verus!

