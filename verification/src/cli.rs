//! The command-line surface, as plain values.
//!
//! Every option is an `Option` and none carries a default, so "unset" stays
//! distinguishable from "explicitly set to the default", which the config
//! and template layers need. Defaults live in `config::Defaults`. The parser
//! that fills these in lives with the binary.

use vstd::prelude::*;

verus! {

/// The whole invocation.
#[derive(Debug, Clone)]
pub struct Cli {
    pub global: GlobalArgs,
    pub command: Command,
}

/// The subcommand.
#[derive(Debug, Clone)]
pub enum Command {
    /// Draw a line of text
    Text(Box<TextArgs>),
    /// Draw an uploaded asset, a device built-in, or a raw payload
    Draw(Box<DrawArgs>),
    /// Manage this application's uploaded assets
    Asset(AssetCmd),
    /// Manage and run templates
    Template(TemplateCmd),
    /// Remove everything this application has drawn
    Clear,
}

/// `busy template …`.
#[derive(Debug, Clone)]
pub enum TemplateCmd {
    /// Write the shipped example templates into the template directory
    Init(TemplateInitArgs),
    /// List installed templates
    List,
    /// Show a template's description, elements, and variables
    Show(TemplateShowArgs),
    /// Check templates without contacting the device
    Validate(TemplateValidateArgs),
    /// Render a template and draw it
    Run(Box<TemplateRunArgs>),
}

#[derive(Debug, Clone, Default)]
pub struct TemplateInitArgs {
    /// Overwrite an example that already exists
    pub force: bool,
}

#[derive(Debug, Clone, Default)]
pub struct TemplateShowArgs {
    /// Template name
    pub name: String,
}

#[derive(Debug, Clone, Default)]
pub struct TemplateValidateArgs {
    /// Template name; every installed template when omitted
    pub name: Option<String>,
}

/// Fields shared by `busy draw` and `busy template run`: everything except
/// the name, which means an asset or built-in on one and a template on the
/// other.
#[derive(Debug, Clone, Default)]
pub struct DrawCommon {
    /// Opacity, 0-100
    pub opacity: Option<u8>,
    /// Template variables, `key=value`
    pub vars: Vec<String>,
    /// Optional message; binds to the `message` template variable. `-` reads stdin.
    pub message: Option<String>,
    /// Replay an animation instead of stopping on its last frame
    pub repeat: bool,
    /// Play one named section of an animation
    pub section: Option<String>,
    pub placement: PlacementArgs,
    pub delivery: DeliveryArgs,
}

/// `busy draw`.
#[derive(Debug, Clone, Default)]
pub struct DrawArgs {
    /// Asset name, or a `shared/…` device built-in
    pub name: Option<String>,
    pub common: DrawCommon,
    /// Draw a raw payload from this file instead of a named thing
    pub file: Option<String>,
    /// Force how the name is interpreted
    pub as_kind: Option<AsArg>,
}

/// `busy template run`.
#[derive(Debug, Clone, Default)]
pub struct TemplateRunArgs {
    /// Template name
    pub name: Option<String>,
    pub common: DrawCommon,
}

/// `--as`: how a draw name is interpreted.
#[derive(Debug, Clone, Copy, PartialEq, Eq)]
pub enum AsArg {
    Image,
    Stock,
    Template,
}

/// `busy asset …`.
#[derive(Debug, Clone)]
pub enum AssetCmd {
    /// Convert, fit, and upload a local image
    Upload(AssetUploadArgs),
    /// List this application's assets, read from the device
    List,
    /// Delete ALL of this application's assets
    Delete(AssetDeleteArgs),
}

#[derive(Debug, Clone, Default)]
pub struct AssetUploadArgs {
    /// Local image file
    pub path: String,
    /// Panel to fit the image for; the fit target, not where it is drawn
    pub screen: Option<ScreenArg>,
}

#[derive(Debug, Clone, Default)]
pub struct AssetDeleteArgs {
    /// Skip the confirmation prompt
    pub yes: bool,
}

/// Options every subcommand takes.
#[derive(Debug, Clone, Default)]
pub struct GlobalArgs {
    /// Device base URL
    pub addr: Option<String>,
    /// API path prefix
    pub api_prefix: Option<PrefixArg>,
    /// Access key
    pub token: Option<String>,
    /// Application name that owns the drawn elements
    pub app: Option<String>,
    /// HTTP request timeout in milliseconds
    pub http_timeout: Option<u64>,
    /// Directory holding template directories
    pub template_dir: Option<String>,
    /// Emit machine-readable JSON
    pub json: bool,
    /// Print the payload that would be sent, and send nothing
    pub dry_run: bool,
    /// Suppress warnings
    pub quiet: bool,
}

/// `busy text`.
#[derive(Debug, Clone, Default)]
pub struct TextArgs {
    /// The message. `-` reads stdin.
    pub message: String,
    pub style: StyleArgs,
    pub placement: PlacementArgs,
    pub scroll: ScrollArgs,
    pub delivery: DeliveryArgs,
    /// Hide the element at this time: RFC 3339, or Unix seconds
    pub until: Option<String>,
}

#[derive(Debug, Clone, Default)]
pub struct StyleArgs {
    pub font: Option<FontArg>,
    /// Colour: #RRGGBBAA, #RRGGBB, #RGB, 0x-prefixed, bare hex, or a name
    pub color: Option<String>,
}

#[derive(Debug, Clone, Default)]
pub struct PlacementArgs {
    pub x: Option<i16>,
    pub y: Option<i16>,
    /// Anchor point, used together with -x/-y rather than instead of them
    pub align: Option<AlignArg>,
    pub screen: Option<ScreenArg>,
}

#[derive(Debug, Clone, Default)]
pub struct ScrollArgs {
    /// Width of the label in pixels
    pub width: Option<u16>,
    /// Scroll rate in pixels per minute
    pub scroll_rate: Option<u32>,
    /// Milliseconds before scrolling starts
    pub scroll_start_delay: Option<u32>,
    /// Milliseconds between scroll cycles
    pub scroll_repeat_delay: Option<u32>,
}

#[derive(Debug, Clone, Default)]
pub struct DeliveryArgs {
    /// 1-100, or low|normal|high|urgent
    pub priority: Option<String>,
    /// Seconds the element stays on screen (0 = forever)
    pub timeout: Option<u32>,
    /// Blink the status LED this colour
    pub led: Option<String>,
    /// Element id, so repeat invocations update in place
    pub id: Option<String>,
    /// Compose onto what is already on screen instead of replacing it
    pub keep: bool,
}

#[derive(Debug, Clone, Copy, PartialEq, Eq)]
pub enum FontArg {
    Tiny,
    Small,
    Normal,
    Condensed,
    Bold,
    Large,
    ExtraLarge,
    Global,
}

#[derive(Debug, Clone, Copy, PartialEq, Eq)]
pub enum AlignArg {
    TopLeft,
    TopMid,
    TopRight,
    MidLeft,
    Center,
    MidRight,
    BottomLeft,
    BottomMid,
    BottomRight,
}

#[derive(Debug, Clone, Copy, PartialEq, Eq)]
pub enum ScreenArg {
    Front,
    Back,
}

#[derive(Debug, Clone, Copy, PartialEq, Eq)]
pub enum PrefixArg {
    Device,
    Cloud,
}

} // verus!
