use busy::config::world_readable_warning;
use busy::cli::{AlignArg, FontArg, GlobalArgs, PrefixArg, StyleArgs};
use busy::config::{parse_priority, resolve, resolve_align, Defaults, Env, FileConfig, FileDefaults, Settings};
use busy::model::{Align, Font, Screen};

fn settings(global: GlobalArgs, style: StyleArgs, env: Env, file: FileConfig) -> Settings {
    resolve(&global, &style, &env, &file).expect("should resolve")
}

#[test]
fn built_in_defaults_apply_when_nothing_is_set() {
    let resolved = settings(GlobalArgs::default(), StyleArgs::default(), Env::default(), FileConfig::default());
    assert_eq!(resolved.addr, "http://10.0.4.20");
    assert_eq!(resolved.app, "busy");
    assert_eq!(resolved.token, None);
    assert_eq!(resolved.api_prefix, PrefixArg::Device);
    assert_eq!(resolved.http_timeout_ms, 5000);
    assert_eq!(resolved.font, Font::Large);
    assert_eq!(resolved.color.to_hex_string(), "#FFFFFFFF");
    assert_eq!(resolved.priority, 95, "must beat a work session at 90");
}

fn file_with(defaults: FileDefaults) -> FileConfig {
    FileConfig { defaults, ..FileConfig::default() }
}

#[test]
fn the_config_file_beats_the_built_in_defaults() {
    let file = FileConfig {
        addr: Some("http://192.168.1.9".into()),
        app: Some("ci".into()),
        defaults: FileDefaults {
            font: Some("small".into()),
            align: Some("center".into()),
            color: Some("#00ff00ff".into()),
            priority: Some(50),
            ..FileDefaults::default()
        },
        ..FileConfig::default()
    };
    let resolved = settings(GlobalArgs::default(), StyleArgs::default(), Env::default(), file);
    assert_eq!(resolved.addr, "http://192.168.1.9");
    assert_eq!(resolved.app, "ci");
    assert_eq!(resolved.font, Font::Small);
    assert_eq!(resolved.color.to_hex_string(), "#00FF00FF");
    assert_eq!(resolved.priority, 50);
}

#[test]
fn the_environment_beats_the_config_file() {
    let file = FileConfig { addr: Some("http://from-file".into()), ..FileConfig::default() };
    let env = Env { addr: Some("http://from-env".into()), ..Env::default() };
    let resolved = settings(GlobalArgs::default(), StyleArgs::default(), env, file);
    assert_eq!(resolved.addr, "http://from-env");
}

#[test]
fn flags_beat_everything() {
    let file = FileConfig {
        addr: Some("http://from-file".into()),
        defaults: FileDefaults { font: Some("tiny".into()), ..FileDefaults::default() },
        ..FileConfig::default()
    };
    let env = Env { addr: Some("http://from-env".into()), ..Env::default() };
    let global = GlobalArgs { addr: Some("http://from-flag".into()), ..GlobalArgs::default() };
    let style = StyleArgs { font: Some(FontArg::Bold), ..StyleArgs::default() };
    let resolved = settings(global, style, env, file);
    assert_eq!(resolved.addr, "http://from-flag");
    assert_eq!(resolved.font, Font::Bold);
}

#[test]
fn align_resolves_from_the_flag_then_the_file_then_nothing() {
    let empty = FileConfig::default();
    let with_align = file_with(FileDefaults { align: Some("bottom_mid".into()), ..FileDefaults::default() });
    assert_eq!(resolve_align(None, &empty), Align::Center);
    assert_eq!(resolve_align(None, &with_align), Align::BottomMid, "the config file must be consulted when no flag is given");
    assert_eq!(resolve_align(Some(AlignArg::TopLeft), &with_align), Align::TopLeft, "the flag must win over the config file");
}

#[test]
fn a_malformed_align_in_the_file_falls_back_to_the_centre() {
    let file = file_with(FileDefaults { align: Some("middle".into()), ..FileDefaults::default() });
    assert_eq!(resolve_align(None, &file), Align::Center);
}

#[test]
fn priority_accepts_numbers_and_names() {
    assert_eq!(parse_priority("1").unwrap(), 1);
    assert_eq!(parse_priority("100").unwrap(), 100);
    assert_eq!(parse_priority("low").unwrap(), 10);
    assert_eq!(parse_priority("normal").unwrap(), 50);
    assert_eq!(parse_priority("high").unwrap(), 95);
    assert_eq!(parse_priority("urgent").unwrap(), 100);
    assert_eq!(parse_priority("HIGH").unwrap(), 95);
    assert_eq!(parse_priority("+42").unwrap(), 42);
    assert_eq!(parse_priority("007").unwrap(), 7);
}

#[test]
fn priority_rejects_out_of_range_and_nonsense() {
    for bad in ["0", "101", "-1", "", "medium", "256", "+", "99999999999"] {
        assert!(parse_priority(bad).is_err(), "{bad:?} should be rejected");
    }
    assert_eq!(
        parse_priority("medium").unwrap_err(),
        "invalid priority `medium`: expected 1-100, or one of low, normal, high, urgent (10, 50, 95, 100)"
    );
}

#[test]
fn a_bad_colour_in_the_config_file_is_reported() {
    let file = file_with(FileDefaults { color: Some("chartreuse".into()), ..FileDefaults::default() });
    let error = resolve(&GlobalArgs::default(), &StyleArgs::default(), &Env::default(), &file).expect_err("should reject");
    assert!(error.contains("chartreuse"), "got {error:?}");
}

#[test]
fn a_bad_font_screen_or_priority_in_the_file_is_reported() {
    let file = file_with(FileDefaults { font: Some("huge".into()), ..FileDefaults::default() });
    assert_eq!(
        resolve(&GlobalArgs::default(), &StyleArgs::default(), &Env::default(), &file).unwrap_err(),
        "invalid font `huge` in the config file: expected one of tiny, small, normal, condensed, bold, large, extra_large, global"
    );
    let file = file_with(FileDefaults { screen: Some("side".into()), ..FileDefaults::default() });
    assert_eq!(
        resolve(&GlobalArgs::default(), &StyleArgs::default(), &Env::default(), &file).unwrap_err(),
        "invalid screen `side` in the config file: expected one of front, back"
    );
    let file = file_with(FileDefaults { priority: Some(0), ..FileDefaults::default() });
    assert_eq!(
        resolve(&GlobalArgs::default(), &StyleArgs::default(), &Env::default(), &file).unwrap_err(),
        "invalid priority `0` in the config file: expected 1-100"
    );
}

#[test]
fn the_file_screen_and_timeout_apply() {
    let file = FileConfig {
        http_timeout: Some(250),
        token: Some("SECRET-REDACTED".into()),
        defaults: FileDefaults { screen: Some("back".into()), ..FileDefaults::default() },
        ..FileConfig::default()
    };
    let resolved = settings(GlobalArgs::default(), StyleArgs::default(), Env::default(), file);
    assert_eq!(resolved.screen, Screen::Back);
    assert_eq!(resolved.http_timeout_ms, 250);
    assert_eq!(resolved.token.as_deref(), Some("SECRET-REDACTED"));
}

#[test]
fn the_default_position_is_the_centre_of_each_display() {
    assert_eq!(Defaults::position(Screen::Front), (36, 8));
    assert_eq!(Defaults::position(Screen::Back), (80, 40));
}

#[test]
fn a_world_readable_config_file_is_flagged() {
    assert_eq!(
        world_readable_warning("/home/u/.config/busy/config.toml", 0o100644),
        Some("/home/u/.config/busy/config.toml is world-readable (mode 644); it may hold an access key".to_owned())
    );
    assert_eq!(world_readable_warning("/c", 0o100600), None);
}

#[test]
fn the_config_file_lives_under_busy_in_the_config_directory() {
    assert_eq!(busy::config::config_file_in("/home/u/.config"), "/home/u/.config/busy/config.toml");
    assert_eq!(busy::config::config_file_in("/home/u/.config/"), "/home/u/.config/busy/config.toml");
}
