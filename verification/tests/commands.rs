use busy::cli::{AsArg, DeliveryArgs, DrawArgs, DrawCommon, PlacementArgs, ScreenArg, TextArgs};
use busy::cmd::asset::{
    anim_upload_name, confirmed, delete_step, delete_summary, deleted_message, listing, sort_entries,
    unconfirmed, upload_name, uploaded_message, would_store, AssetEntry, DeleteStep,
};
use busy::cmd::draw::{
    apply_file_overrides, build_payload as draw_payload, kind_of, resolve, wants_template, Resolved,
};
use busy::cmd::template::{placeholder_vars, prefixed, root as template_root, validate};
use busy::cmd::text::{build_payload as text_payload, parse_until, until_from};
use busy::config::{resolve as resolve_settings, Env, FileConfig, Settings};
use busy::cli::{GlobalArgs, StyleArgs};
use busy::error::{device_error, CliError, DeviceFailure};
use busy::model::{Align, DisplayElements, ElementKind, ImageSource, Lifetime, Screen};
use busy::output::Emitter;
use busy::overrides::{
    apply, reject_animation_flags_unless_animation, reject_vars_unless_template, Kind,
};
use busy::template::validate::Report;

fn settings() -> Settings {
    resolve_settings(&GlobalArgs::default(), &StyleArgs::default(), &Env::default(), &FileConfig::default())
        .expect("defaults resolve")
}

fn text_args(message: &str) -> TextArgs {
    TextArgs { message: message.to_owned(), ..TextArgs::default() }
}

fn draw_args(name: &str) -> DrawArgs {
    DrawArgs { name: Some(name.to_owned()), ..DrawArgs::default() }
}

fn empty_payload() -> DisplayElements {
    DisplayElements {
        application_name: "busy".to_owned(),
        priority: Some(42),
        led_notification_color: None,
        elements: Vec::new(),
    }
}

#[test]
fn text_is_centred_on_the_front_panel_by_default() {
    let p = text_payload(&text_args("hi"), &settings(), &FileConfig::default(), "hi").expect("should build");
    assert_eq!(p.application_name, "busy");
    assert_eq!(p.priority, Some(95));
    assert_eq!(p.elements.len(), 1);
    let e = &p.elements[0];
    assert_eq!(e.id, "message");
    assert_eq!((e.x, e.y), (Some(36), Some(8)));
    assert_eq!(e.display, Some(Screen::Front));
    assert_eq!(e.align, Some(Align::Center));
    match &e.kind {
        ElementKind::Text(t) => assert_eq!(t.text, "hi"),
        other => panic!("expected text, got {other:?}"),
    }
}

#[test]
fn the_back_panel_centre_is_the_default_there() {
    let mut args = text_args("hi");
    args.placement = PlacementArgs { screen: Some(ScreenArg::Back), ..PlacementArgs::default() };
    let p = text_payload(&args, &settings(), &FileConfig::default(), "hi").expect("should build");
    assert_eq!((p.elements[0].x, p.elements[0].y), (Some(80), Some(40)));
}

#[test]
fn smart_punctuation_is_transliterated_in_the_payload() {
    let p = text_payload(&text_args("x"), &settings(), &FileConfig::default(), "it\u{2019}s \u{2014} done")
        .expect("should build");
    match &p.elements[0].kind {
        ElementKind::Text(t) => assert_eq!(t.text, "it's - done"),
        other => panic!("expected text, got {other:?}"),
    }
}

#[test]
fn a_message_with_nothing_printable_is_refused() {
    let error = text_payload(&text_args("x"), &settings(), &FileConfig::default(), "\u{1f600}")
        .expect_err("should refuse");
    assert_eq!(error.exit_code(), 2);
    assert!(error.message().starts_with("the message contains nothing printable on this device: \"\u{1f600}\"\n"), "got {}", error.message());
}

#[test]
fn priority_flags_and_bad_values_are_reported() {
    let mut args = text_args("hi");
    args.delivery = DeliveryArgs { priority: Some("urgent".to_owned()), ..DeliveryArgs::default() };
    let p = text_payload(&args, &settings(), &FileConfig::default(), "hi").expect("should build");
    assert_eq!(p.priority, Some(100));
    args.delivery.priority = Some("0".to_owned());
    let error = text_payload(&args, &settings(), &FileConfig::default(), "hi").expect_err("should refuse");
    assert!(error.message().starts_with("invalid priority `0`"), "got {}", error.message());
    let mut odd = settings();
    odd.priority = 0;
    let error = text_payload(&text_args("hi"), &odd, &FileConfig::default(), "hi").expect_err("should refuse");
    assert_eq!(
        error.message(),
        "invalid --priority: invalid draw priority `0`: expected a value between 1 and 100"
    );
}

#[test]
fn a_bad_id_and_a_bad_app_are_usage_errors() {
    let mut args = text_args("hi");
    args.delivery.id = Some("has space".to_owned());
    let error = text_payload(&args, &settings(), &FileConfig::default(), "hi").expect_err("should refuse");
    assert_eq!(
        error.message(),
        "invalid --id: invalid element id `has space`: expected one or more of [a-zA-Z0-9._-]"
    );
    let mut odd = settings();
    odd.app = "".to_owned();
    let error = text_payload(&text_args("hi"), &odd, &FileConfig::default(), "hi").expect_err("should refuse");
    assert!(error.message().starts_with("invalid --app: "), "got {}", error.message());
}

#[test]
fn until_accepts_unix_seconds_and_rfc3339() {
    assert_eq!(parse_until("1700000000").expect("seconds"), 1_700_000_000);
    assert_eq!(parse_until("1970-01-01T00:01:00Z").expect("rfc3339"), 60);
    let error = parse_until("1969-12-31T23:59:59Z").expect_err("before the epoch");
    assert_eq!(error.message(), "invalid --until `1969-12-31T23:59:59Z`: predates 1970");
    let error = parse_until("tomorrow").expect_err("not a time");
    assert!(error.message().starts_with("invalid --until `tomorrow`: expected Unix seconds or an RFC 3339 timestamp such as 2026-08-09T17:30:00Z ("), "got {}", error.message());
}

#[test]
fn until_from_decides_on_the_parsed_instant() {
    assert_eq!(until_from("x", Ok(5)).expect("ok"), 5);
    assert_eq!(until_from("42", Ok(5)).expect("ok"), 42);
    assert_eq!(until_from("x", Err("bad".to_owned())).expect_err("err").message(),
        "invalid --until `x`: expected Unix seconds or an RFC 3339 timestamp such as 2026-08-09T17:30:00Z (bad)");
}

#[test]
fn until_sets_the_lifetime_and_timeout_wins() {
    let mut args = text_args("hi");
    args.until = Some("120".to_owned());
    let p = text_payload(&args, &settings(), &FileConfig::default(), "hi").expect("should build");
    assert_eq!(p.elements[0].lifetime, Some(Lifetime::DisplayUntil { display_until: 120 }));
    args.delivery.timeout = Some(30);
    let p = text_payload(&args, &settings(), &FileConfig::default(), "hi").expect("should build");
    assert_eq!(p.elements[0].lifetime, Some(Lifetime::Timeout { timeout: 30 }));
}

#[test]
fn a_shared_prefix_resolves_to_stock_not_an_asset() {
    assert_eq!(resolve(&draw_args("shared/clock.image")).expect("ok"), Resolved::Stock("shared/clock.image".to_owned()));
    assert_eq!(resolve(&draw_args("logo.png")).expect("ok"), Resolved::Asset("logo.png".to_owned()));
}

#[test]
fn as_forces_the_interpretation() {
    let mut args = draw_args("logo.png");
    args.as_kind = Some(AsArg::Stock);
    let error = resolve(&args).expect_err("not a stock path");
    assert_eq!(error.exit_code(), 2);
    assert!(error.message().starts_with("`logo.png` is not a valid stock path: "), "got {}", error.message());
    let mut args = draw_args("shared/clock.image");
    args.as_kind = Some(AsArg::Image);
    assert_eq!(resolve(&args).expect("ok"), Resolved::Asset("shared/clock.image".to_owned()));
}

#[test]
fn draw_with_no_name_is_an_error() {
    let error = resolve(&DrawArgs::default()).expect_err("no name");
    assert_eq!(error.message(), "`busy draw` needs a name or --file; see `busy draw --help`");
}

#[test]
fn the_element_id_defaults_to_image_and_opacity_is_checked() {
    let mut args = draw_args("logo.png");
    args.common.opacity = Some(50);
    let resolved = resolve(&args).expect("ok");
    let p = draw_payload(&args, &settings(), &FileConfig::default(), &resolved).expect("should build");
    assert_eq!(p.elements[0].id, "image");
    match &p.elements[0].kind {
        ElementKind::Image(i) => {
            assert_eq!(i.opacity, Some(50));
            assert_eq!(i.source, ImageSource::Asset { path: "logo.png".to_owned() });
        }
        other => panic!("expected an image, got {other:?}"),
    }
    args.common.opacity = Some(101);
    let error = draw_payload(&args, &settings(), &FileConfig::default(), &resolved).expect_err("out of range");
    assert_eq!(error.message(), "invalid --opacity: invalid opacity `101`: expected a percentage between 0 and 100");
}

#[test]
fn an_anim_is_drawn_as_an_animation_and_loop_replays_it() {
    let mut args = draw_args("horse.anim");
    args.common.repeat = true;
    args.common.section = Some("walk".to_owned());
    let resolved = resolve(&args).expect("ok");
    let p = draw_payload(&args, &settings(), &FileConfig::default(), &resolved).expect("should build");
    match &p.elements[0].kind {
        ElementKind::Animation(a) => {
            assert_eq!(a.repeat, Some(true));
            assert_eq!(a.section.as_deref(), Some("walk"));
        }
        other => panic!("expected an animation, got {other:?}"),
    }
    assert!(reject_animation_flags_unless_animation(&args, Kind::Animation).is_ok());
}

#[test]
fn file_overrides_replace_priority_and_refuse_placement() {
    let mut args = DrawArgs::default();
    args.common.delivery.priority = Some("low".to_owned());
    args.common.delivery.led = Some("red".to_owned());
    let p = apply_file_overrides(empty_payload(), &args).expect("should apply");
    assert_eq!(p.priority, Some(10));
    assert_eq!(p.led_notification_color.map(|c| c.to_hex_string()), Some("#FF0000FF".to_owned()));
    let untouched = apply_file_overrides(empty_payload(), &DrawArgs::default()).expect("nothing to do");
    assert_eq!(untouched.priority, Some(42));
    args.common.placement.x = Some(3);
    let error = apply_file_overrides(empty_payload(), &args).expect_err("per-element");
    assert_eq!(error.message(), "-x/--x cannot be used with --file: it applies to a single element, but a payload file may hold several. Edit the file's own fields instead.");
}

#[test]
fn a_template_refuses_per_element_flags_but_takes_priority() {
    let mut args = DrawArgs::default();
    args.common.delivery.priority = Some("high".to_owned());
    let p = apply(empty_payload(), &args, Kind::Template).expect("should apply");
    assert_eq!(p.priority, Some(95));
    args.common.opacity = Some(10);
    let error = apply(empty_payload(), &args, Kind::Template).expect_err("per-element");
    assert_eq!(error.message(), "--opacity cannot be used with a template: it applies to a single element, but a template may hold several. Edit the template, or expose the value as a `{{ variable }}`.");
    let same = apply(empty_payload(), &args, Kind::Image).expect("an image builds from flags");
    assert_eq!(same.priority, Some(42));
}

#[test]
fn loop_and_section_are_refused_off_an_animation() {
    let mut args = DrawArgs::default();
    args.common.repeat = true;
    let error = reject_animation_flags_unless_animation(&args, Kind::Image).expect_err("no frames");
    assert_eq!(error.message(), "--loop cannot be used with an image draw: only a `.anim` animation has frames to play.");
    args.common.repeat = false;
    args.common.section = Some("a".to_owned());
    let error = reject_animation_flags_unless_animation(&args, Kind::File).expect_err("ambiguous");
    assert_eq!(error.message(), "--section cannot be used with a --file payload: an animation element inside it carries its own, and this cannot say which element it meant.");
}

#[test]
fn vars_only_go_with_a_template() {
    let mut args = DrawArgs::default();
    args.common.vars = vec!["a=b".to_owned()];
    assert!(reject_vars_unless_template(&args, Kind::Template).is_ok());
    let error = reject_vars_unless_template(&args, Kind::Stock).expect_err("not a template");
    assert_eq!(error.message(), "--var cannot be used with an image draw: variables are substituted into a template, and this is not one.");
    let _ = DrawCommon::default();
}

#[test]
fn entries_are_listed_in_name_order() {
    let entries = vec![
        AssetEntry { name: "zeta.png".to_owned(), size: Some(10), is_dir: false },
        AssetEntry { name: "alpha".to_owned(), size: None, is_dir: true },
        AssetEntry { name: "mid.png".to_owned(), size: None, is_dir: false },
    ];
    let sorted = sort_entries(entries);
    let names: Vec<&str> = sorted.iter().map(|e| e.name.as_str()).collect();
    assert_eq!(names, vec!["alpha", "mid.png", "zeta.png"]);
    assert_eq!(listing("busy", &sorted), "alpha/\t0\nmid.png\t0\nzeta.png\t10\n3 asset(s)");
    assert_eq!(listing("busy", &Vec::new()), "no assets for `busy`");
}

#[test]
fn deleting_shows_what_goes_and_needs_a_yes() {
    let entries = vec![
        AssetEntry { name: "logo.png".to_owned(), size: Some(10), is_dir: false },
        AssetEntry { name: "old".to_owned(), size: None, is_dir: true },
    ];
    let summary = delete_summary("busy", &entries);
    assert_eq!(summary, "this deletes ALL 2 asset(s) for `busy`: logo.png, old/");
    assert_eq!(unconfirmed(&summary).message(), format!("{summary}\nRefusing to delete without confirmation. Re-run with --yes."));
    for yes in ["y", "YES", " Yes \n"] {
        assert!(confirmed(yes), "{yes:?}");
    }
    for no in ["", "n", "yeah", "y e s"] {
        assert!(!confirmed(no), "{no:?}");
    }
}

#[test]
fn an_upload_is_stored_as_png_under_its_stem() {
    assert_eq!(upload_name("./photos/horse.jpeg").expect("ok"), "horse.png");
    assert_eq!(upload_name("logo.png").expect("ok"), "logo.png");
    let error = upload_name("my logo.png").expect_err("space");
    assert!(error.message().starts_with("`my logo.png` is not a usable asset name: "), "got {}", error.message());
    assert_eq!(upload_name("/").expect_err("no stem").message(), "/ has no usable file name");
}

#[test]
fn template_validation_sums_up_reports() {
    let checked = vec![
        ("ok".to_owned(), Report { errors: vec![], warnings: vec!["careful".to_owned()] }),
        ("bad".to_owned(), Report { errors: vec!["one".to_owned(), "two".to_owned()], warnings: vec![] }),
    ];
    let v = validate(&checked, false);
    assert_eq!(v.warnings, vec!["ok: careful".to_owned()]);
    let error = v.outcome.expect_err("has errors");
    assert_eq!(error.message(), "bad: one\nbad: two");
    let good = vec![("ok".to_owned(), Report::default())];
    let v = validate(&good, true);
    assert_eq!(v.outcome.expect("fine"), "1 template(s) OK");
    assert_eq!(v.warnings.len(), 1);
    assert_eq!(validate(&Vec::new(), false).outcome.expect("fine"), "no templates to validate");
    assert_eq!(prefixed("t", &vec!["a".to_owned()]), vec!["t: a".to_owned()]);
    let vars = placeholder_vars(&vec!["message".to_owned(), "pos".to_owned()]);
    assert_eq!(vars.get("pos").map(String::as_str), Some("x"));
    assert_eq!(template_root(Some("/t")).expect("given"), "/t");
}

#[test]
fn warnings_are_held_under_json_and_dropped_under_quiet() {
    let mut plain = Emitter::new(false, false);
    assert_eq!(plain.warn("careful"), Some("busy: warning: careful".to_owned()));
    let mut quiet = Emitter::new(false, true);
    assert_eq!(quiet.warn("careful"), None);
    assert_eq!(quiet.warn_always("important"), Some("busy: warning: important".to_owned()));
    let mut json = Emitter::new(true, false);
    assert_eq!(json.warn("one"), None);
    assert_eq!(json.warn_always("two"), None);
    assert_eq!(json.take_warnings(), vec!["one".to_owned(), "two".to_owned()]);
    assert!(json.take_warnings().is_empty());
}

#[test]
fn a_priority_conflict_names_the_priority_and_the_config_file() {
    let error = device_error(DeviceFailure::Conflict, None, None);
    assert_eq!(error.exit_code(), 1);
    match &error {
        CliError::PriorityConflict { requested, config } => {
            assert_eq!(*requested, 95);
            assert_eq!(config, "~/.config/busy/config.toml");
        }
        other => panic!("expected a conflict, got {other:?}"),
    }
    assert!(error.message().contains("(priority 95)"), "got {}", error.message());
    let error = device_error(DeviceFailure::Unauthorized("401".to_owned()), Some(10), None);
    assert!(error.message().starts_with("401\nThe bar requires an access key."), "got {}", error.message());
    let error = device_error(DeviceFailure::Other("down: refused".to_owned()), None, None);
    assert_eq!(error, CliError::Runtime("down: refused".to_owned()));
}

fn two_entries() -> Vec<AssetEntry> {
    vec![
        AssetEntry { name: "logo.png".to_owned(), size: Some(10), is_dir: false },
        AssetEntry { name: "old".to_owned(), size: None, is_dir: true },
    ]
}

#[test]
fn delete_decides_from_the_listing_the_flags_and_the_terminal() {
    let summary = "this deletes ALL 2 asset(s) for `busy`: logo.png, old/";
    match delete_step("busy", &Vec::new(), false, true, true) {
        DeleteStep::NoAssets(m) => assert_eq!(m, "no assets for `busy`"),
        other => panic!("expected no assets, got {other:?}"),
    }
    match delete_step("busy", &two_entries(), true, false, false) {
        DeleteStep::WouldDelete(m) => assert_eq!(m, format!("would delete: {summary}")),
        other => panic!("expected a dry run, got {other:?}"),
    }
    match delete_step("busy", &two_entries(), false, false, false) {
        DeleteStep::Refuse(e) => {
            assert_eq!(e.exit_code(), 2);
            assert_eq!(e.message(), format!("{summary}\nRefusing to delete without confirmation. Re-run with --yes."));
        }
        other => panic!("expected a refusal, got {other:?}"),
    }
    match delete_step("busy", &two_entries(), false, false, true) {
        DeleteStep::Ask(m) => assert_eq!(m, summary),
        other => panic!("expected a question, got {other:?}"),
    }
    match delete_step("busy", &two_entries(), false, true, false) {
        DeleteStep::Delete(m) => assert_eq!(m, summary),
        other => panic!("expected a deletion, got {other:?}"),
    }
    assert_eq!(deleted_message(2), "deleted 2 asset(s)");
    assert_eq!(deleted_message(0), "deleted 0 asset(s)");
}

#[test]
fn an_answer_read_from_a_terminal_line_still_agrees() {
    assert!(confirmed("y\n"));
    assert!(confirmed("yes\r\n"));
    assert!(!confirmed("no\n"));
}

#[test]
fn an_animation_keeps_its_own_name_and_reports_its_sections() {
    assert_eq!(anim_upload_name("./clips/horse.anim").expect("ok"), "horse.anim");
    assert_eq!(anim_upload_name("/").expect_err("no name").message(), "/ has no usable file name");
    let error = anim_upload_name("my horse.anim").expect_err("space");
    assert!(error.message().starts_with("`my horse.anim` is not a usable asset name: "), "got {}", error.message());
    assert_eq!(would_store(1234, "horse.anim"), "would upload 1234 bytes as `horse.anim`");
    assert_eq!(uploaded_message("horse.anim", &Vec::new()), "uploaded `horse.anim`");
    assert_eq!(
        uploaded_message("horse.anim", &vec!["gallop".to_owned(), "rest".to_owned()]),
        "uploaded `horse.anim`; sections: gallop, rest"
    );
}

#[test]
fn entries_of_the_same_name_keep_their_order() {
    let entries = vec![
        AssetEntry { name: "b".to_owned(), size: Some(1), is_dir: false },
        AssetEntry { name: "a".to_owned(), size: Some(2), is_dir: false },
        AssetEntry { name: "b".to_owned(), size: Some(3), is_dir: false },
        AssetEntry { name: "a".to_owned(), size: Some(4), is_dir: false },
    ];
    let sizes: Vec<Option<u64>> = sort_entries(entries).iter().map(|e| e.size).collect();
    assert_eq!(sizes, vec![Some(2), Some(4), Some(1), Some(3)]);
}

#[test]
fn a_named_draw_renders_a_template_only_where_one_is_meant() {
    let plain = draw_args("greet");
    assert!(wants_template(&plain, true));
    assert!(!wants_template(&plain, false));
    assert!(!wants_template(&draw_args("shared/greet"), true));
    assert!(!wants_template(&draw_args("../greet"), true));
    let mut forced = draw_args("greet");
    forced.as_kind = Some(AsArg::Template);
    assert!(wants_template(&forced, false));
    forced.as_kind = Some(AsArg::Image);
    assert!(!wants_template(&forced, true));
    assert!(!wants_template(&DrawArgs::default(), true));
}

#[test]
fn the_kind_follows_the_suffix_then_the_namespace() {
    assert_eq!(kind_of(&Resolved::Asset("horse.anim".to_owned())), Kind::Animation);
    assert_eq!(kind_of(&Resolved::Stock("shared/spin.anim".to_owned())), Kind::Animation);
    assert_eq!(kind_of(&Resolved::Asset("logo.png".to_owned())), Kind::Image);
    assert_eq!(kind_of(&Resolved::Stock("shared/checkmark_front_8x8.image".to_owned())), Kind::Stock);
}
