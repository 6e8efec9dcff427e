use busy::cmd::template::{list_report, show_report};
use busy::template::missing_template;
use busy::template::discover::{root, sort_names, suggest, validate_name};
use busy::template::render::{analyse, escape, render, substitution_text};
use busy::template::validate::{offline, referenced_assets, Report};
use busy::template::{bind_variables, sanitize_values, Template, TemplateFile, Vars};
use busy::model::{
    Color, DisplayElement, DisplayElements, ElementKind, Font, ImageElement, ImageSource,
    RectangleElement, TextElement,
};

fn vars(pairs: &[(&str, &str)]) -> Vars {
    let mut v = Vars::new();
    for (k, val) in pairs {
        v.insert((*k).to_owned(), (*val).to_owned());
    }
    v
}

#[test]
fn a_name_with_a_path_separator_is_rejected() {
    for bad in ["../etc", "a/b", "/abs", ".."] {
        assert!(validate_name(bad).is_err(), "{bad:?} should be rejected");
    }
}

#[test]
fn ordinary_names_are_accepted() {
    for good in ["error", "ok", "build-status", "deploy_v2", "a.b"] {
        assert!(validate_name(good).is_ok(), "{good:?} should be accepted");
    }
}

#[test]
fn the_flag_wins_over_the_default_root() {
    let chosen = root(Some("/tmp/elsewhere"));
    assert_eq!(chosen, Some("/tmp/elsewhere".to_owned()));
}

#[test]
fn suggest_finds_a_near_match_and_ignores_a_distant_one() {
    let names = vec!["error".to_owned(), "ok".to_owned()];
    assert_eq!(suggest("eror", &names), Some("error".to_owned()));
    assert_eq!(suggest("wildly-different", &names), None);
}

#[test]
fn a_bad_name_is_explained() {
    let error = validate_name("a/b").expect_err("should reject");
    assert_eq!(
        error.message(),
        "`a/b` is not a usable template name: use only letters, digits, dot, underscore, or hyphen."
    );
    assert!(validate_name(".").is_err());
    assert!(validate_name("").is_err());
}

#[test]
fn suggest_prefers_the_nearest_and_the_first_of_equals() {
    let names = vec!["deploy".to_owned(), "delay".to_owned(), "deplot".to_owned()];
    assert_eq!(suggest("deploi", &names), Some("deploy".to_owned()));
    assert_eq!(suggest("anything", &[]), None);
    let long = vec!["notification".to_owned()];
    assert_eq!(suggest("notifcaton", &long), Some("notification".to_owned()));
}

#[test]
fn the_positional_binds_to_message() {
    let bound = bind_variables(Some("Build failed"), &[]).expect("should bind");
    assert_eq!(bound.get("message").map(String::as_str), Some("Build failed"));
}

#[test]
fn var_pairs_are_parsed_and_may_contain_equals_signs() {
    let bound = bind_variables(None, &["code=500".to_owned(), "url=a=b".to_owned()])
        .expect("should bind");
    assert_eq!(bound.get("code").map(String::as_str), Some("500"));
    assert_eq!(bound.get("url").map(String::as_str), Some("a=b"));
}

#[test]
fn a_var_without_an_equals_sign_is_a_usage_error() {
    let error = bind_variables(None, &["justakey".to_owned()])
        .expect_err("should reject")
        .message();
    assert!(error.contains("justakey"), "got {error}");
    assert!(error.contains("k=v"), "should show the form, got {error}");
}

#[test]
fn supplying_the_message_twice_is_an_error() {
    let error = bind_variables(Some("one"), &["message=two".to_owned()])
        .expect_err("should reject")
        .message();
    assert!(error.contains("message"), "got {error}");
}

#[test]
fn an_empty_variable_name_is_refused_and_a_later_pair_wins() {
    let error = bind_variables(None, &["=x".to_owned()]).expect_err("should reject");
    assert_eq!(error.message(), "`--var =x` has an empty variable name.");
    assert_eq!(error.exit_code(), 2);
    let bound = bind_variables(None, &["a=1".to_owned(), "a=2".to_owned(), "b=".to_owned()])
        .expect("should bind");
    assert_eq!(bound.get("a").map(String::as_str), Some("2"));
    assert_eq!(bound.get("b").map(String::as_str), Some(""));
    assert_eq!(bound.len(), 2);
    assert!(!bound.contains_key("c"));
}

#[test]
fn sanitizing_values_reports_a_change() {
    let mut plain = vars(&[("a", "x"), ("b", "y")]);
    assert!(!sanitize_values(&mut plain));
    let mut fancy = vars(&[("a", "x"), ("b", "\u{201c}hi\u{201d}")]);
    assert!(sanitize_values(&mut fancy));
    assert_eq!(fancy.get("b").map(String::as_str), Some("\"hi\""));
    assert_eq!(fancy.get("a").map(String::as_str), Some("x"));
}

#[test]
fn a_quote_in_a_value_cannot_break_the_document() {
    let out = render("t", r#"text = "{{ message }}""#, &vars(&[("message", "He said \"hi\"")]))
        .expect("should render");
    assert_eq!(out, r#"text = "He said \"hi\"""#);
    toml::from_str::<toml::Value>(&out).expect("escaped output must be valid TOML");
}

#[test]
fn backslashes_and_control_characters_are_escaped() {
    let out = render("t", r#"text = "{{ message }}""#, &vars(&[("message", "a\\b\nc\td")]))
        .expect("should render");
    assert_eq!(out, r#"text = "a\\b\nc\td""#);
    toml::from_str::<toml::Value>(&out).expect("must be valid TOML");
}

#[test]
fn escape_spells_other_control_characters_as_unicode_escapes() {
    assert_eq!(escape("a\u{1b}b\r"), "a\\u001bb\\r");
    assert_eq!(escape("plain 42"), "plain 42");
}

#[test]
fn a_numeric_field_passes_through_untouched() {
    let out = render("t", "x = {{ pos }}", &vars(&[("pos", "4")])).expect("should render");
    assert_eq!(out, "x = 4");
}

#[test]
fn the_safe_filter_opts_out_of_escaping() {
    let out = render("t", r#"raw = {{ value | safe }}"#, &vars(&[("value", "[1, 2]")]))
        .expect("should render");
    assert_eq!(out, "raw = [1, 2]");
}

#[test]
fn a_missing_variable_is_an_error_not_an_empty_string() {
    let error = render("greet", r#"text = "{{ message }}""#, &vars(&[]))
        .expect_err("should fail")
        .message();
    assert!(error.contains("greet"), "should name the template, got {error}");
}

#[test]
fn analyse_reports_the_variables_a_template_references() {
    let found = analyse(
        "t",
        r#"text = "{{ message }}"
x = {{ pos }}"#,
    )
    .expect("should analyse");
    assert_eq!(found, vec!["message".to_owned(), "pos".to_owned()]);
}

#[test]
fn analyse_sorts_and_does_not_repeat() {
    let found = analyse("t", "{{ zeta }} {{ alpha }} {{ mid }} {{ alpha }}").expect("should analyse");
    assert_eq!(found, vec!["alpha".to_owned(), "mid".to_owned(), "zeta".to_owned()]);
}

#[test]
fn inheritance_constructs_are_rejected() {
    for bad in [
        "{% include 'other.toml' %}",
        "{% import 'x.toml' as x %}",
        "{% from 'x.toml' import y %}",
        "{% extends 'base.toml' %}",
    ] {
        let error = analyse("t", bad)
            .expect_err(&format!("{bad} should be rejected"))
            .message();
        assert!(error.contains("self-contained"), "should explain why, got {error}");
    }
}

#[test]
fn a_compact_include_is_rejected_too() {
    let error = render("t", "{%include 'x' %}", &vars(&[])).expect_err("should reject");
    assert!(error.message().starts_with("template `t` uses `{% include %}`"), "got {}", error.message());
}

#[test]
fn a_syntax_error_names_the_template() {
    let error = analyse("broken", "text = \"{{ unclosed \"")
        .expect_err("should fail")
        .message();
    assert!(error.contains("broken"), "got {error}");
    assert!(error.starts_with("template `broken`: "), "got {error}");
}

#[test]
fn report_is_ok_iff_it_has_no_errors() {
    assert!(Report::default().is_ok());
    let with_a_warning_only = Report { errors: Vec::new(), warnings: vec!["fyi".to_owned()] };
    assert!(with_a_warning_only.is_ok(), "warnings do not block a draw");
    let with_an_error = Report { errors: vec!["bad".to_owned()], warnings: Vec::new() };
    assert!(!with_an_error.is_ok());
}

fn text_element(id: &str) -> DisplayElement {
    DisplayElement {
        id: id.to_owned(),
        lifetime: None,
        x: None,
        y: None,
        display: None,
        align: None,
        kind: ElementKind::Text(TextElement {
            text: "hi".to_owned(),
            font: Font::Small,
            color: None,
            width: None,
            scroll_rate: None,
            scroll_start_delay: None,
            scroll_repeat_delay: None,
        }),
    }
}

fn image_element(id: &str, source: ImageSource) -> DisplayElement {
    DisplayElement {
        kind: ElementKind::Image(ImageElement { source, opacity: None }),
        ..text_element(id)
    }
}

fn payload(elements: Vec<DisplayElement>) -> DisplayElements {
    DisplayElements {
        application_name: "busy".to_owned(),
        priority: None,
        led_notification_color: None,
        elements,
    }
}

#[test]
fn duplicate_element_ids_are_an_error() {
    let report = offline(&payload(vec![text_element("a"), text_element("a"), text_element("b")]), "/x", &[]);
    assert_eq!(report.errors.len(), 1, "got {:?}", report.errors);
    assert_eq!(
        report.errors[0],
        "duplicate element id `a`: 2 elements share it. Ids are the handle for `--keep` updates, so a template's own elements would overwrite each other."
    );
}

#[test]
fn a_referenced_local_file_that_is_missing_is_an_error() {
    let p = payload(vec![
        image_element("icon", ImageSource::Asset { path: "stop.png".to_owned() }),
        image_element("ok", ImageSource::Asset { path: "go.png".to_owned() }),
        image_element("stock", ImageSource::Stock { stock_path: "shared/checkmark_front_8x8.image".to_owned() }),
    ]);
    assert_eq!(referenced_assets(&p), vec!["stop.png".to_owned(), "go.png".to_owned()]);
    let report = offline(&p, "/tmp/dir", &[false, true]);
    assert_eq!(report.errors, vec!["references `stop.png`, which is not in /tmp/dir.".to_owned()]);
}

#[test]
fn a_template_file_becomes_a_payload_with_the_app_name_supplied() {
    let file = TemplateFile {
        description: Some("an example".to_owned()),
        priority: Some(42),
        led_notification_color: None,
        elements: vec![text_element("message")],
    };
    let p = file.into_payload("busy").expect("should build");
    assert_eq!(p.application_name, "busy");
    assert_eq!(p.priority, Some(42));
    assert_eq!(p.elements.len(), 1);
    let bad = TemplateFile { description: None, priority: None, led_notification_color: None, elements: vec![] };
    let error = bad.into_payload("no spaces").expect_err("should reject");
    assert_eq!(
        error.message(),
        "invalid --app: invalid application name `no spaces`: expected one or more of [a-zA-Z0-9._-]"
    );
}

#[test]
fn required_variables_delegates_to_analyse() {
    let template = Template {
        name: "greet".to_owned(),
        dir: "/t/greet".to_owned(),
        source: "text = \"{{ message }}\"\n".to_owned(),
    };
    assert_eq!(template.required_variables().expect("should analyse"), vec!["message".to_owned()]);
}

#[test]
fn element_kinds_this_project_does_not_model_survive_the_round_trip() {
    let bar = DisplayElement {
        kind: ElementKind::Rectangle(RectangleElement {
            width: 40,
            height: 4,
            radius: None,
            fill: None,
            fill_colors: None,
            border_width: None,
            border_color: None,
        }),
        ..text_element("bar")
    };
    let file = TemplateFile { description: None, priority: None, led_notification_color: None, elements: vec![bar.clone()] };
    let p = file.into_payload("busy").expect("should build");
    assert_eq!(p.elements, vec![bar]);
}

#[test]
fn led_notification_color_round_trips_into_the_payload() {
    let file = TemplateFile {
        description: None,
        priority: None,
        led_notification_color: Some(Color::rgba(0, 0, 0xff, 0xff)),
        elements: vec![],
    };
    let p = file.into_payload("busy").expect("should build");
    assert_eq!(p.led_notification_color.map(|c| c.to_hex_string()), Some("#0000FFFF".to_owned()));
}

#[test]
fn a_stock_path_is_never_treated_as_a_local_file() {
    let p = payload(vec![image_element(
        "icon",
        ImageSource::Stock { stock_path: "shared/checkmark_front_8x8.image".to_owned() },
    )]);
    let report = offline(&p, "/nonexistent", &[]);
    assert!(report.errors.is_empty(), "got {:?}", report.errors);
    assert!(referenced_assets(&p).is_empty());
}

#[test]
fn referenced_assets_lists_only_local_image_paths() {
    let p = payload(vec![
        image_element("a", ImageSource::Asset { path: "stop.png".to_owned() }),
        text_element("b"),
    ]);
    assert_eq!(referenced_assets(&p), vec!["stop.png".to_owned()]);
}

#[test]
fn bounds_warnings_come_free_from_the_existing_validator() {
    let mut far = text_element("m");
    far.x = Some(900);
    far.y = Some(0);
    far.align = Some(busy::model::Align::TopLeft);
    let report = offline(&payload(vec![far]), "/nonexistent", &[]);
    assert!(report.warnings.iter().any(|w| w.contains("outside")), "got {:?}", report.warnings);
}

#[test]
fn a_missing_template_is_named_with_a_hint() {
    let installed = vec!["error".to_owned(), "ok".to_owned()];
    assert_eq!(missing_template("eror", &installed).message(), "no template named `eror`. Did you mean `error`?");
    assert_eq!(missing_template("zzzzzzzz", &installed).message(), "no template named `zzzzzzzz`. Available: error, ok.");
    assert_eq!(
        missing_template("x", &Vec::new()).message(),
        "no template named `x`. No templates are installed; run `busy template init`."
    );
}

#[test]
fn list_and_show_reports_read_as_documented() {
    let rows = vec![("error".to_owned(), "a failure".to_owned()), ("ok".to_owned(), String::new())];
    assert_eq!(list_report("/t", &rows), "error\ta failure\nok\t\n2 template(s)");
    assert_eq!(list_report("/t", &Vec::new()), "no templates in /t; run `busy template init` to write the examples");
    assert_eq!(
        show_report("error", Some("a failure"), 2, &vec!["message".to_owned(), "pos".to_owned()], "/t/error"),
        "error\n  a failure\n  2 element(s)\n  variables mentioned: message, pos\n  /t/error"
    );
    assert_eq!(show_report("ok", None, 1, &Vec::new(), "/t/ok"), "ok\n  1 element(s)\n  no variables\n  /t/ok");
}

#[test]
fn the_delete_character_is_escaped_and_reads_back() {
    assert_eq!(escape("\u{7f}"), "\\u007f");
    assert_eq!(escape("a\u{7f}b"), "a\\u007fb");
    let out = render("t", r#"text = "{{ message }}""#, &vars(&[("message", "x\u{7f}y\u{1}")]))
        .expect("should render");
    let value = toml::from_str::<toml::Value>(&out).expect("must be valid TOML");
    assert_eq!(value["text"].as_str(), Some("x\u{7f}y\u{1}"));
}

#[test]
fn only_an_unsafe_value_in_toml_mode_is_substituted_escaped() {
    assert_eq!(substitution_text(true, false, "a\"b"), Some("a\\\"b".to_owned()));
    assert_eq!(substitution_text(true, true, "a\"b"), None);
    assert_eq!(substitution_text(false, false, "a\"b"), None);
    assert_eq!(substitution_text(false, true, "plain"), None);
}

#[test]
fn a_later_pair_wins_and_the_message_key_is_bound_once() {
    let bound = bind_variables(Some("hello"), &["x=1".to_owned(), "y=a=b".to_owned(), "x=3".to_owned()])
        .expect("should bind");
    assert_eq!(bound.len(), 3);
    assert_eq!(bound.get("x").map(String::as_str), Some("3"));
    assert_eq!(bound.get("y").map(String::as_str), Some("a=b"));
    assert_eq!(bound.get("message").map(String::as_str), Some("hello"));
    let error = bind_variables(None, &["ok=1".to_owned(), "bad".to_owned(), "=x".to_owned()])
        .expect_err("the first bad pair is reported");
    assert!(error.message().starts_with("`--var bad` is not in `k=v` form"), "got {}", error.message());
}

#[test]
fn installed_names_are_listed_in_order() {
    let names = vec!["zebra".to_owned(), "alert".to_owned(), "Zulu".to_owned(), "alert".to_owned()];
    assert_eq!(sort_names(names), vec!["Zulu", "alert", "alert", "zebra"]);
    assert!(sort_names(Vec::new()).is_empty());
}
