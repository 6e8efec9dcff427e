use busy::sanitize::to_ascii;

#[test]
fn plain_ascii_is_untouched() {
    let result = to_ascii("Build failed: 3 tests");
    assert_eq!(result.text, "Build failed: 3 tests");
    assert!(!result.changed);
}

#[test]
fn common_punctuation_transliterates() {
    let cases = [
        ("don\u{2019}t", "don't"),
        ("\u{2018}quoted\u{2019}", "'quoted'"),
        ("\u{201c}quoted\u{201d}", "\"quoted\""),
        ("an \u{2013} en dash", "an - en dash"),
        ("an \u{2014} em dash", "an - em dash"),
        ("wait\u{2026}", "wait..."),
        ("non\u{00a0}breaking", "non breaking"),
        ("bullet \u{2022} point", "bullet * point"),
    ];
    for (input, expected) in cases {
        let result = to_ascii(input);
        assert_eq!(result.text, expected, "input {input:?}");
        assert!(result.changed, "input {input:?} should report a change");
    }
}

#[test]
fn unmapped_non_ascii_is_dropped() {
    let result = to_ascii("done \u{1f389}");
    assert_eq!(result.text, "done ");
    assert!(result.changed);
}

#[test]
fn line_endings_and_tabs_become_spaces() {
    let result = to_ascii("line\nbreak\ttab");
    assert_eq!(result.text, "line break tab");
    assert!(result.changed);
}

#[test]
fn other_control_characters_are_dropped() {
    let result = to_ascii("bell\u{0007}here");
    assert_eq!(result.text, "bellhere");
    assert!(result.changed);
}

#[test]
fn a_message_can_sanitize_to_nothing() {
    let result = to_ascii("\u{1f389}\u{1f389}");
    assert_eq!(result.text, "");
    assert!(result.changed);
}

#[test]
fn sanitizing_twice_changes_nothing_more() {
    let once = to_ascii("\u{201c}it\u{2019}s\u{201d} \u{2014} done\u{2026} \u{1f389}");
    assert_eq!(once.text, "\"it's\" - done... ");
    let twice = to_ascii(&once.text);
    assert_eq!(twice.text, once.text);
    assert!(!twice.changed);
}
