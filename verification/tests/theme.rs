//! The appearance's names: the built-in themes, the `[style]` key catalogue, and what an unknown
//! name reports.

use hypr_swap::config::{read_settings, Order};
use hypr_swap::diag::Condition;
use hypr_swap::theme::{
    style_key, theme_named, unknown_style_key, StyleKey, COLOUR_KEYS, FONT_FAMILY_KEY,
    GEOMETRY_KEYS, TEXT_SIZE_KEY, THEME_NAMES,
};

#[test]
fn built_in_theme_names_are_unique() {
    // `theme_named` takes the first match, so a duplicated name would make one theme
    // unreachable and the shadowing silent.
    let mut names: Vec<&str> = THEME_NAMES.to_vec();
    let total = names.len();
    names.sort_unstable();
    names.dedup();
    assert_eq!(names.len(), total, "duplicate built-in theme name");
    assert!(
        names.contains(&"dark") && names.contains(&"light"),
        "a dark and a light theme are required, found {names:?}"
    );
}

#[test]
fn every_catalogued_key_is_distinct() {
    // A key claimed by two catalogues would make the first-match order the silent arbiter of
    // which one a user gets.
    let mut keys: Vec<&str> = COLOUR_KEYS
        .iter()
        .copied()
        .chain(GEOMETRY_KEYS.iter().copied())
        .chain([TEXT_SIZE_KEY, FONT_FAMILY_KEY])
        .collect();
    let total = keys.len();
    keys.sort_unstable();
    keys.dedup();
    assert_eq!(keys.len(), total, "duplicate style key");
    assert_eq!(total, 11 + 10 + 2);
}

#[test]
fn an_unknown_theme_or_icon_set_name_is_reported_and_falls_back() {
    // An unknown *icon set* name is a filesystem question, so the name is carried through here
    // unjudged; the theme name is judged, and falls back to the dark theme.
    let read = read_settings(
        r#"
            theme = "dracula"
            icon_set = "NoSuchSet"
            order = "compositor"
            "#,
    );
    assert_eq!(read.settings.icon_set.as_deref(), Some("NoSuchSet"));
    assert_eq!(
        read.settings.order,
        Order::Compositor,
        "every other setting still applies"
    );
    assert!(read.appearance.is_empty() && read.rest.is_empty());

    let (theme, report) = theme_named(read.settings.theme.as_deref());
    assert_eq!(THEME_NAMES[theme], "dark");
    let report = report.expect("the unknown theme is reported");
    assert_eq!(report.subject, "config.theme");
    assert!(
        report.message.contains(r#"unknown theme "dracula""#),
        "{}",
        report.message
    );
}

#[test]
fn every_built_in_theme_is_chosen_by_its_own_name_in_silence() {
    for (at, name) in THEME_NAMES.iter().enumerate() {
        assert_eq!(theme_named(Some(*name)), (at, None));
    }
}

#[test]
fn no_theme_named_is_the_default_theme_in_silence() {
    assert_eq!(theme_named(None), (0, None));
}

#[test]
fn an_unknown_theme_reads_as_documented() {
    let (theme, report) = theme_named(Some("solarized"));
    assert_eq!(theme, 0);
    let report = report.expect("reported");
    assert_eq!(report.condition, Condition::InvalidConfigValue);
    assert_eq!(
        report.message,
        r#"unknown theme "solarized", using "dark" (built-in: dark, light)"#
    );
}

#[test]
fn a_theme_name_is_matched_exactly() {
    assert!(theme_named(Some("Dark")).1.is_some());
    assert!(theme_named(Some("")).1.is_some());
}

#[test]
fn every_style_key_sets_the_value_it_names() {
    for (at, key) in COLOUR_KEYS.iter().enumerate() {
        assert_eq!(style_key(key), Some(StyleKey::Colour(at)), "{key}");
    }
    for (at, key) in GEOMETRY_KEYS.iter().enumerate() {
        assert_eq!(style_key(key), Some(StyleKey::Geometry(at)), "{key}");
    }
    assert_eq!(style_key("text_size"), Some(StyleKey::TextSize));
    assert_eq!(style_key("font_family"), Some(StyleKey::FontFamily));
}

#[test]
fn a_key_the_style_table_does_not_accept_is_none_of_them() {
    assert_eq!(style_key("shadow"), None);
    assert_eq!(style_key("Text"), None);
    assert_eq!(style_key(""), None);
}

#[test]
fn an_unknown_style_key_is_reported_under_its_own_name_and_never_notifies() {
    let report = unknown_style_key("shadow");
    assert_eq!(report.subject, "config.style.shadow");
    assert_eq!(report.message, "unknown key, ignored");
    assert_eq!(report.condition, Condition::UnknownConfigKey);
    assert!(!report.condition.notifies());
}
