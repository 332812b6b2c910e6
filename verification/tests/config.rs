//! Reading the settings: each one on its own, falling back alone, and reported by name.

use hypr_swap::config::{
    differences_from_defaults, read_settings, resolve_default_path, unread_file, LoadError, Order,
    Placement, Presentation, Settings, StyleValue, found_as,
};
use hypr_swap::diag::{Condition, Diagnostic, Level};

/// The settings a file gives, with every report in the order it is made.
fn parse(source: &str) -> (Settings, Vec<Diagnostic>) {
    let read = read_settings(source);
    let mut diagnostics = read.appearance;
    diagnostics.extend(read.rest);
    (read.settings, diagnostics)
}

/// Every setting at its default: the three behaviours, icons shown, the desktop's icon set,
/// and no theme or style written.
fn assert_defaults(settings: &Settings) {
    assert_eq!(settings.presentation, Presentation::List);
    assert_eq!(settings.placement, Placement::ActiveMonitor);
    assert_eq!(settings.order, Order::Mru);
    assert!(settings.icons);
    assert_eq!(settings.icon_set, None);
    assert_eq!(settings.theme, None);
    assert!(settings.style.is_none());
}

fn subjects(diagnostics: &[Diagnostic]) -> Vec<&str> {
    diagnostics.iter().map(|d| d.subject.as_str()).collect()
}

#[test]
fn every_valid_value_is_accepted() {
    for (raw, expected) in [("list", Presentation::List), ("grid", Presentation::Grid)] {
        let (configuration, diagnostics) = parse(&format!("presentation = {raw:?}"));
        assert_eq!(configuration.presentation, expected);
        assert!(diagnostics.is_empty(), "{raw} should be accepted silently");
    }
    for (raw, expected) in [
        ("active", Placement::ActiveMonitor),
        ("all", Placement::AllMonitors),
    ] {
        let (configuration, diagnostics) = parse(&format!("placement = {raw:?}"));
        assert_eq!(configuration.placement, expected);
        assert!(diagnostics.is_empty());
    }
    for (raw, expected) in [
        ("mru", Order::Mru),
        ("compositor", Order::Compositor),
        ("monitor", Order::Monitor),
    ] {
        let (configuration, diagnostics) = parse(&format!("order = {raw:?}"));
        assert_eq!(configuration.order, expected);
        assert!(diagnostics.is_empty());
    }
}

#[test]
fn one_invalid_value_leaves_the_others_honoured() {
    let (configuration, diagnostics) = parse(
        r#"
        presentation = "tiles"
        order = "compositor"
        "#,
    );
    assert_eq!(
        configuration.presentation,
        Presentation::List,
        "fell back to its own default"
    );
    assert_eq!(
        configuration.order,
        Order::Compositor,
        "user's other choice survived"
    );
    assert_eq!(subjects(&diagnostics), vec!["config.presentation"]);
}

#[test]
fn an_invalid_value_names_the_offending_setting_and_the_default_it_used() {
    let (_, diagnostics) = parse(r#"presentation = "tiles""#);
    let d = &diagnostics[0];
    assert_eq!(d.subject, "config.presentation");
    assert!(
        d.message.contains(r#"unknown value "tiles""#),
        "{}",
        d.message
    );
    assert!(
        d.message.contains(r#"using default "list""#),
        "{}",
        d.message
    );
    assert!(
        d.message.contains("list, grid"),
        "lists the accepted values: {}",
        d.message
    );
}

#[test]
fn a_value_of_the_wrong_type_falls_back_like_any_other_invalid_value() {
    let (configuration, diagnostics) = parse("order = 3");
    assert_eq!(configuration.order, Order::Mru);
    assert_eq!(subjects(&diagnostics), vec!["config.order"]);
    assert!(
        diagnostics[0].message.contains("expected a string"),
        "{:?}",
        diagnostics[0]
    );
}

#[test]
fn an_unknown_key_is_reported_and_ignored() {
    let (configuration, diagnostics) = parse(
        r#"
        order = "monitor"
        wallpaper = "dracula"
        "#,
    );
    assert_eq!(
        configuration.order,
        Order::Monitor,
        "the valid keys still apply"
    );
    assert_eq!(subjects(&diagnostics), vec!["config.wallpaper"]);
    assert_eq!(diagnostics[0].condition, Condition::UnknownConfigKey);
}

#[test]
fn invalid_toml_falls_back_to_all_defaults() {
    let (configuration, diagnostics) = parse("presentation = \nthis is not toml");
    assert_defaults(&configuration);
    assert_eq!(subjects(&diagnostics), vec!["config"]);
    assert!(
        diagnostics[0].message.contains("not valid TOML"),
        "{:?}",
        diagnostics[0]
    );
    assert!(
        diagnostics[0]
            .message
            .contains("using defaults for every setting"),
        "{:?}",
        diagnostics[0]
    );
}

#[test]
fn each_settings_fallback_reports_under_its_own_subject() {
    let (_, diagnostics) = parse(
        r#"
        presentation = "tiles"
        placement = "everywhere"
        order = "alphabetical"
        "#,
    );
    assert_eq!(
        subjects(&diagnostics),
        vec!["config.presentation", "config.placement", "config.order"]
    );
}

#[test]
fn invalid_values_notify_and_unknown_keys_do_not() {
    let (_, diagnostics) = parse(
        r#"
        presentation = "tiles"
        wallpaper = "nope"
        "#,
    );
    let invalid = &diagnostics[0];
    assert_eq!(invalid.condition, Condition::InvalidConfigValue);
    assert!(
        invalid.condition.notifies(),
        "the user must fix this"
    );
    assert_eq!(invalid.condition.level(), Level::Warn);

    let unknown = &diagnostics[1];
    assert_eq!(unknown.condition, Condition::UnknownConfigKey);
    assert!(
        !unknown.condition.notifies(),
        "an ignored key needs no interruption"
    );
    assert_eq!(unknown.condition.level(), Level::Warn);
}

#[test]
fn a_whole_file_parse_error_notifies_once_under_the_config_subject() {
    let (_, diagnostics) = parse("=== nonsense ===");
    assert_eq!(diagnostics.len(), 1);
    assert_eq!(diagnostics[0].subject, "config");
    assert!(diagnostics[0].condition.notifies());
}

#[test]
fn setting_names_round_trip_for_use_in_messages() {
    assert_eq!(Presentation::List.name(), "list");
    assert_eq!(Presentation::Grid.name(), "grid");
    assert_eq!(Placement::ActiveMonitor.name(), "active");
    assert_eq!(Placement::AllMonitors.name(), "all");
    assert_eq!(Order::Mru.name(), "mru");
    assert_eq!(Order::Compositor.name(), "compositor");
    assert_eq!(Order::Monitor.name(), "monitor");
}

#[test]
fn the_visual_keys_are_not_reported_as_unknown_top_level_keys() {
    let (_, diagnostics) = parse(
        r##"
        icons = true
        icon_set = "hicolor"
        theme = "dark"

        [style]
        text = "#010203"
        "##,
    );
    assert!(diagnostics.is_empty(), "{diagnostics:?}");
}

#[test]
fn documented_defaults_are_list_active_monitor_and_mru() {
    assert_eq!(Presentation::default(), Presentation::List);
    assert_eq!(Placement::default(), Placement::ActiveMonitor);
    assert_eq!(Order::default(), Order::Mru);
}

#[test]
fn a_visual_setting_of_the_wrong_type_is_reported_against_its_own_key() {
    let (configuration, diagnostics) = parse(
        r#"
        icons = 1
        icon_set = 2
        theme = 3
        style = "dark"
        "#,
    );
    assert_defaults(&configuration);
    assert_eq!(
        subjects(&diagnostics),
        vec![
            "config.theme",
            "config.style",
            "config.icons",
            "config.icon_set"
        ]
    );
}

#[test]
fn an_empty_file_yields_defaults_with_no_diagnostic() {
    let (configuration, diagnostics) = parse("");
    assert_defaults(&configuration);
    assert!(diagnostics.is_empty());
}

#[test]
fn the_theme_name_and_style_table_are_carried_through_for_the_theme_to_judge() {
    let (configuration, diagnostics) = parse(
        r##"
        theme = "dracula"
        icon_set = "NoSuchSet"
        order = "compositor"

        [style]
        text = "#010203"
        "##,
    );
    assert_eq!(configuration.theme.as_deref(), Some("dracula"));
    assert_eq!(configuration.icon_set.as_deref(), Some("NoSuchSet"));
    assert_eq!(configuration.order, Order::Compositor);
    let style = configuration.style.expect("the table is carried");
    assert_eq!(style, vec![("text".to_owned(), StyleValue::Text("#010203".to_owned()))]);
    assert!(diagnostics.is_empty(), "{diagnostics:?}");
}

#[test]
fn a_parse_error_names_the_byte_it_starts_at() {
    let (_, diagnostics) = parse("=== nonsense ===");
    assert!(diagnostics[0].message.starts_with("not valid TOML at byte "), "{}", diagnostics[0].message);
    assert!(diagnostics[0].message.ends_with(", using defaults for every setting"));
}

#[test]
fn a_wrongly_typed_icons_setting_says_what_it_found() {
    let (configuration, diagnostics) = parse("icons = \"no\"");
    assert!(configuration.icons);
    assert_eq!(diagnostics[0].message, "expected true or false, found string; using true");
    let (_, diagnostics) = parse("placement = []");
    assert_eq!(
        diagnostics[0].message,
        "expected a string, found array, using default \"active\" (accepted: active, all)"
    );
}

#[test]
fn only_changed_settings_are_listed_as_differences() {
    assert!(differences_from_defaults(Presentation::List, Placement::ActiveMonitor, Order::Mru, true, None).is_empty());
    assert_eq!(
        differences_from_defaults(Presentation::Grid, Placement::AllMonitors, Order::Monitor, false, Some("Papirus")),
        vec![
            "presentation = \"grid\"",
            "placement = \"all\"",
            "order = \"monitor\"",
            "icons = false",
            "icon_set = \"Papirus\"",
        ]
    );
}

#[test]
fn the_default_path_prefers_xdg_config_home_over_the_home_fallback() {
    assert_eq!(
        resolve_default_path(Some("/x/cfg"), Some("/home/u")),
        Some("/x/cfg/hypr-swap/config.toml".to_owned())
    );
    assert_eq!(
        resolve_default_path(None, Some("/home/u")),
        Some("/home/u/.config/hypr-swap/config.toml".to_owned())
    );
    assert_eq!(
        resolve_default_path(Some(""), Some("/home/u")),
        Some("/home/u/.config/hypr-swap/config.toml".to_owned()),
        "an empty XDG_CONFIG_HOME is treated as unset"
    );
    assert_eq!(resolve_default_path(None, None), None);
}

#[test]
fn a_file_that_cannot_be_read_is_silent_reported_or_an_error_by_where_it_was_named() {
    let path = "/nonexistent/hypr-swap/definitely-not-here.toml";
    assert_eq!(unread_file(path, false, true, "not found"), Ok(None));
    assert_eq!(unread_file(path, true, true, "not found"), Err(LoadError::NotFound(path.to_owned())));
    let error = unread_file(path, true, false, "permission denied").unwrap_err();
    assert_eq!(error.to_string(), format!("{path} could not be read: permission denied"));
    let reported = unread_file(path, false, false, "permission denied").unwrap().expect("a report");
    assert_eq!(reported.subject, "config");
    assert_eq!(reported.message, format!("{path} could not be read: permission denied, using defaults"));
    assert_eq!(LoadError::NotFound(path.to_owned()).to_string(), format!("{path} does not exist"));
}

#[test]
fn every_kind_of_style_value_is_handed_on_as_written() {
    let (configuration, diagnostics) = parse(
        r##"
        [style]
        text = "#010203"
        row_padding = 4
        text_size = 0.8
        shadow = true
        nested = { depth = 1 }
        list = [1, 2]
        "##,
    );
    assert!(diagnostics.is_empty(), "{diagnostics:?}");
    let style = configuration.style.expect("the table is carried");
    let value = |key: &str| {
        style
            .iter()
            .find(|(k, _)| k == key)
            .map(|(_, v)| v.clone())
            .unwrap_or_else(|| panic!("{key} is missing"))
    };
    assert_eq!(style.len(), 6);
    assert_eq!(value("text"), StyleValue::Text("#010203".to_owned()));
    assert_eq!(value("row_padding"), StyleValue::Integer(4));
    assert_eq!(value("text_size"), StyleValue::Float(0.8f64.to_bits()));
    assert_eq!(value("shadow"), StyleValue::Other("boolean"));
    assert_eq!(value("nested"), StyleValue::Other("table"));
    assert_eq!(value("list"), StyleValue::Other("array"));
}

#[test]
fn a_style_value_of_another_kind_is_named_as_the_messages_name_it() {
    assert_eq!(found_as("boolean"), "a boolean");
    assert_eq!(found_as("table"), "a table");
    assert_eq!(found_as("array"), "an array");
    assert_eq!(found_as("datetime"), "a datetime");
    assert_eq!(found_as("string"), "another kind of value");
}
