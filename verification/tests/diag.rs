//! Diagnostics: the record format, the notification policy, and the paint records.

use hypr_swap::diag::{
    format_record, notification, paint_colours_record, paint_fonts_record, paint_record,
    records_wanted, Condition, Level, PAINT_SUBJECT,
};

const ALL: [Condition; 12] = [
    Condition::InvalidConfigValue,
    Condition::UnknownConfigKey,
    Condition::ShortcutRegistrationFailed,
    Condition::SecondInstance,
    Condition::CompositorUnreachableAtStartup,
    Condition::UsageError,
    Condition::CompositorConnection,
    Condition::SwapRolledBack,
    Condition::RollbackFailed,
    Condition::SelectionTargetVanished,
    Condition::OverlayFocusRefused,
    Condition::NotifyDeliveryFailed,
];

#[test]
fn a_notification_body_names_the_subject_as_well_as_the_message() {
    let record = format_record(
        Condition::InvalidConfigValue.level(),
        "config.presentation",
        r#"unknown value "tiles", using default "list""#,
    );
    let body = record
        .split_once(' ')
        .map(|(_, rest)| rest.trim_start())
        .expect("the record has a level prefix");
    assert!(body.starts_with("config.presentation: "), "{body}");
}

#[test]
fn record_shape_is_level_subject_message() {
    assert_eq!(
        format_record(
            Level::Warn,
            "config.presentation",
            r#"unknown value "tiles""#
        ),
        r#"WARN  config.presentation: unknown value "tiles""#
    );
    assert_eq!(
        format_record(Level::Error, "compositor", "cannot connect at start-up"),
        "ERROR compositor: cannot connect at start-up"
    );
    assert_eq!(
        format_record(Level::Info, "compositor", "reconnected"),
        "INFO  compositor: reconnected"
    );
}

#[test]
fn record_has_no_timestamp_and_exactly_one_line() {
    let record = format_record(Level::Info, "compositor", "connection lost");
    assert!(!record.contains('\n'));
    assert!(record.starts_with("INFO "));
}

#[test]
fn levels_match_the_documented_policy_table() {
    assert_eq!(Condition::InvalidConfigValue.level(), Level::Warn);
    assert_eq!(Condition::UnknownConfigKey.level(), Level::Warn);
    assert_eq!(Condition::NotifyDeliveryFailed.level(), Level::Warn);
    assert_eq!(Condition::ShortcutRegistrationFailed.level(), Level::Error);
    assert_eq!(Condition::SecondInstance.level(), Level::Error);
    assert_eq!(
        Condition::CompositorUnreachableAtStartup.level(),
        Level::Error
    );
    assert_eq!(Condition::UsageError.level(), Level::Error);
    assert_eq!(Condition::SwapRolledBack.level(), Level::Error);
    assert_eq!(Condition::RollbackFailed.level(), Level::Error);
    assert_eq!(Condition::OverlayFocusRefused.level(), Level::Error);
    assert_eq!(Condition::CompositorConnection.level(), Level::Info);
    assert_eq!(Condition::SelectionTargetVanished.level(), Level::Info);
}

#[test]
fn only_conditions_the_user_must_act_on_notify() {
    let notifying: Vec<_> = ALL.into_iter().filter(|c| c.notifies()).collect();
    assert_eq!(
        notifying,
        vec![
            Condition::InvalidConfigValue,
            Condition::ShortcutRegistrationFailed,
            Condition::SecondInstance,
            Condition::CompositorUnreachableAtStartup,
            Condition::SwapRolledBack,
            Condition::RollbackFailed,
        ]
    );
}

#[test]
fn a_usage_error_is_reported_but_never_notified() {
    assert!(!Condition::UsageError.notifies());
    assert_ne!(
        Condition::UsageError.summary(),
        Condition::CompositorUnreachableAtStartup.summary()
    );
}

#[test]
fn self_recovering_conditions_never_notify() {
    for condition in [
        Condition::CompositorConnection,
        Condition::SelectionTargetVanished,
        Condition::UnknownConfigKey,
        Condition::NotifyDeliveryFailed,
        Condition::OverlayFocusRefused,
    ] {
        assert!(!condition.notifies(), "{condition:?} must not notify");
        assert!(condition.summary().is_none());
    }
}

#[test]
fn notification_summaries_are_the_four_documented_ones() {
    let mut summaries: Vec<_> = ALL.into_iter().filter_map(Condition::summary).collect();
    summaries.sort_unstable();
    summaries.dedup();
    assert_eq!(
        summaries,
        vec![
            "hypr-swap: cannot reach Hyprland",
            "hypr-swap: configuration problem",
            "hypr-swap: shortcut not registered",
            "hypr-swap: swap failed",
        ]
    );
}

#[test]
fn a_paint_record_names_the_entry_the_presentation_and_what_was_drawn() {
    assert_eq!(
        paint_record(0, "list", "icon /usr/share/icons/Set/48x48/apps/foot.png"),
        "entry 0 list: icon /usr/share/icons/Set/48x48/apps/foot.png"
    );
    assert_eq!(
        paint_record(3, "grid", "placeholder"),
        "entry 3 grid: placeholder"
    );
    // The whole record, as it reaches stderr: one INFO line under the one subject a test
    // filters on.
    assert_eq!(
        format_record(
            Level::Info,
            PAINT_SUBJECT,
            &paint_record(2, "grid", "shed title")
        ),
        "INFO  paint: entry 2 grid: shed title"
    );
}

#[test]
fn a_colour_record_names_the_presentation_and_every_colour_drawn() {
    assert_eq!(
        paint_colours_record("list", &["#17171ced".to_owned(), "#336bb8ff".to_owned()]),
        "colours list: [#17171ced #336bb8ff]"
    );
    // A paint that drew nothing at all still says so, rather than looking like a paint that
    // never happened.
    assert_eq!(paint_colours_record("grid", &[]), "colours grid: []");
    assert_eq!(
        format_record(
            Level::Info,
            PAINT_SUBJECT,
            &paint_colours_record("grid", &["#292930ff".to_owned()])
        ),
        "INFO  paint: colours grid: [#292930ff]"
    );
}

#[test]
fn a_font_record_names_what_was_asked_for_and_what_was_loaded() {
    assert_eq!(
        paint_fonts_record(
            "list",
            &["JetBrains Mono".to_owned()],
            &["JetBrains Mono".to_owned()]
        ),
        r#"fonts list: requested=["JetBrains Mono"] resolved=["JetBrains Mono"]"#
    );
    assert_eq!(
        paint_fonts_record(
            "grid",
            &["No Such Family".to_owned()],
            &["DejaVu Sans".to_owned()]
        ),
        r#"fonts grid: requested=["No Such Family"] resolved=["DejaVu Sans"]"#
    );
    // A paint with no text at all still says so, as the colour record does.
    assert_eq!(
        paint_fonts_record("list", &[], &[]),
        "fonts list: requested=[] resolved=[]"
    );
    assert_eq!(
        format_record(
            Level::Info,
            PAINT_SUBJECT,
            &paint_fonts_record("grid", &["Sans".to_owned()], &["Sans".to_owned()])
        ),
        r#"INFO  paint: fonts grid: requested=["Sans"] resolved=["Sans"]"#
    );
}

#[test]
fn the_paint_gate_opens_only_on_a_value_that_is_present_and_not_empty() {
    assert!(!records_wanted(None), "no variable means no records");
    assert!(!records_wanted(Some("")), "an empty value is as good as unset");
    assert!(records_wanted(Some("1")));
}

#[test]
fn a_paint_record_is_never_a_notifying_condition() {
    assert_eq!(Level::Info.as_str(), "INFO");
    assert!(!paint_record(0, "list", "placeholder").contains('\n'));
}

#[test]
fn every_condition_has_a_level_and_a_consistent_notify_flag() {
    for condition in ALL {
        let _ = condition.level();
        assert_eq!(condition.notifies(), condition.summary().is_some());
    }
}

#[test]
fn a_notification_carries_the_summary_and_a_body_naming_the_subject() {
    assert_eq!(
        notification(Condition::SwapRolledBack, "swap", "it failed"),
        Some(("hypr-swap: swap failed".to_owned(), "swap: it failed".to_owned()))
    );
    assert_eq!(notification(Condition::CompositorConnection, "compositor", "reconnected"), None);
    assert_eq!(notification(Condition::IconUnreadable, "icon.foot", "bad file"), None);
    assert_eq!(Condition::IconUnreadable.level(), Level::Warn);
}

#[test]
fn a_font_family_with_a_quote_in_it_is_escaped_in_the_record() {
    assert_eq!(
        paint_fonts_record("list", &["Odd \"Name\"".to_owned()], &[]),
        r#"fonts list: requested=["Odd \"Name\""] resolved=[]"#
    );
}
