//! The two named global shortcuts: their ids, descriptions and suggested bind lines.

use hypr_swap::ui::shortcuts::{taken_shortcut, Shortcut};

#[test]
fn the_two_shortcut_ids_are_the_documented_ones() {
    assert_eq!(Shortcut::Switcher.id(), "switcher");
    assert_eq!(Shortcut::NewWorkspace.id(), "new-workspace");
    assert_eq!(Shortcut::Switcher.qualified_name(), "hypr-swap:switcher");
    assert_eq!(
        Shortcut::NewWorkspace.qualified_name(),
        "hypr-swap:new-workspace"
    );
}

#[test]
fn bind_lines_use_bind_not_binde() {
    for shortcut in Shortcut::ALL {
        let line = shortcut.suggested_bind();
        assert!(line.starts_with("bind = "), "{line}");
        assert!(!line.starts_with("binde"), "{line}");
        assert!(line.contains(", global, "), "{line}");
        assert!(line.ends_with(&shortcut.qualified_name()), "{line}");
    }
}

#[test]
fn the_documented_suggestions_are_alt_tab_and_super_n() {
    assert_eq!(
        Shortcut::Switcher.suggested_bind(),
        "bind = ALT, TAB, global, hypr-swap:switcher"
    );
    assert_eq!(
        Shortcut::NewWorkspace.suggested_bind(),
        "bind = SUPER, N, global, hypr-swap:new-workspace"
    );
}

#[test]
fn every_shortcut_has_a_description_and_a_trigger_description() {
    for shortcut in Shortcut::ALL {
        assert!(!shortcut.description().is_empty());
        assert!(!shortcut.trigger_description().is_empty());
    }
}

#[test]
fn another_instance_is_recognised_by_the_names_it_registered() {
    let registered = vec!["other:thing".to_owned(), "hypr-swap:new-workspace".to_owned()];
    assert_eq!(taken_shortcut(&registered), Some("hypr-swap:new-workspace".to_owned()));
    let both = vec!["hypr-swap:new-workspace".to_owned(), "hypr-swap:switcher".to_owned()];
    assert_eq!(taken_shortcut(&both), Some("hypr-swap:switcher".to_owned()), "registration order decides");
    assert_eq!(taken_shortcut(&[]), None);
}
