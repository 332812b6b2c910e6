//! Desktop entries: reading the four keys, and which entry owns a window class.

use hypr_swap::icons::entries::{DesktopEntry, Index};

/// One entry, spelled the way a real `.desktop` file spells it.
fn entry(id: &str, class: Option<&str>, name: Option<&str>, icon: &str) -> DesktopEntry {
    DesktopEntry {
        id: id.to_owned(),
        icon: icon.to_owned(),
        startup_wm_class: class.map(ToOwned::to_owned),
        name: name.map(ToOwned::to_owned),
        no_display: false,
    }
}

fn hidden(mut entry: DesktopEntry) -> DesktopEntry {
    entry.no_display = true;
    entry
}

#[test]
fn parsing_reads_exactly_the_four_keys_it_needs() {
    let parsed = DesktopEntry::parse(
        "foot",
        "[Desktop Entry]\n\
         Type=Application\n\
         Name=Foot\n\
         Comment=A terminal\n\
         Exec=/usr/bin/foot\n\
         Icon=foot\n\
         StartupWMClass=foot\n\
         NoDisplay=false\n",
    )
    .expect("an entry with an Icon is indexed");

    assert_eq!(parsed.id, "foot");
    assert_eq!(parsed.icon, "foot");
    assert_eq!(parsed.startup_wm_class.as_deref(), Some("foot"));
    assert_eq!(parsed.name.as_deref(), Some("Foot"));
    assert!(!parsed.no_display);
}

#[test]
fn an_entry_without_an_icon_is_not_indexed_at_all() {
    // It could never answer "which icon belongs to this window", so admitting it would only
    // let it shadow an entry that could.
    assert_eq!(
        DesktopEntry::parse("nothing", "[Desktop Entry]\nName=Nothing\nExec=/bin/true\n"),
        None
    );
    assert_eq!(
        DesktopEntry::parse("blank", "[Desktop Entry]\nIcon=\nName=Blank\n"),
        None
    );
}

#[test]
fn keys_outside_the_desktop_entry_group_are_not_read() {
    // Actions carry their own `Icon` and `Name`, and reading them would give the entry the
    // icon of one of its right-click menu items.
    let parsed = DesktopEntry::parse(
        "browser",
        "[Desktop Entry]\n\
         Name=Browser\n\
         Icon=browser\n\
         \n\
         [Desktop Action new-private-window]\n\
         Name=Private Window\n\
         Icon=browser-private\n",
    )
    .expect("the entry itself has an Icon");

    assert_eq!(parsed.icon, "browser");
    assert_eq!(parsed.name.as_deref(), Some("Browser"));
}

#[test]
fn a_file_whose_first_group_is_not_the_desktop_entry_group_is_still_read() {
    let parsed = DesktopEntry::parse(
        "late",
        "[Some Other Group]\nIcon=wrong\n\n[Desktop Entry]\nIcon=right\n",
    )
    .expect("the Desktop Entry group is found wherever it sits");
    assert_eq!(parsed.icon, "right");
}

#[test]
fn localised_names_and_comments_are_ignored() {
    let parsed = DesktopEntry::parse(
        "files",
        "[Desktop Entry]\n\
         # a comment\n\
         Name=Files\n\
         Name[de]=Dateien\n\
         Icon=org.gnome.Nautilus\n",
    )
    .expect("indexed");
    // The compositor reports an unlocalised class, so a localised name could only ever
    // produce a wrong match.
    assert_eq!(parsed.name.as_deref(), Some("Files"));
}

#[test]
fn no_display_is_read_case_insensitively_and_defaults_to_false() {
    let hidden =
        DesktopEntry::parse("h", "[Desktop Entry]\nIcon=h\nNoDisplay=True\n").expect("indexed");
    assert!(hidden.no_display);

    let shown = DesktopEntry::parse("s", "[Desktop Entry]\nIcon=s\n").expect("indexed");
    assert!(!shown.no_display, "absent NoDisplay means visible");
}

#[test]
fn a_file_that_is_not_a_desktop_entry_at_all_yields_nothing() {
    assert_eq!(DesktopEntry::parse("junk", ""), None);
    assert_eq!(DesktopEntry::parse("junk", "not an ini file"), None);
}

#[test]
fn step_one_is_startup_wm_class_matched_exactly() {
    let index = Index::new(vec![entry("foot", Some("foot"), None, "foot-icon")]);
    assert_eq!(index.icon_for("foot"), Some("foot-icon"));
}

#[test]
fn step_two_is_startup_wm_class_matched_case_insensitively() {
    let index = Index::new(vec![entry("foot", Some("Foot"), None, "foot-icon")]);
    assert_eq!(index.icon_for("foot"), Some("foot-icon"));
}

#[test]
fn step_three_is_the_entry_id_matched_case_insensitively() {
    let index = Index::new(vec![entry("firefox", None, None, "firefox-icon")]);
    assert_eq!(index.icon_for("Firefox"), Some("firefox-icon"));
}

#[test]
fn step_four_is_the_last_component_of_a_reverse_dns_id() {
    let index = Index::new(vec![entry(
        "org.gnome.Nautilus",
        None,
        None,
        "org.gnome.Nautilus",
    )]);
    assert_eq!(index.icon_for("nautilus"), Some("org.gnome.Nautilus"));
}

#[test]
fn step_five_is_the_name_matched_case_insensitively() {
    let index = Index::new(vec![entry("term", None, Some("Foot"), "term-icon")]);
    assert_eq!(index.icon_for("foot"), Some("term-icon"));
}

#[test]
fn no_match_yields_none_which_is_the_placeholder() {
    let index = Index::new(vec![entry("foot", Some("foot"), Some("Foot"), "foot-icon")]);
    assert_eq!(index.icon_for("nobody"), None);
    assert_eq!(Index::default().icon_for("foot"), None);
}

#[test]
fn an_earlier_step_wins_over_a_later_one() {
    let index = Index::new(vec![
        // Would match at step 5 by name.
        entry("impostor", None, Some("foot"), "wrong"),
        // Matches at step 1 by the class it explicitly claims.
        entry("foot", Some("foot"), None, "right"),
    ]);
    assert_eq!(
        index.icon_for("foot"),
        Some("right"),
        "the ladder is ordered by rule, not by index position"
    );
}

#[test]
fn an_exact_class_match_beats_a_case_insensitive_one() {
    let index = Index::new(vec![
        entry("loose", Some("Foot"), None, "loose"),
        entry("exact", Some("foot"), None, "exact"),
    ]);
    assert_eq!(index.icon_for("foot"), Some("exact"));
}

#[test]
fn within_one_step_the_first_entry_in_search_order_wins() {
    let index = Index::new(vec![
        entry("first", Some("foot"), None, "first"),
        entry("second", Some("foot"), None, "second"),
    ]);
    assert_eq!(
        index.icon_for("foot"),
        Some("first"),
        "search-path order breaks a tie, so ~/.local/share shadows /usr/share"
    );
}

#[test]
fn a_hidden_entry_ranks_behind_every_visible_one() {
    // "A real launcher beats a hidden one": the hidden entry here has the *better* match —
    // step 1 against the visible entry's step 5 — and still loses.
    let index = Index::new(vec![
        hidden(entry("hidden", Some("foot"), None, "hidden")),
        entry("shown", None, Some("Foot"), "shown"),
    ]);
    assert_eq!(index.icon_for("foot"), Some("shown"));
}

#[test]
fn a_hidden_entry_still_answers_when_nothing_visible_matches() {
    let index = Index::new(vec![hidden(entry("hidden", Some("foot"), None, "hidden"))]);
    assert_eq!(
        index.icon_for("foot"),
        Some("hidden"),
        "ranked last is indexed, not excluded"
    );
}

#[test]
fn hidden_entries_rank_among_themselves_by_the_same_ladder() {
    let index = Index::new(vec![
        hidden(entry("byname", None, Some("foot"), "byname")),
        hidden(entry("byclass", Some("foot"), None, "byclass")),
    ]);
    assert_eq!(index.icon_for("foot"), Some("byclass"));
}

#[test]
fn scanning_keeps_the_first_root_that_gives_an_id_an_icon() {
    let files = vec![
        ("foot".to_owned(), "[Desktop Entry]\nIcon=user-foot\nStartupWMClass=foot\n".to_owned()),
        ("blank".to_owned(), "[Desktop Entry]\nName=Blank\n".to_owned()),
        ("foot".to_owned(), "[Desktop Entry]\nIcon=packaged-foot\n".to_owned()),
        ("blank".to_owned(), "[Desktop Entry]\nIcon=blank\n".to_owned()),
    ];
    let index = Index::scan(&files);
    assert_eq!(index.len(), 2, "one foot, and the second blank, which is the first with an icon");
    assert_eq!(index.icon_for("foot"), Some("user-foot"), "the earlier root shadows the later one");
    assert_eq!(index.icon_for("blank"), Some("blank"));
    assert!(!index.is_empty());
    assert!(Index::scan(&[]).is_empty());
}

#[test]
fn the_last_component_of_a_dotless_id_is_the_whole_id() {
    let entry = DesktopEntry {
        id: "foot".to_owned(),
        icon: "foot".to_owned(),
        startup_wm_class: None,
        name: None,
        no_display: false,
    };
    assert_eq!(entry.step_for("FOOT"), Some(3));
    assert_eq!(entry.step_for("other"), None);
}

#[test]
fn a_windows_line_ending_is_trimmed_like_any_other_whitespace() {
    let parsed = DesktopEntry::parse("crlf", "[Desktop Entry]\r\nIcon = crlf \r\nNoDisplay=TRUE\r\n")
        .expect("indexed");
    assert_eq!(parsed.icon, "crlf");
    assert!(parsed.no_display);
}

#[test]
fn the_icon_set_in_effect_is_the_configured_one_or_the_default() {
    assert_eq!(hypr_swap::icons::resolved_set(Some("Papirus")), "Papirus");
    assert_eq!(hypr_swap::icons::resolved_set(Some("")), "hicolor");
    assert_eq!(hypr_swap::icons::resolved_set(None), "hicolor");
}
