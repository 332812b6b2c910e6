//! The appearance as far as it is names: which built-in themes a configuration can choose, which
//! keys the `[style]` table accepts, and what is reported about a name that is neither. The
//! values behind the names — colours, sizes and fractions — are floating point and live with the
//! drawing code, which keeps its tables in the order these catalogues give.

use vstd::prelude::*;

use crate::diag::{debug_quoted, debug_text, Condition, Diagnostic};
use crate::text::{push_str, same};

verus! {

/// The built-in themes, by name. The first is the default.
pub const THEME_NAMES: [&'static str; 2] = ["dark", "light"];

/// The colour keys of the `[style]` table, one per colour a theme defines.
pub const COLOUR_KEYS: [&'static str; 11] = [
    "backdrop",
    "highlight",
    "active_mark",
    "text",
    "text_highlighted",
    "text_dim",
    "text_dim_highlighted",
    "miniature",
    "window",
    "window_floating",
    "window_edge",
];

/// The geometry keys of the `[style]` table.
pub const GEOMETRY_KEYS: [&'static str; 10] = [
    "text_line_height",
    "row_padding",
    "overlay_padding",
    "width_fraction",
    "height_fraction",
    "grid_cell_width",
    "grid_cell_height",
    "grid_gap",
    "corner_radius",
    "mark_width",
];

/// The key of the text size, a fraction of the text line.
pub const TEXT_SIZE_KEY: &'static str = "text_size";

/// The key of the font family.
pub const FONT_FAMILY_KEY: &'static str = "font_family";

pub open spec fn theme_names() -> Seq<Seq<char>> {
    seq!["dark"@, "light"@]
}

pub open spec fn colour_keys() -> Seq<Seq<char>> {
    seq![
        "backdrop"@,
        "highlight"@,
        "active_mark"@,
        "text"@,
        "text_highlighted"@,
        "text_dim"@,
        "text_dim_highlighted"@,
        "miniature"@,
        "window"@,
        "window_floating"@,
        "window_edge"@,
    ]
}

pub open spec fn geometry_keys() -> Seq<Seq<char>> {
    seq![
        "text_line_height"@,
        "row_padding"@,
        "overlay_padding"@,
        "width_fraction"@,
        "height_fraction"@,
        "grid_cell_width"@,
        "grid_cell_height"@,
        "grid_gap"@,
        "corner_radius"@,
        "mark_width"@,
    ]
}

/// The first position of `name` in `names`, if it is there.
pub open spec fn first_position(names: Seq<Seq<char>>, name: Seq<char>) -> Option<int> {
    if exists|i: int| 0 <= i < names.len() && names[i] == name {
        Some(
            choose|i: int|
                0 <= i < names.len() && names[i] == name && forall|j: int| 0 <= j < i ==> names[j] != name,
        )
    } else {
        None
    }
}

/// Where `name` first stands in `names`, found by walking them.
fn position(names: &[&'static str], name: &str, Ghost(expected): Ghost<Seq<Seq<char>>>) -> (r: Option<usize>)
    requires
        names@.len() == expected.len(),
        forall|i: int| 0 <= i < expected.len() ==> #[trigger] names@[i]@ == expected[i],
    ensures
        match r {
            Some(i) => i < expected.len() && first_position(expected, name@) == Some(i as int),
            None => first_position(expected, name@) is None,
        },
{
    for i in 0..names.len()
        invariant
            names@.len() == expected.len(),
            forall|k: int| 0 <= k < expected.len() ==> #[trigger] names@[k]@ == expected[k],
            forall|j: int| 0 <= j < i ==> expected[j] != name@,
    {
        if same(names[i], name) {
            assert(names@[i as int]@ == expected[i as int]);
            let ghost c = choose|c: int|
                0 <= c < expected.len() && expected[c] == name@ && forall|j: int| 0 <= j < c ==> expected[j] != name@;
            assert(exists|c: int|
                0 <= c < expected.len() && expected[c] == name@ && forall|j: int| 0 <= j < c ==> expected[j] != name@)
                by {
                assert(0 <= i < expected.len() && expected[i as int] == name@);
            }
            assert(c == i) by {
                if c < i {
                    assert(expected[c] != name@);
                } else if c > i {
                    assert(expected[i as int] != name@);
                }
            }
            return Some(i);
        }
        assert(names@[i as int]@ == expected[i as int]);
    }
    None
}

// --- Themes -------------------------------------------------------------------------------

/// What is reported about a theme name no built-in theme has.
pub open spec fn unknown_theme_message(name: Seq<char>) -> Seq<char> {
    "unknown theme "@ + debug_text(name) + ", using "@ + debug_text("dark"@) + " (built-in: dark, light)"@
}

/// The built-in theme a configuration asks for, by position in [`THEME_NAMES`], and the report
/// when it names none of them: the default theme is used instead. No name at all is the default
/// theme in silence.
pub fn theme_named(name: Option<&str>) -> (r: (usize, Option<Diagnostic>))
    ensures
        r.0 < theme_names().len(),
        match name {
            None => r.0 == 0 && r.1 is None,
            Some(n) => match first_position(theme_names(), n@) {
                Some(i) => r.0 == i && r.1 is None,
                None => r.0 == 0 && (r.1 matches Some(d) && d.condition == Condition::InvalidConfigValue
                    && d.subject@ == "config.theme"@ && d.message@ == unknown_theme_message(n@)),
            },
        },
{
    let n = match name {
        None => return (0, None),
        Some(n) => n,
    };
    let names = THEME_NAMES;
    assert(names@ == seq!["dark", "light"]);
    match position(names.as_slice(), n, Ghost(theme_names())) {
        Some(i) => (i, None),
        None => {
            let mut subject = String::new();
            push_str(&mut subject, "config.theme");
            let mut message = String::new();
            push_str(&mut message, "unknown theme ");
            let quoted = debug_quoted(n);
            push_str(&mut message, quoted.as_str());
            push_str(&mut message, ", using ");
            let default = debug_quoted("dark");
            push_str(&mut message, default.as_str());
            push_str(&mut message, " (built-in: dark, light)");
            (0, Some(Diagnostic::new(Condition::InvalidConfigValue, subject, message)))
        },
    }
}

// --- The `[style]` keys -------------------------------------------------------------------

/// What a `[style]` key sets.
#[derive(Debug, Clone, Copy, PartialEq, Eq, Structural)]
pub enum StyleKey {
    /// The colour at this position of [`COLOUR_KEYS`].
    Colour(usize),
    /// The geometry value at this position of [`GEOMETRY_KEYS`].
    Geometry(usize),
    TextSize,
    FontFamily,
}

/// What `key` sets: a colour, then a geometry value, then the text size, then the font family,
/// the first catalogue that has it deciding; `None` for a key the table does not accept.
pub open spec fn style_key_of(key: Seq<char>) -> Option<StyleKey> {
    match first_position(colour_keys(), key) {
        Some(i) => Some(StyleKey::Colour(i as usize)),
        None => match first_position(geometry_keys(), key) {
            Some(i) => Some(StyleKey::Geometry(i as usize)),
            None => if key == "text_size"@ {
                Some(StyleKey::TextSize)
            } else if key == "font_family"@ {
                Some(StyleKey::FontFamily)
            } else {
                None
            },
        },
    }
}

/// Classify a `[style]` key.
pub fn style_key(key: &str) -> (r: Option<StyleKey>)
    ensures
        r == style_key_of(key@),
        r matches Some(StyleKey::Colour(i)) ==> i < colour_keys().len(),
        r matches Some(StyleKey::Geometry(i)) ==> i < geometry_keys().len(),
{
    let colours = COLOUR_KEYS;
    assert(colours@ == seq![
        "backdrop",
        "highlight",
        "active_mark",
        "text",
        "text_highlighted",
        "text_dim",
        "text_dim_highlighted",
        "miniature",
        "window",
        "window_floating",
        "window_edge",
    ]);
    if let Some(i) = position(colours.as_slice(), key, Ghost(colour_keys())) {
        return Some(StyleKey::Colour(i));
    }
    let geometry = GEOMETRY_KEYS;
    assert(geometry@ == seq![
        "text_line_height",
        "row_padding",
        "overlay_padding",
        "width_fraction",
        "height_fraction",
        "grid_cell_width",
        "grid_cell_height",
        "grid_gap",
        "corner_radius",
        "mark_width",
    ]);
    if let Some(i) = position(geometry.as_slice(), key, Ghost(geometry_keys())) {
        return Some(StyleKey::Geometry(i));
    }
    if same(key, TEXT_SIZE_KEY) {
        Some(StyleKey::TextSize)
    } else if same(key, FONT_FAMILY_KEY) {
        Some(StyleKey::FontFamily)
    } else {
        None
    }
}

/// What is reported about a `[style]` key the table does not accept: it is ignored.
pub fn unknown_style_key(key: &str) -> (d: Diagnostic)
    ensures
        d.condition == Condition::UnknownConfigKey,
        d.subject@ == "config.style."@ + key@,
        d.message@ == "unknown key, ignored"@,
{
    let mut subject = String::new();
    push_str(&mut subject, "config.style.");
    push_str(&mut subject, key);
    let mut message = String::new();
    push_str(&mut message, "unknown key, ignored");
    Diagnostic::new(Condition::UnknownConfigKey, subject, message)
}

// --- What the catalogues promise ---------------------------------------------------------

/// Every key the `[style]` table accepts, in catalogue order.
pub open spec fn style_keys() -> Seq<Seq<char>> {
    colour_keys() + geometry_keys() + seq!["text_size"@, "font_family"@]
}

/// No key is claimed twice, across all four catalogues, and no two built-in themes share a name:
/// so the key a user writes sets exactly one value, and every built-in theme can be chosen by
/// its name.
pub proof fn law_names_are_distinct()
    ensures
        forall|i: int, j: int| 0 <= i < j < style_keys().len() ==> style_keys()[i] != style_keys()[j],
        forall|i: int, j: int| 0 <= i < j < theme_names().len() ==> theme_names()[i] != theme_names()[j],
{
    reveal_strlit("backdrop");
    reveal_strlit("highlight");
    reveal_strlit("active_mark");
    reveal_strlit("text");
    reveal_strlit("text_highlighted");
    reveal_strlit("text_dim");
    reveal_strlit("text_dim_highlighted");
    reveal_strlit("miniature");
    reveal_strlit("window");
    reveal_strlit("window_floating");
    reveal_strlit("window_edge");
    reveal_strlit("text_line_height");
    reveal_strlit("row_padding");
    reveal_strlit("overlay_padding");
    reveal_strlit("width_fraction");
    reveal_strlit("height_fraction");
    reveal_strlit("grid_cell_width");
    reveal_strlit("grid_cell_height");
    reveal_strlit("grid_gap");
    reveal_strlit("corner_radius");
    reveal_strlit("mark_width");
    reveal_strlit("text_size");
    reveal_strlit("font_family");
    reveal_strlit("dark");
    reveal_strlit("light");
    let keys = style_keys();
    assert(keys.len() == 23);
    // Keys of one length differ in their first character, or in the one after `text_`.
    assert forall|i: int, j: int| 0 <= i < j < keys.len() implies keys[i] != keys[j] by {
        let (a, b) = (keys[i], keys[j]);
        assert(a.len() != b.len() || a[0] != b[0] || a[5] != b[5]);
    }
    assert(theme_names()[0][0] != theme_names()[1][0]);
}

} // verus!
