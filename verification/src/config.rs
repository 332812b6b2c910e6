//! Configuration: location, schema, defaults, and per-setting validation.
//!
//! Read once at start-up. Validation is deliberately per setting: one typo must not silently reset
//! the user's other choices. The file is TOML, read with the `toml` crate; what this module reads
//! of it is the top-level entries, each told apart by kind. The `[style]` table's entries and the
//! theme name are handed on as written, for the theme to judge.

use vstd::prelude::*;

use crate::diag::{debug_quoted, debug_text, Condition, Diagnostic};
use crate::seqs::{
    first_where, lemma_filter_take, lemma_filter_take_zero, lemma_first_where_facts, lemma_first_where_found,
    lemma_first_where_none,
};
use crate::state::index_of;
use crate::text::{chars_of, decimal, join_path, path_join, push_decimal, push_str, same};

verus! {

#[verifier::external_type_specification]
#[verifier::external_body]
#[verifier::reject_recursive_types(K)]
#[verifier::reject_recursive_types(V)]
pub struct ExTomlMap<K, V>(toml::map::Map<K, V>);

#[verifier::external_type_specification]
#[verifier::external_body]
pub struct ExTomlValue(toml::Value);

// --- The settings ---------------------------------------------------------------------

/// How workspaces are presented in the overlay.
#[derive(Debug, Clone, Copy, PartialEq, Eq, Structural)]
pub enum Presentation {
    /// One row per workspace: its name followed by the titles of its windows.
    List,
    /// A miniature of each workspace's layout, its name underneath.
    Grid,
}

/// Where the overlay is shown.
#[derive(Debug, Clone, Copy, PartialEq, Eq, Structural)]
pub enum Placement {
    /// Only on the monitor holding the focused workspace.
    ActiveMonitor,
    /// On every connected monitor, all showing the same highlight.
    AllMonitors,
}

/// The order entries appear in.
#[derive(Debug, Clone, Copy, PartialEq, Eq, Structural)]
pub enum Order {
    /// Most recently active first; the highlight opens on the second entry.
    Mru,
    /// The compositor's stable order; the highlight opens on the active workspace.
    Compositor,
    /// Grouped by monitor, stable within each group; highlight on the active workspace.
    Monitor,
}

impl Default for Presentation {
    fn default() -> (r: Self)
        ensures
            r == Presentation::List,
    {
        Presentation::List
    }
}

impl Default for Placement {
    fn default() -> (r: Self)
        ensures
            r == Placement::ActiveMonitor,
    {
        Placement::ActiveMonitor
    }
}

impl Default for Order {
    fn default() -> (r: Self)
        ensures
            r == Order::Mru,
    {
        Order::Mru
    }
}

/// Each presentation's name in the file.
pub open spec fn presentation_name(p: Presentation) -> Seq<char> {
    match p {
        Presentation::List => "list"@,
        Presentation::Grid => "grid"@,
    }
}

/// The presentation a name in the file stands for.
pub open spec fn presentation_named(raw: Seq<char>) -> Option<Presentation> {
    if raw == "list"@ {
        Some(Presentation::List)
    } else if raw == "grid"@ {
        Some(Presentation::Grid)
    } else {
        None
    }
}

/// Each placement's name in the file.
pub open spec fn placement_name(p: Placement) -> Seq<char> {
    match p {
        Placement::ActiveMonitor => "active"@,
        Placement::AllMonitors => "all"@,
    }
}

/// The placement a name in the file stands for.
pub open spec fn placement_named(raw: Seq<char>) -> Option<Placement> {
    if raw == "active"@ {
        Some(Placement::ActiveMonitor)
    } else if raw == "all"@ {
        Some(Placement::AllMonitors)
    } else {
        None
    }
}

/// Each order's name in the file.
pub open spec fn order_name(o: Order) -> Seq<char> {
    match o {
        Order::Mru => "mru"@,
        Order::Compositor => "compositor"@,
        Order::Monitor => "monitor"@,
    }
}

/// The order a name in the file stands for.
pub open spec fn order_named(raw: Seq<char>) -> Option<Order> {
    if raw == "mru"@ {
        Some(Order::Mru)
    } else if raw == "compositor"@ {
        Some(Order::Compositor)
    } else if raw == "monitor"@ {
        Some(Order::Monitor)
    } else {
        None
    }
}

impl Presentation {
    /// The setting's key in the file.
    pub const KEY: &'static str = "presentation";

    /// The name a message uses for this value.
    pub fn name(self) -> (s: &'static str)
        ensures
            s@ == presentation_name(self),
    {
        match self {
            Presentation::List => "list",
            Presentation::Grid => "grid",
        }
    }

    /// The value a name in the file stands for, if it is one of the accepted names.
    pub fn named(raw: &str) -> (r: Option<Self>)
        ensures
            r == presentation_named(raw@),
    {
        if same(raw, "list") {
            Some(Presentation::List)
        } else if same(raw, "grid") {
            Some(Presentation::Grid)
        } else {
            None
        }
    }
}

impl Placement {
    /// The setting's key in the file.
    pub const KEY: &'static str = "placement";

    /// The name a message uses for this value.
    pub fn name(self) -> (s: &'static str)
        ensures
            s@ == placement_name(self),
    {
        match self {
            Placement::ActiveMonitor => "active",
            Placement::AllMonitors => "all",
        }
    }

    /// The value a name in the file stands for, if it is one of the accepted names.
    pub fn named(raw: &str) -> (r: Option<Self>)
        ensures
            r == placement_named(raw@),
    {
        if same(raw, "active") {
            Some(Placement::ActiveMonitor)
        } else if same(raw, "all") {
            Some(Placement::AllMonitors)
        } else {
            None
        }
    }
}

impl Order {
    /// The setting's key in the file.
    pub const KEY: &'static str = "order";

    /// The name a message uses for this value.
    pub fn name(self) -> (s: &'static str)
        ensures
            s@ == order_name(self),
    {
        match self {
            Order::Mru => "mru",
            Order::Compositor => "compositor",
            Order::Monitor => "monitor",
        }
    }

    /// The value a name in the file stands for, if it is one of the accepted names.
    pub fn named(raw: &str) -> (r: Option<Self>)
        ensures
            r == order_named(raw@),
    {
        if same(raw, "mru") {
            Some(Order::Mru)
        } else if same(raw, "compositor") {
            Some(Order::Compositor)
        } else if same(raw, "monitor") {
            Some(Order::Monitor)
        } else {
            None
        }
    }
}

/// Every name of a setting round-trips: it stands for the value it names.
pub proof fn law_setting_names_round_trip(p: Presentation, l: Placement, o: Order)
    ensures
        presentation_named(presentation_name(p)) == Some(p),
        placement_named(placement_name(l)) == Some(l),
        order_named(order_name(o)) == Some(o),
{
    reveal_strlit("list");
    reveal_strlit("grid");
    reveal_strlit("active");
    reveal_strlit("all");
    reveal_strlit("mru");
    reveal_strlit("compositor");
    reveal_strlit("monitor");
    assert("grid"@[0] != "list"@[0]);
    assert("all"@.len() != "active"@.len());
    assert("compositor"@.len() != "mru"@.len());
    assert("monitor"@.len() != "mru"@.len());
    assert("monitor"@.len() != "compositor"@.len());
}

// --- The file's top level ---------------------------------------------------------------

/// One value inside the `[style]` table, as plain values: text, an integer, a float by its bits
/// (only the drawing code reads it as a float), or any other kind by its type name.
#[derive(Debug, Clone, PartialEq, Eq)]
pub enum StyleValue {
    Text(String),
    Integer(i64),
    Float(u64),
    Other(&'static str),
}

/// What a `[style]` value is, read as a view.
pub enum StyleKind {
    Text(Seq<char>),
    Integer(i64),
    Float(u64),
    Other(Seq<char>),
}

pub open spec fn style_kind_of(v: StyleValue) -> StyleKind {
    match v {
        StyleValue::Text(s) => StyleKind::Text(s@),
        StyleValue::Integer(n) => StyleKind::Integer(n),
        StyleValue::Float(bits) => StyleKind::Float(bits),
        StyleValue::Other(name) => StyleKind::Other(name@),
    }
}

/// `[style]` entries read as keys and kinds.
pub open spec fn style_kinds(entries: Seq<(String, StyleValue)>) -> Seq<(Seq<char>, StyleKind)> {
    entries.map_values(|e: (String, StyleValue)| (e.0@, style_kind_of(e.1)))
}

/// What a `toml` table holds: its entries in the order it iterates them, each value by kind —
/// a string's text, an integer, a float's bits, or any other kind's `type_str`.
pub uninterp spec fn table_contents(table: toml::Table) -> Seq<(Seq<char>, StyleKind)>;

/// Hands out a table's entries through its `IntoIterator`, telling `toml::Value`'s variants apart
/// one arm each: a string's text, an integer, a float's `to_bits`, and any other kind's
/// `type_str`. Claims only that this is what the table holds.
#[verifier::external_body]
fn style_entries(table: toml::Table) -> (r: Vec<(String, StyleValue)>)
    ensures
        style_kinds(r@) == table_contents(table),
{
    table.into_iter().map(|(key, value)| (key, match value {
        toml::Value::String(text) => StyleValue::Text(text),
        toml::Value::Integer(number) => StyleValue::Integer(number),
        toml::Value::Float(number) => StyleValue::Float(number.to_bits()),
        other => StyleValue::Other(other.type_str()),
    })).collect()
}

/// How a message names a value of a kind that is not what a style key takes.
pub open spec fn found_wording(kind: Seq<char>) -> Seq<char> {
    if kind == "boolean"@ {
        "a boolean"@
    } else if kind == "table"@ {
        "a table"@
    } else if kind == "array"@ {
        "an array"@
    } else if kind == "datetime"@ {
        "a datetime"@
    } else {
        "another kind of value"@
    }
}

/// Name a kind of value the way a style message does: "a boolean", "a table", "an array",
/// "a datetime", or "another kind of value".
pub fn found_as(kind: &str) -> (s: &'static str)
    ensures
        s@ == found_wording(kind@),
{
    if same(kind, "boolean") {
        "a boolean"
    } else if same(kind, "table") {
        "a table"
    } else if same(kind, "array") {
        "an array"
    } else if same(kind, "datetime") {
        "a datetime"
    } else {
        "another kind of value"
    }
}

/// One top-level value of the file, told apart by what the settings read of it.
#[derive(Debug)]
pub enum TopValue {
    Text(String),
    Boolean(bool),
    /// A table, carried through whole: only the theme reads inside one.
    Table(toml::Table),
    /// Any other kind of value, by its type name.
    Other(&'static str),
}

/// What the settings can see of a top-level value.
pub enum TopKind {
    Text(Seq<char>),
    Boolean(bool),
    Table(Seq<(Seq<char>, StyleKind)>),
    Other(Seq<char>),
}

pub open spec fn kind_of(v: TopValue) -> TopKind {
    match v {
        TopValue::Text(s) => TopKind::Text(s@),
        TopValue::Boolean(b) => TopKind::Boolean(b),
        TopValue::Table(t) => TopKind::Table(table_contents(t)),
        TopValue::Other(name) => TopKind::Other(name@),
    }
}

/// The top-level entries read as keys and kinds.
pub open spec fn entry_kinds(entries: Seq<(String, TopValue)>) -> Seq<(Seq<char>, TopKind)> {
    entries.map_values(|e: (String, TopValue)| (e.0@, kind_of(e.1)))
}

/// What `toml` makes of a file's text: its top-level entries in the table's order, or the parse
/// error's message and where it starts.
pub uninterp spec fn toml_reading(source: Seq<char>) -> Result<
    Seq<(Seq<char>, TopKind)>,
    (Seq<char>, Option<usize>),
>;

/// Why a file is not TOML at all.
#[derive(Debug, Clone, PartialEq, Eq)]
pub struct ParseProblem {
    pub message: String,
    /// The byte the problem starts at, when the parser could say.
    pub start: Option<usize>,
}

/// Parses the text with `<toml::Table as FromStr>::from_str` and hands back each top-level entry,
/// in the order the table iterates them, with its value told apart by kind (`type_str` names the
/// kinds the settings do not read); or the parse error's `message()` and the start of its
/// `span()`. Claims only that the result is what `toml` makes of this text.
#[verifier::external_body]
fn read_document(source: &str) -> (r: Result<Vec<(String, TopValue)>, ParseProblem>)
    ensures
        match r {
            Ok(entries) => toml_reading(source@) == Ok::<Seq<(Seq<char>, TopKind)>, (Seq<char>, Option<usize>)>(entry_kinds(entries@)),
            Err(p) => toml_reading(source@) == Err::<Seq<(Seq<char>, TopKind)>, (Seq<char>, Option<usize>)>((p.message@, p.start)),
        },
{
    match source.parse::<toml::Table>() {
        Ok(table) => Ok(table.into_iter().map(|(key, value)| (key, match value {
            toml::Value::String(text) => TopValue::Text(text),
            toml::Value::Boolean(flag) => TopValue::Boolean(flag),
            toml::Value::Table(inner) => TopValue::Table(inner),
            other => TopValue::Other(other.type_str()),
        })).collect()),
        Err(e) => Err(ParseProblem { message: e.message().to_owned(), start: e.span().map(|span| span.start) }),
    }
}

/// The type name a message gives a value that is not what a setting takes.
pub open spec fn kind_name(v: TopValue) -> Seq<char> {
    match v {
        TopValue::Text(_) => "string"@,
        TopValue::Boolean(_) => "boolean"@,
        TopValue::Table(_) => "table"@,
        TopValue::Other(name) => name@,
    }
}

fn kind_name_of(v: &TopValue) -> (s: &'static str)
    ensures
        s@ == kind_name(*v),
{
    match v {
        TopValue::Text(_) => "string",
        TopValue::Boolean(_) => "boolean",
        TopValue::Table(_) => "table",
        TopValue::Other(name) => name,
    }
}

/// The entries read as texts and values.
pub open spec fn entry_views(entries: Seq<(String, TopValue)>) -> Seq<(Seq<char>, TopValue)> {
    entries.map_values(|e: (String, TopValue)| (e.0@, e.1))
}

/// Whether the `i`-th entry has the key `key`.
pub open spec fn keyed(es: Seq<(Seq<char>, TopValue)>, key: Seq<char>) -> spec_fn(int) -> bool {
    |i: int| es[i].0 == key
}

/// The value under `key`: the first entry that has it.
pub open spec fn value_of(es: Seq<(Seq<char>, TopValue)>, key: Seq<char>) -> Option<TopValue> {
    match first_where(es.len() as int, keyed(es, key)) {
        Some(i) => Some(es[i].1),
        None => None,
    }
}

fn lookup(entries: &Vec<(String, TopValue)>, key: &str) -> (r: Option<usize>)
    ensures
        index_of(r) == first_where(entry_views(entries@).len() as int, keyed(entry_views(entries@), key@)),
        r matches Some(i) ==> i < entries@.len(),
{
    let ghost es = entry_views(entries@);
    let ghost p = keyed(es, key@);
    for i in 0..entries.len()
        invariant
            es == entry_views(entries@),
            p == keyed(es, key@),
            forall|j: int| 0 <= j < i ==> !#[trigger] p(j),
    {
        if same(entries[i].0.as_str(), key) {
            proof {
                crate::seqs::lemma_first_where_found(es.len() as int, p, i as int);
            }
            return Some(i);
        }
    }
    proof {
        crate::seqs::lemma_first_where_none(es.len() as int, p);
    }
    None
}

// --- What reading the settings reports ----------------------------------------------

/// A diagnostic read as its condition, subject and message.
pub open spec fn diag_view(d: Diagnostic) -> (Condition, Seq<char>, Seq<char>) {
    (d.condition, d.subject@, d.message@)
}

/// Diagnostics read as their views.
pub open spec fn diag_views(ds: Seq<Diagnostic>) -> Seq<(Condition, Seq<char>, Seq<char>)> {
    ds.map_values(|d: Diagnostic| diag_view(d))
}

/// The report for a fixed-vocabulary setting whose value is not one of its names: what was wrong,
/// the default used instead, and the names accepted.
pub open spec fn vocabulary_problem(
    key: Seq<char>,
    v: TopValue,
    default_name: Seq<char>,
    accepted: Seq<char>,
) -> (Condition, Seq<char>, Seq<char>) {
    (
        Condition::InvalidConfigValue,
        "config."@ + key,
        (match v {
            TopValue::Text(raw) => "unknown value "@ + debug_text(raw@),
            _ => "expected a string, found "@ + kind_name(v),
        }) + ", using default "@ + debug_text(default_name) + " (accepted: "@ + accepted + ")"@,
    )
}

/// The presentation a file's value gives, and what reading it reports.
pub open spec fn presentation_read(v: Option<TopValue>) -> (Presentation, Seq<(Condition, Seq<char>, Seq<char>)>) {
    match v {
        None => (Presentation::List, Seq::empty()),
        Some(v) => if v is Text && presentation_named(v->Text_0@) is Some {
            (presentation_named(v->Text_0@)->Some_0, Seq::empty())
        } else {
            (Presentation::List, seq![vocabulary_problem("presentation"@, v, "list"@, "list, grid"@)])
        },
    }
}

/// The placement a file's value gives, and what reading it reports.
pub open spec fn placement_read(v: Option<TopValue>) -> (Placement, Seq<(Condition, Seq<char>, Seq<char>)>) {
    match v {
        None => (Placement::ActiveMonitor, Seq::empty()),
        Some(v) => if v is Text && placement_named(v->Text_0@) is Some {
            (placement_named(v->Text_0@)->Some_0, Seq::empty())
        } else {
            (Placement::ActiveMonitor, seq![vocabulary_problem("placement"@, v, "active"@, "active, all"@)])
        },
    }
}

/// The order a file's value gives, and what reading it reports.
pub open spec fn order_read(v: Option<TopValue>) -> (Order, Seq<(Condition, Seq<char>, Seq<char>)>) {
    match v {
        None => (Order::Mru, Seq::empty()),
        Some(v) => if v is Text && order_named(v->Text_0@) is Some {
            (order_named(v->Text_0@)->Some_0, Seq::empty())
        } else {
            (Order::Mru, seq![vocabulary_problem("order"@, v, "mru"@, "mru, compositor, monitor"@)])
        },
    }
}

/// Whether icons are drawn, and what reading `icons` reports: a boolean, defaulting to shown.
pub open spec fn icons_read(v: Option<TopValue>) -> (bool, Seq<(Condition, Seq<char>, Seq<char>)>) {
    match v {
        None => (true, Seq::empty()),
        Some(TopValue::Boolean(b)) => (b, Seq::empty()),
        Some(v) => (
            true,
            seq![
                (
                    Condition::InvalidConfigValue,
                    "config."@ + "icons"@,
                    "expected true or false, found "@ + kind_name(v) + "; using true"@,
                ),
            ],
        ),
    }
}

/// A name-valued setting: the name, or nothing with a report of what was found instead and what
/// happens in its place.
pub open spec fn name_read(key: Seq<char>, v: Option<TopValue>, instead: Seq<char>) -> (
    Option<Seq<char>>,
    Seq<(Condition, Seq<char>, Seq<char>)>,
) {
    match v {
        None => (None, Seq::empty()),
        Some(TopValue::Text(s)) => (Some(s@), Seq::empty()),
        Some(v) => (
            None,
            seq![
                (
                    Condition::InvalidConfigValue,
                    "config."@ + key,
                    "expected a string, found "@ + kind_name(v) + "; "@ + instead,
                ),
            ],
        ),
    }
}

/// What reading `[style]` reports: a table, or nothing.
pub open spec fn style_read(v: Option<TopValue>) -> Seq<(Condition, Seq<char>, Seq<char>)> {
    match v {
        None => Seq::empty(),
        Some(TopValue::Table(_)) => Seq::empty(),
        Some(v) => seq![
            (
                Condition::InvalidConfigValue,
                "config."@ + "style"@,
                "expected a table of style values, found "@ + kind_name(v)
                    + "; using the theme's values throughout"@,
            ),
        ],
    }
}

/// Every top-level key the file accepts.
pub open spec fn accepted_key(key: Seq<char>) -> bool {
    key == "presentation"@ || key == "placement"@ || key == "order"@ || key == "icons"@ || key
        == "icon_set"@ || key == "theme"@ || key == "style"@
}

/// Whether a top-level key is one the file accepts.
pub fn is_accepted_key(key: &str) -> (r: bool)
    ensures
        r == accepted_key(key@),
{
    same(key, "presentation") || same(key, "placement") || same(key, "order") || same(key, "icons")
        || same(key, "icon_set") || same(key, "theme") || same(key, "style")
}

/// Whether an entry's key is one the file does not accept.
pub open spec fn unaccepted() -> spec_fn((Seq<char>, TopValue)) -> bool {
    |e: (Seq<char>, TopValue)| !accepted_key(e.0)
}

/// The report for each key the file does not accept, in the table's order: reported and ignored.
pub open spec fn unknown_keys(es: Seq<(Seq<char>, TopValue)>) -> Seq<(Condition, Seq<char>, Seq<char>)> {
    es.filter(unaccepted()).map_values(
        |e: (Seq<char>, TopValue)| (Condition::UnknownConfigKey, "config."@ + e.0, "unknown key, ignored"@),
    )
}

/// The report for a file that is not TOML at all: it cannot be attributed to one setting, so it is
/// reported with its position and every default is used.
pub open spec fn parse_problem(message: Seq<char>, start: Option<usize>) -> (Condition, Seq<char>, Seq<char>) {
    (
        Condition::InvalidConfigValue,
        "config"@,
        "not valid TOML"@ + (match start {
            Some(at) => " at byte "@ + decimal(at as nat),
            None => Seq::empty(),
        }) + ": "@ + message + ", using defaults for every setting"@,
    )
}

// --- Reading the settings ---------------------------------------------------------------

/// The settings a file gives, apart from its appearance.
#[derive(Debug)]
pub struct Settings {
    pub presentation: Presentation,
    pub placement: Placement,
    pub order: Order,
    /// Whether program icons are drawn at all.
    pub icons: bool,
    /// The icon set to draw from, or `None` to follow the desktop's configured set.
    pub icon_set: Option<String>,
    /// The built-in theme the file names, for the theme to judge.
    pub theme: Option<String>,
    /// The `[style]` table's entries as written, for the theme to judge.
    pub style: Option<Vec<(String, StyleValue)>>,
}

/// Settings read from a file, with what reading them reports.
///
/// The reports come in two runs, because the appearance's own reports go between them: first
/// those about the theme name and the `[style]` table, then those about every other setting and
/// the keys the file does not accept.
#[derive(Debug)]
pub struct SettingsRead {
    pub settings: Settings,
    pub appearance: Vec<Diagnostic>,
    pub rest: Vec<Diagnostic>,
}

/// An optional text read as its characters.
pub open spec fn opt_text(s: Option<String>) -> Option<Seq<char>> {
    match s {
        Some(s) => Some(s@),
        None => None,
    }
}

/// The `[style]` entries read as keys and kinds.
pub open spec fn style_view(style: Option<Vec<(String, StyleValue)>>) -> Option<Seq<(Seq<char>, StyleKind)>> {
    match style {
        Some(entries) => Some(style_kinds(entries@)),
        None => None,
    }
}

/// Whether `r` holds the defaults, reporting only `problems`.
pub open spec fn holds_defaults(r: SettingsRead) -> bool {
    &&& r.settings.presentation == Presentation::List
    &&& r.settings.placement == Placement::ActiveMonitor
    &&& r.settings.order == Order::Mru
    &&& r.settings.icons
    &&& r.settings.icon_set is None
    &&& r.settings.theme is None
    &&& r.settings.style is None
}

/// Whether `r` is what a file with these top-level entries gives.
pub open spec fn reads_entries(r: SettingsRead, es: Seq<(Seq<char>, TopValue)>) -> bool {
    &&& r.settings.presentation == presentation_read(value_of(es, "presentation"@)).0
    &&& r.settings.placement == placement_read(value_of(es, "placement"@)).0
    &&& r.settings.order == order_read(value_of(es, "order"@)).0
    &&& r.settings.icons == icons_read(value_of(es, "icons"@)).0
    &&& opt_text(r.settings.icon_set) == name_read(
        "icon_set"@,
        value_of(es, "icon_set"@),
        "following the desktop's configured set"@,
    ).0
    &&& opt_text(r.settings.theme) == name_read(
        "theme"@,
        value_of(es, "theme"@),
        "using the default theme"@,
    ).0
    &&& style_view(r.settings.style) == match value_of(es, "style"@) {
        Some(TopValue::Table(t)) => Some(table_contents(t)),
        _ => None,
    }
    &&& diag_views(r.appearance@) == name_read(
        "theme"@,
        value_of(es, "theme"@),
        "using the default theme"@,
    ).1 + style_read(value_of(es, "style"@))
    &&& diag_views(r.rest@) == presentation_read(value_of(es, "presentation"@)).1 + placement_read(
        value_of(es, "placement"@),
    ).1 + order_read(value_of(es, "order"@)).1 + icons_read(value_of(es, "icons"@)).1 + name_read(
        "icon_set"@,
        value_of(es, "icon_set"@),
        "following the desktop's configured set"@,
    ).1 + unknown_keys(es)
}

fn invalid(subject_key: &str, first: &str, found: &str, last: &str) -> (d: Diagnostic)
    ensures
        diag_view(d) == (Condition::InvalidConfigValue, "config."@ + subject_key@, first@ + found@ + last@),
{
    let mut subject = String::new();
    push_str(&mut subject, "config.");
    push_str(&mut subject, subject_key);
    let mut message = String::new();
    push_str(&mut message, first);
    push_str(&mut message, found);
    push_str(&mut message, last);
    Diagnostic::new(Condition::InvalidConfigValue, subject, message)
}

fn vocabulary_diagnostic(key: &str, v: &TopValue, default_name: &str, accepted: &str) -> (d: Diagnostic)
    ensures
        diag_view(d) == vocabulary_problem(key@, *v, default_name@, accepted@),
{
    let mut subject = String::new();
    push_str(&mut subject, "config.");
    push_str(&mut subject, key);
    let mut message = String::new();
    match v {
        TopValue::Text(raw) => {
            push_str(&mut message, "unknown value ");
            let quoted = debug_quoted(raw.as_str());
            push_str(&mut message, quoted.as_str());
        },
        _ => {
            push_str(&mut message, "expected a string, found ");
            push_str(&mut message, kind_name_of(v));
        },
    }
    push_str(&mut message, ", using default ");
    let quoted_default = debug_quoted(default_name);
    push_str(&mut message, quoted_default.as_str());
    push_str(&mut message, " (accepted: ");
    push_str(&mut message, accepted);
    push_str(&mut message, ")");
    Diagnostic::new(Condition::InvalidConfigValue, subject, message)
}

proof fn lemma_value_at(entries: Seq<(String, TopValue)>, key: Seq<char>, found: Option<usize>)
    requires
        index_of(found) == first_where(entry_views(entries).len() as int, keyed(entry_views(entries), key)),
    ensures
        match found {
            Some(i) => 0 <= i < entries.len() && value_of(entry_views(entries), key) == Some(entries[i as int].1),
            None => value_of(entry_views(entries), key) is None,
        },
{
    lemma_first_where_facts(entry_views(entries).len() as int, keyed(entry_views(entries), key));
}


proof fn lemma_views_append(
    all: Seq<Diagnostic>,
    first: Seq<(Condition, Seq<char>, Seq<char>)>,
    second: Seq<(Condition, Seq<char>, Seq<char>)>,
)
    requires
        exists|a: Seq<Diagnostic>, b: Seq<Diagnostic>| a + b == all && diag_views(a) == first && diag_views(b) == second,
    ensures
        diag_views(all) == first + second,
{
    let (a, b) = choose|a: Seq<Diagnostic>, b: Seq<Diagnostic>| a + b == all && diag_views(a) == first && diag_views(b) == second;
    assert(diag_views(all) =~= first + second);
}

fn append_views(rest: &mut Vec<Diagnostic>, more: &mut Vec<Diagnostic>)
    ensures
        diag_views(final(rest)@) == diag_views(old(rest)@) + diag_views(old(more)@),
{
    let ghost a = rest@;
    let ghost b = more@;
    rest.append(more);
    assert(diag_views(rest@) =~= diag_views(a) + diag_views(b));
}

/// A name-valued setting read from the entries.
fn read_name(entries: &Vec<(String, TopValue)>, key: &str, instead: &str) -> (r: (Option<String>, Vec<Diagnostic>))
    ensures
        opt_text(r.0) == name_read(key@, value_of(entry_views(entries@), key@), instead@).0,
        diag_views(r.1@) == name_read(key@, value_of(entry_views(entries@), key@), instead@).1,
{
    let at = lookup(entries, key);
    proof {
        lemma_value_at(entries@, key@, at);
    }
    let mut problems: Vec<Diagnostic> = Vec::new();
    let name = match at {
        None => None,
        Some(i) => match &entries[i].1 {
            TopValue::Text(name) => Some(name.clone()),
            other => {
                let mut last = String::new();
                push_str(&mut last, "; ");
                push_str(&mut last, instead);
                let d = invalid(key, "expected a string, found ", kind_name_of(other), last.as_str());
                assert(d.message@ =~= "expected a string, found "@ + kind_name(*other) + "; "@ + instead@);
                problems.push(d);
                None
            },
        },
    };
    assert(diag_views(problems@) =~= name_read(key@, value_of(entry_views(entries@), key@), instead@).1);
    (name, problems)
}

/// Where the `[style]` entry is when it holds a table, and the report when it holds anything else.
fn read_style_kind(entries: &Vec<(String, TopValue)>) -> (r: (Option<usize>, Vec<Diagnostic>))
    ensures
        diag_views(r.1@) == style_read(value_of(entry_views(entries@), "style"@)),
        match r.0 {
            Some(i) => i < entries@.len() && value_of(entry_views(entries@), "style"@) == Some(entries@[i as int].1)
                && entries@[i as int].1 is Table,
            None => !(value_of(entry_views(entries@), "style"@) matches Some(TopValue::Table(_))),
        },
{
    let at = lookup(entries, "style");
    proof {
        lemma_value_at(entries@, "style"@, at);
    }
    let mut problems: Vec<Diagnostic> = Vec::new();
    let table_at = match at {
        None => None,
        Some(i) => match &entries[i].1 {
            TopValue::Table(_) => Some(i),
            other => {
                problems.push(invalid("style", "expected a table of style values, found ", kind_name_of(other), "; using the theme's values throughout"));
                None
            },
        },
    };
    assert(diag_views(problems@) =~= style_read(value_of(entry_views(entries@), "style"@)));
    (table_at, problems)
}

fn read_presentation(entries: &Vec<(String, TopValue)>) -> (r: (Presentation, Vec<Diagnostic>))
    ensures
        r.0 == presentation_read(value_of(entry_views(entries@), "presentation"@)).0,
        diag_views(r.1@) == presentation_read(value_of(entry_views(entries@), "presentation"@)).1,
{
    let at = lookup(entries, "presentation");
    proof {
        lemma_value_at(entries@, "presentation"@, at);
    }
    let mut problems: Vec<Diagnostic> = Vec::new();
    let presentation = match at {
        None => Presentation::List,
        Some(i) => {
            let v = &entries[i].1;
            let named = match v {
                TopValue::Text(raw) => Presentation::named(raw.as_str()),
                _ => None,
            };
            match named {
                Some(p) => p,
                None => {
                    problems.push(vocabulary_diagnostic("presentation", v, "list", "list, grid"));
                    Presentation::List
                },
            }
        },
    };
    assert(diag_views(problems@) =~= presentation_read(value_of(entry_views(entries@), "presentation"@)).1);
    (presentation, problems)
}

fn read_placement(entries: &Vec<(String, TopValue)>) -> (r: (Placement, Vec<Diagnostic>))
    ensures
        r.0 == placement_read(value_of(entry_views(entries@), "placement"@)).0,
        diag_views(r.1@) == placement_read(value_of(entry_views(entries@), "placement"@)).1,
{
    let at = lookup(entries, "placement");
    proof {
        lemma_value_at(entries@, "placement"@, at);
    }
    let mut problems: Vec<Diagnostic> = Vec::new();
    let placement = match at {
        None => Placement::ActiveMonitor,
        Some(i) => {
            let v = &entries[i].1;
            let named = match v {
                TopValue::Text(raw) => Placement::named(raw.as_str()),
                _ => None,
            };
            match named {
                Some(p) => p,
                None => {
                    problems.push(vocabulary_diagnostic("placement", v, "active", "active, all"));
                    Placement::ActiveMonitor
                },
            }
        },
    };
    assert(diag_views(problems@) =~= placement_read(value_of(entry_views(entries@), "placement"@)).1);
    (placement, problems)
}

fn read_order(entries: &Vec<(String, TopValue)>) -> (r: (Order, Vec<Diagnostic>))
    ensures
        r.0 == order_read(value_of(entry_views(entries@), "order"@)).0,
        diag_views(r.1@) == order_read(value_of(entry_views(entries@), "order"@)).1,
{
    let at = lookup(entries, "order");
    proof {
        lemma_value_at(entries@, "order"@, at);
    }
    let mut problems: Vec<Diagnostic> = Vec::new();
    let order = match at {
        None => Order::Mru,
        Some(i) => {
            let v = &entries[i].1;
            let named = match v {
                TopValue::Text(raw) => Order::named(raw.as_str()),
                _ => None,
            };
            match named {
                Some(o) => o,
                None => {
                    problems.push(vocabulary_diagnostic("order", v, "mru", "mru, compositor, monitor"));
                    Order::Mru
                },
            }
        },
    };
    assert(diag_views(problems@) =~= order_read(value_of(entry_views(entries@), "order"@)).1);
    (order, problems)
}

fn read_icons(entries: &Vec<(String, TopValue)>) -> (r: (bool, Vec<Diagnostic>))
    ensures
        r.0 == icons_read(value_of(entry_views(entries@), "icons"@)).0,
        diag_views(r.1@) == icons_read(value_of(entry_views(entries@), "icons"@)).1,
{
    let at = lookup(entries, "icons");
    proof {
        lemma_value_at(entries@, "icons"@, at);
    }
    let mut problems: Vec<Diagnostic> = Vec::new();
    let icons = match at {
        None => true,
        Some(i) => match &entries[i].1 {
            TopValue::Boolean(b) => *b,
            other => {
                problems.push(invalid("icons", "expected true or false, found ", kind_name_of(other), "; using true"));
                true
            },
        },
    };
    assert(diag_views(problems@) =~= icons_read(value_of(entry_views(entries@), "icons"@)).1);
    (icons, problems)
}

fn unknown_key_problems(entries: &Vec<(String, TopValue)>) -> (r: Vec<Diagnostic>)
    ensures
        diag_views(r@) == unknown_keys(entry_views(entries@)),
{
    let ghost es = entry_views(entries@);
    let mut problems: Vec<Diagnostic> = Vec::new();
    proof {
        lemma_filter_take_zero(es, unaccepted());
    }
    for i in 0..entries.len()
        invariant
            es == entry_views(entries@),
            diag_views(problems@) == unknown_keys(es.take(i as int)),
    {
        proof {
            lemma_filter_take(es, unaccepted(), i as int);
        }
        let ghost before = diag_views(problems@);
        if !is_accepted_key(entries[i].0.as_str()) {
            let mut subject = String::new();
            push_str(&mut subject, "config.");
            push_str(&mut subject, entries[i].0.as_str());
            let mut message = String::new();
            push_str(&mut message, "unknown key, ignored");
            problems.push(Diagnostic::new(Condition::UnknownConfigKey, subject, message));
            assert(diag_views(problems@) =~= before.push(
                (Condition::UnknownConfigKey, "config."@ + es[i as int].0, "unknown key, ignored"@),
            ));
        }
        assert(diag_views(problems@) =~= unknown_keys(es.take(i + 1)));
    }
    assert(es.take(entries.len() as int) =~= es);
    problems
}

/// The settings a file's top-level entries give, and what reading them reports — or, for a file
/// that is not TOML, every default and the one report that says so.
pub fn settings_from(document: Result<Vec<(String, TopValue)>, ParseProblem>) -> (r: SettingsRead)
    ensures
        match document {
            Err(p) => holds_defaults(r) && r.appearance@.len() == 0 && diag_views(r.rest@) == seq![
                parse_problem(p.message@, p.start),
            ],
            Ok(entries) => reads_entries(r, entry_views(entries@)),
        },
{
    let mut entries = match document {
        Err(problem) => {
            let mut message = String::new();
            push_str(&mut message, "not valid TOML");
            match problem.start {
                Some(at) => {
                    push_str(&mut message, " at byte ");
                    push_decimal(&mut message, at as u64);
                },
                None => {},
            }
            push_str(&mut message, ": ");
            push_str(&mut message, problem.message.as_str());
            push_str(&mut message, ", using defaults for every setting");
            assert(message@ =~= parse_problem(problem.message@, problem.start).2);
            let mut subject = String::new();
            push_str(&mut subject, "config");
            let mut rest: Vec<Diagnostic> = Vec::new();
            rest.push(Diagnostic::new(Condition::InvalidConfigValue, subject, message));
            assert(diag_views(rest@) =~= seq![parse_problem(problem.message@, problem.start)]);
            return SettingsRead {
                settings: Settings {
                    presentation: Presentation::List,
                    placement: Placement::ActiveMonitor,
                    order: Order::Mru,
                    icons: true,
                    icon_set: None,
                    theme: None,
                    style: None,
                },
                appearance: Vec::new(),
                rest,
            };
        },
        Ok(entries) => entries,
    };
    let ghost es = entry_views(entries@);
    let (theme, mut appearance) = read_name(&entries, "theme", "using the default theme");
    let (style_at, mut style_problems) = read_style_kind(&entries);
    let ghost theme_views = diag_views(appearance@);
    let ghost style_views = diag_views(style_problems@);
    appearance.append(&mut style_problems);
    proof {
        lemma_views_append(appearance@, theme_views, style_views);
    }
    let (presentation, mut rest) = read_presentation(&entries);
    let (placement, mut more) = read_placement(&entries);
    append_views(&mut rest, &mut more);
    let (order, mut more) = read_order(&entries);
    append_views(&mut rest, &mut more);
    let (icons, mut more) = read_icons(&entries);
    append_views(&mut rest, &mut more);
    let (icon_set, mut more) = read_name(&entries, "icon_set", "following the desktop's configured set");
    append_views(&mut rest, &mut more);
    let mut more = unknown_key_problems(&entries);
    append_views(&mut rest, &mut more);

    // The `[style]` table itself, moved out last so that no index above shifts.
    let style = match style_at {
        Some(i) => {
            {
                let (_, value) = entries.remove(i);
                match value {
                    TopValue::Table(table) => Some(style_entries(table)),
                    _ => None,
                }
            }
        },
        None => None,
    };
    SettingsRead {
        settings: Settings { presentation, placement, order, icons, icon_set, theme, style },
        appearance,
        rest,
    }
}

/// Whether the `i`-th entry has the key `key`, among entries read as kinds.
pub open spec fn kind_keyed(kinds: Seq<(Seq<char>, TopKind)>, key: Seq<char>) -> spec_fn(int) -> bool {
    |i: int| kinds[i].0 == key
}

/// The `[style]` table's entries in what `toml` made of a file: those of the first entry keyed
/// `style`, when it is a table.
pub open spec fn style_in(kinds: Seq<(Seq<char>, TopKind)>) -> Option<Seq<(Seq<char>, StyleKind)>> {
    match first_where(kinds.len() as int, kind_keyed(kinds, "style"@)) {
        Some(i) => match kinds[i].1 {
            TopKind::Table(t) => Some(t),
            _ => None,
        },
        None => None,
    }
}

/// The first entry keyed `key` is the same one whether the entries are read as values or as
/// kinds.
proof fn lemma_same_first_key(entries: Seq<(String, TopValue)>, key: Seq<char>)
    ensures
        first_where(entries.len() as int, keyed(entry_views(entries), key)) == first_where(
            entries.len() as int,
            kind_keyed(entry_kinds(entries), key),
        ),
{
    let n = entries.len() as int;
    let p = keyed(entry_views(entries), key);
    let q = kind_keyed(entry_kinds(entries), key);
    assert forall|j: int| 0 <= j < n implies #[trigger] p(j) == q(j) by {
        assert(entry_views(entries)[j].0 == entries[j].0@);
        assert(entry_kinds(entries)[j].0 == entries[j].0@);
    }
    lemma_first_where_facts(n, p);
    lemma_first_where_facts(n, q);
    match first_where(n, p) {
        Some(i) => {
            assert(q(i)) by {
                assert(p(i));
            }
            assert forall|j: int| 0 <= j < i implies !#[trigger] q(j) by {
                assert(!p(j));
            }
            lemma_first_where_found(n, q, i);
        },
        None => {
            assert forall|j: int| 0 <= j < n implies !#[trigger] q(j) by {
                assert(!p(j));
            }
            lemma_first_where_none(n, q);
        },
    }
}

/// Read the settings out of a file's text. Never fails: an unusable file yields the documented
/// defaults and a diagnostic, because the application must carry on.
pub fn read_settings(source: &str) -> (r: SettingsRead)
    ensures
        match toml_reading(source@) {
            Err((message, start)) => holds_defaults(r) && r.appearance@.len() == 0 && diag_views(r.rest@)
                == seq![parse_problem(message, start)],
            Ok(kinds) => {
                &&& style_view(r.settings.style) == style_in(kinds)
                &&& exists|entries: Seq<(String, TopValue)>| entry_kinds(entries) == kinds && reads_entries(r, entry_views(entries))
            },
        },
{
    let document = read_document(source);
    let ghost d = document;
    let r = settings_from(document);
    proof {
        match d {
            Ok(entries) => {
                assert(entry_kinds(entries@) == entry_kinds(entries@) && reads_entries(r, entry_views(entries@)));
                lemma_same_first_key(entries@, "style"@);
                let n = entries@.len() as int;
                lemma_first_where_facts(n, keyed(entry_views(entries@), "style"@));
                match first_where(n, keyed(entry_views(entries@), "style"@)) {
                    Some(i) => {
                        assert(entry_views(entries@)[i].1 == entries@[i].1);
                        assert(entry_kinds(entries@)[i].1 == kind_of(entries@[i].1));
                    },
                    None => {},
                }
            },
            Err(_) => {},
        }
    }
    r
}

// --- Where the file is, and what happens when it cannot be read ----------------------------

/// `$XDG_CONFIG_HOME/hypr-swap/config.toml`, falling back to `~/.config/hypr-swap/config.toml`;
/// an empty `XDG_CONFIG_HOME` counts as unset, and with neither there is no default location.
pub open spec fn default_location(xdg_config_home: Option<Seq<char>>, home: Option<Seq<char>>) -> Option<Seq<char>> {
    let base = match xdg_config_home {
        Some(dir) if dir.len() > 0 => Some(dir),
        _ => match home {
            Some(home) => Some(path_join(home, ".config"@)),
            None => None,
        },
    };
    match base {
        Some(base) => Some(path_join(path_join(base, "hypr-swap"@), "config.toml"@)),
        None => None,
    }
}

/// The default configuration file location, given the two environment variables it depends on.
pub fn resolve_default_path(xdg_config_home: Option<&str>, home: Option<&str>) -> (r: Option<String>)
    ensures
        opt_text(r) == default_location(
            match xdg_config_home {
                Some(x) => Some(x@),
                None => None,
            },
            match home {
                Some(h) => Some(h@),
                None => None,
            },
        ),
{
    let base = match xdg_config_home {
        Some(dir) if chars_of(dir).len() > 0 => crate::text::string_of(&chars_of(dir)),
        _ => match home {
            Some(home) => join_path(home, ".config"),
            None => return None,
        },
    };
    let dir = join_path(base.as_str(), "hypr-swap");
    Some(join_path(dir.as_str(), "config.toml"))
}

/// Why a configuration file named explicitly with `--config` could not be used. Carries the path
/// and, for an unreadable file, the system's words for why.
#[derive(Debug, Clone, PartialEq, Eq)]
pub enum LoadError {
    NotFound(String),
    Unreadable(String, String),
}

/// How a load error reads in a diagnostic.
pub open spec fn load_error_text(e: LoadError) -> Seq<char> {
    match e {
        LoadError::NotFound(path) => path@ + " does not exist"@,
        LoadError::Unreadable(path, cause) => path@ + " could not be read: "@ + cause@,
    }
}

impl LoadError {
    /// The error as a diagnostic reads it.
    pub fn to_string(&self) -> (s: String)
        ensures
            s@ == load_error_text(*self),
    {
        let mut s = String::new();
        match self {
            LoadError::NotFound(path) => {
                push_str(&mut s, path.as_str());
                push_str(&mut s, " does not exist");
            },
            LoadError::Unreadable(path, cause) => {
                push_str(&mut s, path.as_str());
                push_str(&mut s, " could not be read: ");
                push_str(&mut s, cause.as_str());
            },
        }
        s
    }
}

/// What a file that could not be read comes to. At the default location a missing file is the
/// normal case and silent, and an unreadable one is reported and the defaults used; a file named
/// explicitly is an error either way. `Ok` is the report to make, if any, before carrying on with
/// the defaults.
pub fn unread_file(path: &str, required: bool, missing: bool, cause: &str) -> (r: Result<Option<Diagnostic>, LoadError>)
    ensures
        missing && !required ==> r == Ok::<Option<Diagnostic>, LoadError>(None),
        missing && required ==> (r matches Err(LoadError::NotFound(p)) && p@ == path@),
        !missing && required ==> (r matches Err(LoadError::Unreadable(p, c)) && p@ == path@ && c@
            == cause@),
        !missing && !required ==> (r matches Ok(Some(d)) && diag_view(d) == (
            Condition::InvalidConfigValue,
            "config"@,
            path@ + " could not be read: "@ + cause@ + ", using defaults"@,
        )),
{
    let path_text = crate::text::string_of(&chars_of(path));
    if missing && !required {
        Ok(None)
    } else if missing {
        Err(LoadError::NotFound(path_text))
    } else if required {
        Err(LoadError::Unreadable(path_text, crate::text::string_of(&chars_of(cause))))
    } else {
        let mut subject = String::new();
        push_str(&mut subject, "config");
        let mut message = String::new();
        push_str(&mut message, path);
        push_str(&mut message, " could not be read: ");
        push_str(&mut message, cause);
        push_str(&mut message, ", using defaults");
        Ok(Some(Diagnostic::new(Condition::InvalidConfigValue, subject, message)))
    }
}


// --- What differs from the defaults -------------------------------------------------------

/// `key = value` lines for the settings that differ from their defaults, in the order the
/// settings are documented: the three behaviour settings by name, then whether icons are drawn,
/// then the icon set. Read from the resolved settings rather than the file, so a key this program
/// does not recognise, or a comment, can never leak into a report.
pub open spec fn setting_differences(
    presentation: Presentation,
    placement: Placement,
    order: Order,
    icons: bool,
    icon_set: Option<Seq<char>>,
) -> Seq<Seq<char>> {
    (if presentation != Presentation::List {
        seq!["presentation"@ + " = "@ + debug_text(presentation_name(presentation))]
    } else {
        Seq::empty()
    }) + (if placement != Placement::ActiveMonitor {
        seq!["placement"@ + " = "@ + debug_text(placement_name(placement))]
    } else {
        Seq::empty()
    }) + (if order != Order::Mru {
        seq!["order"@ + " = "@ + debug_text(order_name(order))]
    } else {
        Seq::empty()
    }) + (if !icons {
        seq!["icons = false"@]
    } else {
        Seq::empty()
    }) + (match icon_set {
        Some(set) => seq!["icon_set"@ + " = "@ + debug_text(set)],
        None => Seq::empty(),
    })
}

fn named_line(key: &str, name: &str) -> (line: String)
    ensures
        line@ == key@ + " = "@ + debug_text(name@),
{
    let mut line = String::new();
    push_str(&mut line, key);
    push_str(&mut line, " = ");
    let quoted = debug_quoted(name);
    push_str(&mut line, quoted.as_str());
    line
}

/// Strings read as their texts.
pub open spec fn texts_of(v: Seq<String>) -> Seq<Seq<char>> {
    v.map_values(|l: String| l@)
}

/// The settings other than the appearance that differ from their defaults, as `key = value`
/// lines in the file's own key names.
pub fn differences_from_defaults(
    presentation: Presentation,
    placement: Placement,
    order: Order,
    icons: bool,
    icon_set: Option<&str>,
) -> (lines: Vec<String>)
    ensures
        texts_of(lines@) == setting_differences(
            presentation,
            placement,
            order,
            icons,
            match icon_set {
                Some(s) => Some(s@),
                None => None,
            },
        ),
{
    let mut lines: Vec<String> = Vec::new();
    if presentation != Presentation::List {
        lines.push(named_line("presentation", presentation.name()));
    }
    let ghost part = if presentation != Presentation::List {
        seq!["presentation"@ + " = "@ + debug_text(presentation_name(presentation))]
    } else {
        Seq::<Seq<char>>::empty()
    };
    assert(texts_of(lines@) =~= part);
    if placement != Placement::ActiveMonitor {
        let ghost before = texts_of(lines@);
        lines.push(named_line("placement", placement.name()));
        assert(texts_of(lines@) =~= before.push("placement"@ + " = "@ + debug_text(placement_name(placement))));
    }
    let ghost part = part + if placement != Placement::ActiveMonitor {
        seq!["placement"@ + " = "@ + debug_text(placement_name(placement))]
    } else {
        Seq::<Seq<char>>::empty()
    };
    assert(texts_of(lines@) =~= part);
    if order != Order::Mru {
        let ghost before = texts_of(lines@);
        lines.push(named_line("order", order.name()));
        assert(texts_of(lines@) =~= before.push("order"@ + " = "@ + debug_text(order_name(order))));
    }
    let ghost part = part + if order != Order::Mru {
        seq!["order"@ + " = "@ + debug_text(order_name(order))]
    } else {
        Seq::<Seq<char>>::empty()
    };
    assert(texts_of(lines@) =~= part);
    if !icons {
        let ghost before = texts_of(lines@);
        let mut line = String::new();
        push_str(&mut line, "icons = false");
        lines.push(line);
        assert(texts_of(lines@) =~= before.push("icons = false"@));
    }
    let ghost part = part + if !icons {
        seq!["icons = false"@]
    } else {
        Seq::<Seq<char>>::empty()
    };
    assert(texts_of(lines@) =~= part);
    match icon_set {
        Some(set) => {
            let ghost before = texts_of(lines@);
            lines.push(named_line("icon_set", set));
            assert(texts_of(lines@) =~= before.push("icon_set"@ + " = "@ + debug_text(set@)));
        },
        None => {},
    }
    lines
}

} // verus!
