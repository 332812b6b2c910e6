//! Diagnostics: the stderr record format and the notification policy.
//!
//! The user has no terminal attached, so stderr is the complete record and notifications are
//! reserved for what the user must act on. Every diagnostic string in the application takes its
//! shape here, and the policy — which level a condition reports at, and whether it notifies —
//! lives in [`Condition`] and nowhere else. Writing the record and raising the notification is
//! the program's edge.

use vstd::prelude::*;

use crate::text::{chars_of, decimal, push_chars, push_decimal, push_str};

verus! {

/// Severity, as it appears at the start of every stderr record.
#[derive(Debug, Clone, Copy, PartialEq, Eq, Structural)]
pub enum Level {
    Error,
    Warn,
    Info,
}

/// How a level is spelled in a record.
pub open spec fn level_text(level: Level) -> Seq<char> {
    match level {
        Level::Error => "ERROR"@,
        Level::Warn => "WARN"@,
        Level::Info => "INFO"@,
    }
}

impl Level {
    pub fn as_str(self) -> (s: &'static str)
        ensures
            s@ == level_text(self),
    {
        match self {
            Level::Error => "ERROR",
            Level::Warn => "WARN",
            Level::Info => "INFO",
        }
    }
}

/// Every condition the application reports.
///
/// This enum *is* the notification policy table: a condition's level, whether it raises a
/// desktop notification, and the notification summary it uses are all answered here, so the
/// policy cannot drift between call sites.
#[derive(Debug, Clone, Copy, PartialEq, Eq, Structural)]
pub enum Condition {
    /// An invalid value for one configuration setting.
    InvalidConfigValue,
    /// A key in the configuration file that the application does not recognise.
    UnknownConfigKey,
    /// A named global shortcut could not be registered with the compositor.
    ShortcutRegistrationFailed,
    /// Another instance already holds the named shortcuts.
    SecondInstance,
    /// The compositor could not be reached at start-up.
    CompositorUnreachableAtStartup,
    /// The command line could not be parsed. Never notified: the user is at the terminal they
    /// typed it in.
    UsageError,
    /// Connection lost, retrying, or reconnected — self-recovering, so never notified.
    CompositorConnection,
    /// A swap failed and was rolled back.
    SwapRolledBack,
    /// The rollback of a failed swap itself failed.
    RollbackFailed,
    /// A committed selection was dropped because its target workspace had gone.
    SelectionTargetVanished,
    /// The overlay could not take exclusive keyboard focus, so the session was abandoned.
    OverlayFocusRefused,
    /// Delivering a notification failed — reported on stderr only, never notified.
    NotifyDeliveryFailed,
    /// An icon file exists but is malformed or unreadable. Never notified: the overlay is
    /// perfectly usable with the placeholder in that slot — but it is worth a record.
    IconUnreadable,
}

/// The level each condition reports at.
pub open spec fn level_of(c: Condition) -> Level {
    match c {
        Condition::InvalidConfigValue | Condition::UnknownConfigKey
        | Condition::NotifyDeliveryFailed | Condition::IconUnreadable => Level::Warn,
        Condition::ShortcutRegistrationFailed | Condition::SecondInstance
        | Condition::CompositorUnreachableAtStartup | Condition::UsageError
        | Condition::SwapRolledBack | Condition::RollbackFailed
        | Condition::OverlayFocusRefused => Level::Error,
        Condition::CompositorConnection | Condition::SelectionTargetVanished => Level::Info,
    }
}

/// The notification summary of each condition the user has to act on.
pub open spec fn summary_of(c: Condition) -> Option<Seq<char>> {
    match c {
        Condition::InvalidConfigValue => Some("hypr-swap: configuration problem"@),
        Condition::ShortcutRegistrationFailed | Condition::SecondInstance => Some(
            "hypr-swap: shortcut not registered"@,
        ),
        Condition::CompositorUnreachableAtStartup => Some("hypr-swap: cannot reach Hyprland"@),
        Condition::SwapRolledBack | Condition::RollbackFailed => Some("hypr-swap: swap failed"@),
        _ => None,
    }
}

/// A static text read as its characters.
pub open spec fn static_text(s: Option<&'static str>) -> Option<Seq<char>> {
    match s {
        Some(s) => Some(s@),
        None => None,
    }
}

impl Condition {
    pub fn level(self) -> (l: Level)
        ensures
            l == level_of(self),
    {
        match self {
            Condition::InvalidConfigValue | Condition::UnknownConfigKey
            | Condition::NotifyDeliveryFailed | Condition::IconUnreadable => Level::Warn,
            Condition::ShortcutRegistrationFailed | Condition::SecondInstance
            | Condition::CompositorUnreachableAtStartup | Condition::UsageError
            | Condition::SwapRolledBack | Condition::RollbackFailed
            | Condition::OverlayFocusRefused => Level::Error,
            Condition::CompositorConnection | Condition::SelectionTargetVanished => Level::Info,
        }
    }

    /// The notification summary for conditions the user has to act on, or `None` for conditions
    /// the application recovers from on its own.
    pub fn summary(self) -> (s: Option<&'static str>)
        ensures
            static_text(s) == summary_of(self),
    {
        match self {
            Condition::InvalidConfigValue => Some("hypr-swap: configuration problem"),
            Condition::ShortcutRegistrationFailed | Condition::SecondInstance => Some(
                "hypr-swap: shortcut not registered",
            ),
            Condition::CompositorUnreachableAtStartup => Some("hypr-swap: cannot reach Hyprland"),
            Condition::SwapRolledBack | Condition::RollbackFailed => Some(
                "hypr-swap: swap failed",
            ),
            _ => None,
        }
    }

    /// Whether this condition accompanies its stderr record with a desktop notification.
    pub fn notifies(self) -> (r: bool)
        ensures
            r == summary_of(self) is Some,
    {
        self.summary().is_some()
    }
}

/// One thing worth telling the user about, built rather than printed.
///
/// Validation builds these instead of writing to stderr itself, so a whole schema — including the
/// exact subject each problem is reported under — can be checked without capturing output.
#[derive(Debug, Clone, PartialEq, Eq)]
pub struct Diagnostic {
    pub condition: Condition,
    pub subject: String,
    pub message: String,
}

impl Diagnostic {
    /// Build one, so the three fields are never assembled in a different order at a call site.
    pub fn new(condition: Condition, subject: String, message: String) -> (d: Self)
        ensures
            d.condition == condition,
            d.subject@ == subject@,
            d.message@ == message@,
    {
        Diagnostic { condition, subject, message }
    }
}

/// `text` padded with spaces on the right to `width` characters, as `{:<width}` formats it.
pub open spec fn padded(text: Seq<char>, width: nat) -> Seq<char> {
    if text.len() >= width {
        text
    } else {
        text + Seq::new((width - text.len()) as nat, |i: int| ' ')
    }
}

/// The one stderr record shape: `<LEVEL> <subject>: <message>`, the level padded to five
/// characters so records line up in a journal.
pub open spec fn record(level: Level, subject: Seq<char>, message: Seq<char>) -> Seq<char> {
    padded(level_text(level), 5) + " "@ + subject + ": "@ + message
}

/// The one stderr record shape. No timestamp, because whatever supervises the process adds one.
pub fn format_record(level: Level, subject: &str, message: &str) -> (r: String)
    ensures
        r@ == record(level, subject@, message@),
{
    let text = chars_of(level.as_str());
    let mut r = String::new();
    push_chars(&mut r, &text);
    let mut width = text.len();
    while width < 5
        invariant
            text@ == level_text(level),
            text@.len() <= width <= 5 || (width == text@.len() && width > 5),
            r@ == text@ + Seq::new((width - text@.len()) as nat, |i: int| ' '),
        decreases 5 - width,
    {
        let ghost before = r@;
        r.push(' ');
        assert(r@ =~= text@ + Seq::new((width + 1 - text@.len()) as nat, |i: int| ' '));
        width += 1;
    }
    assert(r@ =~= padded(level_text(level), 5));
    push_str(&mut r, " ");
    push_str(&mut r, subject);
    push_str(&mut r, ": ");
    push_str(&mut r, message);
    r
}

/// What a report raises on the desktop: the summary, and a body that carries the subject as well
/// as the message, because a notification is read on its own.
pub open spec fn notification_of(c: Condition, subject: Seq<char>, message: Seq<char>) -> Option<
    (Seq<char>, Seq<char>),
> {
    match summary_of(c) {
        Some(summary) => Some((summary, subject + ": "@ + message)),
        None => None,
    }
}

/// The notification a report raises, or `None` for a condition that only reaches stderr.
pub fn notification(condition: Condition, subject: &str, message: &str) -> (r: Option<(String, String)>)
    ensures
        match r {
            Some((summary, body)) => notification_of(condition, subject@, message@) == Some((summary@, body@)),
            None => notification_of(condition, subject@, message@) is None,
        },
{
    match condition.summary() {
        Some(summary) => {
            let mut s = String::new();
            push_str(&mut s, summary);
            let mut body = String::new();
            push_str(&mut body, subject);
            push_str(&mut body, ": ");
            push_str(&mut body, message);
            Some((s, body))
        },
        None => None,
    }
}

// --- Paint records ----------------------------------------------------------------------

/// The environment gate that turns on one record per painted entry, the evidence an end-to-end
/// suite asserts on in place of screenshots. Unset — always the case in normal use — there are no
/// records at all.
pub const PAINT_RECORDS_VAR: &'static str = "HYPR_SWAP_E2E_PAINT_RECORDS";

/// The subject every paint record is reported under, so a test can filter the daemon's stderr for
/// exactly these lines.
pub const PAINT_SUBJECT: &'static str = "paint";

/// Whether paint records are wanted: the variable is set, and set to something.
pub fn records_wanted(value: Option<&str>) -> (r: bool)
    ensures
        r == (value matches Some(v) && v@.len() > 0),
{
    match value {
        Some(v) => chars_of(v).len() > 0,
        None => false,
    }
}

/// `entry <index> <presentation>: <detail>`.
pub open spec fn entry_record(index: nat, presentation: Seq<char>, detail: Seq<char>) -> Seq<char> {
    "entry "@ + decimal(index) + " "@ + presentation + ": "@ + detail
}

/// The record one painted entry produces.
pub fn paint_record(index: usize, presentation: &str, detail: &str) -> (r: String)
    ensures
        r@ == entry_record(index as nat, presentation@, detail@),
{
    let mut r = String::new();
    push_str(&mut r, "entry ");
    push_decimal(&mut r, index as u64);
    push_str(&mut r, " ");
    push_str(&mut r, presentation);
    push_str(&mut r, ": ");
    push_str(&mut r, detail);
    r
}

/// Texts joined by single spaces.
pub open spec fn spaced(items: Seq<Seq<char>>) -> Seq<char>
    decreases items.len(),
{
    if items.len() == 0 {
        Seq::empty()
    } else if items.len() == 1 {
        items[0]
    } else {
        spaced(items.drop_last()) + " "@ + items.last()
    }
}

fn push_spaced(out: &mut String, items: &[String])
    ensures
        final(out)@ == old(out)@ + spaced(items@.map_values(|s: String| s@)),
{
    let ghost start = out@;
    let ghost all = items@.map_values(|s: String| s@);
    for i in 0..items.len()
        invariant
            all == items@.map_values(|s: String| s@),
            out@ == start + spaced(all.take(i as int)),
    {
        proof {
            let t = all.take(i + 1);
            assert(t.drop_last() =~= all.take(i as int));
            assert(t.last() == items@[i as int]@);
            if i == 0 {
                assert(all.take(0) =~= Seq::<Seq<char>>::empty());
                assert(t[0] == items@[0]@);
            }
        }
        if i > 0 {
            push_str(out, " ");
        }
        push_str(out, items[i].as_str());
        assert(out@ =~= start + spaced(all.take(i + 1)));
    }
    assert(all.take(items.len() as int) =~= all);
}

/// `colours <presentation>: [<colour> <colour> …]`.
pub open spec fn colours_record(presentation: Seq<char>, colours: Seq<Seq<char>>) -> Seq<char> {
    "colours "@ + presentation + ": ["@ + spaced(colours) + "]"@
}

/// The record one paint's colours produce: every colour handed to the renderer over that paint,
/// in the order they were first used.
pub fn paint_colours_record(presentation: &str, colours: &[String]) -> (r: String)
    ensures
        r@ == colours_record(presentation@, colours@.map_values(|s: String| s@)),
{
    let mut r = String::new();
    push_str(&mut r, "colours ");
    push_str(&mut r, presentation);
    push_str(&mut r, ": [");
    push_spaced(&mut r, colours);
    push_str(&mut r, "]");
    r
}

/// What `{:?}` makes of a string: the text in double quotes, with the characters that would be
/// ambiguous there escaped.
pub uninterp spec fn debug_text(s: Seq<char>) -> Seq<char>;

/// A string as `{:?}` spells it, through `<str as Debug>::fmt`.
#[verifier::external_body]
pub(crate) fn debug_quoted(s: &str) -> (q: String)
    ensures
        q@ == debug_text(s@),
{
    format!("{s:?}")
}

/// Families as a record spells them: each quoted, because a family name has spaces in it.
pub open spec fn quoted(families: Seq<Seq<char>>) -> Seq<char> {
    spaced(families.map_values(|f: Seq<char>| debug_text(f)))
}

fn push_quoted(out: &mut String, families: &[String])
    ensures
        final(out)@ == old(out)@ + quoted(families@.map_values(|s: String| s@)),
{
    let mut each: Vec<String> = Vec::new();
    for i in 0..families.len()
        invariant
            each@.len() == i,
            forall|j: int| 0 <= j < i ==> #[trigger] each@[j]@ == debug_text(families@[j]@),
    {
        let q = debug_quoted(families[i].as_str());
        each.push(q);
    }
    assert(each@.map_values(|s: String| s@) =~= families@.map_values(|s: String| s@).map_values(
        |f: Seq<char>| debug_text(f),
    ));
    push_spaced(out, &each);
}

/// `fonts <presentation>: requested=[…] resolved=[…]`.
pub open spec fn fonts_record(
    presentation: Seq<char>,
    requested: Seq<Seq<char>>,
    resolved: Seq<Seq<char>>,
) -> Seq<char> {
    "fonts "@ + presentation + ": requested=["@ + quoted(requested) + "] resolved=["@ + quoted(
        resolved,
    ) + "]"@
}

/// The record one paint's fonts produce: every family the paint asked for and every family
/// actually loaded, both distinct and in first-use order.
pub fn paint_fonts_record(presentation: &str, requested: &[String], resolved: &[String]) -> (r: String)
    ensures
        r@ == fonts_record(
            presentation@,
            requested@.map_values(|s: String| s@),
            resolved@.map_values(|s: String| s@),
        ),
{
    let mut r = String::new();
    push_str(&mut r, "fonts ");
    push_str(&mut r, presentation);
    push_str(&mut r, ": requested=[");
    push_quoted(&mut r, requested);
    push_str(&mut r, "] resolved=[");
    push_quoted(&mut r, resolved);
    push_str(&mut r, "]");
    r
}

/// A report raises a notification exactly when its condition has a summary, whatever the subject
/// and message, and every notifying condition reports at error or warning level — nothing merely
/// informational reaches the user's screen.
pub proof fn law_only_summarised_conditions_notify(c: Condition, subject: Seq<char>, message: Seq<char>)
    ensures
        notification_of(c, subject, message) is Some <==> summary_of(c) is Some,
        summary_of(c) is Some ==> level_of(c) != Level::Info,
{
}

} // verus!
