//! The command line: what it accepts, what it prints, and why the process stops.
//!
//! Reading the arguments and the environment, printing, and exiting are the program's edge; the
//! rules for all of them are here.

use vstd::prelude::*;

use crate::actions::CommandPlan;
use crate::diag::{debug_quoted, debug_text, padded, Condition, Diagnostic};
use crate::hypr::ipc::DispatchOutcome;
use crate::model::Support;
use crate::text::{begins_with, chars_of, decimal, push_chars, push_signed, push_str, signed, string_of};
use crate::ui::shortcuts::{description_of, qualified, suggested_keys, Shortcut};

verus! {

/// Clean shutdown, `--version`, or `--help`.
pub const EXIT_OK: u8 = 0;

/// Invalid command line, or `--config` naming a file that does not exist.
pub const EXIT_USAGE: u8 = 2;

/// Cannot reach the compositor at start-up, or a second instance.
pub const EXIT_NO_COMPOSITOR: u8 = 3;

/// Why the process is stopping.
///
/// Every path out of a daemon run produces one, so no run ends without a record of why; the exit
/// code travels with the cause so that the two cannot disagree.
#[derive(Debug, Clone, Copy, PartialEq, Eq)]
pub enum Stopping {
    /// A termination signal, named as the user's session manager sent it.
    Signal(&'static str),
    /// The compositor could not be reached at start-up.
    NoCompositor,
    /// Another instance already holds the shortcuts.
    SecondInstance,
    /// The command line, or the `--config` path on it, could not be used.
    UsageError,
}

impl Stopping {
    /// Why the daemon stopped, as its last record says.
    pub open spec fn cause_text(self) -> Seq<char> {
        match self {
            Stopping::Signal(name) => name@,
            Stopping::NoCompositor => "cannot reach the compositor at start-up"@,
            Stopping::SecondInstance => "another hypr-swap is already running"@,
            Stopping::UsageError => "usage error"@,
        }
    }

    /// The cause, spelled as the stopping record publishes it.
    pub fn cause(self) -> (s: &'static str)
        ensures
            s@ == self.cause_text(),
    {
        match self {
            Stopping::Signal(name) => name,
            Stopping::NoCompositor => "cannot reach the compositor at start-up",
            Stopping::SecondInstance => "another hypr-swap is already running",
            Stopping::UsageError => "usage error",
        }
    }

    /// The exit status the process ends with.
    pub fn exit_code(self) -> (code: u8)
        ensures
            code == match self {
                Stopping::Signal(_) => EXIT_OK,
                Stopping::NoCompositor | Stopping::SecondInstance => EXIT_NO_COMPOSITOR,
                Stopping::UsageError => EXIT_USAGE,
            },
    {
        match self {
            Stopping::Signal(_) => EXIT_OK,
            Stopping::NoCompositor | Stopping::SecondInstance => EXIT_NO_COMPOSITOR,
            Stopping::UsageError => EXIT_USAGE,
        }
    }
}

/// An option that answers a question and exits instead of starting the daemon.
#[derive(Debug, Clone, Copy, PartialEq, Eq, Structural)]
pub enum Print {
    Version,
    Help,
    /// The facts a bug report needs.
    Environment,
}

/// The flag as the user wrote it.
pub open spec fn flag_text(p: Print) -> Seq<char> {
    match p {
        Print::Version => "--version"@,
        Print::Help => "--help"@,
        Print::Environment => "--environment"@,
    }
}

/// The print-and-exit option an argument asks for, if it is one.
pub open spec fn print_named(arg: Seq<char>) -> Option<Print> {
    if arg == "--version"@ {
        Some(Print::Version)
    } else if arg == "--help"@ || arg == "-h"@ {
        Some(Print::Help)
    } else if arg == "--environment"@ {
        Some(Print::Environment)
    } else {
        None
    }
}

impl Print {
    /// The flag as the user wrote it, for the message that refuses two of them together.
    pub fn flag(self) -> (s: &'static str)
        ensures
            s@ == flag_text(self),
    {
        match self {
            Print::Version => "--version",
            Print::Help => "--help",
            Print::Environment => "--environment",
        }
    }

    fn named(arg: &str) -> (r: Option<Print>)
        ensures
            r == print_named(arg@),
    {
        if crate::text::same(arg, "--version") {
            Some(Print::Version)
        } else if crate::text::same(arg, "--help") || crate::text::same(arg, "-h") {
            Some(Print::Help)
        } else if crate::text::same(arg, "--environment") {
            Some(Print::Environment)
        } else {
            None
        }
    }
}

/// The parsed command line.
#[derive(Debug, Clone, PartialEq, Eq)]
pub struct Options {
    /// The configuration file named with `--config`.
    pub config: Option<String>,
    /// The one print-and-exit option given, if any. At most one: two of them together is a
    /// usage error, because there is no sensible order to answer them in.
    pub print: Option<Print>,
}

/// The command line read from the `i`-th argument on, having found `config` and `print` so far:
/// the options, or the message refusing the first argument that cannot be used.
pub open spec fn options_from(
    args: Seq<Seq<char>>,
    i: int,
    config: Option<Seq<char>>,
    print: Option<Print>,
) -> Result<(Option<Seq<char>>, Option<Print>), Seq<char>>
    decreases args.len() - i,
{
    if i < 0 || i >= args.len() {
        Ok((config, print))
    } else {
        let a = args[i];
        match print_named(a) {
            Some(wanted) => match print {
                Some(already) => Err(
                    flag_text(already) + " and "@ + flag_text(wanted) + " cannot be given together"@,
                ),
                None => options_from(args, i + 1, config, Some(wanted)),
            },
            None => if a == "--config"@ {
                if i + 1 < args.len() {
                    options_from(args, i + 2, Some(args[i + 1]), print)
                } else {
                    Err("--config needs a path"@)
                }
            } else if begins_with(a, "--config="@) {
                options_from(args, i + 1, Some(a.skip("--config="@.len() as int)), print)
            } else {
                Err("unknown argument "@ + debug_text(a))
            },
        }
    }
}

/// The arguments read as texts.
pub open spec fn arg_texts(args: Seq<String>) -> Seq<Seq<char>> {
    args.map_values(|a: String| a@)
}

/// Options read as texts.
pub open spec fn options_view(o: Options) -> (Option<Seq<char>>, Option<Print>) {
    (
        match o.config {
            Some(c) => Some(c@),
            None => None,
        },
        o.print,
    )
}

impl Options {
    /// Parse the arguments after the program's name. Nothing is printed while parsing: an option
    /// is recorded here and answered by the caller, so that a second one can still be refused
    /// after the first has been seen.
    pub fn parse(args: Vec<String>) -> (r: Result<Options, String>)
        ensures
            match r {
                Ok(o) => options_from(arg_texts(args@), 0, None, None) == Ok::<(Option<Seq<char>>, Option<Print>), Seq<char>>(options_view(o)),
                Err(message) => options_from(arg_texts(args@), 0, None, None) == Err::<(Option<Seq<char>>, Option<Print>), Seq<char>>(message@),
            },
    {
        let ghost all = arg_texts(args@);
        let mut config: Option<String> = None;
        let mut print: Option<Print> = None;
        let mut i: usize = 0;
        let prefix = chars_of("--config=");
        while i < args.len()
            invariant
                all == arg_texts(args@),
                prefix@ == "--config="@,
                i <= args.len(),
                options_from(all, i as int, match config {
                    Some(c) => Some(c@),
                    None => None,
                }, print) == options_from(all, 0, None, None),
            decreases args.len() - i,
        {
            let argument = args[i].as_str();
            assert(all[i as int] == argument@);
            match Print::named(argument) {
                Some(wanted) => {
                    match print {
                        Some(already) => {
                            let mut message = String::new();
                            push_str(&mut message, already.flag());
                            push_str(&mut message, " and ");
                            push_str(&mut message, wanted.flag());
                            push_str(&mut message, " cannot be given together");
                            return Err(message);
                        },
                        None => {
                            print = Some(wanted);
                            i = i + 1;
                        },
                    }
                },
                None => {
                    let chars = chars_of(argument);
                    if crate::text::same(argument, "--config") {
                        if i + 1 < args.len() {
                            assert(all[i + 1] == args@[i + 1]@);
                            config = Some(args[i + 1].clone());
                            i = i + 2;
                        } else {
                            let mut message = String::new();
                            push_str(&mut message, "--config needs a path");
                            return Err(message);
                        }
                    } else if crate::text::starts_with(&chars, &prefix) {
                        let rest = crate::text::slice_of(&chars, prefix.len(), chars.len());
                        assert(rest@ =~= argument@.skip("--config="@.len() as int));
                        config = Some(string_of(&rest));
                        i = i + 1;
                    } else {
                        let mut message = String::new();
                        push_str(&mut message, "unknown argument ");
                        let quoted = debug_quoted(argument);
                        push_str(&mut message, quoted.as_str());
                        return Err(message);
                    }
                },
            }
        }
        Ok(Options { config, print })
    }
}

// --- The environment report ------------------------------------------------------------

/// The word every unavailable value in the report is printed with, rather than an empty one.
pub open spec fn unavailable() -> Seq<char> {
    "unavailable"@
}

/// One `key: value` line of the report, the values lined up in a column.
pub open spec fn report_line(key: Seq<char>, value: Seq<char>) -> Seq<char> {
    padded(key + ":"@, 13) + " "@ + value + seq!['\n']
}

/// Texts joined by `, `.
pub open spec fn comma_joined(items: Seq<Seq<char>>) -> Seq<char>
    decreases items.len(),
{
    if items.len() == 0 {
        Seq::empty()
    } else if items.len() == 1 {
        items[0]
    } else {
        comma_joined(items.drop_last()) + ", "@ + items.last()
    }
}

/// The six facts a bug report needs, in order, one `key: value` line each, with an explicit word
/// wherever a value is unavailable so a pasted report has no silent gaps.
pub open spec fn environment_text(
    version: Seq<char>,
    hyprland: Option<(Seq<char>, Option<Seq<char>>)>,
    config: Option<(Seq<char>, bool)>,
    differences: Seq<Seq<char>>,
    icon_set: Option<Seq<char>>,
    notify_send: bool,
) -> Seq<char> {
    report_line("hypr-swap"@, version) + report_line(
        "hyprland"@,
        match hyprland {
            Some((v, tag)) => v + " ("@ + (match tag {
                Some(t) => t,
                None => "no tag"@,
            }) + ")"@,
            None => unavailable(),
        },
    ) + report_line(
        "config"@,
        match config {
            Some((path, present)) => path + " ("@ + (if present {
                "present"@
            } else {
                "absent"@
            }) + ")"@,
            None => unavailable(),
        },
    ) + report_line(
        "settings"@,
        if differences.len() == 0 {
            "defaults"@
        } else {
            comma_joined(differences)
        },
    ) + report_line(
        "icon-set"@,
        match icon_set {
            Some(set) => set,
            None => "none"@,
        },
    ) + report_line(
        "notify-send"@,
        if notify_send {
            "present"@
        } else {
            "absent"@
        },
    )
}

fn push_report_line(out: &mut String, key: &str, value: &str)
    ensures
        final(out)@ == old(out)@ + report_line(key@, value@),
{
    let mut label = String::new();
    push_str(&mut label, key);
    push_str(&mut label, ":");
    let label_chars = chars_of(label.as_str());
    let ghost start = out@;
    push_chars(out, &label_chars);
    let mut width = label_chars.len();
    while width < 13
        invariant
            label_chars@ == key@ + ":"@,
            label_chars@.len() <= width <= 13 || (width == label_chars@.len() && width > 13),
            out@ == start + label_chars@ + Seq::new((width - label_chars@.len()) as nat, |i: int| ' '),
        decreases 13 - width,
    {
        out.push(' ');
        assert(out@ =~= start + label_chars@ + Seq::new((width + 1 - label_chars@.len()) as nat, |i: int| ' '));
        width += 1;
    }
    assert(out@ =~= start + padded(key@ + ":"@, 13));
    push_str(out, " ");
    push_str(out, value);
    out.push('\n');
}

/// The `--environment` block: the facts a bug report needs, and nothing else — the configuration
/// file's own text never appears in it, and neither does any window title. `icon_set` is the set
/// actually resolved, or `None` when icons are off.
pub fn environment_block(
    version: &str,
    hyprland: Option<(String, Option<String>)>,
    config: Option<(String, bool)>,
    differences: &[String],
    icon_set: Option<String>,
    notify_send: bool,
) -> (report: String)
    ensures
        report@ == environment_text(
            version@,
            match hyprland {
                Some((v, tag)) => Some((v@, match tag {
                    Some(t) => Some(t@),
                    None => None,
                })),
                None => None,
            },
            match config {
                Some((path, present)) => Some((path@, present)),
                None => None,
            },
            differences@.map_values(|d: String| d@),
            match icon_set {
                Some(s) => Some(s@),
                None => None,
            },
            notify_send,
        ),
{
    let mut report = String::new();
    push_report_line(&mut report, "hypr-swap", version);
    let mut value = String::new();
    match &hyprland {
        Some((v, tag)) => {
            push_str(&mut value, v.as_str());
            push_str(&mut value, " (");
            match tag {
                Some(t) => push_str(&mut value, t.as_str()),
                None => push_str(&mut value, "no tag"),
            }
            push_str(&mut value, ")");
        },
        None => push_str(&mut value, "unavailable"),
    }
    push_report_line(&mut report, "hyprland", value.as_str());
    let mut value = String::new();
    match &config {
        Some((path, present)) => {
            push_str(&mut value, path.as_str());
            push_str(&mut value, " (");
            if *present {
                push_str(&mut value, "present");
            } else {
                push_str(&mut value, "absent");
            }
            push_str(&mut value, ")");
        },
        None => push_str(&mut value, "unavailable"),
    }
    push_report_line(&mut report, "config", value.as_str());
    let mut value = String::new();
    let ghost all = differences@.map_values(|d: String| d@);
    if differences.len() == 0 {
        push_str(&mut value, "defaults");
    } else {
        for i in 0..differences.len()
            invariant
                differences.len() > 0,
                all == differences@.map_values(|d: String| d@),
                value@ == comma_joined(all.take(i as int)),
        {
            proof {
                let t = all.take(i + 1);
                assert(t.drop_last() =~= all.take(i as int));
                if i == 0 {
                    assert(all.take(0) =~= Seq::<Seq<char>>::empty());
                }
            }
            if i > 0 {
                push_str(&mut value, ", ");
            }
            push_str(&mut value, differences[i].as_str());
            assert(value@ =~= comma_joined(all.take(i + 1)));
        }
        assert(all.take(differences.len() as int) =~= all);
    }
    push_report_line(&mut report, "settings", value.as_str());
    let mut value = String::new();
    match &icon_set {
        Some(set) => push_str(&mut value, set.as_str()),
        None => push_str(&mut value, "none"),
    }
    push_report_line(&mut report, "icon-set", value.as_str());
    if notify_send {
        push_report_line(&mut report, "notify-send", "present");
    } else {
        push_report_line(&mut report, "notify-send", "absent");
    }
    report
}

// --- Usage ------------------------------------------------------------------------------

/// One shortcut's entry in the usage text: its bind line, and under it what it does.
pub open spec fn bind_entry(s: Shortcut, description: Seq<char>) -> Seq<char> {
    "    "@ + ("bind = "@ + suggested_keys(s) + ", global, "@ + qualified(s)) + "\n        "@ + description
}

/// The usage text, which carries the bind lines so a user who has the binary has the
/// instructions.
pub open spec fn usage_of(version: Seq<char>, binds: Seq<char>) -> Seq<char> {
    ""@ + crate::APP_ID@ + " "@ + version + " — Alt-Tab style workspace switcher for Hyprland\n\nUSAGE:\n    "@ + crate::APP_ID@ + " [--config <path>] [--environment] [--version] [--help]\n\nOPTIONS:\n    --config <path>   Use this configuration file instead of\n                      $XDG_CONFIG_HOME/hypr-swap/config.toml\n    --environment     Print the facts a bug report needs, and exit\n    --version         Print the version and exit\n    --help            Print this help and exit\n\nThe binary is the daemon. Start it once per session, typically with\n    exec-once = "@ + crate::APP_ID@ + "\n\nBIND THESE IN hyprland.conf (any combination works; these are suggestions):\n"@ + binds + "\n\nUse `bind`, not `binde`: a repeating bind fires continuously while held, which\nreads as continuous navigation. Either line may be left out. Bound to a bare key\nwith no modifier, the overlay stays open and Enter commits. Full notes, including\nthe fixed in-overlay keys, are in docs/user/binds.md.\n\nCONFIGURATION (all keys optional; defaults shown):\n    presentation = \"list\"      # \"list\" | \"grid\"\n    placement    = \"active\"    # \"active\" | \"all\"\n    order        = \"mru\"       # \"mru\" | \"compositor\" | \"monitor\"\n\nDiagnostics go to standard error. Exit codes: 0 success, 2 usage, 3 no compositor."@
}

/// Both shortcuts' entries, one after the other.
pub open spec fn binds_text() -> Seq<char> {
    bind_entry(Shortcut::Switcher, description_of(Shortcut::Switcher)) + "\n"@ + bind_entry(
        Shortcut::NewWorkspace,
        description_of(Shortcut::NewWorkspace),
    )
}

fn push_bind_entry(out: &mut String, shortcut: Shortcut)
    ensures
        final(out)@ == old(out)@ + bind_entry(shortcut, description_of(shortcut)),
{
    push_str(out, "    ");
    let line = shortcut.suggested_bind();
    push_str(out, line.as_str());
    push_str(out, "\n        ");
    push_str(out, shortcut.description());
}

/// The usage text for this version.
pub fn usage(version: &str) -> (text: String)
    ensures
        text@ == usage_of(version@, binds_text()),
{
    let mut text = String::new();
    push_str(&mut text, "");
    push_str(&mut text, crate::APP_ID);
    push_str(&mut text, " ");
    push_str(&mut text, version);
    push_str(&mut text, " — Alt-Tab style workspace switcher for Hyprland\n\nUSAGE:\n    ");
    push_str(&mut text, crate::APP_ID);
    push_str(&mut text, " [--config <path>] [--environment] [--version] [--help]\n\nOPTIONS:\n    --config <path>   Use this configuration file instead of\n                      $XDG_CONFIG_HOME/hypr-swap/config.toml\n    --environment     Print the facts a bug report needs, and exit\n    --version         Print the version and exit\n    --help            Print this help and exit\n\nThe binary is the daemon. Start it once per session, typically with\n    exec-once = ");
    push_str(&mut text, crate::APP_ID);
    push_str(&mut text, "\n\nBIND THESE IN hyprland.conf (any combination works; these are suggestions):\n");
    push_bind_entry(&mut text, Shortcut::Switcher);
    push_str(&mut text, "\n");
    push_bind_entry(&mut text, Shortcut::NewWorkspace);
    push_str(&mut text, "\n\nUse `bind`, not `binde`: a repeating bind fires continuously while held, which\nreads as continuous navigation. Either line may be left out. Bound to a bare key\nwith no modifier, the overlay stays open and Enter commits. Full notes, including\nthe fixed in-overlay keys, are in docs/user/binds.md.\n\nCONFIGURATION (all keys optional; defaults shown):\n    presentation = \"list\"      # \"list\" | \"grid\"\n    placement    = \"active\"    # \"active\" | \"all\"\n    order        = \"mru\"       # \"mru\" | \"compositor\" | \"monitor\"\n\nDiagnostics go to standard error. Exit codes: 0 success, 2 usage, 3 no compositor.");
    text
}

// --- What a finished session reports ------------------------------------------------------

/// The report for a committed selection whose workspace went away before it could be activated.
pub fn vanished_report(selected: i32) -> (d: Diagnostic)
    ensures
        d.condition == Condition::SelectionTargetVanished,
        d.subject@ == "selection"@,
        d.message@ == "workspace "@ + signed(selected as int) + " no longer exists; nothing was activated"@,
{
    let mut subject = String::new();
    push_str(&mut subject, "selection");
    let mut message = String::new();
    push_str(&mut message, "workspace ");
    push_signed(&mut message, selected as i64);
    push_str(&mut message, " no longer exists; nothing was activated");
    Diagnostic::new(Condition::SelectionTargetVanished, subject, message)
}

/// What the report about a dispatched plan calls the attempt.
pub open spec fn attempt_text(selected: i32, origin_monitor: Seq<char>, is_swap: bool) -> Seq<char> {
    if is_swap {
        "swapping workspace "@ + signed(selected as int) + " onto "@ + origin_monitor
    } else {
        "activating workspace "@ + signed(selected as int)
    }
}

/// The report about a dispatched plan: nothing when it was verified; the attempt and why it
/// failed when it was rolled back; and when the rollback failed too, where things actually are
/// rather than what was attempted.
pub open spec fn dispatch_report_of(
    selected: i32,
    origin_monitor: Seq<char>,
    is_swap: bool,
    outcome: DispatchOutcome,
) -> Option<(Condition, Seq<char>, Seq<char>)> {
    let subject = if is_swap {
        "swap"@
    } else {
        "activation"@
    };
    let attempt = attempt_text(selected, origin_monitor, is_swap);
    match outcome {
        DispatchOutcome::Verified => None,
        DispatchOutcome::RolledBack { reason } => Some(
            (
                Condition::SwapRolledBack,
                subject,
                attempt + " failed, rolled back to the previous layout ("@ + reason@ + ")"@,
            ),
        ),
        DispatchOutcome::RollbackFailed { reason, resulting } => Some(
            (
                Condition::RollbackFailed,
                subject,
                attempt + " failed; rollback failed; "@ + resulting@ + " ("@ + reason@ + ")"@,
            ),
        ),
    }
}

/// The report about a dispatched plan, if it needs one.
pub fn dispatch_report(selected: i32, origin_monitor: &str, plan: &CommandPlan, outcome: &DispatchOutcome) -> (r: Option<Diagnostic>)
    ensures
        match r {
            Some(d) => dispatch_report_of(selected, origin_monitor@, plan@.expected.active.len() > 1, *outcome)
                == Some((d.condition, d.subject@, d.message@)),
            None => dispatch_report_of(selected, origin_monitor@, plan@.expected.active.len() > 1, *outcome) is None,
        },
{
    let is_swap = plan.is_swap();
    let mut attempt = String::new();
    if is_swap {
        push_str(&mut attempt, "swapping workspace ");
        push_signed(&mut attempt, selected as i64);
        push_str(&mut attempt, " onto ");
        push_str(&mut attempt, origin_monitor);
    } else {
        push_str(&mut attempt, "activating workspace ");
        push_signed(&mut attempt, selected as i64);
    }
    let mut subject = String::new();
    if is_swap {
        push_str(&mut subject, "swap");
    } else {
        push_str(&mut subject, "activation");
    }
    match outcome {
        DispatchOutcome::Verified => None,
        DispatchOutcome::RolledBack { reason } => {
            let mut message = attempt;
            push_str(&mut message, " failed, rolled back to the previous layout (");
            push_str(&mut message, reason.as_str());
            push_str(&mut message, ")");
            Some(Diagnostic::new(Condition::SwapRolledBack, subject, message))
        },
        DispatchOutcome::RollbackFailed { reason, resulting } => {
            let mut message = attempt;
            push_str(&mut message, " failed; rollback failed; ");
            push_str(&mut message, resulting.as_str());
            push_str(&mut message, " (");
            push_str(&mut message, reason.as_str());
            push_str(&mut message, ")");
            Some(Diagnostic::new(Condition::RollbackFailed, subject, message))
        },
    }
}


// --- The compositor's version -----------------------------------------------------------

/// What the start-up check says about the compositor's version, if anything: nothing for a
/// supported one; for one below the range, the version and the range, and that the program
/// carries on; for one that could not be read, the text as reported, quoted, and the range.
pub open spec fn version_message(s: Support) -> Option<Seq<char>> {
    let range = crate::SupportedRange { minimum: crate::supported_minimum() }.wording();
    match s {
        Support::Supported => None,
        Support::TooOld { found, minimum: _ } => Some(
            "Hyprland "@ + decimal(found.0 as nat) + "."@ + decimal(found.1 as nat) + "."@ + decimal(
                found.2 as nat,
            ) + " is below the supported range ("@ + range + "); continuing anyway"@,
        ),
        Support::Unknown { found } => Some(
            "Hyprland version "@ + debug_text(found@) + " could not be read; supported range is "@
                + range,
        ),
    }
}

/// The message naming a compositor version this release does not claim to support. Never fatal.
pub fn version_report(support: Support) -> (r: Option<String>)
    ensures
        match r {
            Some(m) => version_message(support) == Some(m@),
            None => version_message(support) is None,
        },
{
    let range = crate::supported_hyprland().to_string();
    match support {
        Support::Supported => None,
        Support::TooOld { found, minimum: _ } => {
            let mut m = String::new();
            push_str(&mut m, "Hyprland ");
            crate::text::push_decimal(&mut m, found.0 as u64);
            push_str(&mut m, ".");
            crate::text::push_decimal(&mut m, found.1 as u64);
            push_str(&mut m, ".");
            crate::text::push_decimal(&mut m, found.2 as u64);
            push_str(&mut m, " is below the supported range (");
            push_str(&mut m, range.as_str());
            push_str(&mut m, "); continuing anyway");
            Some(m)
        },
        Support::Unknown { found } => {
            let mut m = String::new();
            push_str(&mut m, "Hyprland version ");
            let quoted = debug_quoted(found);
            push_str(&mut m, quoted.as_str());
            push_str(&mut m, " could not be read; supported range is ");
            push_str(&mut m, range.as_str());
            Some(m)
        },
    }
}

} // verus!
