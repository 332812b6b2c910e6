//! Hyprland's event stream: `EVENT>>DATA` lines, read into the events this application acts on,
//! plus the backoff that paces reconnection.
//!
//! Unknown event names are ignored, so a Hyprland release that adds events is non-breaking.

use vstd::prelude::*;

use crate::model::MonitorName;
use crate::seqs::{first_where, lemma_first_where_facts, lemma_first_where_found, lemma_first_where_none};
use vstd::arithmetic::power::lemma_pow0;
use vstd::arithmetic::power2::{lemma_pow2_pos, lemma_pow2_unfold, pow2};
use vstd::utf8::{decode_utf8, valid_utf8};
use crate::text::{
    chars_of, is_literal, parse_i32, parse_i32_chars, piece, piece_at, split, split_chars,
    split_once, split_once_chars, string_of, trim_end, trimmed_end, views_of, lemma_split_nonempty, is_white,
    lemma_trim_end_of_plain, lemma_split_once_after, lemma_split_without_separator, lemma_split_joined,
};

verus! {

/// A compositor event this application acts on.
///
/// Several Hyprland events carry only a name where the application needs an id, or omit window
/// geometry entirely. Those variants exist so the event is still recognised; applying them is
/// [`crate::state::World`]'s job, which resolves what it can and asks for a rebuild otherwise.
#[derive(Debug, Clone, PartialEq, Eq)]
pub enum Event {
    /// The active workspace changed. `workspacev2` carries the id; `workspace` carries only a name.
    WorkspaceActivated { id: Option<i32>, name: String },
    /// Keyboard focus moved to another monitor, which activates that monitor's workspace.
    MonitorFocused { monitor: MonitorName, workspace_name: String },
    /// A workspace came into existence. Carries no monitor binding, so the world rebuilds.
    WorkspaceCreated { name: String },
    /// A workspace ceased to exist.
    WorkspaceDestroyed { name: String },
    /// A workspace was rebound to another monitor.
    WorkspaceMoved { name: String, monitor: MonitorName },
    /// A window was mapped. Carries no geometry, so the world rebuilds.
    WindowOpened { address: String },
    /// A window went away.
    WindowClosed { address: String },
    /// A window changed workspace. Its geometry changes with it, so the world rebuilds.
    WindowMoved { address: String },
    /// A window's title changed. `windowtitlev2` carries the new title; `windowtitle` does not.
    WindowTitleChanged { address: String, title: Option<String> },
    /// A monitor was connected or disconnected — this reshuffles workspace bindings, so the
    /// world rebuilds wholesale.
    MonitorsChanged,
}

/// What a title-carrying event's data holds after its first comma: window titles may contain
/// commas, so everything after the first separator is the title.
pub open spec fn after_first_comma(data: Seq<char>) -> Seq<char> {
    match split_once(data, seq![',']) {
        Some((_, rest)) => rest,
        None => Seq::<char>::empty(),
    }
}

/// Whether `r` is what the line `line` says, per the event table: the line without trailing
/// whitespace is split at its first `>>` into a name and data, the data into comma-separated
/// fields (a missing field reading as empty), and the name decides the event.
pub open spec fn reads_as(line: Seq<char>, r: Option<Event>) -> bool {
    match split_once(trim_end(line), seq!['>', '>']) {
        None => r is None,
        Some((name, data)) => {
            let fields = split(data, ',');
            let field = |i: int| piece(fields, i);
            if name == "workspace"@ {
                r matches Some(Event::WorkspaceActivated { id, name: n }) && id is None && n@
                    == field(0)
            } else if name == "workspacev2"@ {
                r matches Some(Event::WorkspaceActivated { id, name: n }) && id == parse_i32(
                    fields[0],
                ) && n@ == field(1)
            } else if name == "focusedmon"@ {
                r matches Some(Event::MonitorFocused { monitor, workspace_name }) && monitor@
                    == field(0) && workspace_name@ == field(1)
            } else if name == "createworkspace"@ {
                r matches Some(Event::WorkspaceCreated { name: n }) && n@ == field(0)
            } else if name == "createworkspacev2"@ {
                r matches Some(Event::WorkspaceCreated { name: n }) && n@ == field(1)
            } else if name == "destroyworkspace"@ {
                r matches Some(Event::WorkspaceDestroyed { name: n }) && n@ == field(0)
            } else if name == "destroyworkspacev2"@ {
                r matches Some(Event::WorkspaceDestroyed { name: n }) && n@ == field(1)
            } else if name == "moveworkspace"@ {
                r matches Some(Event::WorkspaceMoved { name: n, monitor }) && n@ == field(0)
                    && monitor@ == field(1)
            } else if name == "moveworkspacev2"@ {
                r matches Some(Event::WorkspaceMoved { name: n, monitor }) && n@ == field(1)
                    && monitor@ == field(2)
            } else if name == "openwindow"@ {
                r matches Some(Event::WindowOpened { address }) && address@ == field(0)
            } else if name == "closewindow"@ {
                r matches Some(Event::WindowClosed { address }) && address@ == field(0)
            } else if name == "movewindow"@ || name == "movewindowv2"@ {
                r matches Some(Event::WindowMoved { address }) && address@ == field(0)
            } else if name == "windowtitle"@ {
                r matches Some(Event::WindowTitleChanged { address, title }) && address@ == field(
                    0,
                ) && title is None
            } else if name == "windowtitlev2"@ {
                r matches Some(Event::WindowTitleChanged { address, title }) && address@ == field(
                    0,
                ) && title is Some && title->0@ == after_first_comma(data)
            } else if name == "monitoradded"@ || name == "monitorremoved"@ || name
                == "monitoraddedv2"@ || name == "monitorremovedv2"@ {
                r == Some(Event::MonitorsChanged)
            } else {
                r is None
            }
        },
    }
}

/// Parse one `EVENT>>DATA` line, or `None` for an event this application does not act on.
pub fn parse_line(line: &str) -> (r: Option<Event>)
    ensures
        reads_as(line@, r),
{
    let chars = trimmed_end(&chars_of(line));
    let separator = vec!['>', '>'];
    assert(separator@ == seq!['>', '>']);
    let (name, data) = match split_once_chars(&chars, &separator) {
        Some(parts) => parts,
        None => return None,
    };
    let fields = split_chars(&data, ',');
    let ghost f = views_of(fields@);
    proof {
        lemma_split_nonempty(data@, ',');
        assert(fields@[0]@ == f[0]);
    }
    if is_literal(&name, "workspace") {
        Some(Event::WorkspaceActivated { id: None, name: piece_at(&fields, 0) })
    } else if is_literal(&name, "workspacev2") {
        let id = parse_i32_chars(&fields[0]);
        Some(Event::WorkspaceActivated { id, name: piece_at(&fields, 1) })
    } else if is_literal(&name, "focusedmon") {
        Some(
            Event::MonitorFocused {
                monitor: piece_at(&fields, 0),
                workspace_name: piece_at(&fields, 1),
            },
        )
    } else if is_literal(&name, "createworkspace") {
        Some(Event::WorkspaceCreated { name: piece_at(&fields, 0) })
    } else if is_literal(&name, "createworkspacev2") {
        Some(Event::WorkspaceCreated { name: piece_at(&fields, 1) })
    } else if is_literal(&name, "destroyworkspace") {
        Some(Event::WorkspaceDestroyed { name: piece_at(&fields, 0) })
    } else if is_literal(&name, "destroyworkspacev2") {
        Some(Event::WorkspaceDestroyed { name: piece_at(&fields, 1) })
    } else if is_literal(&name, "moveworkspace") {
        Some(Event::WorkspaceMoved { name: piece_at(&fields, 0), monitor: piece_at(&fields, 1) })
    } else if is_literal(&name, "moveworkspacev2") {
        Some(Event::WorkspaceMoved { name: piece_at(&fields, 1), monitor: piece_at(&fields, 2) })
    } else if is_literal(&name, "openwindow") {
        Some(Event::WindowOpened { address: piece_at(&fields, 0) })
    } else if is_literal(&name, "closewindow") {
        Some(Event::WindowClosed { address: piece_at(&fields, 0) })
    } else if is_literal(&name, "movewindow") || is_literal(&name, "movewindowv2") {
        Some(Event::WindowMoved { address: piece_at(&fields, 0) })
    } else if is_literal(&name, "windowtitle") {
        Some(Event::WindowTitleChanged { address: piece_at(&fields, 0), title: None })
    } else if is_literal(&name, "windowtitlev2") {
        Some(
            Event::WindowTitleChanged {
                address: piece_at(&fields, 0),
                title: Some(data_after_first_comma(&data)),
            },
        )
    } else if is_literal(&name, "monitoradded") || is_literal(&name, "monitorremoved")
        || is_literal(&name, "monitoraddedv2") || is_literal(&name, "monitorremovedv2") {
        Some(Event::MonitorsChanged)
    } else {
        None
    }
}

/// A line's trailing newline does not change what it says: the event table reads a line without
/// its trailing whitespace, so a line read with the newline that framed it is the same event as
/// the line without.
pub proof fn law_a_trailing_newline_changes_nothing(line: Seq<char>, r: Option<Event>)
    ensures
        reads_as(line + seq!['\n'], r) == reads_as(line, r),
{
    let framed = line + seq!['\n'];
    assert(framed.drop_last() =~= line);
    assert(is_white(framed.last()));
    assert(trim_end(framed) == trim_end(line));
}

/// Window titles may contain commas, so everything after the first separator is the title.
fn data_after_first_comma(data: &Vec<char>) -> (s: String)
    ensures
        s@ == after_first_comma(data@),
{
    let comma = vec![','];
    assert(comma@ == seq![',']);
    match split_once_chars(data, &comma) {
        Some((_, rest)) => string_of(&rest),
        None => String::new(),
    }
}


// --- What each line says ----------------------------------------------------------------

/// The line `EVENT>>DATA`.
pub open spec fn event_line(event: Seq<char>, data: Seq<char>) -> Seq<char> {
    event + seq!['>', '>'] + data
}

/// Two fields, comma-separated.
pub open spec fn fields2(a: Seq<char>, b: Seq<char>) -> Seq<char> {
    a + seq![','] + b
}

/// Three fields, comma-separated.
pub open spec fn fields3(a: Seq<char>, b: Seq<char>, c: Seq<char>) -> Seq<char> {
    a + seq![','] + b + seq![','] + c
}

/// A field as the compositor writes one: no comma inside, and no whitespace at its end.
pub open spec fn plain_field(s: Seq<char>) -> bool {
    &&& forall|i: int| 0 <= i < s.len() ==> s[i] != ','
    &&& (s.len() == 0 || !is_white(s.last()))
}

/// An event name: no `>` inside.
pub open spec fn plain_name(s: Seq<char>) -> bool {
    forall|i: int| 0 <= i < s.len() ==> s[i] != '>'
}

/// The line splits into its event name and its data, whatever the data is.
proof fn lemma_line_parts(event: Seq<char>, data: Seq<char>)
    requires
        plain_name(event),
        data.len() == 0 || !is_white(data.last()),
    ensures
        split_once(trim_end(event_line(event, data)), seq!['>', '>']) == Some((event, data)),
{
    let line = event_line(event, data);
    assert(line.len() > 0);
    if data.len() == 0 {
        assert(line.last() == '>');
    } else {
        assert(line.last() == data.last());
    }
    lemma_trim_end_of_plain(line);
    lemma_split_once_after(event, seq!['>', '>'], data);
}

proof fn lemma_two_fields(a: Seq<char>, b: Seq<char>)
    requires
        plain_field(a),
        plain_field(b),
    ensures
        split(fields2(a, b), ',') == seq![a, b],
        fields2(a, b).len() == 0 || !is_white(fields2(a, b).last()),
        split_once(fields2(a, b), seq![',']) == Some((a, b)),
{
    lemma_split_joined(a, b, ',');
    lemma_split_without_separator(a, ',');
    lemma_split_without_separator(b, ',');
    assert(seq![a] + seq![b] =~= seq![a, b]);
    if b.len() == 0 {
        assert(fields2(a, b).last() == ',');
    } else {
        assert(fields2(a, b).last() == b.last());
    }
    lemma_split_once_after(a, seq![','], b);
}

proof fn lemma_three_fields(a: Seq<char>, b: Seq<char>, c: Seq<char>)
    requires
        plain_field(a),
        plain_field(b),
        plain_field(c),
    ensures
        split(fields3(a, b, c), ',') == seq![a, b, c],
        fields3(a, b, c).len() == 0 || !is_white(fields3(a, b, c).last()),
{
    let ab = fields2(a, b);
    let abc = fields3(a, b, c);
    assert(split(ab, ',') == seq![a, b]) by {
        lemma_two_fields(a, b);
    }
    assert(split(abc, ',') == split(ab, ',') + split(c, ',')) by {
        lemma_split_joined(ab, c, ',');
    }
    assert(split(c, ',') == seq![c]) by {
        lemma_split_without_separator(c, ',');
    }
    assert(seq![a, b] + seq![c] =~= seq![a, b, c]);
    assert(abc.len() > 0 && !is_white(abc.last())) by {
        if c.len() == 0 {
            assert(abc.last() == ',');
        } else {
            assert(abc.last() == c.last());
        }
    }
}

proof fn lemma_one_field(a: Seq<char>)
    requires
        plain_field(a),
    ensures
        split(a, ',') == seq![a],
{
    lemma_split_without_separator(a, ',');
}

#[verifier::spinoff_prover]
proof fn lemma_reads_workspace(a: Seq<char>, b: Seq<char>, c: Seq<char>, r: Option<Event>)
    requires
        plain_field(a),
        plain_field(b),
        plain_field(c),
    ensures
        reads_as(event_line("workspace"@, a), r) ==> (r matches Some(Event::WorkspaceActivated { id, name }) && id is None && name@ == a),
{
    reveal_strlit("workspace");
    lemma_one_field(a);
    assert(plain_name("workspace"@));
    lemma_line_parts("workspace"@, a);
    let fields = split(a, ',');
    assert(piece(fields, 0) == a);
    assert(split_once(trim_end(event_line("workspace"@, a)), seq!['>', '>']) == Some(("workspace"@, a)));
}

#[verifier::spinoff_prover]
proof fn lemma_reads_workspacev2(a: Seq<char>, b: Seq<char>, c: Seq<char>, r: Option<Event>)
    requires
        plain_field(a),
        plain_field(b),
        plain_field(c),
    ensures
        reads_as(event_line("workspacev2"@, fields2(a, b)), r) ==> (r matches Some(Event::WorkspaceActivated { id, name }) && id == parse_i32(a) && name@ == b),
{
    reveal_strlit("workspacev2");
    lemma_differs_workspacev2();
    lemma_two_fields(a, b);
    assert(plain_name("workspacev2"@));
    lemma_line_parts("workspacev2"@, fields2(a, b));
    let fields = split(fields2(a, b), ',');
    assert(piece(fields, 0) == a && piece(fields, 1) == b);
    assert(split_once(trim_end(event_line("workspacev2"@, fields2(a, b))), seq!['>', '>']) == Some(("workspacev2"@, fields2(a, b))));
}

#[verifier::spinoff_prover]
proof fn lemma_reads_focusedmon(a: Seq<char>, b: Seq<char>, c: Seq<char>, r: Option<Event>)
    requires
        plain_field(a),
        plain_field(b),
        plain_field(c),
    ensures
        reads_as(event_line("focusedmon"@, fields2(a, b)), r) ==> (r matches Some(Event::MonitorFocused { monitor, workspace_name }) && monitor@ == a && workspace_name@ == b),
{
    reveal_strlit("focusedmon");
    lemma_differs_focusedmon();
    lemma_two_fields(a, b);
    assert(plain_name("focusedmon"@));
    lemma_line_parts("focusedmon"@, fields2(a, b));
    let fields = split(fields2(a, b), ',');
    assert(piece(fields, 0) == a && piece(fields, 1) == b);
    assert(split_once(trim_end(event_line("focusedmon"@, fields2(a, b))), seq!['>', '>']) == Some(("focusedmon"@, fields2(a, b))));
}

#[verifier::spinoff_prover]
proof fn lemma_reads_createworkspace(a: Seq<char>, b: Seq<char>, c: Seq<char>, r: Option<Event>)
    requires
        plain_field(a),
        plain_field(b),
        plain_field(c),
    ensures
        reads_as(event_line("createworkspace"@, a), r) ==> (r matches Some(Event::WorkspaceCreated { name }) && name@ == a),
{
    reveal_strlit("createworkspace");
    lemma_differs_createworkspace();
    lemma_one_field(a);
    assert(plain_name("createworkspace"@));
    lemma_line_parts("createworkspace"@, a);
    let fields = split(a, ',');
    assert(piece(fields, 0) == a);
    assert(split_once(trim_end(event_line("createworkspace"@, a)), seq!['>', '>']) == Some(("createworkspace"@, a)));
}

#[verifier::spinoff_prover]
proof fn lemma_reads_createworkspacev2(a: Seq<char>, b: Seq<char>, c: Seq<char>, r: Option<Event>)
    requires
        plain_field(a),
        plain_field(b),
        plain_field(c),
    ensures
        reads_as(event_line("createworkspacev2"@, fields2(a, b)), r) ==> (r matches Some(Event::WorkspaceCreated { name }) && name@ == b),
{
    reveal_strlit("createworkspacev2");
    lemma_differs_createworkspacev2();
    lemma_two_fields(a, b);
    assert(plain_name("createworkspacev2"@));
    lemma_line_parts("createworkspacev2"@, fields2(a, b));
    let fields = split(fields2(a, b), ',');
    assert(piece(fields, 0) == a && piece(fields, 1) == b);
    assert(split_once(trim_end(event_line("createworkspacev2"@, fields2(a, b))), seq!['>', '>']) == Some(("createworkspacev2"@, fields2(a, b))));
}

#[verifier::spinoff_prover]
proof fn lemma_reads_destroyworkspace(a: Seq<char>, b: Seq<char>, c: Seq<char>, r: Option<Event>)
    requires
        plain_field(a),
        plain_field(b),
        plain_field(c),
    ensures
        reads_as(event_line("destroyworkspace"@, a), r) ==> (r matches Some(Event::WorkspaceDestroyed { name }) && name@ == a),
{
    reveal_strlit("destroyworkspace");
    lemma_differs_destroyworkspace();
    lemma_one_field(a);
    assert(plain_name("destroyworkspace"@));
    lemma_line_parts("destroyworkspace"@, a);
    let fields = split(a, ',');
    assert(piece(fields, 0) == a);
    assert(split_once(trim_end(event_line("destroyworkspace"@, a)), seq!['>', '>']) == Some(("destroyworkspace"@, a)));
}

#[verifier::spinoff_prover]
proof fn lemma_reads_destroyworkspacev2(a: Seq<char>, b: Seq<char>, c: Seq<char>, r: Option<Event>)
    requires
        plain_field(a),
        plain_field(b),
        plain_field(c),
    ensures
        reads_as(event_line("destroyworkspacev2"@, fields2(a, b)), r) ==> (r matches Some(Event::WorkspaceDestroyed { name }) && name@ == b),
{
    reveal_strlit("destroyworkspacev2");
    lemma_differs_destroyworkspacev2();
    lemma_two_fields(a, b);
    assert(plain_name("destroyworkspacev2"@));
    lemma_line_parts("destroyworkspacev2"@, fields2(a, b));
    let fields = split(fields2(a, b), ',');
    assert(piece(fields, 0) == a && piece(fields, 1) == b);
    assert(split_once(trim_end(event_line("destroyworkspacev2"@, fields2(a, b))), seq!['>', '>']) == Some(("destroyworkspacev2"@, fields2(a, b))));
}

#[verifier::spinoff_prover]
proof fn lemma_reads_moveworkspace(a: Seq<char>, b: Seq<char>, c: Seq<char>, r: Option<Event>)
    requires
        plain_field(a),
        plain_field(b),
        plain_field(c),
    ensures
        reads_as(event_line("moveworkspace"@, fields2(a, b)), r) ==> (r matches Some(Event::WorkspaceMoved { name, monitor }) && name@ == a && monitor@ == b),
{
    reveal_strlit("moveworkspace");
    lemma_differs_moveworkspace();
    lemma_two_fields(a, b);
    assert(plain_name("moveworkspace"@));
    lemma_line_parts("moveworkspace"@, fields2(a, b));
    let fields = split(fields2(a, b), ',');
    assert(piece(fields, 0) == a && piece(fields, 1) == b);
    assert(split_once(trim_end(event_line("moveworkspace"@, fields2(a, b))), seq!['>', '>']) == Some(("moveworkspace"@, fields2(a, b))));
}

#[verifier::spinoff_prover]
proof fn lemma_reads_moveworkspacev2(a: Seq<char>, b: Seq<char>, c: Seq<char>, r: Option<Event>)
    requires
        plain_field(a),
        plain_field(b),
        plain_field(c),
    ensures
        reads_as(event_line("moveworkspacev2"@, fields3(a, b, c)), r) ==> (r matches Some(Event::WorkspaceMoved { name, monitor }) && name@ == b && monitor@ == c),
{
    reveal_strlit("moveworkspacev2");
    lemma_differs_moveworkspacev2();
    lemma_three_fields(a, b, c);
    assert(plain_name("moveworkspacev2"@));
    lemma_line_parts("moveworkspacev2"@, fields3(a, b, c));
    let fields = split(fields3(a, b, c), ',');
    assert(piece(fields, 0) == a && piece(fields, 1) == b && piece(fields, 2) == c);
    assert(split_once(trim_end(event_line("moveworkspacev2"@, fields3(a, b, c))), seq!['>', '>']) == Some(("moveworkspacev2"@, fields3(a, b, c))));
}

#[verifier::spinoff_prover]
proof fn lemma_reads_openwindow(a: Seq<char>, b: Seq<char>, c: Seq<char>, r: Option<Event>)
    requires
        plain_field(a),
        plain_field(b),
        plain_field(c),
    ensures
        reads_as(event_line("openwindow"@, fields3(a, b, c)), r) ==> (r matches Some(Event::WindowOpened { address }) && address@ == a),
{
    reveal_strlit("openwindow");
    lemma_differs_openwindow();
    lemma_three_fields(a, b, c);
    assert(plain_name("openwindow"@));
    lemma_line_parts("openwindow"@, fields3(a, b, c));
    let fields = split(fields3(a, b, c), ',');
    assert(piece(fields, 0) == a && piece(fields, 1) == b && piece(fields, 2) == c);
    assert(split_once(trim_end(event_line("openwindow"@, fields3(a, b, c))), seq!['>', '>']) == Some(("openwindow"@, fields3(a, b, c))));
}

#[verifier::spinoff_prover]
proof fn lemma_reads_closewindow(a: Seq<char>, b: Seq<char>, c: Seq<char>, r: Option<Event>)
    requires
        plain_field(a),
        plain_field(b),
        plain_field(c),
    ensures
        reads_as(event_line("closewindow"@, a), r) ==> (r matches Some(Event::WindowClosed { address }) && address@ == a),
{
    reveal_strlit("closewindow");
    lemma_differs_closewindow();
    lemma_one_field(a);
    assert(plain_name("closewindow"@));
    lemma_line_parts("closewindow"@, a);
    let fields = split(a, ',');
    assert(piece(fields, 0) == a);
    assert(split_once(trim_end(event_line("closewindow"@, a)), seq!['>', '>']) == Some(("closewindow"@, a)));
}

#[verifier::spinoff_prover]
proof fn lemma_reads_movewindow(a: Seq<char>, b: Seq<char>, c: Seq<char>, r: Option<Event>)
    requires
        plain_field(a),
        plain_field(b),
        plain_field(c),
    ensures
        reads_as(event_line("movewindow"@, fields2(a, b)), r) ==> (r matches Some(Event::WindowMoved { address }) && address@ == a),
{
    reveal_strlit("movewindow");
    lemma_differs_movewindow();
    lemma_two_fields(a, b);
    assert(plain_name("movewindow"@));
    lemma_line_parts("movewindow"@, fields2(a, b));
    let fields = split(fields2(a, b), ',');
    assert(piece(fields, 0) == a && piece(fields, 1) == b);
    assert(split_once(trim_end(event_line("movewindow"@, fields2(a, b))), seq!['>', '>']) == Some(("movewindow"@, fields2(a, b))));
}

#[verifier::spinoff_prover]
proof fn lemma_reads_movewindowv2(a: Seq<char>, b: Seq<char>, c: Seq<char>, r: Option<Event>)
    requires
        plain_field(a),
        plain_field(b),
        plain_field(c),
    ensures
        reads_as(event_line("movewindowv2"@, fields3(a, b, c)), r) ==> (r matches Some(Event::WindowMoved { address }) && address@ == a),
{
    reveal_strlit("movewindowv2");
    lemma_differs_movewindowv2();
    lemma_three_fields(a, b, c);
    assert(plain_name("movewindowv2"@));
    lemma_line_parts("movewindowv2"@, fields3(a, b, c));
    let fields = split(fields3(a, b, c), ',');
    assert(piece(fields, 0) == a && piece(fields, 1) == b && piece(fields, 2) == c);
    assert(split_once(trim_end(event_line("movewindowv2"@, fields3(a, b, c))), seq!['>', '>']) == Some(("movewindowv2"@, fields3(a, b, c))));
}

#[verifier::spinoff_prover]
proof fn lemma_reads_windowtitle(a: Seq<char>, b: Seq<char>, c: Seq<char>, r: Option<Event>)
    requires
        plain_field(a),
        plain_field(b),
        plain_field(c),
    ensures
        reads_as(event_line("windowtitle"@, a), r) ==> (r matches Some(Event::WindowTitleChanged { address, title }) && address@ == a && title is None),
{
    reveal_strlit("windowtitle");
    lemma_differs_windowtitle();
    lemma_one_field(a);
    assert(plain_name("windowtitle"@));
    lemma_line_parts("windowtitle"@, a);
    let fields = split(a, ',');
    assert(piece(fields, 0) == a);
    assert(split_once(trim_end(event_line("windowtitle"@, a)), seq!['>', '>']) == Some(("windowtitle"@, a)));
}

#[verifier::spinoff_prover]
proof fn lemma_reads_windowtitlev2(a: Seq<char>, b: Seq<char>, c: Seq<char>, r: Option<Event>)
    requires
        plain_field(a),
        plain_field(b),
        plain_field(c),
    ensures
        reads_as(event_line("windowtitlev2"@, fields2(a, b)), r) ==> (r matches Some(Event::WindowTitleChanged { address, title }) && address@ == a && title == Some(title->0) && title->0@ == b),
{
    reveal_strlit("windowtitlev2");
    lemma_differs_windowtitlev2();
    lemma_two_fields(a, b);
    assert(plain_name("windowtitlev2"@));
    lemma_line_parts("windowtitlev2"@, fields2(a, b));
    let fields = split(fields2(a, b), ',');
    assert(piece(fields, 0) == a && piece(fields, 1) == b);
    assert(split_once(trim_end(event_line("windowtitlev2"@, fields2(a, b))), seq!['>', '>']) == Some(("windowtitlev2"@, fields2(a, b))));
}

#[verifier::spinoff_prover]
proof fn lemma_reads_monitoradded(a: Seq<char>, b: Seq<char>, c: Seq<char>, r: Option<Event>)
    requires
        plain_field(a),
        plain_field(b),
        plain_field(c),
    ensures
        reads_as(event_line("monitoradded"@, a), r) ==> r == Some(Event::MonitorsChanged),
{
    reveal_strlit("monitoradded");
    lemma_differs_monitoradded();
    assert(plain_name("monitoradded"@));
    lemma_line_parts("monitoradded"@, a);
    assert(split_once(trim_end(event_line("monitoradded"@, a)), seq!['>', '>']) == Some(("monitoradded"@, a)));
}

#[verifier::spinoff_prover]
proof fn lemma_reads_monitorremoved(a: Seq<char>, b: Seq<char>, c: Seq<char>, r: Option<Event>)
    requires
        plain_field(a),
        plain_field(b),
        plain_field(c),
    ensures
        reads_as(event_line("monitorremoved"@, a), r) ==> r == Some(Event::MonitorsChanged),
{
    reveal_strlit("monitorremoved");
    lemma_differs_monitorremoved();
    assert(plain_name("monitorremoved"@));
    lemma_line_parts("monitorremoved"@, a);
    assert(split_once(trim_end(event_line("monitorremoved"@, a)), seq!['>', '>']) == Some(("monitorremoved"@, a)));
}

#[verifier::spinoff_prover]
proof fn lemma_reads_monitoraddedv2(a: Seq<char>, b: Seq<char>, c: Seq<char>, r: Option<Event>)
    requires
        plain_field(a),
        plain_field(b),
        plain_field(c),
    ensures
        reads_as(event_line("monitoraddedv2"@, a), r) ==> r == Some(Event::MonitorsChanged),
{
    reveal_strlit("monitoraddedv2");
    lemma_differs_monitoraddedv2();
    assert(plain_name("monitoraddedv2"@));
    lemma_line_parts("monitoraddedv2"@, a);
    assert(split_once(trim_end(event_line("monitoraddedv2"@, a)), seq!['>', '>']) == Some(("monitoraddedv2"@, a)));
}

#[verifier::spinoff_prover]
proof fn lemma_reads_monitorremovedv2(a: Seq<char>, b: Seq<char>, c: Seq<char>, r: Option<Event>)
    requires
        plain_field(a),
        plain_field(b),
        plain_field(c),
    ensures
        reads_as(event_line("monitorremovedv2"@, a), r) ==> r == Some(Event::MonitorsChanged),
{
    reveal_strlit("monitorremovedv2");
    lemma_differs_monitorremovedv2();
    assert(plain_name("monitorremovedv2"@));
    lemma_line_parts("monitorremovedv2"@, a);
    assert(split_once(trim_end(event_line("monitorremovedv2"@, a)), seq!['>', '>']) == Some(("monitorremovedv2"@, a)));
}

/// Whether `event` is one of the events this application acts on.
pub open spec fn known_event(event: Seq<char>) -> bool {
    event == "workspace"@ || event == "workspacev2"@ || event == "focusedmon"@ || event == "createworkspace"@ || event == "createworkspacev2"@ || event == "destroyworkspace"@ || event == "destroyworkspacev2"@ || event == "moveworkspace"@ || event == "moveworkspacev2"@ || event == "openwindow"@ || event == "closewindow"@ || event == "movewindow"@ || event == "movewindowv2"@ || event == "windowtitle"@ || event == "windowtitlev2"@ || event == "monitoradded"@ || event == "monitorremoved"@ || event == "monitoraddedv2"@ || event == "monitorremovedv2"@
}

/// A line naming any other event says nothing, whatever its data: a compositor release that adds
/// events does not break the application.
pub proof fn law_unknown_events_are_ignored(event: Seq<char>, data: Seq<char>, r: Option<Event>)
    requires
        plain_name(event),
        !known_event(event),
        data.len() == 0 || !is_white(data.last()),
    ensures
        reads_as(event_line(event, data), r) ==> r is None,
{
    lemma_line_parts(event, data);
}

/// The event names the table compares a line's name with, one earlier name at a time.
proof fn lemma_differs_workspacev2()
    ensures
        "workspacev2"@ != "workspace"@,
{
    reveal_strlit("workspacev2");
    reveal_strlit("workspace");
    assert("workspacev2"@.len() != "workspace"@.len());
}

proof fn lemma_differs_focusedmon()
    ensures
        "focusedmon"@ != "workspace"@,
        "focusedmon"@ != "workspacev2"@,
{
    reveal_strlit("focusedmon");
    reveal_strlit("workspace");
    reveal_strlit("workspacev2");
    assert("focusedmon"@.len() != "workspace"@.len());
    assert("focusedmon"@.len() != "workspacev2"@.len());
}

proof fn lemma_differs_createworkspace()
    ensures
        "createworkspace"@ != "workspace"@,
        "createworkspace"@ != "workspacev2"@,
        "createworkspace"@ != "focusedmon"@,
{
    reveal_strlit("createworkspace");
    reveal_strlit("workspace");
    reveal_strlit("workspacev2");
    reveal_strlit("focusedmon");
    assert("createworkspace"@.len() != "workspace"@.len());
    assert("createworkspace"@.len() != "workspacev2"@.len());
    assert("createworkspace"@.len() != "focusedmon"@.len());
}

proof fn lemma_differs_createworkspacev2()
    ensures
        "createworkspacev2"@ != "workspace"@,
        "createworkspacev2"@ != "workspacev2"@,
        "createworkspacev2"@ != "focusedmon"@,
        "createworkspacev2"@ != "createworkspace"@,
{
    reveal_strlit("createworkspacev2");
    reveal_strlit("workspace");
    reveal_strlit("workspacev2");
    reveal_strlit("focusedmon");
    reveal_strlit("createworkspace");
    assert("createworkspacev2"@.len() != "workspace"@.len());
    assert("createworkspacev2"@.len() != "workspacev2"@.len());
    assert("createworkspacev2"@.len() != "focusedmon"@.len());
    assert("createworkspacev2"@.len() != "createworkspace"@.len());
}

proof fn lemma_differs_destroyworkspace()
    ensures
        "destroyworkspace"@ != "workspace"@,
        "destroyworkspace"@ != "workspacev2"@,
        "destroyworkspace"@ != "focusedmon"@,
        "destroyworkspace"@ != "createworkspace"@,
        "destroyworkspace"@ != "createworkspacev2"@,
{
    reveal_strlit("destroyworkspace");
    reveal_strlit("workspace");
    reveal_strlit("workspacev2");
    reveal_strlit("focusedmon");
    reveal_strlit("createworkspace");
    reveal_strlit("createworkspacev2");
    assert("destroyworkspace"@.len() != "workspace"@.len());
    assert("destroyworkspace"@.len() != "workspacev2"@.len());
    assert("destroyworkspace"@.len() != "focusedmon"@.len());
    assert("destroyworkspace"@.len() != "createworkspace"@.len());
    assert("destroyworkspace"@.len() != "createworkspacev2"@.len());
}

proof fn lemma_differs_destroyworkspacev2()
    ensures
        "destroyworkspacev2"@ != "workspace"@,
        "destroyworkspacev2"@ != "workspacev2"@,
        "destroyworkspacev2"@ != "focusedmon"@,
        "destroyworkspacev2"@ != "createworkspace"@,
        "destroyworkspacev2"@ != "createworkspacev2"@,
        "destroyworkspacev2"@ != "destroyworkspace"@,
{
    reveal_strlit("destroyworkspacev2");
    reveal_strlit("workspace");
    reveal_strlit("workspacev2");
    reveal_strlit("focusedmon");
    reveal_strlit("createworkspace");
    reveal_strlit("createworkspacev2");
    reveal_strlit("destroyworkspace");
    assert("destroyworkspacev2"@.len() != "workspace"@.len());
    assert("destroyworkspacev2"@.len() != "workspacev2"@.len());
    assert("destroyworkspacev2"@.len() != "focusedmon"@.len());
    assert("destroyworkspacev2"@.len() != "createworkspace"@.len());
    assert("destroyworkspacev2"@.len() != "createworkspacev2"@.len());
    assert("destroyworkspacev2"@.len() != "destroyworkspace"@.len());
}

proof fn lemma_differs_moveworkspace()
    ensures
        "moveworkspace"@ != "workspace"@,
        "moveworkspace"@ != "workspacev2"@,
        "moveworkspace"@ != "focusedmon"@,
        "moveworkspace"@ != "createworkspace"@,
        "moveworkspace"@ != "createworkspacev2"@,
        "moveworkspace"@ != "destroyworkspace"@,
        "moveworkspace"@ != "destroyworkspacev2"@,
{
    reveal_strlit("moveworkspace");
    reveal_strlit("workspace");
    reveal_strlit("workspacev2");
    reveal_strlit("focusedmon");
    reveal_strlit("createworkspace");
    reveal_strlit("createworkspacev2");
    reveal_strlit("destroyworkspace");
    reveal_strlit("destroyworkspacev2");
    assert("moveworkspace"@.len() != "workspace"@.len());
    assert("moveworkspace"@.len() != "workspacev2"@.len());
    assert("moveworkspace"@.len() != "focusedmon"@.len());
    assert("moveworkspace"@.len() != "createworkspace"@.len());
    assert("moveworkspace"@.len() != "createworkspacev2"@.len());
    assert("moveworkspace"@.len() != "destroyworkspace"@.len());
    assert("moveworkspace"@.len() != "destroyworkspacev2"@.len());
}

proof fn lemma_differs_moveworkspacev2()
    ensures
        "moveworkspacev2"@ != "workspace"@,
        "moveworkspacev2"@ != "workspacev2"@,
        "moveworkspacev2"@ != "focusedmon"@,
        "moveworkspacev2"@ != "createworkspace"@,
        "moveworkspacev2"@ != "createworkspacev2"@,
        "moveworkspacev2"@ != "destroyworkspace"@,
        "moveworkspacev2"@ != "destroyworkspacev2"@,
        "moveworkspacev2"@ != "moveworkspace"@,
{
    reveal_strlit("moveworkspacev2");
    reveal_strlit("workspace");
    reveal_strlit("workspacev2");
    reveal_strlit("focusedmon");
    reveal_strlit("createworkspace");
    reveal_strlit("createworkspacev2");
    reveal_strlit("destroyworkspace");
    reveal_strlit("destroyworkspacev2");
    reveal_strlit("moveworkspace");
    assert("moveworkspacev2"@.len() != "workspace"@.len());
    assert("moveworkspacev2"@.len() != "workspacev2"@.len());
    assert("moveworkspacev2"@.len() != "focusedmon"@.len());
    assert("moveworkspacev2"@[0] != "createworkspace"@[0]);
    assert("moveworkspacev2"@.len() != "createworkspacev2"@.len());
    assert("moveworkspacev2"@.len() != "destroyworkspace"@.len());
    assert("moveworkspacev2"@.len() != "destroyworkspacev2"@.len());
    assert("moveworkspacev2"@.len() != "moveworkspace"@.len());
}

proof fn lemma_differs_openwindow()
    ensures
        "openwindow"@ != "workspace"@,
        "openwindow"@ != "workspacev2"@,
        "openwindow"@ != "focusedmon"@,
        "openwindow"@ != "createworkspace"@,
        "openwindow"@ != "createworkspacev2"@,
        "openwindow"@ != "destroyworkspace"@,
        "openwindow"@ != "destroyworkspacev2"@,
        "openwindow"@ != "moveworkspace"@,
        "openwindow"@ != "moveworkspacev2"@,
{
    reveal_strlit("openwindow");
    reveal_strlit("workspace");
    reveal_strlit("workspacev2");
    reveal_strlit("focusedmon");
    reveal_strlit("createworkspace");
    reveal_strlit("createworkspacev2");
    reveal_strlit("destroyworkspace");
    reveal_strlit("destroyworkspacev2");
    reveal_strlit("moveworkspace");
    reveal_strlit("moveworkspacev2");
    assert("openwindow"@.len() != "workspace"@.len());
    assert("openwindow"@.len() != "workspacev2"@.len());
    assert("openwindow"@[0] != "focusedmon"@[0]);
    assert("openwindow"@.len() != "createworkspace"@.len());
    assert("openwindow"@.len() != "createworkspacev2"@.len());
    assert("openwindow"@.len() != "destroyworkspace"@.len());
    assert("openwindow"@.len() != "destroyworkspacev2"@.len());
    assert("openwindow"@.len() != "moveworkspace"@.len());
    assert("openwindow"@.len() != "moveworkspacev2"@.len());
}

proof fn lemma_differs_closewindow()
    ensures
        "closewindow"@ != "workspace"@,
        "closewindow"@ != "workspacev2"@,
        "closewindow"@ != "focusedmon"@,
        "closewindow"@ != "createworkspace"@,
        "closewindow"@ != "createworkspacev2"@,
        "closewindow"@ != "destroyworkspace"@,
        "closewindow"@ != "destroyworkspacev2"@,
        "closewindow"@ != "moveworkspace"@,
        "closewindow"@ != "moveworkspacev2"@,
        "closewindow"@ != "openwindow"@,
{
    reveal_strlit("closewindow");
    reveal_strlit("workspace");
    reveal_strlit("workspacev2");
    reveal_strlit("focusedmon");
    reveal_strlit("createworkspace");
    reveal_strlit("createworkspacev2");
    reveal_strlit("destroyworkspace");
    reveal_strlit("destroyworkspacev2");
    reveal_strlit("moveworkspace");
    reveal_strlit("moveworkspacev2");
    reveal_strlit("openwindow");
    assert("closewindow"@.len() != "workspace"@.len());
    assert("closewindow"@[0] != "workspacev2"@[0]);
    assert("closewindow"@.len() != "focusedmon"@.len());
    assert("closewindow"@.len() != "createworkspace"@.len());
    assert("closewindow"@.len() != "createworkspacev2"@.len());
    assert("closewindow"@.len() != "destroyworkspace"@.len());
    assert("closewindow"@.len() != "destroyworkspacev2"@.len());
    assert("closewindow"@.len() != "moveworkspace"@.len());
    assert("closewindow"@.len() != "moveworkspacev2"@.len());
    assert("closewindow"@.len() != "openwindow"@.len());
}

proof fn lemma_differs_movewindow()
    ensures
        "movewindow"@ != "workspace"@,
        "movewindow"@ != "workspacev2"@,
        "movewindow"@ != "focusedmon"@,
        "movewindow"@ != "createworkspace"@,
        "movewindow"@ != "createworkspacev2"@,
        "movewindow"@ != "destroyworkspace"@,
        "movewindow"@ != "destroyworkspacev2"@,
        "movewindow"@ != "moveworkspace"@,
        "movewindow"@ != "moveworkspacev2"@,
        "movewindow"@ != "openwindow"@,
        "movewindow"@ != "closewindow"@,
{
    reveal_strlit("movewindow");
    reveal_strlit("workspace");
    reveal_strlit("workspacev2");
    reveal_strlit("focusedmon");
    reveal_strlit("createworkspace");
    reveal_strlit("createworkspacev2");
    reveal_strlit("destroyworkspace");
    reveal_strlit("destroyworkspacev2");
    reveal_strlit("moveworkspace");
    reveal_strlit("moveworkspacev2");
    reveal_strlit("openwindow");
    reveal_strlit("closewindow");
    assert("movewindow"@.len() != "workspace"@.len());
    assert("movewindow"@.len() != "workspacev2"@.len());
    assert("movewindow"@[0] != "focusedmon"@[0]);
    assert("movewindow"@.len() != "createworkspace"@.len());
    assert("movewindow"@.len() != "createworkspacev2"@.len());
    assert("movewindow"@.len() != "destroyworkspace"@.len());
    assert("movewindow"@.len() != "destroyworkspacev2"@.len());
    assert("movewindow"@.len() != "moveworkspace"@.len());
    assert("movewindow"@.len() != "moveworkspacev2"@.len());
    assert("movewindow"@[0] != "openwindow"@[0]);
    assert("movewindow"@.len() != "closewindow"@.len());
}

proof fn lemma_differs_movewindowv2()
    ensures
        "movewindowv2"@ != "workspace"@,
        "movewindowv2"@ != "workspacev2"@,
        "movewindowv2"@ != "focusedmon"@,
        "movewindowv2"@ != "createworkspace"@,
        "movewindowv2"@ != "createworkspacev2"@,
        "movewindowv2"@ != "destroyworkspace"@,
        "movewindowv2"@ != "destroyworkspacev2"@,
        "movewindowv2"@ != "moveworkspace"@,
        "movewindowv2"@ != "moveworkspacev2"@,
        "movewindowv2"@ != "openwindow"@,
        "movewindowv2"@ != "closewindow"@,
        "movewindowv2"@ != "movewindow"@,
{
    reveal_strlit("movewindowv2");
    reveal_strlit("workspace");
    reveal_strlit("workspacev2");
    reveal_strlit("focusedmon");
    reveal_strlit("createworkspace");
    reveal_strlit("createworkspacev2");
    reveal_strlit("destroyworkspace");
    reveal_strlit("destroyworkspacev2");
    reveal_strlit("moveworkspace");
    reveal_strlit("moveworkspacev2");
    reveal_strlit("openwindow");
    reveal_strlit("closewindow");
    reveal_strlit("movewindow");
    assert("movewindowv2"@.len() != "workspace"@.len());
    assert("movewindowv2"@.len() != "workspacev2"@.len());
    assert("movewindowv2"@.len() != "focusedmon"@.len());
    assert("movewindowv2"@.len() != "createworkspace"@.len());
    assert("movewindowv2"@.len() != "createworkspacev2"@.len());
    assert("movewindowv2"@.len() != "destroyworkspace"@.len());
    assert("movewindowv2"@.len() != "destroyworkspacev2"@.len());
    assert("movewindowv2"@.len() != "moveworkspace"@.len());
    assert("movewindowv2"@.len() != "moveworkspacev2"@.len());
    assert("movewindowv2"@.len() != "openwindow"@.len());
    assert("movewindowv2"@.len() != "closewindow"@.len());
    assert("movewindowv2"@.len() != "movewindow"@.len());
}

proof fn lemma_differs_windowtitle()
    ensures
        "windowtitle"@ != "workspace"@,
        "windowtitle"@ != "workspacev2"@,
        "windowtitle"@ != "focusedmon"@,
        "windowtitle"@ != "createworkspace"@,
        "windowtitle"@ != "createworkspacev2"@,
        "windowtitle"@ != "destroyworkspace"@,
        "windowtitle"@ != "destroyworkspacev2"@,
        "windowtitle"@ != "moveworkspace"@,
        "windowtitle"@ != "moveworkspacev2"@,
        "windowtitle"@ != "openwindow"@,
        "windowtitle"@ != "closewindow"@,
        "windowtitle"@ != "movewindow"@,
        "windowtitle"@ != "movewindowv2"@,
{
    reveal_strlit("windowtitle");
    reveal_strlit("workspace");
    reveal_strlit("workspacev2");
    reveal_strlit("focusedmon");
    reveal_strlit("createworkspace");
    reveal_strlit("createworkspacev2");
    reveal_strlit("destroyworkspace");
    reveal_strlit("destroyworkspacev2");
    reveal_strlit("moveworkspace");
    reveal_strlit("moveworkspacev2");
    reveal_strlit("openwindow");
    reveal_strlit("closewindow");
    reveal_strlit("movewindow");
    reveal_strlit("movewindowv2");
    assert("windowtitle"@.len() != "workspace"@.len());
    assert("windowtitle"@[1] != "workspacev2"@[1]);
    assert("windowtitle"@.len() != "focusedmon"@.len());
    assert("windowtitle"@.len() != "createworkspace"@.len());
    assert("windowtitle"@.len() != "createworkspacev2"@.len());
    assert("windowtitle"@.len() != "destroyworkspace"@.len());
    assert("windowtitle"@.len() != "destroyworkspacev2"@.len());
    assert("windowtitle"@.len() != "moveworkspace"@.len());
    assert("windowtitle"@.len() != "moveworkspacev2"@.len());
    assert("windowtitle"@.len() != "openwindow"@.len());
    assert("windowtitle"@[0] != "closewindow"@[0]);
    assert("windowtitle"@.len() != "movewindow"@.len());
    assert("windowtitle"@.len() != "movewindowv2"@.len());
}

proof fn lemma_differs_windowtitlev2()
    ensures
        "windowtitlev2"@ != "workspace"@,
        "windowtitlev2"@ != "workspacev2"@,
        "windowtitlev2"@ != "focusedmon"@,
        "windowtitlev2"@ != "createworkspace"@,
        "windowtitlev2"@ != "createworkspacev2"@,
        "windowtitlev2"@ != "destroyworkspace"@,
        "windowtitlev2"@ != "destroyworkspacev2"@,
        "windowtitlev2"@ != "moveworkspace"@,
        "windowtitlev2"@ != "moveworkspacev2"@,
        "windowtitlev2"@ != "openwindow"@,
        "windowtitlev2"@ != "closewindow"@,
        "windowtitlev2"@ != "movewindow"@,
        "windowtitlev2"@ != "movewindowv2"@,
        "windowtitlev2"@ != "windowtitle"@,
{
    reveal_strlit("windowtitlev2");
    reveal_strlit("workspace");
    reveal_strlit("workspacev2");
    reveal_strlit("focusedmon");
    reveal_strlit("createworkspace");
    reveal_strlit("createworkspacev2");
    reveal_strlit("destroyworkspace");
    reveal_strlit("destroyworkspacev2");
    reveal_strlit("moveworkspace");
    reveal_strlit("moveworkspacev2");
    reveal_strlit("openwindow");
    reveal_strlit("closewindow");
    reveal_strlit("movewindow");
    reveal_strlit("movewindowv2");
    reveal_strlit("windowtitle");
    assert("windowtitlev2"@.len() != "workspace"@.len());
    assert("windowtitlev2"@.len() != "workspacev2"@.len());
    assert("windowtitlev2"@.len() != "focusedmon"@.len());
    assert("windowtitlev2"@.len() != "createworkspace"@.len());
    assert("windowtitlev2"@.len() != "createworkspacev2"@.len());
    assert("windowtitlev2"@.len() != "destroyworkspace"@.len());
    assert("windowtitlev2"@.len() != "destroyworkspacev2"@.len());
    assert("windowtitlev2"@[0] != "moveworkspace"@[0]);
    assert("windowtitlev2"@.len() != "moveworkspacev2"@.len());
    assert("windowtitlev2"@.len() != "openwindow"@.len());
    assert("windowtitlev2"@.len() != "closewindow"@.len());
    assert("windowtitlev2"@.len() != "movewindow"@.len());
    assert("windowtitlev2"@.len() != "movewindowv2"@.len());
    assert("windowtitlev2"@.len() != "windowtitle"@.len());
}

proof fn lemma_differs_monitoradded()
    ensures
        "monitoradded"@ != "workspace"@,
        "monitoradded"@ != "workspacev2"@,
        "monitoradded"@ != "focusedmon"@,
        "monitoradded"@ != "createworkspace"@,
        "monitoradded"@ != "createworkspacev2"@,
        "monitoradded"@ != "destroyworkspace"@,
        "monitoradded"@ != "destroyworkspacev2"@,
        "monitoradded"@ != "moveworkspace"@,
        "monitoradded"@ != "moveworkspacev2"@,
        "monitoradded"@ != "openwindow"@,
        "monitoradded"@ != "closewindow"@,
        "monitoradded"@ != "movewindow"@,
        "monitoradded"@ != "movewindowv2"@,
        "monitoradded"@ != "windowtitle"@,
        "monitoradded"@ != "windowtitlev2"@,
{
    reveal_strlit("monitoradded");
    reveal_strlit("workspace");
    reveal_strlit("workspacev2");
    reveal_strlit("focusedmon");
    reveal_strlit("createworkspace");
    reveal_strlit("createworkspacev2");
    reveal_strlit("destroyworkspace");
    reveal_strlit("destroyworkspacev2");
    reveal_strlit("moveworkspace");
    reveal_strlit("moveworkspacev2");
    reveal_strlit("openwindow");
    reveal_strlit("closewindow");
    reveal_strlit("movewindow");
    reveal_strlit("movewindowv2");
    reveal_strlit("windowtitle");
    reveal_strlit("windowtitlev2");
    assert("monitoradded"@.len() != "workspace"@.len());
    assert("monitoradded"@.len() != "workspacev2"@.len());
    assert("monitoradded"@.len() != "focusedmon"@.len());
    assert("monitoradded"@.len() != "createworkspace"@.len());
    assert("monitoradded"@.len() != "createworkspacev2"@.len());
    assert("monitoradded"@.len() != "destroyworkspace"@.len());
    assert("monitoradded"@.len() != "destroyworkspacev2"@.len());
    assert("monitoradded"@.len() != "moveworkspace"@.len());
    assert("monitoradded"@.len() != "moveworkspacev2"@.len());
    assert("monitoradded"@.len() != "openwindow"@.len());
    assert("monitoradded"@.len() != "closewindow"@.len());
    assert("monitoradded"@.len() != "movewindow"@.len());
    assert("monitoradded"@[2] != "movewindowv2"@[2]);
    assert("monitoradded"@.len() != "windowtitle"@.len());
    assert("monitoradded"@.len() != "windowtitlev2"@.len());
}

proof fn lemma_differs_monitorremoved()
    ensures
        "monitorremoved"@ != "workspace"@,
        "monitorremoved"@ != "workspacev2"@,
        "monitorremoved"@ != "focusedmon"@,
        "monitorremoved"@ != "createworkspace"@,
        "monitorremoved"@ != "createworkspacev2"@,
        "monitorremoved"@ != "destroyworkspace"@,
        "monitorremoved"@ != "destroyworkspacev2"@,
        "monitorremoved"@ != "moveworkspace"@,
        "monitorremoved"@ != "moveworkspacev2"@,
        "monitorremoved"@ != "openwindow"@,
        "monitorremoved"@ != "closewindow"@,
        "monitorremoved"@ != "movewindow"@,
        "monitorremoved"@ != "movewindowv2"@,
        "monitorremoved"@ != "windowtitle"@,
        "monitorremoved"@ != "windowtitlev2"@,
        "monitorremoved"@ != "monitoradded"@,
{
    reveal_strlit("monitorremoved");
    reveal_strlit("workspace");
    reveal_strlit("workspacev2");
    reveal_strlit("focusedmon");
    reveal_strlit("createworkspace");
    reveal_strlit("createworkspacev2");
    reveal_strlit("destroyworkspace");
    reveal_strlit("destroyworkspacev2");
    reveal_strlit("moveworkspace");
    reveal_strlit("moveworkspacev2");
    reveal_strlit("openwindow");
    reveal_strlit("closewindow");
    reveal_strlit("movewindow");
    reveal_strlit("movewindowv2");
    reveal_strlit("windowtitle");
    reveal_strlit("windowtitlev2");
    reveal_strlit("monitoradded");
    assert("monitorremoved"@.len() != "workspace"@.len());
    assert("monitorremoved"@.len() != "workspacev2"@.len());
    assert("monitorremoved"@.len() != "focusedmon"@.len());
    assert("monitorremoved"@.len() != "createworkspace"@.len());
    assert("monitorremoved"@.len() != "createworkspacev2"@.len());
    assert("monitorremoved"@.len() != "destroyworkspace"@.len());
    assert("monitorremoved"@.len() != "destroyworkspacev2"@.len());
    assert("monitorremoved"@.len() != "moveworkspace"@.len());
    assert("monitorremoved"@.len() != "moveworkspacev2"@.len());
    assert("monitorremoved"@.len() != "openwindow"@.len());
    assert("monitorremoved"@.len() != "closewindow"@.len());
    assert("monitorremoved"@.len() != "movewindow"@.len());
    assert("monitorremoved"@.len() != "movewindowv2"@.len());
    assert("monitorremoved"@.len() != "windowtitle"@.len());
    assert("monitorremoved"@.len() != "windowtitlev2"@.len());
    assert("monitorremoved"@.len() != "monitoradded"@.len());
}

proof fn lemma_differs_monitoraddedv2()
    ensures
        "monitoraddedv2"@ != "workspace"@,
        "monitoraddedv2"@ != "workspacev2"@,
        "monitoraddedv2"@ != "focusedmon"@,
        "monitoraddedv2"@ != "createworkspace"@,
        "monitoraddedv2"@ != "createworkspacev2"@,
        "monitoraddedv2"@ != "destroyworkspace"@,
        "monitoraddedv2"@ != "destroyworkspacev2"@,
        "monitoraddedv2"@ != "moveworkspace"@,
        "monitoraddedv2"@ != "moveworkspacev2"@,
        "monitoraddedv2"@ != "openwindow"@,
        "monitoraddedv2"@ != "closewindow"@,
        "monitoraddedv2"@ != "movewindow"@,
        "monitoraddedv2"@ != "movewindowv2"@,
        "monitoraddedv2"@ != "windowtitle"@,
        "monitoraddedv2"@ != "windowtitlev2"@,
        "monitoraddedv2"@ != "monitoradded"@,
        "monitoraddedv2"@ != "monitorremoved"@,
{
    reveal_strlit("monitoraddedv2");
    reveal_strlit("workspace");
    reveal_strlit("workspacev2");
    reveal_strlit("focusedmon");
    reveal_strlit("createworkspace");
    reveal_strlit("createworkspacev2");
    reveal_strlit("destroyworkspace");
    reveal_strlit("destroyworkspacev2");
    reveal_strlit("moveworkspace");
    reveal_strlit("moveworkspacev2");
    reveal_strlit("openwindow");
    reveal_strlit("closewindow");
    reveal_strlit("movewindow");
    reveal_strlit("movewindowv2");
    reveal_strlit("windowtitle");
    reveal_strlit("windowtitlev2");
    reveal_strlit("monitoradded");
    reveal_strlit("monitorremoved");
    assert("monitoraddedv2"@.len() != "workspace"@.len());
    assert("monitoraddedv2"@.len() != "workspacev2"@.len());
    assert("monitoraddedv2"@.len() != "focusedmon"@.len());
    assert("monitoraddedv2"@.len() != "createworkspace"@.len());
    assert("monitoraddedv2"@.len() != "createworkspacev2"@.len());
    assert("monitoraddedv2"@.len() != "destroyworkspace"@.len());
    assert("monitoraddedv2"@.len() != "destroyworkspacev2"@.len());
    assert("monitoraddedv2"@.len() != "moveworkspace"@.len());
    assert("monitoraddedv2"@.len() != "moveworkspacev2"@.len());
    assert("monitoraddedv2"@.len() != "openwindow"@.len());
    assert("monitoraddedv2"@.len() != "closewindow"@.len());
    assert("monitoraddedv2"@.len() != "movewindow"@.len());
    assert("monitoraddedv2"@.len() != "movewindowv2"@.len());
    assert("monitoraddedv2"@.len() != "windowtitle"@.len());
    assert("monitoraddedv2"@.len() != "windowtitlev2"@.len());
    assert("monitoraddedv2"@.len() != "monitoradded"@.len());
    assert("monitoraddedv2"@[7] != "monitorremoved"@[7]);
}

proof fn lemma_differs_monitorremovedv2()
    ensures
        "monitorremovedv2"@ != "workspace"@,
        "monitorremovedv2"@ != "workspacev2"@,
        "monitorremovedv2"@ != "focusedmon"@,
        "monitorremovedv2"@ != "createworkspace"@,
        "monitorremovedv2"@ != "createworkspacev2"@,
        "monitorremovedv2"@ != "destroyworkspace"@,
        "monitorremovedv2"@ != "destroyworkspacev2"@,
        "monitorremovedv2"@ != "moveworkspace"@,
        "monitorremovedv2"@ != "moveworkspacev2"@,
        "monitorremovedv2"@ != "openwindow"@,
        "monitorremovedv2"@ != "closewindow"@,
        "monitorremovedv2"@ != "movewindow"@,
        "monitorremovedv2"@ != "movewindowv2"@,
        "monitorremovedv2"@ != "windowtitle"@,
        "monitorremovedv2"@ != "windowtitlev2"@,
        "monitorremovedv2"@ != "monitoradded"@,
        "monitorremovedv2"@ != "monitorremoved"@,
        "monitorremovedv2"@ != "monitoraddedv2"@,
{
    reveal_strlit("monitorremovedv2");
    reveal_strlit("workspace");
    reveal_strlit("workspacev2");
    reveal_strlit("focusedmon");
    reveal_strlit("createworkspace");
    reveal_strlit("createworkspacev2");
    reveal_strlit("destroyworkspace");
    reveal_strlit("destroyworkspacev2");
    reveal_strlit("moveworkspace");
    reveal_strlit("moveworkspacev2");
    reveal_strlit("openwindow");
    reveal_strlit("closewindow");
    reveal_strlit("movewindow");
    reveal_strlit("movewindowv2");
    reveal_strlit("windowtitle");
    reveal_strlit("windowtitlev2");
    reveal_strlit("monitoradded");
    reveal_strlit("monitorremoved");
    reveal_strlit("monitoraddedv2");
    assert("monitorremovedv2"@.len() != "workspace"@.len());
    assert("monitorremovedv2"@.len() != "workspacev2"@.len());
    assert("monitorremovedv2"@.len() != "focusedmon"@.len());
    assert("monitorremovedv2"@.len() != "createworkspace"@.len());
    assert("monitorremovedv2"@.len() != "createworkspacev2"@.len());
    assert("monitorremovedv2"@[0] != "destroyworkspace"@[0]);
    assert("monitorremovedv2"@.len() != "destroyworkspacev2"@.len());
    assert("monitorremovedv2"@.len() != "moveworkspace"@.len());
    assert("monitorremovedv2"@.len() != "moveworkspacev2"@.len());
    assert("monitorremovedv2"@.len() != "openwindow"@.len());
    assert("monitorremovedv2"@.len() != "closewindow"@.len());
    assert("monitorremovedv2"@.len() != "movewindow"@.len());
    assert("monitorremovedv2"@.len() != "movewindowv2"@.len());
    assert("monitorremovedv2"@.len() != "windowtitle"@.len());
    assert("monitorremovedv2"@.len() != "windowtitlev2"@.len());
    assert("monitorremovedv2"@.len() != "monitoradded"@.len());
    assert("monitorremovedv2"@.len() != "monitorremoved"@.len());
    assert("monitorremovedv2"@.len() != "monitoraddedv2"@.len());
}

/// Each event line is read field by field as the compositor documents it. In particular the v2
/// workspace events, `WORKSPACEID,WORKSPACENAME[,…]`, take the workspace's *name* from the field
/// after the id, so `destroyworkspacev2>>7,mail` destroys the workspace named `mail`; and a window
/// line's first field is always the window's address. Fields are as the compositor writes them:
/// no comma inside, and no whitespace ending the line.
pub proof fn law_event_lines_read_their_fields(a: Seq<char>, b: Seq<char>, c: Seq<char>, r: Option<Event>)
    requires
        plain_field(a),
        plain_field(b),
        plain_field(c),
    ensures
        reads_as(event_line("workspace"@, a), r) ==> (r matches Some(Event::WorkspaceActivated { id, name }) && id is None && name@ == a),
        reads_as(event_line("workspacev2"@, fields2(a, b)), r) ==> (r matches Some(Event::WorkspaceActivated { id, name }) && id == parse_i32(a) && name@ == b),
        reads_as(event_line("focusedmon"@, fields2(a, b)), r) ==> (r matches Some(Event::MonitorFocused { monitor, workspace_name }) && monitor@ == a && workspace_name@ == b),
        reads_as(event_line("createworkspace"@, a), r) ==> (r matches Some(Event::WorkspaceCreated { name }) && name@ == a),
        reads_as(event_line("createworkspacev2"@, fields2(a, b)), r) ==> (r matches Some(Event::WorkspaceCreated { name }) && name@ == b),
        reads_as(event_line("destroyworkspace"@, a), r) ==> (r matches Some(Event::WorkspaceDestroyed { name }) && name@ == a),
        reads_as(event_line("destroyworkspacev2"@, fields2(a, b)), r) ==> (r matches Some(Event::WorkspaceDestroyed { name }) && name@ == b),
        reads_as(event_line("moveworkspace"@, fields2(a, b)), r) ==> (r matches Some(Event::WorkspaceMoved { name, monitor }) && name@ == a && monitor@ == b),
        reads_as(event_line("moveworkspacev2"@, fields3(a, b, c)), r) ==> (r matches Some(Event::WorkspaceMoved { name, monitor }) && name@ == b && monitor@ == c),
        reads_as(event_line("openwindow"@, fields3(a, b, c)), r) ==> (r matches Some(Event::WindowOpened { address }) && address@ == a),
        reads_as(event_line("closewindow"@, a), r) ==> (r matches Some(Event::WindowClosed { address }) && address@ == a),
        reads_as(event_line("movewindow"@, fields2(a, b)), r) ==> (r matches Some(Event::WindowMoved { address }) && address@ == a),
        reads_as(event_line("movewindowv2"@, fields3(a, b, c)), r) ==> (r matches Some(Event::WindowMoved { address }) && address@ == a),
        reads_as(event_line("windowtitle"@, a), r) ==> (r matches Some(Event::WindowTitleChanged { address, title }) && address@ == a && title is None),
        reads_as(event_line("windowtitlev2"@, fields2(a, b)), r) ==> (r matches Some(Event::WindowTitleChanged { address, title }) && address@ == a && title == Some(title->0) && title->0@ == b),
        reads_as(event_line("monitoradded"@, a), r) ==> r == Some(Event::MonitorsChanged),
        reads_as(event_line("monitorremoved"@, a), r) ==> r == Some(Event::MonitorsChanged),
        reads_as(event_line("monitoraddedv2"@, a), r) ==> r == Some(Event::MonitorsChanged),
        reads_as(event_line("monitorremovedv2"@, a), r) ==> r == Some(Event::MonitorsChanged),
{
    lemma_reads_workspace(a, b, c, r);
    lemma_reads_workspacev2(a, b, c, r);
    lemma_reads_focusedmon(a, b, c, r);
    lemma_reads_createworkspace(a, b, c, r);
    lemma_reads_createworkspacev2(a, b, c, r);
    lemma_reads_destroyworkspace(a, b, c, r);
    lemma_reads_destroyworkspacev2(a, b, c, r);
    lemma_reads_moveworkspace(a, b, c, r);
    lemma_reads_moveworkspacev2(a, b, c, r);
    lemma_reads_openwindow(a, b, c, r);
    lemma_reads_closewindow(a, b, c, r);
    lemma_reads_movewindow(a, b, c, r);
    lemma_reads_movewindowv2(a, b, c, r);
    lemma_reads_windowtitle(a, b, c, r);
    lemma_reads_windowtitlev2(a, b, c, r);
    lemma_reads_monitoradded(a, b, c, r);
    lemma_reads_monitorremoved(a, b, c, r);
    lemma_reads_monitoraddedv2(a, b, c, r);
    lemma_reads_monitorremovedv2(a, b, c, r);
}

// --- Framing the stream -----------------------------------------------------------------

/// The event socket reached end of file or failed: the compositor is gone, and the caller
/// reconnects with [`Backoff`].
#[derive(Debug, Clone, Copy, PartialEq, Eq)]
pub struct Disconnected;

/// The text some bytes hold, through `std::str::from_utf8`: the characters they encode when they
/// are valid UTF-8, as its documentation promises, and nothing otherwise.
#[verifier::external_body]
fn decode(bytes: &[u8]) -> (r: Option<String>)
    ensures
        r is Some <==> valid_utf8(bytes@),
        r matches Some(text) ==> text@ == decode_utf8(bytes@),
{
    std::str::from_utf8(bytes).ok().map(|text| text.to_owned())
}

/// Whether the `i`-th byte ends a line.
pub open spec fn ends_line(bytes: Seq<u8>) -> spec_fn(int) -> bool {
    |i: int| bytes[i] == 10u8
}

/// Where the first line ends, if one does.
pub open spec fn first_line_end(bytes: Seq<u8>) -> Option<int> {
    first_where(bytes.len() as int, ends_line(bytes))
}

pub proof fn lemma_first_line_end(bytes: Seq<u8>)
    ensures
        match first_line_end(bytes) {
            Some(end) => 0 <= end < bytes.len() && bytes[end] == 10u8 && forall|j: int| 0 <= j < end ==> bytes[j] != 10u8,
            None => forall|j: int| 0 <= j < bytes.len() ==> bytes[j] != 10u8,
        },
{
    lemma_first_where_facts(bytes.len() as int, ends_line(bytes));
    match first_line_end(bytes) {
        Some(end) => {
            assert forall|j: int| 0 <= j < end implies bytes[j] != 10u8 by {
                assert(!ends_line(bytes)(j));
            }
        },
        None => {
            assert forall|j: int| 0 <= j < bytes.len() implies bytes[j] != 10u8 by {
                assert(!ends_line(bytes)(j));
            }
        },
    }
}

/// Every complete line in the bytes, each with its newline, in order.
#[verifier::opaque]
pub open spec fn complete_lines(bytes: Seq<u8>) -> Seq<Seq<u8>>
    decreases bytes.len(),
{
    match first_line_end(bytes) {
        Some(end) => {
            proof {
                lemma_first_line_end(bytes);
            }
            seq![bytes.take(end + 1)] + complete_lines(bytes.skip(end + 1))
        },
        None => Seq::empty(),
    }
}

/// What is left after the last complete line: the start of a line not yet terminated.
#[verifier::opaque]
pub open spec fn unterminated(bytes: Seq<u8>) -> Seq<u8>
    decreases bytes.len(),
{
    match first_line_end(bytes) {
        Some(end) => {
            proof {
                lemma_first_line_end(bytes);
            }
            unterminated(bytes.skip(end + 1))
        },
        None => bytes,
    }
}

/// Whether `events` are what `lines` say, in order: a line that is not UTF-8, or names an event
/// this application does not act on, says nothing.
pub open spec fn line_events(lines: Seq<Seq<u8>>, events: Seq<Event>) -> bool
    decreases lines.len(),
{
    if lines.len() == 0 {
        events.len() == 0
    } else {
        let line = lines.last();
        if valid_utf8(line) && !reads_as(decode_utf8(line), None) {
            &&& events.len() > 0
            &&& reads_as(decode_utf8(line), Some(events.last()))
            &&& line_events(lines.drop_last(), events.drop_last())
        } else {
            line_events(lines.drop_last(), events)
        }
    }
}

/// Bytes read from the event socket but not yet terminated by a newline.
#[derive(Debug, Clone)]
pub struct LineBuffer {
    partial: Vec<u8>,
}

impl View for LineBuffer {
    type V = Seq<u8>;

    closed spec fn view(&self) -> Seq<u8> {
        self.partial@
    }
}

fn line_end(bytes: &Vec<u8>) -> (r: Option<usize>)
    ensures
        crate::state::index_of(r) == first_line_end(bytes@),
        r matches Some(i) ==> i < bytes@.len(),
{
    let ghost p = ends_line(bytes@);
    for i in 0..bytes.len()
        invariant
            p == ends_line(bytes@),
            forall|j: int| 0 <= j < i ==> !#[trigger] p(j),
    {
        if bytes[i] == 10u8 {
            proof {
                lemma_first_where_found(bytes@.len() as int, p, i as int);
            }
            return Some(i);
        }
    }
    proof {
        lemma_first_where_none(bytes@.len() as int, p);
    }
    None
}

fn copy_range(bytes: &Vec<u8>, from: usize, to: usize) -> (v: Vec<u8>)
    requires
        from <= to <= bytes@.len(),
    ensures
        v@ == bytes@.subrange(from as int, to as int),
{
    let mut v: Vec<u8> = Vec::new();
    for i in from..to
        invariant
            from <= to <= bytes@.len(),
            v@ == bytes@.subrange(from as int, i as int),
    {
        v.push(bytes[i]);
        assert(v@ =~= bytes@.subrange(from as int, i + 1));
    }
    v
}

proof fn lemma_reads_one_way(text: Seq<char>, e: Event)
    requires
        reads_as(text, Some(e)),
    ensures
        !reads_as(text, None),
{
}

/// The event one complete line says, if it is UTF-8 and names one.
fn event_of_line(line: &Vec<u8>) -> (r: Option<Event>)
    ensures
        match r {
            Some(e) => valid_utf8(line@) && !reads_as(decode_utf8(line@), None) && reads_as(decode_utf8(line@), Some(e)),
            None => !(valid_utf8(line@) && !reads_as(decode_utf8(line@), None)),
        },
{
    match decode(line.as_slice()) {
        Some(text) => {
            let r = parse_line(text.as_str());
            proof {
                if r is Some {
                    lemma_reads_one_way(text@, r->Some_0);
                }
            }
            r
        },
        None => None,
    }
}

impl LineBuffer {
    pub fn new() -> (b: Self)
        ensures
            b@ == Seq::<u8>::empty(),
    {
        LineBuffer { partial: Vec::new() }
    }

    /// Append bytes just read.
    pub fn extend(&mut self, bytes: &[u8])
        ensures
            final(self)@ == old(self)@ + bytes@,
    {
        let ghost start = self.partial@;
        for i in 0..bytes.len()
            invariant
                self.partial@ == start + bytes@.take(i as int),
        {
            self.partial.push(bytes[i]);
            assert(self.partial@ =~= start + bytes@.take(i + 1));
        }
        assert(bytes@.take(bytes.len() as int) =~= bytes@);
    }

    /// Every event the complete lines held, in order, leaving only the unterminated tail.
    pub fn take_events(&mut self) -> (events: Vec<Event>)
        ensures
            line_events(complete_lines(old(self)@), events@),
            final(self)@ == unterminated(old(self)@),
    {
        let ghost original = self.partial@;
        let mut rest = copy_range(&self.partial, 0, self.partial.len());
        assert(rest@ =~= original);
        let mut events: Vec<Event> = Vec::new();
        let ghost mut done: Seq<Seq<u8>> = Seq::empty();
        loop
            invariant
                original == old(self)@,
                complete_lines(original) == done + complete_lines(rest@),
                unterminated(original) == unterminated(rest@),
                line_events(done, events@),
            decreases rest@.len(),
        {
            proof {
                lemma_first_line_end(rest@);
                lemma_lines_step(rest@);
            }
            match line_end(&rest) {
                None => {
                    assert(complete_lines(rest@) == Seq::<Seq<u8>>::empty());
                    assert(unterminated(rest@) == rest@);
                    assert(done + complete_lines(rest@) =~= done);
                    self.partial = rest;
                    return events;
                },
                Some(end) => {
                    let length = rest.len();
                    assert(end < length);
                    let line = copy_range(&rest, 0, end + 1);
                    let after = copy_range(&rest, end + 1, rest.len());
                    assert(line@ =~= rest@.take(end + 1));
                    assert(after@ =~= rest@.skip(end + 1));
                    let ghost before_events = events@;
                    match event_of_line(&line) {
                        Some(event) => {
                            events.push(event);
                            assert(events@.drop_last() =~= before_events);
                        },
                        None => {},
                    }
                    proof {
                        let next = done.push(line@);
                        assert(next.drop_last() =~= done);
                        assert(next + complete_lines(after@) =~= done + complete_lines(rest@));
                        done = next;
                    }
                    rest = after;
                },
            }
        }
    }
}

// --- What splitting a stream into reads does not change ------------------------------------

/// Bytes after a first line keep that line first: its end is found where it was.
proof fn lemma_first_line_end_extends(a: Seq<u8>, b: Seq<u8>)
    ensures
        first_line_end(a) matches Some(end) ==> first_line_end(a + b) == Some(end),
        first_line_end(a) is None ==> match first_line_end(a + b) {
            Some(end) => end >= a.len(),
            None => true,
        },
{
    lemma_first_line_end(a);
    lemma_first_line_end(a + b);
    if let Some(end) = first_line_end(a) {
        assert forall|j: int| 0 <= j < end implies !#[trigger] ends_line(a + b)(j) by {
            assert((a + b)[j] == a[j]);
        }
        assert(ends_line(a + b)(end)) by {
            assert((a + b)[end] == a[end]);
        }
        lemma_first_where_found((a + b).len() as int, ends_line(a + b), end);
    } else {
        if let Some(end) = first_line_end(a + b) {
            if end < a.len() {
                assert((a + b)[end] == a[end]);
            }
        }
    }
}

/// One step of reading lines: the first complete line, then the lines after it.
proof fn lemma_lines_step(bytes: Seq<u8>)
    ensures
        match first_line_end(bytes) {
            Some(end) => {
                &&& 0 <= end < bytes.len()
                &&& complete_lines(bytes) == seq![bytes.take(end + 1)] + complete_lines(bytes.skip(end + 1))
                &&& unterminated(bytes) == unterminated(bytes.skip(end + 1))
            },
            None => complete_lines(bytes) == Seq::<Seq<u8>>::empty() && unterminated(bytes) == bytes,
        },
{
    lemma_first_line_end(bytes);
    reveal(complete_lines);
    reveal(unterminated);
}

/// What splitting bytes after a first read means for their lines.
pub open spec fn splits_well(a: Seq<u8>, b: Seq<u8>) -> bool {
    &&& complete_lines(a + b) == complete_lines(a) + complete_lines(unterminated(a) + b)
    &&& unterminated(a + b) == unterminated(unterminated(a) + b)
}

/// A first read holding no complete line splits well: it is all left over.
proof fn lemma_split_without_line(a: Seq<u8>, b: Seq<u8>)
    requires
        first_line_end(a) is None,
    ensures
        splits_well(a, b),
{
    lemma_lines_step(a);
    assert(complete_lines(a) + complete_lines(unterminated(a) + b) =~= complete_lines(a + b));
}

/// A first read holding a complete line splits well when the bytes after that line do.
proof fn lemma_split_after_line(a: Seq<u8>, b: Seq<u8>, end: int)
    requires
        first_line_end(a) == Some(end),
        splits_well(a.skip(end + 1), b),
    ensures
        splits_well(a, b),
{
    lemma_first_line_end_extends(a, b);
    lemma_lines_step(a);
    lemma_lines_step(a + b);
    let rest = a.skip(end + 1);
    assert((a + b).take(end + 1) =~= a.take(end + 1));
    assert((a + b).skip(end + 1) =~= rest + b);
    assert(complete_lines(a + b) =~= complete_lines(a) + complete_lines(unterminated(a) + b));
}

/// The lines of `a + b` are those of `a`, then those of what `a` left unterminated followed by
/// `b`; and what is left at the end is the same either way.
proof fn lemma_lines_split(a: Seq<u8>, b: Seq<u8>)
    ensures
        splits_well(a, b),
    decreases a.len(),
{
    lemma_first_line_end(a);
    match first_line_end(a) {
        Some(end) => {
            lemma_lines_split(a.skip(end + 1), b);
            lemma_split_after_line(a, b, end);
        },
        None => lemma_split_without_line(a, b),
    }
}

/// The events of consecutive runs of lines are the events of each, in order.
proof fn lemma_line_events_append(l1: Seq<Seq<u8>>, e1: Seq<Event>, l2: Seq<Seq<u8>>, e2: Seq<Event>)
    requires
        line_events(l1, e1),
        line_events(l2, e2),
    ensures
        line_events(l1 + l2, e1 + e2),
    decreases l2.len(),
{
    if l2.len() == 0 {
        assert(e2.len() == 0);
        assert(l1 + l2 =~= l1);
        assert(e1 + e2 =~= e1);
    } else {
        let line = l2.last();
        assert((l1 + l2).drop_last() =~= l1 + l2.drop_last());
        assert((l1 + l2).last() == line);
        if valid_utf8(line) && !reads_as(decode_utf8(line), None) {
            lemma_line_events_append(l1, e1, l2.drop_last(), e2.drop_last());
            assert((e1 + e2).drop_last() =~= e1 + e2.drop_last());
            assert((e1 + e2).last() == e2.last());
        } else {
            lemma_line_events_append(l1, e1, l2.drop_last(), e2);
        }
    }
}

/// However the event socket's bytes are split into reads, the lines and events taken from a
/// [`LineBuffer`] are the same: taking after reading `a` and again after reading `b` gives the
/// lines, the events and the leftover bytes that taking once after reading `a + b` gives. A line
/// cut in two by a read is read as one.
pub proof fn law_reads_can_be_split_anywhere(a: Seq<u8>, b: Seq<u8>, first: Seq<Event>, second: Seq<Event>)
    requires
        line_events(complete_lines(a), first),
        line_events(complete_lines(unterminated(a) + b), second),
    ensures
        complete_lines(a) + complete_lines(unterminated(a) + b) == complete_lines(a + b),
        unterminated(unterminated(a) + b) == unterminated(a + b),
        line_events(complete_lines(a + b), first + second),
{
    lemma_lines_split(a, b);
    lemma_line_events_append(complete_lines(a), first, complete_lines(unterminated(a) + b), second);
}

// --- Reconnection pacing ------------------------------------------------------

/// Exponential reconnect delay: 100 ms doubling to a 5 s cap, indefinitely, reset on success.
///
/// Delays are whole milliseconds.
#[derive(Debug, Clone, Copy)]
pub struct Backoff {
    next: u64,
}

impl Backoff {
    /// The first delay, in milliseconds.
    pub const INITIAL: u64 = 100;
    /// The longest delay, in milliseconds.
    pub const CAP: u64 = 5000;

    /// The delay the next attempt waits, in milliseconds.
    pub closed spec fn next_delay(&self) -> u64 {
        self.next
    }

    #[verifier::type_invariant]
    closed spec fn within_bounds(&self) -> bool {
        Self::INITIAL <= self.next <= Self::CAP
    }

    pub fn new() -> (b: Self)
        ensures
            b.next_delay() == Self::INITIAL,
    {
        Backoff { next: Self::INITIAL }
    }

    /// The delay before the next attempt, doubling for the attempt after that, up to the cap.
    pub fn take(&mut self) -> (delay: u64)
        ensures
            delay == old(self).next_delay(),
            Self::INITIAL <= delay <= Self::CAP,
            final(self).next_delay() == doubled(delay as int),
    {
        proof {
            use_type_invariant(&*self);
        }
        let delay = self.next;
        self.next = if delay * 2 <= Self::CAP {
            delay * 2
        } else {
            Self::CAP
        };
        delay
    }

    /// Called after a successful connection, so a compositor that restarts twice is retried as
    /// briskly the second time as the first.
    pub fn reset(&mut self)
        ensures
            final(self).next_delay() == Self::INITIAL,
    {
        self.next = Self::INITIAL;
    }

    /// The step after waiting out a delay: when the compositor's socket is there again, the
    /// connection is about to succeed, so the delay starts over; otherwise it keeps growing.
    pub fn after_wait(&mut self, compositor_back: bool)
        ensures
            final(self).next_delay() == if compositor_back {
                Self::INITIAL
            } else {
                old(self).next_delay()
            },
    {
        if compositor_back {
            self.reset();
        }
    }
}

/// The delay the attempt after one waiting `delay` waits: twice as long, up to the cap.
pub open spec fn doubled(delay: int) -> int {
    if 2 * delay <= Backoff::CAP {
        2 * delay
    } else {
        Backoff::CAP as int
    }
}

/// The delay of the `n`-th attempt since a fresh or reset backoff, by taking one step at a time.
pub open spec fn delay_after(n: nat) -> int
    decreases n,
{
    if n == 0 {
        Backoff::INITIAL as int
    } else {
        doubled(delay_after((n - 1) as nat))
    }
}

/// Starting from a fresh or reset backoff — whose next delay is [`Backoff::INITIAL`], each take
/// then leaving [`doubled`] of what it returned — the take after `n` earlier ones waits
/// min(100 · 2ⁿ, 5000) ms: 100, 200, 400, 800, 1600, 3200, then 5000 for ever — so the daemon never retries without a delay
/// and never waits more than five seconds.
pub proof fn law_backoff_doubles_to_its_cap(n: nat)
    ensures
        delay_after(n) == if 100 * pow2(n) <= 5000 {
            100 * pow2(n)
        } else {
            5000
        },
        Backoff::INITIAL <= delay_after(n) <= Backoff::CAP,
    decreases n,
{
    if n > 0 {
        let m = (n - 1) as nat;
        law_backoff_doubles_to_its_cap(m);
        lemma_pow2_unfold(n);
        lemma_pow2_pos(m);
    } else {
        lemma_pow0(2);
        assert(pow2(0) == 1);
    }
}

impl Default for Backoff {
    fn default() -> (b: Self)
        ensures
            b.next_delay() == Self::INITIAL,
    {
        Self::new()
    }
}

} // verus!
