//! Hyprland's request socket (`.socket.sock`): what is sent, and what the answers mean.
//!
//! One connection per request — write the request, read the response to EOF — which is what
//! `hyprctl` itself does and what the compositor expects. The wire format is a line-oriented text
//! protocol, so encoding and response classification are plain string work, stated and proved
//! here; opening the socket is the program's edge.
//!
//! A verified dispatch alternates socket work with decisions: dispatch, read the state back,
//! compare, and on a mismatch dispatch the rollback and compare again. The decisions are the
//! steps of [`DispatchStep`]; the edge performs each step's socket work and hands the result in.

use vstd::prelude::*;

use crate::actions::{text_of, ExpectedState, ExpectedView, described, mismatch_of};
use crate::model::{CompositorVersion, Monitor, Workspace};
use crate::seqs::{first_where, lemma_filter_take, lemma_filter_take_zero, lemma_first_where_facts, lemma_first_where_found, lemma_first_where_none};
use crate::text::{
    join_path, path_join,
    chars_of, decimal, push_chars, push_decimal, push_str, split_on, split_on_chars, string_of,
    trim, trimmed, views_of,
};

verus! {

/// Environment variable that makes a nominated batch step fail.
///
/// The one substitution reserved for end-to-end rollback tests: a genuine dispatcher failure
/// cannot be provoked from outside the compositor, so it is injected. The injection fires
/// **once** per process, so that the rollback which repairs the sabotaged batch can succeed.
pub const FAULT_INJECTION_VAR: &'static str = "HYPR_SWAP_E2E_FAIL_BATCH_STEP";

/// Environment variable that substitutes the version string the compositor reports, so that the
/// too-old warning can be exercised without an old compositor.
pub const COMPOSITOR_VERSION_VAR: &'static str = "HYPR_SWAP_E2E_COMPOSITOR_VERSION";

/// What went wrong talking to the compositor.
#[derive(Debug, Clone, PartialEq, Eq)]
pub enum IpcError {
    /// The socket could not be reached — the compositor is gone, or was never there. Carries the
    /// socket's path and the system's words for the failure.
    Unreachable(String, String),
    /// The socket answered, but the answer was not what the request asked for.
    Rejected(String),
    /// A JSON reply did not have the shape this application expects.
    Malformed(String),
}

/// How an error reads in a diagnostic.
pub open spec fn error_text(e: IpcError) -> Seq<char> {
    match e {
        IpcError::Unreachable(path, cause) => path@ + ": "@ + cause@,
        IpcError::Rejected(message) => message@,
        IpcError::Malformed(message) => message@,
    }
}

impl IpcError {
    /// The error as a diagnostic reads it.
    pub fn to_string(&self) -> (s: String)
        ensures
            s@ == error_text(*self),
    {
        match self {
            IpcError::Unreachable(path, cause) => {
                let mut s = String::new();
                push_str(&mut s, path.as_str());
                push_str(&mut s, ": ");
                push_str(&mut s, cause.as_str());
                s
            },
            IpcError::Rejected(message) => message.clone(),
            IpcError::Malformed(message) => message.clone(),
        }
    }
}

/// How a dispatched plan ended up.
#[derive(Debug, Clone, PartialEq, Eq)]
pub enum DispatchOutcome {
    /// Applied, and the compositor reports the state the plan expected.
    Verified,
    /// Something failed, and the pre-state was restored.
    RolledBack { reason: String },
    /// Something failed and so did the undo, so the user is told where their workspaces
    /// actually are.
    RollbackFailed { reason: String, resulting: String },
}

// --- Socket paths -----------------------------------------------------------------------

/// `<runtime dir>/hypr/<instance signature>`.
pub open spec fn instance_dir(runtime_dir: Seq<char>, signature: Seq<char>) -> Seq<char> {
    path_join(path_join(runtime_dir, "hypr"@), signature)
}

fn instance_dir_path(runtime_dir: &str, signature: &str) -> (dir: String)
    ensures
        dir@ == instance_dir(runtime_dir@, signature@),
{
    let hypr = join_path(runtime_dir, "hypr");
    join_path(hypr.as_str(), signature)
}

/// `$XDG_RUNTIME_DIR/hypr/$HYPRLAND_INSTANCE_SIGNATURE/.socket.sock`.
pub fn request_socket_path(runtime_dir: &str, signature: &str) -> (path: String)
    ensures
        path@ == path_join(instance_dir(runtime_dir@, signature@), ".socket.sock"@),
{
    let dir = instance_dir_path(runtime_dir, signature);
    join_path(dir.as_str(), ".socket.sock")
}

/// `$XDG_RUNTIME_DIR/hypr/$HYPRLAND_INSTANCE_SIGNATURE/.socket2.sock`.
pub fn event_socket_path(runtime_dir: &str, signature: &str) -> (path: String)
    ensures
        path@ == path_join(instance_dir(runtime_dir@, signature@), ".socket2.sock"@),
{
    let dir = instance_dir_path(runtime_dir, signature);
    join_path(dir.as_str(), ".socket2.sock")
}

// --- Dispatch requests --------------------------------------------------------------------

/// The texts of a list of strings.
pub open spec fn texts(commands: Seq<String>) -> Seq<Seq<char>> {
    commands.map_values(|c: String| c@)
}

/// One dispatcher invocation on the wire.
pub open spec fn dispatch_line(command: Seq<char>) -> Seq<char> {
    "/dispatch "@ + command
}

/// Dispatch lines joined by `; `.
pub open spec fn joined_dispatches(commands: Seq<Seq<char>>) -> Seq<char>
    decreases commands.len(),
{
    if commands.len() == 0 {
        Seq::empty()
    } else if commands.len() == 1 {
        dispatch_line(commands[0])
    } else {
        joined_dispatches(commands.drop_last()) + "; "@ + dispatch_line(commands.last())
    }
}

/// A lone command goes as `/dispatch …`; several go as one `[[BATCH]]` so the compositor applies
/// them together; none is the empty request.
pub open spec fn encoded(commands: Seq<Seq<char>>) -> Seq<char> {
    if commands.len() == 0 {
        Seq::empty()
    } else if commands.len() == 1 {
        dispatch_line(commands[0])
    } else {
        "[[BATCH]]"@ + joined_dispatches(commands)
    }
}

/// Encode dispatcher commands as one request.
pub fn encode_dispatch(commands: &[String]) -> (request: String)
    ensures
        request@ == encoded(texts(commands@)),
{
    let ghost cs = texts(commands@);
    if commands.len() == 0 {
        return String::new();
    }
    if commands.len() == 1 {
        let mut request = String::new();
        push_str(&mut request, "/dispatch ");
        push_str(&mut request, commands[0].as_str());
        return request;
    }
    let mut joined = String::new();
    for i in 0..commands.len()
        invariant
            cs == texts(commands@),
            joined@ == joined_dispatches(cs.take(i as int)),
    {
        proof {
            let t = cs.take(i + 1);
            assert(t.drop_last() =~= cs.take(i as int));
            assert(t.last() == commands@[i as int]@);
            if i == 0 {
                assert(t[0] == commands@[0]@);
            }
        }
        if i > 0 {
            push_str(&mut joined, "; ");
        }
        push_str(&mut joined, "/dispatch ");
        push_str(&mut joined, commands[i].as_str());
        proof {
            if i == 0 {
                assert(cs.take(0) =~= Seq::<Seq<char>>::empty());
                assert(joined@ =~= joined_dispatches(cs.take(1)));
            } else {
                assert(joined@ =~= joined_dispatches(cs.take(i + 1)));
            }
        }
    }
    assert(cs.take(commands.len() as int) =~= cs);
    let mut request = String::new();
    push_str(&mut request, "[[BATCH]]");
    push_str(&mut request, joined.as_str());
    request
}

// --- Dispatch responses -------------------------------------------------------------------

/// Batched responses are concatenated with a run of three newlines.
pub open spec fn batch_separator() -> Seq<char> {
    seq!['\n', '\n', '\n']
}

/// The response every successful dispatch returns.
pub open spec fn ok_text() -> Seq<char> {
    seq!['o', 'k']
}

/// Whether a text has anything in it.
pub open spec fn non_empty() -> spec_fn(Seq<char>) -> bool {
    |part: Seq<char>| part.len() > 0
}

/// The per-step results of a dispatch response: the pieces between separators, trimmed, with
/// the empty ones dropped.
pub open spec fn dispatch_results(response: Seq<char>) -> Seq<Seq<char>> {
    split_on(response, batch_separator()).map_values(|part: Seq<char>| trim(part)).filter(non_empty())
}

/// Whether the `i`-th result is something other than `ok`.
pub open spec fn failed_step(results: Seq<Seq<char>>) -> spec_fn(int) -> bool {
    |i: int| results[i] != ok_text()
}

/// What a dispatch response says: every step answered `ok` and the count matches, or the message
/// naming the first problem — the count first, since a compositor that silently dropped a step
/// must not read as success.
pub open spec fn dispatch_verdict(response: Seq<char>, expected: nat) -> Result<(), Seq<char>> {
    let results = dispatch_results(response);
    if results.len() != expected {
        Err(
            "expected "@ + decimal(expected) + " result(s), got "@ + decimal(results.len()) + ": "@
                + trim(response),
        )
    } else {
        match first_where(results.len() as int, failed_step(results)) {
            Some(i) => Err("step "@ + decimal((i + 1) as nat) + " failed: "@ + results[i]),
            None => Ok(()),
        }
    }
}

/// A dispatch result read as the verdict it carries.
pub open spec fn verdict_of(r: Result<(), IpcError>) -> Result<(), Seq<char>> {
    match r {
        Ok(()) => Ok(()),
        Err(e) => Err(error_text(e)),
    }
}

fn results_of(response: &str) -> (results: Vec<Vec<char>>)
    ensures
        views_of(results@) == dispatch_results(response@),
{
    let separator = vec!['\n', '\n', '\n'];
    assert(separator@ == batch_separator());
    let pieces = split_on_chars(&chars_of(response), &separator);
    let ghost trimmed_pieces = views_of(pieces@).map_values(|part: Seq<char>| trim(part));
    let mut results: Vec<Vec<char>> = Vec::new();
    proof {
        lemma_filter_take_zero(trimmed_pieces, non_empty());
    }
    for i in 0..pieces.len()
        invariant
            trimmed_pieces == views_of(pieces@).map_values(|part: Seq<char>| trim(part)),
            trimmed_pieces.len() == pieces.len(),
            views_of(results@) == trimmed_pieces.take(i as int).filter(non_empty()),
    {
        let part = trimmed(&pieces[i]);
        proof {
            lemma_filter_take(trimmed_pieces, non_empty(), i as int);
            assert(trimmed_pieces[i as int] == part@);
        }
        if part.len() > 0 {
            let ghost before = views_of(results@);
            let ghost part_view = part@;
            results.push(part);
            assert(views_of(results@) =~= before.push(part_view));
        }
    }
    assert(trimmed_pieces.take(pieces.len() as int) =~= trimmed_pieces);
    results
}

/// A dispatch succeeded when every step answered `ok`.
///
/// Batched responses arrive concatenated, so the count is checked too.
pub fn classify_dispatch(response: &str, expected: usize) -> (r: Result<(), IpcError>)
    ensures
        verdict_of(r) == dispatch_verdict(response@, expected as nat),
        r matches Err(e) ==> e is Rejected,
{
    let results = results_of(response);
    let ghost rs = views_of(results@);
    if results.len() != expected {
        let mut message = String::new();
        push_str(&mut message, "expected ");
        push_decimal(&mut message, expected as u64);
        push_str(&mut message, " result(s), got ");
        push_decimal(&mut message, results.len() as u64);
        push_str(&mut message, ": ");
        let whole = trimmed(&chars_of(response));
        push_chars(&mut message, &whole);
        return Err(IpcError::Rejected(message));
    }
    let ok = vec!['o', 'k'];
    assert(ok@ == ok_text());
    let ghost p = failed_step(rs);
    for index in 0..results.len()
        invariant
            rs == views_of(results@),
            rs == dispatch_results(response@),
            rs.len() == expected,
            p == failed_step(rs),
            ok@ == ok_text(),
            forall|j: int| 0 <= j < index ==> !#[trigger] p(j),
    {
        let same = crate::text::same_chars(&results[index], &ok);
        if !same {
            assert(p(index as int));
            proof {
                lemma_first_where_found(rs.len() as int, p, index as int);
            }
            let mut message = String::new();
            push_str(&mut message, "step ");
            push_decimal(&mut message, index as u64 + 1);
            push_str(&mut message, " failed: ");
            push_chars(&mut message, &results[index]);
            return Err(IpcError::Rejected(message));
        }
    }
    proof {
        lemma_first_where_none(rs.len() as int, p);
    }
    Ok(())
}

// --- The injected fault ---------------------------------------------------------------------

/// Whether a fault nominating `step` (counted from one) can fire on a batch of `count` commands.
pub fn fault_applies(step: usize, count: usize) -> (r: bool)
    ensures
        r == (1 <= step <= count),
{
    step >= 1 && step <= count
}

/// The batch with its `step`-th command (counted from one) left out, and the command that was.
pub fn omit_step(commands: &[String], step: usize) -> (r: (Vec<String>, String))
    requires
        1 <= step <= commands@.len(),
    ensures
        texts(r.0@) == texts(commands@).remove(step - 1),
        r.1@ == commands@[step - 1]@,
{
    let mut kept: Vec<String> = Vec::new();
    for i in 0..commands.len()
        invariant
            1 <= step <= commands@.len(),
            texts(kept@) == if i < step {
                texts(commands@).take(i as int)
            } else {
                texts(commands@).take(i as int).remove(step - 1)
            },
    {
        let ghost before = texts(kept@);
        if i + 1 != step {
            kept.push(commands[i].clone());
            assert(texts(kept@) =~= before.push(commands@[i as int]@));
        }
        proof {
            let all = texts(commands@);
            if i + 1 < step {
                assert(all.take(i + 1) =~= all.take(i as int).push(all[i as int]));
            } else if i + 1 == step {
                assert(all.take(i + 1).remove(step - 1) =~= all.take(i as int));
            } else {
                assert(all.take(i + 1).remove(step - 1) =~= all.take(i as int).remove(step - 1).push(
                    all[i as int],
                ));
            }
        }
    }
    assert(texts(commands@).take(commands.len() as int) =~= texts(commands@));
    (kept, commands[step - 1].clone())
}

/// What one dispatch sends: the request's text, how many commands it holds, and the step an
/// injected fault left out, with that step's command.
#[derive(Debug, Clone, PartialEq, Eq)]
pub struct DispatchRequest {
    pub request: String,
    pub sent: usize,
    pub injected: Option<(usize, String)>,
}

/// Decide what dispatching `commands` sends. Nothing at all for an empty list, which is then
/// already done; otherwise every command as one request — less the step `fault` names, when a
/// fault is armed for a step the list has.
pub fn dispatch_request(commands: &[String], fault: Option<usize>) -> (r: Option<DispatchRequest>)
    requires
        fault matches Some(step) ==> 1 <= step <= commands@.len(),
    ensures
        r is None <==> commands@.len() == 0,
        r matches Some(d) ==> match fault {
            None => d.request@ == encoded(texts(commands@)) && d.sent == commands@.len() && d.injected is None,
            Some(step) => {
                &&& d.request@ == encoded(texts(commands@).remove(step - 1))
                &&& d.sent == commands@.len() - 1
                &&& d.injected matches Some((at, dropped)) && at == step && dropped@ == commands@[step - 1]@
            },
        },
{
    if commands.len() == 0 {
        return None;
    }
    match fault {
        None => {
            let request = encode_dispatch(commands);
            Some(DispatchRequest { request, sent: commands.len(), injected: None })
        },
        Some(step) => {
            let (kept, dropped) = omit_step(commands, step);
            assert(kept@.len() == texts(kept@).len());
            let request = encode_dispatch(kept.as_slice());
            Some(DispatchRequest { request, sent: kept.len(), injected: Some((step, dropped)) })
        },
    }
}

/// The failure an injected fault reports once the rest of its batch has gone through:
/// `injected failure at step <step> (<dropped command>)`.
pub fn injected_failure(step: usize, dropped: &str) -> (e: IpcError)
    ensures
        e == IpcError::Rejected(e->Rejected_0),
        error_text(e) == "injected failure at step "@ + decimal(step as nat) + " ("@ + dropped@
            + ")"@,
{
    let mut message = String::new();
    push_str(&mut message, "injected failure at step ");
    push_decimal(&mut message, step as u64);
    push_str(&mut message, " (");
    push_str(&mut message, dropped);
    push_str(&mut message, ")");
    IpcError::Rejected(message)
}

/// What a dispatch comes to once the response is in: the response's own verdict, and — when it
/// was good and a step was withheld — the injected failure naming that step.
pub fn settle_dispatch(response: &str, sent: usize, injected: Option<(usize, String)>) -> (r: Result<(), IpcError>)
    ensures
        dispatch_verdict(response@, sent as nat) is Err ==> verdict_of(r) == dispatch_verdict(response@, sent as nat),
        dispatch_verdict(response@, sent as nat) is Ok ==> match injected {
            None => r is Ok,
            Some((step, dropped)) => verdict_of(r) == Err::<(), Seq<char>>(
                "injected failure at step "@ + decimal(step as nat) + " ("@ + dropped@ + ")"@,
            ),
        },
{
    match classify_dispatch(response, sent) {
        Err(e) => Err(e),
        Ok(()) => match injected {
            None => Ok(()),
            Some((step, dropped)) => Err(injected_failure(step, dropped.as_str())),
        },
    }
}

// --- Reading the result back ----------------------------------------------------------------

/// Why a dispatch that went out has not been shown to land: the mismatch, or the reason the state
/// could not be read — monitors asked first.
pub open spec fn read_back_failure(
    expected: ExpectedView,
    monitors: Result<Vec<Monitor>, IpcError>,
    workspaces: Result<Vec<Workspace>, IpcError>,
) -> Option<Seq<char>> {
    match (monitors, workspaces) {
        (Ok(ms), Ok(ws)) => mismatch_of(expected, ms@, ws@),
        (Err(e), _) => Some("the resulting state could not be read: "@ + error_text(e)),
        (_, Err(e)) => Some("the resulting state could not be read: "@ + error_text(e)),
    }
}

/// Compare the state read back after a dispatch with what the plan expected. Unable to look is
/// not the same as looking and seeing the wrong thing, but it is just as much a reason not to
/// claim success.
pub fn read_back(
    expected: &ExpectedState,
    monitors: Result<Vec<Monitor>, IpcError>,
    workspaces: Result<Vec<Workspace>, IpcError>,
) -> (r: Option<String>)
    ensures
        text_of(r) == read_back_failure(expected@, monitors, workspaces),
{
    let failure = match (&monitors, &workspaces) {
        (Ok(ms), Ok(ws)) => return expected.mismatch(ms.as_slice(), ws.as_slice()),
        (Err(e), _) => e,
        (_, Err(e)) => e,
    };
    let mut s = String::new();
    push_str(&mut s, "the resulting state could not be read: ");
    let cause = failure.to_string();
    push_str(&mut s, cause.as_str());
    Some(s)
}

/// Why an attempt — a dispatch, then a read-back — did not land, or `None` when it did.
pub open spec fn attempt_failure(
    dispatched: Result<(), IpcError>,
    read_back: Option<Seq<char>>,
) -> Option<Seq<char>> {
    match dispatched {
        Ok(()) => read_back,
        Err(e) => Some(error_text(e)),
    }
}

/// Where the workspaces a plan touched have actually ended up, for the double-failure report.
pub open spec fn whereabouts_report(
    state: ExpectedView,
    workspaces: Result<Vec<Workspace>, IpcError>,
) -> Seq<char> {
    match workspaces {
        Ok(ws) => described(state.bindings, ws@),
        Err(e) => "the compositor could not be asked where they are: "@ + error_text(e),
    }
}

pub fn report_whereabouts(state: &ExpectedState, workspaces: Result<Vec<Workspace>, IpcError>) -> (r: String)
    ensures
        r@ == whereabouts_report(state@, workspaces),
{
    match &workspaces {
        Ok(ws) => state.describe_actual(ws.as_slice()),
        Err(e) => {
            let mut s = String::new();
            push_str(&mut s, "the compositor could not be asked where they are: ");
            let cause = e.to_string();
            push_str(&mut s, cause.as_str());
            s
        },
    }
}

// --- The dispatch-verify-rollback sequence ----------------------------------------------------

/// An outcome read as text: `None` for a verified plan, the reason for one that was rolled back,
/// and the reason with the resulting state for a double failure.
pub open spec fn outcome_view(o: DispatchOutcome) -> Option<(Seq<char>, Option<Seq<char>>)> {
    match o {
        DispatchOutcome::Verified => None,
        DispatchOutcome::RolledBack { reason } => Some((reason@, None)),
        DispatchOutcome::RollbackFailed { reason, resulting } => Some((reason@, Some(resulting@))),
    }
}

/// The outcome of a plan that failed for `reason`: rolled back when the rollback landed, and
/// otherwise a double failure that carries both messages and where things are now.
pub open spec fn failed_outcome(
    reason: Seq<char>,
    rollback_failure: Option<Seq<char>>,
    resulting: Option<Seq<char>>,
) -> Option<(Seq<char>, Option<Seq<char>>)> {
    match rollback_failure {
        None => Some((reason, None)),
        Some(rollback) => Some(
            (
                reason + "; the rollback failed too: "@ + rollback,
                Some(
                    match resulting {
                        Some(state) => state,
                        None => "the resulting state is unknown"@,
                    },
                ),
            ),
        ),
    }
}

/// What a dispatch-then-verify-then-undo sequence adds up to, once the plan failed for `reason`.
pub fn classify(reason: String, rollback_failure: Option<String>, resulting: Option<String>) -> (r: DispatchOutcome)
    ensures
        outcome_view(r) == failed_outcome(reason@, text_of(rollback_failure), text_of(resulting)),
        r is RolledBack <==> rollback_failure is None,
{
    match rollback_failure {
        None => DispatchOutcome::RolledBack { reason },
        Some(rollback) => {
            let mut message = String::new();
            push_str(&mut message, reason.as_str());
            push_str(&mut message, "; the rollback failed too: ");
            push_str(&mut message, rollback.as_str());
            let resulting = match resulting {
                Some(state) => state,
                None => {
                    let mut s = String::new();
                    push_str(&mut s, "the resulting state is unknown");
                    s
                },
            };
            DispatchOutcome::RollbackFailed { reason: message, resulting }
        },
    }
}

/// Where a verified dispatch stands, and so what the edge does next.
#[derive(Debug, Clone, PartialEq, Eq)]
pub enum DispatchStep {
    /// Send the plan's commands and read the state back.
    Forward,
    /// The plan failed for `reason`; send the rollback and read the state back.
    Rollback { reason: String },
    /// The rollback failed too; ask where the plan's workspaces are.
    Locate { reason: String, rollback_failure: String },
    /// Nothing left to do.
    Done(DispatchOutcome),
}

/// The step after an attempt — a dispatch and its read-back — ended, `failure` saying why it did
/// not land. A step that attempts nothing is left as it is.
pub fn after_attempt(step: DispatchStep, failure: Option<String>) -> (next: DispatchStep)
    ensures
        match step {
            DispatchStep::Forward => match failure {
                None => next == DispatchStep::Done(DispatchOutcome::Verified),
                Some(reason) => next == DispatchStep::Rollback { reason },
            },
            DispatchStep::Rollback { reason } => match failure {
                None => next matches DispatchStep::Done(o) && outcome_view(o) == Some((reason@, None::<Seq<char>>)),
                Some(f) => next == DispatchStep::Locate { reason, rollback_failure: f },
            },
            _ => next == step,
        },
{
    match step {
        DispatchStep::Forward => match failure {
            None => DispatchStep::Done(DispatchOutcome::Verified),
            Some(reason) => DispatchStep::Rollback { reason },
        },
        DispatchStep::Rollback { reason } => match failure {
            None => DispatchStep::Done(classify(reason, None, None)),
            Some(f) => DispatchStep::Locate { reason, rollback_failure: f },
        },
        other => other,
    }
}

/// The step after the plan's workspaces were located, `resulting` describing where they are.
pub fn after_locating(step: DispatchStep, resulting: String) -> (next: DispatchStep)
    ensures
        match step {
            DispatchStep::Locate { reason, rollback_failure } => next matches DispatchStep::Done(o)
                && outcome_view(o) == failed_outcome(reason@, Some(rollback_failure@), Some(resulting@)),
            _ => next == step,
        },
{
    match step {
        DispatchStep::Locate { reason, rollback_failure } => DispatchStep::Done(
            classify(reason, Some(rollback_failure), Some(resulting)),
        ),
        other => other,
    }
}

// --- The version substitution -----------------------------------------------------------------

/// The version a substitution names: an unset or empty value substitutes nothing, and anything
/// else is passed through verbatim, unparsed, with no tag — a substituted version has none to
/// report.
pub fn substitution(value: Option<&str>) -> (r: Option<CompositorVersion>)
    ensures
        match value {
            Some(v) if v@.len() > 0 => r matches Some(c) && c.version@ == v@ && c.tag is None,
            _ => r is None,
        },
{
    let version = match value {
        Some(version) => version,
        None => return None,
    };
    let chars = chars_of(version);
    if chars.len() == 0 {
        return None;
    }
    Some(CompositorVersion { version: string_of(&chars), tag: None })
}

} // verus!
