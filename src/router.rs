use vstd::prelude::*;

use crate::backend::BackendAction;
use crate::log_line::{
    all_spaces, format_line, lemma_format_parses, parse_line, parse_spec, same_text, well_formed_pieces, Level,
    LogEvent,
};

verus! {

/// The message with which the supervised process reports that it has no way
/// left to stop its server.
pub const STOP_FAILED_MESSAGE: &'static str = "Failed to stop server, no more suitable stopping method to use";

/// The separator between a group and the target of one of its events.
pub const NAMESPACE_SEPARATOR: &'static str = "::";

/// What the handling of one line of output comes to.
#[derive(Clone, Debug, PartialEq, Eq)]
pub enum LineOutcome {
    /// The line could not be read: nothing is forwarded.
    Dropped,
    /// The line is not structured: it is echoed as it is.
    Passthrough(String),
    /// The line is re-emitted as `event`, under the group's namespace, and
    /// `action`, if any, is asked of the backend.
    Emitted { event: LogEvent, action: Option<BackendAction> },
}

/// Target under which an event of `group` with target `target` is re-emitted.
pub open spec fn namespaced(group: Seq<char>, target: Seq<char>) -> Seq<char> {
    group + NAMESPACE_SEPARATOR@ + target
}

/// The trigger table: a warning that the process could not stop its server.
pub open spec fn is_stop_trigger(level: Level, message: Seq<char>) -> bool {
    level == Level::Warn && message == STOP_FAILED_MESSAGE@
}

/// `a` is the corrective action owed for an event of `group`.
pub open spec fn is_trigger_action(
    a: Option<BackendAction>,
    group: Seq<char>,
    level: Level,
    message: Seq<char>,
) -> bool {
    if is_stop_trigger(level, message) {
        a matches Some(BackendAction::Stop(g)) && g@ == group
    } else {
        a is None
    }
}

/// `r` is the outcome owed for line `line` (`None`: it could not be read) of
/// the output of `group`.
pub open spec fn is_line_outcome(r: LineOutcome, group: Seq<char>, line: Option<Seq<char>>) -> bool {
    match line {
        None => r is Dropped,
        Some(l) => match parse_spec(l) {
            None => r matches LineOutcome::Passthrough(p) && p@ == l,
            Some((level, target, message)) => match r {
                LineOutcome::Emitted { event, action } => {
                    &&& event.level == level
                    &&& event.target@ == namespaced(group, target)
                    &&& event.message@ == message
                    &&& is_trigger_action(action, group, level, message)
                },
                _ => false,
            },
        },
    }
}

/// The target `{group}::{target}` under which a group's event is re-emitted.
pub fn namespaced_target(group: &str, target: &str) -> (r: String)
    ensures
        r@ == namespaced(group@, target@),
{
    let mut r = String::from_str(group);
    r.append(NAMESPACE_SEPARATOR);
    r.append(target);
    r
}

/// The corrective action that an event of `group` calls for: a forced stop of
/// the group's server when the process reports that it could not stop it.
pub fn handle_log(group: &String, level: &Level, message: &String) -> (r: Option<BackendAction>)
    ensures
        is_trigger_action(r, group@, *level, message@),
{
    if *level == Level::Warn && same_text(message.as_str(), STOP_FAILED_MESSAGE) {
        Some(BackendAction::Stop(group.clone()))
    } else {
        None
    }
}

/// Handles one line read from the output of `group`'s process: a structured
/// line is re-emitted under `{group}::{target}`, any other line is echoed, and
/// a line that could not be read is dropped.
pub fn wrap_log(group: &String, line: Option<String>) -> (r: LineOutcome)
    ensures
        is_line_outcome(r, group@, match line {
            Some(l) => Some(l@),
            None => None,
        }),
{
    match line {
        None => LineOutcome::Dropped,
        Some(l) => match parse_line(l.as_str()) {
            None => LineOutcome::Passthrough(l),
            Some(parsed) => {
                let target = namespaced_target(group.as_str(), parsed.target.as_str());
                let action = handle_log(group, &parsed.level, &parsed.message);
                LineOutcome::Emitted {
                    event: LogEvent { level: parsed.level, target, message: parsed.message },
                    action,
                }
            },
        },
    }
}

/// A line in the format `LEVEL TARGET > MESSAGE`, after leading spaces, from
/// the output of `group` is re-emitted at its level, under
/// `{group}::{TARGET}`, with its message.
pub proof fn lemma_format_line_reemitted(
    group: Seq<char>,
    w0: Seq<char>,
    level: Level,
    w1: Seq<char>,
    target: Seq<char>,
    w2: Seq<char>,
    w3: Seq<char>,
    message: Seq<char>,
    r: LineOutcome,
)
    requires
        all_spaces(w0),
        well_formed_pieces(w1, target, w2, w3, message),
        is_line_outcome(r, group, Some(format_line(w0, level, w1, target, w2, w3, message))),
    ensures
        r matches LineOutcome::Emitted { event, action } && event.level == level && event.target@
            == namespaced(group, target) && event.message@ == message,
{
    lemma_format_parses(w0, level, w1, target, w2, w3, message);
}

/// A line that is not in the format is echoed unchanged, and no event is
/// emitted for it.
pub proof fn lemma_other_line_passes_through(group: Seq<char>, line: Seq<char>, r: LineOutcome)
    requires
        parse_spec(line) is None,
        is_line_outcome(r, group, Some(line)),
    ensures
        r matches LineOutcome::Passthrough(p) && p@ == line,
{
}

/// Every line that reports, as a warning, that the process could not stop its
/// server asks for one forced stop of the group's server; repeated lines ask
/// again each time.
pub proof fn lemma_stop_failure_forces_stop(group: Seq<char>, line: Seq<char>, r: LineOutcome)
    requires
        parse_spec(line) matches Some((level, target, message)) && level == Level::Warn && message
            == STOP_FAILED_MESSAGE@,
        is_line_outcome(r, group, Some(line)),
    ensures
        r matches LineOutcome::Emitted { event, action } && action matches Some(
            BackendAction::Stop(g),
        ) && g@ == group,
{
}

} // verus!
