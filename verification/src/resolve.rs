//! The resolver: the decision rules of the resolution/dispatch loop.
//!
//! For each association-map entry exactly one decision is made: report an
//! impossible empty entry, auto-select a lone candidate, or put the choice
//! to the operator. A chosen handler is dispatched once; the sink's
//! termination is then interpreted as silent success, a recoverable error,
//! or a fatal signal death.

use vstd::prelude::*;

verus! {

/// How one association-map entry is to be handled, by its candidate count.
pub enum ResolutionStep {
    /// No candidates: report an error and skip the entry without
    /// dispatching. The aggregator never produces such an entry.
    ReportEmpty,
    /// Exactly one candidate: choose it without prompting, surfacing the
    /// automatic choice to the operator.
    AutoSelect,
    /// Two or more candidates: the operator chooses interactively.
    Prompt,
}

/// Classifies a map entry by its number of candidates: an entry with
/// exactly one candidate never triggers the interactive prompt, an entry
/// with two or more always does.
pub fn classify_entry(count: usize) -> (step: ResolutionStep)
    ensures
        (step is ReportEmpty) <==> count == 0,
        (step is AutoSelect) <==> count == 1,
        (step is Prompt) <==> count >= 2,
{
    if count == 0 {
        ResolutionStep::ReportEmpty
    } else if count == 1 {
        ResolutionStep::AutoSelect
    } else {
        ResolutionStep::Prompt
    }
}

/// What the interactive selection yields: a zero-based index into the
/// presented list, an explicit abandonment, or a failure reading input.
pub enum PromptOutcome {
    Selected(usize),
    Abandoned,
    Failed,
}

/// The decision for one MIME type after prompting.
pub enum Decision {
    /// Dispatch to this handler.
    Use(String),
    /// Skip this MIME type; no dispatch happens and the run continues.
    Skip,
    /// The interactive channel is broken: the whole run must stop.
    Abort,
}

/// Turns a prompt outcome into the decision for this MIME type: a selected
/// index picks that candidate, an abandonment skips the entry without any
/// dispatch, and a read failure aborts the run.
pub fn resolve_prompt(candidates: &Vec<String>, outcome: &PromptOutcome) -> (d: Decision)
    requires
        *outcome matches PromptOutcome::Selected(i) ==> i < candidates.len(),
    ensures
        (*outcome matches PromptOutcome::Selected(i) ==> (d matches Decision::Use(h) && h@
            == candidates.deep_view()[i as int])),
        *outcome is Abandoned ==> d is Skip,
        *outcome is Failed ==> d is Abort,
{
    match outcome {
        PromptOutcome::Selected(i) => Decision::Use(candidates[*i].clone()),
        PromptOutcome::Abandoned => Decision::Skip,
        PromptOutcome::Failed => Decision::Abort,
    }
}

/// The two positional arguments of one dispatch-sink invocation: the
/// handler identifier first, then the MIME type.
pub fn sink_arguments(handler: &String, mimetype: &String) -> (args: Vec<String>)
    ensures
        args.deep_view() == seq![handler@, mimetype@],
{
    let mut args: Vec<String> = Vec::new();
    args.push(handler.clone());
    args.push(mimetype.clone());
    proof {
        assert(args.deep_view() =~~= seq![handler@, mimetype@]);
    }
    args
}

/// How the dispatch sink's termination is interpreted.
pub enum SinkVerdict {
    /// Exit code zero: success, nothing is reported.
    Success,
    /// A non-zero exit code: reported as an error, the run continues with
    /// the next MIME type.
    NonZeroExit(i32),
    /// Killed by a signal, so no exit code at all: the whole run must stop.
    KilledBySignal,
}

/// Interprets the dispatch sink's termination status, where `None` stands
/// for a process that left no exit code.
pub fn interpret_sink_status(code: Option<i32>) -> (v: SinkVerdict)
    ensures
        code == Some(0i32) ==> v is Success,
        code matches Some(c) ==> (c != 0 ==> (v matches SinkVerdict::NonZeroExit(e) && e == c)),
        code is None ==> v is KilledBySignal,
{
    match code {
        Some(0) => SinkVerdict::Success,
        Some(c) => SinkVerdict::NonZeroExit(c),
        None => SinkVerdict::KilledBySignal,
    }
}

} // verus!
