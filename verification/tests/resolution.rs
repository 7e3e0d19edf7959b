//! Resolution decisions: candidate-count classification, prompt outcomes,
//! and interpretation of the dispatch sink's termination.

use mime_pick::resolve::{
    classify_entry, interpret_sink_status, resolve_prompt, sink_arguments, Decision,
    PromptOutcome, ResolutionStep, SinkVerdict,
};

#[test]
fn empty_entry_is_reported_not_dispatched() {
    assert!(matches!(classify_entry(0), ResolutionStep::ReportEmpty));
}

#[test]
fn single_candidate_never_prompts() {
    assert!(matches!(classify_entry(1), ResolutionStep::AutoSelect));
}

#[test]
fn two_or_more_candidates_always_prompt() {
    assert!(matches!(classify_entry(2), ResolutionStep::Prompt));
    assert!(matches!(classify_entry(3), ResolutionStep::Prompt));
    assert!(matches!(classify_entry(100), ResolutionStep::Prompt));
}

#[test]
fn selected_index_picks_that_candidate() {
    let candidates = vec!["a.desktop".to_string(), "b.desktop".to_string()];
    let d = resolve_prompt(&candidates, &PromptOutcome::Selected(1));
    assert!(matches!(&d, Decision::Use(h) if h == "b.desktop"));
}

#[test]
fn selection_of_index_one_dispatches_second_candidate_once() {
    let candidates = vec!["a.desktop".to_string(), "b.desktop".to_string()];
    match resolve_prompt(&candidates, &PromptOutcome::Selected(1)) {
        Decision::Use(handler) => {
            let args = sink_arguments(&handler, &"text/plain".to_string());
            assert_eq!(
                args,
                vec!["b.desktop".to_string(), "text/plain".to_string()]
            );
        }
        _ => panic!("expected a dispatch decision"),
    }
}

#[test]
fn abandoned_prompt_skips_without_dispatch() {
    let candidates = vec!["a.desktop".to_string(), "b.desktop".to_string()];
    let d = resolve_prompt(&candidates, &PromptOutcome::Abandoned);
    assert!(matches!(d, Decision::Skip));
}

#[test]
fn failed_prompt_aborts_the_run() {
    let candidates = vec!["a.desktop".to_string(), "b.desktop".to_string()];
    let d = resolve_prompt(&candidates, &PromptOutcome::Failed);
    assert!(matches!(d, Decision::Abort));
}

#[test]
fn zero_exit_is_silent_success() {
    assert!(matches!(interpret_sink_status(Some(0)), SinkVerdict::Success));
}

#[test]
fn nonzero_exit_is_recoverable_error() {
    assert!(matches!(interpret_sink_status(Some(3)), SinkVerdict::NonZeroExit(3)));
    assert!(matches!(interpret_sink_status(Some(1)), SinkVerdict::NonZeroExit(1)));
}

#[test]
fn signal_death_is_fatal() {
    assert!(matches!(interpret_sink_status(None), SinkVerdict::KilledBySignal));
}
