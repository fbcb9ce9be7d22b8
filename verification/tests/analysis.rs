use log_inspector::analysis::{
    run_succeeded, Action, AnalysisKind, AnalysisResult, Orchestrator, ResultSlots,
    ServiceCallError,
};

fn ok(text: &str) -> Result<String, ServiceCallError> {
    Ok(text.to_string())
}

fn timeout() -> Result<String, ServiceCallError> {
    Err(ServiceCallError::Network { reason: "timeout".to_string() })
}

#[test]
fn run_without_chunks_is_finished() {
    let run = Orchestrator::new(0);
    assert_eq!(run.next_action(), Action::Finish);
    let run = run.record(ok("SUCCESS"));
    assert_eq!(run.next_action(), Action::Finish);
    assert!(run.into_results().is_empty());
}

#[test]
fn requests_alternate_and_follow_chunk_order() {
    let mut run = Orchestrator::new(3);
    assert_eq!(run.total_chunks(), 3);
    let mut seen = Vec::new();
    loop {
        match run.next_action() {
            Action::Finish => break,
            Action::Request { chunk_index, kind } => {
                seen.push((chunk_index, kind));
                run = run.record(ok("SUCCESS"));
            }
        }
    }
    assert_eq!(
        seen,
        vec![
            (0, AnalysisKind::Classification),
            (0, AnalysisKind::Summary),
            (1, AnalysisKind::Classification),
            (1, AnalysisKind::Summary),
            (2, AnalysisKind::Classification),
            (2, AnalysisKind::Summary),
        ]
    );
    let results = run.into_results();
    assert_eq!(results.len(), 3);
    for (i, result) in results.iter().enumerate() {
        assert_eq!(result.chunk_index, i);
    }
}

#[test]
fn failed_request_is_kept_and_the_run_goes_on() {
    let run = Orchestrator::new(3);
    let run = run.record(ok("SUCCESS")).record(ok("All good.\n- Duration: 2 s"));
    let run = run.record(timeout());
    assert_eq!(
        run.next_action(),
        Action::Request { chunk_index: 1, kind: AnalysisKind::Summary }
    );
    let run = run.record(ok("Half done."));
    assert_eq!(
        run.next_action(),
        Action::Request { chunk_index: 2, kind: AnalysisKind::Classification }
    );
    let run = run.record(ok("SPARK_ERROR")).record(Err(ServiceCallError::Status { code: 503 }));
    assert_eq!(run.next_action(), Action::Finish);
    assert_eq!(
        run.into_results(),
        vec![
            AnalysisResult {
                chunk_index: 0,
                classification: ok("SUCCESS"),
                summary: ok("All good.\n- Duration: 2 s"),
            },
            AnalysisResult { chunk_index: 1, classification: timeout(), summary: ok("Half done.") },
            AnalysisResult {
                chunk_index: 2,
                classification: ok("SPARK_ERROR"),
                summary: Err(ServiceCallError::Status { code: 503 }),
            },
        ]
    );
}

#[test]
fn finished_run_drops_further_outcomes() {
    let run = Orchestrator::new(1).record(ok("SUCCESS")).record(ok("Fine."));
    assert_eq!(run.next_action(), Action::Finish);
    let run = run.record(ok("SPARK_ERROR")).record(ok("Late."));
    let results = run.into_results();
    assert_eq!(results.len(), 1);
    assert_eq!(results[0].classification, ok("SUCCESS"));
    assert_eq!(results[0].summary, ok("Fine."));
}

#[test]
fn cancelled_run_keeps_what_is_done() {
    let run = Orchestrator::new(4).record(ok("SUCCESS")).record(ok("Fine.")).record(ok("SPARK_ERROR"));
    let run = run.cancel();
    assert_eq!(run.next_action(), Action::Finish);
    let run = run.record(ok("Dropped."));
    let results = run.into_results();
    assert_eq!(results.len(), 1);
    assert_eq!(results[0].chunk_index, 0);
}

#[test]
fn prompts_name_the_categories_and_the_format() {
    let classify = AnalysisKind::Classification.system_prompt();
    for code in [
        "SUCCESS",
        "USER_CODE_ERROR",
        "SCALING_ERROR",
        "SPARK_ERROR",
        "SPARK_OOM_ERROR",
        "NETWORK_ERROR",
        "PERMISSION_ERROR",
        "UNKNOWN_ERROR",
    ] {
        assert!(classify.contains(code));
    }
    assert!(classify.contains("If execution was successful, return only \"SUCCESS\""));
    assert!(classify.contains("return up to 3 error codes from highest to lowest probability"));
    assert!(classify.contains("Return only the comma-separated list, no other text."));
    let summarize = AnalysisKind::Summary.system_prompt();
    assert!(summarize.contains("One or two sentences describing the overall situation."));
    assert!(summarize.contains("list up to 3 key points"));
    assert!(summarize.contains("Use \"-\" (hyphen) for each point."));
    assert_ne!(classify, summarize);
}

#[test]
fn failures_in_words() {
    assert_eq!(
        ServiceCallError::Network { reason: "timeout".to_string() }.describe(),
        "network failure: timeout"
    );
    assert_eq!(ServiceCallError::Status { code: 503 }.describe(), "unexpected status 503");
    assert_eq!(ServiceCallError::Status { code: 0 }.describe(), "unexpected status 0");
    assert_eq!(ServiceCallError::Status { code: 65535 }.describe(), "unexpected status 65535");
    assert_eq!(
        ServiceCallError::MalformedPayload { reason: "no json".to_string() }.describe(),
        "malformed payload: no json"
    );
}

#[test]
fn run_succeeds_with_one_answered_chunk() {
    let answered = |i: usize| AnalysisResult { chunk_index: i, classification: ok("SUCCESS"), summary: ok("Fine.") };
    let half = |i: usize| AnalysisResult { chunk_index: i, classification: ok("SUCCESS"), summary: timeout() };
    let failed = |i: usize| AnalysisResult { chunk_index: i, classification: timeout(), summary: timeout() };
    assert!(run_succeeded(&Vec::new()));
    assert!(run_succeeded(&vec![answered(0)]));
    assert!(run_succeeded(&vec![failed(0), half(1), answered(2)]));
    assert!(!run_succeeded(&vec![failed(0)]));
    assert!(!run_succeeded(&vec![half(0), failed(1)]));
    assert!(answered(0).succeeded());
    assert!(!half(0).succeeded());
    assert!(!failed(0).succeeded());
    let flipped = AnalysisResult { chunk_index: 0, classification: timeout(), summary: ok("Fine.") };
    assert!(!flipped.succeeded());
}

#[test]
fn slots_give_results_in_chunk_order() {
    let slots = ResultSlots::new(3)
        .place(2, AnalysisKind::Summary, ok("Third."))
        .place(0, AnalysisKind::Classification, ok("SUCCESS"))
        .place(1, AnalysisKind::Summary, ok("Second."))
        .place(2, AnalysisKind::Classification, timeout())
        .place(1, AnalysisKind::Classification, ok("SPARK_ERROR"))
        .place(0, AnalysisKind::Summary, ok("First."));
    assert_eq!(
        slots.into_results(),
        vec![
            AnalysisResult { chunk_index: 0, classification: ok("SUCCESS"), summary: ok("First.") },
            AnalysisResult { chunk_index: 1, classification: ok("SPARK_ERROR"), summary: ok("Second.") },
            AnalysisResult { chunk_index: 2, classification: timeout(), summary: ok("Third.") },
        ]
    );
}

#[test]
fn slots_leave_out_chunks_that_are_not_complete() {
    let slots = ResultSlots::new(4)
        .place(3, AnalysisKind::Classification, ok("SUCCESS"))
        .place(3, AnalysisKind::Summary, ok("Last."))
        .place(1, AnalysisKind::Classification, ok("SPARK_ERROR"))
        .place(0, AnalysisKind::Summary, ok("Only half."));
    assert_eq!(
        slots.into_results(),
        vec![AnalysisResult { chunk_index: 3, classification: ok("SUCCESS"), summary: ok("Last.") }]
    );
    assert!(ResultSlots::new(5).into_results().is_empty());
    assert!(ResultSlots::new(0).into_results().is_empty());
}

#[test]
fn slots_drop_outcomes_for_chunks_that_do_not_exist() {
    let slots = ResultSlots::new(1)
        .place(1, AnalysisKind::Classification, ok("SUCCESS"))
        .place(7, AnalysisKind::Summary, ok("Nowhere."))
        .place(0, AnalysisKind::Classification, ok("NETWORK_ERROR"))
        .place(0, AnalysisKind::Summary, ok("Here."));
    assert_eq!(
        slots.into_results(),
        vec![AnalysisResult { chunk_index: 0, classification: ok("NETWORK_ERROR"), summary: ok("Here.") }]
    );
}

#[test]
fn later_outcome_replaces_the_earlier_one() {
    let slots = ResultSlots::new(1)
        .place(0, AnalysisKind::Classification, timeout())
        .place(0, AnalysisKind::Summary, ok("Fine."))
        .place(0, AnalysisKind::Classification, ok("SUCCESS"));
    assert_eq!(
        slots.into_results(),
        vec![AnalysisResult { chunk_index: 0, classification: ok("SUCCESS"), summary: ok("Fine.") }]
    );
}

#[test]
fn slots_and_sequential_run_agree() {
    let run = Orchestrator::new(2)
        .record(ok("SUCCESS"))
        .record(ok("One."))
        .record(timeout())
        .record(ok("Two."));
    let slots = ResultSlots::new(2)
        .place(1, AnalysisKind::Summary, ok("Two."))
        .place(1, AnalysisKind::Classification, timeout())
        .place(0, AnalysisKind::Summary, ok("One."))
        .place(0, AnalysisKind::Classification, ok("SUCCESS"));
    assert_eq!(run.into_results(), slots.into_results());
}
