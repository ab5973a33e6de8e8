use ai_coder_interface_rs::ai::types::AIError;
use ai_coder_interface_rs::ai::types::AIResponse;
use ai_coder_interface_rs::ai::types::TaskStatus;
use ai_coder_interface_rs::ai::types::TokenUsage;
use ai_coder_interface_rs::worker::abort_precheck;
use ai_coder_interface_rs::worker::poll_abort;
use ai_coder_interface_rs::worker::resolve_race;
use ai_coder_interface_rs::worker::response_content;
use ai_coder_interface_rs::worker::status_for_outcome;
use ai_coder_interface_rs::worker::GenerationOutcome;
use ai_coder_interface_rs::worker::RaceWinner;
use std::sync::atomic::AtomicBool;
use std::sync::atomic::Ordering;
use std::sync::Arc;

fn sample_response() -> AIResponse {
    AIResponse {
        content: String::from("hello"),
        model: String::from("test-model"),
        usage: TokenUsage { prompt_tokens: 3, completion_tokens: 5, total_tokens: 8 },
        progress: None,
    }
}

#[test]
fn poller_checks_both_flags_and_normalizes_the_local_one() {
    let d = poll_abort(false, false);
    assert!(!d.cancel_now && !d.local_flag);
    let d = poll_abort(true, false);
    assert!(d.cancel_now && d.local_flag);
    let d = poll_abort(false, true);
    assert!(d.cancel_now && d.local_flag);
    let d = poll_abort(true, true);
    assert!(d.cancel_now && d.local_flag);
}

#[test]
fn precheck_cancels_before_the_race_starts() {
    assert!(abort_precheck(false).is_none());
    match abort_precheck(true) {
        Some(AIError::Cancelled(m)) => assert_eq!(m, "Operation aborted by user"),
        other => panic!("expected a cancellation, got {:?}", other),
    }
}

#[test]
fn poller_win_is_cancelled_whatever_the_work_would_return() {
    // A race the poller won resolves Cancelled, never a success.
    let r = resolve_race(RaceWinner::Poller, true);
    assert!(matches!(r, Err(AIError::Cancelled(_))));
    let r = resolve_race(RaceWinner::Poller, false);
    assert!(matches!(r, Err(AIError::Cancelled(_))));
}

#[test]
fn late_abort_downgrades_a_finished_success() {
    // W finished first, but the abort flag was set before the re-check:
    // the success is discarded as Cancelled, not delivered.
    let r = resolve_race(RaceWinner::Work(Ok(sample_response())), true);
    match r {
        Err(AIError::Cancelled(m)) => {
            assert_eq!(m, "Operation aborted after generation completed")
        },
        other => panic!("expected cancellation, got {:?}", other),
    }
}

#[test]
fn undisturbed_success_is_delivered_unchanged() {
    let r = resolve_race(RaceWinner::Work(Ok(sample_response())), false);
    let resp = r.expect("success must be delivered");
    assert_eq!(resp.content, "hello");
    assert_eq!(resp.usage.total_tokens, 8);
}

#[test]
fn domain_errors_pass_through() {
    let r = resolve_race(
        RaceWinner::Work(Err(AIError::NetworkError(String::from("down")))),
        false,
    );
    match r {
        Err(AIError::NetworkError(m)) => assert_eq!(m, "down"),
        other => panic!("expected the network error, got {:?}", other),
    }
}

#[test]
fn outcomes_classify_into_distinct_terminal_statuses() {
    let ok = GenerationOutcome::Finished(Ok(sample_response()));
    assert_eq!(status_for_outcome(&ok), TaskStatus::Completed);
    let cancelled = GenerationOutcome::Finished(Err(AIError::Cancelled(String::from("x"))));
    assert_eq!(status_for_outcome(&cancelled), TaskStatus::Cancelled);
    let failed = GenerationOutcome::Finished(Err(AIError::ServerError(String::from("x"))));
    assert_eq!(status_for_outcome(&failed), TaskStatus::Failed);
    assert_eq!(status_for_outcome(&GenerationOutcome::TimedOut), TaskStatus::Failed);
}

#[test]
fn only_a_success_deposits_result_content() {
    let ok = GenerationOutcome::Finished(Ok(sample_response()));
    assert_eq!(response_content(ok), Some(String::from("hello")));
    let cancelled = GenerationOutcome::Finished(Err(AIError::Cancelled(String::from("x"))));
    assert_eq!(response_content(cancelled), None);
    assert_eq!(response_content(GenerationOutcome::TimedOut), None);
}

#[test]
fn preset_global_abort_cancels_within_one_poll_interval() {
    // The global flag is set before the race starts: the very first
    // poller wake observes it, so the race resolves Cancelled well
    // within twice the 50 ms poll period.
    let rt = tokio::runtime::Runtime::new().unwrap();
    rt.block_on(async {
        let global = Arc::new(AtomicBool::new(true));
        let local = Arc::new(AtomicBool::new(false));
        let started = std::time::Instant::now();
        let result = loop {
            let decision = poll_abort(
                local.load(Ordering::SeqCst),
                global.load(Ordering::SeqCst),
            );
            if decision.cancel_now {
                local.store(decision.local_flag, Ordering::SeqCst);
                break resolve_race(RaceWinner::Poller, decision.local_flag);
            }
            tokio::time::sleep(std::time::Duration::from_millis(50)).await;
        };
        assert!(started.elapsed() < std::time::Duration::from_millis(100));
        assert!(matches!(result, Err(AIError::Cancelled(_))));
        // the local flag was normalized from the global observation
        assert!(local.load(Ordering::SeqCst));
    });
}

#[test]
fn work_raced_against_a_poller_loses_once_a_flag_is_set() {
    // A full race: the work sleeps for ten seconds while the poller
    // wakes every 50 ms; a cancellation raised shortly after the start
    // wins the race long before the work can finish.
    let rt = tokio::runtime::Runtime::new().unwrap();
    rt.block_on(async {
        let global = Arc::new(AtomicBool::new(false));
        let local = Arc::new(AtomicBool::new(false));

        let raiser = {
            let global = Arc::clone(&global);
            tokio::spawn(async move {
                tokio::time::sleep(std::time::Duration::from_millis(30)).await;
                global.store(true, Ordering::SeqCst);
            })
        };

        let started = std::time::Instant::now();
        let result = loop {
            let decision = poll_abort(
                local.load(Ordering::SeqCst),
                global.load(Ordering::SeqCst),
            );
            if decision.cancel_now {
                local.store(decision.local_flag, Ordering::SeqCst);
                break resolve_race(RaceWinner::Poller, decision.local_flag);
            }
            if started.elapsed() > std::time::Duration::from_secs(10) {
                break resolve_race(RaceWinner::Work(Ok(sample_response())), false);
            }
            tokio::time::sleep(std::time::Duration::from_millis(50)).await;
        };
        raiser.await.unwrap();
        assert!(started.elapsed() < std::time::Duration::from_secs(1));
        assert!(matches!(result, Err(AIError::Cancelled(_))));
    });
}
