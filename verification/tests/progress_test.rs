use ai_coder_interface_rs::ai::types::ModelCosts;
use ai_coder_interface_rs::ai::types::ProgressStats;
use ai_coder_interface_rs::ai::types::SessionStats;
use ai_coder_interface_rs::ai::types::TokenUsage;

#[test]
fn first_update_jumps_to_the_instantaneous_rate() {
    let mut p = ProgressStats::new(0);
    p.update(100, 1_000);
    // 100 tokens over one second: 100.000 tokens per second
    assert_eq!(p.tokens_generated, 100);
    assert_eq!(p.tokens_per_second_milli, 100_000);
    assert_eq!(p.last_update, 1_000);
}

#[test]
fn rate_estimate_converges_to_a_steady_rate() {
    // A skewed first sample, then steady updates of 100 tokens per
    // second: each step keeps 7/10 of the previous estimate, so the
    // estimate contracts geometrically toward 100.000.
    let mut p = ProgressStats::new(0);
    p.update(1_000, 100);  // 1000 tokens in 100 ms: 10_000.000 milli-rate
    assert_eq!(p.tokens_per_second_milli, 10_000_000);

    p.update(1_100, 1_100);  // +100 tokens over 1000 ms
    assert_eq!(p.tokens_per_second_milli, (7 * 10_000_000 + 3 * 100_000) / 10);
    let d1 = p.tokens_per_second_milli - 100_000;

    p.update(1_200, 2_100);
    let d2 = p.tokens_per_second_milli - 100_000;
    p.update(1_300, 3_100);
    let d3 = p.tokens_per_second_milli - 100_000;

    // the gap to the steady rate shrinks by a factor of 7/10 per step
    assert_eq!(d2, 7 * d1 / 10);
    assert_eq!(d3, 7 * d2 / 10);

    // after enough steady steps the estimate settles at the true rate
    let mut tokens = 1_300;
    let mut now = 3_100;
    for _ in 0..60 {
        tokens += 100;
        now += 1_000;
        p.update(tokens, now);
    }
    assert_eq!(p.tokens_per_second_milli, 100_000);
}

#[test]
fn back_to_back_updates_are_coalesced() {
    let mut p = ProgressStats::new(0);
    p.update(100, 1_000);
    // 5 ms later: ignored, so the rate is not distorted
    p.update(200, 1_005);
    assert_eq!(p.tokens_generated, 100);
    assert_eq!(p.tokens_per_second_milli, 100_000);
    assert_eq!(p.last_update, 1_000);
    // a clock that did not move is ignored too
    p.update(300, 1_000);
    assert_eq!(p.tokens_generated, 100);
}

#[test]
fn completion_percent_needs_an_estimate() {
    let mut p = ProgressStats::new(0);
    p.update(50, 1_000);
    assert_eq!(p.completion_permille, None);

    let mut q = ProgressStats::new(0);
    q.estimated_total_tokens = Some(200);
    q.update(50, 1_000);
    assert_eq!(q.completion_permille, Some(250));
    q.update(400, 2_000);
    // over the estimate: capped at 99.9 percent
    assert_eq!(q.completion_permille, Some(999));
    q.complete();
    assert_eq!(q.completion_permille, Some(1000));
}

#[test]
fn remaining_time_estimate() {
    let mut p = ProgressStats::new(0);
    p.estimated_total_tokens = Some(1_000);
    assert_eq!(p.estimate_remaining_seconds(), None);  // no rate yet
    p.update(100, 1_000);
    // 900 tokens left at 100 tokens per second
    assert_eq!(p.estimate_remaining_seconds(), Some(9));

    let no_estimate = ProgressStats::new(0);
    assert_eq!(no_estimate.estimate_remaining_seconds(), None);
}

#[test]
fn session_stats_accumulate_usage_and_cost() {
    let mut stats = SessionStats::default();
    let usage = TokenUsage { prompt_tokens: 2_000, completion_tokens: 1_000, total_tokens: 3_000 };
    // 0.10 dollars per 1k prompt tokens, 0.30 per 1k completion tokens
    let costs = ModelCosts { prompt_cost_per_1k: 100_000, completion_cost_per_1k: 300_000 };
    assert_eq!(costs.calculate_cost(&usage), 500_000);

    stats.update(&usage, &costs);
    stats.update(&usage, &costs);
    assert_eq!(stats.total_prompt_tokens, 4_000);
    assert_eq!(stats.total_completion_tokens, 2_000);
    assert_eq!(stats.total_tokens(), 6_000);
    assert_eq!(stats.total_cost, 1_000_000);
}
