use charge_notifier::retry::{FixedRetryState, RetryConfig, RetryDecision, RetryState};
use charge_notifier::retry::RetryDecision::{GiveUp, WaitMillis};

#[test]
fn retry_budgets_of_each_service() {
    assert_eq!(RetryConfig::Sheets.max_attempts(), 8);
    assert_eq!(RetryConfig::Omie.max_attempts(), 5);
    assert_eq!(RetryConfig::Asaas.max_attempts(), 5);
    assert_eq!(RetryConfig::WhatsApp.max_attempts(), 3);
    assert_eq!(RetryConfig::Sheets.initial_backoff(), 2000);
    assert_eq!(RetryConfig::Omie.initial_backoff(), 1000);
    assert_eq!(RetryConfig::Asaas.initial_backoff(), 1000);
    assert_eq!(RetryConfig::WhatsApp.initial_backoff(), 500);
    assert_eq!(RetryConfig::Sheets.max_backoff(), 64000);
    assert_eq!(RetryConfig::Omie.max_backoff(), 32000);
    assert_eq!(RetryConfig::Asaas.max_backoff(), 32000);
    assert_eq!(RetryConfig::WhatsApp.max_backoff(), 8000);
}

fn decisions(config: RetryConfig) -> Vec<RetryDecision> {
    let mut state = RetryState::new(config);
    let mut out = Vec::new();
    loop {
        let d = state.on_failure();
        out.push(d);
        if d == RetryDecision::GiveUp {
            return out;
        }
    }
}

#[test]
fn sheets_backoff_doubles_up_to_the_cap() {
    assert_eq!(
        decisions(RetryConfig::Sheets),
        vec![
            WaitMillis(2000),
            WaitMillis(4000),
            WaitMillis(8000),
            WaitMillis(16000),
            WaitMillis(32000),
            WaitMillis(64000),
            WaitMillis(64000),
            GiveUp
        ]
    );
}

#[test]
fn sheets_total_wait_stays_under_the_bound() {
    let total: u64 = decisions(RetryConfig::Sheets)
        .iter()
        .map(|d| match d {
            WaitMillis(ms) => *ms,
            GiveUp => 0,
        })
        .sum();
    assert_eq!(total, 190_000);
    assert!(total <= 7 * 64_000 && total >= 7 * 2_000);
}

#[test]
fn omie_gives_up_at_the_fifth_failure() {
    assert_eq!(
        decisions(RetryConfig::Omie),
        vec![WaitMillis(1000), WaitMillis(2000), WaitMillis(4000), WaitMillis(8000), GiveUp]
    );
}

#[test]
fn whatsapp_gives_up_at_the_third_failure() {
    assert_eq!(decisions(RetryConfig::WhatsApp), vec![WaitMillis(500), WaitMillis(1000), GiveUp]);
}

#[test]
fn fixed_policy_waits_a_second_five_times_at_most() {
    let mut state = FixedRetryState::new();
    for _ in 0..4 {
        assert_eq!(state.on_failure(), RetryDecision::WaitMillis(1000));
    }
    assert_eq!(state.on_failure(), RetryDecision::GiveUp);
}
