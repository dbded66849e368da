use habit_slot::models::{
    ClaimedReward, GlobalRewardTier, Reels, RewardTier, SpinResult, ToastManager, ToastMessage,
    TOAST_TIMEOUT_MS,
};

#[test]
fn push_adds_entry() {
    let mut mgr = ToastManager::default();
    assert!(mgr.toasts.is_empty());

    mgr.push("Low0 x3".to_string(), 25);
    assert_eq!(mgr.toasts.len(), 1);
    assert_eq!(mgr.toasts[0].symbol_name, "Low0 x3");
    assert_eq!(mgr.toasts[0].payout, 25);
}

#[test]
fn push_fifo_ordering() {
    let mut mgr = ToastManager::default();

    mgr.push("Low0 x3".to_string(), 2);
    mgr.push("Mid0 x3".to_string(), 8);
    mgr.push("High0 x3".to_string(), 50);

    assert_eq!(mgr.toasts.len(), 3);
    assert_eq!(mgr.toasts[0].symbol_name, "Low0 x3");
    assert_eq!(mgr.toasts[1].symbol_name, "Mid0 x3");
    assert_eq!(mgr.toasts[2].symbol_name, "High0 x3");
}

#[test]
fn dismiss_expired_removes_old() {
    let mut mgr = ToastManager::default();
    mgr.push("Low0 x3".to_string(), 2);

    let old = mgr.now_millis() - 10_000;
    mgr.toasts[0].created_at = old;

    mgr.dismiss_expired();
    assert!(mgr.toasts.is_empty());
}

#[test]
fn dismiss_expired_keeps_recent() {
    let mut mgr = ToastManager::default();
    mgr.push("Mid0 x3".to_string(), 8);

    // Created just now, within timeout: should not be removed.
    mgr.dismiss_expired();
    assert_eq!(mgr.toasts.len(), 1);
}

#[test]
fn dismiss_expired_removes_only_old() {
    let mut mgr = ToastManager::default();

    // First toast is old.
    mgr.push("Low0 x3".to_string(), 2);
    let old = mgr.now_millis() - 10_000;
    mgr.toasts[0].created_at = old;

    // Second toast is recent.
    mgr.push("High0 x3".to_string(), 50);

    mgr.dismiss_expired();
    assert_eq!(mgr.toasts.len(), 1);
    assert_eq!(mgr.toasts[0].symbol_name, "High0 x3");
}

#[test]
fn claimed_reward_construction() {
    let reward = ClaimedReward {
        name: "Coffee Break".to_string(),
        tier: GlobalRewardTier::Low,
    };
    assert_eq!(reward.name, "Coffee Break");
    assert_eq!(reward.tier, GlobalRewardTier::Low);
}

#[test]
fn claimed_reward_clone_and_partial_eq() {
    let r1 = ClaimedReward {
        name: "Day Off".to_string(),
        tier: GlobalRewardTier::Medium,
    };
    let r2 = r1.clone();
    assert_eq!(r1, r2);
}

#[test]
fn spin_result_new_fields_defaults() {
    let reels: Reels = Default::default();
    let result = SpinResult {
        reels,
        symbols_matched: None,
        tier: RewardTier::NoMatch,
        payout_coins: 0,
        is_near_miss: false,
        reward_tier_given: None,
        reward_note: String::new(),
    };
    assert!(result.reward_tier_given.is_none());
    assert_eq!(result.reward_note, "");
}

#[test]
fn spin_result_with_reward_fields() {
    let reels: Reels = Default::default();
    let result = SpinResult {
        reels,
        symbols_matched: None,
        tier: RewardTier::Small,
        payout_coins: 0,
        is_near_miss: false,
        reward_tier_given: Some(RewardTier::Small),
        reward_note: "Claimed: Coffee Break".to_string(),
    };
    assert_eq!(result.reward_tier_given, Some(RewardTier::Small));
    assert_eq!(result.reward_note, "Claimed: Coffee Break");
}

// The dismissal rule at a fixed instant: a toast is kept exactly while
// fewer than TOAST_TIMEOUT_MS milliseconds have passed since it was raised.
#[test]
fn dismiss_at_fixed_instant_keeps_boundary_order() {
    let mut mgr = ToastManager::default();
    mgr.push_at("a".to_string(), 1, 1_000);
    mgr.push_at("b".to_string(), 2, 2_000);
    mgr.push_at("c".to_string(), 3, 3_000);
    let now = 2_000 + TOAST_TIMEOUT_MS as i64;
    mgr.dismiss_expired_at(now);
    // "a" and "b" are exactly or over the timeout; "c" is 1500 ms old.
    assert_eq!(mgr.toasts.len(), 1);
    assert_eq!(mgr.toasts[0].symbol_name, "c");

    let mut mgr = ToastManager::default();
    mgr.push_at("x".to_string(), 1, 10_000);
    mgr.push_at("y".to_string(), 2, 5_000);
    mgr.dismiss_expired_at(10_000 + TOAST_TIMEOUT_MS as i64 - 1);
    let names: Vec<String> = mgr.toasts.iter().map(|t: &ToastMessage| t.symbol_name.clone()).collect();
    assert_eq!(names, vec!["x".to_string()]);
}

#[test]
fn toast_clock_starts_at_zero_and_never_goes_back() {
    let mgr = ToastManager::default();
    let first = mgr.now_millis();
    assert!(first >= 0 && first < 1_000);
    let second = mgr.now_millis();
    assert!(second >= first);
}
