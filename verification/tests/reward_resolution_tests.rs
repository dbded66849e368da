use habit_slot::models::{Reels, RewardTier, SlotSymbol};
use habit_slot::slot::reward_resolution::{
    count_extraroll_rows, is_winning_row, resolve_all_wins, resolve_single_row, RowReward,
};


// --- Fallback multiplier matrix coverage ---

#[test]
fn small_any_bet_always_small_1x() {
    for bet in 1..=3 {
        let r = resolve_single_row(RewardTier::Small, bet, true, true);
        assert_eq!(r.given_tier, RewardTier::Small);
        assert_eq!(r.multiplier, 1);
    }
    let r = resolve_single_row(RewardTier::Small, 2, false, false);
    assert_eq!(r.given_tier, RewardTier::Small);
    assert_eq!(r.multiplier, 1);
}

#[test]
fn medium_bet_1_falls_to_small_1x() {
    let r = resolve_single_row(RewardTier::Medium, 1, true, true);
    assert_eq!(r.given_tier, RewardTier::Small);
    assert_eq!(r.multiplier, 1);
}

#[test]
fn medium_bet_2_with_med_gives_medium_1x() {
    let r = resolve_single_row(RewardTier::Medium, 2, true, false);
    assert_eq!(r.given_tier, RewardTier::Medium);
    assert_eq!(r.multiplier, 1);
}

#[test]
fn medium_bet_2_without_med_falls_to_small_2x() {
    let r = resolve_single_row(RewardTier::Medium, 2, false, true);
    assert_eq!(r.given_tier, RewardTier::Small);
    assert_eq!(r.multiplier, 2);
}

#[test]
fn medium_bet_3_with_med_gives_medium_1x() {
    let r = resolve_single_row(RewardTier::Medium, 3, true, false);
    assert_eq!(r.given_tier, RewardTier::Medium);
    assert_eq!(r.multiplier, 1);
}

#[test]
fn medium_bet_3_without_med_falls_to_small_2x() {
    let r = resolve_single_row(RewardTier::Medium, 3, false, false);
    assert_eq!(r.given_tier, RewardTier::Small);
    assert_eq!(r.multiplier, 2);
}

#[test]
fn jackpot_bet_1_falls_to_small_1x() {
    let r = resolve_single_row(RewardTier::Jackpot, 1, true, true);
    assert_eq!(r.given_tier, RewardTier::Small);
    assert_eq!(r.multiplier, 1);

    let r = resolve_single_row(RewardTier::Jackpot, 1, false, false);
    assert_eq!(r.given_tier, RewardTier::Small);
    assert_eq!(r.multiplier, 1);
}

#[test]
fn jackpot_bet_2_with_high_gives_jackpot_1x() {
    let r = resolve_single_row(RewardTier::Jackpot, 2, true, true);
    assert_eq!(r.given_tier, RewardTier::Jackpot);
    assert_eq!(r.multiplier, 1);
}

#[test]
fn jackpot_bet_2_no_high_with_med_gives_medium_1x() {
    let r = resolve_single_row(RewardTier::Jackpot, 2, true, false);
    assert_eq!(r.given_tier, RewardTier::Medium);
    assert_eq!(r.multiplier, 1);
}

#[test]
fn jackpot_bet_2_no_high_no_med_falls_to_small_2x() {
    let r = resolve_single_row(RewardTier::Jackpot, 2, false, false);
    assert_eq!(r.given_tier, RewardTier::Small);
    assert_eq!(r.multiplier, 2);
}

#[test]
fn jackpot_bet_3_with_high_gives_jackpot_1x() {
    let r = resolve_single_row(RewardTier::Jackpot, 3, true, true);
    assert_eq!(r.given_tier, RewardTier::Jackpot);
    assert_eq!(r.multiplier, 1);
}

#[test]
fn jackpot_bet_3_no_high_with_med_gives_medium_1x() {
    let r = resolve_single_row(RewardTier::Jackpot, 3, true, false);
    assert_eq!(r.given_tier, RewardTier::Medium);
    assert_eq!(r.multiplier, 1);
}

#[test]
fn jackpot_bet_3_no_high_no_med_falls_to_small_5x() {
    let r = resolve_single_row(RewardTier::Jackpot, 3, false, false);
    assert_eq!(r.given_tier, RewardTier::Small);
    assert_eq!(r.multiplier, 5);
}

// --- Multi-row combinations ---
// Reels layout: reels[col][row]. Payline row R = reels[0][R], reels[1][R], reels[2][R].

#[test]
fn two_small_wins_same_tier() {
    let reels: Reels = [
        [SlotSymbol::Low0, SlotSymbol::Mid0, SlotSymbol::Low2],
        [SlotSymbol::Low0, SlotSymbol::High0, SlotSymbol::Low2],
        [SlotSymbol::Low0, SlotSymbol::ExtraRoll0, SlotSymbol::Low2],
    ];

    // Row 0: Low0/ Low0/ Low0 -> Small win
    // Row 1: Mid0/ High0/ ExtraRoll0 -> no match
    // Row 2: Low2/ Low2/ Low2 -> Small win
    let rewards = resolve_all_wins(reels, 1, true, true);

    assert_eq!(rewards.len(), 2);
    assert_eq!(rewards[0].matched_tier, RewardTier::Small);
    assert_eq!(rewards[0].given_tier, RewardTier::Small);
    assert_eq!(rewards[0].multiplier, 1);
    assert_eq!(rewards[1].matched_tier, RewardTier::Small);
    assert_eq!(rewards[1].given_tier, RewardTier::Small);
    assert_eq!(rewards[1].multiplier, 1);
}

#[test]
fn two_different_tier_wins() {
    let reels: Reels = [
        [SlotSymbol::Low0, SlotSymbol::Mid0, SlotSymbol::High0],
        [SlotSymbol::Low0, SlotSymbol::ExtraRoll0, SlotSymbol::High0],
        [SlotSymbol::Low0, SlotSymbol::Mid1, SlotSymbol::High0],
    ];

    // Row 0: Low0/ Low0/ Low0 -> Small win
    // Row 2: High0/ High0/ High0 -> Jackpot win
    let rewards = resolve_all_wins(reels, 3, true, true);

    assert_eq!(rewards.len(), 2);
    assert_eq!(rewards[0].matched_tier, RewardTier::Small);
    assert_eq!(rewards[0].given_tier, RewardTier::Small);
    assert_eq!(rewards[0].multiplier, 1);
    assert_eq!(rewards[1].matched_tier, RewardTier::Jackpot);
    assert_eq!(rewards[1].given_tier, RewardTier::Jackpot);
    assert_eq!(rewards[1].multiplier, 1);
}

#[test]
fn three_jackpot_wins_at_bet_3_no_rewards_fall_to_small_5x() {
    let reels: Reels = [
        [SlotSymbol::High0, SlotSymbol::High0, SlotSymbol::High0],
        [SlotSymbol::High0, SlotSymbol::High0, SlotSymbol::High0],
        [SlotSymbol::High0, SlotSymbol::High0, SlotSymbol::High0],
    ];

    // All three rows: High0/ High0/ High0 -> Jackpot win
    let rewards = resolve_all_wins(reels, 3, false, false);

    assert_eq!(rewards.len(), 3);
    for r in &rewards {
        assert_eq!(r.matched_tier, RewardTier::Jackpot);
        assert_eq!(r.given_tier, RewardTier::Small);
        assert_eq!(r.multiplier, 5);
    }
}

#[test]
fn extraroll_row_excluded_from_rewards() {
    let reels: Reels = [
        [SlotSymbol::ExtraRoll0, SlotSymbol::Low0, SlotSymbol::Mid0],
        [SlotSymbol::ExtraRoll0, SlotSymbol::Low1, SlotSymbol::Mid1],
        [SlotSymbol::ExtraRoll0, SlotSymbol::High0, SlotSymbol::Low2],
    ];

    // Row 0: ExtraRoll0/ ExtraRoll0/ ExtraRoll0 -> ExtraRoll (excluded from rewards)
    let rewards = resolve_all_wins(reels, 1, true, true);
    assert!(rewards.is_empty());

    let extraroll_count = count_extraroll_rows(reels);
    assert_eq!(extraroll_count, 1);
}

#[test]
fn extraroll_plus_small_win_both_resolved() {
    let reels: Reels = [
        [SlotSymbol::ExtraRoll0, SlotSymbol::Mid0, SlotSymbol::Low0],
        [SlotSymbol::ExtraRoll0, SlotSymbol::High0, SlotSymbol::Low0],
        [SlotSymbol::ExtraRoll0, SlotSymbol::Low2, SlotSymbol::Low0],
    ];

    // Row 0: ExtraRoll0/ ExtraRoll0/ ExtraRoll0 -> ExtraRoll (coins only)
    // Row 2: Low0/ Low0/ Low0 -> Small reward
    let rewards = resolve_all_wins(reels, 1, true, true);
    assert_eq!(rewards.len(), 1);
    assert_eq!(rewards[0].matched_tier, RewardTier::Small);
    assert_eq!(rewards[0].given_tier, RewardTier::Small);

    let extraroll_count = count_extraroll_rows(reels);
    assert_eq!(extraroll_count, 1);
}

#[test]
fn no_winning_rows_returns_empty() {
    let reels: Reels = [
        [SlotSymbol::Low0, SlotSymbol::Mid0, SlotSymbol::High0],
        [SlotSymbol::Mid0, SlotSymbol::High0, SlotSymbol::Low0],
        [SlotSymbol::High0, SlotSymbol::Low0, SlotSymbol::Mid1],
    ];

    let rewards = resolve_all_wins(reels, 1, true, true);
    assert!(rewards.is_empty());
}

#[test]
fn three_extraroll_rows_no_rewards_all_coins() {
    let reels: Reels = [
        [SlotSymbol::ExtraRoll0, SlotSymbol::ExtraRoll0, SlotSymbol::ExtraRoll0],
        [SlotSymbol::ExtraRoll0, SlotSymbol::ExtraRoll0, SlotSymbol::ExtraRoll0],
        [SlotSymbol::ExtraRoll0, SlotSymbol::ExtraRoll0, SlotSymbol::ExtraRoll0],
    ];

    // All three rows: ExtraRoll0/ ExtraRoll0/ ExtraRoll0 -> ExtraRoll wins
    let rewards = resolve_all_wins(reels, 2, true, true);
    assert!(rewards.is_empty());
    assert_eq!(count_extraroll_rows(reels), 3);
}

#[test]
fn jackpot_bet_2_no_fallback_at_all_small_2x() {
    let reels: Reels = [
        [SlotSymbol::High0, SlotSymbol::Low0, SlotSymbol::Mid0],
        [SlotSymbol::High0, SlotSymbol::Low1, SlotSymbol::Mid1],
        [SlotSymbol::High0, SlotSymbol::ExtraRoll0, SlotSymbol::Low2],
    ];

    // Row 0: High0/ High0/ High0 -> Jackpot win at bet=2, no fallback
    let rewards = resolve_all_wins(reels, 2, false, false);
    assert_eq!(rewards.len(), 1);
    assert_eq!(rewards[0].matched_tier, RewardTier::Jackpot);
    assert_eq!(rewards[0].given_tier, RewardTier::Small);
    assert_eq!(rewards[0].multiplier, 2);
}

#[test]
fn mixed_medium_and_jackpot_no_high_with_med() {
    let reels: Reels = [
        [SlotSymbol::Mid0, SlotSymbol::Low0, SlotSymbol::High0],
        [SlotSymbol::Mid0, SlotSymbol::ExtraRoll0, SlotSymbol::High0],
        [SlotSymbol::Mid0, SlotSymbol::Low1, SlotSymbol::High0],
    ];

    // Row 0: Mid0/ Mid0/ Mid0 -> Medium win at bet=3 with has_med -> Medium 1x
    // Row 2: High0/ High0/ High0 -> Jackpot win at bet=3 no high w/ med -> Medium 1x
    let rewards = resolve_all_wins(reels, 3, true, false);

    assert_eq!(rewards.len(), 2);
    assert_eq!(rewards[0].matched_tier, RewardTier::Medium);
    assert_eq!(rewards[0].given_tier, RewardTier::Medium);
    assert_eq!(rewards[0].multiplier, 1);
    assert_eq!(rewards[1].matched_tier, RewardTier::Jackpot);
    assert_eq!(rewards[1].given_tier, RewardTier::Medium);
    assert_eq!(rewards[1].multiplier, 1);
}

#[test]
fn count_extraroll_returns_zero_on_no_match() {
    let reels: Reels = [
        [SlotSymbol::ExtraRoll0, SlotSymbol::Low0, SlotSymbol::Mid0],
        [SlotSymbol::Low0, SlotSymbol::High0, SlotSymbol::Mid1],
        [SlotSymbol::Mid0, SlotSymbol::Low1, SlotSymbol::High0],
    ];
    assert_eq!(count_extraroll_rows(reels), 0);
}

#[test]
fn row_reward_partial_eq() {
    let r1 = RowReward {
        matched_tier: RewardTier::Jackpot,
        given_tier: RewardTier::Small,
        multiplier: 5,
    };
    let r2 = RowReward {
        matched_tier: RewardTier::Jackpot,
        given_tier: RewardTier::Small,
        multiplier: 5,
    };
    assert_eq!(r1, r2);

    let r3 = RowReward {
        multiplier: 2,
        ..r1.clone()
    };
    assert_ne!(r1, r3);
}

#[test]
fn winning_row_needs_three_same_display_names() {
    assert!(is_winning_row([SlotSymbol::Low0, SlotSymbol::Low1, SlotSymbol::Low2]));
    assert!(is_winning_row([SlotSymbol::Mid1, SlotSymbol::Mid0, SlotSymbol::Mid1]));
    assert!(!is_winning_row([SlotSymbol::Low0, SlotSymbol::Low1, SlotSymbol::Mid0]));
    assert!(!is_winning_row([SlotSymbol::High0, SlotSymbol::ExtraRoll0, SlotSymbol::High0]));
}

#[test]
fn single_row_outside_matrix_is_small_once() {
    let r = resolve_single_row(RewardTier::ExtraRoll, 3, false, false);
    assert_eq!(r.given_tier, RewardTier::Small);
    assert_eq!(r.multiplier, 1);
    assert_eq!(r.matched_tier, RewardTier::ExtraRoll);
}
