use habit_slot::slot::winning_rows;
use habit_slot::models::{Reels, RewardTier, SlotSymbol, SpinResult};
use habit_slot::slot::{
    check_near_miss, check_payline, exact_match_weights, find_best_match, generate_all_animation_strips,
    generate_animation_strip, generate_pity_reels, has_near_miss_pattern, pick_symbol_for_tier,
    resolve_reels, resolve_reward, roll_symbol, spin, spin_with_state, symbol_for_roll,
    symbol_tier, symbol_tier_order, symbols_for_tier, total_weight, update_pity_state,
    ANIMATION_FILLER_COUNT, PITY_THRESHOLD,
};
use habit_slot::sprites::display_names_match;

const NUM_SPINS: u32 = 10_000;
const TOLERANCE: f64 = 0.03;

const ALL_SYMBOLS: [SlotSymbol; 7] = [
    SlotSymbol::Low0,
    SlotSymbol::Low1,
    SlotSymbol::Low2,
    SlotSymbol::Mid0,
    SlotSymbol::Mid1,
    SlotSymbol::High0,
    SlotSymbol::ExtraRoll0,
];

fn weight_sum() -> f64 {
    ALL_SYMBOLS.iter().map(|s| s.config().weight as f64).sum()
}

#[test]
fn reward_tier_mapping() {
    assert_eq!(symbol_tier(SlotSymbol::Low0), RewardTier::Small);
    assert_eq!(symbol_tier(SlotSymbol::Low1), RewardTier::Small);
    assert_eq!(symbol_tier(SlotSymbol::Low2), RewardTier::Small);
    assert_eq!(symbol_tier(SlotSymbol::Mid0), RewardTier::Medium);
    assert_eq!(symbol_tier(SlotSymbol::Mid1), RewardTier::Medium);
    assert_eq!(symbol_tier(SlotSymbol::High0), RewardTier::Jackpot);
    assert_eq!(symbol_tier(SlotSymbol::ExtraRoll0), RewardTier::ExtraRoll);
}

#[test]
fn spin_returns_valid_result() {
    let result = spin(1);
    assert_eq!(result.reels.len(), 3);
    assert_eq!(result.reels[0].len(), 3);
    assert!(result.payout_coins == 0 || result.symbols_matched.is_some());
}

#[test]
fn probability_distribution_heart_within_tolerance() {
    let mut heart_count = 0u32;
    for _ in 0..NUM_SPINS {
        if symbol_tier(roll_symbol()) == RewardTier::Small {
            heart_count += 1;
        }
    }

    let observed = heart_count as f64 / NUM_SPINS as f64;
    let heart_weight: f64 = ALL_SYMBOLS
        .iter()
        .filter(|s| s.config().tier == RewardTier::Small)
        .map(|s| s.config().weight as f64)
        .sum();
    let expected = heart_weight / weight_sum();
    assert!(
        (observed - expected).abs() < TOLERANCE,
        "Heart tier: observed {:.3}, expected {:.3}",
        observed,
        expected
    );
}

#[test]
fn probability_distribution_chest_within_tolerance() {
    let mut chest_count = 0u32;
    for _ in 0..NUM_SPINS {
        if roll_symbol() == SlotSymbol::High0 {
            chest_count += 1;
        }
    }

    let observed = chest_count as f64 / NUM_SPINS as f64;
    let expected = SlotSymbol::High0.config().weight as f64 / weight_sum();
    assert!(
        (observed - expected).abs() < TOLERANCE * 2.0,
        "Chest: observed {:.3}, expected {:.3}",
        observed,
        expected
    );
}

#[test]
fn tier_distribution_across_10k_spins() {
    let mut small_count = 0u32;
    let mut medium_count = 0u32;
    let mut jackpot_count = 0u32;
    let mut extra_roll_count = 0u32;
    let mut no_win_count = 0u32;

    for _ in 0..NUM_SPINS {
        let reels: Reels = [
            [roll_symbol(), roll_symbol(), roll_symbol()],
            [roll_symbol(), roll_symbol(), roll_symbol()],
            [roll_symbol(), roll_symbol(), roll_symbol()],
        ];

        let mut best: Option<SlotSymbol> = None;
        for row_idx in 0..3 {
            let payline = [reels[0][row_idx], reels[1][row_idx], reels[2][row_idx]];
            if display_names_match(payline[0], payline[1], payline[2]) {
                match best {
                    None => best = Some(payline[0]),
                    Some(b) => {
                        if symbol_tier_order(payline[0]) > symbol_tier_order(b) {
                            best = Some(payline[0]);
                        }
                    }
                }
            }
        }

        match best {
            None => no_win_count += 1,
            Some(s) => match symbol_tier(s) {
                RewardTier::Small => small_count += 1,
                RewardTier::Medium => medium_count += 1,
                RewardTier::Jackpot => jackpot_count += 1,
                RewardTier::ExtraRoll => extra_roll_count += 1,
                RewardTier::NoMatch => unreachable!(),
            },
        }
    }

    let total = small_count + medium_count + jackpot_count + extra_roll_count + no_win_count;
    assert_eq!(total, NUM_SPINS);

    let no_win_rate = no_win_count as f64 / NUM_SPINS as f64;
    assert!(
        no_win_rate > 0.45,
        "no-win rate {:.3} too low (expected ~55%)",
        no_win_rate
    );
}

#[test]
fn resolve_reward_small_tier_always_gives_small() {
    let (tier, coins) = resolve_reward(RewardTier::Small, 1, true, true);
    assert_eq!(tier, Some(RewardTier::Small));
    assert_eq!(coins, 0);

    let (tier, coins) = resolve_reward(RewardTier::Small, 3, true, true);
    assert_eq!(tier, Some(RewardTier::Small));
    assert_eq!(coins, 0);
}

#[test]
fn resolve_reward_medium_bet_1_falls_to_small() {
    let (tier, coins) = resolve_reward(RewardTier::Medium, 1, true, true);
    assert_eq!(tier, Some(RewardTier::Small));
    assert_eq!(coins, 0);
}

#[test]
fn resolve_reward_medium_bet_2_with_medium() {
    let (tier, coins) = resolve_reward(RewardTier::Medium, 2, true, false);
    assert_eq!(tier, Some(RewardTier::Medium));
    assert_eq!(coins, 0);
}

#[test]
fn resolve_reward_medium_bet_2_without_medium() {
    let (tier, coins) = resolve_reward(RewardTier::Medium, 2, false, false);
    assert_eq!(tier, Some(RewardTier::Small));
    assert_eq!(coins, 0);
}

#[test]
fn resolve_reward_medium_bet_3_with_medium() {
    let (tier, coins) = resolve_reward(RewardTier::Medium, 3, true, false);
    assert_eq!(tier, Some(RewardTier::Medium));
    assert_eq!(coins, 0);
}

#[test]
fn resolve_reward_jackpot_bet_1_falls_to_small() {
    let (tier, coins) = resolve_reward(RewardTier::Jackpot, 1, true, true);
    assert_eq!(tier, Some(RewardTier::Small));
    assert_eq!(coins, 0);
}

#[test]
fn resolve_reward_jackpot_bet_2_with_medium() {
    let (tier, coins) = resolve_reward(RewardTier::Jackpot, 2, true, false);
    assert_eq!(tier, Some(RewardTier::Medium));
    assert_eq!(coins, 0);
}

#[test]
fn resolve_reward_jackpot_bet_2_without_medium() {
    let (tier, coins) = resolve_reward(RewardTier::Jackpot, 2, false, true);
    assert_eq!(tier, Some(RewardTier::Small));
    assert_eq!(coins, 0);
}

#[test]
fn resolve_reward_jackpot_bet_3_with_high() {
    let (tier, coins) = resolve_reward(RewardTier::Jackpot, 3, true, true);
    assert_eq!(tier, Some(RewardTier::Jackpot));
    assert_eq!(coins, 0);
}

#[test]
fn resolve_reward_jackpot_bet_3_no_high_with_medium() {
    let (tier, coins) = resolve_reward(RewardTier::Jackpot, 3, true, false);
    assert_eq!(tier, Some(RewardTier::Medium));
    assert_eq!(coins, 0);
}

#[test]
fn resolve_reward_jackpot_bet_3_no_high_no_medium() {
    let (tier, coins) = resolve_reward(RewardTier::Jackpot, 3, false, false);
    assert_eq!(tier, Some(RewardTier::Small));
    assert_eq!(coins, 0);
}

#[test]
fn resolve_reward_extraroll_all_bets() {
    for bet in 1..=3 {
        let (tier, coins) = resolve_reward(RewardTier::ExtraRoll, bet, true, true);
        assert_eq!(tier, None);
        assert_eq!(coins, bet + 1);
    }
}

#[test]
fn resolve_reward_none_returns_zero() {
    let (tier, coins) = resolve_reward(RewardTier::NoMatch, 1, true, true);
    assert_eq!(tier, None);
    assert_eq!(coins, 0);
}

#[test]
fn pity_counter_resets_after_win() {
    let mut losses = 0u32;
    for _ in 0..8 {
        update_pity_state(&mut losses, false);
    }
    assert_eq!(losses, 0);

    update_pity_state(&mut losses, true);
    assert_eq!(losses, 0);
}

#[test]
fn pity_triggers_on_eighth_consecutive_loss() {
    let mut losses = 0u32;
    for _ in 0..7 {
        update_pity_state(&mut losses, false);
    }
    assert_eq!(losses, 7);

    let (final_losses, should_pity) = update_pity_state(&mut losses, false);
    assert!(should_pity, "pity should trigger on 8th loss");
    assert_eq!(final_losses, 0, "counter resets after pity triggers");
}

#[test]
fn pity_does_not_trigger_before_eight_losses() {
    let mut losses = 0u32;
    for i in 0..7 {
        let (_, should_pity) = update_pity_state(&mut losses, false);
        assert!(!should_pity, "pity should not trigger on loss #{}", i + 1);
    }
}

#[test]
fn near_miss_detected_on_two_matching_symbols() {
    let row_two_hearts = [SlotSymbol::Low0, SlotSymbol::Low1, SlotSymbol::Mid0];
    assert!(check_near_miss(row_two_hearts));

    let row_all_same = [SlotSymbol::Low1, SlotSymbol::Low1, SlotSymbol::Low1];
    assert!(check_near_miss(row_all_same));

    let row_all_diff = [SlotSymbol::Low0, SlotSymbol::Mid0, SlotSymbol::High0];
    assert!(!check_near_miss(row_all_diff));
}

#[test]
fn near_miss_pattern_detected_across_reels() {
    let mut reels: Reels = Default::default();

    reels[0][1] = SlotSymbol::Mid0;
    reels[1][1] = SlotSymbol::Mid0;
    reels[2][1] = SlotSymbol::Mid1;

    assert!(has_near_miss_pattern(&reels));
}

#[test]
fn near_miss_not_detected_on_all_different() {
    let mut reels: Reels = Default::default();

    reels[0][0] = SlotSymbol::Low0;
    reels[1][0] = SlotSymbol::Mid0;
    reels[2][0] = SlotSymbol::High0;

    reels[0][1] = SlotSymbol::Mid0;
    reels[1][1] = SlotSymbol::High0;
    reels[2][1] = SlotSymbol::Low0;

    reels[0][2] = SlotSymbol::High0;
    reels[1][2] = SlotSymbol::Low0;
    reels[2][2] = SlotSymbol::Mid0;

    assert!(!has_near_miss_pattern(&reels));
}

#[test]
fn pity_reels_generate_guaranteed_win() {
    for _ in 0..100 {
        let reels = generate_pity_reels(RewardTier::Small);
        let mut found_win = false;
        for row_idx in 0..3 {
            let payline = [reels[0][row_idx], reels[1][row_idx], reels[2][row_idx]];
            if check_payline(payline).is_some() {
                found_win = true;
                break;
            }
        }
        assert!(found_win, "pity reels should contain at least one winning payline");
    }
}

#[test]
fn near_miss_only_on_losing_spins() {
    assert!(check_near_miss([SlotSymbol::Low0, SlotSymbol::Low0, SlotSymbol::Low0]));
}

#[test]
fn pity_threshold_constant_is_eight() {
    assert_eq!(PITY_THRESHOLD, 8);
}

#[test]
fn spin_with_state_tracks_losses() {
    let mut losses: u32 = 0;
    for _ in 0..7 {
        update_pity_state(&mut losses, false);
    }
    assert_eq!(losses, 7);
}

#[test]
fn extra_roll_pays_bet_plus_one_at_bet_1() {
    let reels: Reels = [
        [SlotSymbol::ExtraRoll0, SlotSymbol::Low0, SlotSymbol::Mid0],
        [SlotSymbol::ExtraRoll0, SlotSymbol::Low1, SlotSymbol::Mid1],
        [SlotSymbol::ExtraRoll0, SlotSymbol::High0, SlotSymbol::Low0],
    ];

    let result = resolve_reels(reels, 1);
    assert_eq!(result.tier, RewardTier::ExtraRoll);
    assert_eq!(result.payout_coins, 2);
}

#[test]
fn extra_roll_pays_bet_plus_one_at_bet_2() {
    let reels: Reels = [
        [SlotSymbol::Low0, SlotSymbol::ExtraRoll0, SlotSymbol::Mid0],
        [SlotSymbol::Low1, SlotSymbol::ExtraRoll0, SlotSymbol::Mid1],
        [SlotSymbol::High0, SlotSymbol::ExtraRoll0, SlotSymbol::Low0],
    ];

    let result = resolve_reels(reels, 2);
    assert_eq!(result.tier, RewardTier::ExtraRoll);
    assert_eq!(result.payout_coins, 3);
}

#[test]
fn extra_roll_pays_bet_plus_one_at_bet_3() {
    let reels: Reels = [
        [SlotSymbol::Low0, SlotSymbol::Mid0, SlotSymbol::ExtraRoll0],
        [SlotSymbol::Low1, SlotSymbol::Mid1, SlotSymbol::ExtraRoll0],
        [SlotSymbol::High0, SlotSymbol::Low0, SlotSymbol::ExtraRoll0],
    ];

    let result = resolve_reels(reels, 3);
    assert_eq!(result.tier, RewardTier::ExtraRoll);
    assert_eq!(result.payout_coins, 4);
}

#[test]
fn non_extraroll_matches_pay_zero_coins() {
    let reels: Reels = [
        [SlotSymbol::Low0, SlotSymbol::Mid0, SlotSymbol::Low1],
        [SlotSymbol::Low0, SlotSymbol::Mid0, SlotSymbol::Low0],
        [SlotSymbol::Low0, SlotSymbol::Mid0, SlotSymbol::Low0],
    ];

    let result = resolve_reels(reels, 3);
    assert_eq!(result.tier, RewardTier::Medium);
    assert_eq!(result.payout_coins, 0);
}

#[test]
fn no_match_returns_none_tier_zero_coins() {
    let reels: Reels = [
        [SlotSymbol::Low0, SlotSymbol::Mid0, SlotSymbol::High0],
        [SlotSymbol::Mid0, SlotSymbol::High0, SlotSymbol::Low0],
        [SlotSymbol::High0, SlotSymbol::Low0, SlotSymbol::Mid0],
    ];

    let result = resolve_reels(reels, 1);
    assert_eq!(result.tier, RewardTier::NoMatch);
    assert_eq!(result.payout_coins, 0);
    assert!(result.symbols_matched.is_none());
}

#[test]
fn animation_strip_length_is_filler_plus_3() {
    let result_column = [SlotSymbol::Low0, SlotSymbol::Low1, SlotSymbol::Low2];
    let strip = generate_animation_strip(result_column);

    assert_eq!(
        strip.len(),
        ANIMATION_FILLER_COUNT + 3,
        "strip should be {} symbols",
        ANIMATION_FILLER_COUNT + 3
    );
}

#[test]
fn animation_strip_final_three_match_result() {
    let result_column = [SlotSymbol::Mid0, SlotSymbol::High0, SlotSymbol::Low0];
    let strip = generate_animation_strip(result_column);

    assert_eq!(strip[12], SlotSymbol::Mid0);
    assert_eq!(strip[13], SlotSymbol::High0);
    assert_eq!(strip[14], SlotSymbol::Low0);
}

#[test]
fn generate_all_strips_produces_three_strips() {
    let reels: Reels = [
        [SlotSymbol::Low0, SlotSymbol::Low1, SlotSymbol::Low2],
        [SlotSymbol::Mid0, SlotSymbol::Low0, SlotSymbol::High0],
        [SlotSymbol::Low1, SlotSymbol::Mid1, SlotSymbol::Low0],
    ];
    let result = SpinResult {
        reels,
        symbols_matched: None,
        tier: RewardTier::NoMatch,
        payout_coins: 0,
        is_near_miss: false,
        reward_tier_given: None,
        reward_note: String::new(),
    };

    let strips = generate_all_animation_strips(&result);
    assert_eq!(strips.len(), 3);
    for strip in &strips {
        assert_eq!(strip.len(), ANIMATION_FILLER_COUNT + 3);
    }
}

#[test]
fn generate_all_strips_final_symbols_match_reels() {
    let reels: Reels = [
        [SlotSymbol::High0, SlotSymbol::Mid0, SlotSymbol::Low0],
        [SlotSymbol::Low1, SlotSymbol::Low2, SlotSymbol::Mid1],
        [SlotSymbol::Low0, SlotSymbol::Low1, SlotSymbol::High0],
    ];
    let result = SpinResult {
        reels,
        symbols_matched: None,
        tier: RewardTier::NoMatch,
        payout_coins: 0,
        is_near_miss: false,
        reward_tier_given: None,
        reward_note: String::new(),
    };

    let strips = generate_all_animation_strips(&result);
    for col in 0..3 {
        assert_eq!(strips[col][12], reels[col][0]);
        assert_eq!(strips[col][13], reels[col][1]);
        assert_eq!(strips[col][14], reels[col][2]);
    }
}

#[test]
fn symbols_for_tier_returns_correct_symbols() {
    let small = symbols_for_tier(RewardTier::Small);
    assert_eq!(small.len(), 3);

    let medium = symbols_for_tier(RewardTier::Medium);
    assert_eq!(medium.len(), 2);

    let jackpot = symbols_for_tier(RewardTier::Jackpot);
    assert_eq!(jackpot.len(), 1);

    let extra_roll = symbols_for_tier(RewardTier::ExtraRoll);
    assert_eq!(extra_roll.len(), 1);
}

#[test]
fn pick_symbol_for_tier_returns_valid_symbol() {
    for _ in 0..100 {
        let sym = pick_symbol_for_tier(RewardTier::Small);
        assert_eq!(symbol_tier(sym), RewardTier::Small);
    }
    for _ in 0..100 {
        let sym = pick_symbol_for_tier(RewardTier::Medium);
        assert_eq!(symbol_tier(sym), RewardTier::Medium);
    }
    for _ in 0..100 {
        let sym = pick_symbol_for_tier(RewardTier::Jackpot);
        assert_eq!(symbol_tier(sym), RewardTier::Jackpot);
    }
    for _ in 0..100 {
        let sym = pick_symbol_for_tier(RewardTier::ExtraRoll);
        assert_eq!(symbol_tier(sym), RewardTier::ExtraRoll);
    }
}

#[test]
fn exact_match_probability_uses_display_name_weights() {
    let (name_weight, total) = exact_match_weights(SlotSymbol::Low0);
    let p = name_weight as f64 / total as f64;
    let heart_prob = p * p * p;
    let expected_p = 42.0 / weight_sum();
    let expected_cube = expected_p * expected_p * expected_p;
    assert!(
        (heart_prob - expected_cube).abs() < 1e-6,
        "Heart probability: observed {:.8}, expected {:.8}",
        heart_prob,
        expected_cube
    );
}

#[test]
fn find_best_match_returns_highest_tier() {
    let reels: Reels = [
        [SlotSymbol::Low0, SlotSymbol::High0, SlotSymbol::Mid0],
        [SlotSymbol::Low0, SlotSymbol::High0, SlotSymbol::Mid0],
        [SlotSymbol::Low0, SlotSymbol::High0, SlotSymbol::Mid0],
    ];

    let best = find_best_match(&reels);
    assert!(best.is_some());
    let matched = best.unwrap();
    assert_eq!(symbol_tier(matched[0]), RewardTier::Jackpot);
}

#[test]
fn resolve_reels_sets_near_miss_only_on_losses() {
    let win_reels: Reels = [
        [SlotSymbol::Low0, SlotSymbol::Low1, SlotSymbol::Mid0],
        [SlotSymbol::Low0, SlotSymbol::Low1, SlotSymbol::Mid1],
        [SlotSymbol::Low0, SlotSymbol::Low1, SlotSymbol::High0],
    ];
    let result = resolve_reels(win_reels, 1);
    assert_eq!(result.tier, RewardTier::Small);
    assert!(!result.is_near_miss);

    let lose_reels: Reels = [
        [SlotSymbol::Low0, SlotSymbol::Mid0, SlotSymbol::High0],
        [SlotSymbol::Low1, SlotSymbol::Mid1, SlotSymbol::ExtraRoll0],
        [SlotSymbol::Mid0, SlotSymbol::Low0, SlotSymbol::Mid0],
    ];
    let result = resolve_reels(lose_reels, 1);
    assert_eq!(result.tier, RewardTier::NoMatch);
    assert!(result.is_near_miss);
}

#[test]
fn reward_matrix_full_coverage() {
    let cases: Vec<(RewardTier, u32, bool, bool, Option<RewardTier>, u32)> = vec![
        (RewardTier::Small, 1, true, true, Some(RewardTier::Small), 0),
        (RewardTier::Small, 2, false, false, Some(RewardTier::Small), 0),
        (RewardTier::Small, 3, true, false, Some(RewardTier::Small), 0),
        (RewardTier::Medium, 1, true, true, Some(RewardTier::Small), 0),
        (RewardTier::Medium, 2, true, false, Some(RewardTier::Medium), 0),
        (RewardTier::Medium, 2, false, true, Some(RewardTier::Small), 0),
        (RewardTier::Medium, 3, true, false, Some(RewardTier::Medium), 0),
        (RewardTier::Medium, 3, false, false, Some(RewardTier::Small), 0),
        (RewardTier::Jackpot, 1, true, true, Some(RewardTier::Small), 0),
        (RewardTier::Jackpot, 1, false, false, Some(RewardTier::Small), 0),
        (RewardTier::Jackpot, 2, true, true, Some(RewardTier::Medium), 0),
        (RewardTier::Jackpot, 2, false, true, Some(RewardTier::Small), 0),
        (RewardTier::Jackpot, 2, true, false, Some(RewardTier::Medium), 0),
        (RewardTier::Jackpot, 2, false, false, Some(RewardTier::Small), 0),
        (RewardTier::Jackpot, 3, true, true, Some(RewardTier::Jackpot), 0),
        (RewardTier::Jackpot, 3, true, false, Some(RewardTier::Medium), 0),
        (RewardTier::Jackpot, 3, false, true, Some(RewardTier::Jackpot), 0),
        (RewardTier::Jackpot, 3, false, false, Some(RewardTier::Small), 0),
        (RewardTier::ExtraRoll, 1, true, true, None, 2),
        (RewardTier::ExtraRoll, 2, false, false, None, 3),
        (RewardTier::ExtraRoll, 3, true, false, None, 4),
        (RewardTier::NoMatch, 1, true, true, None, 0),
    ];

    for (tier, bet, has_med, has_high, expected_tier, expected_coins) in cases {
        let (got_tier, got_coins) = resolve_reward(tier, bet, has_med, has_high);
        assert_eq!(
            got_tier, expected_tier,
            "resolve_reward({:?}, {}, {}, {}) expected tier {:?}",
            tier, bet, has_med, has_high, expected_tier
        );
        assert_eq!(
            got_coins, expected_coins,
            "resolve_reward({:?}, {}, {}, {}) expected coins {}",
            tier, bet, has_med, has_high, expected_coins
        );
    }
}

#[test]
fn roll_table_boundaries_select_by_cumulative_weight() {
    assert_eq!(total_weight(), 140);
    // Each symbol owns a run of roll values as long as its weight.
    let mut counts = [0u32; 7];
    for r in 0..total_weight() {
        let s = symbol_for_roll(r);
        let idx = ALL_SYMBOLS.iter().position(|x| *x == s).unwrap();
        counts[idx] += 1;
    }
    for (i, s) in ALL_SYMBOLS.iter().enumerate() {
        assert_eq!(counts[i], s.config().weight);
    }
    assert_eq!(symbol_for_roll(0), SlotSymbol::Low0);
    assert_eq!(symbol_for_roll(total_weight() - 1), SlotSymbol::ExtraRoll0);
}

#[test]
fn pity_state_guarantees_a_win_on_eighth_spin() {
    for _ in 0..50 {
        let mut losses: u32 = PITY_THRESHOLD - 1;
        let result = spin_with_state(&mut losses, 1);
        assert_ne!(result.tier, RewardTier::NoMatch);
        assert_eq!(losses, 0);
    }
}

#[test]
fn best_match_prefers_higher_row_and_symbol_matched() {
    // Row 0 Small, row 1 ExtraRoll, row 2 Medium: ExtraRoll ranks highest.
    let reels: Reels = [
        [SlotSymbol::Low0, SlotSymbol::ExtraRoll0, SlotSymbol::Mid0],
        [SlotSymbol::Low1, SlotSymbol::ExtraRoll0, SlotSymbol::Mid1],
        [SlotSymbol::Low2, SlotSymbol::ExtraRoll0, SlotSymbol::Mid0],
    ];
    let result = resolve_reels(reels, 2);
    assert_eq!(result.tier, RewardTier::ExtraRoll);
    assert_eq!(result.symbols_matched, Some((SlotSymbol::ExtraRoll0, 3)));
    assert_eq!(result.payout_coins, 3);
    assert!(result.reward_tier_given.is_none());
    assert_eq!(result.reward_note, "");
}

#[test]
fn winning_rows_lists_each_winning_payline() {
    let reels: Reels = [
        [SlotSymbol::Low0, SlotSymbol::Mid0, SlotSymbol::High0],
        [SlotSymbol::Low2, SlotSymbol::Low0, SlotSymbol::High0],
        [SlotSymbol::Low1, SlotSymbol::Mid1, SlotSymbol::High0],
    ];
    assert_eq!(winning_rows(&reels), vec![(0, SlotSymbol::Low0), (2, SlotSymbol::High0)]);
    let none: Reels = [
        [SlotSymbol::Low0, SlotSymbol::Mid0, SlotSymbol::High0],
        [SlotSymbol::Mid0, SlotSymbol::High0, SlotSymbol::Low0],
        [SlotSymbol::High0, SlotSymbol::Low0, SlotSymbol::Mid0],
    ];
    assert!(winning_rows(&none).is_empty());
}

#[test]
fn pity_spin_shows_a_small_row() {
    for _ in 0..50 {
        let mut losses: u32 = PITY_THRESHOLD - 1;
        let result = spin_with_state(&mut losses, 1);
        assert!(winning_rows(&result.reels)
            .iter()
            .any(|(_, s)| symbol_tier(*s) == RewardTier::Small));
    }
}
