//! Multi-row reward resolution: every winning payline is resolved on its
//! own against the bet-scaled fallback matrix. No randomness, no side
//! effects.

use vstd::prelude::*;
use crate::models::{Reels, RewardTier, SlotSymbol};
use crate::slot::{is_win_row, symbol_tier};
use crate::sprites::{self, names_match, tier_of};

verus! {

/// Per-row resolved reward with matched tier, given tier, and fallback multiplier.
#[derive(Debug, Clone, Copy, PartialEq, Eq, Structural)]
pub struct RowReward {
    pub matched_tier: RewardTier,
    pub given_tier: RewardTier,
    pub multiplier: u32,
}

/// The bet-scaled fallback matrix for one winning row.
///
/// | Matched Tier | Bet   | Condition          | Given Tier | Multiplier |
/// |--------------|-------|--------------------|------------|------------|
/// | Small        | any   | —                  | Small      | 1x         |
/// | Medium       | <2    | —                  | Small      | 1x         |
/// | Medium       | >=2   | has_med            | Medium     | 1x         |
/// | Medium       | >=2   | !has_med           | Small      | 2x         |
/// | Jackpot      | 1     | —                  | Small      | 1x         |
/// | Jackpot      | 2     | has_high           | Jackpot    | 1x         |
/// | Jackpot      | 2     | !has_high, has_med | Medium     | 1x         |
/// | Jackpot      | 2     | neither            | Small      | 2x         |
/// | Jackpot      | other | has_high           | Jackpot    | 1x         |
/// | Jackpot      | other | !has_high, has_med | Medium     | 1x         |
/// | Jackpot      | other | neither            | Small      | 5x         |
/// | any other    | any   | —                  | Small      | 1x         |
pub open spec fn single_row_reward(matched_tier: RewardTier, bet: u32, has_med: bool, has_high: bool) -> RowReward {
    let (given, mult) = match matched_tier {
        RewardTier::Small => (RewardTier::Small, 1u32),
        RewardTier::Medium => if bet < 2 {
            (RewardTier::Small, 1u32)
        } else if has_med {
            (RewardTier::Medium, 1u32)
        } else {
            (RewardTier::Small, 2u32)
        },
        RewardTier::Jackpot => if bet == 1 {
            (RewardTier::Small, 1u32)
        } else if has_high {
            (RewardTier::Jackpot, 1u32)
        } else if has_med {
            (RewardTier::Medium, 1u32)
        } else if bet == 2 {
            (RewardTier::Small, 2u32)
        } else {
            (RewardTier::Small, 5u32)
        },
        _ => (RewardTier::Small, 1u32),
    };
    RowReward { matched_tier, given_tier: given, multiplier: mult }
}

/// The reward of payline `row`, if it yields one: a winning payline of a
/// tier other than ExtraRoll.
pub open spec fn row_part(reels: Reels, row: int, bet: u32, has_med: bool, has_high: bool) -> Seq<RowReward> {
    let t = tier_of(reels[0][row]);
    if is_win_row(reels, row) && t != RewardTier::ExtraRoll && t != RewardTier::NoMatch {
        seq![single_row_reward(t, bet, has_med, has_high)]
    } else {
        Seq::empty()
    }
}

/// The rewards of all paylines, top row first.
pub open spec fn all_row_rewards(reels: Reels, bet: u32, has_med: bool, has_high: bool) -> Seq<RowReward> {
    row_part(reels, 0, bet, has_med, has_high) + row_part(reels, 1, bet, has_med, has_high)
        + row_part(reels, 2, bet, has_med, has_high)
}

/// Payline `row` is an ExtraRoll three-of-a-kind.
pub open spec fn is_extraroll_row(reels: Reels, row: int) -> bool {
    is_win_row(reels, row) && tier_of(reels[0][row]) == RewardTier::ExtraRoll
}

/// Number of ExtraRoll paylines.
pub open spec fn extraroll_count(reels: Reels) -> int {
    (if is_extraroll_row(reels, 0) { 1int } else { 0 }) + (if is_extraroll_row(reels, 1) {
        1int
    } else {
        0
    }) + (if is_extraroll_row(reels, 2) {
        1int
    } else {
        0
    })
}

/// Number of winning paylines.
pub open spec fn win_count(reels: Reels) -> int {
    (if is_win_row(reels, 0) { 1int } else { 0 }) + (if is_win_row(reels, 1) {
        1int
    } else {
        0
    }) + (if is_win_row(reels, 2) {
        1int
    } else {
        0
    })
}

/// Check if a row is a 3-of-a-kind win (all three share the same display name).
pub fn is_winning_row(row: [SlotSymbol; 3]) -> (w: bool)
    ensures
        w == names_match(row[0], row[1], row[2]),
{
    sprites::display_names_match(row[0], row[1], row[2])
}

/// Resolve a single winning row's reward using the bet-scaled fallback matrix.
pub fn resolve_single_row(matched_tier: RewardTier, bet: u32, has_med: bool, has_high: bool) -> (r: RowReward)
    ensures
        r == single_row_reward(matched_tier, bet, has_med, has_high),
{
    match matched_tier {
        RewardTier::Small => RowReward {
            matched_tier: RewardTier::Small,
            given_tier: RewardTier::Small,
            multiplier: 1,
        },
        RewardTier::Medium => {
            if bet < 2 {
                RowReward {
                    matched_tier: RewardTier::Medium,
                    given_tier: RewardTier::Small,
                    multiplier: 1,
                }
            } else if has_med {
                RowReward {
                    matched_tier: RewardTier::Medium,
                    given_tier: RewardTier::Medium,
                    multiplier: 1,
                }
            } else {
                RowReward {
                    matched_tier: RewardTier::Medium,
                    given_tier: RewardTier::Small,
                    multiplier: 2,
                }
            }
        },
        RewardTier::Jackpot => {
            if bet == 1 {
                RowReward {
                    matched_tier: RewardTier::Jackpot,
                    given_tier: RewardTier::Small,
                    multiplier: 1,
                }
            } else if bet == 2 {
                if has_high {
                    RowReward {
                        matched_tier: RewardTier::Jackpot,
                        given_tier: RewardTier::Jackpot,
                        multiplier: 1,
                    }
                } else if has_med {
                    RowReward {
                        matched_tier: RewardTier::Jackpot,
                        given_tier: RewardTier::Medium,
                        multiplier: 1,
                    }
                } else {
                    RowReward {
                        matched_tier: RewardTier::Jackpot,
                        given_tier: RewardTier::Small,
                        multiplier: 2,
                    }
                }
            } else {
                if has_high {
                    RowReward {
                        matched_tier: RewardTier::Jackpot,
                        given_tier: RewardTier::Jackpot,
                        multiplier: 1,
                    }
                } else if has_med {
                    RowReward {
                        matched_tier: RewardTier::Jackpot,
                        given_tier: RewardTier::Medium,
                        multiplier: 1,
                    }
                } else {
                    RowReward {
                        matched_tier: RewardTier::Jackpot,
                        given_tier: RewardTier::Small,
                        multiplier: 5,
                    }
                }
            }
        },
        // ExtraRoll and NoMatch do not reach here from resolve_all_wins.
        _ => RowReward { matched_tier, given_tier: RewardTier::Small, multiplier: 1 },
    }
}

/// Resolve all winning rows independently.
///
/// Scans each payline for 3-of-a-kind matches (by display name). For each
/// non-ExtraRoll match, resolves the reward using the bet-scaled fallback
/// matrix. ExtraRoll rows are excluded: they pay coins instead.
///
/// Returns an empty vec when no eligible winning rows exist.
pub fn resolve_all_wins(reels: Reels, bet: u32, has_med: bool, has_high: bool) -> (rewards: Vec<RowReward>)
    ensures
        rewards@ == all_row_rewards(reels, bet, has_med, has_high),
{
    let mut rewards: Vec<RowReward> = Vec::new();
    let mut row_idx: usize = 0;
    while row_idx < 3
        invariant
            0 <= row_idx <= 3,
            rewards@ == (if row_idx == 0 {
                Seq::<RowReward>::empty()
            } else if row_idx == 1 {
                row_part(reels, 0, bet, has_med, has_high)
            } else if row_idx == 2 {
                row_part(reels, 0, bet, has_med, has_high) + row_part(reels, 1, bet, has_med, has_high)
            } else {
                all_row_rewards(reels, bet, has_med, has_high)
            }),
        decreases 3 - row_idx,
    {
        let payline = [reels[0][row_idx], reels[1][row_idx], reels[2][row_idx]];
        let ghost before = rewards@;
        if is_winning_row(payline) {
            let tier = symbol_tier(payline[0]);
            if !(tier == RewardTier::ExtraRoll || tier == RewardTier::NoMatch) {
                let row_reward = resolve_single_row(tier, bet, has_med, has_high);
                rewards.push(row_reward);
            }
        }
        assert(rewards@ =~= before + row_part(reels, row_idx as int, bet, has_med, has_high));
        row_idx = row_idx + 1;
    }
    rewards
}

/// Count how many ExtraRoll winning rows exist in the reels.
/// Each ExtraRoll row pays `bet + 1` coins independently.
pub fn count_extraroll_rows(reels: Reels) -> (count: u32)
    ensures
        count == extraroll_count(reels),
{
    let mut count: u32 = 0;
    let mut row_idx: usize = 0;
    while row_idx < 3
        invariant
            0 <= row_idx <= 3,
            count == (if row_idx >= 1 && is_extraroll_row(reels, 0) { 1int } else { 0 }) + (if row_idx >= 2 && is_extraroll_row(reels, 1) { 1int } else { 0 }) + (if row_idx >= 3 && is_extraroll_row(reels, 2) { 1int } else { 0 }),
        decreases 3 - row_idx,
    {
        let payline = [reels[0][row_idx], reels[1][row_idx], reels[2][row_idx]];
        if is_winning_row(payline) && symbol_tier(payline[0]) == RewardTier::ExtraRoll {
            count = count + 1;
        }
        row_idx = row_idx + 1;
    }
    count
}

/// Every winning payline is accounted for exactly once: either it yields a
/// row reward or it is an ExtraRoll payline that pays coins.
pub proof fn law_every_win_is_rewarded_or_paid(reels: Reels, bet: u32, has_med: bool, has_high: bool)
    ensures
        all_row_rewards(reels, bet, has_med, has_high).len() + extraroll_count(reels) == win_count(reels),
{
}

/// A fallback never hands out a reward above the matched tier, and the
/// multiplier is 1, 2 or 5.
pub proof fn law_fallback_never_upgrades(matched_tier: RewardTier, bet: u32, has_med: bool, has_high: bool)
    requires
        matched_tier == RewardTier::Small || matched_tier == RewardTier::Medium || matched_tier == RewardTier::Jackpot,
    ensures
        crate::slot::order_of(single_row_reward(matched_tier, bet, has_med, has_high).given_tier) <= crate::slot::order_of(matched_tier),
        single_row_reward(matched_tier, bet, has_med, has_high).multiplier == 1
            || single_row_reward(matched_tier, bet, has_med, has_high).multiplier == 2
            || single_row_reward(matched_tier, bet, has_med, has_high).multiplier == 5,
        single_row_reward(matched_tier, bet, has_med, has_high).multiplier > 1 ==> single_row_reward(matched_tier, bet, has_med, has_high).given_tier == RewardTier::Small,
{
}

/// A Medium row at a bet of 2 or more is given Medium at 1x whenever a
/// Medium global reward exists, and Small at 2x when none does, whether or
/// not a Jackpot reward exists; below a bet of 2 it is given Small at 1x.
pub proof fn law_medium_row_given_medium_when_available(bet: u32, has_med: bool, has_high: bool)
    ensures
        bet >= 2 && has_med ==> single_row_reward(RewardTier::Medium, bet, has_med, has_high) == (RowReward {
            matched_tier: RewardTier::Medium,
            given_tier: RewardTier::Medium,
            multiplier: 1,
        }),
        bet >= 2 && !has_med ==> single_row_reward(RewardTier::Medium, bet, has_med, has_high) == (RowReward {
            matched_tier: RewardTier::Medium,
            given_tier: RewardTier::Small,
            multiplier: 2,
        }),
        bet < 2 ==> single_row_reward(RewardTier::Medium, bet, has_med, has_high) == (RowReward {
            matched_tier: RewardTier::Medium,
            given_tier: RewardTier::Small,
            multiplier: 1,
        }),
{
}

/// Whether a Jackpot global reward exists matters only to Jackpot rows:
/// every other row is resolved the same either way.
pub proof fn law_jackpot_reward_matters_only_to_jackpot_rows(
    matched_tier: RewardTier,
    bet: u32,
    has_med: bool,
    h1: bool,
    h2: bool,
)
    requires
        matched_tier != RewardTier::Jackpot,
    ensures
        single_row_reward(matched_tier, bet, has_med, h1) == single_row_reward(matched_tier, bet, has_med, h2),
{
}

/// A row is given a Medium or Jackpot reward only when a global reward of
/// that tier exists, and the row keeps its matched tier; a Jackpot row at a
/// bet of 2 or more is given Jackpot at 1x whenever a Jackpot reward exists.
pub proof fn law_row_given_tier_is_available(matched_tier: RewardTier, bet: u32, has_med: bool, has_high: bool)
    ensures
        single_row_reward(matched_tier, bet, has_med, has_high).matched_tier == matched_tier,
        single_row_reward(matched_tier, bet, has_med, has_high).given_tier == RewardTier::Medium ==> has_med,
        single_row_reward(matched_tier, bet, has_med, has_high).given_tier == RewardTier::Jackpot ==> has_high,
        bet >= 2 && has_high ==> single_row_reward(RewardTier::Jackpot, bet, has_med, has_high) == (RowReward {
            matched_tier: RewardTier::Jackpot,
            given_tier: RewardTier::Jackpot,
            multiplier: 1,
        }),
{
}

/// A Jackpot row at a bet of 1 is given Small at 1x; at a higher bet it is
/// given Jackpot when a Jackpot reward exists, else Medium when a Medium
/// one does, both at 1x, else Small at 2x for a bet of 2 and 5x above. A
/// Small row is given Small at 1x.
pub proof fn law_jackpot_row_falls_back_by_bet(bet: u32, has_med: bool, has_high: bool)
    ensures
        bet == 1 ==> single_row_reward(RewardTier::Jackpot, bet, has_med, has_high) == (RowReward {
            matched_tier: RewardTier::Jackpot,
            given_tier: RewardTier::Small,
            multiplier: 1,
        }),
        bet != 1 && !has_high && has_med ==> single_row_reward(RewardTier::Jackpot, bet, has_med, has_high)
            == (RowReward { matched_tier: RewardTier::Jackpot, given_tier: RewardTier::Medium, multiplier: 1 }),
        bet == 2 && !has_high && !has_med ==> single_row_reward(RewardTier::Jackpot, bet, has_med, has_high)
            == (RowReward { matched_tier: RewardTier::Jackpot, given_tier: RewardTier::Small, multiplier: 2 }),
        bet >= 3 && !has_high && !has_med ==> single_row_reward(RewardTier::Jackpot, bet, has_med, has_high)
            == (RowReward { matched_tier: RewardTier::Jackpot, given_tier: RewardTier::Small, multiplier: 5 }),
        single_row_reward(RewardTier::Small, bet, has_med, has_high) == (RowReward {
            matched_tier: RewardTier::Small,
            given_tier: RewardTier::Small,
            multiplier: 1,
        }),
{
}

} // verus!
