//! Slot engine: reel generation, payline matching, pity mechanic, near-miss
//! detection and reward resolution.

pub mod reward_resolution;

use vstd::prelude::*;
use crate::models::{Reels, RewardTier, SlotSymbol, SpinResult};
use crate::rng;
use crate::sprites::{
    self, display_name_of, names_match, picture_of, spec_total_weight, tier_of, weight_of,
};

verus! {

/// Consecutive losses that trigger pity win.
pub const PITY_THRESHOLD: u32 = 8;

/// Maximum allowed bet per spin.
pub const MAX_BET: u32 = 3;

/// Number of filler symbols before the result in each reel animation strip.
pub const ANIMATION_FILLER_COUNT: usize = 12;

// ---------------------------------------------------------------------
// Specification of a spin's outcome
// ---------------------------------------------------------------------

/// Rank of a tier when the best of several winning paylines is picked
/// (higher wins): Small 0, Medium 1, Jackpot 2, no match 3, ExtraRoll 4.
pub open spec fn order_of(t: RewardTier) -> int {
    match t {
        RewardTier::Small => 0,
        RewardTier::Medium => 1,
        RewardTier::Jackpot => 2,
        RewardTier::ExtraRoll => 4,
        RewardTier::NoMatch => 3,
    }
}

/// Payline `row` is a three-of-a-kind.
pub open spec fn is_win_row(reels: Reels, row: int) -> bool {
    names_match(reels[0][row], reels[1][row], reels[2][row])
}

/// Payline `row` has at least two symbols with the same display name.
pub open spec fn is_near_miss_row(reels: Reels, row: int) -> bool {
    let a = display_name_of(reels[0][row]);
    let b = display_name_of(reels[1][row]);
    let c = display_name_of(reels[2][row]);
    a == b || b == c || a == c
}

/// Some payline wins.
pub open spec fn has_win(reels: Reels) -> bool {
    exists|r: int| 0 <= r < 3 && #[trigger] is_win_row(reels, r)
}

/// Some payline is a near miss.
pub open spec fn has_near_miss(reels: Reels) -> bool {
    exists|r: int| 0 <= r < 3 && #[trigger] is_near_miss_row(reels, r)
}

/// Rank of the symbol that starts payline `row`.
pub open spec fn row_order(reels: Reels, row: int) -> int {
    order_of(tier_of(reels[0][row]))
}

/// `row` is the payline that pays: a winning payline of the highest rank,
/// the topmost one among equals.
pub open spec fn is_best_row(reels: Reels, row: int) -> bool {
    &&& 0 <= row < 3
    &&& is_win_row(reels, row)
    &&& forall|q: int|
        0 <= q < row && #[trigger] is_win_row(reels, q) ==> row_order(reels, q) < row_order(
            reels,
            row,
        )
    &&& forall|q: int|
        row < q < 3 && #[trigger] is_win_row(reels, q) ==> row_order(reels, q) <= row_order(
            reels,
            row,
        )
}

/// The payline that pays, if any.
pub open spec fn best_row(reels: Reels) -> Option<int> {
    if has_win(reels) {
        Some(choose|r: int| is_best_row(reels, r))
    } else {
        None
    }
}

/// The tier of a spin: that of the paying payline, or `NoMatch`.
pub open spec fn matched_tier(reels: Reels) -> RewardTier {
    match best_row(reels) {
        Some(r) => tier_of(reels[0][r]),
        None => RewardTier::NoMatch,
    }
}

/// Coins a spin pays out: only an ExtraRoll match pays, `bet + 1` coins.
pub open spec fn payout_of(reels: Reels, bet: u32) -> int {
    if matched_tier(reels) == RewardTier::ExtraRoll {
        bet + 1
    } else {
        0
    }
}

/// The fields of `result` that the reels decide agree with `reels` at
/// `bet`: the grid, the tier and symbol of the best winning row, the coins
/// paid and the near-miss flag.
pub open spec fn resolves_reels(result: SpinResult, reels: Reels, bet: u32) -> bool {
    &&& result.reels == reels
    &&& result.tier == matched_tier(reels)
    &&& result.payout_coins == payout_of(reels, bet)
    &&& result.symbols_matched == (match best_row(reels) {
        Some(r) => Some((reels[0][r], 3u8)),
        None => None,
    })
    &&& result.is_near_miss == (matched_tier(reels) == RewardTier::NoMatch && has_near_miss(
        reels,
    ))
}

/// `result` is the resolution of `reels` at `bet`, before any reward from
/// the global reward list is attached.
pub open spec fn resolves(result: SpinResult, reels: Reels, bet: u32) -> bool {
    &&& resolves_reels(result, reels, bet)
    &&& result.reward_tier_given is None
    &&& result.reward_note@ == Seq::<char>::empty()
}

/// The outcome of `update_pity_state`: `(counter after, pity triggered)`.
pub open spec fn pity_step(losses: u32, is_win: bool) -> (int, bool) {
    if is_win {
        (0, false)
    } else if losses + 1 >= PITY_THRESHOLD {
        (0, true)
    } else {
        (losses + 1, false)
    }
}

/// The bet-scaled reward table of a single spin:
/// `(reward tier given, coins paid)`.
pub open spec fn reward_for(tier: RewardTier, bet: u32, has_medium: bool, has_high: bool) -> (
    Option<RewardTier>,
    int,
) {
    match tier {
        RewardTier::ExtraRoll => (None, bet + 1),
        RewardTier::Small => (Some(RewardTier::Small), 0),
        RewardTier::Medium => if bet >= 2 && has_medium {
            (Some(RewardTier::Medium), 0)
        } else {
            (Some(RewardTier::Small), 0)
        },
        RewardTier::Jackpot => if bet == 1 {
            (Some(RewardTier::Small), 0)
        } else if bet == 2 {
            if has_medium {
                (Some(RewardTier::Medium), 0)
            } else {
                (Some(RewardTier::Small), 0)
            }
        } else if has_high {
            (Some(RewardTier::Jackpot), 0)
        } else if has_medium {
            (Some(RewardTier::Medium), 0)
        } else {
            (Some(RewardTier::Small), 0)
        },
        RewardTier::NoMatch => (None, 0),
    }
}

/// The symbols of a tier, in table order.
pub open spec fn tier_symbols(tier: RewardTier) -> Seq<SlotSymbol> {
    match tier {
        RewardTier::Small => seq![SlotSymbol::Low0, SlotSymbol::Low1, SlotSymbol::Low2],
        RewardTier::Medium => seq![SlotSymbol::Mid0, SlotSymbol::Mid1],
        RewardTier::Jackpot => seq![SlotSymbol::High0],
        RewardTier::ExtraRoll => seq![SlotSymbol::ExtraRoll0],
        RewardTier::NoMatch => Seq::empty(),
    }
}

/// Total weight of the symbols before `s` in the table.
pub open spec fn weight_before(s: SlotSymbol) -> int {
    match s {
        SlotSymbol::Low0 => 0,
        SlotSymbol::Low1 => 17,
        SlotSymbol::Low2 => 31,
        SlotSymbol::Mid0 => 42,
        SlotSymbol::Mid1 => 64,
        SlotSymbol::High0 => 78,
        SlotSymbol::ExtraRoll0 => 106,
    }
}

/// `s` is the symbol that a uniform draw `r` from `0..spec_total_weight()`
/// selects: the draws are shared out in table order, each symbol getting
/// as many as its weight.
pub open spec fn roll_selects(r: int, s: SlotSymbol) -> bool {
    weight_before(s) <= r < weight_before(s) + weight_of(s)
}

// ---------------------------------------------------------------------
// Proofs about the outcome specification
// ---------------------------------------------------------------------

/// At most one payline is the paying one.
pub proof fn lemma_best_row_unique(reels: Reels, a: int, b: int)
    requires
        is_best_row(reels, a),
        is_best_row(reels, b),
    ensures
        a == b,
{
    if a < b {
        assert(is_win_row(reels, a));
        assert(is_win_row(reels, b));
    } else if b < a {
        assert(is_win_row(reels, a));
        assert(is_win_row(reels, b));
    }
}

/// A paying payline found by inspection is the one `best_row` names.
pub proof fn lemma_best_row_is(reels: Reels, row: int)
    requires
        is_best_row(reels, row),
    ensures
        best_row(reels) == Some(row),
{
    assert(has_win(reels));
    let c = choose|r: int| is_best_row(reels, r);
    lemma_best_row_unique(reels, c, row);
}

/// Spins that match a symbol (that is, every tier but `NoMatch`) are exactly
/// the spins with a winning payline.
pub proof fn lemma_matched_iff_win(reels: Reels)
    ensures
        (matched_tier(reels) != RewardTier::NoMatch) <==> has_win(reels),
{
    if has_win(reels) {
        let w = choose|r: int| 0 <= r < 3 && is_win_row(reels, r);
        // Some winning row is the best one; find it by the ranks of the three rows.
        let b = if is_win_row(reels, 0) && (!is_win_row(reels, 1) || row_order(reels, 1)
            <= row_order(reels, 0)) && (!is_win_row(reels, 2) || row_order(reels, 2)
            <= row_order(reels, 0)) {
            0int
        } else if is_win_row(reels, 1) && (!is_win_row(reels, 2) || row_order(reels, 2)
            <= row_order(reels, 1)) && (!is_win_row(reels, 0) || row_order(reels, 0)
            < row_order(reels, 1)) {
            1int
        } else {
            2int
        };
        assert(is_best_row(reels, b));
        lemma_best_row_is(reels, b);
    }
}

// ---------------------------------------------------------------------
// Executable engine
// ---------------------------------------------------------------------

/// Map a matched symbol to its reward tier from config.
pub fn symbol_tier(symbol: SlotSymbol) -> (t: RewardTier)
    ensures
        t == tier_of(symbol),
{
    symbol.config().tier
}

/// Numeric tier order for comparison (higher = rarer/better).
pub fn symbol_tier_order(symbol: SlotSymbol) -> (o: u8)
    ensures
        o == order_of(tier_of(symbol)),
{
    match symbol.config().tier {
        RewardTier::Small => 0,
        RewardTier::Medium => 1,
        RewardTier::Jackpot => 2,
        RewardTier::ExtraRoll => 4,
        RewardTier::NoMatch => 3,
    }
}

/// Get all symbols belonging to a given tier.
pub fn symbols_for_tier(tier: RewardTier) -> (v: Vec<SlotSymbol>)
    ensures
        v@ == tier_symbols(tier),
        forall|i: int| 0 <= i < v@.len() ==> tier_of(#[trigger] v@[i]) == tier,
{
    let mut v: Vec<SlotSymbol> = Vec::new();
    match tier {
        RewardTier::Small => {
            v.push(SlotSymbol::Low0);
            v.push(SlotSymbol::Low1);
            v.push(SlotSymbol::Low2);
        },
        RewardTier::Medium => {
            v.push(SlotSymbol::Mid0);
            v.push(SlotSymbol::Mid1);
        },
        RewardTier::Jackpot => {
            v.push(SlotSymbol::High0);
        },
        RewardTier::ExtraRoll => {
            v.push(SlotSymbol::ExtraRoll0);
        },
        RewardTier::NoMatch => {},
    }
    proof {
        assert(v@ =~= tier_symbols(tier));
    }
    v
}

/// Sum of the roll weights of all symbols.
pub fn total_weight() -> (w: u32)
    ensures
        w == spec_total_weight(),
{
    SlotSymbol::Low0.config().weight + SlotSymbol::Low1.config().weight
        + SlotSymbol::Low2.config().weight + SlotSymbol::Mid0.config().weight
        + SlotSymbol::Mid1.config().weight + SlotSymbol::High0.config().weight
        + SlotSymbol::ExtraRoll0.config().weight
}

/// The symbol selected by a draw `r` from `0..total_weight()`: walk the
/// table accumulating weights and stop at the first symbol whose
/// cumulative weight exceeds the draw.
pub fn symbol_for_roll(r: u32) -> (s: SlotSymbol)
    requires
        r < spec_total_weight(),
    ensures
        roll_selects(r as int, s),
{
    let table = [
        SlotSymbol::Low0,
        SlotSymbol::Low1,
        SlotSymbol::Low2,
        SlotSymbol::Mid0,
        SlotSymbol::Mid1,
        SlotSymbol::High0,
        SlotSymbol::ExtraRoll0,
    ];
    let mut cumulative: u32 = 0;
    let mut idx: usize = 0;
    while idx < 7
        invariant
            0 <= idx <= 7,
            r < spec_total_weight(),
            table@ == seq![
                SlotSymbol::Low0,
                SlotSymbol::Low1,
                SlotSymbol::Low2,
                SlotSymbol::Mid0,
                SlotSymbol::Mid1,
                SlotSymbol::High0,
                SlotSymbol::ExtraRoll0,
            ],
            idx < 7 ==> cumulative == weight_before(table@[idx as int]),
            idx == 7 ==> cumulative == spec_total_weight(),
            r >= cumulative,
        decreases 7 - idx,
    {
        let s = table[idx];
        cumulative = cumulative + s.config().weight;
        if r < cumulative {
            return s;
        }
        idx = idx + 1;
    }
    SlotSymbol::Low0
}

/// Generate a single symbol based on the configured probability weights.
pub fn roll_symbol() -> (s: SlotSymbol) {
    let r = rng::random_below(total_weight());
    symbol_for_roll(r)
}

/// Check a single row (payline) for 3-of-a-kind by display name.
pub fn check_payline(row: [SlotSymbol; 3]) -> (m: Option<(SlotSymbol, u8)>)
    ensures
        m == (if names_match(row[0], row[1], row[2]) {
            Some((row[0], 3u8))
        } else {
            None
        }),
{
    if sprites::display_names_match(row[0], row[1], row[2]) {
        Some((row[0], 3))
    } else {
        None
    }
}

/// Check if a payline has a near-miss pattern: two symbols share display name, third doesn't.
pub fn check_near_miss(row: [SlotSymbol; 3]) -> (m: bool)
    ensures
        m == (display_name_of(row[0]) == display_name_of(row[1]) || display_name_of(row[1])
            == display_name_of(row[2]) || display_name_of(row[0]) == display_name_of(row[2])),
{
    proof {
        sprites::lemma_same_name_iff_same_picture(row[0], row[1]);
        sprites::lemma_same_name_iff_same_picture(row[1], row[2]);
        sprites::lemma_same_name_iff_same_picture(row[0], row[2]);
    }
    let a = sprites::symbol_picture(row[0]);
    let b = sprites::symbol_picture(row[1]);
    let c = sprites::symbol_picture(row[2]);
    a == b || b == c || a == c
}

/// Check if any payline has a near-miss pattern across the reels.
pub fn has_near_miss_pattern(reels: &Reels) -> (m: bool)
    ensures
        m == has_near_miss(*reels),
{
    let mut row_idx: usize = 0;
    while row_idx < 3
        invariant
            0 <= row_idx <= 3,
            forall|q: int| 0 <= q < row_idx ==> !#[trigger] is_near_miss_row(*reels, q),
        decreases 3 - row_idx,
    {
        let payline = [reels[0][row_idx], reels[1][row_idx], reels[2][row_idx]];
        if check_near_miss(payline) {
            assert(is_near_miss_row(*reels, row_idx as int));
            return true;
        }
        row_idx = row_idx + 1;
    }
    false
}

/// Pick a random symbol from the given tier.
pub fn pick_symbol_for_tier(tier: RewardTier) -> (s: SlotSymbol)
    ensures
        tier != RewardTier::NoMatch ==> tier_of(s) == tier,
        tier == RewardTier::NoMatch ==> s == SlotSymbol::Low0,
{
    let symbols = symbols_for_tier(tier);
    if symbols.len() == 0 {
        return SlotSymbol::default();
    }
    let idx = rng::random_below(symbols.len() as u32);
    symbols[idx as usize]
}

/// The entry of payline `row` in the list of winning rows: the row and
/// the symbol on it, when it wins.
pub open spec fn win_entry(reels: Reels, row: int) -> Seq<(usize, SlotSymbol)> {
    if is_win_row(reels, row) {
        seq![(row as usize, reels[0][row])]
    } else {
        Seq::empty()
    }
}

/// The winning paylines of a grid in row order, each with the symbol on it.
pub open spec fn winning_rows_of(reels: Reels) -> Seq<(usize, SlotSymbol)> {
    win_entry(reels, 0) + win_entry(reels, 1) + win_entry(reels, 2)
}

/// Every winning payline of a grid, in row order, with the symbol on it
/// (the one in the first reel); used to highlight winning cells.
pub fn winning_rows(reels: &Reels) -> (rows: Vec<(usize, SlotSymbol)>)
    ensures
        rows@ == winning_rows_of(*reels),
{
    let mut rows: Vec<(usize, SlotSymbol)> = Vec::new();
    if sprites::display_names_match(reels[0][0], reels[1][0], reels[2][0]) {
        rows.push((0, reels[0][0]));
    }
    let ghost after0 = rows@;
    if sprites::display_names_match(reels[0][1], reels[1][1], reels[2][1]) {
        rows.push((1, reels[0][1]));
    }
    let ghost after1 = rows@;
    if sprites::display_names_match(reels[0][2], reels[1][2], reels[2][2]) {
        rows.push((2, reels[0][2]));
    }
    assert(after0 =~= win_entry(*reels, 0));
    assert(after1 =~= win_entry(*reels, 0) + win_entry(*reels, 1));
    assert(rows@ =~= winning_rows_of(*reels));
    rows
}

/// Nine freshly rolled symbols, filled column by column.
pub fn roll_reels() -> (reels: Reels) {
    let a0 = roll_symbol();
    let a1 = roll_symbol();
    let a2 = roll_symbol();
    let b0 = roll_symbol();
    let b1 = roll_symbol();
    let b2 = roll_symbol();
    let c0 = roll_symbol();
    let c1 = roll_symbol();
    let c2 = roll_symbol();
    [[a0, a1, a2], [b0, b1, b2], [c0, c1, c2]]
}

/// `reels` with payline `row` replaced by three copies of `forced`.
pub fn force_row(reels: Reels, row: usize, forced: SlotSymbol) -> (out: Reels)
    requires
        row < 3,
    ensures
        out[0][row as int] == forced,
        out[1][row as int] == forced,
        out[2][row as int] == forced,
        forall|c: int, q: int|
            0 <= c < 3 && 0 <= q < 3 && q != row ==> #[trigger] out[c][q] == reels[c][q],
{
    let mut c0 = reels[0];
    let mut c1 = reels[1];
    let mut c2 = reels[2];
    c0[row] = forced;
    c1[row] = forced;
    c2[row] = forced;
    [c0, c1, c2]
}

/// Generate reels that guarantee a win of at least the given minimum tier.
pub fn generate_pity_reels(min_tier: RewardTier) -> (reels: Reels)
    ensures
        exists|r: int|
            0 <= r < 3 && #[trigger] is_win_row(reels, r) && tier_of(reels[0][r]) == (if min_tier
                == RewardTier::NoMatch {
                RewardTier::Small
            } else {
                min_tier
            }),
{
    let rolled = roll_reels();
    let win_row = rng::random_below(3) as usize;
    let forced_symbol = pick_symbol_for_tier(min_tier);
    let reels = force_row(rolled, win_row, forced_symbol);
    assert(is_win_row(reels, win_row as int));
    reels
}

/// Update pity counter based on spin result. Returns whether pity win should be triggered.
pub fn update_pity_state(consecutive_losses: &mut u32, is_win: bool) -> (r: (u32, bool))
    requires
        !is_win ==> *old(consecutive_losses) < u32::MAX,
    ensures
        *final(consecutive_losses) == pity_step(*old(consecutive_losses), is_win).0,
        r.0 == *final(consecutive_losses),
        r.1 == pity_step(*old(consecutive_losses), is_win).1,
{
    if is_win {
        *consecutive_losses = 0;
        (*consecutive_losses, false)
    } else {
        *consecutive_losses = *consecutive_losses + 1;
        let should_pity = *consecutive_losses >= PITY_THRESHOLD;
        if should_pity {
            *consecutive_losses = 0;
        }
        (*consecutive_losses, should_pity)
    }
}

/// Resolve the reward for a given tier and bet level.
///
/// Returns `(reward_tier_given, payout_coins)`:
/// - Small tier: always Small reward, no coins
/// - Medium at bet=1: Small fallback, no coins
/// - Medium at bet>=2: Medium if available, else Small fallback
/// - Jackpot at bet=1: Small fallback, no coins
/// - Jackpot at bet=2: Medium if available, else Small fallback
/// - Jackpot at bet=3: Jackpot if available, else Medium, else Small
/// - ExtraRoll: None reward, payout = bet + 1
pub fn resolve_reward(tier: RewardTier, bet: u32, has_medium: bool, has_high: bool) -> (r: (
    Option<RewardTier>,
    u32,
))
    requires
        tier == RewardTier::ExtraRoll ==> bet < u32::MAX,
    ensures
        r.0 == reward_for(tier, bet, has_medium, has_high).0,
        r.1 == reward_for(tier, bet, has_medium, has_high).1,
{
    match tier {
        RewardTier::ExtraRoll => (None, bet + 1),
        RewardTier::Small => (Some(RewardTier::Small), 0),
        RewardTier::Medium => {
            if bet >= 2 && has_medium {
                (Some(RewardTier::Medium), 0)
            } else {
                (Some(RewardTier::Small), 0)
            }
        },
        RewardTier::Jackpot => {
            if bet == 1 {
                (Some(RewardTier::Small), 0)
            } else if bet == 2 {
                if has_medium {
                    (Some(RewardTier::Medium), 0)
                } else {
                    (Some(RewardTier::Small), 0)
                }
            } else {
                if has_high {
                    (Some(RewardTier::Jackpot), 0)
                } else if has_medium {
                    (Some(RewardTier::Medium), 0)
                } else {
                    (Some(RewardTier::Small), 0)
                }
            }
        },
        RewardTier::NoMatch => (None, 0),
    }
}

/// Calculate coin payout for a matched row. Only ExtraRoll pays coins (bet + 1).
pub fn calc_payout(best_match: [SlotSymbol; 3], bet: u32) -> (coins: u32)
    requires
        tier_of(best_match[0]) == RewardTier::ExtraRoll ==> bet < u32::MAX,
    ensures
        coins == (if tier_of(best_match[0]) == RewardTier::ExtraRoll {
            bet + 1
        } else {
            0
        }),
{
    if symbol_tier(best_match[0]) == RewardTier::ExtraRoll {
        bet + 1
    } else {
        0
    }
}

/// Find the highest-tier matching payline across all three rows.
pub fn find_best_match(reels: &Reels) -> (best: Option<[SlotSymbol; 3]>)
    ensures
        best is None <==> !has_win(*reels),
        best matches Some(line) ==> best_row(*reels) matches Some(b) && line[0] == reels[0][b]
            && line[1] == reels[1][b] && line[2] == reels[2][b],
{
    let mut best: Option<[SlotSymbol; 3]> = None;
    let mut best_idx: usize = 0;
    let mut row_idx: usize = 0;
    while row_idx < 3
        invariant
            0 <= row_idx <= 3,
            best is None ==> forall|q: int| 0 <= q < row_idx ==> !#[trigger] is_win_row(*reels, q),
            best matches Some(line) ==> {
                &&& best_idx < row_idx
                &&& is_win_row(*reels, best_idx as int)
                &&& line[0] == reels[0][best_idx as int]
                &&& line[1] == reels[1][best_idx as int]
                &&& line[2] == reels[2][best_idx as int]
                &&& forall|q: int|
                    0 <= q < best_idx && #[trigger] is_win_row(*reels, q) ==> row_order(*reels, q)
                        < row_order(*reels, best_idx as int)
                &&& forall|q: int|
                    best_idx < q < row_idx && #[trigger] is_win_row(*reels, q) ==> row_order(
                        *reels,
                        q,
                    ) <= row_order(*reels, best_idx as int)
            },
        decreases 3 - row_idx,
    {
        let payline = [reels[0][row_idx], reels[1][row_idx], reels[2][row_idx]];
        if check_payline(payline).is_some() {
            assert(is_win_row(*reels, row_idx as int));
            match best {
                None => {
                    best = Some(payline);
                    best_idx = row_idx;
                },
                Some(b) => {
                    let current_tier = symbol_tier_order(payline[0]);
                    let best_tier = symbol_tier_order(b[0]);
                    if current_tier > best_tier {
                        best = Some(payline);
                        best_idx = row_idx;
                    }
                },
            }
        }
        row_idx = row_idx + 1;
    }
    proof {
        if best is Some {
            assert(is_best_row(*reels, best_idx as int));
            lemma_best_row_is(*reels, best_idx as int);
        }
    }
    best
}

/// Resolve a spin from pre-generated reels (no randomness).
pub fn resolve_reels(reels: Reels, bet: u32) -> (result: SpinResult)
    requires
        matched_tier(reels) == RewardTier::ExtraRoll ==> bet < u32::MAX,
    ensures
        resolves(result, reels, bet),
{
    proof {
        lemma_matched_iff_win(reels);
    }
    let best_match = find_best_match(&reels);

    let tier = match &best_match {
        Some(row) => symbol_tier(row[0]),
        None => RewardTier::NoMatch,
    };

    let payout_coins = match &best_match {
        Some(row) => calc_payout(*row, bet),
        None => 0,
    };

    let is_near_miss = tier == RewardTier::NoMatch && has_near_miss_pattern(&reels);

    let symbols_matched = match best_match {
        Some(row) => Some((row[0], 3u8)),
        None => None,
    };

    SpinResult {
        reels,
        symbols_matched,
        tier,
        payout_coins,
        is_near_miss,
        reward_tier_given: None,
        reward_note: String::new(),
    }
}

/// Resolve a spin with persistent pity state tracking.
///
/// After `PITY_THRESHOLD - 1` consecutive losses the reels are generated so
/// that at least one payline shows three Small-tier symbols.
pub fn spin_with_state(consecutive_losses: &mut u32, bet: u32) -> (result: SpinResult)
    requires
        bet < u32::MAX,
    ensures
        resolves(result, result.reels, bet),
        *old(consecutive_losses) >= PITY_THRESHOLD - 1 ==> result.tier != RewardTier::NoMatch,
        *old(consecutive_losses) >= PITY_THRESHOLD - 1 ==> exists|r: int|
            0 <= r < 3 && #[trigger] is_win_row(result.reels, r) && tier_of(result.reels[0][r])
                == RewardTier::Small,
        *final(consecutive_losses) == pity_step(
            *old(consecutive_losses),
            result.tier != RewardTier::NoMatch || result.payout_coins > 0,
        ).0,
{
    let should_pity_win = *consecutive_losses >= PITY_THRESHOLD - 1;

    let reels = if should_pity_win {
        generate_pity_reels(RewardTier::Small)
    } else {
        roll_reels()
    };
    proof {
        lemma_matched_iff_win(reels);
    }

    let result = resolve_reels(reels, bet);

    let _ = update_pity_state(
        consecutive_losses,
        result.tier != RewardTier::NoMatch || result.payout_coins > 0,
    );

    result
}

/// Resolve a spin given a bet amount. Generates reels, checks paylines, calculates payout.
pub fn spin(bet: u32) -> (result: SpinResult)
    requires
        bet < u32::MAX,
    ensures
        resolves(result, result.reels, bet),
{
    let mut consecutive_losses: u32 = 0;
    spin_with_state(&mut consecutive_losses, bet)
}

/// The weights behind the chance of three of a given symbol's display name
/// on one payline: `(weight of that display name, total weight)`. The
/// chance is `(name_weight / total_weight)` cubed.
pub fn exact_match_weights(symbol: SlotSymbol) -> (w: (u32, u32))
    ensures
        w.1 == spec_total_weight(),
        w.0 == (match tier_of(symbol) {
            RewardTier::Small => 42int,
            RewardTier::Medium => 36,
            RewardTier::Jackpot => 28,
            _ => 34,
        }),
{
    let total = total_weight();
    let table = [
        SlotSymbol::Low0,
        SlotSymbol::Low1,
        SlotSymbol::Low2,
        SlotSymbol::Mid0,
        SlotSymbol::Mid1,
        SlotSymbol::High0,
        SlotSymbol::ExtraRoll0,
    ];
    let target = sprites::symbol_picture(symbol);
    let mut name_weight: u32 = 0;
    let mut idx: usize = 0;
    while idx < 7
        invariant
            0 <= idx <= 7,
            target == picture_of(symbol),
            table@ == seq![
                SlotSymbol::Low0,
                SlotSymbol::Low1,
                SlotSymbol::Low2,
                SlotSymbol::Mid0,
                SlotSymbol::Mid1,
                SlotSymbol::High0,
                SlotSymbol::ExtraRoll0,
            ],
            name_weight <= 140,
            name_weight == (match tier_of(symbol) {
                RewardTier::Small => (if idx >= 1 { 17int } else { 0 }) + (if idx >= 2 { 14int } else { 0 }) + (if idx >= 3 { 11int } else { 0 }),
                RewardTier::Medium => (if idx >= 4 { 22int } else { 0 }) + (if idx >= 5 { 14int } else { 0 }),
                RewardTier::Jackpot => if idx >= 6 { 28int } else { 0 },
                _ => if idx >= 7 { 34int } else { 0 },
            }),
        decreases 7 - idx,
    {
        let s = table[idx];
        if sprites::symbol_picture(s) == target {
            name_weight = name_weight + s.config().weight;
        }
        idx = idx + 1;
    }
    (name_weight, total)
}

/// Generate an animation strip for a single reel column: filler symbols
/// followed by the column's result symbols.
pub fn generate_animation_strip(result_column: [SlotSymbol; 3]) -> (strip: Vec<SlotSymbol>)
    ensures
        strip@.len() == ANIMATION_FILLER_COUNT + 3,
        strip@[12] == result_column[0],
        strip@[13] == result_column[1],
        strip@[14] == result_column[2],
{
    let mut strip: Vec<SlotSymbol> = Vec::new();
    let mut i: usize = 0;
    while i < ANIMATION_FILLER_COUNT
        invariant
            0 <= i <= ANIMATION_FILLER_COUNT,
            strip@.len() == i,
        decreases ANIMATION_FILLER_COUNT - i,
    {
        strip.push(roll_symbol());
        i = i + 1;
    }
    strip.push(result_column[0]);
    strip.push(result_column[1]);
    strip.push(result_column[2]);
    strip
}

/// Each reel's strip has the filler symbols followed by that reel's column
/// of the result grid.
pub open spec fn strips_end_with(strips: [Vec<SlotSymbol>; 3], reels: Reels) -> bool {
    forall|c: int|
        0 <= c < 3 ==> {
            &&& (#[trigger] strips[c])@.len() == ANIMATION_FILLER_COUNT + 3
            &&& strips[c]@[12] == reels[c][0]
            &&& strips[c]@[13] == reels[c][1]
            &&& strips[c]@[14] == reels[c][2]
        }
}

/// Generate all 3 reel animation strips from a SpinResult.
pub fn generate_all_animation_strips(result: &SpinResult) -> (strips: [Vec<SlotSymbol>; 3])
    ensures
        strips_end_with(strips, result.reels),
{
    let s0 = generate_animation_strip(result.reels[0]);
    let s1 = generate_animation_strip(result.reels[1]);
    let s2 = generate_animation_strip(result.reels[2]);
    [s0, s1, s2]
}

} // verus!

verus! {

/// The pity counter always stays below the threshold: every update either
/// resets it or leaves it short of `PITY_THRESHOLD`.
pub proof fn law_pity_counter_stays_below_threshold(losses: u32, is_win: bool)
    requires
        losses < PITY_THRESHOLD,
    ensures
        pity_step(losses, is_win).0 < PITY_THRESHOLD,
{
}

/// A loss triggers pity exactly when it is the eighth consecutive one, and
/// any win resets the counter.
pub proof fn law_pity_triggers_on_eighth_loss(losses: u32)
    ensures
        pity_step(losses, false).1 <==> losses + 1 >= PITY_THRESHOLD,
        pity_step(losses, true) == (0int, false),
{
}

/// The near-miss flag is only ever set on losing spins, and only an
/// ExtraRoll match pays coins, `bet + 1` of them.
pub proof fn law_near_miss_only_on_losses(result: SpinResult, reels: Reels, bet: u32)
    requires
        resolves(result, reels, bet),
    ensures
        result.is_near_miss ==> result.tier == RewardTier::NoMatch,
        result.payout_coins > 0 <==> result.tier == RewardTier::ExtraRoll,
        result.tier == RewardTier::ExtraRoll ==> result.payout_coins == bet + 1,
        result.tier == RewardTier::NoMatch <==> result.symbols_matched is None,
{
}

/// A Medium match at a bet of 2 or more is given a Medium reward whenever
/// a Medium global reward exists, whether or not a Jackpot reward exists,
/// and a Small reward otherwise; below a bet of 2 it is given Small. It
/// pays no coins.
pub proof fn law_medium_match_given_medium_when_available(bet: u32, has_medium: bool, has_high: bool)
    ensures
        bet >= 2 && has_medium ==> reward_for(RewardTier::Medium, bet, has_medium, has_high) == (
            Some(RewardTier::Medium),
            0int,
        ),
        bet >= 2 && !has_medium ==> reward_for(RewardTier::Medium, bet, has_medium, has_high) == (
            Some(RewardTier::Small),
            0int,
        ),
        bet < 2 ==> reward_for(RewardTier::Medium, bet, has_medium, has_high) == (Some(RewardTier::Small), 0int),
{
}

/// Whether a Jackpot global reward exists matters only to a Jackpot
/// match: every other match is rewarded the same either way.
pub proof fn law_jackpot_reward_matters_only_to_jackpot_matches(
    tier: RewardTier,
    bet: u32,
    has_medium: bool,
    h1: bool,
    h2: bool,
)
    requires
        tier != RewardTier::Jackpot,
    ensures
        reward_for(tier, bet, has_medium, h1) == reward_for(tier, bet, has_medium, h2),
{
}

/// A Medium or Jackpot reward is given only when a global reward of that
/// tier exists, and a Jackpot match at a bet of 3 or more is given the
/// Jackpot whenever one exists.
pub proof fn law_given_tier_is_available(tier: RewardTier, bet: u32, has_medium: bool, has_high: bool)
    ensures
        reward_for(tier, bet, has_medium, has_high).0 == Some(RewardTier::Medium) ==> has_medium,
        reward_for(tier, bet, has_medium, has_high).0 == Some(RewardTier::Jackpot) ==> has_high,
        bet >= 3 && has_high ==> reward_for(RewardTier::Jackpot, bet, has_medium, has_high) == (
            Some(RewardTier::Jackpot),
            0int,
        ),
{
}

/// A Jackpot match is scaled down by the bet: at a bet of 1 it is given
/// Small; at a bet of 2 Medium when a Medium reward exists, else Small; at
/// a higher bet the best tier that exists among Jackpot, Medium and Small.
/// A Small match is always given Small, an ExtraRoll pays the bet plus one
/// coin with no reward, and no match gives nothing.
pub proof fn law_match_rewards_by_bet(bet: u32, has_medium: bool, has_high: bool)
    ensures
        bet == 1 ==> reward_for(RewardTier::Jackpot, bet, has_medium, has_high) == (Some(RewardTier::Small), 0int),
        bet == 2 ==> reward_for(RewardTier::Jackpot, bet, has_medium, has_high) == (if has_medium {
            (Some(RewardTier::Medium), 0int)
        } else {
            (Some(RewardTier::Small), 0int)
        }),
        bet >= 3 && !has_high ==> reward_for(RewardTier::Jackpot, bet, has_medium, has_high) == (if has_medium {
            (Some(RewardTier::Medium), 0int)
        } else {
            (Some(RewardTier::Small), 0int)
        }),
        reward_for(RewardTier::Small, bet, has_medium, has_high) == (Some(RewardTier::Small), 0int),
        reward_for(RewardTier::ExtraRoll, bet, has_medium, has_high) == (None::<RewardTier>, bet + 1),
        reward_for(RewardTier::NoMatch, bet, has_medium, has_high) == (None::<RewardTier>, 0int),
{
}

} // verus!
