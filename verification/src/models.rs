//! Core data types shared by every module.
//!
//! Identifiers are the 128-bit values of UUIDs, calendar dates are day
//! numbers (days counted in the proleptic Gregorian calendar with
//! 0001-01-01 as day 1) and the instants of toasts are milliseconds on the
//! monotonic clock, counted from the start of the queue that holds them.

use vstd::prelude::*;
use crate::clock;
use std::time::Instant;

verus! {

/// One face of a reel. Several symbols can share a display name (and so
/// count as the same picture for matching purposes).
#[derive(Debug, Clone, Copy, PartialEq, Eq, Structural)]
pub enum SlotSymbol {
    Low0,
    Low1,
    Low2,
    Mid0,
    Mid1,
    High0,
    ExtraRoll0,
}

impl Default for SlotSymbol {
    fn default() -> (s: Self)
        ensures
            s == SlotSymbol::Low0,
    {
        SlotSymbol::Low0
    }
}

/// Reward tier of a symbol or of a spin. `NoMatch` means no payline won.
#[derive(Debug, Clone, Copy, PartialEq, Eq, Structural)]
pub enum RewardTier {
    NoMatch,
    Small,
    Medium,
    Jackpot,
    ExtraRoll,
}

/// Reel grid, indexed `reels[column][row]`; payline `r` is
/// `reels[0][r], reels[1][r], reels[2][r]`.
pub type Reels = [[SlotSymbol; 3]; 3];

#[derive(Debug, Clone, PartialEq)]
pub struct Habit {
    pub id: u128,
    pub name: String,
    /// Day number of the creation date.
    pub created_at: i32,
    pub reward_pool: RewardPool,
    pub target_days: u32,
    pub longest_streak: u32,
    pub coin_reward: u32,
}

#[derive(Debug, Clone, PartialEq)]
pub struct RewardPool {
    pub small_rewards: Vec<String>,
    pub medium_rewards: Vec<String>,
    pub jackpot_rewards: Vec<String>,
}

impl RewardPool {
    /// The pool a new habit starts with.
    pub open spec fn is_default_pool(&self) -> bool {
        &&& self.small_rewards@.len() == 2
        &&& self.small_rewards@[0]@ == "Extra spin"@
        &&& self.small_rewards@[1]@ == "Bonus coin"@
        &&& self.medium_rewards@.len() == 2
        &&& self.medium_rewards@[0]@ == "Day off pass"@
        &&& self.medium_rewards@[1]@ == "Coin doubler"@
        &&& self.jackpot_rewards@.len() == 2
        &&& self.jackpot_rewards@[0]@ == "Soul boost"@
        &&& self.jackpot_rewards@[1]@ == "Free day"@
    }
}

impl Default for RewardPool {
    fn default() -> (p: Self)
        ensures
            p.is_default_pool(),
    {
        let mut small_rewards: Vec<String> = Vec::new();
        small_rewards.push(String::from_str("Extra spin"));
        small_rewards.push(String::from_str("Bonus coin"));
        let mut medium_rewards: Vec<String> = Vec::new();
        medium_rewards.push(String::from_str("Day off pass"));
        medium_rewards.push(String::from_str("Coin doubler"));
        let mut jackpot_rewards: Vec<String> = Vec::new();
        jackpot_rewards.push(String::from_str("Soul boost"));
        jackpot_rewards.push(String::from_str("Free day"));
        Self { small_rewards, medium_rewards, jackpot_rewards }
    }
}

#[derive(Debug, Clone, PartialEq)]
pub struct SpinResult {
    pub reels: Reels,
    pub symbols_matched: Option<(SlotSymbol, u8)>,
    pub tier: RewardTier,
    pub payout_coins: u32,
    pub is_near_miss: bool,
    /// Which reward tier was actually given to the user from global rewards.
    pub reward_tier_given: Option<RewardTier>,
    /// Human-readable note describing the reward (e.g. "Claimed: Coffee Break").
    pub reward_note: String,
}

impl SpinResult {
    /// Two results agree field by field (the note by its text).
    pub open spec fn same_as(&self, other: &SpinResult) -> bool {
        &&& self.reels == other.reels
        &&& self.symbols_matched == other.symbols_matched
        &&& self.tier == other.tier
        &&& self.payout_coins == other.payout_coins
        &&& self.is_near_miss == other.is_near_miss
        &&& self.reward_tier_given == other.reward_tier_given
        &&& self.reward_note@ == other.reward_note@
    }

    /// A copy of this result.
    pub fn duplicate(&self) -> (r: SpinResult)
        ensures
            r.same_as(self),
    {
        SpinResult {
            reels: self.reels,
            symbols_matched: self.symbols_matched,
            tier: self.tier,
            payout_coins: self.payout_coins,
            is_near_miss: self.is_near_miss,
            reward_tier_given: self.reward_tier_given,
            reward_note: self.reward_note.clone(),
        }
    }
}

#[derive(Debug, Clone, PartialEq, Eq)]
pub struct StreakData {
    pub current_streak_days: u32,
    pub max_streak_days: u32,
    /// Day number of the latest completion.
    pub last_completed_date: Option<i32>,
}

#[derive(Debug, Clone, Copy, PartialEq, Eq)]
pub struct Completion {
    pub habit_id: u128,
    /// Day number of the completion.
    pub date: i32,
    pub count: u32,
}

#[derive(Debug, Clone, Copy, PartialEq, Eq, Structural)]
pub enum TransactionKind {
    Earn(u32),
    Spend(u32),
}

#[derive(Debug, Clone)]
pub struct Transaction {
    pub id: u128,
    pub kind: TransactionKind,
    pub amount: i64,
    pub balance_after: i64,
    pub note: String,
}

#[derive(Debug, Clone)]
pub struct CoinBalance {
    pub balance: i64,
    pub transactions: Vec<Transaction>,
}

impl Default for CoinBalance {
    fn default() -> (c: Self)
        ensures
            c.balance == 0,
            c.transactions@.len() == 0,
    {
        CoinBalance { balance: 0, transactions: Vec::new() }
    }
}

#[derive(Debug, Clone, Copy)]
pub struct PityCounter {
    pub consecutive_losses: u32,
}

impl Default for PityCounter {
    fn default() -> (p: Self)
        ensures
            p.consecutive_losses == 0,
    {
        PityCounter { consecutive_losses: 0 }
    }
}

#[derive(Debug, Clone)]
pub struct Milestone {
    pub habit_id: u128,
    pub target_days: u32,
    pub target_completions: Option<u32>,
    pub claimed: bool,
    pub reward_tier: RewardTier,
}

#[derive(Debug, Clone, Copy, PartialEq, Eq, Structural)]
pub enum CalendarColor {
    Empty,
    Low,
    Mid,
    High,
}

/// Hex colour of a heatmap cell.
pub open spec fn calendar_hex_of(c: CalendarColor) -> Seq<char> {
    match c {
        CalendarColor::Empty => "#0f0520"@,
        CalendarColor::Low => "#2a1a4e"@,
        CalendarColor::Mid => "#ff2d78"@,
        CalendarColor::High => "#00f5d4"@,
    }
}

impl CalendarColor {
    pub fn hex(&self) -> (h: &'static str)
        ensures
            h@ == calendar_hex_of(*self),
    {
        match self {
            CalendarColor::Empty => "#0f0520",
            CalendarColor::Low => "#2a1a4e",
            CalendarColor::Mid => "#ff2d78",
            CalendarColor::High => "#00f5d4",
        }
    }
}

/// Tier for a global reward item in the Rewards page.
#[derive(Debug, Clone, Copy, PartialEq, Eq, Structural)]
pub enum GlobalRewardTier {
    Low,
    Medium,
    Jackpot,
}

impl Default for GlobalRewardTier {
    fn default() -> (t: Self)
        ensures
            t == GlobalRewardTier::Low,
    {
        GlobalRewardTier::Low
    }
}

/// A reward item available on the global Rewards page.
#[derive(Debug, Clone)]
pub struct GlobalReward {
    pub id: u128,
    pub name: String,
    pub tier: GlobalRewardTier,
}

impl GlobalReward {
    /// A copy of this reward.
    pub fn duplicate(&self) -> (r: GlobalReward)
        ensures
            r.id == self.id,
            r.name@ == self.name@,
            r.tier == self.tier,
    {
        GlobalReward { id: self.id, name: self.name.clone(), tier: self.tier }
    }
}

/// Represents a global reward that was claimed from a slot spin result.
#[derive(Debug, Clone, PartialEq)]
pub struct ClaimedReward {
    pub name: String,
    pub tier: GlobalRewardTier,
}

/// Toast notification message displayed at top-center of screen.
#[derive(Debug, Clone, PartialEq)]
pub struct ToastMessage {
    pub symbol_name: String,
    pub payout: u32,
    /// Instant at which the toast was raised, in milliseconds of the
    /// monotonic clock since the start of its queue.
    pub created_at: i64,
}

/// Auto-dismiss timeout for toast notifications.
pub const TOAST_TIMEOUT_MS: u64 = 2500;

/// A toast raised at `created_at` is still shown at `now`.
pub open spec fn toast_is_live(t: ToastMessage, now: i64) -> bool {
    now - t.created_at < TOAST_TIMEOUT_MS
}

/// The toasts of `s` that are still live at `now`, in queue order.
pub open spec fn live_toasts(s: Seq<ToastMessage>, now: i64) -> Seq<ToastMessage> {
    s.filter(|t: ToastMessage| toast_is_live(t, now))
}

/// Remove from a toast queue the toasts that are no longer live at
/// instant `now`, keeping the order of the others.
pub fn retain_live_toasts(toasts: &mut Vec<ToastMessage>, now: i64)
    ensures
        final(toasts)@ == live_toasts(old(toasts)@, now),
{
    let mut rest: Vec<ToastMessage> = Vec::new();
    std::mem::swap(&mut rest, toasts);
    let mut kept: Vec<ToastMessage> = Vec::new();
    let n = rest.len();
    let mut i: usize = 0;
    let ghost live = |t: ToastMessage| toast_is_live(t, now);
    let ghost src = rest@;
    while i < n
        invariant
            0 <= i <= n,
            n == src.len(),
            rest@ == src.skip(i as int),
            live == (|t: ToastMessage| toast_is_live(t, now)),
            kept@ == src.take(i as int).filter(live),
        decreases n - i,
    {
        let t = rest.remove(0);
        proof {
            assert(t == src[i as int]);
            assert(src.skip(i + 1) == src.skip(i as int).drop_first());
            assert(src.take(i + 1) == src.take(i as int).push(src[i as int]));
            src.take(i as int).lemma_filter_push(src[i as int], live);
        }
        if (now as i128) - (t.created_at as i128) < (TOAST_TIMEOUT_MS as i128) {
            kept.push(t);
        }
        i = i + 1;
    }
    assert(src.take(n as int) == src);
    *toasts = kept;
}

/// Manages a queue of toast notifications with FIFO ordering and auto-dismiss.
#[derive(Debug, Clone)]
pub struct ToastManager {
    pub toasts: Vec<ToastMessage>,
    /// The point of the monotonic clock from which toast instants count.
    pub started: Instant,
}

impl Default for ToastManager {
    fn default() -> (m: Self)
        ensures
            m.toasts@.len() == 0,
    {
        ToastManager { toasts: Vec::new(), started: clock::monotonic_now() }
    }
}

impl ToastManager {
    /// The current instant of this queue: milliseconds passed since it was
    /// created, on the monotonic clock.
    pub fn now_millis(&self) -> (ms: i64)
        ensures
            ms >= 0,
    {
        clock::elapsed_millis(&self.started)
    }

    /// Push a toast raised at instant `now` to the end of the queue.
    pub fn push_at(&mut self, symbol_name: String, payout: u32, now: i64)
        ensures
            final(self).toasts@ == old(self).toasts@.push(
                ToastMessage { symbol_name, payout, created_at: now },
            ),
    {
        self.toasts.push(ToastMessage { symbol_name, payout, created_at: now });
    }

    /// Push a new toast notification to the end of the queue (FIFO), stamped
    /// with the current time.
    pub fn push(&mut self, symbol_name: String, payout: u32)
        ensures
            final(self).toasts@.len() == old(self).toasts@.len() + 1,
            final(self).toasts@.drop_last() == old(self).toasts@,
            final(self).toasts@.last().symbol_name == symbol_name,
            final(self).toasts@.last().payout == payout,
    {
        let now = self.now_millis();
        self.push_at(symbol_name, payout, now);
    }

    /// Remove the toasts that are no longer live at instant `now`, keeping
    /// the order of the others.
    pub fn dismiss_expired_at(&mut self, now: i64)
        ensures
            final(self).toasts@ == live_toasts(old(self).toasts@, now),
    {
        retain_live_toasts(&mut self.toasts, now);
    }

    /// Remove toasts older than the configured timeout. Called each render frame.
    pub fn dismiss_expired(&mut self)
        ensures
            exists|now: i64| final(self).toasts@ == #[trigger] live_toasts(old(self).toasts@, now),
    {
        let now = self.now_millis();
        self.dismiss_expired_at(now);
    }
}

} // verus!
