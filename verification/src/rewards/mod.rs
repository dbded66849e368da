//! Reward pools and milestones: random selection from tiered pools, and
//! claim-once milestone tracking for streak length and completion count.

use std::collections::HashSet;
use vstd::prelude::*;
use crate::models::{GlobalReward, GlobalRewardTier, RewardPool, RewardTier};
use crate::rng;
use vstd::std_specs::iter::IteratorSpec;
use crate::text::{self, decimal, lowercase_of};

verus! {

broadcast use vstd::std_specs::hash::group_hash_axioms;

/// Number of milestone tiers on each track.
pub const MILESTONE_TIER_COUNT: usize = 5;

/// Streak milestone of tier `i`: (target days, reward tier).
pub open spec fn streak_milestone(i: int) -> (u32, RewardTier) {
    if i == 0 {
        (7, RewardTier::Small)
    } else if i == 1 {
        (14, RewardTier::Small)
    } else if i == 2 {
        (30, RewardTier::Medium)
    } else if i == 3 {
        (60, RewardTier::Medium)
    } else {
        (90, RewardTier::Jackpot)
    }
}

/// Completion milestone of tier `i`: (target completions, reward tier).
pub open spec fn completion_milestone(i: int) -> (u32, RewardTier) {
    if i == 0 {
        (10, RewardTier::Small)
    } else if i == 1 {
        (25, RewardTier::Small)
    } else if i == 2 {
        (50, RewardTier::Medium)
    } else if i == 3 {
        (100, RewardTier::Medium)
    } else {
        (200, RewardTier::Jackpot)
    }
}

/// Streak milestone targets: (target_days, reward_tier), by tier index.
pub fn streak_milestones(i: usize) -> (m: (u32, RewardTier))
    requires
        i < MILESTONE_TIER_COUNT,
    ensures
        m == streak_milestone(i as int),
{
    if i == 0 {
        (7, RewardTier::Small)
    } else if i == 1 {
        (14, RewardTier::Small)
    } else if i == 2 {
        (30, RewardTier::Medium)
    } else if i == 3 {
        (60, RewardTier::Medium)
    } else {
        (90, RewardTier::Jackpot)
    }
}

/// Completion milestone targets: (target_completions, reward_tier), by tier index.
pub fn completion_milestones(i: usize) -> (m: (u32, RewardTier))
    requires
        i < MILESTONE_TIER_COUNT,
    ensures
        m == completion_milestone(i as int),
{
    if i == 0 {
        (10, RewardTier::Small)
    } else if i == 1 {
        (25, RewardTier::Small)
    } else if i == 2 {
        (50, RewardTier::Medium)
    } else if i == 3 {
        (100, RewardTier::Medium)
    } else {
        (200, RewardTier::Jackpot)
    }
}

/// Tracks milestone progress for a single habit.
#[derive(Debug)]
pub struct MilestoneTracker {
    /// Set of claimed streak tier indices.
    pub claimed_streak_tiers: HashSet<usize>,
    /// Set of claimed completion tier indices.
    pub claimed_completion_tiers: HashSet<usize>,
}

impl Default for MilestoneTracker {
    fn default() -> (t: Self)
        ensures
            t.claimed_streak_tiers@ == Set::<usize>::empty(),
            t.claimed_completion_tiers@ == Set::<usize>::empty(),
    {
        Self { claimed_streak_tiers: HashSet::new(), claimed_completion_tiers: HashSet::new() }
    }
}

/// A copy of a set of tier indices.
pub fn copy_tier_set(s: &HashSet<usize>) -> (out: HashSet<usize>)
    ensures
        out@ == s@,
{
    let mut out: HashSet<usize> = HashSet::new();
    let ghost all = vstd::std_specs::hash::spec_hash_keys_iter(s).remaining().unref();
    assert(all.to_set() == s@);
    for x in it: s.iter()
        invariant
            all == it.seq().unref(),
            out@ == all.take(it.index()).to_set(),
    {
        let ghost before = all.take(it.index());
        out.insert(*x);
        assert(all.take(it.index() + 1) == before.push(*x));
        assert(before.push(*x).to_set() =~= before.to_set().insert(*x)) by {
            assert forall|a: usize| before.push(*x).contains(a) implies before.to_set().insert(*x).contains(a) by {
                let k = choose|k: int| 0 <= k < before.push(*x).len() && before.push(*x)[k] == a;
                if k < before.len() {
                    assert(before[k] == a);
                }
            }
            assert forall|a: usize| before.to_set().insert(*x).contains(a) implies before.push(*x).contains(a) by {
                if a == *x {
                    assert(before.push(*x)[before.len() as int] == a);
                } else {
                    let k = choose|k: int| 0 <= k < before.len() && before[k] == a;
                    assert(before.push(*x)[k] == a);
                }
            }
        }
    }
    assert(all.take(all.len() as int) == all);
    out
}

impl MilestoneTracker {
    /// A copy of this tracker.
    pub fn duplicate(&self) -> (t: MilestoneTracker)
        ensures
            t.claimed_streak_tiers@ == self.claimed_streak_tiers@,
            t.claimed_completion_tiers@ == self.claimed_completion_tiers@,
    {
        MilestoneTracker {
            claimed_streak_tiers: copy_tier_set(&self.claimed_streak_tiers),
            claimed_completion_tiers: copy_tier_set(&self.claimed_completion_tiers),
        }
    }
}

/// Identifies a claimed milestone kind and tier index.
#[derive(Debug, Clone, Copy, PartialEq, Eq, Structural)]
pub enum MilestoneKind {
    Streak(usize),
    Completion(usize),
}

/// Result of checking milestones.
#[derive(Debug, Clone, Copy)]
pub struct MilestoneCheckResult {
    /// Which milestone was just unlocked (only one at a time per call).
    pub newly_claimed: Option<MilestoneKind>,
    /// Next unclaimed streak goal (days target, tier).
    pub next_streak_goal: (u32, RewardTier),
    /// Next unclaimed completion goal (count target, tier).
    pub next_completion_goal: (u32, RewardTier),
}

impl Default for MilestoneCheckResult {
    fn default() -> (r: Self)
        ensures
            r.newly_claimed is None,
            r.next_streak_goal == streak_milestone(0),
            r.next_completion_goal == completion_milestone(0),
    {
        Self {
            newly_claimed: None,
            next_streak_goal: streak_milestones(0),
            next_completion_goal: completion_milestones(0),
        }
    }
}

/// Tier `i` of a track with targets `target` is reached by `value`.
pub open spec fn reached(streak: bool, i: int, value: u32) -> bool {
    if streak {
        value >= streak_milestone(i).0
    } else {
        value >= completion_milestone(i).0
    }
}

/// Tier `i` is unclaimed in `claimed` and reached by `value`.
pub open spec fn newly_reached(claimed: Set<usize>, streak: bool, i: int, value: u32) -> bool {
    0 <= i < MILESTONE_TIER_COUNT && !claimed.contains(i as usize) && reached(streak, i, value)
}

/// The claimed set after a check: every tier reached by `value` is added.
pub open spec fn claimed_after(claimed: Set<usize>, streak: bool, value: u32) -> Set<usize> {
    claimed.union(Set::new(|i: usize| i < MILESTONE_TIER_COUNT && reached(streak, i as int, value)))
}

/// `k` is the lowest tier index newly reached, if any.
pub open spec fn is_first_newly_reached(claimed: Set<usize>, streak: bool, value: u32, k: Option<usize>) -> bool {
    match k {
        Some(i) => newly_reached(claimed, streak, i as int, value) && forall|j: int| 0 <= j < i ==> !#[trigger] newly_reached(claimed, streak, j, value),
        None => forall|j: int| 0 <= j < MILESTONE_TIER_COUNT ==> !#[trigger] newly_reached(claimed, streak, j, value),
    }
}

/// The lowest tier index newly reached, if any.
pub open spec fn first_new_tier(claimed: Set<usize>, streak: bool, value: u32) -> Option<usize> {
    if newly_reached(claimed, streak, 0, value) {
        Some(0usize)
    } else if newly_reached(claimed, streak, 1, value) {
        Some(1usize)
    } else if newly_reached(claimed, streak, 2, value) {
        Some(2usize)
    } else if newly_reached(claimed, streak, 3, value) {
        Some(3usize)
    } else if newly_reached(claimed, streak, 4, value) {
        Some(4usize)
    } else {
        None
    }
}

/// The milestone a check reports as newly claimed: the lowest newly
/// reached streak tier, else the lowest newly reached completion tier.
pub open spec fn newly_claimed_kind(
    streak_claimed: Set<usize>,
    completion_claimed: Set<usize>,
    streak: u32,
    total: u32,
) -> Option<MilestoneKind> {
    match first_new_tier(streak_claimed, true, streak) {
        Some(i) => Some(MilestoneKind::Streak(i)),
        None => match first_new_tier(completion_claimed, false, total) {
            Some(i) => Some(MilestoneKind::Completion(i)),
            None => None,
        },
    }
}

proof fn lemma_first_newly_reached_is(claimed: Set<usize>, streak: bool, value: u32, k: Option<usize>)
    requires
        is_first_newly_reached(claimed, streak, value, k),
    ensures
        k == first_new_tier(claimed, streak, value),
{
    match k {
        Some(i) => {
            if i > 0 { assert(!newly_reached(claimed, streak, 0, value)); }
            if i > 1 { assert(!newly_reached(claimed, streak, 1, value)); }
            if i > 2 { assert(!newly_reached(claimed, streak, 2, value)); }
            if i > 3 { assert(!newly_reached(claimed, streak, 3, value)); }
        },
        None => {
            assert(!newly_reached(claimed, streak, 0, value));
            assert(!newly_reached(claimed, streak, 1, value));
            assert(!newly_reached(claimed, streak, 2, value));
            assert(!newly_reached(claimed, streak, 3, value));
            assert(!newly_reached(claimed, streak, 4, value));
        },
    }
}

/// The lowest tier index not in `claimed`; the last tier when every tier
/// is claimed.
pub open spec fn first_unclaimed(claimed: Set<usize>) -> int {
    if !claimed.contains(0usize) {
        0
    } else if !claimed.contains(1usize) {
        1
    } else if !claimed.contains(2usize) {
        2
    } else if !claimed.contains(3usize) {
        3
    } else {
        4
    }
}

/// `goal` is the milestone of the first unclaimed tier of a track.
pub open spec fn is_next_goal(claimed: Set<usize>, streak: bool, goal: (u32, RewardTier)) -> bool {
    if streak {
        goal == streak_milestone(first_unclaimed(claimed))
    } else {
        goal == completion_milestone(first_unclaimed(claimed))
    }
}

/// Claim every tier of one track reached by `value`; return the lowest
/// newly claimed tier, if any.
fn claim_reached(claimed: &mut HashSet<usize>, streak: bool, value: u32) -> (first: Option<usize>)
    ensures
        final(claimed)@ == claimed_after(old(claimed)@, streak, value),
        is_first_newly_reached(old(claimed)@, streak, value, first),
{
    let ghost start = claimed@;
    let mut first: Option<usize> = None;
    let mut idx: usize = 0;
    while idx < MILESTONE_TIER_COUNT
        invariant
            0 <= idx <= MILESTONE_TIER_COUNT,
            claimed@ == start.union(Set::new(|i: usize| i < idx && reached(streak, i as int, value))),
            match first {
                Some(i) => i < idx && newly_reached(start, streak, i as int, value) && forall|j: int| 0 <= j < i ==> !#[trigger] newly_reached(start, streak, j, value),
                None => forall|j: int| 0 <= j < idx ==> !#[trigger] newly_reached(start, streak, j, value),
            },
        decreases MILESTONE_TIER_COUNT - idx,
    {
        let target = if streak {
            streak_milestones(idx).0
        } else {
            completion_milestones(idx).0
        };
        let was_claimed = claimed.contains(&idx);
        assert(was_claimed == claimed@.contains(idx));
        if !was_claimed && value >= target {
            claimed.insert(idx);
            if first.is_none() {
                assert(!start.contains(idx));
                first = Some(idx);
            }
        }
        proof {
            if !(!was_claimed && value >= target) {
                assert(!newly_reached(start, streak, idx as int, value)) by {
                    if value >= target {
                        assert(claimed@.contains(idx));
                        assert(start.contains(idx));
                    }
                }
            }
        }
        assert(claimed@ =~= start.union(Set::new(|i: usize| i < idx + 1 && reached(streak, i as int, value))));
        idx = idx + 1;
    }
    assert(claimed@ =~= claimed_after(start, streak, value));
    first
}

/// The milestone of the lowest tier of a track not in `claimed`, or the
/// last tier's milestone when every tier is claimed.
fn next_goal(claimed: &HashSet<usize>, streak: bool) -> (goal: (u32, RewardTier))
    ensures
        is_next_goal(claimed@, streak, goal),
{
    let mut idx: usize = 0;
    while idx < MILESTONE_TIER_COUNT
        invariant
            0 <= idx <= MILESTONE_TIER_COUNT,
            forall|j: usize| j < idx ==> #[trigger] claimed@.contains(j),
        decreases MILESTONE_TIER_COUNT - idx,
    {
        if !claimed.contains(&idx) {
            let goal = if streak {
                streak_milestones(idx)
            } else {
                completion_milestones(idx)
            };
            return goal;
        }
        idx = idx + 1;
    }
    if streak {
        streak_milestones(MILESTONE_TIER_COUNT - 1)
    } else {
        completion_milestones(MILESTONE_TIER_COUNT - 1)
    }
}

/// Check current streak and completion progress against milestone tiers.
/// Returns any newly claimed milestone and the next active goals.
///
/// Every tier reached is claimed; of the newly claimed ones, the lowest
/// streak tier is reported, else the lowest completion tier.
pub fn check_milestones(tracker: &mut MilestoneTracker, current_streak_days: u32, total_completions: u32) -> (result: MilestoneCheckResult)
    ensures
        final(tracker).claimed_streak_tiers@ == claimed_after(old(tracker).claimed_streak_tiers@, true, current_streak_days),
        final(tracker).claimed_completion_tiers@ == claimed_after(old(tracker).claimed_completion_tiers@, false, total_completions),
        match result.newly_claimed {
            Some(MilestoneKind::Streak(i)) => is_first_newly_reached(old(tracker).claimed_streak_tiers@, true, current_streak_days, Some(i)),
            Some(MilestoneKind::Completion(i)) => is_first_newly_reached(old(tracker).claimed_streak_tiers@, true, current_streak_days, None)
                && is_first_newly_reached(old(tracker).claimed_completion_tiers@, false, total_completions, Some(i)),
            None => is_first_newly_reached(old(tracker).claimed_streak_tiers@, true, current_streak_days, None)
                && is_first_newly_reached(old(tracker).claimed_completion_tiers@, false, total_completions, None),
        },
        result.newly_claimed == newly_claimed_kind(
            old(tracker).claimed_streak_tiers@,
            old(tracker).claimed_completion_tiers@,
            current_streak_days,
            total_completions,
        ),
        is_next_goal(final(tracker).claimed_streak_tiers@, true, result.next_streak_goal),
        is_next_goal(final(tracker).claimed_completion_tiers@, false, result.next_completion_goal),
{
    let mut result = MilestoneCheckResult::default();

    let first_streak = claim_reached(&mut tracker.claimed_streak_tiers, true, current_streak_days);
    if let Some(i) = first_streak {
        result.newly_claimed = Some(MilestoneKind::Streak(i));
    }

    let first_completion = claim_reached(&mut tracker.claimed_completion_tiers, false, total_completions);
    proof {
        lemma_first_newly_reached_is(old(tracker).claimed_streak_tiers@, true, current_streak_days, first_streak);
        lemma_first_newly_reached_is(old(tracker).claimed_completion_tiers@, false, total_completions, first_completion);
    }
    if result.newly_claimed.is_none() {
        if let Some(i) = first_completion {
            result.newly_claimed = Some(MilestoneKind::Completion(i));
        }
    }

    result.next_streak_goal = next_goal(&tracker.claimed_streak_tiers, true);
    result.next_completion_goal = next_goal(&tracker.claimed_completion_tiers, false);

    result
}

/// The reward tier of a milestone; out-of-range indices count as Small.
pub open spec fn milestone_tier_of(kind: MilestoneKind) -> RewardTier {
    match kind {
        MilestoneKind::Streak(i) => if i < MILESTONE_TIER_COUNT { streak_milestone(i as int).1 } else { RewardTier::Small },
        MilestoneKind::Completion(i) => if i < MILESTONE_TIER_COUNT { completion_milestone(i as int).1 } else { RewardTier::Small },
    }
}

/// Get the reward tier for a claimed milestone.
pub fn get_milestone_tier(kind: MilestoneKind) -> (t: RewardTier)
    ensures
        t == milestone_tier_of(kind),
{
    match kind {
        MilestoneKind::Streak(idx) => if idx < MILESTONE_TIER_COUNT {
            streak_milestones(idx).1
        } else {
            RewardTier::Small
        },
        MilestoneKind::Completion(idx) => if idx < MILESTONE_TIER_COUNT {
            completion_milestones(idx).1
        } else {
            RewardTier::Small
        },
    }
}

/// The milestone progress line, given the label and its lower-case form.
pub open spec fn progress_text_with(current: u32, target: u32, label: Seq<char>, lowered: Seq<char>) -> Seq<char> {
    if current >= target {
        label + " achieved! ("@ + decimal(current as nat) + "/"@ + decimal(target as nat) + ")"@
    } else {
        decimal(current as nat) + "/"@ + decimal(target as nat) + " "@ + lowered + " remaining"@
    }
}

/// The milestone progress line.
pub open spec fn progress_text(current: u32, target: u32, label: Seq<char>) -> Seq<char> {
    progress_text_with(current, target, label, lowercase_of(label))
}

/// The progress line built from a label and its lower-case form: `label
/// achieved! (current/target)` once the target is reached, else `current/
/// target lowered remaining`.
pub fn progress_line(current: u32, target: u32, label: &str, lowered: &str) -> (s: String)
    ensures
        s@ == progress_text_with(current, target, label@, lowered@),
{
    let mut s = String::new();
    if current >= target {
        s.append(label);
        s.append(" achieved! (");
        text::push_decimal(&mut s, current as u64);
        s.append("/");
        text::push_decimal(&mut s, target as u64);
        s.append(")");
    } else {
        text::push_decimal(&mut s, current as u64);
        s.append("/");
        text::push_decimal(&mut s, target as u64);
        s.append(" ");
        s.append(lowered);
        s.append(" remaining");
    }
    assert(s@ =~= progress_text_with(current, target, label@, lowered@));
    s
}

/// Format milestone progress string for display.
pub fn format_progress(current: u32, target: u32, label: &str) -> (s: String)
    ensures
        s@ == progress_text(current, target, label@),
{
    if current >= target {
        progress_line(current, target, label, label)
    } else {
        let lower = text::to_lowercase(label);
        progress_line(current, target, label, lower.as_str())
    }
}

/// The pool list of a tier (empty for ExtraRoll and no match).
pub open spec fn pool_for(pool: RewardPool, tier: RewardTier) -> Seq<String> {
    match tier {
        RewardTier::Small => pool.small_rewards@,
        RewardTier::Medium => pool.medium_rewards@,
        RewardTier::Jackpot => pool.jackpot_rewards@,
        _ => Seq::empty(),
    }
}

/// Select a random reward string from the appropriate pool tier.
/// Returns None if the pool for the given tier is empty.
pub fn select_reward(pool: &RewardPool, tier: RewardTier) -> (r: Option<String>)
    ensures
        r is Some <==> pool_for(*pool, tier).len() > 0,
        r matches Some(s) ==> exists|i: int| 0 <= i < pool_for(*pool, tier).len() && (#[trigger] pool_for(*pool, tier)[i])@ == s@,
{
    let rewards = match tier {
        RewardTier::Small => &pool.small_rewards,
        RewardTier::Medium => &pool.medium_rewards,
        RewardTier::Jackpot => &pool.jackpot_rewards,
        RewardTier::ExtraRoll | RewardTier::NoMatch => return None,
    };

    if rewards.len() == 0 {
        return None;
    }

    match rng::choose_one(rewards.as_slice()) {
        Some(chosen) => {
            proof {
                let i = rewards@.index_of(*chosen);
                assert(rewards@[i] == *chosen);
                assert(rewards@ == pool_for(*pool, tier));
            }
            Some(chosen.clone())
        },
        None => None,
    }
}

/// Tier of the global rewards that a slot tier is paid from.
pub open spec fn global_tier_of(tier: RewardTier) -> Option<GlobalRewardTier> {
    match tier {
        RewardTier::Small => Some(GlobalRewardTier::Low),
        RewardTier::Medium => Some(GlobalRewardTier::Medium),
        RewardTier::Jackpot => Some(GlobalRewardTier::Jackpot),
        _ => None,
    }
}

/// Some global reward has tier `tier`.
pub open spec fn has_global_tier(rewards: Seq<GlobalReward>, tier: GlobalRewardTier) -> bool {
    exists|i: int| 0 <= i < rewards.len() && (#[trigger] rewards[i]).tier == tier
}

/// Select a random global reward of the given tier.
/// Returns None if no global reward has that tier.
pub fn select_global_reward_by_tier(rewards: &Vec<GlobalReward>, tier: GlobalRewardTier) -> (r: Option<GlobalReward>)
    ensures
        r is Some <==> has_global_tier(rewards@, tier),
        r matches Some(g) ==> exists|i: int| 0 <= i < rewards@.len() && (#[trigger] rewards@[i]).tier == tier
            && rewards@[i].id == g.id && rewards@[i].name@ == g.name@ && g.tier == tier,
{
    let mut candidates: Vec<usize> = Vec::new();
    let mut i: usize = 0;
    while i < rewards.len()
        invariant
            0 <= i <= rewards@.len(),
            forall|k: int| 0 <= k < candidates@.len() ==> (#[trigger] candidates@[k]) < rewards@.len() && rewards@[candidates@[k] as int].tier == tier,
            forall|j: int| 0 <= j < i && (#[trigger] rewards@[j]).tier == tier ==> candidates@.contains(j as usize),
        decreases rewards@.len() - i,
    {
        let ghost before = candidates@;
        if rewards[i].tier == tier {
            candidates.push(i);
            assert(candidates@[candidates@.len() - 1] == i);
        }
        assert forall|j: int| 0 <= j < i + 1 && (#[trigger] rewards@[j]).tier == tier implies candidates@.contains(j as usize) by {
            if j < i {
                assert(before.contains(j as usize));
                let p = before.index_of(j as usize);
                assert(candidates@[p] == j as usize);
            } else {
                assert(candidates@[candidates@.len() - 1] == i);
            }
        }
        i = i + 1;
    }
    proof {
        if has_global_tier(rewards@, tier) {
            let j = choose|j: int| 0 <= j < rewards@.len() && (#[trigger] rewards@[j]).tier == tier;
            assert(candidates@.contains(j as usize));
        }
    }
    match rng::choose_one(candidates.as_slice()) {
        Some(idx) => {
            let k = *idx;
            proof {
                let p = candidates@.index_of(k);
                assert(candidates@[p] == k);
            }
            Some(rewards[k].duplicate())
        },
        None => None,
    }
}

/// Claim once: a second check with values no higher than the first claims
/// nothing new and leaves the tracker's sets as they were.
pub proof fn law_claim_once(
    streak_claimed: Set<usize>,
    completion_claimed: Set<usize>,
    streak1: u32,
    total1: u32,
    streak2: u32,
    total2: u32,
)
    requires
        streak2 <= streak1,
        total2 <= total1,
    ensures
        is_first_newly_reached(claimed_after(streak_claimed, true, streak1), true, streak2, None),
        is_first_newly_reached(claimed_after(completion_claimed, false, total1), false, total2, None),
        claimed_after(claimed_after(streak_claimed, true, streak1), true, streak2) == claimed_after(streak_claimed, true, streak1),
        claimed_after(claimed_after(completion_claimed, false, total1), false, total2) == claimed_after(completion_claimed, false, total1),
{
    assert(claimed_after(claimed_after(streak_claimed, true, streak1), true, streak2) =~= claimed_after(streak_claimed, true, streak1));
    assert(claimed_after(claimed_after(completion_claimed, false, total1), false, total2) =~= claimed_after(completion_claimed, false, total1));
    assert forall|j: int| 0 <= j < MILESTONE_TIER_COUNT implies !#[trigger] newly_reached(claimed_after(streak_claimed, true, streak1), true, j, streak2) by {
        if reached(true, j, streak2) {
            assert(claimed_after(streak_claimed, true, streak1).contains(j as usize));
        }
    }
    assert forall|j: int| 0 <= j < MILESTONE_TIER_COUNT implies !#[trigger] newly_reached(claimed_after(completion_claimed, false, total1), false, j, total2) by {
        if reached(false, j, total2) {
            assert(claimed_after(completion_claimed, false, total1).contains(j as usize));
        }
    }
}

/// Claimed tiers are never lost: a check only adds tiers.
pub proof fn law_claims_only_grow(claimed: Set<usize>, streak: bool, value: u32)
    ensures
        claimed.subset_of(claimed_after(claimed, streak, value)),
{
}

/// Both milestone tracks climb the same ladder of reward tiers: tiers 0
/// and 1 are Small, 2 and 3 Medium, 4 Jackpot. The streak track asks for
/// 7, 14, 30, 60 and 90 days in a row, the completion track for 10, 25, 50,
/// 100 and 200 completions; each target is above the one before.
pub proof fn law_milestone_tracks(i: int, j: int)
    requires
        0 <= i < j < MILESTONE_TIER_COUNT,
    ensures
        streak_milestone(i).1 == completion_milestone(i).1,
        streak_milestone(i).0 < streak_milestone(j).0,
        completion_milestone(i).0 < completion_milestone(j).0,
        i < 2 ==> completion_milestone(i).1 == RewardTier::Small,
        2 <= i < 4 ==> completion_milestone(i).1 == RewardTier::Medium,
        j == 4 ==> completion_milestone(j).1 == RewardTier::Jackpot,
        2 <= j < 4 ==> completion_milestone(j).1 == RewardTier::Medium,
        seq![
            completion_milestone(0),
            completion_milestone(1),
            completion_milestone(2),
            completion_milestone(3),
            completion_milestone(4),
        ] == seq![
            (10u32, RewardTier::Small),
            (25u32, RewardTier::Small),
            (50u32, RewardTier::Medium),
            (100u32, RewardTier::Medium),
            (200u32, RewardTier::Jackpot),
        ],
        seq![
            streak_milestone(0),
            streak_milestone(1),
            streak_milestone(2),
            streak_milestone(3),
            streak_milestone(4),
        ] == seq![
            (7u32, RewardTier::Small),
            (14u32, RewardTier::Small),
            (30u32, RewardTier::Medium),
            (60u32, RewardTier::Medium),
            (90u32, RewardTier::Jackpot),
        ],
{
}

} // verus!
