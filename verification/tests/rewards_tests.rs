use habit_slot::rewards::progress_line;
use habit_slot::models::{GlobalReward, GlobalRewardTier, RewardPool, RewardTier};
use habit_slot::rewards::{
    check_milestones, format_progress, get_milestone_tier, select_global_reward_by_tier,
    select_reward, MilestoneKind, MilestoneTracker,
};

#[test]
fn streak_milestone_unlocks_at_target() {
    let mut tracker = MilestoneTracker::default();
    let result = check_milestones(&mut tracker, 7, 0);

    assert!(result.newly_claimed.is_some());
    assert_eq!(result.newly_claimed.unwrap(), MilestoneKind::Streak(0));
    assert!(tracker.claimed_streak_tiers.contains(&0));
}

#[test]
fn completion_milestone_unlocks_at_target() {
    let mut tracker = MilestoneTracker::default();
    let result = check_milestones(&mut tracker, 0, 10);

    assert!(result.newly_claimed.is_some());
    assert_eq!(result.newly_claimed.unwrap(), MilestoneKind::Completion(0));
    assert!(tracker.claimed_completion_tiers.contains(&0));
}

#[test]
fn claim_once_semantic_no_duplicate() {
    let mut tracker = MilestoneTracker::default();
    let r1 = check_milestones(&mut tracker, 7, 0);
    assert!(r1.newly_claimed.is_some());

    let r2 = check_milestones(&mut tracker, 7, 0);
    assert!(r2.newly_claimed.is_none());
}

#[test]
fn next_tier_activates_after_claim() {
    let mut tracker = MilestoneTracker::default();
    check_milestones(&mut tracker, 7, 0);
    let result = check_milestones(&mut tracker, 14, 0);

    assert!(result.newly_claimed.is_some());
    assert_eq!(result.newly_claimed.unwrap(), MilestoneKind::Streak(1));
}

#[test]
fn empty_pool_returns_none() {
    let pool = RewardPool {
        small_rewards: vec![],
        medium_rewards: vec![],
        jackpot_rewards: vec![],
    };
    assert_eq!(select_reward(&pool, RewardTier::Small), None);
    assert_eq!(select_reward(&pool, RewardTier::Medium), None);
    assert_eq!(select_reward(&pool, RewardTier::Jackpot), None);
}

#[test]
fn empty_pool_tier_returns_none() {
    let pool = RewardPool {
        small_rewards: vec!["test".to_string()],
        medium_rewards: vec![],
        jackpot_rewards: vec!["big".to_string()],
    };
    assert!(select_reward(&pool, RewardTier::Small).is_some());
    assert_eq!(select_reward(&pool, RewardTier::Medium), None);
    assert!(select_reward(&pool, RewardTier::Jackpot).is_some());
}

#[test]
fn select_reward_returns_item_from_tier() {
    let pool = RewardPool::default();
    let reward = select_reward(&pool, RewardTier::Small);
    assert!(reward.is_some());
    let val = reward.unwrap();
    assert!(pool.small_rewards.contains(&val));
}

#[test]
fn milestone_tier_mapping_correct() {
    assert_eq!(get_milestone_tier(MilestoneKind::Streak(0)), RewardTier::Small);
    assert_eq!(get_milestone_tier(MilestoneKind::Streak(2)), RewardTier::Medium);
    assert_eq!(get_milestone_tier(MilestoneKind::Streak(4)), RewardTier::Jackpot);
    assert_eq!(get_milestone_tier(MilestoneKind::Completion(0)), RewardTier::Small);
    assert_eq!(get_milestone_tier(MilestoneKind::Completion(3)), RewardTier::Medium);
}

#[test]
fn next_goal_advances_after_claim() {
    let mut tracker = MilestoneTracker::default();
    let result = check_milestones(&mut tracker, 7, 0);

    assert_eq!(result.next_streak_goal.0, 14);
}

#[test]
fn format_progress_before_and_after_target() {
    let before = format_progress(5, 30, "days");
    assert!(before.contains("5/30"));

    let at = format_progress(30, 30, "days");
    assert!(at.contains("achieved"));

    let past = format_progress(42, 30, "days");
    assert!(past.contains("achieved"));
}

#[test]
fn no_milestone_below_threshold() {
    let mut tracker = MilestoneTracker::default();
    let result = check_milestones(&mut tracker, 6, 9);

    assert!(result.newly_claimed.is_none());
    assert!(tracker.claimed_streak_tiers.is_empty());
    assert!(tracker.claimed_completion_tiers.is_empty());
}

#[test]
fn format_progress_exact_texts() {
    assert_eq!(format_progress(5, 30, "Days"), "5/30 days remaining");
    assert_eq!(format_progress(30, 30, "Days"), "Days achieved! (30/30)");
    assert_eq!(format_progress(0, 7, "days"), "0/7 days remaining");
}

#[test]
fn jumping_past_several_tiers_claims_all_reports_lowest() {
    let mut tracker = MilestoneTracker::default();
    let result = check_milestones(&mut tracker, 35, 60);
    // Streak tiers 0..=2 (7, 14, 30 days) and completion tiers 0..=2
    // (10, 25, 50) are all claimed; the lowest streak tier is reported.
    assert_eq!(result.newly_claimed, Some(MilestoneKind::Streak(0)));
    for i in 0..3usize {
        assert!(tracker.claimed_streak_tiers.contains(&i));
        assert!(tracker.claimed_completion_tiers.contains(&i));
    }
    assert_eq!(tracker.claimed_streak_tiers.len(), 3);
    assert_eq!(tracker.claimed_completion_tiers.len(), 3);
    assert_eq!(result.next_streak_goal, (60, RewardTier::Medium));
    assert_eq!(result.next_completion_goal, (100, RewardTier::Medium));

    // Everything claimed: the goals stay on the last tier.
    let result = check_milestones(&mut tracker, 90, 200);
    assert_eq!(result.newly_claimed, Some(MilestoneKind::Streak(3)));
    let result = check_milestones(&mut tracker, 90, 200);
    assert_eq!(result.newly_claimed, None);
    assert_eq!(result.next_streak_goal, (90, RewardTier::Jackpot));
    assert_eq!(result.next_completion_goal, (200, RewardTier::Jackpot));
}

#[test]
fn out_of_range_milestone_index_is_small() {
    assert_eq!(get_milestone_tier(MilestoneKind::Streak(9)), RewardTier::Small);
    assert_eq!(get_milestone_tier(MilestoneKind::Completion(5)), RewardTier::Small);
}

#[test]
fn select_global_reward_picks_from_requested_tier() {
    let rewards = vec![
        GlobalReward { id: 1, name: "Coffee".to_string(), tier: GlobalRewardTier::Low },
        GlobalReward { id: 2, name: "Movie".to_string(), tier: GlobalRewardTier::Medium },
        GlobalReward { id: 3, name: "Snack".to_string(), tier: GlobalRewardTier::Low },
    ];
    for _ in 0..50 {
        let low = select_global_reward_by_tier(&rewards, GlobalRewardTier::Low).unwrap();
        assert!(low.name == "Coffee" || low.name == "Snack");
        assert_eq!(low.tier, GlobalRewardTier::Low);
    }
    let medium = select_global_reward_by_tier(&rewards, GlobalRewardTier::Medium).unwrap();
    assert_eq!(medium.id, 2);
    assert_eq!(medium.name, "Movie");
    assert!(select_global_reward_by_tier(&rewards, GlobalRewardTier::Jackpot).is_none());
    assert!(select_global_reward_by_tier(&vec![], GlobalRewardTier::Low).is_none());
}

#[test]
fn progress_line_uses_given_lower_case_label() {
    assert_eq!(progress_line(3, 10, "Tasks", "tasks"), "3/10 tasks remaining");
    assert_eq!(progress_line(10, 10, "Tasks", "tasks"), "Tasks achieved! (10/10)");
}
