//! Application state: the habits, their completion log, the coin ledger,
//! the slot machine's pity counter and animation, milestone trackers,
//! toasts and page navigation, with every operation the screens perform.

use std::collections::HashMap;
use vstd::prelude::*;
use crate::clock;
use std::time::Instant;
use crate::economy::{
    self, appended, lemma_posted_concat, lemma_posted_nothing, lemma_posted_then_appended,
    ledger_consistent, posted,
    Posting,
};
use crate::ids::{self, uuid_parsed, uuid_text};
use crate::models::{
    self, live_toasts, CoinBalance, Completion, GlobalReward, GlobalRewardTier, Habit,
    PityCounter, RewardPool, RewardTier, SlotSymbol, SpinResult, StreakData, ToastMessage,
    TransactionKind,
};
use crate::rewards::{
    self, claimed_after, global_tier_of, has_global_tier, is_next_goal, milestone_tier_of,
    newly_claimed_kind, MilestoneCheckResult, MilestoneKind, MilestoneTracker,
};
use crate::slot::{self, is_win_row, pity_step, resolves_reels, reward_for, strips_end_with, PITY_THRESHOLD};
use crate::sprites::tier_of;
use crate::streaks::{self, habit_days, streak_matches};
use crate::text::{self, alphanumeric, decimal, push_decimal, trimmed};

verus! {

broadcast use vstd::std_specs::hash::group_hash_axioms;

/// Page navigation for simple signal-based routing.
#[derive(Debug, Clone, PartialEq, Eq)]
pub enum Page {
    Home,
    SlotMachine,
    Habits,
    /// Detail page of the habit whose identifier has this text.
    HabitDetail(String),
    Rewards,
}

impl Default for Page {
    fn default() -> (p: Self)
        ensures
            p == Page::Home,
    {
        Page::Home
    }
}

/// Top-level application state.
#[derive(Debug)]
pub struct AppState {
    pub current_page: Page,
    pub habits: Vec<Habit>,
    pub completions: Vec<Completion>,
    pub coin_balance: CoinBalance,
    pub pity_counter: PityCounter,
    pub last_spin_result: Option<SpinResult>,
    /// Milestone tracker per habit.
    pub milestone_trackers: HashMap<u128, MilestoneTracker>,
    /// Active toast notifications queued FIFO.
    pub toasts: Vec<ToastMessage>,
    /// Global rewards available on the Rewards page.
    pub global_rewards: Vec<GlobalReward>,
    /// Is the add-reward modal open?
    pub global_rewards_modal_open: bool,
    /// Is the add-habit modal open?
    pub habit_modal_open: bool,
    /// Is the delete-confirmation modal open?
    pub delete_confirm_open: bool,
    /// Which habit is pending deletion (set when delete modal opens).
    pub deleting_habit_id: Option<u128>,
    /// Reels are currently animating.
    pub is_spinning: bool,
    /// Animation strips for each reel column during spin. Each strip
    /// contains filler + result symbols.
    pub animation_strips: Option<[Vec<SlotSymbol>; 3]>,
    /// Number of reels that have finished their staggered animation (0..3).
    pub reels_stopped: u8,
    /// The point of the monotonic clock from which toast instants count.
    pub started: Instant,
}

impl Default for AppState {
    fn default() -> (s: Self)
        ensures
            s.current_page == Page::Home,
            s.habits@.len() == 0,
            s.completions@.len() == 0,
            s.coin_balance.balance == 0,
            s.coin_balance.transactions@.len() == 0,
            s.pity_counter.consecutive_losses == 0,
            s.last_spin_result is None,
            s.milestone_trackers@ == Map::<u128, MilestoneTracker>::empty(),
            s.toasts@.len() == 0,
            s.global_rewards@.len() == 0,
            !s.global_rewards_modal_open,
            !s.habit_modal_open,
            !s.delete_confirm_open,
            s.deleting_habit_id is None,
            !s.is_spinning,
            s.animation_strips is None,
            s.reels_stopped == 0,
    {
        AppState {
            current_page: Page::Home,
            habits: Vec::new(),
            completions: Vec::new(),
            coin_balance: CoinBalance::default(),
            pity_counter: PityCounter::default(),
            last_spin_result: None,
            milestone_trackers: HashMap::new(),
            toasts: Vec::new(),
            global_rewards: Vec::new(),
            global_rewards_modal_open: false,
            habit_modal_open: false,
            delete_confirm_open: false,
            deleting_habit_id: None,
            is_spinning: false,
            animation_strips: None,
            reels_stopped: 0,
            started: clock::monotonic_now(),
        }
    }
}

// ---------------------------------------------------------------------
// Lookups
// ---------------------------------------------------------------------

/// `i` is the position of the first habit with identifier `id`.
pub open spec fn is_first_habit(hs: Seq<Habit>, id: u128, i: int) -> bool {
    &&& 0 <= i < hs.len()
    &&& hs[i].id == id
    &&& forall|j: int| 0 <= j < i ==> (#[trigger] hs[j]).id != id
}

/// Position of the first habit with identifier `id`, if there is one.
pub open spec fn first_habit(hs: Seq<Habit>, id: u128) -> Option<int> {
    if exists|i: int| is_first_habit(hs, id, i) {
        Some(choose|i: int| is_first_habit(hs, id, i))
    } else {
        None
    }
}

/// The name shown for the habit whose identifier has text `text`:
/// the first such habit's name, or `"Habit"`.
pub open spec fn habit_name_for(hs: Seq<Habit>, text: Seq<char>) -> Seq<char> {
    match uuid_parsed(text) {
        Some(id) => habit_name_by_id(hs, id),
        None => "Habit"@,
    }
}

/// The name shown for identifier `id`: the first such habit's name, or
/// `"Habit"`.
pub open spec fn habit_name_by_id(hs: Seq<Habit>, id: u128) -> Seq<char> {
    match first_habit(hs, id) {
        Some(i) => hs[i].name@,
        None => "Habit"@,
    }
}

proof fn lemma_first_habit_is(hs: Seq<Habit>, id: u128, i: int)
    requires
        is_first_habit(hs, id, i),
    ensures
        first_habit(hs, id) == Some(i),
{
    let k = choose|k: int| is_first_habit(hs, id, k);
    if k < i {
        assert(hs[k].id != id);
    } else if i < k {
        assert(hs[i].id != id);
    }
}

/// Position of the first habit with identifier `id`.
fn find_habit(habits: &Vec<Habit>, id: u128) -> (r: Option<usize>)
    ensures
        match r {
            Some(i) => first_habit(habits@, id) == Some(i as int),
            None => first_habit(habits@, id) is None,
        },
{
    let mut i: usize = 0;
    while i < habits.len()
        invariant
            0 <= i <= habits@.len(),
            forall|j: int| 0 <= j < i ==> (#[trigger] habits@[j]).id != id,
        decreases habits@.len() - i,
    {
        if habits[i].id == id {
            proof {
                lemma_first_habit_is(habits@, id, i as int);
            }
            return Some(i);
        }
        i = i + 1;
    }
    assert(!exists|k: int| is_first_habit(habits@, id, k)) by {
        if exists|k: int| is_first_habit(habits@, id, k) {
            let k = choose|k: int| is_first_habit(habits@, id, k);
            assert(habits@[k].id != id);
        }
    }
    None
}

impl AppState {
    /// Navigate to a page.
    pub fn navigate(&mut self, page: Page)
        ensures
            *final(self) == (AppState { current_page: page, ..*old(self) }),
    {
        self.current_page = page;
    }

    /// Navigate back to home.
    pub fn go_home(&mut self)
        ensures
            *final(self) == (AppState { current_page: Page::Home, ..*old(self) }),
    {
        self.current_page = Page::Home;
    }

    /// Navigate to the Habits page.
    pub fn go_habits(&mut self)
        ensures
            *final(self) == (AppState { current_page: Page::Habits, ..*old(self) }),
    {
        self.current_page = Page::Habits;
    }

    /// Go back one level: from a habit's detail page to the Habits list,
    /// from any other page to Home.
    pub fn handle_back(&mut self)
        ensures
            *final(self) == (AppState {
                current_page: if old(self).current_page is HabitDetail {
                    Page::Habits
                } else {
                    Page::Home
                },
                ..*old(self)
            }),
    {
        let back = match &self.current_page {
            Page::HabitDetail(_) => Page::Habits,
            _ => Page::Home,
        };
        self.current_page = back;
    }

    /// The state loaded from storage: its data, with the UI at rest on the
    /// Home page.
    pub fn from_loaded(
        habits: Vec<Habit>,
        completions: Vec<Completion>,
        coin_balance: CoinBalance,
        pity_losses: u32,
        milestone_trackers: HashMap<u128, MilestoneTracker>,
        global_rewards: Vec<GlobalReward>,
    ) -> (s: AppState)
        ensures
            s == (AppState {
                current_page: Page::Home,
                habits,
                completions,
                coin_balance,
                pity_counter: PityCounter { consecutive_losses: pity_losses },
                last_spin_result: None,
                milestone_trackers,
                toasts: s.toasts,
                global_rewards,
                global_rewards_modal_open: false,
                habit_modal_open: false,
                delete_confirm_open: false,
                deleting_habit_id: None,
                is_spinning: false,
                animation_strips: None,
                reels_stopped: 0,
                started: s.started,
            }),
            s.toasts@.len() == 0,
    {
        AppState {
            current_page: Page::Home,
            habits,
            completions,
            coin_balance,
            pity_counter: PityCounter { consecutive_losses: pity_losses },
            last_spin_result: None,
            milestone_trackers,
            toasts: Vec::new(),
            global_rewards,
            global_rewards_modal_open: false,
            habit_modal_open: false,
            delete_confirm_open: false,
            deleting_habit_id: None,
            is_spinning: false,
            animation_strips: None,
            reels_stopped: 0,
            started: clock::monotonic_now(),
        }
    }

    /// Navigate to the detail page for a specific habit. The page carries
    /// the identifier's text, which names the same habit again.
    pub fn navigate_habit_detail(&mut self, habit_id: u128)
        ensures
            *final(self) == (AppState { current_page: final(self).current_page, ..*old(self) }),
            final(self).current_page matches Page::HabitDetail(t) && t@ == uuid_text(habit_id)
                && uuid_parsed(t@) == Some(habit_id),
    {
        self.current_page = Page::HabitDetail(ids::id_to_string(habit_id));
    }

    /// Look up a habit name by its identifier's text. Returns "Habit" if
    /// the text is no identifier or no habit has it.
    pub fn get_habit_name(&self, id_str: &str) -> (name: String)
        ensures
            name@ == habit_name_for(self.habits@, id_str@),
    {
        match ids::parse_id(id_str) {
            Some(id) => self.habit_name_of(id),
            None => String::from_str("Habit"),
        }
    }

    /// The name of the first habit with identifier `id`, or "Habit".
    pub fn habit_name_of(&self, id: u128) -> (name: String)
        ensures
            name@ == habit_name_by_id(self.habits@, id),
    {
        match find_habit(&self.habits, id) {
            Some(i) => self.habits[i].name.clone(),
            None => String::from_str("Habit"),
        }
    }
}

/// The habits other than those with identifier `id`, in order.
pub open spec fn without_habit(hs: Seq<Habit>, id: u128) -> Seq<Habit> {
    hs.filter(|h: Habit| h.id != id)
}

/// The global rewards other than those with identifier `id`, in order.
pub open spec fn without_reward(rs: Seq<GlobalReward>, id: u128) -> Seq<GlobalReward> {
    rs.filter(|r: GlobalReward| r.id != id)
}

/// A character a habit name may hold: a letter or digit, a space, a
/// hyphen, an apostrophe or a full stop.
pub open spec fn name_char(c: char) -> bool {
    alphanumeric(c) || c == ' ' || c == '-' || c == '\'' || c == '.'
}

/// A habit name as typed is acceptable: once trimmed it is not empty and
/// holds only name characters.
pub open spec fn valid_habit_name(name: Seq<char>) -> bool {
    &&& trimmed(name).len() > 0
    &&& forall|i: int| 0 <= i < trimmed(name).len() ==> name_char(#[trigger] trimmed(name)[i])
}

/// The name to create a habit with from what was typed: the trimmed text,
/// when it is acceptable.
pub fn habit_name_to_add(name: &str) -> (r: Option<String>)
    ensures
        match r {
            Some(t) => valid_habit_name(name@) && t@ == trimmed(name@),
            None => !valid_habit_name(name@),
        },
{
    let t = text::trim_text(name);
    let ts = t.as_str();
    let n = ts.unicode_len();
    if n == 0 {
        return None;
    }
    let mut i: usize = 0;
    while i < n
        invariant
            0 <= i <= n,
            n == ts@.len(),
            ts@ == trimmed(name@),
            forall|j: int| 0 <= j < i ==> name_char(#[trigger] ts@[j]),
        decreases n - i,
    {
        let c = ts.get_char(i);
        if !(text::is_alphanumeric(c) || c == ' ' || c == '-' || c == '\'' || c == '.') {
            assert(!name_char(ts@[i as int]));
            return None;
        }
        i = i + 1;
    }
    Some(t)
}

/// Remove every habit with identifier `id`, keeping the others in order.
fn retain_other_habits(habits: &mut Vec<Habit>, id: u128)
    ensures
        final(habits)@ == without_habit(old(habits)@, id),
{
    let mut rest: Vec<Habit> = Vec::new();
    std::mem::swap(&mut rest, habits);
    let mut kept: Vec<Habit> = Vec::new();
    let n = rest.len();
    let mut i: usize = 0;
    let ghost keep = |h: Habit| h.id != id;
    let ghost src = rest@;
    while i < n
        invariant
            0 <= i <= n,
            n == src.len(),
            rest@ == src.skip(i as int),
            keep == (|h: Habit| h.id != id),
            kept@ == src.take(i as int).filter(keep),
        decreases n - i,
    {
        let h = rest.remove(0);
        proof {
            assert(h == src[i as int]);
            assert(src.skip(i + 1) == src.skip(i as int).drop_first());
            assert(src.take(i + 1) == src.take(i as int).push(src[i as int]));
            src.take(i as int).lemma_filter_push(src[i as int], keep);
        }
        if h.id != id {
            kept.push(h);
        }
        i = i + 1;
    }
    assert(src.take(n as int) == src);
    *habits = kept;
}

/// The completion log without the entries of habit `id`, in order.
pub open spec fn without_completions_of(cs: Seq<Completion>, id: u128) -> Seq<Completion> {
    cs.filter(|c: Completion| c.habit_id != id)
}

/// Remove every completion of habit `id`, keeping the others in order.
fn retain_other_completions(completions: &mut Vec<Completion>, id: u128)
    ensures
        final(completions)@ == without_completions_of(old(completions)@, id),
{
    let ghost keep = |c: Completion| c.habit_id != id;
    let mut kept: Vec<Completion> = Vec::new();
    let mut i: usize = 0;
    while i < completions.len()
        invariant
            0 <= i <= completions@.len(),
            completions@ == old(completions)@,
            keep == (|c: Completion| c.habit_id != id),
            kept@ == completions@.take(i as int).filter(keep),
        decreases completions@.len() - i,
    {
        let c = completions[i];
        proof {
            assert(completions@.take(i + 1) == completions@.take(i as int).push(c));
            completions@.take(i as int).lemma_filter_push(c, keep);
        }
        if c.habit_id != id {
            kept.push(c);
        }
        i = i + 1;
    }
    assert(completions@.take(completions@.len() as int) == completions@);
    *completions = kept;
}

/// Remove every global reward with identifier `id`, keeping the others in
/// order.
fn retain_other_rewards(rewards: &mut Vec<GlobalReward>, id: u128)
    ensures
        final(rewards)@ == without_reward(old(rewards)@, id),
{
    let mut rest: Vec<GlobalReward> = Vec::new();
    std::mem::swap(&mut rest, rewards);
    let mut kept: Vec<GlobalReward> = Vec::new();
    let n = rest.len();
    let mut i: usize = 0;
    let ghost keep = |r: GlobalReward| r.id != id;
    let ghost src = rest@;
    while i < n
        invariant
            0 <= i <= n,
            n == src.len(),
            rest@ == src.skip(i as int),
            keep == (|r: GlobalReward| r.id != id),
            kept@ == src.take(i as int).filter(keep),
        decreases n - i,
    {
        let r = rest.remove(0);
        proof {
            assert(r == src[i as int]);
            assert(src.skip(i + 1) == src.skip(i as int).drop_first());
            assert(src.take(i + 1) == src.take(i as int).push(src[i as int]));
            src.take(i as int).lemma_filter_push(src[i as int], keep);
        }
        if r.id != id {
            kept.push(r);
        }
        i = i + 1;
    }
    assert(src.take(n as int) == src);
    *rewards = kept;
}

impl AppState {
    /// Create a habit with a fresh identifier, created on day `today`, with
    /// the default reward pool and an empty milestone tracker.
    pub fn add_habit_on(&mut self, name: String, target_days: u32, coin_reward: u32, today: i32)
        ensures
            final(self).habits@.len() == old(self).habits@.len() + 1,
            final(self).habits@.drop_last() == old(self).habits@,
            final(self).habits@.last().name == name,
            final(self).habits@.last().target_days == target_days,
            final(self).habits@.last().created_at == today,
            final(self).habits@.last().longest_streak == 0,
            final(self).habits@.last().coin_reward == coin_reward,
            final(self).habits@.last().reward_pool.is_default_pool(),
            final(self).milestone_trackers@ == old(self).milestone_trackers@.insert(
                final(self).habits@.last().id,
                final(self).milestone_trackers@[final(self).habits@.last().id],
            ),
            final(self).milestone_trackers@[final(self).habits@.last().id].claimed_streak_tiers@
                == Set::<usize>::empty(),
            final(self).milestone_trackers@[final(self).habits@.last().id].claimed_completion_tiers@
                == Set::<usize>::empty(),
            *final(self) == (AppState {
                habits: final(self).habits,
                milestone_trackers: final(self).milestone_trackers,
                ..*old(self)
            }),
    {
        let habit = Habit {
            id: ids::new_id(),
            name,
            created_at: today,
            reward_pool: RewardPool::default(),
            target_days,
            longest_streak: 0,
            coin_reward,
        };
        let id = habit.id;
        let _ = self.milestone_trackers.insert(id, MilestoneTracker::default());
        self.habits.push(habit);
    }

    /// Create a habit with a fresh identifier, today's date, the default
    /// reward pool and an empty milestone tracker.
    pub fn add_habit(&mut self, name: String, target_days: u32, coin_reward: u32)
        ensures
            final(self).habits@.len() == old(self).habits@.len() + 1,
            final(self).habits@.drop_last() == old(self).habits@,
            final(self).habits@.last().name == name,
            final(self).habits@.last().target_days == target_days,
            final(self).habits@.last().longest_streak == 0,
            final(self).habits@.last().coin_reward == coin_reward,
            final(self).habits@.last().reward_pool.is_default_pool(),
            final(self).milestone_trackers@ == old(self).milestone_trackers@.insert(
                final(self).habits@.last().id,
                final(self).milestone_trackers@[final(self).habits@.last().id],
            ),
            final(self).milestone_trackers@[final(self).habits@.last().id].claimed_streak_tiers@
                == Set::<usize>::empty(),
            final(self).milestone_trackers@[final(self).habits@.last().id].claimed_completion_tiers@
                == Set::<usize>::empty(),
            *final(self) == (AppState {
                habits: final(self).habits,
                milestone_trackers: final(self).milestone_trackers,
                ..*old(self)
            }),
    {
        let today = clock::today_day_number();
        self.add_habit_on(name, target_days, coin_reward, today);
    }

    /// Remove every habit with identifier `id`, its completion history and
    /// its milestone tracker.
    pub fn remove_habit(&mut self, id: u128)
        ensures
            final(self).habits@ == without_habit(old(self).habits@, id),
            final(self).completions@ == without_completions_of(old(self).completions@, id),
            final(self).milestone_trackers@ == old(self).milestone_trackers@.remove(id),
            *final(self) == (AppState {
                habits: final(self).habits,
                completions: final(self).completions,
                milestone_trackers: final(self).milestone_trackers,
                ..*old(self)
            }),
    {
        retain_other_habits(&mut self.habits, id);
        retain_other_completions(&mut self.completions, id);
        let _ = self.milestone_trackers.remove(&id);
    }

    /// Set the coin reward of the first habit with identifier `id`.
    pub fn update_habit_coin_reward(&mut self, id: u128, coin_reward: u32)
        ensures
            final(self).habits@ == (match first_habit(old(self).habits@, id) {
                Some(i) => old(self).habits@.update(i, Habit { coin_reward, ..old(self).habits@[i] }),
                None => old(self).habits@,
            }),
            *final(self) == (AppState { habits: final(self).habits, ..*old(self) }),
    {
        if let Some(i) = find_habit(&self.habits, id) {
            let mut h = self.habits.remove(i);
            h.coin_reward = coin_reward;
            self.habits.insert(i, h);
            assert(self.habits@ =~= old(self).habits@.update(i as int, Habit { coin_reward, ..old(self).habits@[i as int] }));
        }
    }

    /// Open the delete confirmation modal for a habit.
    pub fn open_delete_confirm(&mut self, habit_id: u128)
        ensures
            *final(self) == (AppState {
                deleting_habit_id: Some(habit_id),
                delete_confirm_open: true,
                ..*old(self)
            }),
    {
        self.deleting_habit_id = Some(habit_id);
        self.delete_confirm_open = true;
    }

    /// Close the delete confirmation modal without deleting.
    pub fn close_delete_confirm(&mut self)
        ensures
            *final(self) == (AppState {
                deleting_habit_id: None,
                delete_confirm_open: false,
                ..*old(self)
            }),
    {
        self.delete_confirm_open = false;
        self.deleting_habit_id = None;
    }

    /// Confirm deletion of the pending habit: remove it, its completion
    /// history and its tracker, close the modal and go back to the Habits
    /// list. Nothing happens when no deletion is pending.
    pub fn confirm_delete_habit(&mut self)
        ensures
            match old(self).deleting_habit_id {
                Some(id) => {
                    &&& final(self).habits@ == without_habit(old(self).habits@, id)
                    &&& final(self).completions@ == without_completions_of(old(self).completions@, id)
                    &&& final(self).milestone_trackers@ == old(self).milestone_trackers@.remove(id)
                    &&& *final(self) == (AppState {
                        habits: final(self).habits,
                        completions: final(self).completions,
                        milestone_trackers: final(self).milestone_trackers,
                        delete_confirm_open: false,
                        deleting_habit_id: None,
                        current_page: Page::Habits,
                        ..*old(self)
                    })
                },
                None => *final(self) == *old(self),
            },
    {
        if let Some(id) = self.deleting_habit_id {
            self.remove_habit(id);
            self.delete_confirm_open = false;
            self.deleting_habit_id = None;
            self.current_page = Page::Habits;
        }
    }

    /// Push a toast raised at instant `now` to the end of the queue (FIFO).
    pub fn push_toast_at(&mut self, symbol_name: String, payout: u32, now: i64)
        ensures
            final(self).toasts@ == old(self).toasts@.push(
                ToastMessage { symbol_name, payout, created_at: now },
            ),
            *final(self) == (AppState { toasts: final(self).toasts, ..*old(self) }),
    {
        self.toasts.push(ToastMessage { symbol_name, payout, created_at: now });
    }

    /// The current instant of the toast queue: milliseconds passed since
    /// this state was created, on the monotonic clock.
    pub fn now_millis(&self) -> (ms: i64)
        ensures
            ms >= 0,
    {
        clock::elapsed_millis(&self.started)
    }

    /// Push a new toast notification to the end of the queue (FIFO),
    /// stamped with the current time.
    pub fn push_toast(&mut self, symbol_name: String, payout: u32)
        ensures
            final(self).toasts@.len() == old(self).toasts@.len() + 1,
            final(self).toasts@.drop_last() == old(self).toasts@,
            final(self).toasts@.last().symbol_name == symbol_name,
            final(self).toasts@.last().payout == payout,
            *final(self) == (AppState { toasts: final(self).toasts, ..*old(self) }),
    {
        let now = self.now_millis();
        self.push_toast_at(symbol_name, payout, now);
    }

    /// Remove the toasts that are no longer live at instant `now`, keeping
    /// the order of the others.
    pub fn dismiss_expired_toasts_at(&mut self, now: i64)
        ensures
            final(self).toasts@ == live_toasts(old(self).toasts@, now),
            *final(self) == (AppState { toasts: final(self).toasts, ..*old(self) }),
    {
        models::retain_live_toasts(&mut self.toasts, now);
    }

    /// Remove toasts older than the configured timeout, as of the current
    /// time. Called each render frame.
    pub fn dismiss_expired_toasts(&mut self)
        ensures
            exists|now: i64| final(self).toasts@ == #[trigger] live_toasts(old(self).toasts@, now),
            *final(self) == (AppState { toasts: final(self).toasts, ..*old(self) }),
    {
        let now = self.now_millis();
        self.dismiss_expired_toasts_at(now);
    }

    /// Spend coins, e.g. for a slot spin bet. Returns true if successful;
    /// an overdraw is refused and changes nothing.
    pub fn spend_coins(&mut self, amount: u32, note: String) -> (ok: bool)
        ensures
            ok <==> old(self).coin_balance.balance >= amount,
            ok ==> appended(old(self).coin_balance, final(self).coin_balance, TransactionKind::Spend(amount), -(amount as int), note),
            !ok ==> *final(self) == *old(self),
            ledger_consistent(old(self).coin_balance) ==> ledger_consistent(final(self).coin_balance),
            *final(self) == (AppState { coin_balance: final(self).coin_balance, ..*old(self) }),
    {
        economy::spend(&mut self.coin_balance, amount, note)
    }

    /// Credit coins to the balance, e.g. after a winning spin.
    pub fn credit_coins(&mut self, amount: u32, note: String)
        requires
            old(self).coin_balance.balance + amount <= i64::MAX,
        ensures
            appended(old(self).coin_balance, final(self).coin_balance, TransactionKind::Earn(amount), amount as int, note),
            ledger_consistent(old(self).coin_balance) ==> ledger_consistent(final(self).coin_balance),
            *final(self) == (AppState { coin_balance: final(self).coin_balance, ..*old(self) }),
    {
        economy::earn(&mut self.coin_balance, amount, note);
    }

    /// Whether any global reward has the Low tier. Used to gate the lever.
    pub fn has_any_low_tier_rewards(&self) -> (b: bool)
        ensures
            b == has_global_tier(self.global_rewards@, GlobalRewardTier::Low),
    {
        has_reward_of_tier(&self.global_rewards, GlobalRewardTier::Low)
    }

    /// Add a global reward with a fresh identifier.
    pub fn add_global_reward(&mut self, name: String, tier: GlobalRewardTier)
        ensures
            final(self).global_rewards@.len() == old(self).global_rewards@.len() + 1,
            final(self).global_rewards@.drop_last() == old(self).global_rewards@,
            final(self).global_rewards@.last().name == name,
            final(self).global_rewards@.last().tier == tier,
            *final(self) == (AppState { global_rewards: final(self).global_rewards, ..*old(self) }),
    {
        let reward = GlobalReward { id: ids::new_id(), name, tier };
        self.global_rewards.push(reward);
    }

    /// Remove every global reward with identifier `id`.
    pub fn remove_global_reward(&mut self, id: u128)
        ensures
            final(self).global_rewards@ == without_reward(old(self).global_rewards@, id),
            *final(self) == (AppState { global_rewards: final(self).global_rewards, ..*old(self) }),
    {
        retain_other_rewards(&mut self.global_rewards, id);
    }
}

// ---------------------------------------------------------------------
// Completions
// ---------------------------------------------------------------------

/// `i` is the position of the first log entry of habit `id` on day `day`.
pub open spec fn is_first_entry(cs: Seq<Completion>, id: u128, day: int, i: int) -> bool {
    &&& 0 <= i < cs.len()
    &&& cs[i].habit_id == id
    &&& cs[i].date == day
    &&& forall|j: int| 0 <= j < i ==> !((#[trigger] cs[j]).habit_id == id && cs[j].date == day)
}

/// Position of the first log entry of habit `id` on day `day`, if any.
pub open spec fn first_entry(cs: Seq<Completion>, id: u128, day: int) -> Option<int> {
    if exists|i: int| is_first_entry(cs, id, day, i) {
        Some(choose|i: int| is_first_entry(cs, id, day, i))
    } else {
        None
    }
}

/// The count recorded for habit `id` on day `day` (zero when none is).
pub open spec fn count_on(cs: Seq<Completion>, id: u128, day: int) -> int {
    match first_entry(cs, id, day) {
        Some(i) => cs[i].count as int,
        None => 0,
    }
}

/// The log after one more completion of habit `id` on day `day`: the
/// day's entry counts one more, or a new entry with count 1 is appended.
pub open spec fn ticked(cs: Seq<Completion>, id: u128, day: i32) -> Seq<Completion> {
    match first_entry(cs, id, day as int) {
        Some(i) => cs.update(i, Completion { count: (cs[i].count + 1) as u32, ..cs[i] }),
        None => cs.push(Completion { habit_id: id, date: day, count: 1 }),
    }
}

/// Sum of the counts of habit `id` over the whole log.
pub open spec fn total_count(cs: Seq<Completion>, id: u128) -> int
    decreases cs.len(),
{
    if cs.len() == 0 {
        0
    } else {
        total_count(cs.drop_last(), id) + (if cs.last().habit_id == id {
            cs.last().count as int
        } else {
            0
        })
    }
}

proof fn lemma_first_entry_is(cs: Seq<Completion>, id: u128, day: int, i: int)
    requires
        is_first_entry(cs, id, day, i),
    ensures
        first_entry(cs, id, day) == Some(i),
{
    let k = choose|k: int| is_first_entry(cs, id, day, k);
    if k < i {
        assert(!(cs[k].habit_id == id && cs[k].date == day));
    } else if i < k {
        assert(!(cs[i].habit_id == id && cs[i].date == day));
    }
}

proof fn lemma_some_entry_has_first(cs: Seq<Completion>, id: u128, day: int, j: int)
    requires
        0 <= j < cs.len(),
        cs[j].habit_id == id,
        cs[j].date == day,
    ensures
        first_entry(cs, id, day) is Some,
    decreases j,
{
    if exists|k: int| 0 <= k < j && (#[trigger] cs[k]).habit_id == id && cs[k].date == day {
        let k = choose|k: int| 0 <= k < j && (#[trigger] cs[k]).habit_id == id && cs[k].date == day;
        lemma_some_entry_has_first(cs, id, day, k);
    } else {
        assert(is_first_entry(cs, id, day, j));
    }
}

proof fn lemma_total_count_prefix(cs: Seq<Completion>, id: u128, i: int)
    requires
        0 <= i <= cs.len(),
    ensures
        0 <= total_count(cs.take(i), id) <= total_count(cs, id),
    decreases cs.len(),
{
    if i < cs.len() {
        lemma_total_count_prefix(cs.drop_last(), id, i);
        assert(cs.drop_last().take(i) == cs.take(i));
    } else {
        assert(cs.take(i) == cs);
        lemma_total_count_nonneg(cs, id);
    }
}

proof fn lemma_total_count_nonneg(cs: Seq<Completion>, id: u128)
    ensures
        total_count(cs, id) >= 0,
    decreases cs.len(),
{
    if cs.len() > 0 {
        lemma_total_count_nonneg(cs.drop_last(), id);
    }
}

proof fn lemma_total_count_update(cs: Seq<Completion>, id: u128, i: int, c: Completion)
    requires
        0 <= i < cs.len(),
        cs[i].habit_id == id,
        c.habit_id == id,
        c.count == cs[i].count + 1,
    ensures
        total_count(cs.update(i, c), id) == total_count(cs, id) + 1,
    decreases cs.len(),
{
    let u = cs.update(i, c);
    if i == cs.len() - 1 {
        assert(u.drop_last() == cs.drop_last());
    } else {
        lemma_total_count_update(cs.drop_last(), id, i, c);
        assert(u.drop_last() == cs.drop_last().update(i, c));
    }
}

/// One more completion adds one to the day's count and to the habit's
/// total, and leaves every other habit's total as it was.
pub proof fn law_tick_counts_one(cs: Seq<Completion>, id: u128, day: i32, other: u128)
    requires
        count_on(cs, id, day as int) < u32::MAX,
        other != id,
    ensures
        count_on(ticked(cs, id, day), id, day as int) == count_on(cs, id, day as int) + 1,
        total_count(ticked(cs, id, day), id) == total_count(cs, id) + 1,
        total_count(ticked(cs, id, day), other) == total_count(cs, other),
{
    let t = ticked(cs, id, day);
    match first_entry(cs, id, day as int) {
        Some(i) => {
            let k = choose|k: int| is_first_entry(cs, id, day as int, k);
            assert(is_first_entry(cs, id, day as int, i));
            let c = Completion { count: (cs[i].count + 1) as u32, ..cs[i] };
            assert(is_first_entry(t, id, day as int, i)) by {
                assert forall|j: int| 0 <= j < i implies !((#[trigger] t[j]).habit_id == id && t[j].date == day) by {
                    assert(t[j] == cs[j]);
                }
            }
            lemma_first_entry_is(t, id, day as int, i);
            lemma_total_count_update(cs, id, i, c);
            lemma_total_count_update_other(cs, id, other, i, c);
        },
        None => {
            let n = cs.len() as int;
            assert forall|j: int| 0 <= j < n implies !((#[trigger] t[j]).habit_id == id && t[j].date == day) by {
                assert(t[j] == cs[j]);
                if cs[j].habit_id == id && cs[j].date == day {
                    lemma_some_entry_has_first(cs, id, day as int, j);
                }
            }
            assert(is_first_entry(t, id, day as int, n));
            lemma_first_entry_is(t, id, day as int, n);
            assert(t.drop_last() == cs);
        },
    }
}

proof fn lemma_total_count_update_other(cs: Seq<Completion>, id: u128, other: u128, i: int, c: Completion)
    requires
        0 <= i < cs.len(),
        cs[i].habit_id == id,
        c.habit_id == id,
        other != id,
    ensures
        total_count(cs.update(i, c), other) == total_count(cs, other),
    decreases cs.len(),
{
    let u = cs.update(i, c);
    if i == cs.len() - 1 {
        assert(u.drop_last() == cs.drop_last());
    } else {
        lemma_total_count_update_other(cs.drop_last(), id, other, i, c);
        assert(u.drop_last() == cs.drop_last().update(i, c));
    }
}

/// Position of the first log entry of habit `id` on day `day`.
fn find_entry(cs: &Vec<Completion>, id: u128, day: i32) -> (r: Option<usize>)
    ensures
        match r {
            Some(i) => first_entry(cs@, id, day as int) == Some(i as int),
            None => first_entry(cs@, id, day as int) is None,
        },
{
    let mut i: usize = 0;
    while i < cs.len()
        invariant
            0 <= i <= cs@.len(),
            forall|j: int| 0 <= j < i ==> !((#[trigger] cs@[j]).habit_id == id && cs@[j].date == day),
        decreases cs@.len() - i,
    {
        if cs[i].habit_id == id && cs[i].date == day {
            proof {
                lemma_first_entry_is(cs@, id, day as int, i as int);
            }
            return Some(i);
        }
        i = i + 1;
    }
    assert(!exists|k: int| is_first_entry(cs@, id, day as int, k)) by {
        if exists|k: int| is_first_entry(cs@, id, day as int, k) {
            let k = choose|k: int| is_first_entry(cs@, id, day as int, k);
            assert(!(cs@[k].habit_id == id && cs@[k].date == day));
        }
    }
    None
}

/// Record one more completion of habit `id` on day `day`. Returns whether
/// the day already had an entry.
fn record_tick(cs: &mut Vec<Completion>, id: u128, day: i32) -> (existed: bool)
    requires
        count_on(old(cs)@, id, day as int) < u32::MAX,
    ensures
        final(cs)@ == ticked(old(cs)@, id, day),
        existed == first_entry(old(cs)@, id, day as int) is Some,
{
    match find_entry(cs, id, day) {
        Some(i) => {
            let mut c = cs[i];
            c.count = c.count + 1;
            cs.set(i, c);
            true
        },
        None => {
            cs.push(Completion { habit_id: id, date: day, count: 1 });
            false
        },
    }
}

/// Sum of the counts of habit `id` over the log.
fn total_count_of(cs: &Vec<Completion>, id: u128) -> (total: u32)
    requires
        total_count(cs@, id) <= u32::MAX,
    ensures
        total == total_count(cs@, id),
{
    let mut total: u32 = 0;
    let mut i: usize = 0;
    while i < cs.len()
        invariant
            0 <= i <= cs@.len(),
            total_count(cs@, id) <= u32::MAX,
            total == total_count(cs@.take(i as int), id),
        decreases cs@.len() - i,
    {
        proof {
            assert(cs@.take(i + 1).drop_last() == cs@.take(i as int));
            lemma_total_count_prefix(cs@, id, i + 1);
        }
        if cs[i].habit_id == id {
            total = total + cs[i].count;
        }
        i = i + 1;
    }
    assert(cs@.take(cs@.len() as int) == cs@);
    total
}

// ---------------------------------------------------------------------
// One completion: coins, longest streak, milestones
// ---------------------------------------------------------------------

/// Coins a completion of habit `id` earns: the first such habit's coin
/// reward, or 1 when there is no such habit.
pub open spec fn coin_reward_of(hs: Seq<Habit>, id: u128) -> u32 {
    match first_habit(hs, id) {
        Some(i) => hs[i].coin_reward,
        None => 1,
    }
}

/// The habits after the first habit with identifier `id` reached a
/// current streak of `streak`: its longest streak is raised to it.
pub open spec fn raised_longest(hs: Seq<Habit>, id: u128, streak: u32) -> Seq<Habit> {
    match first_habit(hs, id) {
        Some(i) => if streak > hs[i].longest_streak {
            hs.update(i, Habit { longest_streak: streak, ..hs[i] })
        } else {
            hs
        },
        None => hs,
    }
}

/// Bonus coins for claiming a milestone of tier `t`.
pub open spec fn milestone_bonus(t: RewardTier) -> int {
    match t {
        RewardTier::Small => 5,
        RewardTier::Medium => 10,
        RewardTier::Jackpot => 25,
        _ => 0,
    }
}

/// The ledger note of a milestone bonus, e.g. `Milestone: Streak(0)`.
pub open spec fn milestone_note(kind: MilestoneKind) -> Seq<char> {
    match kind {
        MilestoneKind::Streak(i) => "Milestone: Streak("@ + decimal(i as nat) + ")"@,
        MilestoneKind::Completion(i) => "Milestone: Completion("@ + decimal(i as nat) + ")"@,
    }
}

/// The milestone a check of habit `id`'s tracker claims first, if the
/// habit has a tracker.
pub open spec fn claimed_kind(
    trackers: Map<u128, MilestoneTracker>,
    id: u128,
    streak: u32,
    total: u32,
) -> Option<MilestoneKind> {
    if trackers.contains_key(id) {
        newly_claimed_kind(
            trackers[id].claimed_streak_tiers@,
            trackers[id].claimed_completion_tiers@,
            streak,
            total,
        )
    } else {
        None
    }
}

/// The ledger postings of a milestone claim: its bonus, when there is one.
pub open spec fn bonus_postings(kind: Option<MilestoneKind>) -> Seq<Posting> {
    match kind {
        Some(k) => if milestone_bonus(milestone_tier_of(k)) > 0 {
            seq![
                (
                    TransactionKind::Earn(milestone_bonus(milestone_tier_of(k)) as u32),
                    milestone_bonus(milestone_tier_of(k)),
                    milestone_note(k),
                ),
            ]
        } else {
            Seq::empty()
        },
        None => Seq::empty(),
    }
}

/// The trackers after checking habit `id`'s milestones at `streak` days
/// and `total` completions: that tracker has claimed every tier reached,
/// the others are untouched.
pub open spec fn trackers_after_check(
    before: Map<u128, MilestoneTracker>,
    after: Map<u128, MilestoneTracker>,
    id: u128,
    streak: u32,
    total: u32,
) -> bool {
    if before.contains_key(id) {
        &&& after == before.insert(id, after[id])
        &&& after[id].claimed_streak_tiers@ == claimed_after(before[id].claimed_streak_tiers@, true, streak)
        &&& after[id].claimed_completion_tiers@ == claimed_after(before[id].claimed_completion_tiers@, false, total)
    } else {
        after == before
    }
}

/// The state after one more completion of habit `id` on day `today`: the
/// log is ticked; the habit's coin reward is earned ("Habit tick"); with
/// the current streak taken as at least one day, the habit's longest
/// streak is raised to it and its milestones are checked against it and
/// the new total, any claimed milestone's bonus being earned too. Nothing
/// else changes.
pub open spec fn tick_outcome(before: AppState, after: AppState, id: u128, today: i32) -> bool {
    let cs = ticked(before.completions@, id, today);
    let total = total_count(cs, id) as u32;
    let reward = coin_reward_of(before.habits@, id);
    &&& after.completions@ == cs
    &&& exists|r: StreakData|
        #[trigger] streak_matches(habit_days(cs, id), today as int, r) && {
            let streak = if r.current_streak_days == 0 {
                1u32
            } else {
                r.current_streak_days
            };
            &&& after.habits@ == raised_longest(before.habits@, id, streak)
            &&& trackers_after_check(before.milestone_trackers@, after.milestone_trackers@, id, streak, total)
            &&& posted(
                before.coin_balance,
                after.coin_balance,
                seq![(TransactionKind::Earn(reward), reward as int, "Habit tick"@)]
                    + bonus_postings(claimed_kind(before.milestone_trackers@, id, streak, total)),
            )
        }
    &&& after == (AppState {
        completions: after.completions,
        habits: after.habits,
        milestone_trackers: after.milestone_trackers,
        coin_balance: after.coin_balance,
        ..before
    })
}

/// What a completion of habit `id` asks of the state: room in the counts,
/// the log and the balance.
pub open spec fn tick_fits(s: AppState, id: u128, today: i32) -> bool {
    &&& count_on(s.completions@, id, today as int) < u32::MAX
    &&& s.completions@.len() < u32::MAX
    &&& total_count(s.completions@, id) < u32::MAX
    &&& s.coin_balance.balance + coin_reward_of(s.habits@, id) + 25 <= i64::MAX
}

/// Coin reward of the first habit with identifier `id`, or 1.
fn coin_reward_for(habits: &Vec<Habit>, id: u128) -> (r: u32)
    ensures
        r == coin_reward_of(habits@, id),
{
    match find_habit(habits, id) {
        Some(i) => habits[i].coin_reward,
        None => 1,
    }
}

/// Raise the longest streak of the first habit with identifier `id`.
fn raise_longest_streak(habits: &mut Vec<Habit>, id: u128, streak: u32)
    ensures
        final(habits)@ == raised_longest(old(habits)@, id, streak),
{
    if let Some(i) = find_habit(habits, id) {
        if streak > habits[i].longest_streak {
            let mut h = habits.remove(i);
            h.longest_streak = streak;
            habits.insert(i, h);
            assert(habits@ =~= old(habits)@.update(i as int, Habit { longest_streak: streak, ..old(habits)@[i as int] }));
        }
    }
}

/// The ledger note of a milestone bonus.
fn milestone_note_text(kind: MilestoneKind) -> (s: String)
    ensures
        s@ == milestone_note(kind),
{
    let mut s = match kind {
        MilestoneKind::Streak(_) => String::from_str("Milestone: Streak("),
        MilestoneKind::Completion(_) => String::from_str("Milestone: Completion("),
    };
    let i = match kind {
        MilestoneKind::Streak(i) => i,
        MilestoneKind::Completion(i) => i,
    };
    push_decimal(&mut s, i as u64);
    s.append(")");
    s
}

/// Check the milestones of habit `id`, if it has a tracker, and earn the
/// bonus of the milestone claimed first.
fn claim_milestone_bonus(
    trackers: &mut HashMap<u128, MilestoneTracker>,
    coins: &mut CoinBalance,
    id: u128,
    streak: u32,
    total: u32,
)
    requires
        old(coins).balance + 25 <= i64::MAX,
    ensures
        trackers_after_check(old(trackers)@, final(trackers)@, id, streak, total),
        posted(*old(coins), *final(coins), bonus_postings(claimed_kind(old(trackers)@, id, streak, total))),
        ledger_consistent(*old(coins)) ==> ledger_consistent(*final(coins)),
{
    proof {
        lemma_posted_nothing(*coins);
    }
    match trackers.remove(&id) {
        Some(mut tracker) => {
            let result = rewards::check_milestones(&mut tracker, streak, total);
            if let Some(kind) = result.newly_claimed {
                let tier = rewards::get_milestone_tier(kind);
                let bonus: u32 = match tier {
                    RewardTier::Small => 5,
                    RewardTier::Medium => 10,
                    RewardTier::Jackpot => 25,
                    RewardTier::ExtraRoll | RewardTier::NoMatch => 0,
                };
                if bonus > 0 {
                    let ghost before = *coins;
                    let note = milestone_note_text(kind);
                    economy::earn(coins, bonus, note);
                    proof {
                        lemma_posted_then_appended(before, before, *coins, Seq::empty(), TransactionKind::Earn(bonus), bonus as int, note);
                        assert(Seq::<Posting>::empty().push((TransactionKind::Earn(bonus), bonus as int, note@))
                            =~= bonus_postings(claimed_kind(old(trackers)@, id, streak, total)));
                    }
                }
            }
            let _ = trackers.insert(id, tracker);
            assert(trackers@ =~= old(trackers)@.insert(id, trackers@[id]));
        },
        None => {
            assert(trackers@ =~= old(trackers)@);
        },
    }
}

impl AppState {
    /// Record one more completion of habit `habit_id` on day `today`, earn
    /// its coins, raise its longest streak and claim its milestones.
    /// Always additive, no toggle or undo.
    pub fn increment_habit_completion_on(&mut self, habit_id: u128, today: i32)
        requires
            tick_fits(*old(self), habit_id, today),
        ensures
            tick_outcome(*old(self), *final(self), habit_id, today),
            count_on(final(self).completions@, habit_id, today as int)
                == count_on(old(self).completions@, habit_id, today as int) + 1,
            total_count(final(self).completions@, habit_id) == total_count(old(self).completions@, habit_id) + 1,
            ledger_consistent(old(self).coin_balance) ==> ledger_consistent(final(self).coin_balance),
    {
        let _ = record_tick(&mut self.completions, habit_id, today);
        proof {
            law_tick_counts_one(old(self).completions@, habit_id, today, if habit_id == 0 { 1u128 } else { 0u128 });
        }

        let streak = streaks::compute_streak_on(habit_id, self.completions.as_slice(), today);
        let current_streak: u32 = if streak.current_streak_days == 0 {
            1
        } else {
            streak.current_streak_days
        };

        let reward = coin_reward_for(&self.habits, habit_id);
        let ghost before = self.coin_balance;
        economy::on_habit_tick(&mut self.coin_balance, reward);
        let ghost mid = self.coin_balance;
        proof {
            lemma_posted_nothing(before);
            let note = mid.transactions@.last().note;
            lemma_posted_then_appended(before, before, mid, Seq::empty(), TransactionKind::Earn(reward), reward as int, note);
            assert(Seq::<Posting>::empty().push((TransactionKind::Earn(reward), reward as int, note@))
                =~= seq![(TransactionKind::Earn(reward), reward as int, "Habit tick"@)]);
        }

        raise_longest_streak(&mut self.habits, habit_id, current_streak);

        let total = total_count_of(&self.completions, habit_id);
        claim_milestone_bonus(&mut self.milestone_trackers, &mut self.coin_balance, habit_id, current_streak, total);
        proof {
            let first = seq![(TransactionKind::Earn(reward), reward as int, "Habit tick"@)];
            let bonus = bonus_postings(claimed_kind(old(self).milestone_trackers@, habit_id, current_streak, total));
            lemma_posted_concat(before, mid, self.coin_balance, first, bonus);
            assert(streak_matches(habit_days(self.completions@, habit_id), today as int, streak));
        }
    }
}

/// Whether some global reward has tier `tier`.
fn has_reward_of_tier(rewards: &Vec<GlobalReward>, tier: GlobalRewardTier) -> (b: bool)
    ensures
        b == has_global_tier(rewards@, tier),
{
    let mut i: usize = 0;
    while i < rewards.len()
        invariant
            0 <= i <= rewards@.len(),
            forall|j: int| 0 <= j < i ==> (#[trigger] rewards@[j]).tier != tier,
        decreases rewards@.len() - i,
    {
        if rewards[i].tier == tier {
            return true;
        }
        i = i + 1;
    }
    false
}

/// What the milestone progress of habit `id` reports at `streak` days and
/// `total` completions, checked against a copy of its tracker (an empty
/// one when the habit has none): the milestone a check would claim first
/// and the next goal of each track once every reached tier is claimed.
pub open spec fn progress_matches(
    trackers: Map<u128, MilestoneTracker>,
    id: u128,
    streak: u32,
    total: u32,
    result: MilestoneCheckResult,
) -> bool {
    let sc = if trackers.contains_key(id) {
        trackers[id].claimed_streak_tiers@
    } else {
        Set::<usize>::empty()
    };
    let cc = if trackers.contains_key(id) {
        trackers[id].claimed_completion_tiers@
    } else {
        Set::<usize>::empty()
    };
    &&& result.newly_claimed == newly_claimed_kind(sc, cc, streak, total)
    &&& is_next_goal(claimed_after(sc, true, streak), true, result.next_streak_goal)
    &&& is_next_goal(claimed_after(cc, false, total), false, result.next_completion_goal)
}

impl AppState {
    /// Record one more completion of habit `habit_id` today (UTC); see
    /// `increment_habit_completion_on`.
    pub fn increment_habit_completion(&mut self, habit_id: u128)
        requires
            forall|day: i32| #[trigger] count_on(old(self).completions@, habit_id, day as int) < u32::MAX,
            old(self).completions@.len() < u32::MAX,
            total_count(old(self).completions@, habit_id) < u32::MAX,
            old(self).coin_balance.balance + coin_reward_of(old(self).habits@, habit_id) + 25 <= i64::MAX,
        ensures
            exists|today: i32| #[trigger] tick_outcome(*old(self), *final(self), habit_id, today),
            total_count(final(self).completions@, habit_id) == total_count(old(self).completions@, habit_id) + 1,
            ledger_consistent(old(self).coin_balance) ==> ledger_consistent(final(self).coin_balance),
    {
        let today = clock::today_day_number();
        assert(count_on(self.completions@, habit_id, today as int) < u32::MAX);
        self.increment_habit_completion_on(habit_id, today);
    }

    /// Today's count of habit `habit_id`, as of day `today`.
    pub fn get_today_count_on(&self, habit_id: u128, today: i32) -> (n: u32)
        ensures
            n == count_on(self.completions@, habit_id, today as int),
    {
        match find_entry(&self.completions, habit_id, today) {
            Some(i) => self.completions[i].count,
            None => 0,
        }
    }

    /// Today's (UTC) completion count for a habit.
    pub fn get_today_count(&self, habit_id: u128) -> (n: u32)
        ensures
            exists|today: i32| n == #[trigger] count_on(self.completions@, habit_id, today as int),
    {
        let today = clock::today_day_number();
        self.get_today_count_on(habit_id, today)
    }

    /// Whether habit `habit_id` has a completion on day `today`.
    pub fn is_completed_on(&self, habit_id: u128, today: i32) -> (b: bool)
        ensures
            b == first_entry(self.completions@, habit_id, today as int) is Some,
    {
        find_entry(&self.completions, habit_id, today).is_some()
    }

    /// Whether a habit is completed today (UTC).
    pub fn is_completed_today(&self, habit_id: u128) -> (b: bool)
        ensures
            exists|today: i32| b == (#[trigger] first_entry(self.completions@, habit_id, today as int)) is Some,
    {
        let today = clock::today_day_number();
        self.is_completed_on(habit_id, today)
    }

    /// Total lifetime completion count (sum of all counts) of a habit.
    pub fn get_total_completions(&self, habit_id: u128) -> (total: u32)
        requires
            total_count(self.completions@, habit_id) <= u32::MAX,
        ensures
            total == total_count(self.completions@, habit_id),
    {
        total_count_of(&self.completions, habit_id)
    }

    /// Number of log entries (days) of a habit, as a `u32`.
    pub fn get_total_days_done(&self, habit_id: u128) -> (n: u32)
        ensures
            n == habit_days(self.completions@, habit_id).len() as u32,
    {
        let ghost pred = |c: Completion| c.habit_id == habit_id;
        let mut count: usize = 0;
        let mut i: usize = 0;
        while i < self.completions.len()
            invariant
                0 <= i <= self.completions@.len(),
                pred == (|c: Completion| c.habit_id == habit_id),
                count == self.completions@.take(i as int).filter(pred).len(),
                count <= i,
            decreases self.completions@.len() - i,
        {
            proof {
                assert(self.completions@.take(i + 1) == self.completions@.take(i as int).push(self.completions@[i as int]));
                self.completions@.take(i as int).lemma_filter_push(self.completions@[i as int], pred);
            }
            if self.completions[i].habit_id == habit_id {
                count = count + 1;
            }
            i = i + 1;
        }
        assert(self.completions@.take(self.completions@.len() as int) == self.completions@);
        #[verifier::truncate]
        (count as u32)
    }

    /// Streak data of a habit as seen today (UTC).
    pub fn get_streak(&self, habit_id: u128) -> (r: StreakData)
        requires
            self.completions@.len() <= u32::MAX,
        ensures
            exists|today: i32| #[trigger] streak_matches(habit_days(self.completions@, habit_id), today as int, r),
            r.current_streak_days <= r.max_streak_days,
    {
        streaks::compute_streak(habit_id, self.completions.as_slice())
    }

    /// Milestone progress of a habit as of day `today`, checked on a copy of
    /// its tracker so that nothing is claimed.
    pub fn get_milestone_progress_on(&self, habit_id: u128, today: i32) -> (result: MilestoneCheckResult)
        requires
            self.completions@.len() <= u32::MAX,
            total_count(self.completions@, habit_id) <= u32::MAX,
        ensures
            exists|r: StreakData|
                #[trigger] streak_matches(habit_days(self.completions@, habit_id), today as int, r)
                    && progress_matches(
                    self.milestone_trackers@,
                    habit_id,
                    r.current_streak_days,
                    total_count(self.completions@, habit_id) as u32,
                    result,
                ),
    {
        let mut tracker = match self.milestone_trackers.get(&habit_id) {
            Some(t) => t.duplicate(),
            None => MilestoneTracker::default(),
        };
        let streak = streaks::compute_streak_on(habit_id, self.completions.as_slice(), today);
        let total = total_count_of(&self.completions, habit_id);
        let result = rewards::check_milestones(&mut tracker, streak.current_streak_days, total);
        assert(streak_matches(habit_days(self.completions@, habit_id), today as int, streak));
        result
    }

    /// Milestone progress of a habit as seen today (UTC), without claiming.
    pub fn get_milestone_progress(&self, habit_id: u128) -> (result: MilestoneCheckResult)
        requires
            self.completions@.len() <= u32::MAX,
            total_count(self.completions@, habit_id) <= u32::MAX,
        ensures
            exists|today: i32, r: StreakData|
                #[trigger] streak_matches(habit_days(self.completions@, habit_id), today as int, r)
                    && progress_matches(
                    self.milestone_trackers@,
                    habit_id,
                    r.current_streak_days,
                    total_count(self.completions@, habit_id) as u32,
                    result,
                ),
    {
        let today = clock::today_day_number();
        self.get_milestone_progress_on(habit_id, today)
    }
}

// ---------------------------------------------------------------------
// Spinning
// ---------------------------------------------------------------------

/// The ledger note of a bet, e.g. `Bet 2 coins`.
pub open spec fn bet_note(bet: u32) -> Seq<char> {
    "Bet "@ + decimal(bet as nat) + " coins"@
}

/// The note shown for a slot tier when no global reward of its tier
/// exists, e.g. `Medium reward`.
pub open spec fn fallback_note(t: RewardTier) -> Seq<char> {
    match t {
        RewardTier::Small => "Small reward"@,
        RewardTier::Medium => "Medium reward"@,
        RewardTier::Jackpot => "Jackpot reward"@,
        RewardTier::ExtraRoll => "ExtraRoll reward"@,
        RewardTier::NoMatch => "None reward"@,
    }
}

/// The global reward tier a given slot tier is paid from (Low for a tier
/// that has none).
pub open spec fn paid_from(t: RewardTier) -> GlobalRewardTier {
    match global_tier_of(t) {
        Some(g) => g,
        None => GlobalRewardTier::Low,
    }
}

/// `note` names the reward given for slot tier `given`: the name of some
/// global reward of the matching tier, or the tier's fallback note when
/// there is none.
pub open spec fn reward_note_names(note: Seq<char>, given: RewardTier, rewards: Seq<GlobalReward>) -> bool {
    if has_global_tier(rewards, paid_from(given)) {
        exists|i: int|
            0 <= i < rewards.len() && (#[trigger] rewards[i]).tier == paid_from(given) && rewards[i].name@ == note
    } else {
        note == fallback_note(given)
    }
}

/// `res` is a settled spin at `bet` against the global rewards `rewards`:
/// its reel fields agree with its grid; a losing spin carries no reward;
/// a winning one carries the reward of the bet-scaled table, with a
/// `+N coins` note for an ExtraRoll and otherwise the name of a global
/// reward of the given tier.
pub open spec fn spin_settled(res: SpinResult, bet: u32, rewards: Seq<GlobalReward>) -> bool {
    let given = reward_for(
        res.tier,
        bet,
        has_global_tier(rewards, GlobalRewardTier::Medium),
        has_global_tier(rewards, GlobalRewardTier::Jackpot),
    );
    &&& resolves_reels(res, res.reels, bet)
    &&& if res.tier == RewardTier::NoMatch {
        res.reward_tier_given is None && res.reward_note@ == Seq::<char>::empty()
    } else {
        &&& res.reward_tier_given == given.0
        &&& res.payout_coins == given.1
        &&& if res.tier == RewardTier::ExtraRoll {
            res.reward_note@ == "+"@ + decimal(given.1 as nat) + " coins"@
        } else {
            res.reward_tier_given matches Some(g) && reward_note_names(res.reward_note@, g, rewards)
        }
    }
}

/// The ledger postings of a spin: the bet, then an ExtraRoll's winnings.
pub open spec fn spin_postings(bet: u32, tier: RewardTier) -> Seq<Posting> {
    seq![(TransactionKind::Spend(bet), -(bet as int), bet_note(bet))] + if tier == RewardTier::ExtraRoll {
        seq![(TransactionKind::Earn((bet + 1) as u32), bet + 1, "Slot win: ExtraRoll"@)]
    } else {
        Seq::empty()
    }
}

/// The text of a tier's fallback note.
fn fallback_note_text(t: RewardTier) -> (s: String)
    ensures
        s@ == fallback_note(t),
{
    match t {
        RewardTier::Small => String::from_str("Small reward"),
        RewardTier::Medium => String::from_str("Medium reward"),
        RewardTier::Jackpot => String::from_str("Jackpot reward"),
        RewardTier::ExtraRoll => String::from_str("ExtraRoll reward"),
        RewardTier::NoMatch => String::from_str("None reward"),
    }
}

/// The note for a given slot tier: a random global reward of its tier, or
/// the fallback note.
fn reward_note_for(given: RewardTier, rewards: &Vec<GlobalReward>) -> (note: String)
    ensures
        reward_note_names(note@, given, rewards@),
{
    let global_tier = match AppState::slot_tier_to_global(given) {
        Some(t) => t,
        None => GlobalRewardTier::Low,
    };
    match rewards::select_global_reward_by_tier(rewards, global_tier) {
        Some(selected) => selected.name,
        None => fallback_note_text(given),
    }
}

impl AppState {
    /// Convert a slot tier to the global reward tier it is paid from.
    fn slot_tier_to_global(tier: RewardTier) -> (g: Option<GlobalRewardTier>)
        ensures
            g == global_tier_of(tier),
    {
        match tier {
            RewardTier::Small => Some(GlobalRewardTier::Low),
            RewardTier::Medium => Some(GlobalRewardTier::Medium),
            RewardTier::Jackpot => Some(GlobalRewardTier::Jackpot),
            _ => None,
        }
    }

    /// Execute a slot spin with pity tracking and the coin economy: take
    /// the bet (refusing an overdraw, which changes nothing), spin, attach
    /// the reward from the global rewards, credit an ExtraRoll's winnings,
    /// and prepare the reel animation.
    pub fn execute_spin(&mut self, bet: u32) -> (r: Option<SpinResult>)
        requires
            old(self).coin_balance.balance >= bet ==> bet < u32::MAX && old(self).coin_balance.balance < i64::MAX,
        ensures
            r is None <==> old(self).coin_balance.balance < bet,
            r is None ==> *final(self) == *old(self),
            r matches Some(res) ==> {
                &&& spin_settled(res, bet, old(self).global_rewards@)
                &&& old(self).pity_counter.consecutive_losses >= PITY_THRESHOLD - 1 ==> res.tier != RewardTier::NoMatch
                &&& old(self).pity_counter.consecutive_losses >= PITY_THRESHOLD - 1 ==> exists|row: int|
                    0 <= row < 3 && #[trigger] is_win_row(res.reels, row) && tier_of(res.reels[0][row])
                        == RewardTier::Small
                &&& final(self).pity_counter.consecutive_losses == pity_step(
                    old(self).pity_counter.consecutive_losses,
                    res.tier != RewardTier::NoMatch || res.payout_coins > 0,
                ).0
                &&& posted(old(self).coin_balance, final(self).coin_balance, spin_postings(bet, res.tier))
                &&& final(self).last_spin_result matches Some(last) && last.same_as(&res)
                &&& final(self).animation_strips matches Some(strips) && strips_end_with(strips, res.reels)
                &&& *final(self) == (AppState {
                    coin_balance: final(self).coin_balance,
                    pity_counter: final(self).pity_counter,
                    last_spin_result: final(self).last_spin_result,
                    is_spinning: true,
                    animation_strips: final(self).animation_strips,
                    reels_stopped: 0,
                    ..*old(self)
                })
            },
            ledger_consistent(old(self).coin_balance) ==> ledger_consistent(final(self).coin_balance),
    {
        let mut bet_text = String::from_str("Bet ");
        push_decimal(&mut bet_text, bet as u64);
        bet_text.append(" coins");
        let ghost start = self.coin_balance;
        if !economy::spend(&mut self.coin_balance, bet, bet_text) {
            return None;
        }
        let ghost after_bet = self.coin_balance;
        proof {
            lemma_posted_nothing(start);
            lemma_posted_then_appended(start, start, after_bet, Seq::empty(), TransactionKind::Spend(bet), -(bet as int), bet_text);
            assert(Seq::<Posting>::empty().push((TransactionKind::Spend(bet), -(bet as int), bet_text@))
                =~= seq![(TransactionKind::Spend(bet), -(bet as int), bet_note(bet))]);
        }

        let mut losses = self.pity_counter.consecutive_losses;
        let mut result = slot::spin_with_state(&mut losses, bet);
        self.pity_counter.consecutive_losses = losses;
        let ghost base = result;

        if result.tier != RewardTier::NoMatch {
            let has_medium = has_reward_of_tier(&self.global_rewards, GlobalRewardTier::Medium);
            let has_high = has_reward_of_tier(&self.global_rewards, GlobalRewardTier::Jackpot);
            let (reward_tier, payout_coins) = slot::resolve_reward(result.tier, bet, has_medium, has_high);
            result.payout_coins = payout_coins;
            result.reward_tier_given = reward_tier;

            if result.tier == RewardTier::ExtraRoll {
                let win_text = String::from_str("Slot win: ExtraRoll");
                economy::earn(&mut self.coin_balance, payout_coins, win_text);
                proof {
                    lemma_posted_then_appended(
                        start,
                        after_bet,
                        self.coin_balance,
                        seq![(TransactionKind::Spend(bet), -(bet as int), bet_note(bet))],
                        TransactionKind::Earn(payout_coins),
                        payout_coins as int,
                        win_text,
                    );
                    assert(seq![(TransactionKind::Spend(bet), -(bet as int), bet_note(bet))].push(
                        (TransactionKind::Earn(payout_coins), payout_coins as int, win_text@),
                    ) =~= spin_postings(bet, result.tier));
                }
                let mut note = String::from_str("+");
                push_decimal(&mut note, payout_coins as u64);
                note.append(" coins");
                result.reward_note = note;
            } else {
                if let Some(given) = reward_tier {
                    result.reward_note = reward_note_for(given, &self.global_rewards);
                }
                assert(seq![(TransactionKind::Spend(bet), -(bet as int), bet_note(bet))] =~= spin_postings(bet, result.tier));
            }
        } else {
            assert(seq![(TransactionKind::Spend(bet), -(bet as int), bet_note(bet))] =~= spin_postings(bet, result.tier));
        }

        self.prepare_animation(&result);
        self.last_spin_result = Some(result.duplicate());
        Some(result)
    }

    /// Prepare animation strips for a spin result. Called before reels
    /// start animating.
    pub fn prepare_animation(&mut self, spin_result: &SpinResult)
        ensures
            final(self).animation_strips matches Some(strips) && strips_end_with(strips, spin_result.reels),
            *final(self) == (AppState {
                animation_strips: final(self).animation_strips,
                is_spinning: true,
                reels_stopped: 0,
                ..*old(self)
            }),
    {
        self.animation_strips = Some(slot::generate_all_animation_strips(spin_result));
        self.is_spinning = true;
        self.reels_stopped = 0;
    }

    /// Mark one reel as stopped. When all three are done, toast the last
    /// result's reward (if it has a note) and clear the animation state.
    pub fn stop_one_reel(&mut self)
        requires
            old(self).is_spinning ==> old(self).reels_stopped < u8::MAX,
        ensures
            !old(self).is_spinning ==> *final(self) == *old(self),
            old(self).is_spinning && old(self).reels_stopped + 1 < 3 ==> *final(self) == (AppState {
                reels_stopped: (old(self).reels_stopped + 1) as u8,
                ..*old(self)
            }),
            old(self).is_spinning && old(self).reels_stopped + 1 >= 3 ==> {
                &&& match old(self).last_spin_result {
                    Some(res) => if res.reward_note@.len() > 0 {
                        &&& final(self).toasts@.len() == old(self).toasts@.len() + 1
                        &&& final(self).toasts@.drop_last() == old(self).toasts@
                        &&& final(self).toasts@.last().symbol_name@ == res.reward_note@
                        &&& final(self).toasts@.last().payout == res.payout_coins
                    } else {
                        final(self).toasts@ == old(self).toasts@
                    },
                    None => final(self).toasts@ == old(self).toasts@,
                }
                &&& *final(self) == (AppState {
                    toasts: final(self).toasts,
                    is_spinning: false,
                    animation_strips: None,
                    reels_stopped: 0,
                    ..*old(self)
                })
            },
    {
        if self.is_spinning {
            self.reels_stopped = self.reels_stopped + 1;
            if self.reels_stopped >= 3 {
                let toast = match &self.last_spin_result {
                    Some(result) => if !result.reward_note.as_str().is_empty() {
                        Some((result.reward_note.clone(), result.payout_coins))
                    } else {
                        None
                    },
                    None => None,
                };
                if let Some((name, payout)) = toast {
                    self.push_toast(name, payout);
                }
                self.is_spinning = false;
                self.animation_strips = None;
                self.reels_stopped = 0;
            }
        }
    }

    /// Reset animation state (e.g., on new spin or cancel).
    pub fn reset_animation(&mut self)
        ensures
            *final(self) == (AppState {
                is_spinning: false,
                animation_strips: None,
                reels_stopped: 0,
                ..*old(self)
            }),
    {
        self.is_spinning = false;
        self.animation_strips = None;
        self.reels_stopped = 0;
    }
}

/// An accepted spin never overdraws: the balance after it is the balance
/// before, less the bet, plus an ExtraRoll's `bet + 1`, and is never
/// negative.
pub proof fn law_spin_never_overdraws(before: CoinBalance, after: CoinBalance, bet: u32, tier: RewardTier)
    requires
        before.balance >= bet,
        posted(before, after, spin_postings(bet, tier)),
    ensures
        after.balance == before.balance - bet + (if tier == RewardTier::ExtraRoll {
            bet + 1
        } else {
            0
        }),
        after.balance >= 0,
{
    let e = spin_postings(bet, tier);
    assert(e[0].1 == -(bet as int));
    assert(economy::postings_total(e, 0) == 0);
    assert(economy::postings_total(e, 1) == -(bet as int));
    if tier == RewardTier::ExtraRoll {
        assert(e[1].1 == bet + 1);
        assert(economy::postings_total(e, 2) == economy::postings_total(e, 1) + e[1].1);
    }
}

/// The detail page of a habit names that habit: the identifier text that
/// `navigate_habit_detail` stores leads `get_habit_name` back to the first
/// habit with that identifier.
pub proof fn law_detail_page_names_its_habit(hs: Seq<Habit>, id: u128, text: Seq<char>)
    requires
        uuid_parsed(text) == Some(id),
    ensures
        habit_name_for(hs, text) == habit_name_by_id(hs, id),
{
}

/// Every milestone claim earns a bonus: 5 coins for a Small milestone, 10
/// for a Medium one and 25 for a Jackpot one, posted with the milestone's
/// note.
pub proof fn law_milestone_claim_pays_bonus(kind: MilestoneKind)
    ensures
        bonus_postings(Some(kind)).len() == 1,
        milestone_tier_of(kind) == RewardTier::Small ==> bonus_postings(Some(kind)) == seq![
            (TransactionKind::Earn(5u32), 5int, milestone_note(kind)),
        ],
        milestone_tier_of(kind) == RewardTier::Medium ==> bonus_postings(Some(kind)) == seq![
            (TransactionKind::Earn(10u32), 10int, milestone_note(kind)),
        ],
        milestone_tier_of(kind) == RewardTier::Jackpot ==> bonus_postings(Some(kind)) == seq![
            (TransactionKind::Earn(25u32), 25int, milestone_note(kind)),
        ],
{
}

/// The note of a settled spin that is given a reward names a global reward
/// of the corresponding tier (Small from Low, Medium from Medium, Jackpot
/// from Jackpot) whenever one exists, and is the tier's fallback note
/// otherwise.
pub proof fn law_spin_note_names_reward_of_given_tier(res: SpinResult, bet: u32, rewards: Seq<GlobalReward>)
    requires
        spin_settled(res, bet, rewards),
        res.tier != RewardTier::NoMatch,
        res.tier != RewardTier::ExtraRoll,
    ensures
        res.reward_tier_given == Some(RewardTier::Small) && has_global_tier(rewards, GlobalRewardTier::Low)
            ==> exists|i: int|
            0 <= i < rewards.len() && (#[trigger] rewards[i]).tier == GlobalRewardTier::Low && rewards[i].name@
                == res.reward_note@,
        res.reward_tier_given == Some(RewardTier::Medium) && has_global_tier(rewards, GlobalRewardTier::Medium)
            ==> exists|i: int|
            0 <= i < rewards.len() && (#[trigger] rewards[i]).tier == GlobalRewardTier::Medium && rewards[i].name@
                == res.reward_note@,
        res.reward_tier_given == Some(RewardTier::Jackpot) && has_global_tier(rewards, GlobalRewardTier::Jackpot)
            ==> exists|i: int|
            0 <= i < rewards.len() && (#[trigger] rewards[i]).tier == GlobalRewardTier::Jackpot && rewards[i].name@
                == res.reward_note@,
        res.reward_tier_given == Some(RewardTier::Small) && !has_global_tier(rewards, GlobalRewardTier::Low)
            ==> res.reward_note@ == "Small reward"@,
        res.reward_tier_given == Some(RewardTier::Medium) && !has_global_tier(rewards, GlobalRewardTier::Medium)
            ==> res.reward_note@ == "Medium reward"@,
        res.reward_tier_given == Some(RewardTier::Jackpot) && !has_global_tier(rewards, GlobalRewardTier::Jackpot)
            ==> res.reward_note@ == "Jackpot reward"@,
{
}

} // verus!
