//! Per-symbol configuration: display names, tiers, roll weights and images.
//!
//! Every slot symbol has one configuration entry. Symbols that share a
//! display name show the same picture and count as the same symbol when a
//! payline is checked for three of a kind.

use vstd::prelude::*;
use crate::models::{RewardTier, SlotSymbol};

verus! {

/// Prefix shared by every sprite image URI (PNG data URIs).
pub const PNG_DATA_URI_PREFIX: &'static str = "data:image/png;base64,";

/// Image of the heart (Small-tier) symbols.
pub const LOW_HEART_URI: &'static str = "data:image/png;base64,";

/// Image of the skull (Medium-tier) symbols.
pub const MED_SKULL_URI: &'static str = "data:image/png;base64,";

/// Image of the chest (Jackpot) symbol.
pub const HIGH_CHEST_URI: &'static str = "data:image/png;base64,";

/// Image of the ExtraRoll symbol.
pub const EXTRA_ROLL_COINS_URI: &'static str = "data:image/png;base64,";

/// Coin icon shown beside the balance.
pub const GOLD_COINS_URI: &'static str = "data:image/png;base64,";

/// Back-arrow icon of the navigation bar.
pub const BACK_ARROW_URI: &'static str = "data:image/png;base64,";

/// Check mark of a habit not yet done today.
pub const CHECK_GRAY_URI: &'static str = "data:image/png;base64,";

/// Check mark of a habit done today.
pub const CHECK_GREEN_URI: &'static str = "data:image/png;base64,";

/// Per-symbol configuration.
///
/// `weight` is the symbol's share of a roll: a symbol with weight `w` comes
/// up with probability `w / total_weight()`.
#[derive(Clone, Copy)]
pub struct SpriteConfig {
    pub display_name: &'static str,
    pub tier: RewardTier,
    pub weight: u32,
    pub sprite_uri: &'static str,
}

/// Position of a symbol in the configuration table.
pub open spec fn symbol_index(s: SlotSymbol) -> int {
    match s {
        SlotSymbol::Low0 => 0,
        SlotSymbol::Low1 => 1,
        SlotSymbol::Low2 => 2,
        SlotSymbol::Mid0 => 3,
        SlotSymbol::Mid1 => 4,
        SlotSymbol::High0 => 5,
        SlotSymbol::ExtraRoll0 => 6,
    }
}

/// The reward tier a symbol belongs to.
pub open spec fn tier_of(s: SlotSymbol) -> RewardTier {
    match s {
        SlotSymbol::Low0 | SlotSymbol::Low1 | SlotSymbol::Low2 => RewardTier::Small,
        SlotSymbol::Mid0 | SlotSymbol::Mid1 => RewardTier::Medium,
        SlotSymbol::High0 => RewardTier::Jackpot,
        SlotSymbol::ExtraRoll0 => RewardTier::ExtraRoll,
    }
}

/// Roll weight of a symbol (Heart 17/14/11, Skull 22/14, Chest 28, ExtraRoll 34).
pub open spec fn weight_of(s: SlotSymbol) -> int {
    match s {
        SlotSymbol::Low0 => 17,
        SlotSymbol::Low1 => 14,
        SlotSymbol::Low2 => 11,
        SlotSymbol::Mid0 => 22,
        SlotSymbol::Mid1 => 14,
        SlotSymbol::High0 => 28,
        SlotSymbol::ExtraRoll0 => 34,
    }
}

/// Sum of all roll weights.
pub open spec fn spec_total_weight() -> int {
    140
}

/// Which picture a symbol shows: 0 Heart, 1 Skull, 2 Chest, 3 ExtraRoll.
pub open spec fn picture_of(s: SlotSymbol) -> int {
    match tier_of(s) {
        RewardTier::Small => 0,
        RewardTier::Medium => 1,
        RewardTier::Jackpot => 2,
        _ => 3,
    }
}

/// The display name of a symbol.
pub open spec fn display_name_of(s: SlotSymbol) -> Seq<char> {
    match tier_of(s) {
        RewardTier::Small => "Heart"@,
        RewardTier::Medium => "Skull"@,
        RewardTier::Jackpot => "Chest"@,
        _ => "ExtraRoll"@,
    }
}

/// Three symbols form a three-of-a-kind: they share one display name.
pub open spec fn names_match(a: SlotSymbol, b: SlotSymbol, c: SlotSymbol) -> bool {
    display_name_of(a) == display_name_of(b) && display_name_of(b) == display_name_of(c)
}

/// Two symbols share a display name exactly when they show the same picture.
pub proof fn lemma_same_name_iff_same_picture(a: SlotSymbol, b: SlotSymbol)
    ensures
        (display_name_of(a) == display_name_of(b)) <==> (picture_of(a) == picture_of(b)),
{
    reveal_strlit("Heart");
    reveal_strlit("Skull");
    reveal_strlit("Chest");
    reveal_strlit("ExtraRoll");
    if picture_of(a) != picture_of(b) {
        assert(display_name_of(a)[0] != display_name_of(b)[0]);
    }
}

/// Image URI of a symbol's sprite.
pub open spec fn sprite_uri_of(s: SlotSymbol) -> Seq<char> {
    match tier_of(s) {
        RewardTier::Small => LOW_HEART_URI@,
        RewardTier::Medium => MED_SKULL_URI@,
        RewardTier::Jackpot => HIGH_CHEST_URI@,
        _ => EXTRA_ROLL_COINS_URI@,
    }
}

/// Border colour of a winning row, by the matched symbol's tier.
pub open spec fn border_color_of(t: RewardTier) -> Seq<char> {
    match t {
        RewardTier::Small => "#4ade80"@,
        RewardTier::Medium => "#c084fc"@,
        RewardTier::Jackpot => "#fb923c"@,
        RewardTier::ExtraRoll => "#facc15"@,
        RewardTier::NoMatch => "#00f5d4"@,
    }
}

impl SlotSymbol {
    /// Position of this symbol in the configuration table.
    pub fn index(self) -> (i: usize)
        ensures
            i == symbol_index(self),
    {
        match self {
            SlotSymbol::Low0 => 0,
            SlotSymbol::Low1 => 1,
            SlotSymbol::Low2 => 2,
            SlotSymbol::Mid0 => 3,
            SlotSymbol::Mid1 => 4,
            SlotSymbol::High0 => 5,
            SlotSymbol::ExtraRoll0 => 6,
        }
    }

    /// The configuration entry of this symbol.
    pub fn config(self) -> (c: SpriteConfig)
        ensures
            c.display_name@ == display_name_of(self),
            c.tier == tier_of(self),
            c.weight == weight_of(self),
            c.sprite_uri@ == sprite_uri_of(self),
    {
        let i = self.index();
        if i < 3 {
            let w: u32 = if i == 0 { 17 } else if i == 1 { 14 } else { 11 };
            SpriteConfig {
                display_name: "Heart",
                tier: RewardTier::Small,
                weight: w,
                sprite_uri: LOW_HEART_URI,
            }
        } else if i < 5 {
            let w: u32 = if i == 3 { 22 } else { 14 };
            SpriteConfig {
                display_name: "Skull",
                tier: RewardTier::Medium,
                weight: w,
                sprite_uri: MED_SKULL_URI,
            }
        } else if i == 5 {
            SpriteConfig {
                display_name: "Chest",
                tier: RewardTier::Jackpot,
                weight: 28,
                sprite_uri: HIGH_CHEST_URI,
            }
        } else {
            SpriteConfig {
                display_name: "ExtraRoll",
                tier: RewardTier::ExtraRoll,
                weight: 34,
                sprite_uri: EXTRA_ROLL_COINS_URI,
            }
        }
    }
}

/// Which picture a symbol shows (0 Heart, 1 Skull, 2 Chest, 3 ExtraRoll).
pub fn symbol_picture(symbol: SlotSymbol) -> (p: u8)
    ensures
        p == picture_of(symbol),
{
    match symbol.config().tier {
        RewardTier::Small => 0,
        RewardTier::Medium => 1,
        RewardTier::Jackpot => 2,
        _ => 3,
    }
}

pub fn symbol_sprite_uri(symbol: &SlotSymbol) -> (uri: &'static str)
    ensures
        uri@ == sprite_uri_of(*symbol),
{
    symbol.config().sprite_uri
}

pub fn symbol_display_name(symbol: &SlotSymbol) -> (name: &'static str)
    ensures
        name@ == display_name_of(*symbol),
{
    symbol.config().display_name
}

/// Check if three symbols share the same display name (i.e., form a 3-of-a-kind).
pub fn display_names_match(a: SlotSymbol, b: SlotSymbol, c: SlotSymbol) -> (m: bool)
    ensures
        m == names_match(a, b, c),
{
    proof {
        lemma_same_name_iff_same_picture(a, b);
        lemma_same_name_iff_same_picture(b, c);
    }
    let pa = symbol_picture(a);
    let pb = symbol_picture(b);
    let pc = symbol_picture(c);
    pa == pb && pb == pc
}

/// Return the border color hex for a winning row based on the matched symbol's tier.
pub fn winning_border_color(symbol: SlotSymbol) -> (color: &'static str)
    ensures
        color@ == border_color_of(tier_of(symbol)),
{
    match symbol.config().tier {
        RewardTier::Small => "#4ade80",
        RewardTier::Medium => "#c084fc",
        RewardTier::Jackpot => "#fb923c",
        RewardTier::ExtraRoll => "#facc15",
        RewardTier::NoMatch => "#00f5d4",
    }
}

pub fn coin_icon_uri() -> (uri: &'static str)
    ensures
        uri@ == GOLD_COINS_URI@,
{
    GOLD_COINS_URI
}

pub fn back_arrow_uri() -> (uri: &'static str)
    ensures
        uri@ == BACK_ARROW_URI@,
{
    BACK_ARROW_URI
}

pub fn check_gray_uri() -> (uri: &'static str)
    ensures
        uri@ == CHECK_GRAY_URI@,
{
    CHECK_GRAY_URI
}

pub fn check_green_uri() -> (uri: &'static str)
    ensures
        uri@ == CHECK_GREEN_URI@,
{
    CHECK_GREEN_URI
}

} // verus!
