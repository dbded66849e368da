# Habit Slot

A habit tracker whose completions earn coins that are spent on a
three-reel slot machine. The game's rules live in a verified library;
the Dioxus screens and the SQLite storage are an ordinary Rust app around it.

## Layout

- `src/` — the library, verified with Verus:
  - `slot/` — reel rolls by weight, payline matching, the pity counter,
    near misses, the bet-scaled reward table and multi-row resolution;
  - `economy/` — the coin ledger: earn, spend (overdraws refused) and the
    append-only transaction log with its running balances;
  - `streaks/` — current and longest streaks of consecutive days and the
    heatmap colours;
  - `rewards/` — claim-once milestone tracks and reward pools;
  - `state.rs` — the application state and every operation the screens
    perform (completing a habit, spinning, navigation, toasts);
  - `db.rs` — the stored encodings (tier sets as comma-separated indices,
    transaction kinds, reward tiers);
  - `models.rs`, `sprites.rs`, `calendar.rs`, `text.rs` — shared types,
    symbol table, calendar facts and text helpers;
  - `clock.rs`, `rng.rs`, `ids.rs` — the wall clock (through `chrono`) and
    the monotonic clock (through `std::time::Instant`), random draws and
    UUIDs, through `rand` and `uuid`.
- `tests/` — tests of the library.
- `app/` — the Dioxus user interface and the SQLite database layer.
