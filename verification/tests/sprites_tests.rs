use habit_slot::models::SlotSymbol;
use habit_slot::sprites::{
    back_arrow_uri, check_gray_uri, check_green_uri, coin_icon_uri, display_names_match,
    symbol_display_name, symbol_sprite_uri, winning_border_color,
};

#[test]
fn all_symbols_map_to_valid_uris() {
    let symbols = [
        SlotSymbol::Low0,
        SlotSymbol::Low1,
        SlotSymbol::Low2,
        SlotSymbol::Mid0,
        SlotSymbol::Mid1,
        SlotSymbol::High0,
        SlotSymbol::ExtraRoll0,
    ];

    for symbol in &symbols {
        let uri = symbol_sprite_uri(symbol);
        assert!(!uri.is_empty(), "Sprite URI for {:?} is empty", symbol);
        assert!(
            uri.starts_with("data:image/png;base64,"),
            "URI should be a PNG data URI: {:?}",
            symbol
        );
    }
}

#[test]
fn display_names_are_correct() {
    assert_eq!(symbol_display_name(&SlotSymbol::Low0), "Heart");
    assert_eq!(symbol_display_name(&SlotSymbol::Low1), "Heart");
    assert_eq!(symbol_display_name(&SlotSymbol::Low2), "Heart");
    assert_eq!(symbol_display_name(&SlotSymbol::Mid0), "Skull");
    assert_eq!(symbol_display_name(&SlotSymbol::Mid1), "Skull");
    assert_eq!(symbol_display_name(&SlotSymbol::High0), "Chest");
    assert_eq!(symbol_display_name(&SlotSymbol::ExtraRoll0), "ExtraRoll");
}

#[test]
fn coin_icon_returns_data_uri() {
    assert!(coin_icon_uri().starts_with("data:image/png;base64,"));
}

#[test]
fn icon_uris_are_png_data_uris() {
    for uri in [back_arrow_uri(), check_gray_uri(), check_green_uri()] {
        assert!(uri.starts_with("data:image/png;base64,"));
    }
}

#[test]
fn names_match_by_display_name_not_variant() {
    assert!(display_names_match(SlotSymbol::Low0, SlotSymbol::Low2, SlotSymbol::Low1));
    assert!(display_names_match(SlotSymbol::High0, SlotSymbol::High0, SlotSymbol::High0));
    assert!(!display_names_match(SlotSymbol::Mid0, SlotSymbol::Mid1, SlotSymbol::High0));
    // Hearts share one border colour, distinct from the other tiers.
    assert_eq!(winning_border_color(SlotSymbol::Low0), winning_border_color(SlotSymbol::Low2));
    assert_ne!(winning_border_color(SlotSymbol::Low0), winning_border_color(SlotSymbol::High0));
}

#[test]
fn symbol_index_follows_table_order() {
    let symbols = [
        SlotSymbol::Low0,
        SlotSymbol::Low1,
        SlotSymbol::Low2,
        SlotSymbol::Mid0,
        SlotSymbol::Mid1,
        SlotSymbol::High0,
        SlotSymbol::ExtraRoll0,
    ];
    for (i, s) in symbols.iter().enumerate() {
        assert_eq!(s.index(), i);
    }
    assert_eq!(SlotSymbol::Mid1.config().weight, 14);
    assert_eq!(SlotSymbol::High0.config().display_name, "Chest");
}
