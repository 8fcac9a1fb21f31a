use puget::macros::{apply_order, MacroId, MacroPresence, MACRO_COUNT};

#[test]
fn macro_ids_round_trip_through_index() {
    for id in MacroId::all() {
        assert_eq!(MacroId::from_index(id.index()), Some(id));
    }
    assert_eq!(MacroId::from_index(MACRO_COUNT), None);
    // `all` is dense and in slot order.
    for (i, id) in MacroId::all().iter().enumerate() {
        assert_eq!(id.index(), i);
    }
}

#[test]
fn macro_names_are_panel_labels() {
    assert_eq!(MacroId::Timbre.name(), "Timbre");
    assert_eq!(MacroId::Articulation.name(), "Articulation");
    assert_eq!(MacroId::Width.name(), "Width");
    assert_eq!(MacroId::from_index(4), Some(MacroId::Chairs));
    assert_eq!(MacroId::Spread.index(), 5);
}

#[test]
fn presence_routes_each_message_to_its_own_macro() {
    let mut p = MacroPresence::new();
    for id in MacroId::all() {
        assert!(!p.is_present(id));
    }
    p.set(MacroId::Width);
    assert!(p.is_present(MacroId::Width));
    for id in MacroId::all() {
        if id != MacroId::Width {
            assert!(!p.is_present(id), "{:?} leaked present", id);
        }
    }
    p.clear(MacroId::Width);
    assert!(!p.is_present(MacroId::Width));
    p.set_all_present();
    for id in MacroId::all() {
        assert!(p.is_present(id));
    }
    p.clear_all();
    for id in MacroId::all() {
        assert!(!p.is_present(id));
    }
}

#[test]
fn apply_order_keeps_present_and_supported_in_slot_order() {
    let mut present = MacroPresence::new();
    present.set(MacroId::Width);
    present.set(MacroId::Timbre);
    present.set(MacroId::Chairs);
    let mut supported = MacroPresence::new();
    supported.set(MacroId::Timbre);
    supported.set(MacroId::Dynamics);
    supported.set(MacroId::Width);
    assert_eq!(apply_order(&present, &supported), vec![MacroId::Timbre, MacroId::Width]);
    let none = MacroPresence::new();
    assert!(apply_order(&present, &none).is_empty());
}
