use mtui::app::label::{find_cell, set_entry};
use mtui::app::pin::{dedup_cells, merge_pins, pin_status, sort_cells, toggle_pin};
use mtui::app::search::search_matches;
use mtui::register::RegisterType::{Coil, Discrete, Holding, Input};
use mtui::state::{LabelParams, SearchParams};

#[test]
fn pins_are_kept_in_register_order() {
    let mut pins = vec![(Input, 2), (Holding, 3), (Holding, 1)];
    assert!(toggle_pin(&mut pins, (Coil, 0)));
    assert_eq!(pins, vec![(Holding, 1), (Holding, 3), (Input, 2), (Coil, 0)]);
    assert!(!toggle_pin(&mut pins, (Holding, 3)));
    assert_eq!(pins, vec![(Holding, 1), (Input, 2), (Coil, 0)]);
}

#[test]
fn pinning_twice_gives_the_pins_back() {
    let mut pins = vec![(Holding, 1), (Input, 2)];
    let before = pins.clone();
    toggle_pin(&mut pins, (Discrete, 9));
    toggle_pin(&mut pins, (Discrete, 9));
    assert_eq!(pins, before);
    toggle_pin(&mut pins, (Input, 2));
    toggle_pin(&mut pins, (Input, 2));
    assert_eq!(pins, before);
}

#[test]
fn sorting_keeps_duplicates_and_dedup_drops_them() {
    let mut cells = vec![(Coil, 5), (Holding, 9), (Coil, 5), (Holding, 0)];
    sort_cells(&mut cells);
    assert_eq!(cells, vec![(Holding, 0), (Holding, 9), (Coil, 5), (Coil, 5)]);
    dedup_cells(&mut cells);
    assert_eq!(cells, vec![(Holding, 0), (Holding, 9), (Coil, 5)]);
}

#[test]
fn imported_pins_join_the_pinned_ones_once() {
    let mut pins = vec![(Input, 4), (Holding, 1)];
    merge_pins(&mut pins, &[(Holding, 1), (Discrete, 0), (Holding, 0), (Discrete, 0)]);
    assert_eq!(pins, vec![(Holding, 0), (Holding, 1), (Input, 4), (Discrete, 0)]);
}

#[test]
fn the_pin_status_names_the_register() {
    assert_eq!(pin_status(true, (Holding, 40)), "Pinned Holding @40");
    assert_eq!(pin_status(false, (Discrete, 7)), "Unpinned Discrete @7");
}

#[test]
fn a_committed_label_is_read_back_and_an_empty_one_removes_it() {
    let mut labels: Vec<((mtui::register::RegisterType, u16), String)> = Vec::new();
    let mut p = LabelParams::open(&labels, (Input, 5));
    assert_eq!(p.text, "");
    for c in "Voltx".chars() {
        p.type_char(c);
    }
    p.backspace();
    p.commit(&mut labels);
    LabelParams::open(&labels, (Holding, 9)).commit(&mut labels);
    let mut q = LabelParams::open(&labels, (Holding, 2));
    q.type_char('A');
    q.commit(&mut labels);
    assert_eq!(labels, vec![((Holding, 2), "A".to_string()), ((Input, 5), "Volt".to_string())]);
    assert_eq!(LabelParams::open(&labels, (Input, 5)).text, "Volt");

    let mut r = LabelParams::open(&labels, (Input, 5));
    r.backspace();
    r.backspace();
    r.backspace();
    r.backspace();
    r.commit(&mut labels);
    assert_eq!(labels, vec![((Holding, 2), "A".to_string())]);
}

#[test]
fn entries_are_found_by_register() {
    let mut list = vec![((Holding, 1), 10u8), ((Coil, 3), 30u8)];
    assert_eq!(find_cell(&list, (Coil, 3)), Ok(1));
    assert_eq!(find_cell(&list, (Input, 0)), Err(1));
    assert_eq!(find_cell(&list, (Discrete, 0)), Err(2));
    set_entry(&mut list, (Input, 0), Some(20));
    set_entry(&mut list, (Holding, 1), Some(11));
    set_entry(&mut list, (Coil, 3), None);
    assert_eq!(list, vec![((Holding, 1), 11), ((Input, 0), 20)]);
}

fn labels() -> Vec<((mtui::register::RegisterType, u16), String)> {
    vec![
        ((Holding, 1), "Voltage L1".to_string()),
        ((Holding, 2), "Current".to_string()),
        ((Input, 7), "Voltage L2".to_string()),
        ((Coil, 3), "Relay".to_string()),
    ]
}

#[test]
fn a_query_lists_the_address_first_then_matching_labels() {
    let found = search_matches("h2", (Input, 0), &labels());
    assert_eq!(found[0].cell, (Holding, 2));
    assert!(found[0].labeled);
    assert_eq!(found[0].text, "Current");
    assert_eq!(found.len(), 1, "no label holds h2");

    let found = search_matches("40", (Input, 0), &labels());
    assert_eq!(found[0].cell, (Input, 40));
    assert!(!found[0].labeled);
    assert_eq!(found[0].text, "jump to this address");
}

#[test]
fn labels_rank_by_how_well_they_match() {
    let found = search_matches("volt", (Holding, 0), &labels());
    let cells: Vec<_> = found.iter().map(|m| m.cell).collect();
    assert_eq!(cells, vec![(Holding, 1), (Input, 7)]);
    let found = search_matches("", (Holding, 0), &labels());
    assert_eq!(found.len(), 4, "an empty query lists every label");
    let found = search_matches("+2", (Holding, 5), &labels());
    assert_eq!(found[0].cell, (Holding, 7));
    assert_eq!(found[0].text, "move by +2");
}

#[test]
fn the_search_selection_moves_and_picks_a_register() {
    let mut s = SearchParams { query: String::new(), matches: Vec::new(), selected: 0, top: 0 };
    s.show(search_matches("", (Holding, 0), &labels()), 2);
    assert_eq!(s.selected_cell(), Some((Holding, 1)));
    s.move_selection(true, 2);
    s.move_selection(true, 2);
    assert_eq!(s.selected_cell(), Some((Input, 7)));
    assert_eq!(s.top, 1);
    s.move_selection(false, 2);
    s.move_selection(false, 2);
    s.move_selection(false, 2);
    assert_eq!(s.selected_cell(), Some((Holding, 1)));
}
