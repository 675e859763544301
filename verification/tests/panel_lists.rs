use mtui::app::panel::{
    cursor_cell, next_panel, panel_cells, panel_group_breaks, panel_hidden_by_type, panel_refresh_window,
    panel_scroll_rows,
};
use mtui::app::write::next_cycle_type;
use mtui::config::{BatchAnchor, CyclePanels, CycleTypes};
use mtui::custom::{CustomRepr, CustomRule};
use mtui::register::RegisterType::{Coil, Discrete, Holding, Input};
use mtui::state::{ReadPanel, ReadParams};

fn pinned() -> Vec<(mtui::register::RegisterType, u16)> {
    vec![(Holding, 1), (Input, 2), (Holding, 3)]
}

fn pinned_read() -> ReadParams {
    let mut r = ReadParams::default();
    r.panel = ReadPanel::Pinned;
    r.register_type = Holding;
    r
}

#[test]
fn the_type_filter_narrows_the_panel_and_drops_group_breaks() {
    let all = pinned();
    let shown = panel_cells(&all, false, Holding);
    assert_eq!(shown.len(), 3);
    assert_eq!(panel_group_breaks(&shown), 1);
    assert!(!panel_hidden_by_type(&all, false, Holding));

    let shown = panel_cells(&all, true, Holding);
    assert_eq!(shown.len(), 2);
    assert_eq!(panel_group_breaks(&shown), 0);
    assert_eq!(shown.get(1).copied(), Some((Holding, 3)));

    let shown = panel_cells(&all, true, Input);
    assert_eq!(shown, vec![(Input, 2)]);
}

#[test]
fn switching_type_clamps_the_cursor_and_reports_hidden_cells() {
    let all = pinned();
    let mut r = pinned_read();
    r.pinned_index = 1;
    assert_eq!(cursor_cell(&r, &panel_cells(&all, true, r.register_type)), (Holding, 3));

    let next = next_cycle_type(&CycleTypes::default(), r.register_type);
    r.switch_type(next);
    assert_eq!(r.register_type, Input);
    let shown = panel_cells(&all, true, r.register_type);
    r.scroll_pinned(panel_scroll_rows(20, panel_group_breaks(&shown)), shown.len() as u16);
    assert_eq!(r.pinned_index, 0);
    assert_eq!(cursor_cell(&r, &shown), (Input, 2));

    let next = next_cycle_type(&CycleTypes::default(), r.register_type);
    r.switch_type(next);
    assert!(panel_hidden_by_type(&all, true, r.register_type));
    assert_eq!(panel_cells(&all, true, r.register_type).len(), 0);
}

#[test]
fn disabled_setting_keeps_every_type_listed() {
    let all = pinned();
    let mut r = pinned_read();
    r.pinned_index = 2;
    let next = next_cycle_type(&CycleTypes::default(), r.register_type);
    r.switch_type(next);
    let shown = panel_cells(&all, false, r.register_type);
    assert_eq!(cursor_cell(&r, &shown), (Holding, 3));
    assert_eq!(shown.len(), 3);
}

#[test]
fn the_type_key_skips_types_left_out_of_the_cycle() {
    let only_coils = CycleTypes { holdings: false, inputs: false, coils: true, discretes: false };
    assert_eq!(next_cycle_type(&only_coils, Holding), Coil);
    assert_eq!(next_cycle_type(&only_coils, Coil), Coil, "no other type to go to");
    let no_inputs = CycleTypes { holdings: true, inputs: false, coils: true, discretes: true };
    assert_eq!(next_cycle_type(&no_inputs, Holding), Coil);
    assert_eq!(next_cycle_type(&no_inputs, Discrete), Holding);
}

#[test]
fn the_panel_key_skips_panels_left_out_of_the_cycle() {
    let c = CyclePanels { pinned: false, labeled: true, custom: false, matrix: true };
    assert_eq!(next_panel(&c, ReadPanel::Main), ReadPanel::Labeled);
    assert_eq!(next_panel(&c, ReadPanel::Labeled), ReadPanel::Matrix);
    assert_eq!(next_panel(&c, ReadPanel::Matrix), ReadPanel::Main);
    let none = CyclePanels { pinned: false, labeled: false, custom: false, matrix: false };
    assert_eq!(next_panel(&none, ReadPanel::Main), ReadPanel::Main);
}

#[test]
fn list_panels_scroll_by_their_rows_less_the_breaks() {
    assert_eq!(panel_scroll_rows(20, 3), 17);
    assert_eq!(panel_scroll_rows(2, 3), 1);
    assert_eq!(panel_group_breaks(&[]), 0);
    assert_eq!(panel_group_breaks(&[(Holding, 0), (Input, 0), (Coil, 0), (Discrete, 0)]), 3);
}

fn rule(address: u16, repr: CustomRepr, next: Vec<u16>) -> CustomRule {
    CustomRule {
        address,
        repr,
        ops: Vec::new(),
        enum_map: Vec::new(),
        bits: Vec::new(),
        next,
        decimals: None,
        prefix: String::new(),
        suffix: String::new(),
        word_order: None,
    }
}

#[test]
fn a_list_panel_reads_a_batch_around_the_cursor_with_rule_registers() {
    let cells = vec![(Holding, 10), (Input, 1), (Holding, 20), (Holding, 30), (Holding, 40)];
    let rules = vec![((Holding, 20), rule(20, CustomRepr::U32, vec![50]))];
    let read = panel_refresh_window(&cells, (Holding, 30), 2, false, BatchAnchor::Start, &rules);
    assert_eq!(read, vec![(Holding, 30), (Holding, 40)]);
    let read = panel_refresh_window(&cells, (Holding, 30), 2, false, BatchAnchor::End, &rules);
    assert_eq!(read, vec![(Holding, 20), (Holding, 30), (Holding, 50)]);
    let read = panel_refresh_window(&cells, (Holding, 40), 3, false, BatchAnchor::Start, &rules);
    assert_eq!(read, vec![(Holding, 20), (Holding, 30), (Holding, 40), (Holding, 50)], "kept inside the list");
    let read = panel_refresh_window(&cells, (Coil, 1), 3, false, BatchAnchor::Start, &rules);
    assert!(read.is_empty());
    let read = panel_refresh_window(&cells, (Holding, 99), 1, false, BatchAnchor::Middle, &rules);
    assert_eq!(read, vec![(Holding, 10)], "an unlisted cursor counts as the first");
}

#[test]
fn the_custom_panel_batches_by_register_cost() {
    let cells = vec![(Holding, 10), (Holding, 20), (Holding, 30)];
    let rules = vec![((Holding, 20), rule(20, CustomRepr::U64, vec![]))];
    let read = panel_refresh_window(&cells, (Holding, 10), 4, true, BatchAnchor::Start, &rules);
    assert_eq!(read, vec![(Holding, 10)], "the rule of 4 registers does not fit next to it");
    let read = panel_refresh_window(&cells, (Holding, 20), 5, true, BatchAnchor::Start, &rules);
    assert_eq!(read, vec![(Holding, 20), (Holding, 21), (Holding, 22), (Holding, 23), (Holding, 30)]);
}
