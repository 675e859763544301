use mtui::app::columns::{
    active_graph_column, column_offset, graph_registers, graphable_columns, next_graph_column, series_name_text,
};
use mtui::config::{Column, InterpretorConfig};
use mtui::custom::{CustomRepr, CustomRule};
use mtui::interpretator::{Interpretor, RowSegment};
use mtui::modbus::WordOrder;
use mtui::register::RegisterType::{Coil, Holding, Input};
use mtui::state::{ColumnsParams, MessageKind, ReadParams};

fn params(selected: u16) -> ColumnsParams {
    ColumnsParams { query: String::new(), selected }
}

#[test]
fn the_column_list_moves_within_its_half() {
    // 5 matches: rows 0..3 on the left, 3..5 on the right.
    let mut p = params(2);
    p.move_in_grid(5, true);
    assert_eq!(p.selected, 0, "wraps to the top of the left half");
    p.move_in_grid(5, false);
    assert_eq!(p.selected, 2);
    let mut p = params(4);
    p.move_in_grid(5, true);
    assert_eq!(p.selected, 3, "wraps within the right half");
    p.move_in_grid(5, false);
    assert_eq!(p.selected, 4);
}

#[test]
fn the_column_list_switches_halves_on_the_same_row() {
    let mut p = params(1);
    p.switch_side(5, true);
    assert_eq!(p.selected, 4);
    p.switch_side(5, false);
    assert_eq!(p.selected, 1);
    let mut p = params(2);
    p.switch_side(5, true);
    assert_eq!(p.selected, 4, "no column right of the last row");
    let mut p = params(2);
    p.switch_side(0, true);
    assert_eq!(p.selected, 2);
}

#[test]
fn typing_a_column_filter_selects_the_first_match() {
    let mut p = params(3);
    p.type_char('u');
    p.type_char('3');
    assert_eq!((p.query.as_str(), p.selected), ("u3", 0));
    p.selected = 2;
    p.backspace();
    assert_eq!((p.query.as_str(), p.selected), ("u", 0));
}

#[test]
fn at_most_three_series_are_held() {
    let mut r = ReadParams::default();
    let m = r.hold_series((Holding, 1), "Voltage");
    assert_eq!((m.kind, m.text.as_str()), (MessageKind::Success, "Holding \"Voltage\" on the graph"));
    r.hold_series((Holding, 2), "H2");
    r.hold_series((Input, 3), "I3");
    let m = r.hold_series((Coil, 4), "C4");
    assert_eq!((m.kind, m.text.as_str()), (MessageKind::Warn, "Up to 3 held series"));
    let m = r.hold_series((Holding, 2), "H2");
    assert_eq!(m.text, "Released \"H2\" from the graph");
    assert_eq!(r.graph_series, vec![(Holding, 1), (Input, 3)]);
    assert_eq!(series_name_text(None, (Input, 12)), "I12");
    assert_eq!(series_name_text(Some("Flow"), (Input, 12)), "Flow");
}

#[test]
fn the_copy_column_arms_on_the_address_and_moves_within_the_row() {
    let interp = Interpretor::new(InterpretorConfig::default(), WordOrder::ABCD);
    let segments: Vec<RowSegment> = interp.row_segments();
    let mut r = ReadParams::default();
    r.arm_copy_column(&segments);
    let i = r.copy_column.unwrap() as usize;
    assert_eq!(segments[i].name, "address");
    r.step_copy_column(false, segments.len() as u16);
    assert_eq!(r.copy_column, Some(i as u16 - 1));
    for _ in 0..40 {
        r.step_copy_column(true, segments.len() as u16);
    }
    assert_eq!(r.copy_column, Some(segments.len() as u16 - 1));
    let mut empty = ReadParams::default();
    empty.arm_copy_column(&[]);
    assert_eq!(empty.copy_column, None);
}

#[test]
fn a_column_scrolls_just_into_view() {
    assert_eq!(column_offset(5, 9, 10, 40, 3, 100), 0, "inside the prefix");
    assert_eq!(column_offset(20, 28, 10, 40, 0, 100), 0, "already in view");
    assert_eq!(column_offset(50, 60, 10, 40, 0, 100), 20, "scrolled until its end shows");
    assert_eq!(column_offset(12, 16, 10, 40, 8, 100), 2, "scrolled back to its start");
    assert_eq!(column_offset(90, 120, 10, 40, 0, 50), 50, "no further than the last offset");
}

#[test]
fn the_graph_cycles_through_the_graphable_columns() {
    let interp = Interpretor::new(InterpretorConfig::default(), WordOrder::ABCD);
    let cols = graphable_columns(&interp, false);
    assert_eq!(cols, vec![Column::U16, Column::I16]);
    let with_rule = graphable_columns(&interp, true);
    assert_eq!(with_rule, vec![Column::U16, Column::I16, Column::Custom]);
    assert_eq!(active_graph_column(&cols, Column::I16), Some(Column::I16));
    assert_eq!(active_graph_column(&cols, Column::F32), Some(Column::U16));
    assert_eq!(active_graph_column(&[], Column::F32), None);
    assert_eq!(next_graph_column(&with_rule, Column::Custom), Some(Column::U16));
    assert_eq!(next_graph_column(&with_rule, Column::U16), Some(Column::I16));
    assert_eq!(next_graph_column(&with_rule, Column::Hex), Some(Column::U16));
    assert_eq!(next_graph_column(&[], Column::Hex), None);
}

fn rule(address: u16, repr: CustomRepr, next: Vec<u16>) -> CustomRule {
    CustomRule {
        address,
        repr,
        ops: Vec::new(),
        enum_map: Vec::new(),
        bits: Vec::new(),
        next,
        decimals: None,
        prefix: String::new(),
        suffix: String::new(),
        word_order: None,
    }
}

#[test]
fn held_series_read_the_registers_their_column_spans() {
    let series = [(Holding, 10), (Coil, 3), (Holding, 65535)];
    assert!(graph_registers(false, Some(Column::U32), &series, &[]).is_empty());
    let regs = graph_registers(true, Some(Column::U32), &series, &[]);
    assert_eq!(regs, vec![(Holding, 0), (Holding, 10), (Holding, 11), (Holding, 65535), (Coil, 3)]);
    let rules = vec![((Holding, 10), rule(10, CustomRepr::U32, vec![20]))];
    let regs = graph_registers(true, Some(Column::Custom), &series, &rules);
    assert_eq!(regs, vec![(Holding, 10), (Holding, 20), (Coil, 3)]);
    let regs = graph_registers(true, None, &[(Input, 4), (Input, 4)], &[]);
    assert_eq!(regs, vec![(Input, 4)]);
}
