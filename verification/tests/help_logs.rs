use mtui::app::help::help_matches;
use mtui::config::KeybindAction;
use mtui::state::{HelpParams, LogViewParams, ReadParams};

#[test]
fn the_help_filter_ranks_actions_by_their_labels() {
    let found = help_matches("pin");
    assert_eq!(found[0], KeybindAction::Pin);
    assert_eq!(help_matches("").len(), 32, "an empty filter lists every action");
    let found = help_matches("batch");
    assert_eq!(found, vec![KeybindAction::BatchDecrease, KeybindAction::BatchIncrease]);
}

#[test]
fn the_help_popup_selects_among_its_matches() {
    let mut h = HelpParams { query: String::new(), selected: 0 };
    let all = help_matches("");
    assert_eq!(h.selected_action(&all), None, "nothing is picked without a filter");
    h.type_char('p');
    h.type_char('a');
    let found = help_matches(&h.query);
    h.move_selection(found.len() as u16, true);
    assert_eq!(h.selected, 1);
    assert_eq!(h.selected_action(&found), Some(found[1]));
    h.move_selection(0, true);
    assert_eq!(h.selected, 0);
    h.selected = 4;
    h.backspace();
    assert_eq!((h.query.as_str(), h.selected), ("p", 0));
}

fn log_view() -> LogViewParams {
    LogViewParams { top: 0, follow: false, h_offset: 0, wrap: false, previous: ReadParams::default() }
}

#[test]
fn the_log_view_scrolls_within_its_lines_and_follows_the_end() {
    let mut l = log_view();
    l.scroll(i32::MAX, 50, 20);
    assert_eq!((l.top, l.follow), (30, true));
    l.scroll(-5, 50, 20);
    assert_eq!((l.top, l.follow), (25, false));
    l.scroll(-100, 50, 20);
    assert_eq!(l.top, 0);
    l.scroll(3, 10, 20);
    assert_eq!((l.top, l.follow), (0, true), "a short log has one page");
}

#[test]
fn wrapped_logs_do_not_scroll_sideways() {
    let mut l = log_view();
    l.hscroll(20, true);
    assert_eq!(l.h_offset, 8);
    l.toggle_wrap();
    assert_eq!((l.wrap, l.h_offset), (true, 0));
    l.hscroll(20, true);
    assert_eq!(l.h_offset, 0);
}
