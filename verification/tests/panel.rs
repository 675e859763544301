use mtui::app::panel::{fit_matrix_cols, sized_window};
use mtui::config::BatchAnchor;

#[test]
fn fitted_columns_fill_the_width_and_never_drop_below_one() {
    assert_eq!(fit_matrix_cols(0), 1);
    assert_eq!(fit_matrix_cols(13), 1);
    assert_eq!(fit_matrix_cols(19), 2);
    assert_eq!(fit_matrix_cols(80), 12);
    assert_eq!(fit_matrix_cols(120), 18);
}

fn middle(costs: &[usize], pos: usize, budget: usize) -> (usize, usize) {
    sized_window(costs, pos, budget, BatchAnchor::Middle)
}

#[test]
fn cursor_alone_when_over_budget() {
    assert_eq!(middle(&[4, 1], 0, 2), (0, 1));
    assert_eq!(middle(&[2, 1], 0, 2), (0, 1));
}

#[test]
fn grows_alternately_around_cursor() {
    assert_eq!(middle(&[1, 2, 1], 1, 4), (0, 3));
    assert_eq!(middle(&[1, 1, 1, 1, 1], 2, 3), (1, 4));
}

#[test]
fn clamps_at_edges_by_extending_the_other_side() {
    assert_eq!(middle(&[1, 1, 1, 1], 3, 3), (1, 4));
    assert_eq!(middle(&[1, 1, 1, 1], 0, 3), (0, 3));
}

#[test]
fn skips_neighbors_that_do_not_fit() {
    assert_eq!(middle(&[4, 1, 1], 1, 2), (1, 3));
}

#[test]
fn anchor_picks_the_growth_side() {
    let costs = [1usize, 1, 1];
    assert_eq!(sized_window(&costs, 1, 2, BatchAnchor::Start), (1, 3));
    assert_eq!(sized_window(&costs, 1, 2, BatchAnchor::End), (0, 2));
}

#[test]
fn anchor_spills_to_the_other_side_at_edges() {
    let costs = [1usize, 1, 1];
    assert_eq!(sized_window(&costs, 2, 2, BatchAnchor::Start), (1, 3));
    assert_eq!(sized_window(&costs, 0, 2, BatchAnchor::End), (0, 2));
}
