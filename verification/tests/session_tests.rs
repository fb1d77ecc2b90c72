use minesweeper::{BoardView, Direction, MinesweeperBoard, Outcome, OverlayCell, Pos};

fn centre_mine_3x3() -> BoardView {
    BoardView::new(MinesweeperBoard::from_mine_indices(3, 3, &vec![4]))
}

#[test]
fn new_session_starts_blank() {
    let s = centre_mine_3x3();
    assert_eq!(s.overlay.len(), 9);
    assert!(s.overlay.iter().all(|c| *c == OverlayCell::Unrevealed));
    assert_eq!(s.revealed, 0);
    assert_eq!(s.flags, 0);
    assert!(s.active);
    assert_eq!(s.focused, Pos { x: 1, y: 1 });
    assert_eq!(s.remaining_mines(), 1);
}

#[test]
fn reveal_with_nonzero_count_does_not_cascade() {
    // the centre mine touches every other cell, so revealing a corner
    // shows a 1 and reveals nothing else
    let mut s = centre_mine_3x3();
    let r = s.reveal_cell(Pos { x: 0, y: 0 });
    assert_eq!(r, Outcome::Continue);
    assert_eq!(s.overlay[0], OverlayCell::Revealed(1));
    assert_eq!(s.revealed, 1);
    for idx in 1..9 {
        assert_eq!(s.overlay[idx], OverlayCell::Unrevealed);
    }
}

#[test]
fn reveal_mine_loses_and_touches_nothing_else() {
    let mut s = centre_mine_3x3();
    let r = s.reveal_cell(Pos { x: 0, y: 0 });
    assert_eq!(r, Outcome::Continue);
    let r = s.reveal_cell(Pos { x: 1, y: 1 });
    assert_eq!(r, Outcome::Loss(1));
    assert!(!s.active);
    assert_eq!(s.overlay[4], OverlayCell::Revealed(minesweeper::session::DETONATED));
    assert_eq!(s.overlay[0], OverlayCell::Revealed(1));
    for idx in [1, 2, 3, 5, 6, 7, 8] {
        assert_eq!(s.overlay[idx], OverlayCell::Unrevealed);
    }
    // an ended game ignores further actions
    let r = s.reveal_cell(Pos { x: 2, y: 2 });
    assert_eq!(r, Outcome::Continue);
    assert_eq!(s.overlay[8], OverlayCell::Unrevealed);
}

#[test]
fn loss_reports_displayed_mines_left() {
    let board = MinesweeperBoard::from_mine_indices(9, 9, &vec![0, 1, 2, 3, 4, 5, 6, 7, 8, 9]);
    let mut s = BoardView::new(board);
    assert_eq!(s.flag(Pos { x: 0, y: 3 }), Outcome::Continue);
    assert_eq!(s.flag(Pos { x: 1, y: 3 }), Outcome::Continue);
    assert_eq!(s.flag(Pos { x: 2, y: 3 }), Outcome::Continue);
    assert_eq!(s.remaining_mines(), 7);
    let r = s.reveal_cell(Pos { x: 0, y: 0 });
    assert_eq!(r, Outcome::Loss(7));
}

#[test]
fn displayed_counter_can_go_negative() {
    let mut s = centre_mine_3x3();
    s.flag(Pos { x: 0, y: 0 });
    s.flag(Pos { x: 2, y: 0 });
    assert_eq!(s.remaining_mines(), -1);
    let r = s.reveal_cell(Pos { x: 1, y: 1 });
    assert_eq!(r, Outcome::Loss(-1));
}

#[test]
fn ended_game_ignores_flag_and_chord() {
    let mut s = centre_mine_3x3();
    assert_eq!(s.reveal_cell(Pos { x: 1, y: 1 }), Outcome::Loss(1));
    assert_eq!(s.flag(Pos { x: 0, y: 0 }), Outcome::Continue);
    assert_eq!(s.overlay[0], OverlayCell::Unrevealed);
    assert_eq!(s.remaining_mines(), 1);
    assert_eq!(s.auto_reveal(Pos { x: 1, y: 1 }), Outcome::Continue);
}

#[test]
fn corner_reveal_cascades_to_win() {
    // one mine in the far corner: the zero-region floods across the
    // whole board in a single action and wins the game
    let board = MinesweeperBoard::from_mine_indices(9, 9, &vec![80]);
    let mut s = BoardView::new(board);
    let r = s.reveal_cell(Pos { x: 0, y: 0 });
    assert_eq!(r, Outcome::Win);
    assert!(!s.active);
    assert_eq!(s.revealed, 80);
    for idx in 0..80 {
        assert!(matches!(s.overlay[idx], OverlayCell::Revealed(_)));
    }
    assert_eq!(s.overlay[80], OverlayCell::Unrevealed);
    // the bordering numbered cells show their counts
    assert_eq!(s.overlay[8 * 9 + 7], OverlayCell::Revealed(1));
    assert_eq!(s.overlay[7 * 9 + 8], OverlayCell::Revealed(1));
    assert_eq!(s.overlay[7 * 9 + 7], OverlayCell::Revealed(1));
    assert_eq!(s.overlay[0], OverlayCell::Revealed(0));
}

#[test]
fn cascade_skips_flagged_cells() {
    let board = MinesweeperBoard::from_mine_indices(9, 9, &vec![80]);
    let mut s = BoardView::new(board);
    s.flag(Pos { x: 4, y: 4 });
    let r = s.reveal_cell(Pos { x: 0, y: 0 });
    // the flagged safe cell is never revealed, so the game goes on
    assert_eq!(r, Outcome::Continue);
    assert_eq!(s.overlay[4 * 9 + 4], OverlayCell::Flagged);
    assert_eq!(s.revealed, 79);
    assert!(s.active);
}

#[test]
fn win_on_last_safe_cell() {
    let board = MinesweeperBoard::from_mine_indices(2, 1, &vec![1]);
    let mut s = BoardView::new(board);
    let r = s.reveal_cell(Pos { x: 0, y: 0 });
    assert_eq!(r, Outcome::Win);
    assert_eq!(s.revealed, 1);
    assert!(!s.active);
}

#[test]
fn flag_then_unflag_restores_everything() {
    let mut s = centre_mine_3x3();
    assert_eq!(s.remaining_mines(), 1);
    // flagging a non-mine still moves the displayed counter
    assert_eq!(s.flag(Pos { x: 0, y: 0 }), Outcome::Continue);
    assert_eq!(s.overlay[0], OverlayCell::Flagged);
    assert_eq!(s.remaining_mines(), 0);
    assert_eq!(s.flag(Pos { x: 0, y: 0 }), Outcome::Continue);
    assert_eq!(s.overlay[0], OverlayCell::Unrevealed);
    assert_eq!(s.remaining_mines(), 1);
    assert!(s.overlay.iter().all(|c| *c == OverlayCell::Unrevealed));
}

#[test]
fn flag_ignores_revealed_cells_and_out_of_bounds() {
    let mut s = centre_mine_3x3();
    s.reveal_cell(Pos { x: 0, y: 0 });
    assert_eq!(s.flag(Pos { x: 0, y: 0 }), Outcome::Continue);
    assert_eq!(s.overlay[0], OverlayCell::Revealed(1));
    assert_eq!(s.remaining_mines(), 1);
    assert_eq!(s.flag(Pos { x: 7, y: 7 }), Outcome::Continue);
    assert_eq!(s.remaining_mines(), 1);
}

#[test]
fn auto_reveal_with_matching_flags_reveals_rest() {
    let mut s = centre_mine_3x3();
    let r = s.reveal_cell(Pos { x: 0, y: 0 });
    assert_eq!(r, Outcome::Continue);
    s.flag(Pos { x: 1, y: 1 });
    // (0,0) shows 1 and has exactly one flagged neighbour
    let r = s.auto_reveal(Pos { x: 0, y: 0 });
    assert_eq!(r, Outcome::Continue);
    assert_eq!(s.overlay[1], OverlayCell::Revealed(1));
    assert_eq!(s.overlay[3], OverlayCell::Revealed(1));
    assert_eq!(s.overlay[4], OverlayCell::Flagged);
    assert_eq!(s.revealed, 3);
}

#[test]
fn auto_reveal_with_wrong_flag_count_is_a_no_op() {
    let mut s = centre_mine_3x3();
    s.reveal_cell(Pos { x: 0, y: 0 });
    let before = s.overlay.clone();
    let r = s.auto_reveal(Pos { x: 0, y: 0 });
    assert_eq!(r, Outcome::Continue);
    assert_eq!(s.overlay, before);
    assert_eq!(s.revealed, 1);
}

#[test]
fn auto_reveal_on_wrong_flag_detonates() {
    // flag a safe cell next to a revealed 1, then chord: the mine is
    // among the unflagged neighbours and the game is lost
    let mut s = centre_mine_3x3();
    s.reveal_cell(Pos { x: 0, y: 0 });
    s.flag(Pos { x: 1, y: 0 });
    let r = s.auto_reveal(Pos { x: 0, y: 0 });
    assert_eq!(r, Outcome::Loss(0));
    assert!(!s.active);
}

#[test]
fn chord_detonates_first_mine_in_row_major_order() {
    // mines left and right of the middle row; chording the top-middle 2
    // with two wrong flags hits the left mine first and stops there
    let board = MinesweeperBoard::from_mine_indices(3, 3, &vec![3, 5]);
    let mut s = BoardView::new(board);
    assert_eq!(s.reveal_cell(Pos { x: 1, y: 0 }), Outcome::Continue);
    assert_eq!(s.overlay[1], OverlayCell::Revealed(2));
    s.flag(Pos { x: 0, y: 0 });
    s.flag(Pos { x: 2, y: 0 });
    let r = s.auto_reveal(Pos { x: 1, y: 0 });
    assert_eq!(r, Outcome::Loss(0));
    assert_eq!(s.overlay[3], OverlayCell::Revealed(minesweeper::session::DETONATED));
    assert_eq!(s.overlay[5], OverlayCell::Unrevealed);
    assert_eq!(s.overlay[4], OverlayCell::Unrevealed);
}

#[test]
fn auto_reveal_ignores_unrevealed_and_flagged_cells() {
    let mut s = centre_mine_3x3();
    let r = s.auto_reveal(Pos { x: 0, y: 0 });
    assert_eq!(r, Outcome::Continue);
    assert!(s.overlay.iter().all(|c| *c == OverlayCell::Unrevealed));
}

#[test]
fn focus_moves_and_clamps() {
    let mut s = centre_mine_3x3();
    assert_eq!(s.focused, Pos { x: 1, y: 1 });
    s.move_focus(Direction::Up);
    assert_eq!(s.focused, Pos { x: 1, y: 0 });
    s.move_focus(Direction::Up);
    assert_eq!(s.focused, Pos { x: 1, y: 0 });
    s.move_focus(Direction::Left);
    s.move_focus(Direction::Left);
    assert_eq!(s.focused, Pos { x: 0, y: 0 });
    for _ in 0..5 {
        s.move_focus(Direction::Down);
        s.move_focus(Direction::Right);
    }
    assert_eq!(s.focused, Pos { x: 2, y: 2 });
}

#[test]
fn set_focus_jumps_and_ignores_out_of_bounds() {
    let mut s = centre_mine_3x3();
    s.set_focus(Pos { x: 2, y: 0 });
    assert_eq!(s.focused, Pos { x: 2, y: 0 });
    s.set_focus(Pos { x: 5, y: 5 });
    assert_eq!(s.focused, Pos { x: 2, y: 0 });
}

#[test]
fn get_cell_maps_screen_to_grid() {
    let s = centre_mine_3x3();
    assert_eq!(s.get_cell(4, 3, 2, 1), Some(Pos { x: 1, y: 2 }));
    assert_eq!(s.get_cell(2, 1, 2, 1), Some(Pos { x: 0, y: 0 }));
    assert_eq!(s.get_cell(1, 1, 2, 1), None);
    assert_eq!(s.get_cell(8, 2, 2, 1), None);
    assert_eq!(s.get_cell(7, 3, 2, 1), Some(Pos { x: 2, y: 2 }));
}

#[test]
fn out_of_bounds_reveal_is_ignored() {
    let mut s = centre_mine_3x3();
    let r = s.reveal_cell(Pos { x: 5, y: 5 });
    assert_eq!(r, Outcome::Continue);
    assert!(s.overlay.iter().all(|c| *c == OverlayCell::Unrevealed));
    assert_eq!(s.revealed, 0);
}
