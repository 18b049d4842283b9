use ubsg::board::{Board, Mino};

fn filled() -> Option<Mino> {
    Some(Mino { color: 1 })
}

fn fill_row(b: &mut Board, y: usize) {
    for x in 0..b.width as usize {
        b.board[y][x] = filled();
    }
}

#[test]
fn create_makes_empty_grid() {
    let b = Board::create(10, 20, 20, true, false, 3);
    assert_eq!(b.board.len(), 40);
    assert!(b.board.iter().all(|r| r.len() == 10 && r.iter().all(|c| c.is_none())));
    assert!(b.show_grid);
    assert!(!b.show_shadow);
    assert_eq!(b.show_next, 3);
}

#[test]
fn clear_with_no_full_rows_changes_nothing() {
    let mut b = Board::create(4, 4, 0, false, false, 0);
    b.board[0][0] = filled();
    b.board[2][3] = filled();
    let before = b.board.clone();
    b.clear_full_lines();
    assert_eq!(b.board, before);
}

#[test]
fn clear_one_full_row_shifts_rows_down() {
    let mut b = Board::create(4, 4, 0, false, false, 0);
    fill_row(&mut b, 0);
    b.board[1][2] = filled();
    b.clear_full_lines();
    assert_eq!(b.board[0], vec![None, None, filled(), None]);
    assert!(b.board[1..].iter().all(|r| r.iter().all(|c| c.is_none())));
    assert_eq!(b.board.len(), 4);
}

#[test]
fn clear_non_contiguous_full_rows_keeps_order() {
    let mut b = Board::create(3, 6, 0, false, false, 0);
    fill_row(&mut b, 0);
    b.board[1][0] = filled();
    fill_row(&mut b, 2);
    b.board[3][1] = filled();
    fill_row(&mut b, 4);
    b.board[5][2] = filled();
    b.clear_full_lines();
    assert_eq!(b.board[0], vec![filled(), None, None]);
    assert_eq!(b.board[1], vec![None, filled(), None]);
    assert_eq!(b.board[2], vec![None, None, filled()]);
    for y in 3..6 {
        assert_eq!(b.board[y], vec![None, None, None]);
    }
}

#[test]
fn clear_four_full_rows_at_once() {
    let mut b = Board::create(5, 6, 2, false, false, 0);
    for y in 0..4 {
        fill_row(&mut b, y);
    }
    b.board[4][1] = filled();
    b.clear_full_lines();
    assert_eq!(b.board[0], vec![None, filled(), None, None, None]);
    assert!(b.board[1..].iter().all(|r| r.iter().all(|c| c.is_none())));
    assert_eq!(b.board.len(), 8);
}

#[test]
fn fits_rejects_cells_off_the_grid_and_on_locked_cells() {
    let mut b = Board::create(4, 4, 0, false, false, 0);
    b.board[1][1] = filled();
    let cells = vec![(0i8, 0i8), (1, 0)];
    assert!(b.fits(&cells, 0, 0));
    assert!(!b.fits(&cells, 3, 0));
    assert!(!b.fits(&cells, -1, 0));
    assert!(!b.fits(&cells, 0, 4));
    assert!(!b.fits(&cells, 0, -1));
    assert!(!b.fits(&cells, 0, 1));
    assert!(!b.fits(&cells, 5000, 0));
    assert!(b.fits(&cells, 2, 1));
}

#[test]
fn row_is_full_reads_every_cell() {
    let mut b = Board::create(3, 2, 0, false, false, 0);
    assert!(!b.row_is_full(0));
    b.board[0][0] = filled();
    b.board[0][1] = filled();
    assert!(!b.row_is_full(0));
    b.board[0][2] = filled();
    assert!(b.row_is_full(0));
}
