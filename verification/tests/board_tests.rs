use minesweeper::{Cell, MinesweeperBoard, Pos};

fn brute_force_neighbour_mines(board: &MinesweeperBoard, x: usize, y: usize) -> usize {
    let mut count = 0;
    for dy in -1i64..=1 {
        for dx in -1i64..=1 {
            if dx == 0 && dy == 0 {
                continue;
            }
            let nx = x as i64 + dx;
            let ny = y as i64 + dy;
            if nx >= 0 && ny >= 0 && (nx as usize) < board.width && (ny as usize) < board.height {
                let idx = (ny as usize) * board.width + (nx as usize);
                if board.cells[idx].is_mine {
                    count += 1;
                }
            }
        }
    }
    count
}

fn check_board_invariant(board: &MinesweeperBoard, expected_mines: usize) {
    assert_eq!(board.cells.len(), board.width * board.height);
    let mine_cells = board.cells.iter().filter(|c| c.is_mine).count();
    assert_eq!(mine_cells, expected_mines);
    assert_eq!(board.mines_count, expected_mines);
    for y in 0..board.height {
        for x in 0..board.width {
            let cell: &Cell = &board.cells[y * board.width + x];
            assert_eq!(
                cell.surrounding_mines,
                brute_force_neighbour_mines(board, x, y),
                "wrong count at ({}, {})",
                x,
                y
            );
        }
    }
}

#[test]
fn random_board_has_exact_mine_count_and_counts() {
    let mut rng = minesweeper::rng::seeded_rng(42);
    let board = MinesweeperBoard::new(9, 9, 10, &mut rng);
    check_board_invariant(&board, 10);
}

#[test]
fn random_boards_vary_with_seed_but_stay_valid() {
    for seed in 0..5u64 {
        let mut rng = minesweeper::rng::seeded_rng(seed);
        let board = MinesweeperBoard::new(16, 16, 40, &mut rng);
        check_board_invariant(&board, 40);
    }
}

#[test]
fn explicit_mine_placement() {
    let board = MinesweeperBoard::from_mine_indices(3, 3, &vec![4]);
    check_board_invariant(&board, 1);
    assert!(board.cells[4].is_mine);
    // every other cell touches the centre mine
    for idx in 0..9 {
        if idx != 4 {
            assert!(!board.cells[idx].is_mine);
            assert_eq!(board.cells[idx].surrounding_mines, 1);
        }
    }
}

#[test]
fn neighbours_centre_edge_corner() {
    let board = MinesweeperBoard::from_mine_indices(9, 9, &vec![0]);

    let corner = board.neighbours(Pos { x: 0, y: 0 });
    let mut corner_set: Vec<(usize, usize)> = corner.iter().map(|p| (p.x, p.y)).collect();
    corner_set.sort();
    assert_eq!(corner_set, vec![(0, 1), (1, 0), (1, 1)]);

    let edge = board.neighbours(Pos { x: 4, y: 0 });
    assert_eq!(edge.len(), 5);

    let centre = board.neighbours(Pos { x: 4, y: 4 });
    assert_eq!(centre.len(), 8);
    // row-major order of the surrounding window
    let in_order: Vec<(usize, usize)> = centre.iter().map(|p| (p.x, p.y)).collect();
    assert_eq!(
        in_order,
        vec![(3, 3), (4, 3), (5, 3), (3, 4), (5, 4), (3, 5), (4, 5), (5, 5)]
    );

    for p in &centre {
        assert!(!(p.x == 4 && p.y == 4), "neighbours must exclude the centre");
        assert!(p.x.abs_diff(4) <= 1 && p.y.abs_diff(4) <= 1);
    }
    for a in 0..centre.len() {
        for b in (a + 1)..centre.len() {
            assert!(centre[a] != centre[b], "duplicate neighbour");
        }
    }
}

#[test]
fn neighbours_of_position_just_outside_grid() {
    // a position one column past the right edge still has the three
    // in-bounds cells of the last column as neighbours
    let board = MinesweeperBoard::from_mine_indices(9, 9, &vec![0]);
    let outside = board.neighbours(Pos { x: 9, y: 4 });
    let mut got: Vec<(usize, usize)> = outside.iter().map(|p| (p.x, p.y)).collect();
    got.sort();
    assert_eq!(got, vec![(8, 3), (8, 4), (8, 5)]);

    let far = board.neighbours(Pos { x: 20, y: 20 });
    assert!(far.is_empty());
}

#[test]
fn difficulty_catalog() {
    let cat = minesweeper::difficulty::difficulties();
    assert_eq!(cat.len(), 3);
    assert_eq!((cat[0].width, cat[0].height, cat[0].mines), (9, 9, 10));
    assert_eq!((cat[1].width, cat[1].height, cat[1].mines), (16, 16, 40));
    assert_eq!((cat[2].width, cat[2].height, cat[2].mines), (30, 16, 99));
    assert_eq!(cat[0].name, "Easy");
    assert_eq!(cat[1].name, "Intermediate");
    assert_eq!(cat[2].name, "Expert");
    for d in &cat {
        assert!(d.mines < d.width * d.height);
    }
}
