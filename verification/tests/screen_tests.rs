use maze_carver::{
    build_box, build_game_screen, build_maze, clean_maze, find_similar_value, get_terminal_size,
    glyph_rows, is_shaped, marked_visted, replace_string, screen_from_size, visited, Cell, MazeError,
    TerminalError, TerminalScreen,
};

fn glyphs(maze: &Vec<Vec<Cell>>) -> Vec<Vec<String>> {
    glyph_rows(maze).iter().map(|row| row.iter().map(|c| c.to_string()).collect()).collect()
}

fn ring_and_inside(maze: &Vec<Vec<Cell>>) -> (Vec<Cell>, Vec<Cell>) {
    let mut ring = Vec::new();
    let mut inside = Vec::new();
    for (i, row) in maze.iter().enumerate() {
        for (j, cell) in row.iter().enumerate() {
            if i == 0 || i + 1 == maze.len() || j == 0 || j + 1 == row.len() {
                ring.push(*cell);
            } else {
                inside.push(*cell);
            }
        }
    }
    (ring, inside)
}

#[test]
fn test_build_game_screen() {
    let result: Vec<Vec<Cell>> = build_game_screen(&mut TerminalScreen { width: 5, height: 5 });
    let mut expected: Vec<Vec<String>> = Vec::new();
    expected.push(vec!["┌".to_string(), "─".to_string(), "┐".to_string()]);
    expected.push(vec!["│".to_string(), "O".to_string(), "│".to_string()]);
    expected.push(vec!["└".to_string(), "─".to_string(), "┘".to_string()]);
    assert_eq!(expected, glyphs(&result));
    assert_eq!(
        result,
        vec![
            vec![Cell::TopLeft, Cell::Horizontal, Cell::TopRight],
            vec![Cell::Vertical, Cell::Wall, Cell::Vertical],
            vec![Cell::BottomLeft, Cell::Horizontal, Cell::BottomRight],
        ]
    );
}

#[test]
fn test_visted() {
    let mut result: Vec<Vec<Cell>> = vec![vec![Cell::Wall; 3]; 3];
    visited(&mut result, &(1usize, 1usize));
    let mut expected: Vec<Vec<String>> = Vec::new();
    expected.push(vec!["O".to_string(), "X".to_string(), "O".to_string()]);
    expected.push(vec!["X".to_string(), "O".to_string(), "X".to_string()]);
    expected.push(vec!["O".to_string(), "X".to_string(), "O".to_string()]);
    assert_eq!(expected, glyphs(&result));
    assert_eq!(
        result,
        vec![
            vec![Cell::Wall, Cell::Marked, Cell::Wall],
            vec![Cell::Marked, Cell::Wall, Cell::Marked],
            vec![Cell::Wall, Cell::Marked, Cell::Wall],
        ]
    );
}

#[test]
fn test_clean_maze() {
    let mut result: Vec<Vec<Cell>> = vec![vec![Cell::Wall; 3]; 3];
    let expected: Vec<Vec<String>> = vec![vec![' '.to_string(); 3]; 3];
    clean_maze(&mut result);
    assert_eq!(expected, glyphs(&result));
    assert_eq!(result, vec![vec![Cell::WallFinal; 3]; 3]);
}

#[test]
fn test_find_similar_value() {
    let result: Vec<usize> = vec![1usize; 3usize];
    assert_eq!(find_similar_value(&result, 1usize), true)
}

#[test]
fn test_replace_string() {
    let mut result: Vec<Vec<Cell>> = vec![vec![Cell::Wall; 3]; 3];
    let expected: Vec<Vec<String>> = vec![vec![' '.to_string(); 3]; 3];
    replace_string(&mut result, Cell::Wall, Cell::Open);
    assert_eq!(expected, glyphs(&result));
    assert_eq!(result, vec![vec![Cell::Open; 3]; 3]);
}

#[test]
fn glyph_of_every_cell() {
    assert_eq!(Cell::Wall.glyph(), 'O');
    assert_eq!(Cell::Open.glyph(), ' ');
    assert_eq!(Cell::Marked.glyph(), 'X');
    assert_eq!(Cell::TopLeft.glyph(), '┌');
    assert_eq!(Cell::TopRight.glyph(), '┐');
    assert_eq!(Cell::BottomLeft.glyph(), '└');
    assert_eq!(Cell::BottomRight.glyph(), '┘');
    assert_eq!(Cell::Horizontal.glyph(), '─');
    assert_eq!(Cell::Vertical.glyph(), '│');
    assert_eq!(Cell::OpenFinal.glyph(), 'X');
    assert_eq!(Cell::WallFinal.glyph(), ' ');
}

#[test]
fn clean_maze_of_every_cell() {
    let mut row = vec![vec![
        Cell::Wall,
        Cell::Open,
        Cell::Marked,
        Cell::TopLeft,
        Cell::TopRight,
        Cell::BottomLeft,
        Cell::BottomRight,
        Cell::Horizontal,
        Cell::Vertical,
        Cell::OpenFinal,
        Cell::WallFinal,
    ]];
    clean_maze(&mut row);
    assert_eq!(
        row,
        vec![vec![
            Cell::WallFinal,
            Cell::WallFinal,
            Cell::OpenFinal,
            Cell::TopLeft,
            Cell::TopRight,
            Cell::BottomLeft,
            Cell::BottomRight,
            Cell::Horizontal,
            Cell::Vertical,
            Cell::OpenFinal,
            Cell::WallFinal,
        ]]
    );
}

#[test]
fn box_of_four_rows_and_six_columns() {
    let grid = build_box(&TerminalScreen { width: 6, height: 4 });
    assert!(is_shaped(&grid, 4, 6));
    assert_eq!(
        glyphs(&grid).iter().map(|row| row.concat()).collect::<Vec<String>>(),
        vec!["┌────┐", "│OOOO│", "│OOOO│", "└────┘"]
    );
    assert_eq!(grid[0][0], Cell::TopLeft);
    assert_eq!(grid[0][5], Cell::TopRight);
    assert_eq!(grid[3][0], Cell::BottomLeft);
    assert_eq!(grid[3][5], Cell::BottomRight);
    let (ring, inside) = ring_and_inside(&grid);
    assert_eq!(ring.len(), 16);
    assert_eq!(inside, vec![Cell::Wall; 8]);
}

#[test]
fn box_of_one_row_or_one_column() {
    assert_eq!(build_box(&TerminalScreen { width: 1, height: 1 }), vec![vec![Cell::TopLeft]]);
    assert_eq!(
        build_box(&TerminalScreen { width: 3, height: 1 }),
        vec![vec![Cell::TopLeft, Cell::Horizontal, Cell::TopRight]]
    );
    assert_eq!(
        build_box(&TerminalScreen { width: 1, height: 3 }),
        vec![vec![Cell::TopLeft], vec![Cell::Vertical], vec![Cell::BottomLeft]]
    );
    assert_eq!(
        build_box(&TerminalScreen { width: 2, height: 2 }),
        vec![vec![Cell::TopLeft, Cell::TopRight], vec![Cell::BottomLeft, Cell::BottomRight]]
    );
}

#[test]
fn box_without_rows_or_columns() {
    let no_rows = build_box(&TerminalScreen { width: 4, height: 0 });
    assert!(no_rows.is_empty());
    let no_columns = build_box(&TerminalScreen { width: 0, height: 2 });
    assert_eq!(no_columns, vec![Vec::<Cell>::new(), Vec::<Cell>::new()]);
}

#[test]
fn game_screen_takes_the_margin_off() {
    let mut terminal = TerminalScreen { width: 12, height: 10 };
    let grid = build_game_screen(&mut terminal);
    assert_eq!(terminal, TerminalScreen { width: 10, height: 8 });
    assert!(is_shaped(&grid, 8, 10));
    let mut smallest = TerminalScreen { width: 2, height: 2 };
    assert!(build_game_screen(&mut smallest).is_empty());
    assert_eq!(smallest, TerminalScreen { width: 0, height: 0 });
}

#[test]
fn is_shaped_tells_ragged_grids() {
    let mut grid = vec![vec![Cell::Wall; 3]; 2];
    assert!(is_shaped(&grid, 2, 3));
    assert!(!is_shaped(&grid, 3, 2));
    assert!(!is_shaped(&grid, 2, 4));
    grid[1].push(Cell::Wall);
    assert!(!is_shaped(&grid, 2, 3));
    assert!(is_shaped(&Vec::new(), 0, 7));
}

#[test]
fn visited_changes_untouched_walls_only() {
    let mut grid = vec![
        vec![Cell::TopLeft, Cell::Horizontal, Cell::Horizontal, Cell::TopRight],
        vec![Cell::Vertical, Cell::Wall, Cell::Open, Cell::Vertical],
        vec![Cell::Vertical, Cell::Marked, Cell::Wall, Cell::Vertical],
        vec![Cell::BottomLeft, Cell::Horizontal, Cell::Horizontal, Cell::BottomRight],
    ];
    visited(&mut grid, &(1, 1));
    assert_eq!(
        grid,
        vec![
            vec![Cell::TopLeft, Cell::Horizontal, Cell::Horizontal, Cell::TopRight],
            vec![Cell::Vertical, Cell::Wall, Cell::Open, Cell::Vertical],
            vec![Cell::Vertical, Cell::Marked, Cell::Wall, Cell::Vertical],
            vec![Cell::BottomLeft, Cell::Horizontal, Cell::Horizontal, Cell::BottomRight],
        ]
    );
    visited(&mut grid, &(1, 2));
    assert_eq!(grid[1][1], Cell::Marked);
    assert_eq!(grid[2][2], Cell::Marked);
    assert_eq!(grid[0][2], Cell::Horizontal);
    assert_eq!(grid[1][3], Cell::Vertical);
    assert_eq!(grid[1][2], Cell::Open);
}

#[test]
fn visited_skips_what_lies_outside() {
    let mut grid = vec![vec![Cell::Wall; 2]; 2];
    visited(&mut grid, &(0, 0));
    assert_eq!(grid, vec![vec![Cell::Wall, Cell::Marked], vec![Cell::Marked, Cell::Wall]]);
    let mut far = vec![vec![Cell::Wall; 2]; 2];
    visited(&mut far, &(usize::MAX, usize::MAX));
    visited(&mut far, &(5, 5));
    assert_eq!(far, vec![vec![Cell::Wall; 2]; 2]);
    visited(&mut far, &(2, 1));
    assert_eq!(far, vec![vec![Cell::Wall, Cell::Wall], vec![Cell::Wall, Cell::Marked]]);
    let mut ragged = vec![vec![Cell::Wall; 3], vec![Cell::Wall; 1]];
    visited(&mut ragged, &(1, 2));
    assert_eq!(ragged, vec![vec![Cell::Wall, Cell::Wall, Cell::Marked], vec![Cell::Wall]]);
}

#[test]
fn marked_visted_flags_one_wall() {
    let mut grid = vec![vec![Cell::Wall, Cell::Open], vec![Cell::Horizontal, Cell::Wall]];
    marked_visted(&mut grid, &(0, 0));
    marked_visted(&mut grid, &(0, 1));
    marked_visted(&mut grid, &(1, 0));
    marked_visted(&mut grid, &(2, 0));
    marked_visted(&mut grid, &(0, 2));
    assert_eq!(grid, vec![vec![Cell::Marked, Cell::Open], vec![Cell::Horizontal, Cell::Wall]]);
}

#[test]
fn find_similar_value_looks_one_to_each_side() {
    let points: Vec<usize> = vec![4, 9];
    assert!(!find_similar_value(&points, 2));
    assert!(find_similar_value(&points, 3));
    assert!(find_similar_value(&points, 4));
    assert!(find_similar_value(&points, 5));
    assert!(!find_similar_value(&points, 6));
    assert!(!find_similar_value(&points, 7));
    assert!(find_similar_value(&points, 8));
    assert!(find_similar_value(&points, 10));
    assert!(!find_similar_value(&points, 11));
    assert!(!find_similar_value(&[], 0));
}

#[test]
fn find_similar_value_at_the_ends_of_the_range() {
    assert!(find_similar_value(&[1], 0));
    assert!(!find_similar_value(&[2], 0));
    assert!(find_similar_value(&[0], 0));
    assert!(find_similar_value(&[usize::MAX - 1], usize::MAX));
    assert!(!find_similar_value(&[0], usize::MAX));
    assert!(!find_similar_value(&[usize::MAX], 0));
}

#[test]
fn replace_string_leaves_other_cells() {
    let mut grid = vec![vec![Cell::Wall, Cell::Open], vec![Cell::Marked, Cell::Wall, Cell::Vertical]];
    replace_string(&mut grid, Cell::Wall, Cell::OpenFinal);
    assert_eq!(
        grid,
        vec![vec![Cell::OpenFinal, Cell::Open], vec![Cell::Marked, Cell::OpenFinal, Cell::Vertical]]
    );
    replace_string(&mut grid, Cell::TopLeft, Cell::Wall);
    assert_eq!(
        grid,
        vec![vec![Cell::OpenFinal, Cell::Open], vec![Cell::Marked, Cell::OpenFinal, Cell::Vertical]]
    );
}

#[test]
fn clean_maze_of_open_cells() {
    let mut grid: Vec<Vec<Cell>> = vec![vec![Cell::Open; 3]; 3];
    clean_maze(&mut grid);
    assert_eq!(grid, vec![vec![Cell::WallFinal; 3]; 3]);
}

#[test]
fn clean_maze_of_a_carved_box() {
    let mut grid = vec![
        vec![Cell::TopLeft, Cell::Horizontal, Cell::Horizontal, Cell::Horizontal, Cell::TopRight],
        vec![Cell::Vertical, Cell::Marked, Cell::Marked, Cell::Wall, Cell::Vertical],
        vec![Cell::Vertical, Cell::Open, Cell::Open, Cell::Marked, Cell::Vertical],
        vec![Cell::BottomLeft, Cell::Horizontal, Cell::Horizontal, Cell::Horizontal, Cell::BottomRight],
    ];
    clean_maze(&mut grid);
    assert_eq!(
        grid,
        vec![
            vec![Cell::TopLeft, Cell::Horizontal, Cell::Horizontal, Cell::Horizontal, Cell::TopRight],
            vec![Cell::Vertical, Cell::OpenFinal, Cell::OpenFinal, Cell::WallFinal, Cell::Vertical],
            vec![Cell::Vertical, Cell::WallFinal, Cell::WallFinal, Cell::OpenFinal, Cell::Vertical],
            vec![Cell::BottomLeft, Cell::Horizontal, Cell::Horizontal, Cell::Horizontal, Cell::BottomRight],
        ]
    );
    let again = grid.clone();
    clean_maze(&mut grid);
    assert_eq!(grid, again);
}

#[test]
fn screen_from_size_checks_both_sides() {
    assert_eq!(screen_from_size(None), Err(TerminalError::NotDetected));
    assert_eq!(screen_from_size(Some((9, 50))), Err(TerminalError::TooSmall));
    assert_eq!(screen_from_size(Some((50, 9))), Err(TerminalError::TooSmall));
    assert_eq!(screen_from_size(Some((0, 0))), Err(TerminalError::TooSmall));
    assert_eq!(screen_from_size(Some((10, 10))), Ok(TerminalScreen { width: 10, height: 10 }));
    assert_eq!(screen_from_size(Some((80, 24))), Ok(TerminalScreen { width: 80, height: 24 }));
    assert_eq!(
        screen_from_size(Some((u16::MAX, u16::MAX))),
        Ok(TerminalScreen { width: 65535, height: 65535 })
    );
}

#[test]
fn get_terminal_size_gives_a_screen_or_says_why_not() {
    match get_terminal_size() {
        Ok(screen) => {
            assert!(screen.width >= 10 && screen.width <= 65535);
            assert!(screen.height >= 10 && screen.height <= 65535);
        }
        Err(e) => assert!(e == TerminalError::NotDetected || e == TerminalError::TooSmall),
    }
}

#[test]
fn build_maze_refuses_small_grids() {
    for (height, width) in [(7usize, 30usize), (30, 7), (3, 3), (0, 0), (7, 7)] {
        let screen = TerminalScreen { width, height };
        let mut grid = build_box(&screen);
        let before = grid.clone();
        assert_eq!(build_maze(&mut grid, &screen), Err(MazeError::InvalidDimensions));
        assert_eq!(grid, before);
    }
}

#[test]
fn build_maze_refuses_a_grid_of_another_shape() {
    let mut grid = build_box(&TerminalScreen { width: 30, height: 30 });
    let before = grid.clone();
    assert_eq!(
        build_maze(&mut grid, &TerminalScreen { width: 30, height: 31 }),
        Err(MazeError::InvalidDimensions)
    );
    assert_eq!(
        build_maze(&mut grid, &TerminalScreen { width: 29, height: 30 }),
        Err(MazeError::InvalidDimensions)
    );
    grid[4].pop();
    let ragged = grid.clone();
    assert_eq!(
        build_maze(&mut grid, &TerminalScreen { width: 30, height: 30 }),
        Err(MazeError::InvalidDimensions)
    );
    assert_eq!(grid, ragged);
    assert_ne!(grid, before);
}

#[test]
fn build_maze_gives_up_where_twenty_corridors_cannot_fit() {
    let screen = TerminalScreen { width: 8, height: 8 };
    let mut grid = build_box(&screen);
    let before = grid.clone();
    assert_eq!(build_maze(&mut grid, &screen), Err(MazeError::CarveCapacityExceeded));
    assert_eq!(grid, before);
}

#[test]
fn build_maze_fills_a_large_box() {
    let mut terminal = TerminalScreen { width: 82, height: 62 };
    let mut grid = build_game_screen(&mut terminal);
    let (ring_before, _) = ring_and_inside(&grid);
    assert_eq!(build_maze(&mut grid, &terminal), Ok(()));
    assert!(is_shaped(&grid, 60, 80));
    let (ring, inside) = ring_and_inside(&grid);
    assert_eq!(ring, ring_before);
    assert!(inside.iter().all(|cell| *cell == Cell::OpenFinal || *cell == Cell::WallFinal));
    assert!(inside.iter().any(|cell| *cell == Cell::OpenFinal));
    assert!(inside.iter().any(|cell| *cell == Cell::WallFinal));
}

#[test]
fn glyph_rows_of_a_ragged_grid() {
    let grid = vec![vec![Cell::TopLeft, Cell::Wall, Cell::Marked], vec![], vec![Cell::OpenFinal]];
    assert_eq!(glyph_rows(&grid), vec![vec!['┌', 'O', 'X'], vec![], vec!['X']]);
    assert_eq!(glyph_rows(&Vec::new()), Vec::<Vec<char>>::new());
}

#[test]
fn box_of_five_rows_and_five_columns() {
    let grid = build_box(&TerminalScreen { width: 5, height: 5 });
    assert_eq!(
        glyphs(&grid).iter().map(|row| row.concat()).collect::<Vec<String>>(),
        vec!["┌───┐", "│OOO│", "│OOO│", "│OOO│", "└───┘"]
    );
    let (ring, inside) = ring_and_inside(&grid);
    assert_eq!(ring.len(), 16);
    assert_eq!(inside, vec![Cell::Wall; 9]);
}
