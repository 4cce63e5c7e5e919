use netcode_auth::walls::{grid_is_map, map_walls, merge_walls, parse_grid, WallSegment};

fn wall(x1: usize, y1: usize, x2: usize, y2: usize) -> WallSegment {
    WallSegment { x1, y1, x2, y2 }
}

fn grid_of(rows: &[&str]) -> Vec<Vec<bool>> {
    rows.iter().map(|row| row.chars().map(|c| c == '#').collect()).collect()
}

/// Scans a grid row by row and then column by column, marking what it has
/// used, and collects the stretches of two or more wall cells.
fn scan(grid: &[Vec<bool>]) -> Vec<WallSegment> {
    let rows = grid.len();
    let cols = grid[0].len();
    let mut h_used = vec![vec![false; cols]; rows];
    let mut v_used = vec![vec![false; cols]; rows];
    let mut found = Vec::new();
    for y in 0..rows {
        let mut x = 0;
        while x < cols {
            if grid[y][x] && (x + 1 < cols && grid[y][x + 1]) && !h_used[y][x] {
                let start_x = x;
                while x < cols && grid[y][x] {
                    h_used[y][x] = true;
                    x += 1;
                }
                found.push(wall(start_x, y, x - 1, y));
            } else {
                x += 1;
            }
        }
    }
    for x in 0..cols {
        let mut y = 0;
        while y < rows {
            if grid[y][x] && (y + 1 < rows && grid[y + 1][x]) && !v_used[y][x] {
                let start_y = y;
                while y < rows && grid[y][x] {
                    v_used[y][x] = true;
                    y += 1;
                }
                found.push(wall(x, start_y, x, y - 1));
            } else {
                y += 1;
            }
        }
    }
    found
}

#[test]
fn two_cells_in_a_row_are_one_wall() {
    assert_eq!(merge_walls(&grid_of(&["##"])), vec![wall(0, 0, 1, 0)]);
}

#[test]
fn two_cells_in_a_column_are_one_wall() {
    assert_eq!(merge_walls(&grid_of(&["#", "#"])), vec![wall(0, 0, 0, 1)]);
}

#[test]
fn a_lone_cell_is_no_wall() {
    assert_eq!(merge_walls(&grid_of(&["#"])), Vec::new());
    assert_eq!(merge_walls(&grid_of(&["   ", " # ", "   "])), Vec::new());
    assert_eq!(merge_walls(&grid_of(&["# #", "   ", "# #"])), Vec::new());
}

#[test]
fn an_empty_row_has_no_wall() {
    assert_eq!(merge_walls(&grid_of(&[""])), Vec::new());
    assert_eq!(merge_walls(&grid_of(&["   "])), Vec::new());
}

#[test]
fn a_row_may_hold_several_walls() {
    assert_eq!(
        merge_walls(&grid_of(&["### ## # ####"])),
        vec![wall(0, 0, 2, 0), wall(4, 0, 5, 0), wall(9, 0, 12, 0)]
    );
}

#[test]
fn a_full_square_has_rows_first_then_columns() {
    assert_eq!(
        merge_walls(&grid_of(&["##", "##"])),
        vec![wall(0, 0, 1, 0), wall(0, 1, 1, 1), wall(0, 0, 0, 1), wall(1, 0, 1, 1)]
    );
}

#[test]
fn a_box_has_four_walls() {
    assert_eq!(
        merge_walls(&grid_of(&["####", "#  #", "####"])),
        vec![wall(0, 0, 3, 0), wall(0, 2, 3, 2), wall(0, 0, 0, 2), wall(3, 0, 3, 2)]
    );
}

#[test]
fn cells_beyond_the_first_row_width_are_ignored() {
    assert_eq!(
        merge_walls(&grid_of(&["# ", "###"])),
        vec![wall(0, 1, 1, 1), wall(0, 0, 0, 1)]
    );
    assert_eq!(merge_walls(&grid_of(&["# ", "# ##"])), vec![wall(0, 0, 0, 1)]);
}

#[test]
fn grid_is_map_wants_a_row_and_no_row_shorter_than_the_first() {
    assert!(!grid_is_map(&Vec::new()));
    assert!(grid_is_map(&grid_of(&[""])));
    assert!(grid_is_map(&grid_of(&["##", "##"])));
    assert!(grid_is_map(&grid_of(&["##", "###"])));
    assert!(!grid_is_map(&grid_of(&["##", "#"])));
    assert!(!grid_is_map(&grid_of(&["##", "##", ""])));
}

#[test]
fn parse_grid_reads_hashes_as_walls() {
    assert_eq!(
        parse_grid("# #\n##x"),
        vec![vec![true, false, true], vec![true, true, false]]
    );
}

#[test]
fn parse_grid_drops_the_white_space_around_the_text() {
    assert_eq!(parse_grid("\n\n  ##\n#  \n\n"), vec![vec![true, true], vec![true]]);
    assert_eq!(parse_grid(""), Vec::<Vec<bool>>::new());
    assert_eq!(parse_grid(" \n "), Vec::<Vec<bool>>::new());
}

#[test]
fn parse_grid_reads_windows_line_endings() {
    assert_eq!(parse_grid("##\r\n #\r\n"), vec![vec![true, true], vec![false, true]]);
}

#[test]
fn parse_grid_keeps_empty_lines_inside() {
    assert_eq!(parse_grid("#\n\n#"), vec![vec![true], vec![], vec![true]]);
}

#[test]
fn map_walls_of_a_text() {
    let text = "
####
#  #
####
";
    assert_eq!(
        map_walls(text),
        Some(vec![wall(0, 0, 3, 0), wall(0, 2, 3, 2), wall(0, 0, 0, 2), wall(3, 0, 3, 2)])
    );
}

#[test]
fn map_walls_refuses_a_text_without_a_map() {
    assert_eq!(map_walls(""), None);
    assert_eq!(map_walls("   \n  "), None);
    assert_eq!(map_walls("###\n##"), None);
    assert_eq!(map_walls("#\n\n#"), None);
}

#[test]
fn merge_walls_agrees_with_a_marking_scan() {
    let maze = [
        "############",
        "#     #    #",
        "# ##  # ## #",
        "# #     #  #",
        "# #  ####  #",
        "#    #     #",
        "###  #  ####",
        "#          #",
        "############",
    ];
    let grid = grid_of(&maze);
    let walls = merge_walls(&grid);
    assert_eq!(walls, scan(&grid));
    assert_eq!(walls.first(), Some(&wall(0, 0, 11, 0)));
    assert_eq!(walls.last(), Some(&wall(11, 0, 11, 8)));
    assert_eq!(map_walls(&maze.join("\n")), Some(scan(&grid)));
}

#[test]
fn merge_walls_agrees_with_a_marking_scan_on_patterns() {
    for seed in 0u32..200 {
        let rows = 1 + (seed % 5) as usize;
        let cols = 1 + (seed / 5 % 6) as usize;
        let mut bits = seed.wrapping_mul(2654435761);
        let mut grid = Vec::new();
        for _ in 0..rows {
            let mut row = Vec::new();
            for _ in 0..cols {
                bits = bits.wrapping_mul(1664525).wrapping_add(1013904223);
                row.push(bits >> 16 & 1 == 1);
            }
            grid.push(row);
        }
        assert_eq!(merge_walls(&grid), scan(&grid));
    }
}
