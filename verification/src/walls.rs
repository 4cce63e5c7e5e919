//! Walls of a tile map. A map is a grid of cells, each a piece of wall or
//! free; neighbouring wall cells are merged into long straight walls.

use crate::text::{lines_of, str_lines, str_trim, trimmed};
use vstd::prelude::*;

verus! {

/// A straight wall from the tile `(x1, y1)` to the tile `(x2, y2)`, both
/// included. `x` counts columns from the left, `y` rows from the top.
#[derive(Clone, Copy, Debug, PartialEq, Eq, Structural)]
pub struct WallSegment {
    pub x1: usize,
    pub y1: usize,
    pub x2: usize,
    pub y2: usize,
}

/// Whether the cells `a..=b` of a line are a wall: two or more wall cells in
/// a row, with no wall cell next to either end.
pub open spec fn is_run(cells: Seq<bool>, a: int, b: int) -> bool {
    &&& 0 <= a < b < cells.len()
    &&& forall|i: int| a <= i <= b ==> cells[i]
    &&& (a == 0 || !cells[a - 1])
    &&& (b == cells.len() - 1 || !cells[b + 1])
}

/// The cells of a grid, row by row.
pub open spec fn grid_cells(grid: Seq<Vec<bool>>) -> Seq<Seq<bool>> {
    Seq::new(grid.len(), |y: int| grid[y]@)
}

/// The width of a map: the length of its first row.
pub open spec fn width(cells: Seq<Seq<bool>>) -> int {
    cells[0].len() as int
}

/// Whether a grid is a map: it has a row, and no row is shorter than the
/// first. What a row holds beyond the width of the map is not part of it.
pub open spec fn is_map(cells: Seq<Seq<bool>>) -> bool {
    &&& cells.len() > 0
    &&& forall|y: int| 0 <= y < cells.len() ==> (#[trigger] cells[y]).len() >= width(cells)
}

/// Row `y` of a map.
pub open spec fn row_cells(cells: Seq<Seq<bool>>, y: int) -> Seq<bool> {
    cells[y].take(width(cells))
}

/// Column `x` of a map.
pub open spec fn column_cells(cells: Seq<Seq<bool>>, x: int) -> Seq<bool> {
    Seq::new(cells.len(), |y: int| cells[y][x])
}

/// Whether `wall` lies in one row.
pub open spec fn is_horizontal(wall: WallSegment) -> bool {
    wall.y1 == wall.y2
}

/// Whether `wall` is a wall along a row of the map.
pub open spec fn is_horizontal_wall(cells: Seq<Seq<bool>>, wall: WallSegment) -> bool {
    &&& wall.y1 == wall.y2
    &&& wall.y1 < cells.len()
    &&& is_run(row_cells(cells, wall.y1 as int), wall.x1 as int, wall.x2 as int)
}

/// Whether `wall` is a wall along a column of the map.
pub open spec fn is_vertical_wall(cells: Seq<Seq<bool>>, wall: WallSegment) -> bool {
    &&& wall.x1 == wall.x2
    &&& wall.x1 < width(cells)
    &&& is_run(column_cells(cells, wall.x1 as int), wall.y1 as int, wall.y2 as int)
}

/// The order in which walls are listed: those along rows first, from the top
/// row down and from left to right in a row; then those along columns, from
/// the left column on and from the top down in a column.
pub open spec fn comes_before(first: WallSegment, second: WallSegment) -> bool {
    if is_horizontal(first) && is_horizontal(second) {
        first.y1 < second.y1 || (first.y1 == second.y1 && first.x2 < second.x1)
    } else if is_horizontal(first) {
        true
    } else if is_horizontal(second) {
        false
    } else {
        first.x1 < second.x1 || (first.x1 == second.x1 && first.y2 < second.y1)
    }
}

/// Whether no wall of a line runs across position `x`.
spec fn is_boundary(cells: Seq<bool>, x: int) -> bool {
    x == 0 || x == cells.len() || !cells[x - 1] || !cells[x]
}

proof fn lemma_step_over_cell(cells: Seq<bool>, x: int)
    requires
        0 <= x < cells.len(),
        is_boundary(cells, x),
        !(cells[x] && x + 1 < cells.len() && cells[x + 1]),
    ensures
        is_boundary(cells, x + 1),
        forall|a: int, b: int| #[trigger] is_run(cells, a, b) && b < x + 1 ==> b < x,
{
    assert forall|a: int, b: int| #[trigger] is_run(cells, a, b) && b < x + 1 implies b < x by {
        if b == x {
            assert(cells[x - 1]);
            assert(cells[x]);
        }
    }
}

proof fn lemma_step_over_run(cells: Seq<bool>, start: int, end: int)
    requires
        0 <= start,
        start + 2 <= end <= cells.len(),
        is_boundary(cells, start),
        forall|i: int| start <= i < end ==> cells[i],
        end == cells.len() || !cells[end],
    ensures
        is_boundary(cells, end),
        is_run(cells, start, end - 1),
        forall|a: int, b: int|
            #[trigger] is_run(cells, a, b) && b < end ==> b < start || (a == start && b == end - 1),
{
    assert(cells[start]);
    assert forall|a: int, b: int| #[trigger] is_run(cells, a, b) && b < end implies b < start || (a
        == start && b == end - 1) by {
        if b >= start {
            if b + 1 < end {
                assert(cells[b + 1]);
            }
            if a > start {
                assert(cells[a - 1]);
            }
            if a < start {
                assert(cells[start - 1]);
            }
        }
    }
}

/// Whether `walls` lists exactly the walls of the map, in order.
pub open spec fn lists_walls(cells: Seq<Seq<bool>>, walls: Seq<WallSegment>) -> bool {
    &&& forall|wall: WallSegment|
        walls.contains(wall) <==> is_horizontal_wall(cells, wall) || is_vertical_wall(cells, wall)
    &&& forall|i: int, j: int| 0 <= i < j < walls.len() ==> comes_before(walls[i], walls[j])
}

/// What of the map has been scanned: the rows above `y` and, of row `y`, what
/// lies left of `x`; likewise for columns once the rows are done.
spec fn is_scanned_row(wall: WallSegment, y: int, x: int) -> bool {
    wall.y1 < y || (wall.y1 == y && wall.x2 < x)
}

spec fn is_scanned_column(wall: WallSegment, x: int, y: int) -> bool {
    wall.x1 < x || (wall.x1 == x && wall.y2 < y)
}

spec fn lists_rows(cells: Seq<Seq<bool>>, walls: Seq<WallSegment>, y: int, x: int) -> bool {
    &&& forall|wall: WallSegment|
        walls.contains(wall) <==> is_horizontal_wall(cells, wall) && is_scanned_row(wall, y, x)
    &&& forall|i: int, j: int| 0 <= i < j < walls.len() ==> comes_before(walls[i], walls[j])
}

spec fn lists_columns(cells: Seq<Seq<bool>>, walls: Seq<WallSegment>, x: int, y: int) -> bool {
    &&& forall|wall: WallSegment|
        walls.contains(wall) <==> is_horizontal_wall(cells, wall) || (is_vertical_wall(cells, wall)
            && is_scanned_column(wall, x, y))
    &&& forall|i: int, j: int| 0 <= i < j < walls.len() ==> comes_before(walls[i], walls[j])
}

proof fn lemma_add_row_wall(
    cells: Seq<Seq<bool>>,
    walls: Seq<WallSegment>,
    y: int,
    start: int,
    end: int,
    added: WallSegment,
)
    requires
        is_map(cells),
        0 <= y < cells.len(),
        lists_rows(cells, walls, y, start),
        added.y1 == y && added.y2 == y && added.x1 == start && added.x2 == end - 1,
        is_run(row_cells(cells, y), start, end - 1),
        forall|a: int, b: int|
            #[trigger] is_run(row_cells(cells, y), a, b) && b < end ==> b < start || (a == start
                && b == end - 1),
    ensures
        lists_rows(cells, walls.push(added), y, end),
{
    let pushed = walls.push(added);
    assert forall|wall: WallSegment| pushed.contains(wall) <==> is_horizontal_wall(cells, wall)
        && is_scanned_row(wall, y, end) by {
        vstd::seq_lib::lemma_seq_contains_after_push(walls, added, wall);
        if is_horizontal_wall(cells, wall) && wall.y1 == y && wall.x2 < end {
            assert(is_run(row_cells(cells, y), wall.x1 as int, wall.x2 as int));
        }
    }
    assert forall|i: int, j: int| 0 <= i < j < pushed.len() implies comes_before(
        pushed[i],
        pushed[j],
    ) by {
        if j == walls.len() {
            assert(walls.contains(walls[i]));
        }
    }
}

proof fn lemma_add_column_wall(
    cells: Seq<Seq<bool>>,
    walls: Seq<WallSegment>,
    x: int,
    start: int,
    end: int,
    added: WallSegment,
)
    requires
        is_map(cells),
        0 <= x < width(cells),
        lists_columns(cells, walls, x, start),
        added.x1 == x && added.x2 == x && added.y1 == start && added.y2 == end - 1,
        is_run(column_cells(cells, x), start, end - 1),
        forall|a: int, b: int|
            #[trigger] is_run(column_cells(cells, x), a, b) && b < end ==> b < start || (a == start
                && b == end - 1),
    ensures
        lists_columns(cells, walls.push(added), x, end),
{
    let pushed = walls.push(added);
    assert forall|wall: WallSegment| pushed.contains(wall) <==> is_horizontal_wall(cells, wall) || (
    is_vertical_wall(cells, wall) && is_scanned_column(wall, x, end)) by {
        vstd::seq_lib::lemma_seq_contains_after_push(walls, added, wall);
        if is_vertical_wall(cells, wall) && wall.x1 == x && wall.y2 < end {
            assert(is_run(column_cells(cells, x), wall.y1 as int, wall.y2 as int));
        }
    }
    assert forall|i: int, j: int| 0 <= i < j < pushed.len() implies comes_before(
        pushed[i],
        pushed[j],
    ) by {
        if j == walls.len() {
            assert(walls.contains(walls[i]));
        }
    }
}

/// Merges the wall cells of a map into walls: along each row, every stretch
/// of two or more wall cells becomes one wall, and likewise along each
/// column. A wall cell with no wall cell beside it yields nothing.
pub fn merge_walls(grid: &Vec<Vec<bool>>) -> (walls: Vec<WallSegment>)
    requires
        is_map(grid_cells(grid@)),
    ensures
        lists_walls(grid_cells(grid@), walls@),
{
    let ghost cells = grid_cells(grid@);
    let rows: usize = grid.len();
    assert(cells[0] == grid@[0]@);
    let cols: usize = grid[0].len();
    let mut walls: Vec<WallSegment> = Vec::new();

    let mut y: usize = 0;
    while y < rows
        invariant
            cells == grid_cells(grid@),
            is_map(cells),
            rows == cells.len(),
            cols == width(cells),
            y <= rows,
            lists_rows(cells, walls@, y as int, 0),
        decreases rows - y,
    {
        let ghost row = row_cells(cells, y as int);
        assert(cells[y as int] == grid@[y as int]@);
        let mut x: usize = 0;
        while x < cols
            invariant
                cells == grid_cells(grid@),
                is_map(cells),
                rows == cells.len(),
                cols == width(cells),
                y < rows,
                x <= cols,
                row == row_cells(cells, y as int),
                cells[y as int] == grid@[y as int]@,
                is_boundary(row, x as int),
                lists_rows(cells, walls@, y as int, x as int),
            decreases cols - x,
        {
            if grid[y][x] && x + 1 < cols && grid[y][x + 1] {
                let start: usize = x;
                while x < cols && grid[y][x]
                    invariant
                        cells == grid_cells(grid@),
                        cols == width(cells),
                        y < rows,
                        rows == cells.len(),
                        is_map(cells),
                        row == row_cells(cells, y as int),
                        cells[y as int] == grid@[y as int]@,
                        start <= x <= cols,
                        start + 1 < cols,
                        row[start as int] && row[start + 1],
                        forall|i: int| start <= i < x ==> row[i],
                    decreases cols - x,
                {
                    x = x + 1;
                }
                let added = WallSegment { x1: start, y1: y, x2: x - 1, y2: y };
                proof {
                    if x < start + 2 {
                        assert(!row[x as int]);
                    }
                    lemma_step_over_run(row, start as int, x as int);
                    lemma_add_row_wall(cells, walls@, y as int, start as int, x as int, added);
                }
                walls.push(added);
            } else {
                proof {
                    lemma_step_over_cell(row, x as int);
                    assert forall|wall: WallSegment|
                        is_horizontal_wall(cells, wall) && is_scanned_row(
                            wall,
                            y as int,
                            x + 1,
                        ) implies is_scanned_row(wall, y as int, x as int) by {
                        if wall.y1 == y {
                            assert(is_run(row, wall.x1 as int, wall.x2 as int));
                        }
                    }
                }
                x = x + 1;
            }
        }
        proof {
            assert forall|wall: WallSegment|
                is_horizontal_wall(cells, wall) && is_scanned_row(
                    wall,
                    y + 1,
                    0,
                ) implies is_scanned_row(wall, y as int, cols as int) by {}
        }
        y = y + 1;
    }

    let mut x: usize = 0;
    while x < cols
        invariant
            cells == grid_cells(grid@),
            is_map(cells),
            rows == cells.len(),
            cols == width(cells),
            x <= cols,
            lists_columns(cells, walls@, x as int, 0),
        decreases cols - x,
    {
        let ghost column = column_cells(cells, x as int);
        let mut y: usize = 0;
        while y < rows
            invariant
                cells == grid_cells(grid@),
                is_map(cells),
                rows == cells.len(),
                cols == width(cells),
                x < cols,
                y <= rows,
                column == column_cells(cells, x as int),
                is_boundary(column, y as int),
                lists_columns(cells, walls@, x as int, y as int),
            decreases rows - y,
        {
            assert(cells[y as int] == grid@[y as int]@);
            if y + 1 < rows {
                assert(cells[y + 1] == grid@[y + 1]@);
            }
            if grid[y][x] && y + 1 < rows && grid[y + 1][x] {
                let start: usize = y;
                while y < rows && grid[y][x]
                    invariant
                        cells == grid_cells(grid@),
                        is_map(cells),
                        rows == cells.len(),
                        cols == width(cells),
                        x < cols,
                        column == column_cells(cells, x as int),
                        start <= y <= rows,
                        start + 1 < rows,
                        column[start as int] && column[start + 1],
                        forall|i: int| start <= i < y ==> column[i],
                        y < rows ==> cells[y as int] == grid@[y as int]@,
                    decreases rows - y,
                {
                    y = y + 1;
                    if y < rows {
                        assert(cells[y as int] == grid@[y as int]@);
                    }
                }
                let added = WallSegment { x1: x, y1: start, x2: x, y2: y - 1 };
                proof {
                    if y < start + 2 {
                        assert(!column[y as int]);
                    }
                    lemma_step_over_run(column, start as int, y as int);
                    lemma_add_column_wall(cells, walls@, x as int, start as int, y as int, added);
                }
                walls.push(added);
            } else {
                proof {
                    lemma_step_over_cell(column, y as int);
                    assert forall|wall: WallSegment|
                        is_vertical_wall(cells, wall) && is_scanned_column(
                            wall,
                            x as int,
                            y + 1,
                        ) implies is_scanned_column(wall, x as int, y as int) by {
                        if wall.x1 == x {
                            assert(is_run(column, wall.y1 as int, wall.y2 as int));
                        }
                    }
                }
                y = y + 1;
            }
        }
        proof {
            assert forall|wall: WallSegment|
                is_vertical_wall(cells, wall) && is_scanned_column(
                    wall,
                    x + 1,
                    0,
                ) implies is_scanned_column(wall, x as int, rows as int) by {}
        }
        x = x + 1;
    }
    walls
}

/// Whether a list is in the order of [`comes_before`] and holds walls that
/// end where they start or after.
spec fn is_ordered(walls: Seq<WallSegment>) -> bool {
    &&& forall|i: int, j: int| 0 <= i < j < walls.len() ==> comes_before(walls[i], walls[j])
    &&& forall|i: int|
        0 <= i < walls.len() ==> (#[trigger] walls[i]).x1 <= walls[i].x2 && walls[i].y1
            <= walls[i].y2
}

proof fn lemma_ordered_lists_with_same_walls_are_equal(
    first: Seq<WallSegment>,
    second: Seq<WallSegment>,
)
    requires
        is_ordered(first),
        is_ordered(second),
        forall|wall: WallSegment| first.contains(wall) <==> second.contains(wall),
    ensures
        first == second,
    decreases first.len(),
{
    if first.len() == 0 {
        if second.len() > 0 {
            assert(second.contains(second[0]));
        }
        assert(first =~= second);
    } else {
        assert(first.contains(first[0]));
        let k = choose|k: int| 0 <= k < second.len() && second[k] == first[0];
        assert(second.contains(second[0]));
        let m = choose|m: int| 0 <= m < first.len() && first[m] == second[0];
        if k > 0 && m > 0 {
            assert(comes_before(second[0], second[k]));
            assert(comes_before(first[0], first[m]));
        }
        assert(first[0] == second[0]);
        let rest = first.skip(1);
        let other = second.skip(1);
        assert forall|wall: WallSegment| rest.contains(wall) <==> other.contains(wall) by {
            if rest.contains(wall) {
                let i = choose|i: int| 0 <= i < rest.len() && rest[i] == wall;
                assert(first[i + 1] == wall);
                assert(comes_before(first[0], first[i + 1]));
                assert(second.contains(wall));
                let j = choose|j: int| 0 <= j < second.len() && second[j] == wall;
                assert(other[j - 1] == wall);
            }
            if other.contains(wall) {
                let i = choose|i: int| 0 <= i < other.len() && other[i] == wall;
                assert(second[i + 1] == wall);
                assert(comes_before(second[0], second[i + 1]));
                assert(first.contains(wall));
                let j = choose|j: int| 0 <= j < first.len() && first[j] == wall;
                assert(rest[j - 1] == wall);
            }
        }
        assert forall|i: int, j: int| 0 <= i < j < rest.len() implies comes_before(
            rest[i],
            rest[j],
        ) by {
            assert(comes_before(first[i + 1], first[j + 1]));
        }
        assert forall|i: int, j: int| 0 <= i < j < other.len() implies comes_before(
            other[i],
            other[j],
        ) by {
            assert(comes_before(second[i + 1], second[j + 1]));
        }
        lemma_ordered_lists_with_same_walls_are_equal(rest, other);
        assert(first =~= seq![first[0]] + rest);
        assert(second =~= seq![second[0]] + other);
    }
}

/// The walls of a map are one list and no other: two lists that both list
/// the walls of a map are equal.
pub proof fn lemma_walls_are_determined(
    cells: Seq<Seq<bool>>,
    first: Seq<WallSegment>,
    second: Seq<WallSegment>,
)
    requires
        lists_walls(cells, first),
        lists_walls(cells, second),
    ensures
        first == second,
{
    assert forall|i: int| 0 <= i < first.len() implies (#[trigger] first[i]).x1 <= first[i].x2
        && first[i].y1 <= first[i].y2 by {
        assert(first.contains(first[i]));
    }
    assert forall|i: int| 0 <= i < second.len() implies (#[trigger] second[i]).x1 <= second[i].x2
        && second[i].y1 <= second[i].y2 by {
        assert(second.contains(second[i]));
    }
    lemma_ordered_lists_with_same_walls_are_equal(first, second);
}

/// The cells that a line of text stands for: `#` is a piece of wall, every
/// other character is free.
pub open spec fn cells_of_line(line: Seq<char>) -> Seq<bool> {
    Seq::new(line.len(), |x: int| line[x] == '#')
}

/// The grid that a text stands for: one row for each line of the text
/// without the white space around it.
pub open spec fn cells_of_text(text: Seq<char>) -> Seq<Seq<bool>> {
    Seq::new(lines_of(trimmed(text)).len(), |y: int| cells_of_line(lines_of(trimmed(text))[y]))
}

/// Reads a grid from a text in which `#` marks a piece of wall.
pub fn parse_grid(text: &str) -> (grid: Vec<Vec<bool>>)
    ensures
        grid_cells(grid@) == cells_of_text(text@),
{
    let lines = str_lines(str_trim(text));
    let ghost found = lines_of(trimmed(text@));
    let mut grid: Vec<Vec<bool>> = Vec::new();
    let mut y: usize = 0;
    while y < lines.len()
        invariant
            y <= lines@.len(),
            lines@.len() == found.len(),
            forall|i: int| 0 <= i < lines@.len() ==> (#[trigger] lines@[i])@ == found[i],
            grid@.len() == y,
            forall|i: int| 0 <= i < y ==> (#[trigger] grid@[i])@ == cells_of_line(found[i]),
        decreases lines@.len() - y,
    {
        let line: &str = lines[y];
        let length: usize = line.unicode_len();
        let mut row: Vec<bool> = Vec::new();
        let mut x: usize = 0;
        while x < length
            invariant
                x <= length,
                length == line@.len(),
                row@.len() == x,
                forall|i: int| 0 <= i < x ==> row@[i] == (line@[i] == '#'),
            decreases length - x,
        {
            row.push(line.get_char(x) == '#');
            x = x + 1;
        }
        assert(row@ =~= cells_of_line(found[y as int]));
        grid.push(row);
        y = y + 1;
    }
    assert(grid_cells(grid@) =~= cells_of_text(text@));
    grid
}

/// Whether a grid is a map: it has a row, and no row is shorter than the
/// first.
pub fn grid_is_map(grid: &Vec<Vec<bool>>) -> (ok: bool)
    ensures
        ok == is_map(grid_cells(grid@)),
{
    if grid.len() == 0 {
        return false;
    }
    let ghost cells = grid_cells(grid@);
    assert(cells[0] == grid@[0]@);
    let cols: usize = grid[0].len();
    let mut y: usize = 0;
    while y < grid.len()
        invariant
            cells == grid_cells(grid@),
            cells.len() > 0,
            cols == width(cells),
            y <= grid@.len(),
            forall|i: int| 0 <= i < y ==> (#[trigger] cells[i]).len() >= cols,
        decreases grid@.len() - y,
    {
        assert(cells[y as int] == grid@[y as int]@);
        if grid[y].len() < cols {
            return false;
        }
        y = y + 1;
    }
    true
}

/// The walls of the map that `text` draws, or `None` where the text draws no
/// map: where it has no line, or a line shorter than the first.
pub fn map_walls(text: &str) -> (walls: Option<Vec<WallSegment>>)
    ensures
        match walls {
            Some(found) => is_map(cells_of_text(text@)) && lists_walls(cells_of_text(text@), found@),
            None => !is_map(cells_of_text(text@)),
        },
{
    let grid = parse_grid(text);
    if grid_is_map(&grid) {
        Some(merge_walls(&grid))
    } else {
        None
    }
}

} // verus!
