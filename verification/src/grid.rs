//! Row-major grids of pixels and rectangles written into them.
//!
//! A grid of `width` columns is stored as one sequence, row after row: the
//! cell in column `col` of row `row` is element `row * width + col`, and
//! element `i` is the cell in column `i % width` of row `i / width`.

use vstd::arithmetic::div_mod::{
    lemma_fundamental_div_mod,
    lemma_fundamental_div_mod_converse,
    lemma_mod_bound,
};
use vstd::prelude::*;

verus! {

/// The index of the cell in column `col` of row `row`.
pub open spec fn cell(width: int, row: int, col: int) -> int {
    row * width + col
}

/// Whether the cell in column `col` of row `row` lies in the rectangle that
/// starts at row `top`, column `left`, and is `height` rows by `width`
/// columns.
pub open spec fn in_rect(top: int, left: int, height: int, width: int, row: int, col: int) -> bool {
    top <= row < top + height && left <= col < left + width
}

/// Whether such a rectangle lies inside a grid of `grid_width` columns that
/// is stored in `grid_len` elements.
pub open spec fn rect_fits(
    grid_len: int,
    grid_width: int,
    top: int,
    left: int,
    height: int,
    width: int,
) -> bool {
    left + width <= grid_width && (top + height) * grid_width <= grid_len
}

/// What element `i` of a grid holds after `value` was written over a
/// rectangle of it.
pub open spec fn filled_at<C>(
    before: Seq<C>,
    grid_width: int,
    top: int,
    left: int,
    height: int,
    width: int,
    value: C,
    i: int,
) -> C {
    if in_rect(top, left, height, width, i / grid_width, i % grid_width) {
        value
    } else {
        before[i]
    }
}

/// What element `i` of a grid holds after a tile of `width` columns was
/// written over a rectangle of it: inside the rectangle the tile's cell at
/// the same offset from the corner, outside what was there.
pub open spec fn copied_at<C>(
    before: Seq<C>,
    grid_width: int,
    tile: Seq<C>,
    top: int,
    left: int,
    height: int,
    width: int,
    i: int,
) -> C {
    if in_rect(top, left, height, width, i / grid_width, i % grid_width) {
        tile[cell(width, i / grid_width - top, i % grid_width - left)]
    } else {
        before[i]
    }
}

/// The row and column of a cell's index are the cell's own.
pub proof fn lemma_cell_index(width: int, row: int, col: int)
    requires
        0 <= col < width,
    ensures
        cell(width, row, col) / width == row,
        cell(width, row, col) % width == col,
{
    lemma_fundamental_div_mod_converse(cell(width, row, col), width, row, col);
}

/// An index is the index of the cell at its row and column.
pub proof fn lemma_index_cell(width: int, i: int)
    requires
        0 < width,
    ensures
        i == cell(width, i / width, i % width),
        0 <= i % width < width,
        0 <= i ==> 0 <= i / width,
{
    lemma_fundamental_div_mod(i, width);
    lemma_mod_bound(i, width);
    let q = i / width;
    assert(width * q == q * width) by (nonlinear_arith);
    if 0 <= i && q < 0 {
        assert(q * width <= -width) by (nonlinear_arith)
            requires
                q <= -1,
                0 < width,
        ;
    }
}

/// A cell of a grid of `height` rows has an index below `width * height`,
/// and cells later in reading order have larger indices.
pub proof fn lemma_cell_bound(width: int, height: int, row: int, col: int)
    requires
        0 <= row < height,
        0 <= col < width,
    ensures
        0 <= cell(width, row, col) < height * width,
        cell(width, row, col) < (row + 1) * width <= height * width,
        row * width <= cell(width, row, col),
{
    assert(0 <= row * width && (row + 1) * width == row * width + width && (row + 1) * width
        <= height * width) by (nonlinear_arith)
        requires
            0 <= row < height,
            0 < width,
    ;
}

/// Writes `value` over a rectangle of a grid and leaves the rest as it was.
pub fn fill_rect<C: Copy>(
    grid: &mut Vec<C>,
    grid_width: usize,
    top: usize,
    left: usize,
    height: usize,
    width: usize,
    value: C,
)
    requires
        rect_fits(
            old(grid)@.len() as int,
            grid_width as int,
            top as int,
            left as int,
            height as int,
            width as int,
        ),
    ensures
        final(grid)@.len() == old(grid)@.len(),
        forall|i: int|
            0 <= i < old(grid)@.len() ==> #[trigger] final(grid)@[i] == filled_at(
                old(grid)@,
                grid_width as int,
                top as int,
                left as int,
                height as int,
                width as int,
                value,
                i,
            ),
{
    let ghost before = grid@;
    let cells = grid.len();
    let mut dy: usize = 0;
    while dy < height
        invariant
            before.len() == cells,
            rect_fits(
                before.len() as int,
                grid_width as int,
                top as int,
                left as int,
                height as int,
                width as int,
            ),
            dy <= height,
            grid@.len() == before.len(),
            forall|i: int|
                0 <= i < before.len() ==> #[trigger] grid@[i] == filled_at(
                    before,
                    grid_width as int,
                    top as int,
                    left as int,
                    dy as int,
                    width as int,
                    value,
                    i,
                ),
        decreases height - dy,
    {
        let ghost row_start = grid@;
        let mut dx: usize = 0;
        while dx < width
            invariant
                rect_fits(
                    before.len() as int,
                    grid_width as int,
                    top as int,
                    left as int,
                    height as int,
                    width as int,
                ),
                dy < height,
                dx <= width,
                before.len() == cells,
                grid@.len() == before.len(),
                row_start.len() == before.len(),
                forall|i: int|
                    0 <= i < before.len() ==> #[trigger] grid@[i] == filled_at(
                        row_start,
                        grid_width as int,
                        top + dy,
                        left as int,
                        1,
                        dx as int,
                        value,
                        i,
                    ),
            decreases width - dx,
        {
            proof {
                lemma_cell_bound(grid_width as int, top + height, top + dy, left + dx);
                lemma_cell_index(grid_width as int, top + dy, left + dx);
                assert(top + dy <= (top + dy) * grid_width) by (nonlinear_arith)
                    requires
                        0 < grid_width,
                ;
            }
            let at = (top + dy) * grid_width + left + dx;
            let ghost step_start = grid@;
            grid.set(at, value);
            proof {
                assert forall|i: int| 0 <= i < before.len() implies #[trigger] grid@[i]
                    == filled_at(
                    row_start,
                    grid_width as int,
                    top + dy,
                    left as int,
                    1,
                    dx + 1,
                    value,
                    i,
                ) by {
                    lemma_index_cell(grid_width as int, i);
                    assert(step_start[i] == filled_at(
                        row_start,
                        grid_width as int,
                        top + dy,
                        left as int,
                        1,
                        dx as int,
                        value,
                        i,
                    ));
                }
            }
            dx = dx + 1;
        }
        proof {
            assert forall|i: int| 0 <= i < before.len() implies #[trigger] grid@[i] == filled_at(
                before,
                grid_width as int,
                top as int,
                left as int,
                dy + 1,
                width as int,
                value,
                i,
            ) by {
                assert(row_start[i] == filled_at(
                    before,
                    grid_width as int,
                    top as int,
                    left as int,
                    dy as int,
                    width as int,
                    value,
                    i,
                ));
            }
        }
        dy = dy + 1;
    }
}

/// Writes a tile of `width` columns and `height` rows into a grid, with the
/// tile's first cell at row `top`, column `left`, and leaves the rest of the
/// grid as it was.
pub fn copy_rect<C: Copy>(
    grid: &mut Vec<C>,
    grid_width: usize,
    tile: &Vec<C>,
    top: usize,
    left: usize,
    height: usize,
    width: usize,
)
    requires
        rect_fits(
            old(grid)@.len() as int,
            grid_width as int,
            top as int,
            left as int,
            height as int,
            width as int,
        ),
        height * width <= tile@.len(),
    ensures
        final(grid)@.len() == old(grid)@.len(),
        forall|i: int|
            0 <= i < old(grid)@.len() ==> #[trigger] final(grid)@[i] == copied_at(
                old(grid)@,
                grid_width as int,
                tile@,
                top as int,
                left as int,
                height as int,
                width as int,
                i,
            ),
{
    let ghost before = grid@;
    let cells = grid.len();
    let tile_cells = tile.len();
    let mut row: usize = 0;
    while row < height
        invariant
            before.len() == cells,
            tile@.len() == tile_cells,
            rect_fits(
                before.len() as int,
                grid_width as int,
                top as int,
                left as int,
                height as int,
                width as int,
            ),
            height * width <= tile@.len(),
            row <= height,
            grid@.len() == before.len(),
            forall|i: int|
                0 <= i < before.len() ==> #[trigger] grid@[i] == copied_at(
                    before,
                    grid_width as int,
                    tile@,
                    top as int,
                    left as int,
                    row as int,
                    width as int,
                    i,
                ),
        decreases height - row,
    {
        let ghost row_start = grid@;
        let mut column: usize = 0;
        while column < width
            invariant
                rect_fits(
                    before.len() as int,
                    grid_width as int,
                    top as int,
                    left as int,
                    height as int,
                    width as int,
                ),
                height * width <= tile@.len(),
                row < height,
                column <= width,
                before.len() == cells,
                tile@.len() == tile_cells,
                grid@.len() == before.len(),
                row_start.len() == before.len(),
                forall|i: int|
                    0 <= i < before.len() ==> #[trigger] grid@[i] == (if in_rect(
                        top + row,
                        left as int,
                        1,
                        column as int,
                        i / (grid_width as int),
                        i % (grid_width as int),
                    ) {
                        tile@[cell(width as int, row as int, i % (grid_width as int) - left)]
                    } else {
                        row_start[i]
                    }),
            decreases width - column,
        {
            proof {
                lemma_cell_bound(grid_width as int, top + height, top + row, left + column);
                lemma_cell_index(grid_width as int, top + row, left + column);
                lemma_cell_bound(width as int, height as int, row as int, column as int);
                assert(top + row <= (top + row) * grid_width) by (nonlinear_arith)
                    requires
                        0 < grid_width,
                ;
            }
            let buffer_index = row * width + column;
            let index = (top + row) * grid_width + left + column;
            let ghost step_start = grid@;
            grid.set(index, tile[buffer_index]);
            proof {
                assert forall|i: int| 0 <= i < before.len() implies #[trigger] grid@[i]
                    == (if in_rect(
                    top + row,
                    left as int,
                    1,
                    column + 1,
                    i / (grid_width as int),
                    i % (grid_width as int),
                ) {
                    tile@[cell(width as int, row as int, i % (grid_width as int) - left)]
                } else {
                    row_start[i]
                }) by {
                    lemma_index_cell(grid_width as int, i);
                    assert(step_start[i] == (if in_rect(
                        top + row,
                        left as int,
                        1,
                        column as int,
                        i / (grid_width as int),
                        i % (grid_width as int),
                    ) {
                        tile@[cell(width as int, row as int, i % (grid_width as int) - left)]
                    } else {
                        row_start[i]
                    }));
                }
            }
            column = column + 1;
        }
        proof {
            assert forall|i: int| 0 <= i < before.len() implies #[trigger] grid@[i] == copied_at(
                before,
                grid_width as int,
                tile@,
                top as int,
                left as int,
                row + 1,
                width as int,
                i,
            ) by {
                assert(row_start[i] == copied_at(
                    before,
                    grid_width as int,
                    tile@,
                    top as int,
                    left as int,
                    row as int,
                    width as int,
                    i,
                ));
            }
        }
        row = row + 1;
    }
}

} // verus!
