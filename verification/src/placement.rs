//! Where a reward may go: the cells of the grid that the snake does not
//! cover, and the first of them in reading order.

use vstd::prelude::*;
use vstd::set_lib::*;
use crate::model::{Position, WorldDimension};
use crate::snake::Snake;

verus! {

/// Whether `cell` lies on the grid and no segment of `body` lies on it.
pub open spec fn is_free(dimension: WorldDimension, body: Seq<Position>, cell: Position) -> bool {
    dimension.holds(cell) && !body.contains(cell)
}

/// Reading order: rows from the top, and within a row columns from the left.
pub open spec fn reads_before_or_at(a: Position, b: Position) -> bool {
    a.row < b.row || (a.row == b.row && a.col <= b.col)
}

/// Whether `cell` is free and no free cell comes before it in reading order.
pub open spec fn is_first_free(
    dimension: WorldDimension,
    body: Seq<Position>,
    cell: Position,
) -> bool {
    &&& is_free(dimension, body, cell)
    &&& forall|other: Position| #[trigger]
        is_free(dimension, body, other) ==> reads_before_or_at(cell, other)
}

/// A grid has at most one first free cell.
pub proof fn lemma_first_free_is_unique(
    dimension: WorldDimension,
    body: Seq<Position>,
    a: Position,
    b: Position,
)
    requires
        is_first_free(dimension, body, a),
        is_first_free(dimension, body, b),
    ensures
        a == b,
{
}

/// The number that reading order gives to a cell of a grid `width` cells wide.
pub open spec fn reading_rank(width: int, cell: Position) -> int {
    cell.row * width + cell.col
}

/// A body with fewer segments than the grid has cells leaves a cell free.
pub proof fn lemma_short_body_leaves_room(dimension: WorldDimension, body: Seq<Position>)
    requires
        dimension.is_valid(),
        body.len() < dimension.width * dimension.height,
    ensures
        exists|cell: Position| is_free(dimension, body, cell),
{
    let width = dimension.width as int;
    let height = dimension.height as int;
    if forall|cell: Position| !is_free(dimension, body, cell) {
        let ranks = body.map_values(|cell: Position| reading_rank(width, cell));
        let all = set_int_range(0, width * height);
        assert(width * height >= 0) by (nonlinear_arith)
            requires
                width > 0,
                height > 0,
        ;
        assert forall|k: int| all.contains(k) implies ranks.to_set().contains(k) by {
            let row = k / width;
            let col = k % width;
            assert(0 <= col < width && 0 <= row < height && row * width + col == k)
                by (nonlinear_arith)
                requires
                    0 <= k < width * height,
                    width > 0,
                    row == k / width,
                    col == k % width,
            ;
            let cell = Position { row: row as i16, col: col as i16 };
            assert(dimension.holds(cell));
            assert(!is_free(dimension, body, cell));
            let at = choose|i: int| 0 <= i < body.len() && body[i] == cell;
            assert(ranks[at] == k);
        }
        lemma_int_range(0, width * height);
        vstd::seq_lib::seq_to_set_is_finite(ranks);
        lemma_len_subset(all, ranks.to_set());
        ranks.lemma_cardinality_of_set();
        assert(false);
    }
}

/// Finds the first free cell in reading order, if the snake leaves one.
pub fn first_free_cell(dimension: &WorldDimension, snake: &Snake) -> (found: Option<Position>)
    ensures
        match found {
            Some(cell) => is_first_free(*dimension, snake@, cell),
            None => forall|cell: Position| !is_free(*dimension, snake@, cell),
        },
{
    let mut row: usize = 0;
    while row < dimension.height && row < 0x8000
        invariant
            row <= 0x8000,
            forall|cell: Position| #[trigger]
                is_free(*dimension, snake@, cell) ==> cell.row >= row,
        decreases 0x8000 - row,
    {
        let mut col: usize = 0;
        while col < dimension.width && col < 0x8000
            invariant
                col <= 0x8000,
                row < dimension.height,
                row < 0x8000,
                forall|cell: Position| #[trigger]
                    is_free(*dimension, snake@, cell) ==> cell.row > row || (cell.row == row
                        && cell.col >= col),
            decreases 0x8000 - col,
        {
            let cell = Position { row: row as i16, col: col as i16 };
            if !snake.is_at_position(&cell) {
                return Some(cell);
            }
            col += 1;
        }
        row += 1;
    }
    None
}

} // verus!
