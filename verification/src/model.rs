//! Plain values shared by the whole simulation: cells, directions, game
//! states, the grid and the read-only status handed to a presentation layer.

use vstd::prelude::*;

verus! {

/// A cell of the grid. Coordinates are signed so that a head which has just
/// left the grid can still be represented.
#[derive(PartialEq, Eq, Clone, Copy, Debug, Structural)]
pub struct Position {
    pub row: i16,
    pub col: i16,
}

/// The four directions the snake can face.
#[derive(PartialEq, Eq, Clone, Copy, Debug, Structural)]
pub enum MoveDirection {
    Up,
    Down,
    Left,
    Right,
}

impl MoveDirection {
    /// The direction pointing the other way.
    pub open spec fn opposite(self) -> MoveDirection {
        match self {
            MoveDirection::Up => MoveDirection::Down,
            MoveDirection::Down => MoveDirection::Up,
            MoveDirection::Left => MoveDirection::Right,
            MoveDirection::Right => MoveDirection::Left,
        }
    }
}

/// The life cycle of a game.
#[derive(PartialEq, Eq, Clone, Copy, Debug, Structural)]
pub enum GameState {
    Play,
    Pause,
    Won,
    Lost,
}

/// The size of the grid.
#[derive(PartialEq, Eq, Clone, Copy, Debug, Structural)]
pub struct WorldDimension {
    pub width: usize,
    pub height: usize,
}

/// Draws a number below `bound` from the generator of the current thread.
///
/// Calls `rand::Rng::gen_range` on `rand::thread_rng()` with the half-open
/// range from zero to `bound`. The contract is taken on trust, not proved:
/// `gen_range` panics on an empty range only, which `bound > 0` rules out,
/// and the number it returns lies in the range. Which number comes is left
/// open, and so is how evenly the numbers are spread. The generator seeds
/// itself from the operating system when a thread first uses it; a system
/// that cannot provide a seed makes that first call panic.
#[verifier::external_body]
fn random_below(bound: usize) -> (drawn: usize)
    requires
        bound > 0,
    ensures
        drawn < bound,
{
    rand::Rng::gen_range(&mut rand::thread_rng(), 0..bound)
}

impl WorldDimension {
    /// Whether the grid has cells at all, and each of them can be written
    /// as a `Position`.
    pub open spec fn is_valid(self) -> bool {
        &&& 0 < self.width <= i16::MAX + 1
        &&& 0 < self.height <= i16::MAX + 1
    }

    /// Whether `position` lies on the grid.
    pub open spec fn holds(self, position: Position) -> bool {
        &&& 0 <= position.col < self.width
        &&& 0 <= position.row < self.height
    }

    /// Tells whether `position` lies on the grid.
    pub fn contains(&self, position: &Position) -> (inside: bool)
        ensures
            inside == self.holds(*position),
    {
        position.col >= 0 && position.row >= 0 && (position.col as usize) < self.width && (
        position.row as usize) < self.height
    }

    /// A cell of the grid picked at random: `cell` of a row and a column
    /// drawn from the grid's. Which cell comes is left to chance.
    pub fn random_place(&self) -> (place: Position)
        requires
            self.is_valid(),
        ensures
            self.holds(place),
    {
        let col = random_below(self.width);
        let row = random_below(self.height);
        self.cell(row, col).unwrap()
    }

    /// The cell in row `row` and column `col`, counted from zero. There is
    /// none if the grid has no such row or column, or if the numbers are
    /// too large for a `Position`.
    pub fn cell(&self, row: usize, col: usize) -> (found: Option<Position>)
        ensures
            found is Some <==> row < self.height && col < self.width && row <= i16::MAX && col
                <= i16::MAX,
            found matches Some(place) ==> place.row == row && place.col == col,
    {
        if row < self.height && col < self.width && row <= 0x7fff && col <= 0x7fff {
            Some(Position { row: row as i16, col: col as i16 })
        } else {
            None
        }
    }
}

/// What a set of cells shows.
#[derive(PartialEq, Eq, Clone, Copy, Debug, Structural)]
pub enum AssetType {
    Player,
    Reward,
}

/// Cells to draw, tagged with what they show.
#[derive(Clone, PartialEq, Debug)]
pub struct RenderableAsset {
    pub asset_type: AssetType,
    pub positions: Vec<Position>,
}

impl RenderableAsset {
    /// Whether this asset is of the given kind and lists exactly `cells`,
    /// in that order.
    pub open spec fn shows(&self, kind: AssetType, cells: Seq<Position>) -> bool {
        &&& self.asset_type == kind
        &&& self.positions@ == cells
    }
}

/// A read-only copy of the state of a world.
#[derive(Clone, PartialEq, Debug)]
pub struct WorldStatus {
    pub state: GameState,
    pub player: RenderableAsset,
    pub reward: RenderableAsset,
    pub level: usize,
}

} // verus!
