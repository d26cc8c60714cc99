//! The snake's body: an ordered, never empty chain of cells, head first.

use vstd::prelude::*;
use crate::model::{AssetType, MoveDirection, Position, RenderableAsset};

verus! {

/// Whether a head at `head` can take one step towards `direction` and still
/// be written with 16-bit coordinates.
pub open spec fn step_fits(head: Position, direction: MoveDirection) -> bool {
    match direction {
        MoveDirection::Right => head.col < i16::MAX,
        MoveDirection::Left => head.col > i16::MIN,
        MoveDirection::Up => head.row > i16::MIN,
        MoveDirection::Down => head.row < i16::MAX,
    }
}

/// The cell one step away from `head` towards `direction`. Rows grow
/// downwards and columns grow to the right.
pub open spec fn next_head(head: Position, direction: MoveDirection) -> Position
    recommends
        step_fits(head, direction),
{
    match direction {
        MoveDirection::Right => Position { row: head.row, col: (head.col + 1) as i16 },
        MoveDirection::Left => Position { row: head.row, col: (head.col - 1) as i16 },
        MoveDirection::Up => Position { row: (head.row - 1) as i16, col: head.col },
        MoveDirection::Down => Position { row: (head.row + 1) as i16, col: head.col },
    }
}

/// The body after one move: a new head in front, the old tail gone.
pub open spec fn advanced(body: Seq<Position>, direction: MoveDirection) -> Seq<Position>
    recommends
        body.len() >= 1,
{
    seq![next_head(body[0], direction)] + body.drop_last()
}

/// The body after growing: `count` more segments, all lying on the old tail.
pub open spec fn grown(body: Seq<Position>, count: nat) -> Seq<Position>
    recommends
        body.len() >= 1,
{
    body + Seq::new(count, |i: int| body.last())
}

/// Whether the head lies on one of the segments behind it.
pub open spec fn bites_itself(body: Seq<Position>) -> bool {
    exists|i: int| 1 <= i < body.len() && #[trigger] body[i] == body[0]
}

/// The snake: its cells from head to tail, and the direction it faces.
#[derive(Clone, Debug)]
pub struct Snake {
    body: Vec<Position>,
    direction: MoveDirection,
}

impl View for Snake {
    type V = Seq<Position>;

    /// The cells of the body, head first.
    closed spec fn view(&self) -> Seq<Position> {
        self.body@
    }
}

impl Snake {
    /// The direction the snake faces.
    pub closed spec fn heading(&self) -> MoveDirection {
        self.direction
    }

    /// A snake always has a head.
    pub open spec fn wf(&self) -> bool {
        self@.len() >= 1
    }

    /// A snake of one segment at `initial_cell`, facing right.
    pub fn new(initial_cell: Position) -> (snake: Snake)
        ensures
            snake@ == seq![initial_cell],
            snake.heading() == MoveDirection::Right,
            snake.wf(),
    {
        Snake { body: vec![initial_cell], direction: MoveDirection::Right }
    }

    /// The direction the snake faces.
    pub fn facing(&self) -> (direction: MoveDirection)
        ensures
            direction == self.heading(),
    {
        self.direction
    }

    /// Makes the snake face `direction`; the body stays where it is.
    pub fn turn(&mut self, direction: MoveDirection)
        ensures
            final(self).heading() == direction,
            final(self)@ == old(self)@,
    {
        self.direction = direction;
    }

    /// The number of segments.
    #[inline(always)]
    pub fn len(&self) -> (count: usize)
        ensures
            count == self@.len(),
    {
        self.body.len()
    }

    /// The segment at `index`, counted from the head.
    #[inline(always)]
    pub fn cell_at_index(&self, index: usize) -> (cell: &Position)
        requires
            index < self@.len(),
        ensures
            *cell == self@[index as int],
    {
        &self.body[index]
    }

    /// Moves the whole body one cell towards the direction it faces: the
    /// new head is put in front and the tail segment is dropped.
    pub fn next_frame(&mut self)
        requires
            old(self).wf(),
            step_fits(old(self)@[0], old(self).heading()),
        ensures
            final(self)@ == advanced(old(self)@, old(self).heading()),
            final(self).heading() == old(self).heading(),
            final(self).wf(),
    {
        let new_head = self.calculate_next_head();
        self.body.insert(0, new_head);
        self.body.pop();
    }

    /// The cell the head moves to next.
    pub fn calculate_next_head(&self) -> (head: Position)
        requires
            self.wf(),
            step_fits(self@[0], self.heading()),
        ensures
            head == next_head(self@[0], self.heading()),
    {
        let position = &self.body[0];
        match self.direction {
            MoveDirection::Right => Position { row: position.row, col: position.col + 1 },
            MoveDirection::Left => Position { row: position.row, col: position.col - 1 },
            MoveDirection::Up => Position { row: position.row - 1, col: position.col },
            MoveDirection::Down => Position { row: position.row + 1, col: position.col },
        }
    }

    /// Appends `count` segments, each on the cell of the current tail.
    pub fn grow(&mut self, count: usize)
        requires
            old(self).wf(),
        ensures
            final(self)@ == grown(old(self)@, count as nat),
            final(self).heading() == old(self).heading(),
            final(self).wf(),
    {
        let position = self.body[self.body.len() - 1];
        let mut added: usize = 0;
        while added < count
            invariant
                added <= count,
                position == old(self)@.last(),
                self.body@ == grown(old(self)@, added as nat),
                self.heading() == old(self).heading(),
            decreases count - added,
        {
            self.body.push(Position { row: position.row, col: position.col });
            added += 1;
        }
    }

    /// Tells whether the head lies on another segment of the body.
    pub fn hit_itself(&self) -> (hit: bool)
        requires
            self.wf(),
        ensures
            hit == bites_itself(self@),
    {
        let head = self.body[0];
        let mut index: usize = 1;
        while index < self.body.len()
            invariant
                1 <= index <= self.body@.len(),
                head == self.body@[0],
                forall|i: int| 1 <= i < index ==> self.body@[i] != head,
            decreases self.body@.len() - index,
        {
            if head == self.body[index] {
                return true;
            }
            index += 1;
        }
        false
    }

    /// Tells whether any segment, the head included, lies on `position`.
    pub fn is_at_position(&self, position: &Position) -> (occupied: bool)
        ensures
            occupied == self@.contains(*position),
    {
        let mut index: usize = 0;
        while index < self.body.len()
            invariant
                index <= self.body@.len(),
                forall|i: int| 0 <= i < index ==> self.body@[i] != *position,
            decreases self.body@.len() - index,
        {
            if *position == self.body[index] {
                return true;
            }
            index += 1;
        }
        false
    }
}

impl<'a> vstd::std_specs::convert::FromSpecImpl<&'a Snake> for RenderableAsset {
    /// The conversion allocates, so its result is described by the
    /// postcondition of `from` rather than by a value.
    open spec fn obeys_from_spec() -> bool {
        false
    }

    open spec fn from_spec(value: &'a Snake) -> Self {
        arbitrary()
    }
}

impl<'a> From<&'a Snake> for RenderableAsset {
    /// The snake as something to draw: its cells from head to tail, tagged
    /// as the player.
    fn from(value: &'a Snake) -> (asset: Self)
        ensures
            asset.shows(AssetType::Player, value@),
    {
        RenderableAsset { asset_type: AssetType::Player, positions: value.body.clone() }
    }
}

} // verus!
