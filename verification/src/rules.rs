//! The rules of the game, written as a state machine over plain values.
//!
//! A `WorldView` is what a world looks like to the rules. Nothing here is
//! executable: the world that runs is proved to follow these functions.

use vstd::prelude::*;
use crate::model::{GameState, MoveDirection, Position, WorldDimension};
use crate::placement::is_free;
use crate::snake::{advanced, bites_itself, grown};

verus! {

/// The level at which eating the reward wins the game.
pub const LAST_LEVEL: usize = 10;

/// The length of the longest body a game can produce: one segment to start
/// with, and as many more at each level as the level's number.
pub const LONGEST_BODY: usize = 56;

/// The size of the grid of a new world.
pub open spec fn initial_dimension() -> WorldDimension {
    WorldDimension { width: 21, height: 12 }
}

/// The length of the body of a snake that has eaten the rewards of all
/// levels below `level`.
pub open spec fn body_length_at(level: nat) -> nat {
    (1 + level * (level - 1) / 2) as nat
}

/// The direction faced after asking for `wanted` while facing `current`:
/// a request to turn right round is ignored.
pub open spec fn turned(current: MoveDirection, wanted: MoveDirection) -> MoveDirection {
    if wanted == current.opposite() {
        current
    } else {
        wanted
    }
}

/// The state after the pause key: play and pause swap, a finished game
/// stays finished.
pub open spec fn toggled(state: GameState) -> GameState {
    match state {
        GameState::Play => GameState::Pause,
        GameState::Pause => GameState::Play,
        GameState::Won => GameState::Won,
        GameState::Lost => GameState::Lost,
    }
}

/// Everything the rules know of a world.
pub struct WorldView {
    pub dimension: WorldDimension,
    pub body: Seq<Position>,
    pub direction: MoveDirection,
    pub target: Position,
    pub level: nat,
    pub state: GameState,
}

impl WorldView {
    /// The world a game starts from.
    pub open spec fn initial() -> WorldView {
        WorldView {
            dimension: initial_dimension(),
            body: seq![Position { row: 1, col: 1 }],
            direction: MoveDirection::Right,
            target: Position { row: 3, col: 3 },
            level: 1,
            state: GameState::Play,
        }
    }

    /// The body after its next move.
    pub open spec fn moved(self) -> Seq<Position> {
        advanced(self.body, self.direction)
    }

    /// Whether the next move ends the game: the head leaves the grid or
    /// lands on the body.
    pub open spec fn crashes(self) -> bool {
        !self.dimension.holds(self.moved()[0]) || bites_itself(self.moved())
    }

    /// Whether the next move brings the head onto the reward without
    /// ending the game.
    pub open spec fn eats(self) -> bool {
        !self.crashes() && self.moved()[0] == self.target
    }

    /// The body after a move that eats the reward: it grows by as many
    /// segments as the level's number.
    pub open spec fn fed(self) -> Seq<Position> {
        grown(self.moved(), self.level)
    }

    /// Whether the next frame has to find a new cell for the reward.
    pub open spec fn needs_place(self) -> bool {
        self.state == GameState::Play && self.eats()
    }

    /// The world one frame later. `place` is where the reward goes if this
    /// frame eats it; otherwise it is not looked at.
    pub open spec fn step(self, place: Position) -> WorldView {
        if self.state != GameState::Play {
            self
        } else if self.crashes() {
            WorldView { body: self.moved(), state: GameState::Lost, ..self }
        } else if self.eats() {
            if self.level == LAST_LEVEL {
                WorldView { body: self.fed(), target: place, state: GameState::Won, ..self }
            } else {
                WorldView { body: self.fed(), target: place, level: self.level + 1, ..self }
            }
        } else {
            WorldView { body: self.moved(), ..self }
        }
    }

    /// The world after asking the snake to face `wanted`.
    pub open spec fn faced(self, wanted: MoveDirection) -> WorldView {
        WorldView { direction: turned(self.direction, wanted), ..self }
    }

    /// The world after the pause key.
    pub open spec fn paused(self) -> WorldView {
        WorldView { state: toggled(self.state), ..self }
    }

    /// What holds of every world that a game can reach.
    pub open spec fn inv(self) -> bool {
        &&& self.dimension.is_valid()
        &&& self.dimension.width <= i16::MAX
        &&& self.dimension.height <= i16::MAX
        &&& LONGEST_BODY < self.dimension.width * self.dimension.height
        &&& 1 <= self.level <= LAST_LEVEL
        &&& self.state == GameState::Won ==> self.level == LAST_LEVEL
        &&& self.body.len() == if self.state == GameState::Won {
            body_length_at(self.level + 1)
        } else {
            body_length_at(self.level)
        }
        &&& self.state != GameState::Lost ==> forall|i: int|
            0 <= i < self.body.len() ==> self.dimension.holds(#[trigger] self.body[i])
        &&& is_free(self.dimension, self.body, self.target)
    }
}

/// The length of the body grows with the level by exactly the level's
/// number, starts at one and never passes `LONGEST_BODY`.
pub proof fn lemma_body_length(level: nat)
    ensures
        body_length_at(1) == 1,
        body_length_at(level + 1) == body_length_at(level) + level,
        1 <= body_length_at(level),
        level <= LAST_LEVEL + 1 ==> body_length_at(level) <= LONGEST_BODY,
{
    let below = level * (level - 1);
    assert(below >= 0 && (level + 1) * level == below + 2 * level) by (nonlinear_arith)
        requires
            below == level * (level - 1),
            level >= 0,
    ;
    assert((level + 1) * (level + 1 - 1) == (level + 1) * level);
    if level <= LAST_LEVEL + 1 {
        assert(below <= 110) by (nonlinear_arith)
            requires
                below == level * (level - 1),
                0 <= level <= 11,
        ;
    }
}

/// However much the snake eats, the grid keeps a cell free: a body that
/// has just grown is no longer than `LONGEST_BODY`, and the grid has more
/// cells than that.
pub proof fn lemma_fed_body_leaves_room(world: WorldView)
    requires
        world.inv(),
        world.state == GameState::Play,
    ensures
        world.fed().len() == body_length_at(world.level + 1),
        world.fed().len() <= LONGEST_BODY,
        world.fed().len() < world.dimension.width * world.dimension.height,
{
    lemma_body_length(world.level);
    lemma_body_length(world.level + 1);
}

/// A frame keeps the invariant of the game, provided the cell offered for
/// the reward is free whenever the frame needs one.
pub proof fn lemma_step_keeps_inv(world: WorldView, place: Position)
    requires
        world.inv(),
        world.needs_place() ==> is_free(world.dimension, world.fed(), place),
    ensures
        world.step(place).inv(),
{
    let next = world.step(place);
    lemma_body_length(world.level);
    lemma_body_length(world.level + 1);
    if world.state == GameState::Play {
        let moved = world.moved();
        assert(moved.len() == world.body.len());
        assert forall|i: int| 1 <= i < moved.len() implies moved[i] == world.body[i - 1] by {}
        if world.crashes() {
            if moved.contains(world.target) {
                let at = choose|i: int| 0 <= i < moved.len() && moved[i] == world.target;
                if at == 0 {
                    let hit = choose|i: int| 1 <= i < moved.len() && #[trigger] moved[i] == moved[0];
                    assert(world.body[hit - 1] == world.target);
                } else {
                    assert(world.body[at - 1] == world.target);
                }
            }
        } else if world.eats() {
            let fed = world.fed();
            assert(fed.len() == moved.len() + world.level);
            assert forall|i: int| 0 <= i < fed.len() implies world.dimension.holds(
                #[trigger] fed[i],
            ) by {
                if i >= moved.len() {
                    assert(fed[i] == moved[moved.len() - 1]);
                }
            }
        } else {
            assert forall|i: int| 0 <= i < moved.len() implies world.dimension.holds(
                #[trigger] moved[i],
            ) by {}
            if moved.contains(world.target) {
                let at = choose|i: int| 0 <= i < moved.len() && moved[i] == world.target;
                assert(world.body[at - 1] == world.target);
            }
        }
    }
}

} // verus!
