//! The world: the grid, the snake, the reward, the level and the state of
//! the game, advanced one frame at a time.

use vstd::prelude::*;
use crate::model::{AssetType, GameState, MoveDirection, Position, RenderableAsset, WorldDimension,
    WorldStatus};
use crate::placement::{first_free_cell, is_first_free, is_free, lemma_short_body_leaves_room};
use crate::reward::Reward;
use crate::rules::{lemma_body_length, lemma_fed_body_leaves_room, lemma_step_keeps_inv, WorldView,
    LAST_LEVEL};
use crate::snake::Snake;

verus! {

/// How many cells are drawn at random for a new reward before the first
/// free cell in reading order is taken instead.
pub const RANDOM_DRAWS: usize = 1024;

/// Whether `place` is where a reward goes when `candidate` is offered for
/// it: the candidate itself if it is free, else the first free cell.
pub open spec fn settles_on(
    dimension: WorldDimension,
    body: Seq<Position>,
    candidate: Position,
    place: Position,
) -> bool {
    if is_free(dimension, body, candidate) {
        place == candidate
    } else {
        is_first_free(dimension, body, place)
    }
}

/// A game of snake.
pub struct World {
    dimension: WorldDimension,
    snake: Snake,
    reward: Reward,
    level: usize,
    state: GameState,
}

impl View for World {
    type V = WorldView;

    closed spec fn view(&self) -> WorldView {
        WorldView {
            dimension: self.dimension,
            body: self.snake@,
            direction: self.snake.heading(),
            target: self.reward@,
            level: self.level as nat,
            state: self.state,
        }
    }
}

impl Default for World {
    fn default() -> (world: Self)
        ensures
            world@ == WorldView::initial(),
            world.wf(),
    {
        Self::new()
    }
}

impl World {
    /// Whether the world meets the invariant of the game, as every world
    /// does that a game can reach.
    pub open spec fn wf(&self) -> bool {
        self@.inv()
    }

    /// Whether `status` is a faithful copy of this world.
    pub open spec fn shown_by(&self, status: WorldStatus) -> bool {
        &&& status.state == self@.state
        &&& status.level == self@.level
        &&& status.player.shows(AssetType::Player, self@.body)
        &&& status.reward.shows(AssetType::Reward, seq![self@.target])
    }

    /// A new game: a grid of 21 by 12 cells, a snake of one segment in
    /// row 1, column 1, facing right, the reward in row 3, column 3,
    /// level 1, playing.
    pub fn new() -> (world: Self)
        ensures
            world@ == WorldView::initial(),
            world.wf(),
    {
        let world = World {
            dimension: WorldDimension { width: 21, height: 12 },
            snake: Snake::new(Position { row: 1, col: 1 }),
            reward: Reward::new(Position { row: 3, col: 3 }),
            level: 1,
            state: GameState::Play,
        };
        proof {
            lemma_body_length(1);
            assert(world@.body =~= seq![Position { row: 1, col: 1 }]);
        }
        world
    }

    /// The size of the grid.
    pub fn get_dimension(&self) -> (dimension: WorldDimension)
        ensures
            dimension == self@.dimension,
    {
        self.dimension.clone()
    }

    /// A copy of the current state for a presentation layer.
    pub fn get_status(&self) -> (status: WorldStatus)
        ensures
            self.shown_by(status),
    {
        WorldStatus {
            state: self.state,
            level: self.level,
            player: RenderableAsset::from(&self.snake),
            reward: RenderableAsset::from(&self.reward),
        }
    }

    /// Advances the game by one frame and returns the new status.
    ///
    /// Nothing happens unless the game is being played. Otherwise the snake
    /// moves one cell. If its head leaves the grid or lands on its body,
    /// the game is lost. If the head lands on the reward, the snake grows
    /// by as many segments as the level's number, the reward moves to a
    /// free cell picked at random, and the level goes up by one, or the
    /// game is won if this was the last level.
    pub fn next_frame(&mut self) -> (status: WorldStatus)
        requires
            old(self).wf(),
        ensures
            final(self).wf(),
            final(self)@ == old(self)@.step(final(self)@.target),
            old(self)@.needs_place() ==> is_free(
                old(self)@.dimension,
                old(self)@.fed(),
                final(self)@.target,
            ),
            final(self).shown_by(status),
    {
        if self.move_snake() {
            proof {
                lemma_fed_body_leaves_room(old(self)@);
            }
            let next_reward_place = self.find_place_for_reward();
            self.collect_reward(next_reward_place);
        }
        proof {
            lemma_step_keeps_inv(old(self)@, self@.target);
        }
        self.get_status()
    }

    /// Advances the game by one frame as `next_frame` does, except that
    /// nothing is left to chance: if the reward is eaten it moves to
    /// `candidate`, or to the first free cell in reading order if
    /// `candidate` is not free.
    pub fn next_frame_with(&mut self, candidate: Position) -> (status: WorldStatus)
        requires
            old(self).wf(),
        ensures
            final(self).wf(),
            final(self)@ == old(self)@.step(final(self)@.target),
            old(self)@.needs_place() ==> settles_on(
                old(self)@.dimension,
                old(self)@.fed(),
                candidate,
                final(self)@.target,
            ),
            final(self).shown_by(status),
    {
        if self.move_snake() {
            proof {
                lemma_fed_body_leaves_room(old(self)@);
            }
            let next_reward_place = self.settle(candidate);
            self.collect_reward(next_reward_place);
        }
        proof {
            lemma_step_keeps_inv(old(self)@, self@.target);
        }
        self.get_status()
    }

    /// Faces the snake to the right, unless it faces left.
    pub fn face_right(&mut self)
        ensures
            final(self)@ == old(self)@.faced(MoveDirection::Right),
            old(self).wf() ==> final(self).wf(),
    {
        if let MoveDirection::Left = self.snake.facing() {
            return ;
        }
        self.snake.turn(MoveDirection::Right);
    }

    /// Faces the snake to the left, unless it faces right.
    pub fn face_left(&mut self)
        ensures
            final(self)@ == old(self)@.faced(MoveDirection::Left),
            old(self).wf() ==> final(self).wf(),
    {
        if let MoveDirection::Right = self.snake.facing() {
            return ;
        }
        self.snake.turn(MoveDirection::Left);
    }

    /// Faces the snake upwards, unless it faces down.
    pub fn face_up(&mut self)
        ensures
            final(self)@ == old(self)@.faced(MoveDirection::Up),
            old(self).wf() ==> final(self).wf(),
    {
        if let MoveDirection::Down = self.snake.facing() {
            return ;
        }
        self.snake.turn(MoveDirection::Up);
    }

    /// Faces the snake downwards, unless it faces up.
    pub fn face_down(&mut self)
        ensures
            final(self)@ == old(self)@.faced(MoveDirection::Down),
            old(self).wf() ==> final(self).wf(),
    {
        if let MoveDirection::Up = self.snake.facing() {
            return ;
        }
        self.snake.turn(MoveDirection::Down);
    }

    /// Pauses a game that is being played and resumes one that is paused.
    pub fn toggle_pause(&mut self)
        ensures
            final(self)@ == old(self)@.paused(),
            old(self).wf() ==> final(self).wf(),
    {
        match self.state {
            GameState::Play => self.state = GameState::Pause,
            GameState::Pause => self.state = GameState::Play,
            _ => (),
        }
    }

    /// Moves the snake and judges the move. Returns whether the reward was
    /// eaten; the snake has then grown already, and the reward and the
    /// level are still to be brought up to date.
    fn move_snake(&mut self) -> (eaten: bool)
        requires
            old(self).wf(),
        ensures
            eaten == old(self)@.needs_place(),
            !eaten ==> final(self)@ == old(self)@.step(old(self)@.target),
            eaten ==> final(self)@ == (WorldView { body: old(self)@.fed(), ..old(self)@ }),
    {
        if self.state != GameState::Play {
            return false;
        }
        self.snake.next_frame();
        let snake_head = self.snake.cell_at_index(0);
        let snake_hit_reward = *snake_head == *self.reward.position();
        let snake_hit_edge = !self.dimension.contains(snake_head);

        if snake_hit_edge || self.snake.hit_itself() {
            self.state = GameState::Lost;
            false
        } else if snake_hit_reward {
            self.snake.grow(self.level);
            true
        } else {
            false
        }
    }

    /// Puts the reward on `place` and closes the level: the game is won
    /// after the last level, else the next level begins.
    fn collect_reward(&mut self, place: Position)
        requires
            old(self)@.level <= LAST_LEVEL,
        ensures
            final(self)@ == if old(self)@.level == LAST_LEVEL {
                WorldView { target: place, state: GameState::Won, ..old(self)@ }
            } else {
                WorldView { target: place, level: old(self)@.level + 1, ..old(self)@ }
            },
    {
        self.reward = Reward::new(place);
        if self.level == LAST_LEVEL {
            self.state = GameState::Won;
        } else {
            self.level += 1;
        }
    }

    /// Picks a free cell for the reward: cells are drawn at random until
    /// one is free; after `RANDOM_DRAWS` draws the first free cell in
    /// reading order is taken.
    fn find_place_for_reward(&self) -> (place: Position)
        requires
            self@.dimension.is_valid(),
            self@.body.len() < self@.dimension.width * self@.dimension.height,
        ensures
            is_free(self@.dimension, self@.body, place),
    {
        let mut draws: usize = 0;
        while draws < RANDOM_DRAWS
            invariant
                self@.dimension.is_valid(),
            decreases RANDOM_DRAWS - draws,
        {
            let place = self.dimension.random_place();
            if !self.snake.is_at_position(&place) {
                return place;
            }
            draws += 1;
        }
        let found = first_free_cell(&self.dimension, &self.snake);
        proof {
            lemma_short_body_leaves_room(self@.dimension, self@.body);
        }
        found.unwrap()
    }

    /// Decides where the reward goes when `candidate` is offered: there,
    /// if the cell is free, else on the first free cell in reading order.
    fn settle(&self, candidate: Position) -> (place: Position)
        requires
            self@.dimension.is_valid(),
            self@.body.len() < self@.dimension.width * self@.dimension.height,
        ensures
            settles_on(self@.dimension, self@.body, candidate, place),
    {
        if self.dimension.contains(&candidate) && !self.snake.is_at_position(&candidate) {
            return candidate;
        }
        let found = first_free_cell(&self.dimension, &self.snake);
        proof {
            lemma_short_body_leaves_room(self@.dimension, self@.body);
        }
        found.unwrap()
    }
}

} // verus!
