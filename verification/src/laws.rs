//! What the rules of the game imply, proved once and for all.

use vstd::prelude::*;
use crate::model::{GameState, MoveDirection, Position};
use crate::placement::is_free;
use crate::rules::{lemma_body_length, lemma_step_keeps_inv, WorldView, LAST_LEVEL};
use crate::snake::{next_head, step_fits};

verus! {

/// One thing that can happen to a world.
pub enum Event {
    /// A frame passes. `place` is the cell that the reward moves to if the
    /// snake eats it in this frame.
    Frame { place: Position },
    /// The player asks the snake to face `wanted`.
    Face { wanted: MoveDirection },
    /// The player presses the pause key.
    Pause,
}

impl WorldView {
    /// The world after `event`.
    pub open spec fn after(self, event: Event) -> WorldView {
        match event {
            Event::Frame { place } => self.step(place),
            Event::Face { wanted } => self.faced(wanted),
            Event::Pause => self.paused(),
        }
    }

    /// Whether `event` can happen in this world: a frame that moves the
    /// reward moves it to a free cell.
    pub open spec fn admits(self, event: Event) -> bool {
        match event {
            Event::Frame { place } => self.needs_place() ==> is_free(
                self.dimension,
                self.fed(),
                place,
            ),
            _ => true,
        }
    }
}

/// The world that a new game has become after `events`, in that order.
pub open spec fn played(events: Seq<Event>) -> WorldView
    decreases events.len(),
{
    if events.len() == 0 {
        WorldView::initial()
    } else {
        played(events.drop_last()).after(events.last())
    }
}

/// Whether each of `events` can happen in the world that those before it
/// have led to.
pub open spec fn possible(events: Seq<Event>) -> bool
    decreases events.len(),
{
    events.len() == 0 || (possible(events.drop_last()) && played(events.drop_last()).admits(
        events.last(),
    ))
}

/// A new game meets the invariant of the game.
pub proof fn lemma_initial_world()
    ensures
        WorldView::initial().inv(),
{
    lemma_body_length(1);
    assert(WorldView::initial().body[0] == Position { row: 1, col: 1 });
}

/// No event that can happen breaks the invariant of the game.
pub proof fn lemma_event_keeps_inv(world: WorldView, event: Event)
    requires
        world.inv(),
        world.admits(event),
    ensures
        world.after(event).inv(),
{
    match event {
        Event::Frame { place } => {
            lemma_step_keeps_inv(world, place);
        },
        Event::Face { wanted } => {},
        Event::Pause => {},
    }
}

/// Every world that a game can reach meets the invariant of the game. In
/// particular, after any frame, whether it ended the game or not, the snake
/// has at least one segment and the reward lies on none of them.
pub proof fn lemma_reachable_worlds(events: Seq<Event>)
    requires
        possible(events),
    ensures
        played(events).inv(),
        played(events).body.len() >= 1,
        forall|i: int|
            0 <= i < played(events).body.len() ==> #[trigger] played(events).body[i] != played(
                events,
            ).target,
    decreases events.len(),
{
    if events.len() == 0 {
        lemma_initial_world();
    } else {
        lemma_reachable_worlds(events.drop_last());
        lemma_event_keeps_inv(played(events.drop_last()), events.last());
    }
    lemma_body_length(played(events).level);
    lemma_body_length(played(events).level + 1);
}

/// Asking the snake to turn right round changes nothing: it keeps facing
/// the way it did.
pub proof fn lemma_reverse_is_rejected(world: WorldView)
    ensures
        world.faced(world.direction.opposite()) == world,
        forall|wanted: MoveDirection|
            wanted != world.direction.opposite() ==> #[trigger] world.faced(wanted).direction
                == wanted,
{
}

/// A frame in which the snake neither crashes nor eats moves the head one
/// cell the way the snake faces, drops the old tail and keeps the length.
/// Facing right, the head goes from column `c` to column `c + 1` of its row.
pub proof fn lemma_plain_move(world: WorldView, place: Position)
    requires
        world.inv(),
        world.state == GameState::Play,
        !world.crashes(),
        !world.eats(),
    ensures
        step_fits(world.body[0], world.direction),
        world.step(place).body == seq![next_head(world.body[0], world.direction)]
            + world.body.drop_last(),
        world.step(place).body.len() == world.body.len(),
        world.direction == MoveDirection::Right ==> world.step(place).body[0] == (Position {
            row: world.body[0].row,
            col: (world.body[0].col + 1) as i16,
        }) && world.step(place).body[0].col == world.body[0].col + 1,
        world.step(place) == (WorldView { body: world.step(place).body, ..world }),
{
    lemma_body_length(world.level);
    assert(world.dimension.holds(world.body[0]));
}

/// A frame in which the snake eats the reward at level `L` lengthens the
/// body by `L` segments. Below the last level the game goes on at level
/// `L + 1`; at the last level the game is won and the level stays.
pub proof fn lemma_growth(world: WorldView, place: Position)
    requires
        world.inv(),
        world.needs_place(),
    ensures
        world.step(place).body.len() == world.body.len() + world.level,
        world.step(place).target == place,
        world.level < LAST_LEVEL ==> world.step(place).level == world.level + 1
            && world.step(place).state == GameState::Play,
        world.level == LAST_LEVEL ==> world.step(place).level == LAST_LEVEL && world.step(
            place,
        ).state == GameState::Won,
{
}

/// A frame that takes the head off the grid loses the game, and no later
/// frame changes a lost game.
pub proof fn lemma_wall_loss(world: WorldView, place: Position, later: Position)
    requires
        world.state == GameState::Play,
        world.body.len() >= 1,
        !world.dimension.holds(next_head(world.body[0], world.direction)),
    ensures
        world.step(place).state == GameState::Lost,
        world.step(place).step(later) == world.step(place),
{
}

/// A frame that puts the head on a segment of the body loses the game:
/// this happens when the cell ahead of the head is covered by a segment
/// other than the tail, which moves away in the same frame.
pub proof fn lemma_self_collision_loss(world: WorldView, place: Position, segment: int)
    requires
        world.state == GameState::Play,
        0 <= segment < world.body.len() - 1,
        world.body[segment] == next_head(world.body[0], world.direction),
    ensures
        world.step(place).state == GameState::Lost,
{
    let moved = world.moved();
    assert(moved[segment + 1] == moved[0]);
}

/// A finished game stays as it is, whatever frames and pause keys follow.
pub proof fn lemma_finished_games_stay(world: WorldView, place: Position)
    requires
        world.state == GameState::Won || world.state == GameState::Lost,
    ensures
        world.step(place) == world,
        world.paused() == world,
{
}

/// Pressing the pause key twice brings back the world as it was: a game
/// being played is paused and then played again, with the body, the reward
/// and the level untouched. While the game is paused, frames change nothing.
pub proof fn lemma_pause_twice(world: WorldView, place: Position)
    ensures
        world.paused().paused() == world,
        world.state == GameState::Play ==> world.paused().state == GameState::Pause
            && world.paused().step(place) == world.paused(),
{
}

} // verus!
