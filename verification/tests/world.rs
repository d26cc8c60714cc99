use snake_world::model::{AssetType, GameState, Position, WorldDimension, WorldStatus};
use snake_world::World;

fn at(row: i16, col: i16) -> Position {
    Position { row, col }
}

fn head(status: &WorldStatus) -> Position {
    status.player.positions[0]
}

fn reward(status: &WorldStatus) -> Position {
    status.reward.positions[0]
}

/// Brings a new world to the frame just before the first reward is eaten:
/// head on (2,3), facing down, reward on (3,3).
fn world_below_start() -> World {
    let mut world = World::new();
    world.next_frame_with(at(0, 0));
    world.next_frame_with(at(0, 0));
    world.face_down();
    world.next_frame_with(at(0, 0));
    world
}

/// Eats three rewards in a row along row 3 and leaves the snake with seven
/// segments, head on (3,5), facing right, at level 4.
fn world_with_long_snake() -> World {
    let mut world = world_below_start();
    world.next_frame_with(at(3, 4));
    world.face_right();
    world.next_frame_with(at(3, 5));
    world.next_frame_with(at(10, 10));
    world
}

#[test]
fn new_world_is_the_documented_start() {
    let world = World::new();
    assert_eq!(world.get_dimension(), WorldDimension { width: 21, height: 12 });
    let status = world.get_status();
    assert_eq!(status.state, GameState::Play);
    assert_eq!(status.level, 1);
    assert_eq!(status.player.asset_type, AssetType::Player);
    assert_eq!(status.player.positions, vec![at(1, 1)]);
    assert_eq!(status.reward.asset_type, AssetType::Reward);
    assert_eq!(status.reward.positions, vec![at(3, 3)]);
}

#[test]
fn default_world_is_a_new_world() {
    let world = World::default();
    assert_eq!(world.get_status(), World::new().get_status());
    assert_eq!(world.get_dimension(), World::new().get_dimension());
}

#[test]
fn two_frames_from_the_start() {
    let mut world = World::new();
    world.next_frame();
    let status = world.next_frame();
    assert_eq!(status.player.positions, vec![at(1, 3)]);
    assert_eq!(status.reward.positions, vec![at(3, 3)]);
    assert_eq!(status.state, GameState::Play);
    assert_eq!(status.level, 1);
    assert_eq!(status, world.get_status());
}

#[test]
fn a_frame_moves_the_head_one_column_to_the_right() {
    let mut world = World::new();
    let status = world.next_frame();
    assert_eq!(status.player.positions, vec![at(1, 2)]);
    assert_eq!(status.state, GameState::Play);
    assert_eq!(status.level, 1);
    assert_eq!(status.reward.positions, vec![at(3, 3)]);
}

#[test]
fn a_frame_moves_a_long_snake_and_drops_its_tail() {
    let mut world = world_with_long_snake();
    world.next_frame_with(at(0, 0));
    world.next_frame_with(at(0, 0));
    world.next_frame_with(at(0, 0));
    world.next_frame_with(at(0, 0));
    world.next_frame_with(at(0, 0));
    let before = world.get_status();
    assert_eq!(
        before.player.positions,
        vec![at(3, 10), at(3, 9), at(3, 8), at(3, 7), at(3, 6), at(3, 5), at(3, 4)]
    );
    let after = world.next_frame_with(at(0, 0));
    assert_eq!(
        after.player.positions,
        vec![at(3, 11), at(3, 10), at(3, 9), at(3, 8), at(3, 7), at(3, 6), at(3, 5)]
    );
    assert_eq!(after.state, GameState::Play);
    assert_eq!(after.level, 4);
    assert_eq!(after.reward.positions, vec![at(10, 10)]);
}

#[test]
fn frames_in_each_direction() {
    let mut world = World::new();
    world.face_down();
    assert_eq!(head(&world.next_frame()), at(2, 1));
    world.face_right();
    assert_eq!(head(&world.next_frame()), at(2, 2));
    world.face_up();
    assert_eq!(head(&world.next_frame()), at(1, 2));
    world.face_left();
    assert_eq!(head(&world.next_frame()), at(1, 1));
}

#[test]
fn facing_left_is_ignored_while_facing_right() {
    let mut world = World::new();
    world.face_left();
    assert_eq!(head(&world.next_frame()), at(1, 2));
}

#[test]
fn facing_right_is_ignored_while_facing_left() {
    let mut world = World::new();
    world.face_down();
    world.next_frame();
    world.face_left();
    world.face_right();
    assert_eq!(head(&world.next_frame()), at(2, 0));
}

#[test]
fn facing_down_is_ignored_while_facing_up() {
    let mut world = World::new();
    world.face_up();
    world.face_down();
    assert_eq!(head(&world.next_frame()), at(0, 1));
}

#[test]
fn facing_up_is_ignored_while_facing_down() {
    let mut world = World::new();
    world.face_down();
    world.face_up();
    assert_eq!(head(&world.next_frame()), at(2, 1));
}

#[test]
fn facing_the_same_way_again_changes_nothing() {
    let mut world = World::new();
    world.face_right();
    assert_eq!(head(&world.next_frame()), at(1, 2));
}

#[test]
fn two_turns_within_one_frame_both_count() {
    // The direction is stored at once, so after turning up a turn to the
    // left is no longer a turn right round.
    let mut world = World::new();
    world.face_up();
    world.face_left();
    assert_eq!(head(&world.next_frame()), at(1, 0));
}

#[test]
fn facing_does_not_move_the_snake() {
    let mut world = World::new();
    let before = world.get_status();
    world.face_down();
    world.face_left();
    assert_eq!(world.get_status(), before);
}

#[test]
fn leaving_the_grid_at_the_top_loses() {
    let mut world = World::new();
    world.face_up();
    assert_eq!(world.next_frame().state, GameState::Play);
    let status = world.next_frame();
    assert_eq!(status.state, GameState::Lost);
    assert_eq!(status.player.positions, vec![at(-1, 1)]);
    assert_eq!(status.level, 1);
    assert_eq!(status.reward.positions, vec![at(3, 3)]);
}

#[test]
fn leaving_the_grid_on_the_left_loses() {
    let mut world = World::new();
    world.face_down();
    world.next_frame();
    world.face_left();
    assert_eq!(world.next_frame().state, GameState::Play);
    let status = world.next_frame();
    assert_eq!(status.state, GameState::Lost);
    assert_eq!(status.player.positions, vec![at(2, -1)]);
}

#[test]
fn leaving_the_grid_on_the_right_loses() {
    let mut world = World::new();
    for col in 2..21 {
        let status = world.next_frame();
        assert_eq!(status.state, GameState::Play);
        assert_eq!(head(&status), at(1, col));
    }
    let status = world.next_frame();
    assert_eq!(status.state, GameState::Lost);
    assert_eq!(status.player.positions, vec![at(1, 21)]);
}

#[test]
fn leaving_the_grid_at_the_bottom_loses() {
    let mut world = World::new();
    world.face_down();
    for row in 2..12 {
        let status = world.next_frame();
        assert_eq!(status.state, GameState::Play);
        assert_eq!(head(&status), at(row, 1));
    }
    let status = world.next_frame();
    assert_eq!(status.state, GameState::Lost);
    assert_eq!(status.player.positions, vec![at(12, 1)]);
}

#[test]
fn a_lost_game_no_longer_moves() {
    let mut world = World::new();
    world.face_up();
    world.next_frame();
    let lost = world.next_frame();
    assert_eq!(lost.state, GameState::Lost);
    assert_eq!(world.next_frame(), lost);
    assert_eq!(world.next_frame_with(at(5, 5)), lost);
    world.toggle_pause();
    assert_eq!(world.get_status(), lost);
    world.face_down();
    assert_eq!(world.next_frame(), lost);
}

#[test]
fn eating_the_first_reward_adds_one_segment() {
    let mut world = world_below_start();
    let status = world.next_frame_with(at(7, 7));
    assert_eq!(status.state, GameState::Play);
    assert_eq!(status.level, 2);
    assert_eq!(status.player.positions, vec![at(3, 3), at(3, 3)]);
    assert_eq!(status.reward.positions, vec![at(7, 7)]);
}

#[test]
fn eating_at_level_two_and_three_adds_two_and_three_segments() {
    let mut world = world_below_start();
    world.next_frame_with(at(3, 4));
    world.face_right();
    let status = world.next_frame_with(at(3, 5));
    assert_eq!(status.level, 3);
    assert_eq!(status.player.positions, vec![at(3, 4), at(3, 3), at(3, 3), at(3, 3)]);
    assert_eq!(status.reward.positions, vec![at(3, 5)]);
    let status = world.next_frame_with(at(10, 10));
    assert_eq!(status.level, 4);
    assert_eq!(
        status.player.positions,
        vec![at(3, 5), at(3, 4), at(3, 3), at(3, 3), at(3, 3), at(3, 3), at(3, 3)]
    );
    assert_eq!(status.reward.positions, vec![at(10, 10)]);
    assert_eq!(status.state, GameState::Play);
}

#[test]
fn new_segments_unfold_behind_the_snake() {
    let mut world = world_with_long_snake();
    let status = world.next_frame_with(at(0, 0));
    assert_eq!(
        status.player.positions,
        vec![at(3, 6), at(3, 5), at(3, 4), at(3, 3), at(3, 3), at(3, 3), at(3, 3)]
    );
}

#[test]
fn eating_with_a_random_reward_puts_it_on_a_free_cell() {
    for _ in 0..200 {
        let mut world = world_below_start();
        let status = world.next_frame();
        assert_eq!(status.state, GameState::Play);
        assert_eq!(status.level, 2);
        assert_eq!(status.player.positions, vec![at(3, 3), at(3, 3)]);
        assert_eq!(status.reward.positions.len(), 1);
        assert_ne!(reward(&status), at(3, 3));
        assert!(world.get_dimension().contains(&reward(&status)));
    }
}

#[test]
fn a_candidate_on_the_snake_gives_way_to_the_first_free_cell() {
    let mut world = world_below_start();
    let status = world.next_frame_with(at(3, 3));
    assert_eq!(status.reward.positions, vec![at(0, 0)]);
    assert_eq!(status.level, 2);
}

#[test]
fn a_candidate_off_the_grid_gives_way_to_the_first_free_cell() {
    let mut world = world_below_start();
    assert_eq!(reward(&world.next_frame_with(at(12, 0))), at(0, 0));
    let mut world = world_below_start();
    assert_eq!(reward(&world.next_frame_with(at(0, 21))), at(0, 0));
    let mut world = world_below_start();
    assert_eq!(reward(&world.next_frame_with(at(-1, 5))), at(0, 0));
}

#[test]
fn a_candidate_is_not_looked_at_unless_the_reward_is_eaten() {
    let mut world = World::new();
    let status = world.next_frame_with(at(9, 9));
    assert_eq!(status.reward.positions, vec![at(3, 3)]);
    assert_eq!(status.player.positions, vec![at(1, 2)]);
}

#[test]
fn the_tenth_reward_wins_the_game() {
    let mut world = world_below_start();
    let mut length = 1;
    let mut status = world.next_frame_with(at(3, 4));
    world.face_right();
    length += 1;
    assert_eq!(status.player.positions.len(), length);
    for level in 2..10 {
        assert_eq!(status.level, level);
        assert_eq!(status.state, GameState::Play);
        status = world.next_frame_with(at(3, 3 + level as i16));
        length += level;
        assert_eq!(status.player.positions.len(), length);
        assert_eq!(head(&status), at(3, 2 + level as i16));
    }
    assert_eq!(status.level, 10);
    assert_eq!(status.state, GameState::Play);
    assert_eq!(length, 46);
    status = world.next_frame_with(at(8, 8));
    assert_eq!(status.state, GameState::Won);
    assert_eq!(status.level, 10);
    assert_eq!(status.player.positions.len(), 56);
    assert_eq!(head(&status), at(3, 12));
    assert_eq!(status.reward.positions, vec![at(8, 8)]);
}

#[test]
fn a_won_game_no_longer_moves() {
    let mut world = world_below_start();
    world.next_frame_with(at(3, 4));
    world.face_right();
    for level in 2..11 {
        world.next_frame_with(at(3, 3 + level as i16));
    }
    let won = world.get_status();
    assert_eq!(won.state, GameState::Won);
    assert_eq!(world.next_frame(), won);
    assert_eq!(world.next_frame_with(at(5, 5)), won);
    world.toggle_pause();
    assert_eq!(world.get_status(), won);
}

#[test]
fn running_into_the_body_loses() {
    let mut world = world_with_long_snake();
    world.next_frame_with(at(0, 0));
    world.face_down();
    world.next_frame_with(at(0, 0));
    world.face_left();
    let status = world.next_frame_with(at(0, 0));
    assert_eq!(status.state, GameState::Play);
    assert_eq!(
        status.player.positions,
        vec![at(4, 5), at(4, 6), at(3, 6), at(3, 5), at(3, 4), at(3, 3), at(3, 3)]
    );
    world.face_up();
    let status = world.next_frame_with(at(0, 0));
    assert_eq!(status.state, GameState::Lost);
    assert_eq!(status.level, 4);
    assert_eq!(
        status.player.positions,
        vec![at(3, 5), at(4, 5), at(4, 6), at(3, 6), at(3, 5), at(3, 4), at(3, 3)]
    );
    assert_eq!(status.reward.positions, vec![at(10, 10)]);
    assert_eq!(world.next_frame(), status);
}

#[test]
fn following_the_tail_is_no_collision() {
    // The head may enter the cell that the tail leaves in the same frame.
    let mut world = world_below_start();
    world.next_frame_with(at(3, 4));
    world.face_right();
    world.next_frame_with(at(9, 9));
    // Four segments: walk a square of four cells.
    world.next_frame_with(at(0, 0));
    world.next_frame_with(at(0, 0));
    world.face_down();
    world.next_frame_with(at(0, 0));
    world.face_left();
    let status = world.next_frame_with(at(0, 0));
    assert_eq!(status.player.positions, vec![at(4, 5), at(4, 6), at(3, 6), at(3, 5)]);
    world.face_up();
    let status = world.next_frame_with(at(0, 0));
    assert_eq!(status.state, GameState::Play);
    assert_eq!(status.player.positions, vec![at(3, 5), at(4, 5), at(4, 6), at(3, 6)]);
}

#[test]
fn pausing_twice_returns_to_play() {
    let mut world = world_with_long_snake();
    let before = world.get_status();
    world.toggle_pause();
    let paused = world.get_status();
    assert_eq!(paused.state, GameState::Pause);
    assert_eq!(paused.player, before.player);
    assert_eq!(paused.reward, before.reward);
    assert_eq!(paused.level, before.level);
    world.toggle_pause();
    assert_eq!(world.get_status(), before);
}

#[test]
fn a_paused_game_does_not_move() {
    let mut world = World::new();
    world.toggle_pause();
    let paused = world.get_status();
    assert_eq!(world.next_frame(), paused);
    assert_eq!(world.next_frame_with(at(4, 4)), paused);
    world.toggle_pause();
    assert_eq!(head(&world.next_frame()), at(1, 2));
}

#[test]
fn a_turn_made_while_paused_counts_after_the_pause() {
    let mut world = World::new();
    world.toggle_pause();
    world.face_down();
    assert_eq!(head(&world.next_frame()), at(1, 1));
    world.toggle_pause();
    assert_eq!(head(&world.next_frame()), at(2, 1));
}

#[test]
fn status_is_a_copy() {
    let mut world = World::new();
    let mut status = world.get_status();
    status.player.positions.push(at(9, 9));
    status.reward.positions.clear();
    status.level = 7;
    status.state = GameState::Won;
    let fresh = world.get_status();
    assert_eq!(fresh.player.positions, vec![at(1, 1)]);
    assert_eq!(fresh.reward.positions, vec![at(3, 3)]);
    assert_eq!(fresh.level, 1);
    assert_eq!(fresh.state, GameState::Play);
    assert_eq!(head(&world.next_frame()), at(1, 2));
}

#[test]
fn status_can_be_asked_before_any_frame_and_repeatedly() {
    let world = World::new();
    assert_eq!(world.get_status(), world.get_status());
}

/// Steers towards the reward, never asking for a turn right round, and
/// checks after every frame what must hold of a game.
fn play_and_check(frames: usize) -> GameState {
    let mut world = World::new();
    let dimension = world.get_dimension();
    let mut status = world.get_status();
    let mut dodge = false;
    for _ in 0..frames {
        let from = head(&status);
        let goal = reward(&status);
        if dodge {
            world.face_down();
            world.face_up();
        } else if goal.col > from.col {
            world.face_right();
        } else if goal.col < from.col {
            world.face_left();
        } else if goal.row > from.row {
            world.face_down();
        } else {
            world.face_up();
        }
        dodge = false;
        let before = status;
        status = world.next_frame();
        assert!(status.player.positions.len() >= 1);
        assert_eq!(status.reward.positions.len(), 1);
        assert!(dimension.contains(&reward(&status)));
        assert!(!status.player.positions.contains(&reward(&status)));
        assert!(1 <= status.level && status.level <= 10);
        if status.state != GameState::Play {
            assert!(status.state == GameState::Won || status.state == GameState::Lost);
            assert_eq!(world.next_frame(), status);
            return status.state;
        }
        for cell in &status.player.positions {
            assert!(dimension.contains(cell));
        }
        if status.level == before.level {
            assert_eq!(status.player.positions.len(), before.player.positions.len());
            assert_eq!(status.reward, before.reward);
            // The head did not get where it was sent: it kept its old
            // direction, so the next turn goes sideways first.
            dodge = head(&status) == from;
        } else {
            assert_eq!(status.level, before.level + 1);
            assert_eq!(
                status.player.positions.len(),
                before.player.positions.len() + before.level
            );
            assert_eq!(head(&status), reward(&before));
        }
        let length = 1 + status.level * (status.level - 1) / 2;
        assert_eq!(status.player.positions.len(), length);
    }
    status.state
}

#[test]
fn random_games_keep_the_reward_off_the_snake() {
    let mut finished = 0;
    for _ in 0..300 {
        let state = play_and_check(3000);
        if state == GameState::Won || state == GameState::Lost {
            finished += 1;
        }
    }
    assert!(finished > 0);
}
