//! A grid-based snake simulation: world geometry, the snake's body, the reward
//! and the state machine that ties them together.

pub mod laws;
pub mod model;
pub mod placement;
pub mod reward;
pub mod rules;
pub mod snake;
pub mod world;

pub use model::{
    AssetType, GameState, MoveDirection, Position, RenderableAsset, WorldDimension, WorldStatus,
};
pub use world::World;
