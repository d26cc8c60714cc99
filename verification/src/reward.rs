//! The reward: one cell that the snake is after.

use vstd::prelude::*;
use crate::model::{AssetType, Position, RenderableAsset};

verus! {

/// The cell that holds the reward.
#[derive(Clone, Debug)]
pub struct Reward(Position);

impl View for Reward {
    type V = Position;

    /// The cell the reward lies on.
    closed spec fn view(&self) -> Position {
        self.0
    }
}

impl Reward {
    /// A reward lying on `at`.
    pub fn new(at: Position) -> (reward: Self)
        ensures
            reward@ == at,
    {
        Self(at)
    }

    /// The cell the reward lies on.
    pub fn position(&self) -> (at: &Position)
        ensures
            *at == self@,
    {
        &self.0
    }
}

impl<'a> vstd::std_specs::convert::FromSpecImpl<&'a Reward> for RenderableAsset {
    /// The conversion allocates, so its result is described by the
    /// postcondition of `from` rather than by a value.
    open spec fn obeys_from_spec() -> bool {
        false
    }

    open spec fn from_spec(value: &'a Reward) -> Self {
        arbitrary()
    }
}

impl<'a> From<&'a Reward> for RenderableAsset {
    /// The reward as something to draw: its one cell, tagged as a reward.
    fn from(value: &'a Reward) -> (asset: Self)
        ensures
            asset.shows(AssetType::Reward, seq![value@]),
    {
        let positions = vec![value.0];
        assert(positions@ =~= seq![value@]);
        RenderableAsset { asset_type: AssetType::Reward, positions }
    }
}

} // verus!
