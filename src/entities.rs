//! The bodies of the simulation and the board they move on.
use vstd::prelude::*;

use crate::geometry::{point_bounded, Point, LIMIT};

verus! {

/// The player's vertical pull toward the ground, per tick.
pub const GRAVITY: i64 = 90;

/// Velocity gained per tick by the player toward its hooked anchor.
pub const PLAYER_PULL: i64 = 250;

/// Velocity gained per tick by a hooked anchor toward the player.
pub const ANCHOR_PULL: i64 = 40;

/// An anchor that is not hooked keeps `DAMP_NUM / DAMP_DEN` of its velocity
/// each tick.
pub const DAMP_NUM: i64 = 9;

pub const DAMP_DEN: i64 = 10;

/// An anchor closer than this to the cursor is selected.
pub const SELECT_RADIUS: i64 = 30_000;

/// A new anchor is spawned while the highest one is less than this far above
/// the player's best height.
pub const LOOKAHEAD: i64 = 150_000;

/// New anchors appear less than this far above the player's best height.
pub const SPAWN_MAX_GAP: i64 = 450_000;

/// Largest magnitude of a board offset or wall position.
pub const BOARD_LIMIT: i64 = 1_000_000_000;

/// Where the player starts each round, and with which velocity.
pub const START_X: i64 = 0;

pub const START_Y: i64 = -160_000;

pub const START_VX: i64 = 500;

pub const START_VY: i64 = 15_500;

/// The controllable body.
#[derive(Clone, Copy, Debug, PartialEq, Eq, Structural)]
pub struct Player {
    pub position: Point,
    pub velocity: Point,
    /// Best height reached in this round: the score.
    pub max_height: i64,
    pub dead: bool,
}

/// A floating body that the player can hook onto.
#[derive(Clone, Copy, Debug, PartialEq, Eq, Structural)]
pub struct Anchor {
    pub position: Point,
    pub velocity: Point,
    /// Close enough to the cursor to be hooked.
    pub selected: bool,
    /// Latched to the player.
    pub hooked: bool,
}

/// The walls and the vertical offsets, relative to the player's best height,
/// below which anchors are dropped and above which new ones appear.
#[derive(Clone, Copy, Debug, PartialEq, Eq, Structural)]
pub struct Board {
    pub left: i64,
    pub right: i64,
    pub bottom_offset: i64,
    pub top_offset: i64,
}

impl Player {
    pub open spec fn wf(self) -> bool {
        &&& point_bounded(self.position)
        &&& point_bounded(self.velocity)
        &&& 0 <= self.max_height <= LIMIT
    }

    /// The player as each round starts it.
    pub open spec fn start_spec() -> Player {
        Player {
            position: Point { x: START_X, y: START_Y },
            velocity: Point { x: START_VX, y: START_VY },
            max_height: 0,
            dead: false,
        }
    }

    /// The player at its spawn point, at rest in score and alive.
    pub fn start() -> (r: Player)
        ensures
            r == Player::start_spec(),
            r.wf(),
    {
        Player {
            position: Point { x: START_X, y: START_Y },
            velocity: Point { x: START_VX, y: START_VY },
            max_height: 0,
            dead: false,
        }
    }
}

impl Anchor {
    pub open spec fn wf(self) -> bool {
        point_bounded(self.position) && point_bounded(self.velocity)
    }

    /// A fresh anchor at `position`: at rest, neither selected nor hooked.
    pub fn at(position: Point) -> (r: Anchor)
        ensures
            r == (Anchor { position, velocity: Point { x: 0, y: 0 }, selected: false, hooked: false }),
    {
        Anchor { position, velocity: Point { x: 0, y: 0 }, selected: false, hooked: false }
    }
}

pub open spec fn anchors_wf(s: Seq<Anchor>) -> bool {
    forall|i: int| 0 <= i < s.len() ==> #[trigger] s[i].wf()
}

impl Board {
    pub open spec fn wf(self) -> bool {
        &&& -BOARD_LIMIT <= self.left < self.right <= BOARD_LIMIT
        &&& -BOARD_LIMIT <= self.bottom_offset < 0
        &&& 0 < self.top_offset < SPAWN_MAX_GAP
    }

    /// The board of the standard game.
    pub fn standard() -> (r: Board)
        ensures
            r.wf(),
            r == (Board { left: -200_000i64, right: 200_000, bottom_offset: -340_000i64, top_offset: 330_000 }),
    {
        Board { left: -200_000, right: 200_000, bottom_offset: -340_000, top_offset: 330_000 }
    }
}

} // verus!
