//! Gravity, movement, the side walls, and falling too far below the best
//! height.
use vstd::prelude::*;

use crate::entities::{anchors_wf, Anchor, Board, Player, GRAVITY};
use crate::geometry::{add_clamped, add_clamped_spec, add_points, clamp, div_trunc, Point};

verus! {

/// The player after one tick of gravity.
pub open spec fn gravity_spec(p: Player) -> Player {
    Player { velocity: Point { x: p.velocity.x, y: clamp(p.velocity.y - GRAVITY) as i64 }, ..p }
}

/// The player moved by its velocity, with its best height brought up to date.
pub open spec fn move_player_spec(p: Player) -> Player {
    let pos = add_clamped_spec(p.position, p.velocity);
    Player {
        position: pos,
        max_height: if pos.y > p.max_height { pos.y } else { p.max_height },
        ..p
    }
}

/// Every anchor moved by its velocity.
pub open spec fn move_anchors_spec(s: Seq<Anchor>) -> Seq<Anchor> {
    Seq::new(
        s.len(),
        |i: int| Anchor { position: add_clamped_spec(s[i].position, s[i].velocity), ..s[i] },
    )
}

/// A horizontal velocity after hitting a wall: reversed and halved, rounded
/// away from zero so that a moving body keeps moving.
pub open spec fn bounce(v: int) -> int {
    -(v - div_trunc(v, 2))
}

/// The player is beyond one of the side walls.
pub open spec fn outside_walls(p: Player, b: Board) -> bool {
    p.position.x > b.right || p.position.x < b.left
}

/// The player put back between the walls, its horizontal velocity bounced.
pub open spec fn walls_spec(p: Player, b: Board) -> Player {
    if outside_walls(p, b) {
        Player {
            position: Point { x: if p.position.x > b.right { b.right } else { b.left }, y: p.position.y },
            velocity: Point { x: bounce(p.velocity.x as int) as i64, y: p.velocity.y },
            ..p
        }
    } else {
        p
    }
}

/// The player has fallen farther below its best height than the board
/// tolerates.
pub open spec fn too_low(p: Player, b: Board) -> bool {
    p.max_height - p.position.y > -b.bottom_offset
}

/// The player marked dead where it has fallen too low.
pub open spec fn too_low_spec(p: Player, b: Board) -> Player {
    if too_low(p, b) {
        Player { dead: true, ..p }
    } else {
        p
    }
}

/// Pulls the player down by one tick of gravity.
pub fn apply_gravity(player: &mut Player)
    requires
        old(player).wf(),
    ensures
        *final(player) == gravity_spec(*old(player)),
        final(player).wf(),
{
    player.velocity.y = add_clamped(player.velocity.y, -GRAVITY);
}

/// Moves the player by its velocity and raises its best height to its new
/// height where that is higher.
pub fn move_player(player: &mut Player)
    requires
        old(player).wf(),
    ensures
        *final(player) == move_player_spec(*old(player)),
        final(player).wf(),
        final(player).max_height >= old(player).max_height,
        final(player).max_height >= final(player).position.y,
{
    player.position = add_points(player.position, player.velocity);
    if player.position.y > player.max_height {
        player.max_height = player.position.y;
    }
}

/// Moves every anchor by its velocity.
pub fn move_anchors(anchors: &mut Vec<Anchor>)
    requires
        anchors_wf(old(anchors)@),
    ensures
        final(anchors)@ == move_anchors_spec(old(anchors)@),
        anchors_wf(final(anchors)@),
{
    let n = anchors.len();
    let ghost s0 = anchors@;
    for i in 0..n
        invariant
            n == s0.len(),
            anchors@.len() == n,
            anchors_wf(s0),
            forall|j: int| 0 <= j < i ==> anchors@[j] == move_anchors_spec(s0)[j],
            forall|j: int| 0 <= j < i ==> (#[trigger] anchors@[j]).wf(),
            forall|j: int| i <= j < n ==> anchors@[j] == s0[j],
    {
        let mut a = anchors[i];
        assert(s0[i as int].wf());
        a.position = add_points(a.position, a.velocity);
        anchors.set(i, a);
    }
    assert(anchors@ =~= move_anchors_spec(s0));
}

/// Puts a player that has crossed a side wall back onto it and bounces its
/// horizontal velocity. Returns whether it did.
pub fn collide_walls(player: &mut Player, board: &Board) -> (bounced: bool)
    requires
        old(player).wf(),
        board.wf(),
    ensures
        *final(player) == walls_spec(*old(player), *board),
        bounced == outside_walls(*old(player), *board),
        final(player).wf(),
        board.left <= final(player).position.x <= board.right,
{
    let x = player.position.x;
    if x > board.right || x < board.left {
        player.position.x = if x > board.right { board.right } else { board.left };
        let v = player.velocity.x;
        let half = if v >= 0 { v / 2 } else { -((-v) / 2) };
        player.velocity.x = -(v - half);
        true
    } else {
        false
    }
}

/// Marks the player dead where it has fallen farther below its best height
/// than the board's bottom offset allows. Returns whether it did.
pub fn check_too_low(player: &mut Player, board: &Board) -> (fell: bool)
    requires
        old(player).wf(),
        board.wf(),
    ensures
        *final(player) == too_low_spec(*old(player), *board),
        fell == too_low(*old(player), *board),
        final(player).wf(),
{
    if player.max_height - player.position.y > -board.bottom_offset {
        player.dead = true;
        true
    } else {
        false
    }
}

} // verus!
