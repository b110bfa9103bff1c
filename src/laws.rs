//! Properties of the tick that hold for every world and every input.
use vstd::prelude::*;

use crate::entities::{Anchor, Board, Player, GRAVITY, LOOKAHEAD, SELECT_RADIUS, SPAWN_MAX_GAP};
use crate::geometry::{dist2, is_isqrt, sqrt_floor, Point, LIMIT};
use crate::hook::{any_hooked, attach_spec, is_pick, pulled_velocity, rank, select_spec};
use crate::lifecycle::{
    floor_of, highest, kept_above, lemma_highest_attained, lemma_highest_bounds,
    lemma_kept_above, spawn_draw_ok, spawn_spec, spawned,
};
use crate::physics::{too_low_spec, walls_spec};
use crate::world::{
    hook_stage_spec, live_round, motion_spec, select_stage_spec, tick_spec, TickInput, WorldModel,
};

verus! {

/// Without a hooked anchor, the pull leaves the player's velocity alone.
proof fn lemma_no_pull(v: Point, pos: Point, s: Seq<Anchor>)
    requires
        !any_hooked(s),
    ensures
        pulled_velocity(v, pos, s) == v,
    decreases s.len(),
{
    if s.len() > 0 {
        assert(!s[s.len() - 1].hooked);
        assert forall|i: int| 0 <= i < s.drop_last().len() implies !(
        #[trigger] s.drop_last()[i]).hooked by {
            assert(s[i] == s.drop_last()[i]);
        }
        lemma_no_pull(v, pos, s.drop_last());
    }
}

/// Every natural number has an integer square root.
proof fn lemma_isqrt_exists(n: int)
    requires
        n >= 0,
    ensures
        is_isqrt(n, sqrt_floor(n)),
    decreases n,
{
    if n == 0 {
        assert(is_isqrt(0, 0));
    } else {
        lemma_isqrt_exists(n - 1);
        let r = sqrt_floor(n - 1);
        if n < (r + 1) * (r + 1) {
            assert(is_isqrt(n, r));
        } else {
            assert(n == (r + 1) * (r + 1));
            assert(n < (r + 2) * (r + 2)) by (nonlinear_arith)
                requires
                    n == (r + 1) * (r + 1),
                    r >= 0,
            ;
            assert(is_isqrt(n, r + 1));
        }
    }
}

/// Gravity: in a tick of a running round where no anchor is hooked once the
/// button has been read, the player's vertical velocity drops by exactly
/// `GRAVITY` (short of the coordinate limit).
pub proof fn law_gravity_without_hook(m: WorldModel, input: TickInput, x: int, gap: int)
    requires
        m.wf(),
        live_round(m),
        !any_hooked(hook_stage_spec(m.anchors, input)),
        m.player.unwrap().velocity.y - GRAVITY >= -LIMIT,
    ensures
        tick_spec(m, input, x, gap).player.unwrap().velocity.y == m.player.unwrap().velocity.y
            - GRAVITY,
{
    let p = m.player.unwrap();
    lemma_no_pull(p.velocity, p.position, hook_stage_spec(m.anchors, input));
}

/// Best height: a tick of a running round never lowers the player's best
/// height, which becomes the larger of the old best and the new height, and
/// so is never below the player.
pub proof fn law_best_height(m: WorldModel, input: TickInput, x: int, gap: int)
    requires
        m.wf(),
        live_round(m),
    ensures
        ({
            let before = m.player.unwrap();
            let after = tick_spec(m, input, x, gap).player.unwrap();
            &&& after.max_height >= before.max_height
            &&& after.max_height == if after.position.y > before.max_height {
                after.position.y
            } else {
                before.max_height
            }
            &&& after.max_height >= after.position.y
        }),
{
}

/// Selection: an anchor is selected exactly when its distance to the cursor,
/// rounded down, is below the selection radius; an anchor exactly on the
/// radius is not selected.
pub proof fn law_selection_radius(s: Seq<Anchor>, c: Point, i: int)
    requires
        0 <= i < s.len(),
    ensures
        select_spec(s, c)[i].selected == (sqrt_floor(dist2(s[i].position, c)) < SELECT_RADIUS),
{
    let n = dist2(s[i].position, c);
    assert(n >= 0) by (nonlinear_arith)
        requires
            n == (s[i].position.x - c.x) * (s[i].position.x - c.x) + (s[i].position.y - c.y) * (
            s[i].position.y - c.y),
    ;
    lemma_isqrt_exists(n);
    let r = sqrt_floor(n);
    let k = SELECT_RADIUS as int;
    if r < k {
        assert(n < k * k) by (nonlinear_arith)
            requires
                n < (r + 1) * (r + 1),
                0 <= r + 1 <= k,
        ;
    } else {
        assert(n >= k * k) by (nonlinear_arith)
            requires
                r * r <= n,
                0 <= k <= r,
        ;
    }
}

/// The pick depends on the anchors' positions and selection alone.
proof fn lemma_pick_same_selection(s: Seq<Anchor>, t: Seq<Anchor>, cursor: Option<Point>, i: int)
    requires
        s.len() == t.len(),
        forall|j: int|
            #![trigger t[j]]
            0 <= j < s.len() ==> t[j].selected == s[j].selected && t[j].position == s[j].position,
    ensures
        is_pick(t, cursor, i) == is_pick(s, cursor, i),
{
    assert forall|j: int| 0 <= j < s.len() implies rank(#[trigger] t[j], cursor) == rank(
        s[j],
        cursor,
    ) by {
        assert(t[j].position == s[j].position);
    }
    if 0 <= i < s.len() {
        if is_pick(s, cursor, i) {
            assert forall|j: int| 0 <= j < t.len() && #[trigger] t[j].selected implies rank(
                t[i],
                cursor,
            ) <= rank(t[j], cursor) by {
                assert(s[j].selected);
            }
            assert forall|j: int| 0 <= j < i && #[trigger] t[j].selected implies rank(
                t[i],
                cursor,
            ) < rank(t[j], cursor) by {
                assert(s[j].selected);
            }
        }
        if is_pick(t, cursor, i) {
            assert forall|j: int| 0 <= j < s.len() && #[trigger] s[j].selected implies rank(
                s[i],
                cursor,
            ) <= rank(s[j], cursor) by {
                assert(t[j].selected);
            }
            assert forall|j: int| 0 <= j < i && #[trigger] s[j].selected implies rank(
                s[i],
                cursor,
            ) < rank(s[j], cursor) by {
                assert(t[j].selected);
            }
        }
    }
}

/// Pressing the button again, with nothing else changed, hooks the same
/// anchor: the press hooks by selection, it does not toggle.
pub proof fn law_press_twice(s: Seq<Anchor>, cursor: Option<Point>)
    ensures
        attach_spec(attach_spec(s, cursor), cursor) == attach_spec(s, cursor),
{
    let a = attach_spec(s, cursor);
    assert forall|i: int| 0 <= i < a.len() implies #[trigger] attach_spec(a, cursor)[i] == a[i] by {
        lemma_pick_same_selection(s, a, cursor, i);
    }
    assert(attach_spec(a, cursor) =~= a);
}

/// A press read twice in the same place, without a release, leaves the
/// anchors as a single press does.
pub proof fn law_hold_press(s: Seq<Anchor>, input: TickInput)
    requires
        input.pressed,
        !input.released,
    ensures
        hook_stage_spec(hook_stage_spec(s, input), input) == hook_stage_spec(s, input),
{
    let sel = select_stage_spec(s, input);
    let once = hook_stage_spec(s, input);
    assert(once == attach_spec(sel, input.cursor));
    law_press_twice(sel, input.cursor);
    if let Some(c) = input.cursor {
        assert(select_spec(once, c) =~= once);
    }
}

/// Walls: a player beyond the right wall and moving right is put back on
/// the wall and sent left; beyond the left wall and moving left, put back
/// and sent right.
pub proof fn law_wall_turns_back(p: Player, b: Board)
    requires
        p.wf(),
        b.wf(),
    ensures
        p.position.x > b.right && p.velocity.x > 0 ==> walls_spec(p, b).position.x == b.right
            && walls_spec(p, b).velocity.x < 0,
        p.position.x < b.left && p.velocity.x < 0 ==> walls_spec(p, b).position.x == b.left
            && walls_spec(p, b).velocity.x > 0,
{
}

/// Spawning: after every tick of a running round the highest anchor stands
/// at least `LOOKAHEAD` above the player's best height (short of the
/// coordinate limit).
pub proof fn law_lookahead_restored(m: WorldModel, input: TickInput, x: int, gap: int)
    requires
        m.wf(),
        live_round(m),
        spawn_draw_ok(m.board, x, gap),
        m.board.top_offset >= LOOKAHEAD,
        tick_spec(m, input, x, gap).player.unwrap().max_height <= LIMIT - SPAWN_MAX_GAP,
    ensures
        tick_spec(m, input, x, gap).anchors.len() > 0,
        highest(tick_spec(m, input, x, gap).anchors) - tick_spec(
            m,
            input,
            x,
            gap,
        ).player.unwrap().max_height >= LOOKAHEAD,
{
    let moved = motion_spec(m.player.unwrap(), hook_stage_spec(m.anchors, input), m.board);
    let p = too_low_spec(moved.0, m.board);
    let s6 = spawn_spec(p, moved.1, x, gap);
    let floor = floor_of(p, m.board);
    let fin = kept_above(s6, floor);
    assert(fin == tick_spec(m, input, x, gap).anchors);
    assert(p.max_height >= 0);
    // some anchor of s6 stands LOOKAHEAD above the best height
    let w: int = if highest(moved.1) - p.max_height < LOOKAHEAD {
        assert(s6[s6.len() - 1] == spawned(p, x, gap));
        s6.len() - 1
    } else {
        lemma_highest_attained(moved.1);
        let i = choose|i: int|
            0 <= i < moved.1.len() && (#[trigger] moved.1[i]).position.y == highest(moved.1);
        assert(s6[i] == moved.1[i]);
        i
    };
    assert(s6[w].position.y >= p.max_height + LOOKAHEAD);
    lemma_kept_above(s6, floor);
    assert(fin.contains(s6[w]));
    let j = choose|j: int| 0 <= j < fin.len() && fin[j] == s6[w];
    lemma_highest_bounds(fin);
    assert(highest(fin) >= fin[j].position.y);
}

/// Despawning: after every tick of a running round no anchor stands below
/// the player's best height plus the board's bottom offset.
pub proof fn law_no_anchor_below_floor(m: WorldModel, input: TickInput, x: int, gap: int)
    requires
        m.wf(),
        live_round(m),
    ensures
        ({
            let after = tick_spec(m, input, x, gap);
            forall|i: int|
                0 <= i < after.anchors.len() ==> (#[trigger] after.anchors[i]).position.y
                    >= after.player.unwrap().max_height + after.board.bottom_offset
        }),
{
    let moved = motion_spec(m.player.unwrap(), hook_stage_spec(m.anchors, input), m.board);
    let p = too_low_spec(moved.0, m.board);
    let s6 = spawn_spec(p, moved.1, x, gap);
    lemma_kept_above(s6, floor_of(p, m.board));
}

} // verus!
